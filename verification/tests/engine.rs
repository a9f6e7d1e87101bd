use terminal_graph_plot::terminal_graph::TerminalGraph;
use terminal_graph_plot::widgets::{Axes, GraphFunction, GraphSample};

#[test]
fn screen_center_of_even_surface() {
    let c = TerminalGraph::get_screen_center(&(10, 5), &(0, 0));
    assert_eq!(c, (5, 2));
    let c = TerminalGraph::get_screen_center(&(21, 21), &(0, 0));
    assert_eq!(c, (10, 10));
    let c = TerminalGraph::get_screen_center(&(10, 5), &(3, -2));
    assert_eq!(c, (8, 4));
}

#[test]
fn terminal_to_graph_at_unit_scale() {
    let g = TerminalGraph::terminal_space_to_graph_space(&(16, 2), &(10, 10), 0);
    assert_eq!(g, (6, 8));
    let g = TerminalGraph::terminal_space_to_graph_space(&(0, 0), &(5, 2), 0);
    assert_eq!(g, (-5, 2));
}

#[test]
fn graph_to_terminal_at_unit_scale() {
    let t = TerminalGraph::graph_space_to_terminal_space(&(3, 4), &(10, 10), 0);
    assert_eq!(t, (13, 6));
}

#[test]
fn zoomed_out_round_trip_is_exact() {
    for scale in [-3i8, -2, -1, 0] {
        for tx in -8i64..=8 {
            for ty in -8i64..=8 {
                let c = (3i64, -2i64);
                let g = TerminalGraph::terminal_space_to_graph_space(&(tx, ty), &c, scale);
                let t = TerminalGraph::graph_space_to_terminal_space(&g, &c, scale);
                assert_eq!(t, (tx, ty));
            }
        }
    }
}

#[test]
fn zoomed_in_round_trip_within_one_cell() {
    for tx in -8i64..=8 {
        for ty in -8i64..=8 {
            let c = (1i64, 2i64);
            let g = TerminalGraph::terminal_space_to_graph_space(&(tx, ty), &c, 1);
            let t = TerminalGraph::graph_space_to_terminal_space(&g, &c, 1);
            assert!((t.0 - tx).abs() <= 1);
            assert!((t.1 - ty).abs() <= 1);
        }
    }
}

#[test]
fn graph_y_axis_points_up() {
    // One cell up in terminal space is one graph unit up at unit scale.
    let c = (5i64, 5i64);
    let above = TerminalGraph::terminal_space_to_graph_space(&(5, 4), &c, 0);
    let below = TerminalGraph::terminal_space_to_graph_space(&(5, 6), &c, 0);
    assert_eq!(above, (0, 1));
    assert_eq!(below, (0, -1));
}

#[test]
fn default_axes_center_is_origin() {
    let a = Axes::default();
    assert_eq!(a.char_at((0, 0), (0, 0)), Some('+'));
    assert_eq!(a.char_at((0, 7), (0, 0)), Some('|'));
    assert_eq!(a.char_at((-4, 0), (0, 0)), Some('-'));
    assert_eq!(a.char_at((3, 2), (0, 0)), None);
}

#[test]
fn axes_with_center_match_exactly() {
    let a = Axes::with_center((3, -2));
    assert_eq!(a.char_at((3, -2), (0, 0)), Some('+'));
    assert_eq!(a.char_at((3, 5), (0, 0)), Some('|'));
    assert_eq!(a.char_at((7, -2), (0, 0)), Some('-'));
    assert_eq!(a.char_at((4, -1), (0, 0)), None);
}

#[test]
fn function_layer_marker_defaults_to_hash() {
    let mut f = GraphFunction::new();
    assert_eq!(f.line_char, '#');
    f.set_char('@');
    assert_eq!(f.line_char, '@');
}

#[test]
fn function_layer_draws_only_cached_row() {
    let mut f = GraphFunction::new();
    // Before the first frame nothing is cached and nothing is drawn.
    assert_eq!(f.char_at((0, 0), (0, 0)), None);
    let samples = vec![
        GraphSample::Value(0),
        GraphSample::Value(1),
        GraphSample::OffSurface,
    ];
    f.pre_draw(&(3, 3), 0, &(0, 0), &samples);
    // center is (1, 1): y = 0 caches row 1, y = 1 caches row 0.
    assert_eq!(f.char_at((0, 0), (0, 1)), Some('#'));
    assert_eq!(f.char_at((0, 0), (0, 0)), None);
    assert_eq!(f.char_at((0, 0), (1, 0)), Some('#'));
    // The off-surface sentinel matches no row of its column.
    for row in -3i64..6 {
        assert_eq!(f.char_at((0, 0), (2, row)), None);
    }
    // Columns outside the cached range draw nothing.
    assert_eq!(f.char_at((0, 0), (3, 0)), None);
    assert_eq!(f.char_at((0, 0), (-1, 0)), None);
}

#[test]
fn column_xs_narrow_when_zooming_in() {
    let mut g = TerminalGraph::default_axes();
    let xs0 = g.column_graph_xs((21, 21));
    assert_eq!(xs0.len(), 21);
    assert_eq!(xs0[0], -10);
    assert_eq!(xs0[10], 0);
    assert_eq!(xs0[20], 10);
    // One zoom-in step halves the effective scale factor: the sampled
    // graph x of each column is the previous one halved, truncated.
    g.set_scale(1);
    let xs1 = g.column_graph_xs((21, 21));
    for i in 0..21 {
        let halved = {
            let v = xs0[i];
            if v >= 0 { v / 2 } else { -((-v) / 2) }
        };
        assert_eq!(xs1[i], halved);
    }
    assert_eq!(xs1[0], -5);
    assert_eq!(xs1[20], 5);
    // A zoom-out step doubles it.
    g.set_scale(-1);
    let xs_out = g.column_graph_xs((21, 21));
    assert_eq!(xs_out[0], -20);
    assert_eq!(xs_out[20], 20);
}

#[test]
fn mutators_take_effect_on_next_frame() {
    let mut g = TerminalGraph::default_axes();
    assert_eq!(g.screen_offset, (0, 0));
    assert_eq!(g.screen_scale, 0);
    g.set_offset((4, -1));
    g.set_scale(2);
    assert_eq!(g.screen_offset, (4, -1));
    assert_eq!(g.screen_scale, 2);
}
