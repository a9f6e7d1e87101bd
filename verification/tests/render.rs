use terminal_graph_plot::terminal_graph::TerminalGraph;
use terminal_graph_plot::widgets::GraphSample;

fn frame_string(buf: &[char]) -> String {
    buf.iter().collect()
}

/// Evaluate a real function at each column's graph x, as the input loop
/// around the engine does: truncate finite values, send the off-surface
/// sentinel for the rest.
fn sample_function<F: Fn(f64) -> f64>(xs: &[i64], f: F) -> Vec<GraphSample> {
    xs.iter()
        .map(|&x| {
            let y = f(x as f64);
            if y.is_nan() || y.is_infinite() {
                GraphSample::OffSurface
            } else {
                GraphSample::Value(y as i64)
            }
        })
        .collect()
}

#[test]
fn default_axes_on_10_by_5() {
    let mut g = TerminalGraph::default_axes();
    let buf = g.draw((10, 5), &vec![]);
    let rows = [
        "     |    ",
        "     |    ",
        "-----+----",
        "     |    ",
        "     |    ",
    ];
    let mut expected = String::new();
    for row in rows {
        expected.push_str(row);
        expected.push('\n');
    }
    assert_eq!(frame_string(&buf), expected);
}

#[test]
fn identity_function_traces_antidiagonal() {
    let mut g = TerminalGraph::default_axes();
    g.add_graph(Some('#'));
    let xs = g.column_graph_xs((21, 21));
    let samples = sample_function(&xs, |x| x);
    let buf = g.draw((21, 21), &vec![samples]);
    // Graph +y points up, terminal +y points down: the marker of f(x) = x
    // falls on the terminal antidiagonal, row 20 - column.
    for col in 0..21i64 {
        let row = 20 - col;
        assert_eq!(buf[(row * 22 + col) as usize], '#');
    }
    // Away from the diagonal and the axes everything is blank.
    assert_eq!(buf[(0 * 22 + 0) as usize], ' ');
    // The curve wins the tie against the axes at the origin cell.
    assert_eq!(buf[(10 * 22 + 10) as usize], '#');
}

#[test]
fn non_finite_sample_leaves_column_blank() {
    let mut g = TerminalGraph::default_axes();
    g.add_graph(Some('#'));
    g.widgets.remove(1);  // keep only the curve: every mark below is its own
    let xs = g.column_graph_xs((5, 5));
    assert_eq!(xs, vec![-2, -1, 0, 1, 2]);
    let samples = sample_function(&xs, |x| 1.0 / x);
    assert_eq!(samples[2], GraphSample::OffSurface);
    let buf = g.draw((5, 5), &vec![samples]);
    // The column whose evaluation was infinite stays entirely blank.
    for row in 0..5i64 {
        assert_eq!(buf[(row * 6 + 2) as usize], ' ');
    }
    // Its neighbours still draw: 1/(-1) caches row 3, 1/1 caches row 1.
    assert_eq!(buf[(3 * 6 + 1) as usize], '#');
    assert_eq!(buf[(1 * 6 + 3) as usize], '#');
}

#[test]
fn front_layer_wins_equal_rows() {
    let mut g = TerminalGraph::default_axes();
    g.add_graph(Some('a'));
    g.add_graph(Some('b'));
    let xs = g.column_graph_xs((9, 9));
    let samples_a = sample_function(&xs, |x| x);
    let samples_b = sample_function(&xs, |x| x);
    // The most recently added layer stands first and is sampled first.
    let buf = g.draw((9, 9), &vec![samples_b, samples_a]);
    for col in 0..9i64 {
        let row = 8 - col;
        assert_eq!(buf[(row * 10 + col) as usize], 'b');
    }
}

#[test]
fn two_renders_are_byte_identical() {
    let mut g = TerminalGraph::default_axes();
    g.add_graph(None);
    let xs = g.column_graph_xs((13, 7));
    let samples = sample_function(&xs, |x| x * x - 2.0);
    let first = g.draw((13, 7), &vec![samples.clone()]);
    let second = g.draw((13, 7), &vec![samples]);
    assert_eq!(first, second);
}

#[test]
fn default_marker_is_hash_when_unset() {
    let mut g = TerminalGraph::default_axes();
    g.add_graph(None);
    let xs = g.column_graph_xs((5, 5));
    let samples = sample_function(&xs, |x| x);
    let buf = g.draw((5, 5), &vec![samples]);
    assert_eq!(buf[(4 * 6 + 0) as usize], '#');
}

#[test]
fn offset_moves_the_axes() {
    let mut g = TerminalGraph::default_axes();
    g.set_offset((1, 0));
    let buf = g.draw((10, 5), &vec![]);
    // The screen center moves one cell right, and the vertical axis with it.
    for row in 0..5i64 {
        let expected = if row == 2 { '+' } else { '|' };
        assert_eq!(buf[(row * 11 + 6) as usize], expected);
        assert_eq!(buf[(row * 11 + 5) as usize], if row == 2 { '-' } else { ' ' });
    }
}

#[test]
fn zoom_in_narrows_the_view() {
    let mut g = TerminalGraph::default_axes();
    g.add_graph(Some('#'));

    let xs = g.column_graph_xs((21, 21));
    let samples = sample_function(&xs, |x| x);
    let buf0 = g.draw((21, 21), &vec![samples]);
    // At unit scale the identity leaves the 21-wide view at its corners.
    assert_eq!(buf0[(0 * 22 + 20) as usize], '#');

    g.set_scale(1);
    let xs1 = g.column_graph_xs((21, 21));
    // Each column now spans half a graph unit: the sampled range narrows
    // from [-10, 10] to [-5, 5].
    assert_eq!(xs1[0], -5);
    assert_eq!(xs1[20], 5);
    let samples1 = sample_function(&xs1, |x| x);
    let buf1 = g.draw((21, 21), &vec![samples1]);
    // f(5) = 5 maps two rows per graph unit above the center: row 0.
    assert_eq!(buf1[(0 * 22 + 20) as usize], '#');
    // f at the column of graph x = -5 (column 0) maps to row 20.
    assert_eq!(buf1[(20 * 22 + 0) as usize], '#');
    // Columns 10 and 11 both sample graph x = 0 now: both cache the
    // center row.
    assert_eq!(buf1[(10 * 22 + 11) as usize], '#');
}

#[test]
fn zero_sized_surface_renders_empty() {
    let mut g = TerminalGraph::default_axes();
    let buf = g.draw((0, 0), &vec![]);
    assert!(buf.is_empty());
    let buf = g.draw((7, 0), &vec![]);
    assert!(buf.is_empty());
    // A zero-width surface still closes each of its rows.
    let buf = g.draw((0, 3), &vec![]);
    assert_eq!(frame_string(&buf), "\n\n\n");
}

#[test]
fn far_off_surface_values_draw_nothing() {
    let mut g = TerminalGraph::default_axes();
    g.add_graph(Some('#'));
    g.widgets.remove(1);
    g.set_scale(-20);
    let xs = g.column_graph_xs((5, 5));
    // Zoomed far out, a huge sample scales to a row no surface holds.
    let samples = vec![GraphSample::Value(i64::MAX); 5];
    let buf = g.draw((5, 5), &vec![samples]);
    for cell in buf {
        assert!(cell == ' ' || cell == '\n');
    }
}
