use fenn::text::layout;
use fenn::FennMatrix;

#[test]
fn render_two_by_two() {
    let m = FennMatrix::from_slice(&[[1i64, 2], [3, 4]]);
    assert_eq!(m.render(0), "[[1 2]\n[3 4]]");
}

#[test]
fn render_with_tabs() {
    let m = FennMatrix::from_slice(&[[1.5f64, 2.0], [3.0, 4.25]]);
    assert_eq!(m.render(2), "\t\t[[1.5 2]\n\t\t[3 4.25]]");
}

#[test]
fn render_single_row() {
    let m = FennMatrix::from_slice(&[[7i64, 8, 9]]);
    assert_eq!(m.render(1), "\t[[7 8 9]]");
}

#[test]
fn layout_of_cells() {
    let cells = vec!["a".to_string(), "bb".to_string(), "c".to_string(), "d".to_string()];
    assert_eq!(layout(&cells, 2, 2, 0), "[[a bb]\n[c d]]");
    assert_eq!(layout(&cells, 1, 4, 1), "\t[[a bb c d]]");
}

#[test]
fn layout_of_empty_matrix() {
    let cells: Vec<String> = vec![];
    assert_eq!(layout(&cells, 0, 0, 0), "[]");
    assert_eq!(layout(&cells, 2, 0, 0), "[[[]");
}
