use tropical_attention::rows::{copy_range, copy_rows, first_len, take_column};

#[test]
fn first_len_of_rows() {
    let empty: Vec<Vec<f64>> = vec![];
    assert_eq!(first_len(&empty), 0);
    assert_eq!(first_len(&[vec![1.0, 2.0], vec![3.0]]), 2);
}

#[test]
fn take_column_reads_one_entry_per_row() {
    let rows = vec![vec![0.0, 0.0], vec![1.0, 0.0], vec![0.0, 1.0], vec![1.0, 1.0]];
    assert_eq!(take_column(&rows, 0), vec![0.0, 1.0, 0.0, 1.0]);
    assert_eq!(take_column(&rows, 1), vec![0.0, 0.0, 1.0, 1.0]);
}

#[test]
fn copies_are_equal() {
    let v = vec![3, 1, 4, 1, 5];
    assert_eq!(copy_range(&v, 1, 4), vec![1, 4, 1]);
    assert_eq!(copy_range(&v, 2, 2), Vec::<i32>::new());
    let rows = vec![vec![1, 2], vec![], vec![3]];
    assert_eq!(copy_rows(&rows), rows);
}
