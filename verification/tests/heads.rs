use tropical_attention::attention::{head_dim, head_offset, head_rows, head_slice};

#[test]
fn head_width_divides_the_dimension() {
    assert_eq!(head_dim(4, 2), 2);
    assert_eq!(head_dim(10, 3), 3);
    assert_eq!(head_dim(4, 0), 4);
    assert_eq!(head_dim(2, 5), 0);
}

#[test]
fn head_offsets_tile_the_dimension() {
    assert_eq!(head_offset(10, 3, 0), 0);
    assert_eq!(head_offset(10, 3, 1), 3);
    assert_eq!(head_offset(10, 3, 2), 6);
    // consecutive heads touch but do not overlap
    assert_eq!(head_offset(10, 3, 1) + head_dim(10, 3), head_offset(10, 3, 2));
}

#[test]
fn head_slice_takes_the_heads_coordinates() {
    let q = vec![1.0, 2.0, 3.0, 4.0];
    assert_eq!(head_slice(&q, 4, 2, 0), vec![1.0, 2.0]);
    assert_eq!(head_slice(&q, 4, 2, 1), vec![3.0, 4.0]);
    assert_eq!(head_slice(&q, 4, 1, 0), vec![1.0, 2.0, 3.0, 4.0]);
}

#[test]
fn head_slice_is_cut_at_the_end_of_short_vectors() {
    let q = vec![1.0, 2.0, 3.0];
    assert_eq!(head_slice(&q, 4, 2, 1), vec![3.0]);
    let short = vec![7.0];
    assert_eq!(head_slice(&short, 4, 2, 1), Vec::<f64>::new());
}

#[test]
fn heads_joined_give_the_covered_prefix() {
    let v: Vec<i64> = (0..10).collect();
    let mut joined: Vec<i64> = Vec::new();
    for h in 0..3 {
        joined.extend(head_slice(&v, 10, 3, h));
    }
    assert_eq!(joined, (0..9).collect::<Vec<i64>>());
}

#[test]
fn head_rows_slices_every_row() {
    let rows = vec![vec![1.0, 0.0, 0.0, 1.0], vec![5.0, 6.0]];
    let parts = head_rows(&rows, 4, 2, 1);
    assert_eq!(parts, vec![vec![0.0, 1.0], vec![]]);
}
