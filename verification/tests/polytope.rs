use tropical_attention::NewtonPolytope;

#[test]
fn test_creation() {
    let np = NewtonPolytope::new(vec![vec![0.0], vec![1.0], vec![2.0]]);
    assert_eq!(np.n_vertices(), 3);
}

#[test]
fn test_newton_polytope_vertices() {
    let np = NewtonPolytope::new(vec![vec![0.0, 0.0], vec![1.0, 0.0], vec![0.0, 1.0]]);
    assert_eq!(np.n_vertices(), 3);
    assert_eq!(np.dimension, 2);
}

#[test]
fn new_without_vertices_has_dimension_zero() {
    let np: NewtonPolytope<f64> = NewtonPolytope::new(vec![]);
    assert_eq!(np.n_vertices(), 0);
    assert_eq!(np.dimension, 0);
}

#[test]
fn dimension_follows_the_first_vertex() {
    let np = NewtonPolytope::new(vec![vec![1.0, 2.0, 3.0], vec![4.0]]);
    assert_eq!(np.dimension, 3);
    assert_eq!(np.vertices, vec![vec![1.0, 2.0, 3.0], vec![4.0]]);
}

#[test]
fn clone_keeps_vertices_and_dimension() {
    let np = NewtonPolytope::new(vec![vec![0.5, -1.0], vec![2.0, 3.5]]);
    let copy = np.clone();
    assert_eq!(copy.vertices, np.vertices);
    assert_eq!(copy.dimension, np.dimension);
}

#[test]
fn subdivide_returns_the_simplex_whole() {
    let np = NewtonPolytope::new(vec![vec![0.0, 0.0], vec![1.0, 0.0], vec![0.0, 1.0]]);
    let pieces = np.subdivide(&[0.0, 1.0, 2.0]);
    assert_eq!(pieces.len(), 1);
    assert_eq!(pieces[0].vertices, np.vertices);
    assert_eq!(pieces[0].dimension, 2);
}

#[test]
fn subdivide_returns_a_larger_polytope_whole() {
    let np = NewtonPolytope::new(vec![vec![0.0], vec![1.0], vec![2.0], vec![3.0]]);
    let pieces = np.subdivide(&[]);
    assert_eq!(pieces.len(), 1);
    assert_eq!(pieces[0].vertices, np.vertices);
    assert_eq!(pieces[0].dimension, 1);
}
