use dynamo::linalg::tril_indices_from;

#[test]
fn tril_indices_of_three() {
    assert_eq!(
        tril_indices_from(3),
        vec![(0, 0), (0, 1), (0, 2), (1, 1), (1, 2), (2, 2)]
    );
}

#[test]
fn tril_indices_edge_sizes() {
    assert!(tril_indices_from(0).is_empty());
    assert_eq!(tril_indices_from(1), vec![(0, 0)]);
    let n = 50;
    let all = tril_indices_from(n);
    assert_eq!(all.len(), n * (n + 1) / 2);
    assert!(all.iter().all(|&(i, j)| i <= j && j < n));
}
