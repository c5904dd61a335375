use dynamo::trajectory::is_output_step;

#[test]
fn output_stride() {
    assert!(is_output_step(0, 1));
    assert!(is_output_step(7, 1));
    assert!(is_output_step(10, 5));
    assert!(!is_output_step(11, 5));
    assert!(!is_output_step(4, 5));
}
