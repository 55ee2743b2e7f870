use librashader_reflect::align_uniform_size;

#[test]
fn align_uniform_size_rounds_up_to_sixteen() {
    assert_eq!(align_uniform_size(0), 0);
    assert_eq!(align_uniform_size(1), 16);
    assert_eq!(align_uniform_size(16), 16);
    assert_eq!(align_uniform_size(17), 32);
    assert_eq!(align_uniform_size(100), 112);
}
