use cats::Id;

#[test]
fn test_id() {
    let x = 1;
    let y = x.id();
    assert_eq!(x, y);
}
