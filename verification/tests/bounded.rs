use bytescan::bounded::Test;

#[test]
fn new_accepts_values_up_to_the_bound() {
    let t = Test::new(42).unwrap();
    assert_eq!(t.value(), 42);
    let t = Test::new(-5).unwrap();
    assert_eq!(t.value(), -5);
}

#[test]
fn new_rejects_values_above_the_bound() {
    let e = match Test::new(43) {
        Err(e) => e,
        Ok(_) => panic!("value above the bound was accepted"),
    };
    assert_eq!(e, "error");
}
