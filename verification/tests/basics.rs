use primer::basics::{double, frobnicator};

#[test]
fn two_times() {
    assert_eq!(4, double(2));
    assert!(5 != double(2));
}

#[test]
fn doubles_at_the_edges() {
    assert_eq!(double(0), 0);
    assert_eq!(double(-7), -14);
    assert_eq!(double(1_073_741_823), 2_147_483_646);
    assert_eq!(double(-1_073_741_824), i32::MIN);
}

#[test]
fn frobnicator_always_finds_three() {
    assert_eq!(frobnicator(), Some(3));
    assert!(frobnicator().is_some());
    assert_eq!(frobnicator().unwrap(), 3);
}
