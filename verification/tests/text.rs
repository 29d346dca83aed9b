use ctsolver::text::{chars_of, push_decimal, push_str};

#[test]
fn decimal_rendering() {
    for n in [0u64, 7, 10, 12345, u64::MAX] {
        let mut s = String::from("x");
        push_decimal(&mut s, n);
        assert_eq!(s, format!("x{}", n));
    }
}

#[test]
fn pushing_and_splitting() {
    let mut s = String::new();
    push_str(&mut s, "ab");
    push_str(&mut s, "cé");
    assert_eq!(s, "abcé");
    assert_eq!(chars_of(&s), vec!['a', 'b', 'c', 'é']);
}
