use ctsolver::ct::vm::visitors::values::{GetValues, IfTestShape, ValuesVisitor};

#[test]
fn string_literals_by_length() {
    let mut v = ValuesVisitor::default();
    v.record_string_literal("a".repeat(1001));
    assert_eq!(v.values.instructions.len(), 1001);
    v.record_string_literal("b".repeat(65));
    assert_eq!(v.values.charset, "b".repeat(65));
    v.record_string_literal("c".repeat(60));
    v.record_string_literal("d".repeat(1000));
    assert_eq!(v.values.charset, "b".repeat(65));
    assert_eq!(v.values.instructions, "a".repeat(1001));
}

#[test]
fn strings_tag_from_arrays_and_tests() {
    let mut v = ValuesVisitor::default();
    v.record_array(6, &vec![3, 1, 4, 1, 5, 9]);
    assert_eq!(v.values.get.strings, 3);
    v.record_array(6, &vec![3, 1, 4, 12, 5, 9]);
    assert_eq!(v.values.get.strings, 12);
    // 12 is not below 10: nothing changes any more
    v.record_array(6, &vec![0, 0, 0, 0, 0, 0]);
    assert_eq!(v.values.get.strings, 12);
    v.record_array(5, &vec![0, 0, 0, 0, 0]);
    assert_eq!(v.values.get.strings, 12);

    v.record_if_test(IfTestShape::StrictEqualsIndexed { index: 300 });
    assert_eq!(v.current_index, 300);
    v.record_if_test(IfTestShape::AndMemberOfA);
    assert_eq!(v.values.get.strings, (300usize as u8));
    v.record_if_test(IfTestShape::Other);
    assert_eq!(v.current_index, 300);
    let g = GetValues::default();
    assert_eq!(g.strings, 0);
}
