use ctsolver::ct::vm::memory::{Memory, MemoryType};
use ctsolver::ct::vm::utils::{Value, ValueType};

fn index(i: i64) -> Value {
    Value { value: i, value_type: ValueType::INDEX }
}

fn literal(v: i64) -> Value {
    Value { value: v, value_type: ValueType::LITERAL }
}

#[test]
fn new_memory_is_blank() {
    let m = Memory::new();
    assert_eq!(m.memory.len(), 100);
    assert_eq!(m.global.len(), 10000);
    assert_eq!(m.memory[0].value, vec![i64::MIN]);
    assert_eq!(m.global[9999].value_type, MemoryType::UNKNOWN);
    assert_eq!(
        m.get_value(index(5), false),
        vec![Value { value: 0, value_type: ValueType::UNKNOWN }]
    );
}

#[test]
fn stored_literals_read_back() {
    let mut m = Memory::new();
    m.set_value(42, 5, false);
    assert_eq!(m.get_value(index(5), false), vec![literal(42)]);
    assert_eq!(m.memory[5].value_type, MemoryType::LITERAL);
    // the global memory is untouched
    assert_eq!(
        m.get_value(index(5), true),
        vec![Value { value: 0, value_type: ValueType::UNKNOWN }]
    );
    // i64::MIN marks a blank cell
    m.set_value(i64::MIN, 6, true);
    assert_eq!(
        m.get_value(index(6), true),
        vec![Value { value: 0, value_type: ValueType::UNKNOWN }]
    );
}

#[test]
fn stored_lists_read_back() {
    let mut m = Memory::new();
    m.set_list(vec![3, 1, 4], 9, true);
    assert_eq!(m.get_value(index(9), true), vec![literal(3), literal(1), literal(4)]);
    m.set_list(vec![], 10, true);
    assert_eq!(m.get_value(index(10), true), vec![]);
}

#[test]
fn non_index_operands_read_themselves() {
    let m = Memory::new();
    assert_eq!(m.get_value(literal(-3), false), vec![literal(-3)]);
    let u = Value { value: 8, value_type: ValueType::UNKNOWN };
    assert_eq!(m.get_value(u, true), vec![u]);
}

#[test]
fn contains_looks_at_local_cells() {
    let mut m = Memory::new();
    assert!(m.contains(i64::MIN));
    assert!(!m.contains(7));
    m.set_value(7, 99, false);
    assert!(m.contains(7));
    m.set_value(8, 0, true);
    assert!(!m.contains(8));
    m.set_list(vec![11, 12], 50, false);
    assert!(m.contains(11));
    assert!(!m.contains(12));
}
