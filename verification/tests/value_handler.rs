use ctsolver::ct::vm::value_handler::{Value, ValueError, ValueHandler};
use ctsolver::ct::vm::visitors::opcodes::GetType;
use ctsolver::ct::vm::visitors::values::GetValues;

fn handler(text: &str, strings: u8) -> ValueHandler {
    ValueHandler::new(text.chars().collect(), GetValues { strings })
}

#[test]
fn new_handler_has_uninitialized_memories() {
    let h = handler("abc", 4);
    assert_eq!(h.memory.local.len(), 100);
    assert_eq!(h.memory.global.len(), 10000);
    assert_eq!(
        h.memory.local[0],
        Err(ValueError::NotFound("Uninitialized local value".to_string()))
    );
    assert_eq!(
        h.memory.global[9999],
        Err(ValueError::NotFound("Uninitialized global value".to_string()))
    );
    assert_eq!(h.chars, vec!['a', 'b', 'c']);
    assert_eq!(h.get.strings, 4);
}

#[test]
fn set_then_read_local_cell() {
    let mut h = handler("", 0);
    assert_eq!(h.set_value(Value::Literal(42), 3, false), Ok(()));
    // 3 << 5 = 96 designates cell 3
    assert_eq!(h.get_value(GetType::L, vec![96], false), Ok(Value::Literal(42)));
    assert_eq!(h.get_value(GetType::L, vec![96 + 31], false), Ok(Value::Literal(42)));
    // an even E operand reads the same cell
    assert_eq!(h.get_value(GetType::E, vec![96], false), Ok(Value::Literal(42)));
    // other cells are untouched
    assert_eq!(
        h.get_value(GetType::L, vec![64], false),
        Err(ValueError::NotFound("Uninitialized local value".to_string()))
    );
}

#[test]
fn set_then_read_global_cell() {
    let mut h = handler("", 0);
    h.set_value(Value::String("[1,2]".to_string()), 7, true).unwrap();
    // operand 7 << 5 read as I gives the literal 7, the index of the global cell
    assert_eq!(
        h.get_value(GetType::I, vec![7 << 5], true),
        Ok(Value::String("[1,2]".to_string()))
    );
    // local memory is untouched
    assert_eq!(
        h.memory.local[7],
        Err(ValueError::NotFound("Uninitialized local value".to_string()))
    );
}

#[test]
fn set_out_of_bounds_is_an_error() {
    let mut h = handler("", 0);
    assert_eq!(
        h.set_value(Value::Literal(1), 100, false),
        Err(ValueError::IndexOutOfBounds("Index 100 is out of bounds".to_string()))
    );
    assert_eq!(
        h.set_value(Value::Literal(1), 10000, true),
        Err(ValueError::IndexOutOfBounds("Index 10000 is out of bounds".to_string()))
    );
    assert_eq!(h.set_value(Value::Literal(1), 9999, true), Ok(()));
}

#[test]
fn delete_then_read_gives_not_found() {
    let mut h = handler("", 0);
    h.set_value(Value::Literal(5), 2, false).unwrap();
    assert_eq!(h.delete_value(2, false), Ok(()));
    assert_eq!(
        h.get_value(GetType::L, vec![64], false),
        Err(ValueError::NotFound("Value was deleted".to_string()))
    );
    assert_eq!(
        h.delete_value(12345, true),
        Err(ValueError::IndexOutOfBounds("Index 12345 is out of bounds".to_string()))
    );
}

#[test]
fn odd_encoded_operand_is_a_literal() {
    let h = handler("", 0);
    assert_eq!(h.get_value(GetType::E, vec![11], false), Ok(Value::Literal(5)));
    assert_eq!(h.get_value(GetType::E, vec![-3], false), Ok(Value::Literal(-2)));
}

#[test]
fn string_operand_reads_the_text() {
    let h = handler("hello world", 9);
    // tag 9, length 5, start 6
    assert_eq!(
        h.get_value(GetType::E, vec![9, 5, 6], false),
        Ok(Value::String("world".to_string()))
    );
    assert_eq!(
        h.get_value(GetType::E, vec![9, 6, 6], false),
        Err(ValueError::IndexOutOfBounds("String index out of bounds".to_string()))
    );
}

#[test]
fn index_operand_and_unknown_type() {
    let h = handler("", 0);
    assert_eq!(h.get_value(GetType::I, vec![-64], false), Ok(Value::Literal(-2)));
    assert_eq!(
        h.get_value(GetType::Unknown, vec![0], false),
        Err(ValueError::InvalidType("Unknown GetType".to_string()))
    );
}

#[test]
fn local_index_out_of_bounds_message() {
    let h = handler("", 0);
    assert_eq!(
        h.get_value(GetType::L, vec![100 << 5], false),
        Err(ValueError::IndexOutOfBounds("Local index 100 is out of bounds".to_string()))
    );
    assert_eq!(
        h.get_value(GetType::L, vec![-32], false),
        Err(ValueError::IndexOutOfBounds("Local index -1 is out of bounds".to_string()))
    );
}

#[test]
fn global_read_needs_a_literal_in_bounds() {
    let mut h = handler("", 0);
    h.set_value(Value::String("x".to_string()), 0, false).unwrap();
    assert_eq!(
        h.get_value(GetType::L, vec![0], true),
        Err(ValueError::InvalidType("Expected literal value".to_string()))
    );
    assert_eq!(
        h.get_value(GetType::I, vec![10000 << 5], true),
        Err(ValueError::IndexOutOfBounds("Global index 10000 is out of bounds".to_string()))
    );
}

#[test]
fn value_accessors() {
    let l = Value::Literal(3);
    let v = Value::List(vec![1, 2]);
    let s = Value::String("ab".to_string());
    assert!(l.is_literal() && !l.is_list() && !l.is_string());
    assert!(v.is_list() && s.is_string() && !Value::Empty.is_literal());
    assert_eq!(l.as_literal(), Ok(3));
    assert_eq!(v.as_list(), Ok(&vec![1, 2]));
    assert_eq!(s.as_string(), Ok(&"ab".to_string()));
    assert_eq!(
        s.as_literal(),
        Err(ValueError::InvalidType("Expected literal value".to_string()))
    );
    assert_eq!(
        l.as_list(),
        Err(ValueError::InvalidType("Expected list value".to_string()))
    );
    assert_eq!(
        v.as_string(),
        Err(ValueError::InvalidType("Expected string value".to_string()))
    );
    assert_eq!(Value::from(7i64), Value::Literal(7));
}

#[test]
fn stored_values_read_back_through_their_operand() {
    let mut h = handler("", 0);
    let list = Value::List(vec![1, 2, 3]);
    assert_eq!(h.set_value(list.clone(), 57, false), Ok(()));
    assert_eq!(h.get_value(GetType::L, vec![57 << 5], false), Ok(list));
    let s = Value::String("xyz".to_string());
    assert_eq!(h.set_value(s.clone(), 9876, true), Ok(()));
    assert_eq!(h.get_value(GetType::I, vec![9876 << 5], true), Ok(s));
}

#[test]
fn error_messages_name_their_kind() {
    assert_eq!(
        ValueError::NotFound("Value was deleted".to_string()).message(),
        "Value not found: Value was deleted"
    );
    assert_eq!(
        ValueError::InvalidType("Expected literal value".to_string()).message(),
        "Invalid type: Expected literal value"
    );
    assert_eq!(
        ValueError::IndexOutOfBounds("Index 100 is out of bounds".to_string()).message(),
        "Index out of bounds: Index 100 is out of bounds"
    );
    assert_eq!(
        ValueError::MathError("Division by zero".to_string()).message(),
        "Math error: Division by zero"
    );
}
