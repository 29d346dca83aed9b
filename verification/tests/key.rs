use ctsolver::ct::vm::key::KeyBuilder;
use ctsolver::ct::vm::value_handler::{Value, ValueError};
use ctsolver::ct::vm::visitors::opcodes::{GetType, Opcode, OpcodeType, OpcodesHandler};
use ctsolver::ct::vm::visitors::values::GetValues;

fn table() -> OpcodesHandler {
    let mut ops = OpcodesHandler::new();
    ops.add(5, Opcode::new(GetType::E, GetType::E, OpcodeType::StoreGlobal));
    ops.add(6, Opcode::new(GetType::E, GetType::E, OpcodeType::GetGlobal));
    ops.add(8, Opcode::new(GetType::E, GetType::E, OpcodeType::Add));
    ops
}

#[test]
fn new_builder_reads_the_text() {
    let nums: Vec<String> = (0..51).map(|i| i.to_string()).collect();
    let text = format!("a[{}]b", nums.join(","));
    let kb = KeyBuilder::new(vec![1, 2], text.clone(), GetValues { strings: 9 }, table());
    assert_eq!(kb.drained_bytes, vec![1, 2]);
    assert_eq!(kb.list, (0..51).collect::<Vec<i64>>());
    assert_eq!(kb.handler.chars, text.chars().collect::<Vec<char>>());
    assert_eq!(kb.handler.get.strings, 9);
    assert!(kb.key.is_empty() && kb.iv.is_empty());
}

#[test]
fn store_global_stores_the_list_string_once() {
    // StoreGlobal: global index 85 >> 1 = 42, then the string of 5 characters at 2
    let db = vec![5, 85, 9, 5, 2, 5, 87, 9, 2, 0, 8, 1, 1, 1];
    let mut kb = KeyBuilder::new(db, "xx[1,2]yy".to_string(), GetValues { strings: 9 }, table());
    assert_eq!(kb.generate(), Ok(vec![]));
    assert_eq!(kb.handler.memory.global[42], Ok(Value::String("[1,2]".to_string())));
    // the second StoreGlobal came after the list string was loaded
    assert_eq!(
        kb.handler.memory.global[43],
        Err(ValueError::NotFound("Uninitialized global value".to_string()))
    );
    // local memory is untouched
    assert!(kb.handler.memory.local.iter().all(|c| c.is_err()));
}

#[test]
fn strings_that_do_not_open_a_list_are_skipped() {
    let db = vec![5, 85, 9, 2, 0, 5, 87, 9, 5, 2];
    let mut kb = KeyBuilder::new(db, "xx[1,2]yy".to_string(), GetValues { strings: 9 }, table());
    kb.key = vec![1, 2, 3];
    assert_eq!(kb.generate(), Ok(vec![1, 2, 3]));
    // "xx" was skipped, "[1,2]" went to global cell 87 >> 1 = 43
    assert_eq!(kb.handler.memory.global[43], Ok(Value::String("[1,2]".to_string())));
    assert!(kb.handler.memory.global[42].is_err());
}

#[test]
fn bad_global_index_is_reported() {
    // the global index operand is the local cell 0, which holds nothing
    let db = vec![5, 0, 9, 5, 2];
    let mut kb = KeyBuilder::new(db, "xx[1,2]yy".to_string(), GetValues { strings: 9 }, table());
    assert_eq!(
        kb.generate(),
        Err(ValueError::NotFound("Uninitialized local value".to_string()))
    );
    let db = vec![5, 2 * 20000 + 1, 9, 5, 2];
    let mut kb = KeyBuilder::new(db, "xx[1,2]yy".to_string(), GetValues { strings: 9 }, table());
    assert_eq!(
        kb.generate(),
        Err(ValueError::IndexOutOfBounds("Index 20000 is out of bounds".to_string()))
    );
}
