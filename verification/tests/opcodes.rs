use ctsolver::ct::vm::value_handler::ValueError;
use ctsolver::ct::vm::visitors::opcodes::{
    determine_type, handler_indices, opcode_for_argument, opcode_for_assignment, str_eq, ArgumentShape,
    AssignedValueShape, AssignmentTargetShape, BinaryOp, GetType, Opcode, OpcodeType,
    OpcodeVisitor, OpcodesHandler, UnaryOp,
};

fn op(t: OpcodeType) -> Opcode {
    Opcode::new(GetType::E, GetType::E, t)
}

#[test]
fn execute_arithmetic() {
    assert_eq!(op(OpcodeType::RShift).execute(-16, 2), Ok(-4));
    assert_eq!(op(OpcodeType::LShift).execute(3, 4), Ok(48));
    assert_eq!(op(OpcodeType::LShift).execute(1, 63), Ok(i64::MIN));
    assert_eq!(op(OpcodeType::Xor).execute(0b1100, 0b1010), Ok(0b0110));
    assert_eq!(op(OpcodeType::And).execute(0b1100, 0b1010), Ok(0b1000));
    assert_eq!(op(OpcodeType::Or).execute(0b1100, 0b1010), Ok(0b1110));
    assert_eq!(op(OpcodeType::Add).execute(40, 2), Ok(42));
    assert_eq!(op(OpcodeType::Subtract).execute(40, 2), Ok(38));
    assert_eq!(op(OpcodeType::Multiply).execute(-6, 7), Ok(-42));
}

#[test]
fn division_rounds_toward_zero() {
    assert_eq!(op(OpcodeType::Divide).execute(7, 2), Ok(3));
    assert_eq!(op(OpcodeType::Divide).execute(-7, 2), Ok(-3));
    assert_eq!(op(OpcodeType::Divide).execute(7, -2), Ok(-3));
    assert_eq!(op(OpcodeType::Divide).execute(-7, -2), Ok(3));
    assert_eq!(op(OpcodeType::Divide).execute(i64::MIN, 1), Ok(i64::MIN));
    assert_eq!(op(OpcodeType::Divide).execute(i64::MIN, 2), Ok(i64::MIN / 2));
    assert_eq!(op(OpcodeType::Modulus).execute(-7, 2), Ok(-1));
    assert_eq!(op(OpcodeType::Modulus).execute(7, -2), Ok(1));
    assert_eq!(op(OpcodeType::Modulus).execute(i64::MIN, -3), Ok(i64::MIN % -3));
}

#[test]
fn execute_errors() {
    assert_eq!(
        op(OpcodeType::Divide).execute(1, 0),
        Err(ValueError::MathError("Division by zero".to_string()))
    );
    assert_eq!(
        op(OpcodeType::Modulus).execute(1, 0),
        Err(ValueError::MathError("Modulus by zero".to_string()))
    );
    assert_eq!(
        op(OpcodeType::Get).execute(1, 2),
        Err(ValueError::MathError("Operation not supported".to_string()))
    );
}

#[test]
fn add_then_subtract_and_xor_twice() {
    let (x, y) = (123456789, -987654321);
    let s = op(OpcodeType::Add).execute(x, y).unwrap();
    assert_eq!(op(OpcodeType::Subtract).execute(s, y), Ok(x));
    let t = op(OpcodeType::Xor).execute(x, y).unwrap();
    assert_eq!(op(OpcodeType::Xor).execute(t, y), Ok(x));
    let q = op(OpcodeType::Divide).execute(-17, 5).unwrap();
    let r = op(OpcodeType::Modulus).execute(-17, 5).unwrap();
    assert_eq!(5 * q + r, -17);
}

#[test]
fn names_and_executability() {
    assert_eq!(op(OpcodeType::RShift).to_string(), ">>");
    assert_eq!(op(OpcodeType::GetProperty).to_string(), "getProperty");
    assert_eq!(op(OpcodeType::Unset).to_string(), "none");
    assert!(op(OpcodeType::Modulus).is_executable());
    assert!(!op(OpcodeType::Not).is_executable());
    assert!(!op(OpcodeType::StoreGlobal).is_executable());
}

#[test]
fn handler_table_add_get_and_by_type() {
    let mut h = OpcodesHandler::new();
    assert!(h.get(3).is_err());
    h.add(3, op(OpcodeType::Add));
    h.add(5, op(OpcodeType::Add));
    h.add(7, op(OpcodeType::Void));
    assert_eq!(*h.get(3).ok().unwrap(), op(OpcodeType::Add));
    h.add(3, op(OpcodeType::Xor));
    assert_eq!(*h.get(3).ok().unwrap(), op(OpcodeType::Xor));
    assert_eq!(h.get_by_type(OpcodeType::Add).len(), 1);
    assert_eq!(h.get_by_type(OpcodeType::Void), vec![&op(OpcodeType::Void)]);
    assert!(h.get_by_type(OpcodeType::Get).is_empty());
}

#[test]
fn operand_types_of_callees() {
    assert_eq!(determine_type(Some("e")), GetType::E);
    assert_eq!(determine_type(Some("l")), GetType::L);
    assert_eq!(determine_type(Some("x")), GetType::Unknown);
    assert_eq!(determine_type(None), GetType::Unknown);
    assert!(str_eq("abc", "abc") && !str_eq("abc", "abd") && !str_eq("ab", "abc"));
}

#[test]
fn opcodes_of_arguments() {
    assert_eq!(
        opcode_for_argument(ArgumentShape::Unary { op: UnaryOp::BitwiseNot, operand: GetType::L }),
        Some(Opcode::new(GetType::L, GetType::Unknown, OpcodeType::Not))
    );
    assert_eq!(
        opcode_for_argument(ArgumentShape::Binary {
            operator: BinaryOp::Remainder,
            left: GetType::E,
            right: GetType::L
        }),
        Some(Opcode::new(GetType::E, GetType::L, OpcodeType::Modulus))
    );
    assert_eq!(
        opcode_for_argument(ArgumentShape::Binary {
            operator: BinaryOp::Other,
            left: GetType::E,
            right: GetType::L
        }),
        None
    );
    assert_eq!(
        opcode_for_argument(ArgumentShape::ComputedMember {
            object_is_member: true,
            object: GetType::Unknown,
            property: GetType::Unknown
        }),
        Some(Opcode::new(GetType::Unknown, GetType::E, OpcodeType::GetGlobal))
    );
    assert_eq!(
        opcode_for_argument(ArgumentShape::ComputedMember {
            object_is_member: false,
            object: GetType::E,
            property: GetType::Unknown
        }),
        None
    );
    assert_eq!(
        opcode_for_argument(ArgumentShape::Call { callee_is_e: true }),
        Some(Opcode::new(GetType::E, GetType::Unknown, OpcodeType::Get))
    );
}

#[test]
fn opcodes_of_assignments() {
    assert_eq!(
        opcode_for_assignment(AssignmentTargetShape::Other, AssignedValueShape::Identifier { is_r: true }),
        Some(Opcode::new(GetType::E, GetType::E, OpcodeType::StoreGlobal))
    );
    assert_eq!(
        opcode_for_assignment(
            AssignmentTargetShape::ComputedIdentifier { is_u: false },
            AssignedValueShape::Identifier { is_r: true }
        ),
        None
    );
    assert_eq!(
        opcode_for_assignment(
            AssignmentTargetShape::ComputedNumber { two_on_member: true },
            AssignedValueShape::Call
        ),
        Some(Opcode::new(GetType::E, GetType::E, OpcodeType::Apply))
    );
    assert_eq!(
        opcode_for_assignment(AssignmentTargetShape::ComputedOther, AssignedValueShape::Unary { is_void: true }),
        Some(Opcode::new(GetType::E, GetType::Unknown, OpcodeType::Void))
    );
}

#[test]
fn visitor_records_calls_of_a() {
    let mut v = OpcodeVisitor::default();
    v.opcodes = OpcodesHandler::new();
    assert!(v.enter_declarator(Some("handlers"), 96));
    assert_eq!(v.array, "handlers");
    assert!(!v.enter_declarator(Some("other"), 95));
    assert_eq!(v.array, "handlers");
    v.current_index = 12;
    let args = vec![
        ArgumentShape::Binary { operator: BinaryOp::Addition, left: GetType::E, right: GetType::E },
        ArgumentShape::Other,
    ];
    v.record_call(false, &args);
    assert!(v.opcodes.get(12).is_err());
    v.record_call(true, &args);
    assert_eq!(*v.opcodes.get(12).ok().unwrap(), Opcode::new(GetType::E, GetType::E, OpcodeType::Add));
    v.current_index = 13;
    v.record_assignment(AssignmentTargetShape::Other, AssignedValueShape::Identifier { is_r: true });
    assert_eq!(v.opcodes.get(13).ok().unwrap().op_type, OpcodeType::StoreGlobal);
}

#[test]
fn handlers_are_the_function_elements_in_order() {
    assert_eq!(handler_indices(&vec![true, false, false, true, true, false]), vec![0, 3, 4]);
    assert_eq!(handler_indices(&vec![false, false]), Vec::<usize>::new());
    assert_eq!(handler_indices(&Vec::new()), Vec::<usize>::new());
}

#[test]
fn entering_a_handler_moves_the_current_index_only() {
    let mut v = OpcodeVisitor::default();
    v.array = "t".to_string();
    v.enter_handler(41);
    assert_eq!(v.current_index, 41);
    assert_eq!(v.array, "t");
}
