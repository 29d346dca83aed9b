//! Opcodes of the virtual machine and the table that maps handler indices to them.
use vstd::prelude::*;

use crate::ct::vm::value_handler::ValueError;
use vstd::arithmetic::power2::{lemma2_to64, lemma_pow2_pos, lemma_pow2_unfold, pow2};
use rustc_hash::{FxHashMap, FxHasher};
use std::hash::BuildHasherDefault;

verus! {

broadcast use vstd::seq_lib::group_seq_properties;

pub enum OpcodeError {
    InvalidOpcode,
}

/// How an operand of an opcode is read from the byte stream.
#[derive(PartialEq, Eq, Structural, Debug, Clone, Copy)]
pub enum GetType {
    E,
    L,
    I,
    Unknown,
}

#[derive(PartialEq, Eq, Structural, Debug, Clone, Copy)]
pub enum OpcodeType {
    RShift,
    LShift,
    Not,
    Xor,
    And,
    Or,
    Add,
    Subtract,
    Multiply,
    Divide,
    Modulus,
    Get,
    GetProperty,
    StoreGlobal,
    GetGlobal,
    Void,
    Apply,
    Unset,
}

#[derive(PartialEq, Eq, Structural, Debug, Clone, Copy)]
pub struct Opcode {
    pub left: GetType,
    pub right: GetType,
    pub op_type: OpcodeType,
}

/// Integer division rounded toward zero, as Rust's `/` on signed integers computes it.
pub open spec fn trunc_div(x: int, y: int) -> int {
    if x >= 0 {
        x / y
    } else {
        -((-x) / y)
    }
}

/// The remainder that goes with `trunc_div`; it has the sign of `x`, as Rust's `%`.
pub open spec fn trunc_rem(x: int, y: int) -> int {
    x - y * trunc_div(x, y)
}

/// True for the opcode types that combine two literals into one.
pub open spec fn is_arithmetic(t: OpcodeType) -> bool {
    match t {
        OpcodeType::RShift | OpcodeType::LShift | OpcodeType::Xor | OpcodeType::And
        | OpcodeType::Or | OpcodeType::Add | OpcodeType::Subtract | OpcodeType::Multiply
        | OpcodeType::Divide | OpcodeType::Modulus => true,
        _ => false,
    }
}

/// The inputs on which `Opcode::execute` would abort: a shift by a negative amount or by
/// 64 or more, an addition, subtraction or multiplication that leaves the range of `i64`,
/// and `i64::MIN` divided by -1.
pub open spec fn execute_aborts(t: OpcodeType, x: i64, y: i64) -> bool {
    match t {
        OpcodeType::RShift | OpcodeType::LShift => !(0 <= y < 64),
        OpcodeType::Add => !(i64::MIN <= x + y <= i64::MAX),
        OpcodeType::Subtract => !(i64::MIN <= x - y <= i64::MAX),
        OpcodeType::Multiply => !(i64::MIN <= x * y <= i64::MAX),
        OpcodeType::Divide | OpcodeType::Modulus => x == i64::MIN && y == -1,
        _ => false,
    }
}

/// The value that `execute` computes for an arithmetic opcode type on inputs where it
/// neither aborts nor fails.
pub open spec fn spec_execute(t: OpcodeType, x: i64, y: i64) -> int {
    match t {
        OpcodeType::RShift => (x >> y) as int,
        OpcodeType::LShift => (x << y) as int,
        OpcodeType::Xor => (x ^ y) as int,
        OpcodeType::And => (x & y) as int,
        OpcodeType::Or => (x | y) as int,
        OpcodeType::Add => x + y,
        OpcodeType::Subtract => x - y,
        OpcodeType::Multiply => x * y,
        OpcodeType::Divide => trunc_div(x as int, y as int),
        _ => trunc_rem(x as int, y as int),
    }
}

/// `x / y` rounded toward zero, computed on the magnitudes of `x` and `y`.
fn div_toward_zero(x: i64, y: i64) -> (r: i64)
    requires
        y != 0,
        !(x == i64::MIN && y == -1),
    ensures
        r == trunc_div(x as int, y as int),
{
    let ax: u64 = if x >= 0 { x as u64 } else { (0i128 - x as i128) as u64 };
    let ay: u64 = if y >= 0 { y as u64 } else { (0i128 - y as i128) as u64 };
    let q: u64 = ax / ay;
    assert(q <= ax) by (nonlinear_arith)
        requires ay >= 1, q == ax / ay;
    let r: i128 = if (x >= 0) == (y >= 0) { q as i128 } else { 0i128 - q as i128 };
    proof {
        if x >= 0 {
            if y > 0 {
            } else {
                lemma_div_neg_divisor(x as int, y as int);
            }
        } else {
            if y > 0 {
            } else {
                lemma_div_neg_divisor(-(x as int), y as int);
            }
        }
        if (x >= 0) == (y >= 0) {
            assert(q <= i64::MAX) by {
                if x == i64::MIN {
                    assert(ay >= 2);
                    assert(q <= ax / 2) by (nonlinear_arith)
                        requires ay >= 2, q == ax / ay;
                }
            }
        }
    }
    r as i64
}

/// The remainder rounded toward zero has the sign of the dividend and is smaller in
/// magnitude than the divisor.
proof fn lemma_trunc_rem_bounds(x: int, y: int)
    requires
        y != 0,
    ensures
        x >= 0 ==> 0 <= trunc_rem(x, y) < if y > 0 { y } else { -y },
        x < 0 ==> -(if y > 0 { y } else { -y }) < trunc_rem(x, y) <= 0,
{
    if x >= 0 {
        vstd::arithmetic::div_mod::lemma_fundamental_div_mod(x, y);
    } else {
        vstd::arithmetic::div_mod::lemma_fundamental_div_mod(-x, y);
        assert(trunc_rem(x, y) == -((-x) - y * ((-x) / y))) by (nonlinear_arith)
            requires trunc_rem(x, y) == x - y * trunc_div(x, y), trunc_div(x, y) == -((-x) / y);
    }
}

/// Euclidean division by a negative divisor of a non-negative dividend rounds toward zero.
proof fn lemma_div_neg_divisor(a: int, b: int)
    requires
        a >= 0,
        b < 0,
    ensures
        a / b == -(a / (-b)),
{
    let q = a / (-b);
    let r = a % (-b);
    vstd::arithmetic::div_mod::lemma_fundamental_div_mod(a, -b);
    assert(a == b * (-q) + r) by (nonlinear_arith)
        requires a == (-b) * q + r;
    assert(a / b == -q) by (nonlinear_arith)
        requires a == b * (-q) + r, 0 <= r < -b, b < 0;
}

impl Opcode {
    pub fn new(left: GetType, right: GetType, op_type: OpcodeType) -> (r: Self)
        ensures
            r == (Opcode { left, right, op_type }),
    {
        Self { left, right, op_type }
    }

    /// The symbol or name of the opcode's type.
    pub fn to_string(&self) -> (r: &str)
        ensures
            r@ == opcode_symbol(self.op_type),
    {
        proof {
            reveal_strlit(">>");
        }
        match self.op_type {
            OpcodeType::RShift => ">>",
            OpcodeType::LShift => "<<",
            OpcodeType::Not => "!",
            OpcodeType::Xor => "^",
            OpcodeType::And => "&",
            OpcodeType::Or => "|",
            OpcodeType::Add => "+",
            OpcodeType::Subtract => "-",
            OpcodeType::Multiply => "*",
            OpcodeType::Divide => "/",
            OpcodeType::Modulus => "%",
            OpcodeType::Get => "get",
            OpcodeType::GetProperty => "getProperty",
            OpcodeType::StoreGlobal => "storeGlobal",
            OpcodeType::GetGlobal => "getGlobal",
            OpcodeType::Void => "void",
            OpcodeType::Apply => "apply",
            OpcodeType::Unset => "none",
        }
    }

    pub fn is_executable(&self) -> (r: bool)
        ensures
            r == is_arithmetic(self.op_type),
    {
        match self.op_type {
            OpcodeType::RShift | OpcodeType::LShift | OpcodeType::Xor | OpcodeType::And
            | OpcodeType::Or | OpcodeType::Add | OpcodeType::Subtract | OpcodeType::Multiply
            | OpcodeType::Divide | OpcodeType::Modulus => true,
            _ => false,
        }
    }

    /// Applies the opcode to two literals. Division and remainder by zero, and every
    /// opcode type that is not arithmetic, fail with a `MathError`.
    pub fn execute(&self, x: i64, y: i64) -> (r: Result<i64, ValueError>)
        requires
            !execute_aborts(self.op_type, x, y),
        ensures
            is_arithmetic(self.op_type) && !((self.op_type == OpcodeType::Divide
                || self.op_type == OpcodeType::Modulus) && y == 0) ==> r == Ok::<i64, ValueError>(
                spec_execute(self.op_type, x, y) as i64),
            self.op_type == OpcodeType::Divide && y == 0 ==> (r matches Err(
                ValueError::MathError(m)) && m@ == "Division by zero"@),
            self.op_type == OpcodeType::Modulus && y == 0 ==> (r matches Err(
                ValueError::MathError(m)) && m@ == "Modulus by zero"@),
            !is_arithmetic(self.op_type) ==> (r matches Err(ValueError::MathError(m)) && m@
                == "Operation not supported"@),
    {
        match self.op_type {
            OpcodeType::RShift => Ok(x >> y),
            OpcodeType::LShift => Ok(x << y),
            OpcodeType::Xor => Ok(x ^ y),
            OpcodeType::And => Ok(x & y),
            OpcodeType::Or => Ok(x | y),
            OpcodeType::Add => Ok(x + y),
            OpcodeType::Subtract => Ok(x - y),
            OpcodeType::Multiply => Ok(x * y),
            OpcodeType::Divide => {
                if y == 0 {
                    Err(ValueError::MathError(String::from_str("Division by zero")))
                } else {
                    Ok(div_toward_zero(x, y))
                }
            },
            OpcodeType::Modulus => {
                if y == 0 {
                    Err(ValueError::MathError(String::from_str("Modulus by zero")))
                } else {
                    let q = div_toward_zero(x, y);
                    proof {
                        lemma_trunc_rem_bounds(x as int, y as int);
                    }
                    Ok(x - y * q)
                }
            },
            _ => Err(ValueError::MathError(String::from_str("Operation not supported"))),
        }
    }
}

#[verifier::external_type_specification]
#[verifier::external_body]
pub struct ExFxHasher(FxHasher);

#[verifier::external_type_specification]
#[verifier::external_body]
#[verifier::reject_recursive_types(H)]
pub struct ExBuildHasherDefault<H>(BuildHasherDefault<H>);

/// `FxHashMap::default()`: an empty map.
#[verifier::external_body]
fn fx_map_new() -> (r: FxHashMap<usize, Opcode>)
    ensures
        r@.is_empty(),
{
    FxHashMap::default()
}

/// `HashMap::insert` on an `FxHashMap`: the key now maps to the value, and every other
/// key keeps its entry. (`FxHasher` hashes equal keys alike, which `HashMap` relies on.)
#[verifier::external_body]
fn fx_map_insert(m: &mut FxHashMap<usize, Opcode>, k: usize, v: Opcode)
    ensures
        final(m)@ == old(m)@.insert(k, v),
{
    m.insert(k, v);
}

/// `HashMap::get` on an `FxHashMap`: the entry of the key, if it has one.
#[verifier::external_body]
fn fx_map_get(m: &FxHashMap<usize, Opcode>, k: usize) -> (r: Option<&Opcode>)
    ensures
        match r {
            Some(v) => m@.contains_key(k) && *v == m@[k],
            None => !m@.contains_key(k),
        },
{
    m.get(&k)
}

/// `HashMap::keys` on an `FxHashMap`, collected: every key once, in the map's walking
/// order, which the contract leaves open.
#[verifier::external_body]
fn fx_map_keys(m: &FxHashMap<usize, Opcode>) -> (r: Vec<usize>)
    ensures
        r@.no_duplicates(),
        r@.to_set() == m@.dom(),
{
    m.keys().copied().collect()
}

/// The table of opcodes, keyed by the index of the handler that implements each.
#[derive(Debug, Default)]
pub struct OpcodesHandler {
    list: FxHashMap<usize, Opcode>,
}

impl View for OpcodesHandler {
    type V = Map<usize, Opcode>;

    closed spec fn view(&self) -> Map<usize, Opcode> {
        self.list@
    }
}

/// The keys whose opcodes have the given type.
pub open spec fn keys_of_type(m: Map<usize, Opcode>, t: OpcodeType) -> Set<usize> {
    m.dom().filter(|k: usize| m[k].op_type == t)
}

impl OpcodesHandler {
    pub fn new() -> (r: Self)
        ensures
            r@.is_empty(),
    {
        Self { list: fx_map_new() }
    }

    /// Records `op` under `index`, replacing an earlier entry.
    pub fn add(&mut self, index: usize, op: Opcode)
        ensures
            final(self)@ == old(self)@.insert(index, op),
    {
        fx_map_insert(&mut self.list, index, op);
    }

    pub fn get(&self, index: usize) -> (r: Result<&Opcode, OpcodeError>)
        ensures
            match r {
                Ok(op) => self@.contains_key(index) && *op == self@[index],
                Err(e) => !self@.contains_key(index) && e == OpcodeError::InvalidOpcode,
            },
    {
        if let Some(op) = fx_map_get(&self.list, index) {
            Ok(op)
        } else {
            Err(OpcodeError::InvalidOpcode)
        }
    }

    /// The opcodes of the given type, one for each index that holds one, in the order in
    /// which the map is walked.
    pub fn get_by_type(&self, op_type: OpcodeType) -> (r: Vec<&Opcode>)
        ensures
            exists|ks: Seq<usize>|
                {
                    &&& ks.no_duplicates()
                    &&& ks.to_set() == keys_of_type(self@, op_type)
                    &&& ks.len() == r@.len()
                    &&& forall|i: int| 0 <= i < ks.len() ==> *#[trigger] r@[i] == self@[ks[i]]
                },
    {
        let keys = fx_map_keys(&self.list);
        let mut r: Vec<&Opcode> = Vec::new();
        let ghost mut ks: Seq<usize> = Seq::empty();
        let mut i: usize = 0;
        while i < keys.len()
            invariant
                i <= keys@.len(),
                keys@.no_duplicates(),
                keys@.to_set() == self@.dom(),
                ks.no_duplicates(),
                ks.len() == r@.len(),
                forall|j: int| 0 <= j < ks.len() ==> *#[trigger] r@[j] == self@[ks[j]],
                ks.to_set() == keys@.subrange(0, i as int).to_set().filter(|k: usize| self@[k].op_type == op_type),
            decreases keys@.len() - i,
        {
            let k = keys[i];
            assert(keys@.to_set().contains(k));
            let op = fx_map_get(&self.list, k).unwrap();
            let ghost before = keys@.subrange(0, i as int);
            proof {
                assert(keys@.subrange(0, i + 1) =~= before.push(k));
                assert(!before.contains(k)) by {
                    if before.contains(k) {
                        let j = choose|j: int| 0 <= j < before.len() && before[j] == k;
                        assert(keys@[j] == keys@[i as int]);
                    }
                }
                assert(before.push(k).to_set() =~= before.to_set().insert(k));
                assert(!ks.to_set().contains(k));
            }
            if op.op_type == op_type {
                r.push(op);
                proof {
                    assert(ks.push(k).to_set() =~= ks.to_set().insert(k));
                    assert forall|a: int, b: int| 0 <= a < b < ks.push(k).len() implies ks.push(k)[a] != ks.push(k)[b] by {
                        if b == ks.len() {
                            assert(ks.to_set().contains(ks[a]));
                        }
                    }
                    ks = ks.push(k);
                }
            }
            proof {
                assert(ks.to_set() =~= keys@.subrange(0, i + 1).to_set().filter(|k: usize| self@[k].op_type == op_type));
            }
            i += 1;
        }
        proof {
            assert(keys@.subrange(0, keys@.len() as int) =~= keys@);
            assert(ks.to_set() =~= keys_of_type(self@, op_type));
        }
        r
    }
}

/// The operators of a unary expression that the opcode handlers use.
#[derive(PartialEq, Eq, Structural, Debug, Clone, Copy)]
pub enum UnaryOp {
    BitwiseNot,
    Void,
    Other,
}

/// The operators of a binary expression that the opcode handlers use.
#[derive(PartialEq, Eq, Structural, Debug, Clone, Copy)]
pub enum BinaryOp {
    ShiftRight,
    ShiftLeft,
    BitwiseXOR,
    BitwiseAnd,
    BitwiseOR,
    Addition,
    Subtraction,
    Multiplication,
    Division,
    Remainder,
    Other,
}

/// What an argument of a call of the handler function `a` looks like: only the parts
/// that decide the opcode. Operands are given by how they are read (see
/// `determine_type`).
#[derive(PartialEq, Eq, Structural, Debug, Clone, Copy)]
pub enum ArgumentShape {
    Unary { op: UnaryOp, operand: GetType },
    Binary { operator: BinaryOp, left: GetType, right: GetType },
    ComputedMember { object_is_member: bool, object: GetType, property: GetType },
    Call { callee_is_e: bool },
    Other,
}

/// The target of an assignment inside a handler.
#[derive(PartialEq, Eq, Structural, Debug, Clone, Copy)]
pub enum AssignmentTargetShape {
    /// `x[name]`, where the property is the identifier `name`; `is_u` when it is `u`.
    ComputedIdentifier { is_u: bool },
    /// `x[k]` with a numeric literal `k`; `two_on_member` when `k` is 2 and `x` is a
    /// static member of an identifier.
    ComputedNumber { two_on_member: bool },
    /// Any other computed member.
    ComputedOther,
    /// Any other target.
    Other,
}

/// The value assigned inside a handler.
#[derive(PartialEq, Eq, Structural, Debug, Clone, Copy)]
pub enum AssignedValueShape {
    /// An identifier; `is_r` when it is `r`.
    Identifier { is_r: bool },
    /// A unary expression; `is_void` when its operator is `void`.
    Unary { is_void: bool },
    /// A call.
    Call,
    Other,
}

/// How an operand written as a call is read: a call of `e` reads an encoded operand, a
/// call of `l` a local; anything else is unknown. `callee` is the name of the called
/// identifier, if the expression is a call of one.
pub fn determine_type(callee: Option<&str>) -> (r: GetType)
    ensures
        r == match callee {
            Some(name) => if name@ == "e"@ {
                GetType::E
            } else if name@ == "l"@ {
                GetType::L
            } else {
                GetType::Unknown
            },
            None => GetType::Unknown,
        },
{
    match callee {
        Some(name) => {
            if str_eq(name, "e") {
                GetType::E
            } else if str_eq(name, "l") {
                GetType::L
            } else {
                GetType::Unknown
            }
        },
        None => GetType::Unknown,
    }
}

/// Whether two strings have the same characters.
pub fn str_eq(a: &str, b: &str) -> (r: bool)
    ensures
        r == (a@ == b@),
{
    let x = crate::text::chars_of(a);
    let y = crate::text::chars_of(b);
    if x.len() != y.len() {
        return false;
    }
    let mut i: usize = 0;
    while i < x.len()
        invariant
            i <= x@.len(),
            x@.len() == y@.len(),
            x@ == a@,
            y@ == b@,
            forall|j: int| 0 <= j < i ==> x@[j] == y@[j],
        decreases x@.len() - i,
    {
        if x[i] != y[i] {
            return false;
        }
        i += 1;
    }
    assert(x@ =~= y@);
    true
}

/// The opcode type of a binary operator, if it has one.
pub open spec fn binary_opcode_type(op: BinaryOp) -> Option<OpcodeType> {
    match op {
        BinaryOp::ShiftRight => Some(OpcodeType::RShift),
        BinaryOp::ShiftLeft => Some(OpcodeType::LShift),
        BinaryOp::BitwiseXOR => Some(OpcodeType::Xor),
        BinaryOp::BitwiseAnd => Some(OpcodeType::And),
        BinaryOp::BitwiseOR => Some(OpcodeType::Or),
        BinaryOp::Addition => Some(OpcodeType::Add),
        BinaryOp::Subtraction => Some(OpcodeType::Subtract),
        BinaryOp::Multiplication => Some(OpcodeType::Multiply),
        BinaryOp::Division => Some(OpcodeType::Divide),
        BinaryOp::Remainder => Some(OpcodeType::Modulus),
        BinaryOp::Other => None,
    }
}

/// The opcode that an argument of a call of `a` declares, if any: `~x` is a `Not` and
/// `void x` a `Void` of the operand; an arithmetic binary expression the matching
/// arithmetic opcode; `x[y][z]` a `GetGlobal`; `x[y]` with both parts known a
/// `GetProperty`; a call of `e` a `Get`.
pub open spec fn spec_opcode_for_argument(arg: ArgumentShape) -> Option<Opcode> {
    match arg {
        ArgumentShape::Unary { op, operand } => match op {
            UnaryOp::BitwiseNot => Some(Opcode { left: operand, right: GetType::Unknown, op_type: OpcodeType::Not }),
            UnaryOp::Void => Some(Opcode { left: operand, right: GetType::Unknown, op_type: OpcodeType::Void }),
            UnaryOp::Other => None,
        },
        ArgumentShape::Binary { operator, left, right } => match binary_opcode_type(operator) {
            Some(t) => Some(Opcode { left, right, op_type: t }),
            None => None,
        },
        ArgumentShape::ComputedMember { object_is_member, object, property } => {
            if object_is_member {
                Some(Opcode { left: GetType::Unknown, right: GetType::E, op_type: OpcodeType::GetGlobal })
            } else if object != GetType::Unknown && property != GetType::Unknown {
                Some(Opcode { left: object, right: property, op_type: OpcodeType::GetProperty })
            } else {
                None
            }
        },
        ArgumentShape::Call { callee_is_e } => {
            if callee_is_e {
                Some(Opcode { left: GetType::E, right: GetType::Unknown, op_type: OpcodeType::Get })
            } else {
                None
            }
        },
        ArgumentShape::Other => None,
    }
}

pub fn opcode_for_argument(arg: ArgumentShape) -> (r: Option<Opcode>)
    ensures
        r == spec_opcode_for_argument(arg),
{
    match arg {
        ArgumentShape::Unary { op, operand } => match op {
            UnaryOp::BitwiseNot => Some(Opcode { left: operand, right: GetType::Unknown, op_type: OpcodeType::Not }),
            UnaryOp::Void => Some(Opcode { left: operand, right: GetType::Unknown, op_type: OpcodeType::Void }),
            UnaryOp::Other => None,
        },
        ArgumentShape::Binary { operator, left, right } => {
            let op_type = match operator {
                BinaryOp::ShiftRight => OpcodeType::RShift,
                BinaryOp::ShiftLeft => OpcodeType::LShift,
                BinaryOp::BitwiseXOR => OpcodeType::Xor,
                BinaryOp::BitwiseAnd => OpcodeType::And,
                BinaryOp::BitwiseOR => OpcodeType::Or,
                BinaryOp::Addition => OpcodeType::Add,
                BinaryOp::Subtraction => OpcodeType::Subtract,
                BinaryOp::Multiplication => OpcodeType::Multiply,
                BinaryOp::Division => OpcodeType::Divide,
                BinaryOp::Remainder => OpcodeType::Modulus,
                BinaryOp::Other => {
                    return None;
                },
            };
            Some(Opcode { left, right, op_type })
        },
        ArgumentShape::ComputedMember { object_is_member, object, property } => {
            if object_is_member {
                Some(Opcode { left: GetType::Unknown, right: GetType::E, op_type: OpcodeType::GetGlobal })
            } else if object != GetType::Unknown && property != GetType::Unknown {
                Some(Opcode { left: object, right: property, op_type: OpcodeType::GetProperty })
            } else {
                None
            }
        },
        ArgumentShape::Call { callee_is_e } => {
            if callee_is_e {
                Some(Opcode { left: GetType::E, right: GetType::Unknown, op_type: OpcodeType::Get })
            } else {
                None
            }
        },
        ArgumentShape::Other => None,
    }
}

/// The opcode that an assignment inside a handler declares, if any: `x.y[2] = f(..)`
/// is an `Apply`; otherwise, unless the target is `x[name]` with a name other than `u`,
/// assigning `r` is a `StoreGlobal` and assigning `void ..` a `Void`.
pub open spec fn spec_opcode_for_assignment(
    target: AssignmentTargetShape,
    value: AssignedValueShape,
) -> Option<Opcode> {
    let base = Opcode { left: GetType::E, right: GetType::E, op_type: OpcodeType::Unset };
    if target == (AssignmentTargetShape::ComputedIdentifier { is_u: false }) {
        None
    } else if target == (AssignmentTargetShape::ComputedNumber { two_on_member: true }) && value
        == AssignedValueShape::Call {
        Some(Opcode { op_type: OpcodeType::Apply, ..base })
    } else {
        match value {
            AssignedValueShape::Identifier { is_r } => if is_r {
                Some(Opcode { op_type: OpcodeType::StoreGlobal, ..base })
            } else {
                None
            },
            AssignedValueShape::Unary { is_void } => if is_void {
                Some(Opcode { right: GetType::Unknown, op_type: OpcodeType::Void, ..base })
            } else {
                None
            },
            _ => None,
        }
    }
}

pub fn opcode_for_assignment(target: AssignmentTargetShape, value: AssignedValueShape) -> (r: Option<Opcode>)
    ensures
        r == spec_opcode_for_assignment(target, value),
{
    let mut opcode = Opcode { left: GetType::E, right: GetType::E, op_type: OpcodeType::Unset };
    match target {
        AssignmentTargetShape::ComputedIdentifier { is_u } => {
            if !is_u {
                return None;
            }
        },
        AssignmentTargetShape::ComputedNumber { two_on_member } => {
            if two_on_member {
                if let AssignedValueShape::Call = value {
                    opcode.op_type = OpcodeType::Apply;
                    return Some(opcode);
                }
            }
        },
        _ => {},
    }
    match value {
        AssignedValueShape::Identifier { is_r } => {
            if is_r {
                opcode.op_type = OpcodeType::StoreGlobal;
                return Some(opcode);
            }
            None
        },
        AssignedValueShape::Unary { is_void } => {
            if is_void {
                opcode.right = GetType::Unknown;
                opcode.op_type = OpcodeType::Void;
                return Some(opcode);
            }
            None
        },
        _ => None,
    }
}

/// The positions of the `true` entries of `is_function`, in increasing order: the
/// positions of the table's elements that are functions, which are its handlers.
pub open spec fn handler_positions(is_function: Seq<bool>) -> Seq<usize>
    decreases is_function.len(),
{
    if is_function.len() == 0 {
        Seq::empty()
    } else {
        let rest = handler_positions(is_function.drop_last());
        if is_function.last() {
            rest.push((is_function.len() - 1) as usize)
        } else {
            rest
        }
    }
}

/// The positions at which the table holds a function (`is_function` tells, element by
/// element), in the order in which they are walked.
pub fn handler_indices(is_function: &Vec<bool>) -> (r: Vec<usize>)
    ensures
        r@ == handler_positions(is_function@),
{
    let mut r: Vec<usize> = Vec::new();
    let mut i: usize = 0;
    while i < is_function.len()
        invariant
            i <= is_function@.len(),
            r@ == handler_positions(is_function@.subrange(0, i as int)),
        decreases is_function@.len() - i,
    {
        let ghost before = is_function@.subrange(0, i as int);
        if is_function[i] {
            r.push(i);
        }
        i += 1;
        proof {
            let now = is_function@.subrange(0, i as int);
            assert(now.drop_last() =~= before);
        }
    }
    assert(is_function@.subrange(0, is_function@.len() as int) =~= is_function@);
    r
}

/// Gathers the opcode table while the script is walked: the name of the array of
/// handlers, and the index of the handler being walked.
#[derive(Default)]
pub struct OpcodeVisitor {
    pub opcodes: OpcodesHandler,
    pub array: String,
    pub current_index: usize,
}

impl OpcodeVisitor {
    /// A variable declarator whose initializer is an array: the array of 96 elements
    /// declared under an identifier is the table of handlers. Records its name and tells
    /// whether its function elements are to be walked as handlers.
    pub fn enter_declarator(&mut self, identifier: Option<&str>, element_count: usize) -> (r: bool)
        ensures
            r == (element_count == 96 && identifier is Some),
            r ==> final(self).array@ == identifier->0@,
            !r ==> final(self).array == old(self).array,
            final(self).opcodes == old(self).opcodes,
            final(self).current_index == old(self).current_index,
    {
        if element_count == 96 {
            if let Some(name) = identifier {
                self.array = String::from_str(name);
                return true;
            }
        }
        false
    }

    /// Starts walking the handler at position `index` of the table: the opcodes it
    /// declares go under that index.
    pub fn enter_handler(&mut self, index: usize)
        ensures
            final(self).current_index == index,
            final(self).array == old(self).array,
            final(self).opcodes == old(self).opcodes,
    {
        self.current_index = index;
    }

    /// A call inside the current handler: a call of `a` declares, for each of its
    /// arguments, the opcode that the argument declares (see `opcode_for_argument`),
    /// each replacing the one before under the current index.
    pub fn record_call(&mut self, callee_is_a: bool, arguments: &Vec<ArgumentShape>)
        ensures
            final(self).array == old(self).array,
            final(self).current_index == old(self).current_index,
            final(self).opcodes@ == if callee_is_a {
                declare_all(old(self).opcodes@, old(self).current_index, arguments@)
            } else {
                old(self).opcodes@
            },
    {
        if !callee_is_a {
            return;
        }
        let mut i: usize = 0;
        assert(arguments@.subrange(0, arguments@.len() as int) =~= arguments@);
        while i < arguments.len()
            invariant
                i <= arguments@.len(),
                self.array == old(self).array,
                self.current_index == old(self).current_index,
                declare_all(old(self).opcodes@, self.current_index, arguments@)
                    == declare_all(self.opcodes@, self.current_index, arguments@.subrange(i as int, arguments@.len() as int)),
            decreases arguments@.len() - i,
        {
            let ghost rest = arguments@.subrange(i as int, arguments@.len() as int);
            assert(rest.drop_first() =~= arguments@.subrange(i + 1, arguments@.len() as int));
            if let Some(op) = opcode_for_argument(arguments[i]) {
                self.opcodes.add(self.current_index, op);
            }
            i += 1;
        }
    }

    /// An assignment inside the current handler declares the opcode of
    /// `opcode_for_assignment`, if any, under the current index.
    pub fn record_assignment(&mut self, target: AssignmentTargetShape, value: AssignedValueShape)
        ensures
            final(self).array == old(self).array,
            final(self).current_index == old(self).current_index,
            final(self).opcodes@ == match spec_opcode_for_assignment(target, value) {
                Some(op) => old(self).opcodes@.insert(old(self).current_index, op),
                None => old(self).opcodes@,
            },
    {
        if let Some(op) = opcode_for_assignment(target, value) {
            self.opcodes.add(self.current_index, op);
        }
    }
}

/// The table after each of `args` has declared its opcode, if any, under `index`.
pub open spec fn declare_all(m: Map<usize, Opcode>, index: usize, args: Seq<ArgumentShape>) -> Map<usize, Opcode>
    decreases args.len(),
{
    if args.len() == 0 {
        m
    } else {
        let m2 = match spec_opcode_for_argument(args[0]) {
            Some(op) => m.insert(index, op),
            None => m,
        };
        declare_all(m2, index, args.drop_first())
    }
}

/// What `add` records under an index is what `get` then finds there, and every other
/// index keeps its opcode.
pub proof fn add_then_get(m: Map<usize, Opcode>, index: usize, op: Opcode, other: usize)
    requires
        other != index,
    ensures
        m.insert(index, op).contains_key(index),
        m.insert(index, op)[index] == op,
        m.insert(index, op).contains_key(other) == m.contains_key(other),
        m.contains_key(other) ==> m.insert(index, op)[other] == m[other],
{
}

/// Subtracting what was added gives back the first operand.
pub proof fn add_then_subtract(x: i64, y: i64)
    requires
        !execute_aborts(OpcodeType::Add, x, y),
    ensures
        !execute_aborts(OpcodeType::Subtract, spec_execute(OpcodeType::Add, x, y) as i64, y),
        spec_execute(OpcodeType::Subtract, spec_execute(OpcodeType::Add, x, y) as i64, y) == x,
{
}

/// Xoring twice with the same operand gives back the first operand.
pub proof fn xor_twice(x: i64, y: i64)
    ensures
        spec_execute(OpcodeType::Xor, spec_execute(OpcodeType::Xor, x, y) as i64, y) == x,
{
    assert((x ^ y) ^ y == x) by (bit_vector);
}

/// Division and remainder recombine into the dividend: `x == y * (x / y) + x % y`, with
/// the remainder smaller than the divisor in magnitude and of the dividend's sign.
pub proof fn divide_and_remainder(x: i64, y: i64)
    requires
        y != 0,
        !execute_aborts(OpcodeType::Divide, x, y),
    ensures
        x == y * spec_execute(OpcodeType::Divide, x, y) + spec_execute(OpcodeType::Modulus, x, y),
        x >= 0 ==> 0 <= spec_execute(OpcodeType::Modulus, x, y),
        x < 0 ==> spec_execute(OpcodeType::Modulus, x, y) <= 0,
        spec_execute(OpcodeType::Modulus, x, y) < if y > 0 { y as int } else { -y },
        -(if y > 0 { y as int } else { -y }) < spec_execute(OpcodeType::Modulus, x, y),
{
    lemma_trunc_rem_bounds(x as int, y as int);
}

/// The floor property of the arithmetic right shift: `x >> y` is the greatest `r` with
/// `r * 2^y <= x`.
proof fn lemma_shr_floor(x: i64, y: i64)
    requires
        0 <= y < 64,
    ensures
        (x >> y) * pow2(y as nat) <= x,
        x < ((x >> y) + 1) * pow2(y as nat),
{
    let yu: u64 = y as u64;
    assert(x >> y == x >> yu);
    lemma_shr_floor_u(x, yu);
}

proof fn lemma_shr_floor_u(x: i64, y: u64)
    requires
        y < 64,
    ensures
        (x >> y) * pow2(y as nat) <= x,
        x < ((x >> y) + 1) * pow2(y as nat),
    decreases y,
{
    if y == 0 {
        assert(x >> 0u64 == x) by (bit_vector);
        lemma2_to64();
    } else {
        let y1: u64 = (y - 1) as u64;
        lemma_shr_floor_u(x, y1);
        let r: i64 = x >> y1;
        let r2: i64 = x >> y;
        assert(r2 == (r >> 1u64)) by (bit_vector)
            requires
                1 <= y < 64,
                y1 == y - 1,
                r == x >> y1,
                r2 == x >> y,
        ;
        assert(r2 * 2 <= r && r < r2 * 2 + 2) by (bit_vector)
            requires
                r2 == (r >> 1u64),
        ;
        lemma_pow2_unfold(y as nat);
        lemma_pow2_pos(y1 as nat);
        let p = pow2(y1 as nat) as int;
        assert(pow2(y as nat) == 2 * p);
        assert(r2 * (2 * p) <= x && x < (r2 + 1) * (2 * p)) by (nonlinear_arith)
            requires
                r * p <= x,
                x < (r + 1) * p,
                r2 * 2 <= r,
                r < r2 * 2 + 2,
                p > 0,
        ;
    }
}

/// The opcode that the binary argument `left operator right` declares.
pub open spec fn declared_by(operator: BinaryOp, left: GetType, right: GetType) -> Option<Opcode> {
    spec_opcode_for_argument(ArgumentShape::Binary { operator, left, right })
}

/// The magnitude of `y`.
pub open spec fn magnitude(y: int) -> int {
    if y >= 0 {
        y
    } else {
        -y
    }
}

/// The argument `left operator right` of a call of `a` declares an arithmetic opcode on
/// the same operands, and executing it on literals `x` and `y` computes the operator:
/// `&` gives `x & y`, `|` gives `x | y`, `^` gives `x ^ y`, `<<` gives `x << y`, `>>`
/// divides by `2^y` rounding down, `+`, `-` and `*` give the sum, difference and product,
/// `/` divides rounding toward zero, and `%` leaves what that quotient leaves over. An
/// operator with no opcode declares none.
pub proof fn binary_argument_computes_its_operator(
    operator: BinaryOp,
    left: GetType,
    right: GetType,
    x: i64,
    y: i64,
)
    ensures
        operator == BinaryOp::Other ==> declared_by(operator, left, right) is None,
        operator != BinaryOp::Other ==> (declared_by(operator, left, right) matches Some(op) && op.left
            == left && op.right == right && is_arithmetic(op.op_type)),
        ({
            let t = declared_by(operator, left, right)->0.op_type;
            &&& operator == BinaryOp::BitwiseAnd ==> spec_execute(t, x, y) == (x & y) as int
            &&& operator == BinaryOp::BitwiseOR ==> spec_execute(t, x, y) == (x | y) as int
            &&& operator == BinaryOp::BitwiseXOR ==> spec_execute(t, x, y) == (x ^ y) as int
            &&& operator == BinaryOp::ShiftLeft ==> spec_execute(t, x, y) == (x << y) as int
            &&& operator == BinaryOp::ShiftRight && 0 <= y < 64 ==> {
                &&& spec_execute(t, x, y) * pow2(y as nat) <= x
                &&& x < (spec_execute(t, x, y) + 1) * pow2(y as nat)
            }
            &&& operator == BinaryOp::Addition ==> spec_execute(t, x, y) == x + y
            &&& operator == BinaryOp::Subtraction ==> spec_execute(t, x, y) == x - y
            &&& operator == BinaryOp::Multiplication ==> spec_execute(t, x, y) == x * y
            &&& operator == BinaryOp::Division && y != 0 ==> {
                &&& x >= 0 ==> x - magnitude(y as int) < y * spec_execute(t, x, y) <= x
                &&& x < 0 ==> x <= y * spec_execute(t, x, y) < x + magnitude(y as int)
            }
            &&& operator == BinaryOp::Remainder && y != 0 ==> spec_execute(t, x, y) == x - y
                * spec_execute(declared_by(BinaryOp::Division, left, right)->0.op_type, x, y)
        }),
{
    if operator == BinaryOp::ShiftRight && 0 <= y < 64 {
        lemma_shr_floor(x, y);
    }
    if y != 0 {
        lemma_trunc_rem_bounds(x as int, y as int);
        let q = trunc_div(x as int, y as int);
        assert(y * q == x - trunc_rem(x as int, y as int));
    }
}

/// The right shift rounds down: for `0 <= y < 64`, the result `r` of a `>>` opcode on
/// `x` and `y` is the greatest integer with `r * 2^y <= x`; in particular every negative
/// `x` not below `-2^y` gives -1, and every `x` in `0..2^y` gives 0.
pub proof fn right_shift_rounds_down(x: i64, y: i64)
    requires
        0 <= y < 64,
    ensures
        spec_execute(OpcodeType::RShift, x, y) * pow2(y as nat) <= x,
        x < (spec_execute(OpcodeType::RShift, x, y) + 1) * pow2(y as nat),
        -(pow2(y as nat) as int) <= x < 0 ==> spec_execute(OpcodeType::RShift, x, y) == -1,
        0 <= x < pow2(y as nat) ==> spec_execute(OpcodeType::RShift, x, y) == 0,
{
    lemma_shr_floor(x, y);
    lemma_pow2_pos(y as nat);
    let r = spec_execute(OpcodeType::RShift, x, y);
    let p = pow2(y as nat) as int;
    assert(-p <= x < 0 ==> r == -1) by (nonlinear_arith)
        requires
            r * p <= x,
            x < (r + 1) * p,
            p > 0,
    ;
    assert(0 <= x < p ==> r == 0) by (nonlinear_arith)
        requires
            r * p <= x,
            x < (r + 1) * p,
            p > 0,
    ;
}

/// The symbol or name that `Opcode::to_string` gives for each opcode type.
pub open spec fn opcode_symbol(t: OpcodeType) -> Seq<char> {
    match t {
        OpcodeType::RShift => ">>"@,
        OpcodeType::LShift => "<<"@,
        OpcodeType::Not => "!"@,
        OpcodeType::Xor => "^"@,
        OpcodeType::And => "&"@,
        OpcodeType::Or => "|"@,
        OpcodeType::Add => "+"@,
        OpcodeType::Subtract => "-"@,
        OpcodeType::Multiply => "*"@,
        OpcodeType::Divide => "/"@,
        OpcodeType::Modulus => "%"@,
        OpcodeType::Get => "get"@,
        OpcodeType::GetProperty => "getProperty"@,
        OpcodeType::StoreGlobal => "storeGlobal"@,
        OpcodeType::GetGlobal => "getGlobal"@,
        OpcodeType::Void => "void"@,
        OpcodeType::Apply => "apply"@,
        OpcodeType::Unset => "none"@,
    }
}

} // verus!
