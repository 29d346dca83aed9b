//! Running the decoded instruction stream against the opcode table to build the key.
use vstd::prelude::*;
use vstd::utf8::encode_utf8;

use crate::ct::vm::parser::{find_list, first_list};
use crate::ct::vm::value_handler::{
    result_view, uninitialized, HandlerView, SpecError, SpecValue, Value, ValueError,
    ValueHandler,
};
use crate::ct::vm::visitors::opcodes::{GetType, Opcode, OpcodeType, OpcodesHandler};
use crate::ct::vm::visitors::values::GetValues;
use crate::text::chars_of;

verus! {

#[derive(Default)]
pub struct KeyBuilder {
    pub drained_bytes: Vec<i64>,
    pub handler: ValueHandler,
    pub opcodes: OpcodesHandler,
    pub list: Vec<i64>,
    pub get: GetValues,
    pub key: Vec<u8>,
    pub iv: Vec<u8>,
}

/// The opcode, if any, that the instruction at `i` names.
pub open spec fn opcode_at(db: Seq<i64>, ops: Map<usize, Opcode>, i: int) -> Option<Opcode> {
    if ops.contains_key(db[i] as usize) {
        Some(ops[db[i] as usize])
    } else {
        None
    }
}

/// The three operand entries after the global index of a `StoreGlobal` at `i`.
pub open spec fn stored_operand(db: Seq<i64>, i: int) -> Seq<i64> {
    seq![db[i + 2], db[i + 3], db[i + 4]]
}

/// Whether a string starts, in UTF-8, with the byte of `[`.
pub open spec fn starts_with_bracket(s: Seq<char>) -> bool {
    encode_utf8(s).len() > 0 && encode_utf8(s)[0] == 91u8
}

/// Whether the instruction at `i` is the first `StoreGlobal` that stores the string of
/// the list: it runs while the list string is not loaded yet, and its operand reads as a
/// string that starts with `[`.
pub open spec fn stores_list_string(
    db: Seq<i64>,
    ops: Map<usize, Opcode>,
    h: HandlerView,
    loaded: bool,
    i: int,
) -> bool {
    &&& opcode_at(db, ops, i) matches Some(op)
    &&& op.op_type == OpcodeType::StoreGlobal
    &&& !loaded
    &&& h.get_value(op.right, stored_operand(db, i), false) matches Ok(SpecValue::String(s))
    &&& starts_with_bracket(s)
}

/// One instruction of `KeyBuilder::generate`: the state after it, whether the list string
/// is loaded, and the result. Only the first `StoreGlobal` whose operand reads as a string
/// that starts with `[` changes anything: it stores that string in the global cell that
/// its first operand designates. Every other instruction leaves the state as it was.
pub open spec fn step(
    db: Seq<i64>,
    ops: Map<usize, Opcode>,
    h: HandlerView,
    loaded: bool,
    i: int,
) -> (HandlerView, bool, Result<(), SpecError>) {
    if stores_list_string(db, ops, h, loaded, i) {
        let op = opcode_at(db, ops, i)->0;
        let s = h.get_value(op.right, stored_operand(db, i), false)->Ok_0;
        match h.get_value(op.left, seq![db[i + 1]], false) {
            Err(e) => (h, true, Err(e)),
            Ok(SpecValue::Literal(n)) => {
                let (h2, r) = h.set_value(s, (n as usize) as int, true);
                (h2, true, r)
            },
            Ok(_) => (h, true, Err(SpecError::InvalidType("Expected literal value"@))),
        }
    } else {
        (h, loaded, Ok(()))
    }
}

/// The instructions on which `generate` would abort: a `StoreGlobal` that runs while the
/// list string is not loaded and whose operands run past the end of the stream or can
/// not be read (see `HandlerView::get_value_aborts`).
pub open spec fn step_aborts(
    db: Seq<i64>,
    ops: Map<usize, Opcode>,
    h: HandlerView,
    loaded: bool,
    i: int,
) -> bool {
    &&& opcode_at(db, ops, i) matches Some(op)
    &&& op.op_type == OpcodeType::StoreGlobal
    &&& !loaded
    &&& {
        ||| i + 4 >= db.len()
        ||| h.get_value_aborts(op.right, stored_operand(db, i))
        ||| stores_list_string(db, ops, h, loaded, i) && h.get_value_aborts(
            op.left,
            seq![db[i + 1]],
        )
    }
}

/// The instructions from `i` on: the final state, and the first error, if any.
pub open spec fn run(
    db: Seq<i64>,
    ops: Map<usize, Opcode>,
    h: HandlerView,
    loaded: bool,
    i: int,
) -> (HandlerView, Result<(), SpecError>)
    decreases db.len() - i,
{
    if i < 0 || i >= db.len() {
        (h, Ok(()))
    } else {
        let (h2, loaded2, r) = step(db, ops, h, loaded, i);
        if r is Err {
            (h2, r)
        } else {
            run(db, ops, h2, loaded2, i + 1)
        }
    }
}

/// Whether running the instructions from `i` on reaches one on which `generate` aborts.
pub open spec fn run_aborts(
    db: Seq<i64>,
    ops: Map<usize, Opcode>,
    h: HandlerView,
    loaded: bool,
    i: int,
) -> bool
    decreases db.len() - i,
{
    if i < 0 || i >= db.len() {
        false
    } else {
        step_aborts(db, ops, h, loaded, i) || {
            let (h2, loaded2, r) = step(db, ops, h, loaded, i);
            r is Ok && run_aborts(db, ops, h2, loaded2, i + 1)
        }
    }
}

/// Running the instructions never changes local memory, the text, or the operand tag
/// of strings: only a global cell can change.
pub proof fn run_keeps_local(db: Seq<i64>, ops: Map<usize, Opcode>, h: HandlerView, loaded: bool, i: int)
    ensures
        run(db, ops, h, loaded, i).0.local == h.local,
        run(db, ops, h, loaded, i).0.chars == h.chars,
        run(db, ops, h, loaded, i).0.strings == h.strings,
        run(db, ops, h, loaded, i).0.global.len() == h.global.len(),
    decreases db.len() - i,
{
    if 0 <= i < db.len() {
        let (h2, loaded2, r) = step(db, ops, h, loaded, i);
        assert(h2.local == h.local && h2.chars == h.chars && h2.strings == h.strings
            && h2.global.len() == h.global.len());
        if r is Ok {
            run_keeps_local(db, ops, h2, loaded2, i + 1);
        }
    }
}

/// Once the list string is loaded, the remaining instructions change nothing and fail
/// nowhere: the list string is stored at most once.
pub proof fn loaded_run_is_idle(db: Seq<i64>, ops: Map<usize, Opcode>, h: HandlerView, i: int)
    ensures
        run(db, ops, h, true, i) == (h, Ok::<(), SpecError>(())),
        !run_aborts(db, ops, h, true, i),
    decreases db.len() - i,
{
    if 0 <= i < db.len() {
        loaded_run_is_idle(db, ops, h, i + 1);
    }
}

/// Whether the operand of the instruction at `i`, read in the state `h`, is a string that
/// starts with `[`.
pub open spec fn reads_list_string(db: Seq<i64>, ops: Map<usize, Opcode>, h: HandlerView, i: int) -> bool {
    &&& opcode_at(db, ops, i) matches Some(op)
    &&& h.get_value(op.right, stored_operand(db, i), false) matches Ok(SpecValue::String(s))
    &&& starts_with_bracket(s)
}

/// An instruction that is not a `StoreGlobal` whose operand reads as a string starting
/// with `[` changes nothing: neither the state nor whether the list string is loaded.
/// In particular a `StoreGlobal` of a literal, a list or an unreadable operand does not
/// mark the list string as loaded.
pub proof fn other_instructions_change_nothing(
    db: Seq<i64>,
    ops: Map<usize, Opcode>,
    h: HandlerView,
    loaded: bool,
    i: int,
)
    requires
        !(opcode_at(db, ops, i) matches Some(op) && op.op_type == OpcodeType::StoreGlobal)
            || !reads_list_string(db, ops, h, i),
    ensures
        step(db, ops, h, loaded, i) == (h, loaded, Ok::<(), SpecError>(())),
{
}

/// The list string is stored by the first `StoreGlobal` whose operand reads as a string
/// starting with `[`, whatever instructions come before it: running from `i` while the
/// list string is not loaded gives what that one instruction gives on the unchanged
/// state, the value stored in the global cell its first operand designates.
pub proof fn first_list_string_is_stored(
    db: Seq<i64>,
    ops: Map<usize, Opcode>,
    h: HandlerView,
    i: int,
    j: int,
)
    requires
        0 <= i <= j < db.len(),
        opcode_at(db, ops, j) matches Some(op) && op.op_type == OpcodeType::StoreGlobal,
        reads_list_string(db, ops, h, j),
        forall|k: int|
            i <= k < j ==> !(opcode_at(db, ops, k) matches Some(op) && op.op_type
                == OpcodeType::StoreGlobal) || !#[trigger] reads_list_string(db, ops, h, k),
    ensures
        ({
            let op = opcode_at(db, ops, j)->0;
            let s = h.get_value(op.right, stored_operand(db, j), false)->Ok_0;
            run(db, ops, h, false, i) == match h.get_value(op.left, seq![db[j + 1]], false) {
                Err(e) => (h, Err(e)),
                Ok(SpecValue::Literal(n)) => h.set_value(s, (n as usize) as int, true),
                Ok(_) => (h, Err(SpecError::InvalidType("Expected literal value"@))),
            }
        }),
    decreases j - i,
{
    if i < j {
        other_instructions_change_nothing(db, ops, h, false, i);
        assert(!(opcode_at(db, ops, i) matches Some(op) && op.op_type == OpcodeType::StoreGlobal)
            || !reads_list_string(db, ops, h, i));
        first_list_string_is_stored(db, ops, h, i + 1, j);
    } else {
        let (h2, loaded2, r) = step(db, ops, h, false, i);
        assert(loaded2);
        loaded_run_is_idle(db, ops, h2, i + 1);
    }
}

/// With no `StoreGlobal` whose operand reads as a string starting with `[`, running the
/// instructions changes nothing and fails nowhere.
pub proof fn run_without_list_string_is_idle(
    db: Seq<i64>,
    ops: Map<usize, Opcode>,
    h: HandlerView,
    i: int,
)
    requires
        0 <= i,
        forall|k: int|
            i <= k < db.len() ==> !(opcode_at(db, ops, k) matches Some(op) && op.op_type
                == OpcodeType::StoreGlobal) || !#[trigger] reads_list_string(db, ops, h, k),
    ensures
        run(db, ops, h, false, i) == (h, Ok::<(), SpecError>(())),
    decreases db.len() - i,
{
    if i < db.len() {
        other_instructions_change_nothing(db, ops, h, false, i);
        assert(!(opcode_at(db, ops, i) matches Some(op) && op.op_type == OpcodeType::StoreGlobal)
            || !reads_list_string(db, ops, h, i));
        run_without_list_string_is_idle(db, ops, h, i + 1);
    }
}

impl KeyBuilder {
    /// A builder over the instruction stream `drained_bytes` and the decoded text: its
    /// handler reads the text's characters and starts with empty memories, and its list
    /// is the leftmost list of numbers in the text (see `find_list`).
    pub fn new(drained_bytes: Vec<i64>, decoded: String, get: GetValues, opcodes: OpcodesHandler) -> (r: Self)
        requires
            forall|m: int|
                0 <= m < first_list(encode_utf8(decoded@)).len() ==> #[trigger] first_list(
                    encode_utf8(decoded@),
                )[m] <= i64::MAX,
        ensures
            r.drained_bytes == drained_bytes,
            r.handler@ == (HandlerView {
                chars: decoded@,
                strings: get.strings,
                local: uninitialized(100, "Uninitialized local value"@),
                global: uninitialized(10000, "Uninitialized global value"@),
            }),
            r.handler.get == get,
            r.opcodes == opcodes,
            r.list@.map_values(|v: i64| v as nat) == first_list(encode_utf8(decoded@)),
            r.get == get,
            r.key@ == Seq::<u8>::empty(),
            r.iv@ == Seq::<u8>::empty(),
    {
        let handler = ValueHandler::new(chars_of(decoded.as_str()), get);
        let list = find_list(decoded);
        Self { drained_bytes, handler, opcodes, list, get, key: Vec::new(), iv: Vec::new() }
    }

    /// Runs the instruction stream against the opcode table (see `run`) and returns the
    /// key. The first `StoreGlobal` whose operand reads as a string that starts with `[`
    /// stores that string in global memory; the instructions that need the list itself
    /// run only once the list is loaded, which no instruction does, so they change
    /// nothing. The key is returned as it was.
    pub fn generate(&mut self) -> (r: Result<Vec<u8>, ValueError>)
        requires
            !run_aborts(
                old(self).drained_bytes@,
                old(self).opcodes@,
                old(self).handler@,
                false,
                0,
            ),
        ensures
            final(self).drained_bytes == old(self).drained_bytes,
            final(self).opcodes == old(self).opcodes,
            final(self).list == old(self).list,
            final(self).get == old(self).get,
            final(self).key == old(self).key,
            final(self).iv == old(self).iv,
            final(self).handler.chars == old(self).handler.chars,
            final(self).handler.get == old(self).handler.get,
            final(self).handler@ == run(
                old(self).drained_bytes@,
                old(self).opcodes@,
                old(self).handler@,
                false,
                0,
            ).0,
            run(old(self).drained_bytes@, old(self).opcodes@, old(self).handler@, false, 0).1 is Ok
                ==> (r matches Ok(k) && k@ == old(self).key@),
            run(old(self).drained_bytes@, old(self).opcodes@, old(self).handler@, false, 0).1 matches Err(e)
                ==> (r matches Err(e2) && e2@ == e),
    {
        let list_loaded = false;
        let mut list_string_loaded = false;
        let mut skip: i32 = 0;
        let n = self.drained_bytes.len();
        let ghost db = self.drained_bytes@;
        let ghost ops = self.opcodes@;
        let ghost h0 = self.handler@;
        let mut next: usize = 0;
        while next < n
            invariant
                next <= n,
                n == db.len(),
                db == self.drained_bytes@,
                ops == self.opcodes@,
                h0 == old(self).handler@,
                db == old(self).drained_bytes@,
                ops == old(self).opcodes@,
                !list_loaded,
                skip == 0,
                self.drained_bytes == old(self).drained_bytes,
                self.opcodes == old(self).opcodes,
                self.list == old(self).list,
                self.get == old(self).get,
                self.key == old(self).key,
                self.iv == old(self).iv,
                self.handler.chars == old(self).handler.chars,
                self.handler.get == old(self).handler.get,
                run(db, ops, h0, false, 0) == run(db, ops, self.handler@, list_string_loaded, next as int),
                !run_aborts(db, ops, self.handler@, list_string_loaded, next as int),
            decreases n - next,
        {
            let i = next;
            next += 1;
            if skip > 0 {
                skip -= 1;
                continue;
            }
            let ghost h = self.handler@;
            let ghost sl = list_string_loaded;
            proof {
                assert(!step_aborts(db, ops, h, sl, i as int));
            }
            if let Ok(found) = self.opcodes.get(self.drained_bytes[i] as usize) {
                let opcode: Opcode = *found;
                assert(opcode_at(db, ops, i as int) == Some(opcode));
                if opcode.is_executable() && list_loaded {
                    let x = match self.handler.get_value(opcode.left, vec![self.drained_bytes[i + 1]], false) {
                        Ok(v) => v,
                        Err(e) => return Err(e),
                    };
                    let x = match x.as_literal() {
                        Ok(v) => v,
                        Err(e) => return Err(e),
                    };
                    let y = match self.handler.get_value(opcode.left, vec![self.drained_bytes[i + 2]], false) {
                        Ok(v) => v,
                        Err(e) => return Err(e),
                    };
                    let y = match y.as_literal() {
                        Ok(v) => v,
                        Err(e) => return Err(e),
                    };
                    let result = match opcode.execute(x, y) {
                        Ok(v) => v,
                        Err(e) => return Err(e),
                    };
                    let index = match self.handler.get_value(GetType::L, vec![self.drained_bytes[i + 3]], false) {
                        Ok(v) => v,
                        Err(e) => return Err(e),
                    };
                    let index = match index.as_literal() {
                        Ok(v) => v,
                        Err(e) => return Err(e),
                    };
                    if let Err(e) = self.handler.set_value(Value::Literal(result), index as usize, false) {
                        return Err(e);
                    }
                }
                match opcode.op_type {
                    OpcodeType::GetProperty => {
                        if !list_loaded {
                            continue;
                        }
                        let _x = match self.handler.get_value(opcode.left, vec![self.drained_bytes[i + 1]], false) {
                            Ok(v) => v,
                            Err(e) => return Err(e),
                        };
                        let y = match self.handler.get_value(
                            opcode.left,
                            vec![self.drained_bytes[i + 2], self.drained_bytes[i + 3], self.drained_bytes[i + 4]],
                            false,
                        ) {
                            Ok(v) => v,
                            Err(e) => return Err(e),
                        };
                        if y.is_string() {
                            skip = 5;
                        } else {
                            let _index = match self.handler.get_value(GetType::I, vec![self.drained_bytes[i + 3]], false) {
                                Ok(v) => v,
                                Err(e) => return Err(e),
                            };
                            skip = 3;
                        }
                    },
                    OpcodeType::Get => {
                        if !list_loaded {
                            continue;
                        }
                        let x = match self.handler.get_value(
                            opcode.left,
                            vec![self.drained_bytes[i + 1], self.drained_bytes[i + 2], self.drained_bytes[i + 3]],
                            false,
                        ) {
                            Ok(v) => v,
                            Err(e) => return Err(e),
                        };
                        let operand = if x.is_string() {
                            self.drained_bytes[i + 4]
                        } else {
                            self.drained_bytes[i + 2]
                        };
                        let index = match self.handler.get_value(GetType::I, vec![operand], false) {
                            Ok(v) => v,
                            Err(e) => return Err(e),
                        };
                        let index = match index.as_literal() {
                            Ok(v) => v,
                            Err(e) => return Err(e),
                        };
                        if let Err(e) = self.handler.set_value(x, index as usize, false) {
                            return Err(e);
                        }
                        skip = 2;
                    },
                    OpcodeType::StoreGlobal => {
                        if !list_string_loaded {
                            if let Ok(x) = self.handler.get_value(
                                opcode.right,
                                vec![self.drained_bytes[i + 2], self.drained_bytes[i + 3], self.drained_bytes[i + 4]],
                                false,
                            ) {
                                if x.is_string() {
                                    let opens_list = {
                                        let text = match x.as_string() {
                                            Ok(t) => t,
                                            Err(e) => return Err(e),
                                        };
                                        let bytes = text.as_str().as_bytes();
                                        if bytes.len() == 0 {
                                            continue;
                                        }
                                        bytes[0] == 91
                                    };
                                    if opens_list {
                                        list_string_loaded = true;
                                        let index = match self.handler.get_value(opcode.left, vec![self.drained_bytes[i + 1]], false) {
                                            Ok(v) => v,
                                            Err(e) => return Err(e),
                                        };
                                        let index = match index.as_literal() {
                                            Ok(v) => v,
                                            Err(e) => return Err(e),
                                        };
                                        if let Err(e) = self.handler.set_value(x, index as usize, true) {
                                            return Err(e);
                                        }
                                    }
                                }
                            }
                            continue;
                        }
                        if !list_loaded {
                            continue;
                        }
                        let mut i_2 = i;
                        #[verifier::loop_isolation(false)]
                        loop
                            decreases n - i_2,
                        {
                            i_2 += 1;
                            if let Ok(x) = self.handler.get_value(opcode.left, vec![self.drained_bytes[i_2]], false) {
                                let y = match self.handler.get_value(
                                    opcode.right,
                                    vec![self.drained_bytes[i_2 + 1], self.drained_bytes[i_2 + 2], self.drained_bytes[i_2 + 3]],
                                    false,
                                ) {
                                    Ok(v) => v,
                                    Err(e) => return Err(e),
                                };
                                let index = match x.as_literal() {
                                    Ok(v) => v,
                                    Err(e) => return Err(e),
                                };
                                if let Err(e) = self.handler.set_value(y, index as usize, true) {
                                    return Err(e);
                                }
                                break;
                            }
                        }
                    },
                    OpcodeType::GetGlobal => {
                        if !list_string_loaded {
                            continue;
                        }
                        if !list_loaded {
                            continue;
                        }
                        let mut i_2 = i;
                        #[verifier::loop_isolation(false)]
                        loop
                            decreases n - i_2,
                        {
                            i_2 += 1;
                            if let Ok(x) = self.handler.get_value(opcode.right, vec![self.drained_bytes[i_2]], true) {
                                let y = match self.handler.get_value(GetType::I, vec![self.drained_bytes[i_2 + 1]], false) {
                                    Ok(v) => v,
                                    Err(e) => return Err(e),
                                };
                                let index = match y.as_literal() {
                                    Ok(v) => v,
                                    Err(e) => return Err(e),
                                };
                                if let Err(e) = self.handler.set_value(x, index as usize, false) {
                                    return Err(e);
                                }
                                break;
                            }
                        }
                    },
                    OpcodeType::Not => {
                        if !list_loaded {
                            continue;
                        }
                        let x = match self.handler.get_value(opcode.left, vec![self.drained_bytes[i + 1]], false) {
                            Ok(v) => v,
                            Err(e) => return Err(e),
                        };
                        let index = match self.handler.get_value(GetType::I, vec![self.drained_bytes[i + 2]], false) {
                            Ok(v) => v,
                            Err(e) => return Err(e),
                        };
                        let index = match index.as_literal() {
                            Ok(v) => v,
                            Err(e) => return Err(e),
                        };
                        let value = match x.as_literal() {
                            Ok(v) => !v,
                            Err(e) => return Err(e),
                        };
                        if let Err(e) = self.handler.set_value(Value::Literal(value), index as usize, false) {
                            return Err(e);
                        }
                        skip = 2;
                    },
                    OpcodeType::Void => {
                        if !list_loaded {
                            continue;
                        }
                        let x = match self.handler.get_value(GetType::I, vec![self.drained_bytes[i + 2]], false) {
                            Ok(v) => v,
                            Err(e) => return Err(e),
                        };
                        let index = match x.as_literal() {
                            Ok(v) => v,
                            Err(e) => return Err(e),
                        };
                        if let Err(e) = self.handler.delete_value(index as usize, true) {
                            return Err(e);
                        }
                        skip = 2;
                    },
                    _ => {},
                }
            }
        }
        Ok(vstd::slice::slice_to_vec(self.key.as_slice()))
    }
}

} // verus!
