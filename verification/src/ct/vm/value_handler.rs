//! Values of the virtual machine, its two memories (local and global), and the
//! handler that decodes operands and reads and writes those memories.
use vstd::prelude::*;

use crate::ct::vm::visitors::opcodes::GetType;
use crate::ct::vm::visitors::values::GetValues;
use crate::text::{decimal, push_decimal, push_str};

verus! {

#[derive(Debug, Clone, PartialEq)]
pub enum ValueError {
    MathError(String),
    NotFound(String),
    InvalidType(String),
    IndexOutOfBounds(String),
}

/// A `ValueError` with its message taken as a sequence of characters.
pub enum SpecError {
    MathError(Seq<char>),
    NotFound(Seq<char>),
    InvalidType(Seq<char>),
    IndexOutOfBounds(Seq<char>),
}

impl View for ValueError {
    type V = SpecError;

    open spec fn view(&self) -> SpecError {
        match self {
            ValueError::MathError(m) => SpecError::MathError(m@),
            ValueError::NotFound(m) => SpecError::NotFound(m@),
            ValueError::InvalidType(m) => SpecError::InvalidType(m@),
            ValueError::IndexOutOfBounds(m) => SpecError::IndexOutOfBounds(m@),
        }
    }
}

#[derive(Debug, Clone, PartialEq)]
pub enum Value {
    Literal(i64),
    List(Vec<i64>),
    String(String),
    Empty,
}

/// A `Value` with its list and string taken as sequences.
pub enum SpecValue {
    Literal(i64),
    List(Seq<i64>),
    String(Seq<char>),
    Empty,
}

impl View for Value {
    type V = SpecValue;

    open spec fn view(&self) -> SpecValue {
        match self {
            Value::Literal(n) => SpecValue::Literal(*n),
            Value::List(l) => SpecValue::List(l@),
            Value::String(s) => SpecValue::String(s@),
            Value::Empty => SpecValue::Empty,
        }
    }
}

/// What a memory cell holds: a value, or the error that reading it gives.
pub type Slot = Result<SpecValue, SpecError>;

pub open spec fn slot_view(r: Result<Value, ValueError>) -> Slot {
    match r {
        Ok(v) => Ok(v@),
        Err(e) => Err(e@),
    }
}

pub open spec fn result_view(r: Result<(), ValueError>) -> Result<(), SpecError> {
    match r {
        Ok(()) => Ok(()),
        Err(e) => Err(e@),
    }
}

pub open spec fn slots_view(s: Seq<Result<Value, ValueError>>) -> Seq<Slot> {
    s.map_values(|r: Result<Value, ValueError>| slot_view(r))
}

/// The decimal rendering of a signed integer, with a leading `-` when it is negative.
pub open spec fn signed_decimal(n: int) -> Seq<char> {
    if n < 0 {
        seq!['-'] + decimal((-n) as nat)
    } else {
        decimal(n as nat)
    }
}

pub open spec fn index_message(index: nat) -> Seq<char> {
    "Index "@ + decimal(index) + " is out of bounds"@
}

pub open spec fn local_index_message(index: int) -> Seq<char> {
    "Local index "@ + signed_decimal(index) + " is out of bounds"@
}

pub open spec fn global_index_message(index: nat) -> Seq<char> {
    "Global index "@ + decimal(index) + " is out of bounds"@
}

fn copy_i64s(v: &Vec<i64>) -> (r: Vec<i64>)
    ensures
        r@ == v@,
{
    let mut r: Vec<i64> = Vec::new();
    let mut i: usize = 0;
    while i < v.len()
        invariant
            i <= v@.len(),
            r@ == v@.subrange(0, i as int),
        decreases v@.len() - i,
    {
        r.push(v[i]);
        i += 1;
        assert(r@ =~= v@.subrange(0, i as int));
    }
    assert(v@.subrange(0, v@.len() as int) =~= v@);
    r
}

fn copy_string(s: &String) -> (r: String)
    ensures
        r@ == s@,
{
    s.clone()
}

/// The text of an error: its kind, a colon and a space, then its message.
pub open spec fn error_text(e: SpecError) -> Seq<char> {
    match e {
        SpecError::NotFound(m) => "Value not found: "@ + m,
        SpecError::InvalidType(m) => "Invalid type: "@ + m,
        SpecError::IndexOutOfBounds(m) => "Index out of bounds: "@ + m,
        SpecError::MathError(m) => "Math error: "@ + m,
    }
}

impl ValueError {
    /// The text of the error, as `error_text` spells it.
    pub fn message(&self) -> (r: String)
        ensures
            r@ == error_text(self@),
    {
        let mut s = String::new();
        match self {
            ValueError::NotFound(m) => {
                push_str(&mut s, "Value not found: ");
                push_str(&mut s, m.as_str());
            },
            ValueError::InvalidType(m) => {
                push_str(&mut s, "Invalid type: ");
                push_str(&mut s, m.as_str());
            },
            ValueError::IndexOutOfBounds(m) => {
                push_str(&mut s, "Index out of bounds: ");
                push_str(&mut s, m.as_str());
            },
            ValueError::MathError(m) => {
                push_str(&mut s, "Math error: ");
                push_str(&mut s, m.as_str());
            },
        }
        proof {
            assert(s@ =~= error_text(self@));
        }
        s
    }

    /// A copy of the error.
    pub fn duplicate(&self) -> (r: ValueError)
        ensures
            r@ == self@,
    {
        match self {
            ValueError::MathError(m) => ValueError::MathError(copy_string(m)),
            ValueError::NotFound(m) => ValueError::NotFound(copy_string(m)),
            ValueError::InvalidType(m) => ValueError::InvalidType(copy_string(m)),
            ValueError::IndexOutOfBounds(m) => ValueError::IndexOutOfBounds(copy_string(m)),
        }
    }
}

impl Value {
    /// A copy of the value.
    pub fn duplicate(&self) -> (r: Value)
        ensures
            r@ == self@,
    {
        match self {
            Value::Literal(n) => Value::Literal(*n),
            Value::List(l) => Value::List(copy_i64s(l)),
            Value::String(s) => Value::String(copy_string(s)),
            Value::Empty => Value::Empty,
        }
    }

    pub fn is_literal(&self) -> (r: bool)
        ensures
            r == (self is Literal),
    {
        matches!(self, Value::Literal(_))
    }

    pub fn is_list(&self) -> (r: bool)
        ensures
            r == (self is List),
    {
        matches!(self, Value::List(_))
    }

    pub fn is_string(&self) -> (r: bool)
        ensures
            r == (self is String),
    {
        matches!(self, Value::String(_))
    }

    pub fn as_literal(&self) -> (r: Result<i64, ValueError>)
        ensures
            match self {
                Value::Literal(n) => r == Ok::<i64, ValueError>(*n),
                _ => r matches Err(e) && e@ == SpecError::InvalidType("Expected literal value"@),
            },
    {
        match self {
            Value::Literal(n) => Ok(*n),
            _ => Err(ValueError::InvalidType(String::from_str("Expected literal value"))),
        }
    }

    pub fn as_list(&self) -> (r: Result<&Vec<i64>, ValueError>)
        ensures
            match self {
                Value::List(l) => r matches Ok(v) && v == l,
                _ => r matches Err(e) && e@ == SpecError::InvalidType("Expected list value"@),
            },
    {
        match self {
            Value::List(n) => Ok(n),
            _ => Err(ValueError::InvalidType(String::from_str("Expected list value"))),
        }
    }

    pub fn as_string(&self) -> (r: Result<&String, ValueError>)
        ensures
            match self {
                Value::String(s) => r matches Ok(v) && v == s,
                _ => r matches Err(e) && e@ == SpecError::InvalidType("Expected string value"@),
            },
    {
        match self {
            Value::String(n) => Ok(n),
            _ => Err(ValueError::InvalidType(String::from_str("Expected string value"))),
        }
    }
}

impl From<i64> for Value {
    fn from(n: i64) -> (r: Self) {
        Value::Literal(n)
    }
}

impl vstd::std_specs::convert::FromSpecImpl<i64> for Value {
    open spec fn obeys_from_spec() -> bool {
        true
    }

    open spec fn from_spec(n: i64) -> Self {
        Value::Literal(n)
    }
}

impl From<String> for Value {
    fn from(s: String) -> (r: Self) {
        Value::String(s)
    }
}

impl vstd::std_specs::convert::FromSpecImpl<String> for Value {
    open spec fn obeys_from_spec() -> bool {
        true
    }

    open spec fn from_spec(s: String) -> Self {
        Value::String(s)
    }
}

fn duplicate_slot(r: &Result<Value, ValueError>) -> (c: Result<Value, ValueError>)
    ensures
        slot_view(c) == slot_view(*r),
{
    match r {
        Ok(v) => Ok(v.duplicate()),
        Err(e) => Err(e.duplicate()),
    }
}


/// The two memories of the machine: 100 local cells and 10000 global cells once
/// `ValueHandler::new` has built them.
#[derive(Default, Debug, Clone, PartialEq)]
pub struct Memory {
    pub local: Vec<Result<Value, ValueError>>,
    pub global: Vec<Result<Value, ValueError>>,
}

#[derive(Default)]
pub struct ValueHandler {
    pub chars: Vec<char>,
    pub get: GetValues,
    pub memory: Memory,
}

/// A memory of `n` cells, each holding a `NotFound` error with message `m`.
pub open spec fn uninitialized(n: nat, m: Seq<char>) -> Seq<Slot> {
    Seq::new(n, |i: int| Err::<SpecValue, SpecError>(SpecError::NotFound(m)))
}

fn uninitialized_memory(n: usize, message: &str) -> (r: Vec<Result<Value, ValueError>>)
    ensures
        slots_view(r@) == uninitialized(n as nat, message@),
{
    let mut r: Vec<Result<Value, ValueError>> = Vec::new();
    let mut i: usize = 0;
    while i < n
        invariant
            i <= n,
            r@.len() == i,
            slots_view(r@) == uninitialized(i as nat, message@),
        decreases n - i,
    {
        let e = ValueError::NotFound(String::from_str(message));
        assert(slot_view(Err(e)) == Err::<SpecValue, SpecError>(SpecError::NotFound(message@)));
        let ghost old_r = r@;
        r.push(Err(e));
        i += 1;
        assert(r@ == old_r.push(Err(e)));
        assert forall|j: int| 0 <= j < i implies slots_view(r@)[j] == uninitialized(
            i as nat,
            message@,
        )[j] by {
            if j < i - 1 {
                assert(r@[j] == old_r[j]);
                assert(slots_view(old_r)[j] == uninitialized((i - 1) as nat, message@)[j]);
            }
        }
        assert(slots_view(r@) =~= uninitialized(i as nat, message@));
    }
    r
}

/// The cell a local read of the operand `x` designates: `x >> 5`, taken as an index.
pub open spec fn local_cell(x: i64) -> i64 {
    x >> 5
}

/// The state of a `ValueHandler`: the decoded text, the operand tag of strings, and
/// the two memories.
pub struct HandlerView {
    pub chars: Seq<char>,
    pub strings: u8,
    pub local: Seq<Slot>,
    pub global: Seq<Slot>,
}

impl HandlerView {
    pub open spec fn memory(self, global: bool) -> Seq<Slot> {
        if global {
            self.global
        } else {
            self.local
        }
    }

    pub open spec fn with_memory(self, global: bool, m: Seq<Slot>) -> HandlerView {
        if global {
            HandlerView { global: m, ..self }
        } else {
            HandlerView { local: m, ..self }
        }
    }

    /// The outcome of `set_value`: the new state and the result.
    pub open spec fn set_value(self, x: SpecValue, index: int, global: bool) -> (
        HandlerView,
        Result<(), SpecError>,
    ) {
        if 0 <= index < self.memory(global).len() {
            (self.with_memory(global, self.memory(global).update(index, Ok(x))), Ok(()))
        } else {
            (self, Err(SpecError::IndexOutOfBounds(index_message(index as nat))))
        }
    }

    /// What reading the local cell with index `index` gives.
    pub open spec fn read_local(self, index: i64) -> Slot {
        if (index as usize) >= self.local.len() {
            Err(SpecError::IndexOutOfBounds(local_index_message(index as int)))
        } else {
            self.local[(index as usize) as int]
        }
    }

    /// Whether the operand `values` is read as a string.
    pub open spec fn reads_string(self, t: GetType, values: Seq<i64>) -> bool {
        t == GetType::E && values[0] == self.strings as i64
    }

    /// The operands on which `get_value` would abort: an empty operand list, and a
    /// string operand with fewer than three entries, whose end overflows, or whose start
    /// lies past its end while its end lies within the text.
    pub open spec fn get_value_aborts(self, t: GetType, values: Seq<i64>) -> bool {
        ||| values.len() == 0
        ||| self.reads_string(t, values) && {
            ||| values.len() < 3
            ||| !(i64::MIN <= values[1] + values[2] <= i64::MAX)
            ||| string_end(values) <= self.chars.len() && string_start(values) > string_end(
                values,
            )
        }
    }

    /// What `get_value` gives from local memory.
    pub open spec fn get_local(self, t: GetType, values: Seq<i64>) -> Slot {
        let x = values[0];
        match t {
            GetType::L => self.read_local(local_cell(x)),
            GetType::E => {
                if self.reads_string(t, values) {
                    if string_end(values) > self.chars.len() {
                        Err(SpecError::IndexOutOfBounds("String index out of bounds"@))
                    } else {
                        Ok(
                            SpecValue::String(
                                self.chars.subrange(
                                    string_start(values) as int,
                                    string_end(values) as int,
                                ),
                            ),
                        )
                    }
                } else if x & 1 == 1 {
                    Ok(SpecValue::Literal(x >> 1))
                } else {
                    self.read_local(local_cell(x))
                }
            },
            GetType::I => Ok(SpecValue::Literal(local_cell(x))),
            GetType::Unknown => Err(SpecError::InvalidType("Unknown GetType"@)),
        }
    }

    /// What `get_value` gives. A global read first reads the operand locally, takes
    /// the literal it yields as the index of a global cell, and reads that cell.
    pub open spec fn get_value(self, t: GetType, values: Seq<i64>, global: bool) -> Slot {
        if global {
            match self.get_local(t, values) {
                Err(e) => Err(e),
                Ok(SpecValue::Literal(n)) => {
                    if (n as usize) >= self.global.len() {
                        Err(SpecError::IndexOutOfBounds(global_index_message((n as usize) as nat)))
                    } else {
                        self.global[(n as usize) as int]
                    }
                },
                Ok(_) => Err(SpecError::InvalidType("Expected literal value"@)),
            }
        } else {
            self.get_local(t, values)
        }
    }
}

/// The bounds of the substring that an `E` operand tagged as a string designates:
/// it starts at `values[2]` and has `values[1]` characters.
pub open spec fn string_start(values: Seq<i64>) -> usize {
    values[2] as usize
}

pub open spec fn string_end(values: Seq<i64>) -> usize {
    (values[1] + values[2]) as usize
}

impl View for ValueHandler {
    type V = HandlerView;

    open spec fn view(&self) -> HandlerView {
        HandlerView {
            chars: self.chars@,
            strings: self.get.strings,
            local: slots_view(self.memory.local@),
            global: slots_view(self.memory.global@),
        }
    }
}

impl ValueHandler {
    /// A handler over the characters `chars` whose 100 local and 10000 global cells
    /// are all uninitialized.
    pub fn new(chars: Vec<char>, get: GetValues) -> (r: Self)
        ensures
            r.chars == chars,
            r.get == get,
            r@.local == uninitialized(100, "Uninitialized local value"@),
            r@.global == uninitialized(10000, "Uninitialized global value"@),
    {
        Self {
            chars,
            get,
            memory: Memory {
                local: uninitialized_memory(100, "Uninitialized local value"),
                global: uninitialized_memory(10000, "Uninitialized global value"),
            },
        }
    }

    /// Stores `x` in cell `index` of the chosen memory; an index past its end is an error
    /// and changes nothing.
    pub fn set_value(&mut self, x: Value, index: usize, global: bool) -> (r: Result<
        (),
        ValueError,
    >)
        ensures
            final(self).chars == old(self).chars,
            final(self).get == old(self).get,
            final(self)@ == old(self)@.set_value(x@, index as int, global).0,
            result_view(r) == old(self)@.set_value(x@, index as int, global).1,
    {
        if global {
            store_slot(&mut self.memory.global, index, Ok(x))
        } else {
            store_slot(&mut self.memory.local, index, Ok(x))
        }
    }

    /// Empties cell `index` of the chosen memory: reading it afterwards gives a `NotFound`
    /// error. An index past the end is an error and changes nothing.
    pub fn delete_value(&mut self, index: usize, global: bool) -> (r: Result<(), ValueError>)
        ensures
            final(self).chars == old(self).chars,
            final(self).get == old(self).get,
            index < old(self)@.memory(global).len() ==> {
                &&& r is Ok
                &&& final(self)@ == old(self)@.with_memory(
                    global,
                    old(self)@.memory(global).update(
                        index as int,
                        Err(SpecError::NotFound("Value was deleted"@)),
                    ),
                )
            },
            index >= old(self)@.memory(global).len() ==> {
                &&& r matches Err(e) && e@ == SpecError::IndexOutOfBounds(
                    index_message(index as nat),
                )
                &&& final(self)@ == old(self)@
            },
    {
        let deleted = Err(ValueError::NotFound(String::from_str("Value was deleted")));
        if global {
            store_slot(&mut self.memory.global, index, deleted)
        } else {
            store_slot(&mut self.memory.local, index, deleted)
        }
    }

    fn read_local_cell(&self, index: i64) -> (r: Result<Value, ValueError>)
        ensures
            slot_view(r) == self@.read_local(index),
    {
        if index as usize >= self.memory.local.len() {
            let mut m = String::new();
            push_str(&mut m, "Local index ");
            push_signed_decimal(&mut m, index);
            push_str(&mut m, " is out of bounds");
            return Err(ValueError::IndexOutOfBounds(m));
        }
        duplicate_slot(&self.memory.local[index as usize])
    }

    fn get_local_value(&self, t: GetType, values: &Vec<i64>) -> (r: Result<Value, ValueError>)
        requires
            !self@.get_value_aborts(t, values@),
        ensures
            slot_view(r) == self@.get_local(t, values@),
    {
        let x = values[0];
        match t {
            GetType::L => self.read_local_cell(x >> 5),
            GetType::E => {
                if x == self.get.strings as i64 {
                    let start = values[2] as usize;
                    let end = (values[1] + values[2]) as usize;
                    if end > self.chars.len() {
                        return Err(
                            ValueError::IndexOutOfBounds(
                                String::from_str("String index out of bounds"),
                            ),
                        );
                    }
                    let mut string = String::new();
                    let mut i: usize = start;
                    while i < end
                        invariant
                            start <= i <= end <= self.chars@.len(),
                            string@ == self.chars@.subrange(start as int, i as int),
                        decreases end - i,
                    {
                        string.push(self.chars[i]);
                        i += 1;
                        assert(string@ =~= self.chars@.subrange(start as int, i as int));
                    }
                    Ok(Value::String(string))
                } else if x & 1 == 1 {
                    Ok(Value::Literal(x >> 1))
                } else {
                    self.read_local_cell(x >> 5)
                }
            },
            GetType::I => Ok(Value::Literal(x >> 5)),
            _ => Err(ValueError::InvalidType(String::from_str("Unknown GetType"))),
        }
    }

    /// Reads an operand. `values` holds the operand's entries from the byte stream; what
    /// they mean depends on `t` (see `spec_get_value`).
    pub fn get_value(&self, t: GetType, values: Vec<i64>, global: bool) -> (r: Result<
        Value,
        ValueError,
    >)
        requires
            !self@.get_value_aborts(t, values@),
        ensures
            slot_view(r) == self@.get_value(t, values@, global),
    {
        let local = self.get_local_value(t, &values);
        if global {
            let value = match local {
                Ok(v) => v,
                Err(e) => return Err(e),
            };
            let index = match value.as_literal() {
                Ok(n) => n as usize,
                Err(e) => return Err(e),
            };
            if index >= self.memory.global.len() {
                let mut m = String::new();
                push_str(&mut m, "Global index ");
                push_decimal(&mut m, index as u64);
                push_str(&mut m, " is out of bounds");
                return Err(ValueError::IndexOutOfBounds(m));
            }
            return duplicate_slot(&self.memory.global[index]);
        }
        local
    }
}

/// Stores `v` in cell `index`, or reports that the index is past the end.
fn store_slot(
    memory: &mut Vec<Result<Value, ValueError>>,
    index: usize,
    v: Result<Value, ValueError>,
) -> (r: Result<(), ValueError>)
    ensures
        index < old(memory)@.len() ==> r is Ok && slots_view(final(memory)@) == slots_view(
            old(memory)@,
        ).update(index as int, slot_view(v)),
        index >= old(memory)@.len() ==> (r matches Err(e) && e@ == SpecError::IndexOutOfBounds(
            index_message(index as nat),
        )) && final(memory)@ == old(memory)@,
{
    if index >= memory.len() {
        let mut m = String::new();
        push_str(&mut m, "Index ");
        push_decimal(&mut m, index as u64);
        push_str(&mut m, " is out of bounds");
        return Err(ValueError::IndexOutOfBounds(m));
    }
    let ghost sv = slot_view(v);
    memory.set(index, v);
    proof {
        assert(slots_view(memory@) =~= slots_view(old(memory)@).update(index as int, sv));
    }
    Ok(())
}

/// A value stored in a local cell is what a local read of that cell gives back: any
/// operand `x` with `x >> 5` equal to the cell's index reads it.
pub proof fn set_then_read_local(h: HandlerView, v: SpecValue, index: int, x: i64)
    requires
        h.local.len() <= usize::MAX,
        0 <= index < h.local.len(),
        local_cell(x) == index,
    ensures
        h.set_value(v, index, false).1 is Ok,
        h.set_value(v, index, false).0.get_value(GetType::L, seq![x], false) == Ok::<SpecValue, SpecError>(v),
{
}

/// A value stored in a global cell is what a global read of that cell gives back: a
/// global read whose operand reads locally as the cell's index.
pub proof fn set_then_read_global(h: HandlerView, v: SpecValue, n: i64, t: GetType, values: Seq<i64>)
    requires
        h.global.len() <= usize::MAX,
        0 <= n < h.global.len(),
        values.len() > 0,
        h.get_local(t, values) == Ok::<SpecValue, SpecError>(SpecValue::Literal(n)),
    ensures
        h.set_value(v, n as int, true).1 is Ok,
        h.set_value(v, n as int, true).0.get_value(t, values, true) == Ok::<SpecValue, SpecError>(v),
{
    let h2 = h.set_value(v, n as int, true).0;
    assert(h2.local == h.local);
    assert(h2.chars == h.chars && h2.strings == h.strings);
    assert(h2.get_local(t, values) == h.get_local(t, values));
}

/// What `set_value` stores in a cell is what `get_value` then reads from it, through
/// the operand that designates the cell: `index << 5`, read as `L` from local memory or
/// as `I` from global memory. Indices up to `2^58` keep the operand within `i64`.
pub proof fn set_then_get(h: HandlerView, v: SpecValue, index: usize, global: bool)
    requires
        h.local.len() <= usize::MAX,
        h.global.len() <= usize::MAX,
        index < h.memory(global).len(),
        index < 0x400_0000_0000_0000,
    ensures
        h.set_value(v, index as int, global).1 == Ok::<(), SpecError>(()),
        h.set_value(v, index as int, global).0.get_value(
            if global { GetType::I } else { GetType::L },
            seq![(index as i64) << 5],
            global,
        ) == Ok::<SpecValue, SpecError>(v),
{
    let x: i64 = index as i64;
    assert((x << 5) >> 5 == x) by (bit_vector)
        requires
            0 <= x < 0x400_0000_0000_0000i64,
    ;
    let h2 = h.set_value(v, index as int, global).0;
    if global {
        assert(h2.local == h.local);
        assert(h2.get_local(GetType::I, seq![x << 5]) == Ok::<SpecValue, SpecError>(SpecValue::Literal(x)));
    }
}

/// Storing a value in one cell leaves every other cell, and the other memory, as it was.
pub proof fn set_leaves_other_cells(h: HandlerView, v: SpecValue, index: int, global: bool, other: int)
    requires
        0 <= other < h.memory(global).len(),
        other != index,
    ensures
        h.set_value(v, index, global).0.memory(global)[other] == h.memory(global)[other],
        h.set_value(v, index, global).0.memory(!global) == h.memory(!global),
{
}

/// A deleted local cell reads as a `NotFound` error.
pub proof fn delete_then_read_local(h: HandlerView, index: int, x: i64)
    requires
        h.local.len() <= usize::MAX,
        0 <= index < h.local.len(),
        local_cell(x) == index,
    ensures
        h.with_memory(false, h.local.update(index, Err(SpecError::NotFound("Value was deleted"@)))).get_value(
            GetType::L,
            seq![x],
            false,
        ) == Err::<SpecValue, SpecError>(SpecError::NotFound("Value was deleted"@)),
{
}

/// Every cell of a new handler reads as a `NotFound` error.
pub proof fn new_cells_uninitialized(i: int)
    requires
        0 <= i < 100,
    ensures
        uninitialized(100, "Uninitialized local value"@)[i] == Err::<SpecValue, SpecError>(
            SpecError::NotFound("Uninitialized local value"@),
        ),
{
}

fn push_signed_decimal(s: &mut String, n: i64)
    ensures
        final(s)@ == old(s)@ + signed_decimal(n as int),
{
    if n < 0 {
        s.push('-');
        let magnitude: u64 = (0i128 - n as i128) as u64;
        push_decimal(s, magnitude);
        proof {
            assert(final(s)@ =~= old(s)@ + signed_decimal(n as int));
        }
    } else {
        push_decimal(s, n as u64);
    }
}

} // verus!
