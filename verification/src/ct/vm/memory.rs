//! A simpler memory model of the machine: cells that hold a literal or a list of
//! literals, addressed by operands that are either literals or cell indices.
use vstd::prelude::*;

use crate::ct::vm::utils::{Value, ValueType};

verus! {

#[derive(Debug, Clone, Copy, PartialEq, Eq, Structural)]
pub enum MemoryType {
    LIST,
    LITERAL,
    UNKNOWN,
}

#[derive(Debug, Clone, PartialEq)]
pub struct MemoryValue {
    pub value: Vec<i64>,
    pub value_type: MemoryType,
}

#[derive(Debug, Clone, PartialEq)]
pub struct Memory {
    pub memory: Vec<MemoryValue>,
    pub global: Vec<MemoryValue>,
}

/// A cell that holds nothing yet: the single entry `i64::MIN`, of unknown type.
pub open spec fn is_blank(c: MemoryValue) -> bool {
    c.value@ == seq![i64::MIN] && c.value_type == MemoryType::UNKNOWN
}

fn blank_cells(n: usize) -> (r: Vec<MemoryValue>)
    ensures
        r@.len() == n,
        forall|i: int| 0 <= i < n ==> is_blank(#[trigger] r@[i]),
{
    let mut r: Vec<MemoryValue> = Vec::new();
    let mut i: usize = 0;
    while i < n
        invariant
            i <= n,
            r@.len() == i,
            forall|j: int| 0 <= j < i ==> is_blank(#[trigger] r@[j]),
        decreases n - i,
    {
        let mut value: Vec<i64> = Vec::new();
        value.push(i64::MIN);
        r.push(MemoryValue { value, value_type: MemoryType::UNKNOWN });
        i += 1;
    }
    r
}

/// Whether `cells[j]` is the first cell whose first entry is `x`, given that all cells
/// before it have a first entry.
pub open spec fn no_match_before(cells: Seq<MemoryValue>, x: i64, j: int) -> bool {
    forall|i: int| 0 <= i < j ==> (#[trigger] cells[i]).value@[0] != x
}

impl Memory {
    pub open spec fn cells(&self, global: bool) -> Seq<MemoryValue> {
        if global {
            self.global@
        } else {
            self.memory@
        }
    }

    /// 100 local and 10000 global cells, all blank.
    pub fn new() -> (r: Memory)
        ensures
            r.memory@.len() == 100,
            r.global@.len() == 10000,
            forall|i: int| 0 <= i < 100 ==> is_blank(#[trigger] r.memory@[i]),
            forall|i: int| 0 <= i < 10000 ==> is_blank(#[trigger] r.global@[i]),
    {
        Memory { memory: blank_cells(100), global: blank_cells(10000) }
    }

    /// Whether some local cell has `x` as its first entry. Every local cell up to the
    /// first such one must have an entry.
    pub fn contains(&self, x: i64) -> (r: bool)
        requires
            forall|j: int|
                0 <= j < self.memory@.len() && no_match_before(self.memory@, x, j) ==> (
                #[trigger] self.memory@[j]).value@.len() > 0,
        ensures
            r == exists|i: int|
                0 <= i < self.memory@.len() && (#[trigger] self.memory@[i]).value@.len() > 0
                    && self.memory@[i].value@[0] == x,
    {
        let mut i: usize = 0;
        while i < self.memory.len()
            invariant
                i <= self.memory@.len(),
                no_match_before(self.memory@, x, i as int),
                forall|j: int|
                    0 <= j < self.memory@.len() && no_match_before(self.memory@, x, j) ==> (
                    #[trigger] self.memory@[j]).value@.len() > 0,
                forall|j: int| 0 <= j < i ==> (#[trigger] self.memory@[j]).value@.len() > 0,
            decreases self.memory@.len() - i,
        {
            assert(self.memory@[i as int].value@.len() > 0);
            if self.memory[i].value[0] == x {
                return true;
            }
            i += 1;
        }
        false
    }

    /// Stores the list `list` in cell `index` of the chosen memory.
    pub fn set_list(&mut self, list: Vec<i64>, index: usize, global: bool)
        requires
            index < old(self).cells(global).len(),
        ensures
            stores(*old(self), *final(self), index as int, global, list@, MemoryType::LIST),
    {
        let cell = MemoryValue { value: copy_list(&list), value_type: MemoryType::LIST };
        if global {
            self.global.set(index, cell);
        } else {
            self.memory.set(index, cell);
        }
    }

    /// Stores the literal `x` in cell `index` of the chosen memory.
    pub fn set_value(&mut self, x: i64, index: usize, global: bool)
        requires
            index < old(self).cells(global).len(),
        ensures
            stores(*old(self), *final(self), index as int, global, seq![x], MemoryType::LITERAL),
    {
        let mut value: Vec<i64> = Vec::new();
        value.push(x);
        let cell = MemoryValue { value, value_type: MemoryType::LITERAL };
        if global {
            self.global.set(index, cell);
        } else {
            self.memory.set(index, cell);
        }
    }

    /// Resolves an operand. An index operand yields the literals of the list in that
    /// cell, or its single literal, or one unknown value where the cell is blank. Any
    /// other operand yields itself.
    pub fn get_value(&self, x: Value, global: bool) -> (r: Vec<Value>)
        requires
            x.value_type == ValueType::INDEX ==> (x.value as usize) < self.cells(global).len(),
            x.value_type == ValueType::INDEX && self.cells(global)[(x.value as usize) as int].value_type
                != MemoryType::LIST ==> self.cells(global)[(x.value as usize) as int].value@.len() > 0,
        ensures
            r@ == self.spec_get_value(x, global),
    {
        let memory = if global {
            &self.global
        } else {
            &self.memory
        };
        match x.value_type {
            ValueType::INDEX => {
                let element = &memory[x.value as usize];
                if element.value_type == MemoryType::LIST {
                    let mut result: Vec<Value> = Vec::new();
                    let mut i: usize = 0;
                    while i < element.value.len()
                        invariant
                            i <= element.value@.len(),
                            result@ == element.value@.subrange(0, i as int).map_values(
                                |v: i64| Value { value: v, value_type: ValueType::LITERAL },
                            ),
                        decreases element.value@.len() - i,
                    {
                        result.push(Value { value: element.value[i], value_type: ValueType::LITERAL });
                        i += 1;
                        assert(result@ =~= element.value@.subrange(0, i as int).map_values(
                            |v: i64| Value { value: v, value_type: ValueType::LITERAL },
                        ));
                    }
                    assert(element.value@.subrange(0, element.value@.len() as int) =~= element.value@);
                    return result;
                }
                let value = element.value[0];
                let mut result: Vec<Value> = Vec::new();
                if value == i64::MIN {
                    result.push(Value { value: 0, value_type: ValueType::UNKNOWN });
                } else {
                    result.push(Value { value, value_type: ValueType::LITERAL });
                }
                assert(result@ =~= self.spec_get_value(x, global));
                result
            },
            _ => {
                let mut result: Vec<Value> = Vec::new();
                result.push(x);
                assert(result@ =~= self.spec_get_value(x, global));
                result
            },
        }
    }

    /// What `get_value` yields.
    pub open spec fn spec_get_value(&self, x: Value, global: bool) -> Seq<Value> {
        if x.value_type == ValueType::INDEX {
            let c = self.cells(global)[(x.value as usize) as int];
            if c.value_type == MemoryType::LIST {
                c.value@.map_values(|v: i64| Value { value: v, value_type: ValueType::LITERAL })
            } else if c.value@[0] == i64::MIN {
                seq![Value { value: 0, value_type: ValueType::UNKNOWN }]
            } else {
                seq![Value { value: c.value@[0], value_type: ValueType::LITERAL }]
            }
        } else {
            seq![x]
        }
    }
}

/// `after` is `before` with cell `index` of the chosen memory holding `value` of type `t`,
/// and nothing else changed.
pub open spec fn stores(
    before: Memory,
    after: Memory,
    index: int,
    global: bool,
    value: Seq<i64>,
    t: MemoryType,
) -> bool {
    &&& after.cells(!global) == before.cells(!global)
    &&& after.cells(global).len() == before.cells(global).len()
    &&& after.cells(global)[index].value@ == value
    &&& after.cells(global)[index].value_type == t
    &&& forall|j: int|
        0 <= j < before.cells(global).len() && j != index ==> #[trigger] after.cells(global)[j]
            == before.cells(global)[j]
}

/// A literal stored in a cell is what resolving that cell's index gives back, as a
/// literal; except `i64::MIN`, which marks a blank cell and reads as unknown.
pub proof fn stored_literal_reads_back(before: Memory, after: Memory, x: i64, index: i64, global: bool)
    requires
        0 <= index,
        (index as usize) as int == index,
        index < before.cells(global).len(),
        stores(before, after, index as int, global, seq![x], MemoryType::LITERAL),
    ensures
        after.spec_get_value(Value { value: index, value_type: ValueType::INDEX }, global) == if x
            == i64::MIN {
            seq![Value { value: 0, value_type: ValueType::UNKNOWN }]
        } else {
            seq![Value { value: x, value_type: ValueType::LITERAL }]
        },
{
}

/// A list stored in a cell is what resolving that cell's index gives back, entry by
/// entry, as literals.
pub proof fn stored_list_reads_back(before: Memory, after: Memory, list: Seq<i64>, index: i64, global: bool)
    requires
        0 <= index,
        (index as usize) as int == index,
        index < before.cells(global).len(),
        stores(before, after, index as int, global, list, MemoryType::LIST),
    ensures
        after.spec_get_value(Value { value: index, value_type: ValueType::INDEX }, global).len() == list.len(),
        forall|i: int|
            0 <= i < list.len() ==> #[trigger] after.spec_get_value(
                Value { value: index, value_type: ValueType::INDEX },
                global,
            )[i] == (Value { value: list[i], value_type: ValueType::LITERAL }),
{
}

/// A blank cell resolves to one unknown value.
pub proof fn blank_reads_unknown(m: Memory, index: i64, global: bool)
    requires
        0 <= index,
        (index as usize) as int == index,
        index < m.cells(global).len(),
        is_blank(m.cells(global)[index as int]),
    ensures
        m.spec_get_value(Value { value: index, value_type: ValueType::INDEX }, global)
            == seq![Value { value: 0, value_type: ValueType::UNKNOWN }],
{
}

/// Resolving an operand that is not an index gives the operand back.
pub proof fn non_index_reads_itself(m: Memory, x: Value, global: bool)
    requires
        x.value_type != ValueType::INDEX,
    ensures
        m.spec_get_value(x, global) == seq![x],
{
}

fn copy_list(v: &Vec<i64>) -> (r: Vec<i64>)
    ensures
        r@ == v@,
{
    vstd::slice::slice_to_vec(v.as_slice())
}

} // verus!
