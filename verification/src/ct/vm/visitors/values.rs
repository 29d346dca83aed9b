//! The constants that the value visitor gathers from the script: the encoded
//! instructions, the charset they are written in, and the operand tag of strings.
use vstd::prelude::*;
use vstd::utf8::encode_utf8;

verus! {

/// Operand tags learned from the script. `strings` is the first operand of the
/// instructions that read a string out of the decoded text.
#[derive(Debug, Default, Clone, Copy)]
pub struct GetValues {
    pub strings: u8,
}

#[derive(Debug, Default)]
pub struct Values {
    pub instructions: String,
    pub charset: String,
    pub get: GetValues,
}

/// Gathers the constants of the script while it is walked.
#[derive(Default)]
pub struct ValuesVisitor {
    pub values: Values,
    pub current_index: usize,
}

/// The shape of the test of an `if` statement, as far as it matters here.
#[derive(Debug, Clone, Copy, PartialEq, Eq, Structural)]
pub enum IfTestShape {
    /// `x === y[k]` with a numeric literal `k`, taken as an index.
    StrictEqualsIndexed { index: usize },
    /// `x && a.y`.
    AndMemberOfA,
    Other,
}

impl ValuesVisitor {

    /// An array of numbers of six elements (`numbers` holds its numeric elements, as
    /// bytes): while the operand tag of strings is below 10, it moves to the number at
    /// its own position.
    pub fn record_array(&mut self, element_count: usize, numbers: &Vec<u8>)
        requires
            element_count == 6 && old(self).values.get.strings < 10 ==> (old(self).values.get.strings as int)
                < numbers@.len(),
        ensures
            final(self).values.get.strings == if element_count == 6 && old(self).values.get.strings < 10 {
                numbers@[old(self).values.get.strings as int]
            } else {
                old(self).values.get.strings
            },
            final(self).values.instructions == old(self).values.instructions,
            final(self).values.charset == old(self).values.charset,
            final(self).current_index == old(self).current_index,
    {
        if element_count == 6 {
            if self.values.get.strings < 10 {
                self.values.get.strings = numbers[self.values.get.strings as usize];
            }
        }
    }

    /// A string literal: one longer than 1000 bytes is the instructions, one between 61
    /// and 69 bytes long the charset.
    pub fn record_string_literal(&mut self, string: String)
        ensures
            string_class(encode_utf8(string@).len()) == 1 ==> final(self).values.instructions@ == string@
                && final(self).values.charset == old(self).values.charset,
            string_class(encode_utf8(string@).len()) == 2 ==> final(self).values.charset@ == string@
                && final(self).values.instructions == old(self).values.instructions,
            string_class(encode_utf8(string@).len()) == 0 ==> final(self).values.charset
                == old(self).values.charset && final(self).values.instructions
                == old(self).values.instructions,
            final(self).values.get == old(self).values.get,
            final(self).current_index == old(self).current_index,
    {
        let len = string.as_str().as_bytes().len();
        if len > 1000 {
            self.values.instructions = string;
        } else if 60 < len && len < 70 {
            self.values.charset = string;
        }
    }

    /// The test of an `if` statement: `x === y[k]` makes `k` the current index; `x && a.y`
    /// then makes the current index, as a byte, the operand tag of strings.
    pub fn record_if_test(&mut self, test: IfTestShape)
        ensures
            final(self).current_index == match test {
                IfTestShape::StrictEqualsIndexed { index } => index,
                _ => old(self).current_index,
            },
            final(self).values.get.strings == match test {
                IfTestShape::AndMemberOfA => old(self).current_index as u8,
                _ => old(self).values.get.strings,
            },
            final(self).values.instructions == old(self).values.instructions,
            final(self).values.charset == old(self).values.charset,
    {
        match test {
            IfTestShape::StrictEqualsIndexed { index } => {
                self.current_index = index;
            },
            IfTestShape::AndMemberOfA => {
                self.values.get.strings = self.current_index as u8;
            },
            IfTestShape::Other => {},
        }
    }
}

/// Which constant a string literal of `len` bytes is: 1 for the instructions (over 1000
/// bytes), 2 for the charset (61 to 69 bytes), 0 for neither.
pub open spec fn string_class(len: nat) -> int {
    if len > 1000 {
        1
    } else if 60 < len < 70 {
        2
    } else {
        0
    }
}

} // verus!
