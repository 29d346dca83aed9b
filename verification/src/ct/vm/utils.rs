//! Decoding the instruction stream: from the text of the instructions, through the
//! charset, to numbers; and splitting the embedded string out of those numbers.
use vstd::prelude::*;
use vstd::utf8::encode_utf8;

use unicode_segmentation::UnicodeSegmentation;

verus! {

/// How a `Value` of `Memory` is to be read.
#[derive(Debug, Clone, Copy, PartialEq, Eq, Structural)]
pub enum ValueType {
    INDEX,
    LITERAL,
    UNKNOWN,
}

/// An operand of `Memory`: a literal, or the index of a memory cell.
#[derive(Debug, Clone, Copy, PartialEq, Eq, Structural)]
pub struct Value {
    pub value: i64,
    pub value_type: ValueType,
}

/// The extended grapheme clusters that `unicode_segmentation` splits a string into.
pub uninterp spec fn extended_graphemes(s: Seq<char>) -> Seq<Seq<char>>;

/// `UnicodeSegmentation::graphemes(s, true)`, collected: the extended grapheme clusters
/// of `s`, in order. Each cluster is a non-empty piece of `s` (the iterator yields the
/// text between two successive boundaries, and stops when they meet).
#[verifier::external_body]
fn graphemes(s: &str) -> (r: Vec<&str>)
    ensures
        r@.map_values(|g: &str| g@) == extended_graphemes(s@),
        forall|i: int| 0 <= i < r@.len() ==> (#[trigger] r@[i])@.len() > 0,
{
    s.graphemes(true).collect()
}

/// The first UTF-8 byte of each cluster.
pub open spec fn leading_bytes(gs: Seq<Seq<char>>) -> Seq<u8> {
    gs.map_values(|g: Seq<char>| encode_utf8(g)[0])
}

proof fn lemma_encode_nonempty(g: Seq<char>)
    requires
        g.len() > 0,
    ensures
        encode_utf8(g).len() > 0,
{
    assert(vstd::utf8::encode_scalar(g[0] as u32).len() > 0);
}

/// The first byte of each grapheme cluster of `s`.
fn grapheme_leading_bytes(s: &str) -> (r: Vec<u8>)
    ensures
        r@ == leading_bytes(extended_graphemes(s@)),
{
    let gs = graphemes(s);
    let ghost gv = gs@.map_values(|g: &str| g@);
    let mut r: Vec<u8> = Vec::new();
    let mut i: usize = 0;
    while i < gs.len()
        invariant
            i <= gs@.len(),
            gv == gs@.map_values(|g: &str| g@),
            forall|j: int| 0 <= j < gs@.len() ==> (#[trigger] gs@[j])@.len() > 0,
            r@ == leading_bytes(gv.subrange(0, i as int)),
        decreases gs@.len() - i,
    {
        let g: &str = gs[i];
        proof {
            lemma_encode_nonempty(g@);
        }
        let b = g.as_bytes()[0];
        r.push(b);
        i += 1;
        assert(r@ =~= leading_bytes(gv.subrange(0, i as int)));
    }
    assert(gv.subrange(0, gs@.len() as int) =~= gv);
    r
}

/// The position of byte `c` in the charset whose clusters lead with `lead`: the last
/// cluster that starts with `c`, or 62 when none does.
pub open spec fn charset_position(lead: Seq<u8>, c: int, n: int) -> int
    decreases n,
{
    if n <= 0 {
        62
    } else if lead[n - 1] as int == c {
        n - 1
    } else {
        charset_position(lead, c, n - 1)
    }
}

/// The digit that each cluster of the instructions stands for.
pub open spec fn instruction_digits(instr_lead: Seq<u8>, charset_lead: Seq<u8>) -> Seq<int> {
    instr_lead.map_values(
        |b: u8| (charset_position(charset_lead, b as int, charset_lead.len() as int) as i64) as int,
    )
}

/// `x % 50` as Rust computes it: the remainder has the sign of `x`.
pub open spec fn rem50(x: int) -> int {
    if x >= 0 {
        x % 50
    } else {
        -((-x) % 50)
    }
}

/// The number that starts at position `p` of the digits, continuing an accumulation
/// `h` with weight `l`: a digit below 50 ends the number; a larger one contributes its
/// value modulo 50 plus 50, and the next digit weighs 12 times more. The result is the
/// number and the position after it, or none when the digits run out first.
pub open spec fn number_at(xs: Seq<int>, p: int, h: int, l: int) -> Option<(int, int)>
    decreases xs.len() - p,
{
    if p < 0 || p >= xs.len() {
        None
    } else {
        let h2 = h + l * (rem50(xs[p]));
        if xs[p] < 50 {
            Some((h2, p + 1))
        } else {
            number_at(xs, p + 1, h2 + 50 * l, l * 12)
        }
    }
}

pub open spec fn fits_i64(v: int) -> bool {
    i64::MIN <= v <= i64::MAX
}

/// Whether reading the number at `p` leaves the range of `i64` at some step.
pub open spec fn number_overflows(xs: Seq<int>, p: int, h: int, l: int) -> bool
    decreases xs.len() - p,
{
    if p < 0 || p >= xs.len() {
        false
    } else {
        let h2 = h + l * (rem50(xs[p]));
        ||| !fits_i64(l * (rem50(xs[p])))
        ||| !fits_i64(h2)
        ||| xs[p] >= 50 && {
            ||| !fits_i64(50 * l)
            ||| !fits_i64(h2 + 50 * l)
            ||| !fits_i64(l * 12)
            ||| number_overflows(xs, p + 1, h2 + 50 * l, l * 12)
        }
    }
}

/// The numbers that the digits from `p` on spell, or none when the last number is cut
/// short or some step leaves the range of `i64`.
pub open spec fn numbers_from(xs: Seq<int>, p: int) -> Option<Seq<int>>
    decreases xs.len() - p,
{
    if p < 0 || p >= xs.len() {
        Some(Seq::empty())
    } else if number_overflows(xs, p, 0, 1) {
        None
    } else {
        match number_at(xs, p, 0, 1) {
            None => None,
            Some((v, q)) => {
                proof {
                    lemma_number_at_advances(xs, p, 0, 1);
                }
                if q <= p {
                    None
                } else {
                    match numbers_from(xs, q) {
                        Some(rest) => Some(seq![v] + rest),
                        None => None,
                    }
                }
            },
        }
    }
}

pub proof fn lemma_number_at_advances(xs: Seq<int>, p: int, h: int, l: int)
    ensures
        number_at(xs, p, h, l) matches Some((v, q)) ==> p < q <= xs.len(),
    decreases xs.len() - p,
{
    if 0 <= p < xs.len() && xs[p] >= 50 {
        lemma_number_at_advances(xs, p + 1, h + l * (rem50(xs[p])) + 50 * l, l * 12);
    }
}

/// The numbers that the instructions, read through the charset, spell (see
/// `numbers_from`); none when reading them would abort.
pub open spec fn vm_numbers(instructions: Seq<char>, charset: Seq<char>) -> Option<Seq<int>> {
    numbers_from(
        instruction_digits(
            leading_bytes(extended_graphemes(instructions)),
            leading_bytes(extended_graphemes(charset)),
        ),
        0,
    )
}

/// The table from byte to position in the charset (see `charset_position`).
fn charset_table(lead: &Vec<u8>) -> (t: Vec<usize>)
    ensures
        t@.len() == 256,
        forall|c: int| 0 <= c < 256 ==> #[trigger] t@[c] as int == charset_position(lead@, c, lead@.len() as int),
{
    let mut t: Vec<usize> = Vec::new();
    let mut c: usize = 0;
    while c < 256
        invariant
            c <= 256,
            t@.len() == c,
            forall|d: int| 0 <= d < c ==> #[trigger] t@[d] == 62,
        decreases 256 - c,
    {
        t.push(62);
        c += 1;
    }
    let mut i: usize = 0;
    while i < lead.len()
        invariant
            i <= lead@.len(),
            t@.len() == 256,
            forall|c: int| 0 <= c < 256 ==> #[trigger] t@[c] as int == charset_position(lead@, c, i as int),
        decreases lead@.len() - i,
    {
        t.set(lead[i] as usize, i);
        i += 1;
    }
    t
}

/// Reads the number at `p0` (see `number_at`), or none where that aborts.
fn read_number(xs: &Vec<i64>, p0: usize) -> (r: Option<(i64, usize)>)
    requires
        p0 < xs@.len(),
    ensures
        ({
            let ds = xs@.map_values(|x: i64| x as int);
            match r {
                Some((v, q)) => !number_overflows(ds, p0 as int, 0, 1) && number_at(ds, p0 as int, 0, 1)
                    == Some((v as int, q as int)),
                None => number_overflows(ds, p0 as int, 0, 1) || number_at(ds, p0 as int, 0, 1) is None,
            }
        }),
{
    let ghost ds = xs@.map_values(|x: i64| x as int);
    let n = xs.len();
    let mut p = p0;
    let mut h: i64 = 0;
    let mut l: i64 = 1;
    loop
        invariant
            n == xs@.len(),
            p0 <= p < xs@.len(),
            ds == xs@.map_values(|x: i64| x as int),
                number_at(ds, p0 as int, 0, 1) == number_at(ds, p as int, h as int, l as int),
            number_overflows(ds, p0 as int, 0, 1) == number_overflows(ds, p as int, h as int, l as int),
        decreases xs@.len() - p,
    {
        let x = xs[p];
        assert(ds[p as int] == x as int);
        let m = x % 50;
        let step = match l.checked_mul(m) {
            Some(v) => v,
            None => return None,
        };
        h = match h.checked_add(step) {
            Some(v) => v,
            None => return None,
        };
        if x < 50 {
            return Some((h, p + 1));
        }
        let carry = match l.checked_mul(50) {
            Some(v) => v,
            None => return None,
        };
        h = match h.checked_add(carry) {
            Some(v) => v,
            None => return None,
        };
        l = match l.checked_mul(12) {
            Some(v) => v,
            None => return None,
        };
        p += 1;
        if p >= xs.len() {
            return None;
        }
    }
}

/// Reads the numbers that `xs` spells (see `numbers_from`), or none where that aborts.
fn read_numbers(xs: &Vec<i64>) -> (r: Option<Vec<i64>>)
    ensures
        match r {
            Some(v) => numbers_from(xs@.map_values(|x: i64| x as int), 0) == Some(
                v@.map_values(|x: i64| x as int),
            ),
            None => numbers_from(xs@.map_values(|x: i64| x as int), 0) is None,
        },
{
    let ghost ds = xs@.map_values(|x: i64| x as int);
    let mut result: Vec<i64> = Vec::new();
    let mut p: usize = 0;
    while p < xs.len()
        invariant
            p <= xs@.len(),
            ds == xs@.map_values(|x: i64| x as int),
                numbers_from(ds, 0) == match numbers_from(ds, p as int) {
                Some(rest) => Some(result@.map_values(|x: i64| x as int) + rest),
                None => None,
            },
        decreases xs@.len() - p,
    {
        match read_number(xs, p) {
            None => return None,
            Some((v, q)) => {
                proof {
                    lemma_number_at_advances(ds, p as int, 0, 1);
                    let old_r = result@.map_values(|x: i64| x as int);
                    match numbers_from(ds, q as int) {
                        Some(rest) => {
                            assert(old_r + (seq![v as int] + rest) =~= old_r.push(v as int) + rest);
                        },
                        None => {},
                    }
                }
                let ghost old_result = result@;
                result.push(v);
                proof {
                    assert(result@.map_values(|x: i64| x as int) =~= old_result.map_values(|x: i64| x as int).push(v as int));
                }
                p = q;
            },
        }
    }
    proof {
        assert(result@.map_values(|x: i64| x as int) + Seq::<int>::empty() =~= result@.map_values(|x: i64| x as int));
    }
    Some(result)
}

/// The digits that the instructions stand for, read through the charset.
fn digits_of(instructions: &str, charset: &str) -> (xs: Vec<i64>)
    ensures
        xs@.map_values(|x: i64| x as int) == instruction_digits(
            leading_bytes(extended_graphemes(instructions@)),
            leading_bytes(extended_graphemes(charset@)),
        ),
{
    let charset_lead = grapheme_leading_bytes(charset);
    let table = charset_table(&charset_lead);
    let lead = grapheme_leading_bytes(instructions);
    let ghost cl = charset_lead@;
    let mut xs: Vec<i64> = Vec::new();
    let mut i: usize = 0;
    while i < lead.len()
        invariant
            i <= lead@.len(),
            cl == charset_lead@,
            table@.len() == 256,
            forall|c: int| 0 <= c < 256 ==> #[trigger] table@[c] as int == charset_position(cl, c, cl.len() as int),
            xs@.len() == i,
            xs@.map_values(|x: i64| x as int) == instruction_digits(lead@.subrange(0, i as int), cl),
        decreases lead@.len() - i,
    {
        let b = lead[i];
        let x = table[b as usize] as i64;
        let ghost old_xs = xs@;
        xs.push(x);
        i += 1;
        proof {
            assert(table@[b as int] as int == charset_position(cl, b as int, cl.len() as int));
            assert(x as int == (charset_position(cl, b as int, cl.len() as int) as i64) as int);
            assert(lead@.subrange(0, i as int) =~= lead@.subrange(0, i - 1).push(b));
            assert(xs@ == old_xs.push(x));
            assert(old_xs.len() == i - 1);
            let mv = xs@.map_values(|x: i64| x as int);
            let dv = instruction_digits(lead@.subrange(0, i as int), cl);
            let old_mv = old_xs.map_values(|x: i64| x as int);
            let old_dv = instruction_digits(lead@.subrange(0, i - 1), cl);
            assert forall|j: int| 0 <= j < i implies #[trigger] mv[j] == dv[j] by {
                if j < i - 1 {
                    assert(xs@[j] == old_xs[j]);
                    assert(old_mv[j] == old_dv[j]);
                }
            }
            assert(xs@.map_values(|x: i64| x as int) =~= instruction_digits(lead@.subrange(0, i as int), cl));
        }
    }
    proof {
        assert(lead@.subrange(0, lead@.len() as int) =~= lead@);
    }
    xs
}

/// The numbers that the instructions spell: each cluster of the instructions stands for
/// its position in the charset (see `charset_position`), and those digits spell numbers
/// in base 12 (see `number_at`). Reading must not run out of digits mid-number nor leave
/// the range of `i64`; `try_get_vm_bytes` checks that first.
pub fn get_vm_bytes(instructions: &str, charset: &str) -> (r: Vec<i64>)
    requires
        vm_numbers(instructions@, charset@) is Some,
    ensures
        vm_numbers(instructions@, charset@) == Some(r@.map_values(|x: i64| x as int)),
{
    let xs = digits_of(instructions, charset);
    match read_numbers(&xs) {
        Some(r) => r,
        None => {
            assert(false);
            Vec::new()
        },
    }
}

/// `get_vm_bytes` where the instructions can be read; none where reading them would run
/// out of digits mid-number or leave the range of `i64`.
pub fn try_get_vm_bytes(instructions: &str, charset: &str) -> (r: Option<Vec<i64>>)
    ensures
        match r {
            Some(v) => vm_numbers(instructions@, charset@) == Some(v@.map_values(|x: i64| x as int)),
            None => vm_numbers(instructions@, charset@) is None,
        },
{
    let xs = digits_of(instructions, charset);
    if read_numbers(&xs).is_some() {
        Some(get_vm_bytes(instructions, charset))
    } else {
        None
    }
}

/// `char::from_u32`: the character with code `i`, or none when `i` is a surrogate or
/// lies past the last code point.
pub assume_specification[ char::from_u32 ](i: u32) -> (r: Option<char>)
    ensures
        r == (if is_char_code(i) {
            Some(i as char)
        } else {
            None
        }),
;

/// Whether `i` is the code of a character: below the surrogates, or between them and
/// the last code point.
pub open spec fn is_char_code(i: u32) -> bool {
    i < 0xD800 || 0xE000 <= i <= 0x10FFFF
}

/// The code that an encoded entry `k` stands for: the bits of `k` above the lowest six,
/// and the lowest six bits of `k * 59`.
pub open spec fn char_code(k: i64) -> u32 {
    ((k as u32) & 0xFFFFFFC0u32) | ((((k * 59) as i64) & 63i64) as u32)
}

/// The character that an encoded entry stands for; `\0` where its code is none.
pub open spec fn decoded_char(k: i64) -> char {
    if is_char_code(char_code(k)) {
        char_code(k) as char
    } else {
        '\0'
    }
}

/// The characters that the entries `ks` stand for.
pub open spec fn decoded_chars(ks: Seq<i64>) -> Seq<char> {
    ks.map_values(|k: i64| decoded_char(k))
}

/// Whether every entry of `ks` can be multiplied by 59 within `i64`.
pub open spec fn scalable(ks: Seq<i64>) -> bool {
    forall|j: int| 0 <= j < ks.len() ==> fits_i64(#[trigger] ks[j] * 59)
}

/// Reads a string encoded at `*index`: the entry after it holds the length, and the
/// entries after that the characters (see `decoded_char`). Leaves `*index` past the
/// string.
fn decode_string(encoded: &[i64], index: &mut usize) -> (r: String)
    requires
        *old(index) + 1 < encoded@.len(),
        *old(index) + 2 + (encoded@[*old(index) + 1] as usize) <= encoded@.len(),
        scalable(
            encoded@.subrange(
                *old(index) + 2,
                *old(index) + 2 + (encoded@[*old(index) + 1] as usize),
            ),
        ),
    ensures
        *final(index) == *old(index) + 2 + (encoded@[*old(index) + 1] as usize),
        r@ == decoded_chars(
            encoded@.subrange(*final(index) - (encoded@[*old(index) + 1] as usize), *final(index) as int),
        ),
{
    let ghost i0 = *index;
    let _n = encoded.len();
    *index += 1;
    let length = encoded[*index] as usize;
    *index += 1;
    let ghost ks = encoded@.subrange(i0 + 2, i0 + 2 + length);
    let mut result = String::new();
    let mut j: usize = 0;
    while j < length
        invariant
            j <= length,
            length == encoded@[i0 + 1] as usize,
            i0 + 2 + length <= encoded@.len(),
            *index == i0 + 2 + j,
            ks == encoded@.subrange(i0 + 2, i0 + 2 + length),
            scalable(ks),
            result@ == decoded_chars(ks.subrange(0, j as int)),
        decreases length - j,
    {
        let k = encoded[*index];
        assert(k == ks[j as int]);
        assert(fits_i64(ks[j as int] * 59));
        *index += 1;
        let char_code: u32 = (k as u32 & 0xFFFFFFC0) | ((k * 59) & 63) as u32;
        if let Some(c) = char::from_u32(char_code) {
            result.push(c);
        } else {
            result.push('\0');
        }
        j += 1;
        assert(result@ =~= decoded_chars(ks.subrange(0, j as int)));
    }
    assert(ks.subrange(0, length as int) =~= ks);
    result
}

/// The entry that encodes the character code `c`: the bits of `c` above the lowest six,
/// and the lowest six bits of `c` times 51.
pub open spec fn encoded_entry(c: u32) -> i64 {
    ((c & 0xFFFFFFC0u32) | ((((c & 63u32) * 51) as u32) & 63u32)) as i64
}

/// Decoding an entry keeps every bit of it above the lowest six, and takes the lowest
/// six bits of the entry times 59.
pub proof fn decoding_keeps_high_bits(k: i64)
    requires
        fits_i64(k * 59),
    ensures
        char_code(k) & 0xFFFFFFC0u32 == (k as u32) & 0xFFFFFFC0u32,
        char_code(k) & 63u32 == ((((k * 59) as i64) & 63i64) as u32),
{
    let m: i64 = (k * 59) as i64;
    let c = char_code(k);
    assert(c == ((k as u32) & 0xFFFFFFC0u32) | ((m & 63i64) as u32));
    assert((((k as u32) & 0xFFFFFFC0u32) | ((m & 63i64) as u32)) & 0xFFFFFFC0u32 == (k as u32)
        & 0xFFFFFFC0u32) by (bit_vector);
    assert((((k as u32) & 0xFFFFFFC0u32) | ((m & 63i64) as u32)) & 63u32 == ((m & 63i64) as u32))
        by (bit_vector);
}

/// Decoding undoes the encoding: the entry that encodes a character code decodes to that
/// code, and so to that character.
pub proof fn decoding_inverts_encoding(c: u32)
    ensures
        fits_i64(encoded_entry(c) * 59),
        char_code(encoded_entry(c)) == c,
        is_char_code(c) ==> decoded_char(encoded_entry(c)) == c as char,
{
    let k = encoded_entry(c);
    let lo: u32 = (((c & 63u32) * 51) as u32) & 63u32;
    assert(0 <= k < 0x1_0000_0000);
    let m: i64 = (k * 59) as i64;
    assert(k == ((c & 0xFFFFFFC0u32) | lo) as i64);
    assert(((((c & 0xFFFFFFC0u32) | lo) as i64) as u32) & 0xFFFFFFC0u32 | ((((((c & 0xFFFFFFC0u32) | lo) as i64) * 59) as i64 & 63i64) as u32) == c)
        by (bit_vector)
        requires
            lo == (((c & 63u32) * 51) as u32) & 63u32,
    ;
}

/// Entries that encode a text, given by its character codes, decode back to that text.
pub proof fn decoding_recovers_encoded_text(ks: Seq<i64>, codes: Seq<u32>)
    requires
        ks.len() == codes.len(),
        forall|i: int| 0 <= i < ks.len() ==> is_char_code(#[trigger] codes[i]),
        forall|i: int| 0 <= i < ks.len() ==> #[trigger] ks[i] == encoded_entry(codes[i]),
    ensures
        scalable(ks),
        decoded_chars(ks).len() == codes.len(),
        forall|i: int| 0 <= i < ks.len() ==> #[trigger] decoded_chars(ks)[i] == codes[i] as char,
{
    assert forall|i: int| 0 <= i < ks.len() implies fits_i64(#[trigger] ks[i] * 59)
        && decoded_chars(ks)[i] == codes[i] as char by {
        assert(is_char_code(codes[i]));
        decoding_inverts_encoding(codes[i]);
    }
}

/// Where the embedded string starts: the last entry, xored with the length plus 4.
pub open spec fn string_offset(v: Seq<i64>) -> int {
    (v[v.len() - 1] ^ ((v.len() + 4) as i64)) as usize as int
}

/// How many entries the embedded string takes: its length entry plus 2.
pub open spec fn string_entries(v: Seq<i64>) -> int {
    (v[string_offset(v) + 1] as usize) + 2
}

/// The inputs on which `decode_vm_bytes` can work: it is non-empty, its length plus 4
/// fits in an `i64`, the embedded string lies within it, and its characters can be
/// decoded without overflow.
pub open spec fn decodable(v: Seq<i64>) -> bool {
    &&& 1 <= v.len()
    &&& v.len() + 4 <= i64::MAX
    &&& string_offset(v) + 1 < v.len()
    &&& string_entries(v) <= usize::MAX
    &&& string_offset(v) + string_entries(v) <= v.len()
    &&& scalable(v.subrange(string_offset(v) + 2, string_offset(v) + string_entries(v)))
}

/// Splits the embedded string out of the numbers: returns the string (see
/// `decode_string`) and the numbers without the string's entries.
pub fn decode_vm_bytes(vm_bytes: Vec<i64>) -> (r: (String, Vec<i64>))
    requires
        decodable(vm_bytes@),
    ensures
        r.0@ == decoded_chars(
            vm_bytes@.subrange(
                string_offset(vm_bytes@) + 2,
                string_offset(vm_bytes@) + string_entries(vm_bytes@),
            ),
        ),
        r.1@ == vm_bytes@.subrange(0, string_offset(vm_bytes@)) + vm_bytes@.subrange(
            string_offset(vm_bytes@) + string_entries(vm_bytes@),
            vm_bytes@.len() as int,
        ),
{
    let ghost v = vm_bytes@;
    let len = vm_bytes.len() as i64;
    let offset = (vm_bytes[len as usize - 1] ^ (len + 4)) as usize;
    let f_len = vm_bytes[offset + 1] as usize + 2;
    let f = vstd::slice::slice_subrange(vm_bytes.as_slice(), offset, offset + f_len);
    let mut start: usize = 0;
    proof {
        assert(f@[1] == v[offset + 1]);
        assert(f@.subrange(2, f_len as int) =~= v.subrange(offset + 2, offset + f_len));
    }
    let decoded = decode_string(f, &mut start);
    proof {
        assert(f@.subrange(start - (f@[1] as usize), start as int) =~= v.subrange(offset + 2, offset + f_len));
    }
    let mut rest: Vec<i64> = Vec::new();
    let mut i: usize = 0;
    while i < vm_bytes.len()
        invariant
            i <= v.len(),
            v == vm_bytes@,
            offset + f_len <= v.len(),
            rest@ == v.subrange(0, if i < offset { i as int } else { offset as int }) + v.subrange(
                offset + f_len,
                if i < offset + f_len { (offset + f_len) as int } else { i as int },
            ),
        decreases v.len() - i,
    {
        if i < offset || i >= offset + f_len {
            rest.push(vm_bytes[i]);
        }
        i += 1;
        assert(rest@ =~= v.subrange(0, if i < offset { i as int } else { offset as int }) + v.subrange(
            offset + f_len,
            if i < offset + f_len { (offset + f_len) as int } else { i as int },
        ));
    }
    (decoded, rest)
}

/// Splitting the string out removes exactly its entries and keeps the others in order.
pub proof fn decode_removes_string_entries(v: Seq<i64>)
    requires
        decodable(v),
    ensures
        ({
            let rest = v.subrange(0, string_offset(v)) + v.subrange(
                string_offset(v) + string_entries(v),
                v.len() as int,
            );
            &&& rest.len() == v.len() - string_entries(v)
            &&& forall|i: int| 0 <= i < string_offset(v) ==> #[trigger] rest[i] == v[i]
            &&& forall|i: int|
                string_offset(v) <= i < rest.len() ==> #[trigger] rest[i] == v[i + string_entries(v)]
        }),
{
}

/// The embedded string has as many characters as its length entry says.
pub proof fn decoded_string_length(v: Seq<i64>)
    requires
        decodable(v),
    ensures
        decoded_chars(v.subrange(string_offset(v) + 2, string_offset(v) + string_entries(v))).len()
            == (v[string_offset(v) + 1] as usize) as int,
{
}

} // verus!
