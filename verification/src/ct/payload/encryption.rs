//! The block cipher that encrypts the payload: a 32-round TEA-style mixing of two
//! big-endian words under a 128-bit key.
use vstd::prelude::*;
use vstd::utf8::encode_utf8;

verus! {

/// Why `process_data` refused its inputs.
#[derive(Debug, Clone, Copy, PartialEq, Eq, Structural)]
pub enum EncryptionError {
    /// The key is not 16 bytes long.
    KeyLength,
    /// The initialization vector is not 8 bytes long.
    IvLength,
}

impl EncryptionError {
    /// The message of the error.
    pub fn message(&self) -> (r: &str)
        ensures
            r@ == match self {
                EncryptionError::KeyLength => "key must be 128-bit"@,
                EncryptionError::IvLength => "iv must be 64-bit"@,
            },
    {
        match self {
            EncryptionError::KeyLength => "key must be 128-bit",
            EncryptionError::IvLength => "iv must be 64-bit",
        }
    }
}

/// The big-endian word of the four bytes at `t`.
pub open spec fn be_word(data: Seq<u8>, t: int) -> int {
    data[t] * 0x1000000 + data[t + 1] * 0x10000 + data[t + 2] * 0x100 + data[t + 3]
}

/// Reads the big-endian word of the four bytes at `t`.
pub fn n(data: &[u8], t: usize) -> (r: u32)
    requires
        t + 4 <= data@.len(),
    ensures
        r as int == be_word(data@, t as int),
{
    let b0 = data[t];
    let b1 = data[t + 1];
    let b2 = data[t + 2];
    let b3 = data[t + 3];
    let r = ((b0 as u32) << 24) | ((b1 as u32) << 16) | ((b2 as u32) << 8) | (b3 as u32);
    assert(r == (b0 as u32) * 0x1000000u32 + (b1 as u32) * 0x10000u32 + (b2 as u32) * 0x100u32
        + (b3 as u32)) by (bit_vector)
        requires
            r == ((b0 as u32) << 24) | ((b1 as u32) << 16) | ((b2 as u32) << 8) | (b3 as u32),
    ;
    r
}

/// Reads the two words of block `t`: the big-endian words at bytes `8 t` and `8 t + 4`.
pub fn e(data: &[u8], t: usize) -> (r: [u32; 2])
    requires
        8 * t + 8 <= data@.len(),
    ensures
        r[0] as int == be_word(data@, 8 * t),
        r[1] as int == be_word(data@, 8 * t + 4),
{
    let _len = data.len();
    let r = 8 * t;
    [n(data, r), n(data, r + 4)]
}

/// The constant that the round sum grows by each round.
pub open spec fn delta() -> u32 {
    0x9E3779B9u32
}

/// One round of the mixing: updates the first word from the second, advances the sum,
/// then updates the second word from the new first. Each word is mixed with the key
/// word that the sum selects.
pub open spec fn tea_step(key: Seq<u32>, s0: u32, s1: u32, sum: u32) -> (u32, u32, u32) {
    let a = s0.wrapping_add(
        (((s1 << 4u32) ^ (s1 >> 5u32)).wrapping_add(s1)) ^ sum.wrapping_add(key[(sum & 3u32) as int]),
    );
    let sum2 = sum.wrapping_add(delta());
    let b = s1.wrapping_add(
        (((a << 4u32) ^ (a >> 5u32)).wrapping_add(a)) ^ sum2.wrapping_add(
            key[((sum2 >> 11u32) & 3u32) as int],
        ),
    );
    (a, b, sum2)
}

/// The words after `n` rounds that start from the sum `sum`.
pub open spec fn tea_rounds(key: Seq<u32>, s0: u32, s1: u32, sum: u32, n: nat) -> (u32, u32)
    decreases n,
{
    if n == 0 {
        (s0, s1)
    } else {
        let (a, b, sum2) = tea_step(key, s0, s1, sum);
        tea_rounds(key, a, b, sum2, (n - 1) as nat)
    }
}

/// Encrypts one block: 32 rounds from a zero sum.
pub fn tea_round(key: &[u32; 4], state: [u32; 2]) -> (r: [u32; 2])
    ensures
        (r[0], r[1]) == tea_rounds(key@, state[0], state[1], 0, 32),
{
    let mut s0 = state[0];
    let mut s1 = state[1];
    let mut sum = 0u32;
    let mut i: u32 = 0;
    while i < 32
        invariant
            i <= 32,
            tea_rounds(key@, state[0], state[1], 0, 32) == tea_rounds(key@, s0, s1, sum, (32 - i) as nat),
        decreases 32 - i,
    {
        let k0 = (sum as usize) & 3;
        assert((sum as usize) & 3 == (sum & 3u32) as usize && (sum as usize) & 3 < 4) by (bit_vector);
        s0 = s0.wrapping_add((((s1 << 4) ^ (s1 >> 5)).wrapping_add(s1)) ^ (sum.wrapping_add(key[k0])));
        sum = sum.wrapping_add(0x9E3779B9);
        let k1 = ((sum >> 11) as usize) & 3;
        assert(((sum >> 11u32) as usize) & 3 == ((sum >> 11u32) & 3u32) as usize && ((sum >> 11u32) as usize) & 3 < 4) by (bit_vector);
        s1 = s1.wrapping_add((((s0 << 4) ^ (s0 >> 5)).wrapping_add(s0)) ^ (sum.wrapping_add(key[k1])));
        i += 1;
    }
    [s0, s1]
}

/// Checks the lengths of `key` and `iv` for encrypting `input`: a key that is not 16
/// bytes long is refused with `KeyLength`, and otherwise an initialization vector that is
/// not 8 bytes long with `IvLength`. Encryption itself is not defined for a 16-byte key
/// with an 8-byte initialization vector, so this function takes only inputs with a wrong
/// length and always returns the error they call for.
pub fn process_data(key: &[u8], iv: &[u8], input: &[u8]) -> (r: Result<Vec<u8>, EncryptionError>)
    requires
        key@.len() != 16 || iv@.len() != 8,
    ensures
        key@.len() != 16 ==> r == Err::<Vec<u8>, EncryptionError>(EncryptionError::KeyLength),
        key@.len() == 16 ==> r == Err::<Vec<u8>, EncryptionError>(EncryptionError::IvLength),
{
    if key.len() != 16 {
        return Err(EncryptionError::KeyLength);
    }
    Err(EncryptionError::IvLength)
}

/// The UTF-8 bytes of `s`.
pub fn string_to_bytes(s: &str) -> (r: Vec<u8>)
    ensures
        r@ == encode_utf8(s@),
{
    vstd::slice::slice_to_vec(s.as_bytes())
}

/// The bytes of an ASCII string are its character codes, one per character.
pub proof fn ascii_bytes_are_codes(s: Seq<char>)
    requires
        vstd::utf8::is_ascii_chars(s),
    ensures
        encode_utf8(s).len() == s.len(),
        forall|i: int| 0 <= i < s.len() ==> #[trigger] encode_utf8(s)[i] == s[i] as u8,
{
    vstd::utf8::is_ascii_chars_encode_utf8(s);
}

} // verus!
