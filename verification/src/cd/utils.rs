//! The proof of work of the challenge: a chain of SHA-256 hashes in which each link is
//! found by searching for the least nonce whose hash is hard enough; and the random
//! values that go with it (the client id and the server time offset).
use vstd::prelude::*;
use vstd::utf8::{encode_utf8, is_char_boundary};

use chrono::Utc;
use rand::rngs::ThreadRng;
use rand::Rng;
use sha2::{Digest, Sha256};

use crate::text::{chars_of, decimal, push_decimal, push_str};

verus! {

broadcast use vstd::utf8::encode_utf8_valid_utf8;

#[verifier::external_type_specification]
#[verifier::external_body]
pub struct ExThreadRng(ThreadRng);

/// `Utc::now().timestamp_millis()`: the current time in milliseconds since the Unix
/// epoch. `Utc::now` panics on a clock before the epoch and builds a `DateTime`, whose
/// years lie within ±262143, so what it returns is non-negative and below 10^16.
#[verifier::external_body]
fn utc_now_millis() -> (r: i64)
    ensures
        0 <= r < 10_000_000_000_000_000,
{
    Utc::now().timestamp_millis()
}

/// `rand::thread_rng()`: the generator of this thread. Nothing is known of its state.
#[verifier::external_body]
fn thread_rng() -> ThreadRng {
    rand::thread_rng()
}

/// `Rng::gen_range(low..high)`: a random number in `low..high`, which must not be empty
/// (the call panics on an empty range).
#[verifier::external_body]
fn gen_range(rng: &mut ThreadRng, low: u64, high: u64) -> (r: u64)
    requires
        low < high,
    ensures
        low <= r < high,
{
    rng.gen_range(low..high)
}

/// The SHA-256 digest of a byte string.
pub uninterp spec fn sha256_digest(data: Seq<u8>) -> Seq<u8>;

/// `Sha256::digest`: the SHA-256 digest of `data`, 32 bytes long.
#[verifier::external_body]
fn sha256(data: &[u8]) -> (r: Vec<u8>)
    ensures
        r@ == sha256_digest(data@),
        r@.len() == 32,
{
    Sha256::digest(data).to_vec()
}

/// The lowercase hex digit of `v < 16`.
pub open spec fn hex_char(v: u8) -> char {
    if v < 10 {
        (v + 48) as char
    } else {
        (v + 87) as char
    }
}

/// The lowercase hex encoding of `d`: two digits per byte, the high nibble first.
pub open spec fn hex_lower(d: Seq<u8>) -> Seq<char> {
    Seq::new(
        2 * d.len(),
        |i: int|
            hex_char(
                if i % 2 == 0 {
                    d[i / 2] >> 4u8
                } else {
                    d[i / 2] & 15u8
                },
            ),
    )
}

/// The lowercase hex digit of `v < 16`.
fn nibble_char(v: u8) -> (c: char)
    requires
        v < 16,
    ensures
        c == hex_char(v),
{
    if v < 10 {
        (v + 48) as char
    } else {
        (v + 87) as char
    }
}

/// The lowercase hex encoding of `data`, two digits per byte.
fn hex_encode(data: &[u8]) -> (r: String)
    ensures
        r@ == hex_lower(data@),
{
    let mut s = String::new();
    let mut i: usize = 0;
    while i < data.len()
        invariant
            i <= data@.len(),
            s@ == hex_lower(data@.subrange(0, i as int)),
        decreases data@.len() - i,
    {
        let b = data[i];
        assert((b >> 4u8) < 16 && (b & 15u8) < 16) by (bit_vector);
        let ghost before = s@;
        s.push(nibble_char(b >> 4u8));
        s.push(nibble_char(b & 15u8));
        i += 1;
        proof {
            let d = data@.subrange(0, i as int);
            let d0 = data@.subrange(0, i - 1);
            assert forall|j: int| 0 <= j < 2 * i implies #[trigger] s@[j] == hex_lower(d)[j] by {
                if j < 2 * (i - 1) {
                    assert(d[j / 2] == d0[j / 2]);
                    assert(s@[j] == before[j]);
                    assert(before[j] == hex_lower(d0)[j]);
                } else {
                    assert(j / 2 == i - 1);
                    assert(d[j / 2] == b);
                }
            }
            assert(s@ =~= hex_lower(d));
        }
    }
    assert(data@.subrange(0, data@.len() as int) =~= data@);
    s
}

/// The value of a hex digit in either case, if `c` is one.
pub open spec fn hex_digit_value(c: u8) -> Option<nat> {
    if 48 <= c <= 57 {
        Some((c - 48) as nat)
    } else if 97 <= c <= 102 {
        Some((c - 87) as nat)
    } else if 65 <= c <= 70 {
        Some((c - 55) as nat)
    } else {
        None
    }
}

/// The number that the hex digits `ds` spell, if all of them are hex digits.
pub open spec fn hex_digits_value(ds: Seq<u8>) -> Option<nat>
    decreases ds.len(),
{
    if ds.len() == 0 {
        Some(0)
    } else {
        match (hex_digits_value(ds.drop_last()), hex_digit_value(ds.last())) {
            (Some(v), Some(d)) => Some(v * 16 + d),
            _ => None,
        }
    }
}

/// `u64::from_str_radix(src, 16)` on a short `src`: an optional `+`, then at least one
/// hex digit.
pub open spec fn parse_hex(src: Seq<u8>) -> Option<nat> {
    if src.len() == 0 {
        None
    } else if src[0] == 43u8 {
        if src.len() == 1 {
            None
        } else {
            hex_digits_value(src.drop_first())
        }
    } else {
        hex_digits_value(src)
    }
}

/// The number that the first 13 bytes of a hash spell in hex, or 0 if they do not.
pub open spec fn hash_prefix_value(b: Seq<u8>) -> nat {
    match parse_hex(b.subrange(0, 13)) {
        Some(v) => v,
        None => 0,
    }
}

/// Whether a hash is hard enough: 2^52 divided by one more than its prefix value is at
/// least 5.
pub open spec fn hard_enough(b: Seq<u8>) -> bool {
    5 * (hash_prefix_value(b) + 1) <= 0x10000000000000
}

/// 16 to the power `n`.
pub open spec fn pow16(n: nat) -> nat
    decreases n,
{
    if n == 0 {
        1
    } else {
        16 * pow16((n - 1) as nat)
    }
}

proof fn lemma_pow16_monotone(m: nat, n: nat)
    requires
        m <= n,
    ensures
        pow16(m) <= pow16(n),
    decreases n,
{
    if m < n {
        lemma_pow16_monotone(m, (n - 1) as nat);
    }
}

proof fn lemma_pow16_values()
    ensures
        pow16(12) == 0x1000000000000,
        pow16(13) == 0x10000000000000,
{
    reveal_with_fuel(pow16, 14);
}

proof fn lemma_hex_digits_bound(ds: Seq<u8>)
    ensures
        hex_digits_value(ds) matches Some(v) ==> v < pow16(ds.len()),
    decreases ds.len(),
{
    if ds.len() > 0 {
        lemma_hex_digits_bound(ds.drop_last());
        if let (Some(v), Some(d)) = (hex_digits_value(ds.drop_last()), hex_digit_value(ds.last())) {
            let p = pow16((ds.len() - 1) as nat);
            assert(v * 16 + d < p * 16) by (nonlinear_arith)
                requires v < p, d < 16;
        }
    }
}

/// The value of the hex digits `b[from..to]`, when they all are hex digits.
fn read_hex_digits(b: &[u8], from: usize, to: usize) -> (r: Option<u64>)
    requires
        from <= to <= b@.len(),
        to - from <= 13,
    ensures
        match r {
            Some(v) => hex_digits_value(b@.subrange(from as int, to as int)) == Some(v as nat),
            None => hex_digits_value(b@.subrange(from as int, to as int)) is None,
        },
{
    let mut v: u64 = 0;
    let mut i = from;
    while i < to
        invariant
            from <= i <= to <= b@.len(),
            to - from <= 13,
            hex_digits_value(b@.subrange(from as int, i as int)) == Some(v as nat),
        decreases to - i,
    {
        let c = b[i];
        let d: u64 = if 48 <= c && c <= 57 {
            (c - 48) as u64
        } else if 97 <= c && c <= 102 {
            (c - 87) as u64
        } else if 65 <= c && c <= 70 {
            (c - 55) as u64
        } else {
            proof {
                assert(b@.subrange(from as int, i + 1).drop_last() =~= b@.subrange(from as int, i as int));
                lemma_none_extends(b@, from as int, i + 1, to as int);
            }
            return None;
        };
        proof {
            assert(b@.subrange(from as int, i + 1).drop_last() =~= b@.subrange(from as int, i as int));
            lemma_hex_digits_bound(b@.subrange(from as int, i as int));
            lemma_pow16_monotone((i - from) as nat, 12);
            lemma_pow16_values();
        }
        v = v * 16 + d;
        i += 1;
    }
    Some(v)
}

/// Once a prefix of the digits holds a non-digit, so does every longer prefix.
proof fn lemma_none_extends(b: Seq<u8>, from: int, k: int, to: int)
    requires
        0 <= from <= k <= to <= b.len(),
        hex_digits_value(b.subrange(from, k)) is None,
    ensures
        hex_digits_value(b.subrange(from, to)) is None,
    decreases to - k,
{
    if k < to {
        assert(b.subrange(from, k + 1).drop_last() =~= b.subrange(from, k));
        lemma_none_extends(b, from, k + 1, to);
    }
}

/// Whether `hash` is hard enough (see `hard_enough`): the integer form of asking whether
/// 2^52 over one more than the hex value of its first 13 bytes is at least 5. Those 13
/// bytes must end on a character boundary.
pub fn meets_difficulty(hash: &str) -> (r: bool)
    requires
        encode_utf8(hash@).len() >= 13,
        is_char_boundary(encode_utf8(hash@), 13),
    ensures
        r == hard_enough(encode_utf8(hash@)),
{
    let b = hash.as_bytes();
    let prefix: Option<u64> = if b[0] == 43 {
        read_hex_digits(b, 1, 13)
    } else {
        read_hex_digits(b, 0, 13)
    };
    proof {
        let s = b@.subrange(0, 13);
        assert(s.drop_first() =~= b@.subrange(1, 13));
        assert(s =~= b@.subrange(0, 13));
    }
    let value: u64 = match prefix {
        Some(v) => v,
        None => 0,
    };
    proof {
        let s = b@.subrange(0, 13);
        if b[0] == 43 {
            lemma_hex_digits_bound(s.drop_first());
            lemma_pow16_values();
        } else {
            lemma_hex_digits_bound(s);
            lemma_pow16_values();
        }
    }
    5 * (value + 1) <= 0x10000000000000
}

/// The server offset drawn at Unix time `now` (in milliseconds) with the draw `draw`:
/// the offset `1400 + draw`, the time `now`, and that time moved on by the offset.
pub fn server_offset(now: i64, draw: u64) -> (r: (i64, i64, i64))
    requires
        0 <= now < 10_000_000_000_000_000,
        draw < 1300,
    ensures
        r.0 == 1400 + draw,
        r.1 == now,
        r.2 == now + 1400 + draw,
{
    let later = now + 1400 + draw as i64;
    (later - now, now, later)
}

/// The first and last three times are the Unix time in milliseconds when the offset was
/// drawn and that time moved on by the offset; the offset lies in 1400..2700.
pub fn generate_server_offset() -> (r: (i64, i64, i64))
    ensures
        r.0 == r.2 - r.1,
        1400 <= r.0 < 2700,
        0 <= r.1,
{
    let now = utc_now_millis();
    let mut rng = thread_rng();
    let draw = gen_range(&mut rng, 0, 1300);
    server_offset(now, draw)
}

/// The alphabet of client ids.
pub open spec fn id_alphabet() -> Seq<char> {
    "0123456789abcdef"@
}

/// The id that the draws spell: each draw picks the alphabet entry at its position.
pub open spec fn id_of(draws: Seq<u64>) -> Seq<char> {
    Seq::new(draws.len(), |i: int| id_alphabet()[draws[i] as int])
}

/// The id spelled by `draws`, each of which is below 16 (see `id_of`).
pub fn id_from_draws(draws: &Vec<u64>) -> (r: String)
    requires
        forall|i: int| 0 <= i < draws@.len() ==> #[trigger] draws@[i] < 16,
    ensures
        r@ == id_of(draws@),
{
    let chars = chars_of("0123456789abcdef");
    proof {
        reveal_strlit("0123456789abcdef");
    }
    let mut id = String::new();
    let mut k: usize = 0;
    while k < draws.len()
        invariant
            k <= draws@.len(),
            chars@ == id_alphabet(),
            chars@.len() == 16,
            forall|i: int| 0 <= i < draws@.len() ==> #[trigger] draws@[i] < 16,
            id@ == id_of(draws@.subrange(0, k as int)),
        decreases draws@.len() - k,
    {
        let j = draws[k] as usize;
        let c = chars[j];
        let ghost before = id@;
        id.push(c);
        k += 1;
        proof {
            let d = draws@.subrange(0, k as int);
            assert(id@ =~= id_of(d)) by {
                assert forall|i: int| 0 <= i < k implies #[trigger] id@[i] == id_of(d)[i] by {
                    if i < k - 1 {
                        assert(id@[i] == before[i]);
                        assert(before[i] == id_of(draws@.subrange(0, k - 1))[i]);
                    }
                }
            }
        }
    }
    assert(draws@.subrange(0, draws@.len() as int) =~= draws@);
    id
}

/// A random client id: 32 characters, each a lowercase hex digit, spelled by 32 draws
/// below 16 (see `id_of`).
pub fn make_id() -> (r: String)
    ensures
        r@.len() == 32,
        forall|i: int| 0 <= i < 32 ==> id_alphabet().contains(#[trigger] r@[i]),
        exists|d: Seq<u64>|
            #[trigger] id_of(d) == r@ && d.len() == 32 && forall|i: int| 0 <= i < 32 ==> d[i] < 16,
{
    let mut rng = thread_rng();
    let mut draws: Vec<u64> = Vec::new();
    let mut k: usize = 0;
    while k < 32
        invariant
            k <= 32,
            draws@.len() == k,
            forall|i: int| 0 <= i < k ==> #[trigger] draws@[i] < 16,
        decreases 32 - k,
    {
        let j = gen_range(&mut rng, 0, 16);
        draws.push(j);
        k += 1;
    }
    let id = id_from_draws(&draws);
    proof {
        reveal_strlit("0123456789abcdef");
        assert(id_of(draws@) == id@);
        assert forall|i: int| 0 <= i < 32 implies id_alphabet().contains(#[trigger] id@[i]) by {
            assert(draws@[i] < 16);
            assert(id_alphabet()[draws@[i] as int] == id@[i]);
        }
    }
    id
}

/// The bytes hashed first: `tp-v2-input, {start}, {id}` in UTF-8.
pub open spec fn first_message(start: Seq<char>, id: Seq<char>) -> Seq<u8> {
    encode_utf8("tp-v2-input, "@ + start + ", "@ + id)
}

/// The hash that the chain starts from, in lowercase hex.
pub open spec fn initial_hash(start: Seq<char>, id: Seq<char>) -> Seq<char> {
    hex_lower(sha256_digest(first_message(start, id)))
}

/// The hash of a nonce after the hash `cur`: that of `{nonce}, {cur}` in UTF-8.
pub open spec fn nonce_hash(nonce: nat, cur: Seq<char>) -> Seq<char> {
    hex_lower(sha256_digest(encode_utf8(decimal(nonce) + ", "@ + cur)))
}

/// Whether `nonce` is a nonce of `u64` whose hash after `cur` is hard enough.
pub open spec fn good_nonce(cur: Seq<char>, nonce: nat) -> bool {
    1 <= nonce <= u64::MAX && hard_enough(encode_utf8(nonce_hash(nonce, cur)))
}

/// Whether `nonce` is the least good nonce after `cur`.
pub open spec fn is_least_nonce(cur: Seq<char>, nonce: nat) -> bool {
    &&& good_nonce(cur, nonce)
    &&& forall|m: nat| 1 <= m < nonce ==> !#[trigger] good_nonce(cur, m)
}

/// The least good nonce after `cur`, if there is one.
pub open spec fn least_nonce(cur: Seq<char>) -> Option<nat> {
    if exists|n: nat| is_least_nonce(cur, n) {
        Some(choose|n: nat| is_least_nonce(cur, n))
    } else {
        None
    }
}

/// The answers of the chain that starts from `start` and `id`: the least good nonce
/// after the initial hash, then the least good nonce after that nonce's hash; and the
/// hash of the second nonce. None where a link has no good nonce.
pub open spec fn answers(start: Seq<char>, id: Seq<char>) -> Option<(Seq<u64>, Seq<char>)> {
    let h0 = initial_hash(start, id);
    match least_nonce(h0) {
        None => None,
        Some(n1) => {
            let h1 = nonce_hash(n1, h0);
            match least_nonce(h1) {
                None => None,
                Some(n2) => Some((seq![n1 as u64, n2 as u64], nonce_hash(n2, h1))),
            }
        },
    }
}

proof fn lemma_least_unique(cur: Seq<char>, n: nat)
    requires
        is_least_nonce(cur, n),
    ensures
        least_nonce(cur) == Some(n),
{
    let m = choose|m: nat| is_least_nonce(cur, m);
    assert(is_least_nonce(cur, m));
    if m < n {
        assert(!good_nonce(cur, m));
    } else if n < m {
        assert(!good_nonce(cur, n));
    }
}

proof fn lemma_no_least(cur: Seq<char>)
    requires
        forall|m: nat| 1 <= m <= u64::MAX ==> !#[trigger] good_nonce(cur, m),
    ensures
        least_nonce(cur) is None,
{
    if exists|n: nat| is_least_nonce(cur, n) {
        let n = choose|n: nat| is_least_nonce(cur, n);
        assert(good_nonce(cur, n));
    }
}

/// A lowercase hex encoding of 32 bytes is 64 bytes of ASCII, so its 13th byte starts
/// a character.
proof fn lemma_hex_hash_bytes(d: Seq<u8>)
    requires
        d.len() == 32,
    ensures
        encode_utf8(hex_lower(d)).len() == 64,
        is_char_boundary(encode_utf8(hex_lower(d)), 13),
{
    let h = hex_lower(d);
    assert forall|i: int| 0 <= i < h.len() implies '\0' <= #[trigger] h[i] <= '\u{7f}' by {
        let b = d[i / 2];
        assert((b >> 4u8) < 16 && (b & 15u8) < 16) by (bit_vector);
    }
    assert(vstd::utf8::is_ascii_chars(h));
    vstd::utf8::is_ascii_chars_encode_utf8(h);
    let bytes = encode_utf8(h);
    assert(bytes[13] == h[13] as u8);
    vstd::utf8::is_char_boundary_iff_is_leading_byte(bytes, 13);
}

/// Both answers of a chain are good nonces, the second after the hash of the first, and
/// the last hash of the chain is hard enough.
pub proof fn answers_are_good(start: Seq<char>, id: Seq<char>)
    requires
        answers(start, id) is Some,
    ensures
        ({
            let (a, h) = answers(start, id)->0;
            let h1 = nonce_hash(a[0] as nat, initial_hash(start, id));
            &&& a.len() == 2
            &&& is_least_nonce(initial_hash(start, id), a[0] as nat)
            &&& is_least_nonce(h1, a[1] as nat)
            &&& h == nonce_hash(a[1] as nat, h1)
            &&& hard_enough(encode_utf8(h))
        }),
{
    let h0 = initial_hash(start, id);
    let n1 = choose|n: nat| is_least_nonce(h0, n);
    let h1 = nonce_hash(n1, h0);
    let n2 = choose|n: nat| is_least_nonce(h1, n);
    assert(is_least_nonce(h0, n1));
    assert(is_least_nonce(h1, n2));
    assert((n1 as u64) as nat == n1);
    assert((n2 as u64) as nat == n2);
}

/// Searches the nonces 1, 2, ... for the least one whose hash after `current_hash` is
/// hard enough; returns it with its hash, or none if no nonce of `u64` is.
pub fn find_nonce(current_hash: &str) -> (r: Option<(u64, String)>)
    ensures
        match r {
            Some((n, h)) => is_least_nonce(current_hash@, n as nat) && h@ == nonce_hash(n as nat, current_hash@),
            None => forall|m: nat| 1 <= m <= u64::MAX ==> !#[trigger] good_nonce(current_hash@, m),
        },
{
    let mut nonce: u64 = 1;
    loop
        invariant
            1 <= nonce,
            forall|m: nat| 1 <= m < nonce ==> !#[trigger] good_nonce(current_hash@, m),
        decreases u64::MAX - nonce,
    {
        let mut message = String::new();
        push_decimal(&mut message, nonce);
        push_str(&mut message, ", ");
        push_str(&mut message, current_hash);
        let digest = sha256(message.as_str().as_bytes());
        let new_hash = hex_encode(digest.as_slice());
        proof {
            lemma_hex_hash_bytes(digest@);
            assert(new_hash@ == nonce_hash(nonce as nat, current_hash@));
        }
        if meets_difficulty(new_hash.as_str()) {
            return Some((nonce, new_hash));
        }
        assert(!good_nonce(current_hash@, nonce as nat));
        if nonce == u64::MAX {
            return None;
        }
        nonce += 1;
    }
}

/// The hash the chain starts from (see `initial_hash`).
fn start_hash(start_value: &str, id_hash: &str) -> (r: String)
    ensures
        r@ == initial_hash(start_value@, id_hash@),
{
    let mut message = String::new();
    push_str(&mut message, "tp-v2-input, ");
    push_str(&mut message, start_value);
    push_str(&mut message, ", ");
    push_str(&mut message, id_hash);
    let digest = sha256(message.as_str().as_bytes());
    hex_encode(digest.as_slice())
}

/// Runs the chain (see `answers`), or reports that a link has no good nonce.
fn search_answers(start_value: &str, id_hash: &str) -> (r: Option<(Vec<u64>, String)>)
    ensures
        match r {
            Some((a, h)) => answers(start_value@, id_hash@) == Some((a@, h@)),
            None => answers(start_value@, id_hash@) is None,
        },
{
    let h0 = start_hash(start_value, id_hash);
    let (n1, h1) = match find_nonce(h0.as_str()) {
        Some(found) => found,
        None => {
            proof {
                lemma_no_least(h0@);
            }
            return None;
        },
    };
    proof {
        lemma_least_unique(h0@, n1 as nat);
    }
    let (n2, h2) = match find_nonce(h1.as_str()) {
        Some(found) => found,
        None => {
            proof {
                lemma_no_least(h1@);
            }
            return None;
        },
    };
    proof {
        lemma_least_unique(h1@, n2 as nat);
    }
    let mut answers_found: Vec<u64> = Vec::new();
    answers_found.push(n1);
    answers_found.push(n2);
    assert(answers_found@ =~= seq![n1, n2]);
    Some((answers_found, h2))
}

/// The answers of the proof of work that starts from `start_value` and `id_hash`, and the
/// last hash of the chain (see `answers`). Each link must have a good nonce within
/// `u64`; `try_find_answers` checks that first.
pub fn find_answers(start_value: &str, id_hash: &str) -> (r: (Vec<u64>, String))
    requires
        answers(start_value@, id_hash@) is Some,
    ensures
        answers(start_value@, id_hash@) == Some((r.0@, r.1@)),
{
    match search_answers(start_value, id_hash) {
        Some(found) => found,
        None => {
            assert(false);
            (Vec::new(), String::new())
        },
    }
}

/// `find_answers` where every link has a good nonce; none otherwise.
pub fn try_find_answers(start_value: &str, id_hash: &str) -> (r: Option<(Vec<u64>, String)>)
    ensures
        match r {
            Some((a, h)) => answers(start_value@, id_hash@) == Some((a@, h@)),
            None => answers(start_value@, id_hash@) is None,
        },
{
    if search_answers(start_value, id_hash).is_some() {
        Some(find_answers(start_value, id_hash))
    } else {
        None
    }
}

} // verus!
