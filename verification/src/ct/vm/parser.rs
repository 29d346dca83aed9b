//! Finding the list of numbers that the decoded text embeds: the leftmost run of the
//! form `[d,d,...,d]` with at least 51 entries, each a non-empty run of ASCII digits.
use vstd::prelude::*;
use vstd::utf8::encode_utf8;

verus! {

pub open spec fn is_digit(c: u8) -> bool {
    48 <= c <= 57
}

/// The end of the run of digits that starts at `i`.
pub open spec fn digits_end(b: Seq<u8>, i: int) -> int
    decreases b.len() - i,
{
    if 0 <= i < b.len() && is_digit(b[i]) {
        digits_end(b, i + 1)
    } else {
        i
    }
}

/// The number that the digits `b[i..j]` spell in decimal.
pub open spec fn digits_value(b: Seq<u8>, i: int, j: int) -> nat
    decreases j - i,
{
    if j <= i {
        0
    } else {
        digits_value(b, i, j - 1) * 10 + (b[j - 1] - 48) as nat
    }
}

/// The numbers of the longest run of `,d+` groups that starts at `j`, and the position
/// after it.
pub open spec fn comma_numbers(b: Seq<u8>, j: int) -> (Seq<nat>, int)
    decreases b.len() - j,
{
    if 0 <= j < b.len() && b[j] == 44u8 && digits_end(b, j + 1) > j + 1 {
        let k = digits_end(b, j + 1);
        proof {
            lemma_digits_end_bounds(b, j + 1);
        }
        let rest = comma_numbers(b, k);
        (seq![digits_value(b, j + 1, k)] + rest.0, rest.1)
    } else {
        (Seq::empty(), j)
    }
}

/// The numbers of the list that starts at `p`, if one does: `[`, digits, at least 50
/// groups `,d+`, then `]`. A pattern that matches greedily can only match this way.
pub open spec fn list_at(b: Seq<u8>, p: int) -> Option<Seq<nat>> {
    if 0 <= p < b.len() && b[p] == 91u8 && digits_end(b, p + 1) > p + 1 {
        let k = digits_end(b, p + 1);
        let rest = comma_numbers(b, k);
        if rest.0.len() >= 50 && rest.1 < b.len() && b[rest.1] == 93u8 {
            Some(seq![digits_value(b, p + 1, k)] + rest.0)
        } else {
            None
        }
    } else {
        None
    }
}

/// The numbers of the leftmost list at or after `p`, or none.
pub open spec fn first_list_from(b: Seq<u8>, p: int) -> Seq<nat>
    decreases b.len() - p,
{
    if p < 0 || p >= b.len() {
        Seq::empty()
    } else {
        match list_at(b, p) {
            Some(vs) => vs,
            None => first_list_from(b, p + 1),
        }
    }
}

/// The numbers of the leftmost list in `b`, or none if there is no list.
pub open spec fn first_list(b: Seq<u8>) -> Seq<nat> {
    first_list_from(b, 0)
}

pub proof fn lemma_digits_end_bounds(b: Seq<u8>, i: int)
    requires
        0 <= i <= b.len(),
    ensures
        i <= digits_end(b, i) <= b.len(),
        forall|m: int| i <= m < digits_end(b, i) ==> is_digit(#[trigger] b[m]),
        digits_end(b, i) < b.len() ==> !is_digit(b[digits_end(b, i)]),
    decreases b.len() - i,
{
    if i < b.len() && is_digit(b[i]) {
        lemma_digits_end_bounds(b, i + 1);
    }
}

proof fn lemma_digits_value_monotone(b: Seq<u8>, i: int, k: int, j: int)
    requires
        i <= k <= j,
        forall|m: int| i <= m < j ==> is_digit(#[trigger] b[m]),
    ensures
        digits_value(b, i, k) <= digits_value(b, i, j),
    decreases j - k,
{
    if k < j {
        lemma_digits_value_monotone(b, i, k, j - 1);
    }
}

proof fn lemma_comma_numbers_bounds(b: Seq<u8>, j: int)
    requires
        0 <= j <= b.len(),
    ensures
        j <= comma_numbers(b, j).1 <= b.len(),
    decreases b.len() - j,
{
    if 0 <= j < b.len() && b[j] == 44u8 && digits_end(b, j + 1) > j + 1 {
        lemma_digits_end_bounds(b, j + 1);
        lemma_comma_numbers_bounds(b, digits_end(b, j + 1));
    }
}

/// The list that `find_list` returns is empty or has at least 51 numbers.
pub proof fn found_list_is_long(b: Seq<u8>, p: int)
    ensures
        first_list_from(b, p).len() == 0 || first_list_from(b, p).len() >= 51,
    decreases b.len() - p,
{
    if 0 <= p < b.len() {
        if list_at(b, p) is None {
            found_list_is_long(b, p + 1);
        }
    }
}

/// A list that starts somewhere holds at least 51 numbers.
proof fn lemma_list_at_long(b: Seq<u8>, p: int)
    ensures
        list_at(b, p) matches Some(vs) ==> vs.len() >= 51,
{
}

proof fn lemma_leftmost_from(b: Seq<u8>, p0: int)
    requires
        0 <= p0,
    ensures
        first_list_from(b, p0).len() == 0 ==> forall|q: int|
            p0 <= q < b.len() ==> #[trigger] list_at(b, q) is None,
        first_list_from(b, p0).len() > 0 ==> exists|p: int|
            p0 <= p < b.len() && #[trigger] list_at(b, p) == Some(first_list_from(b, p0))
                && forall|q: int| p0 <= q < p ==> #[trigger] list_at(b, q) is None,
    decreases b.len() - p0,
{
    if p0 < b.len() {
        lemma_list_at_long(b, p0);
        if list_at(b, p0) is None {
            lemma_leftmost_from(b, p0 + 1);
            if first_list_from(b, p0).len() == 0 {
                assert forall|q: int| p0 <= q < b.len() implies #[trigger] list_at(b, q) is None by {
                    if q > p0 {
                    }
                }
            } else {
                let p = choose|p: int|
                    p0 + 1 <= p < b.len() && #[trigger] list_at(b, p) == Some(first_list_from(b, p0 + 1))
                        && forall|q: int| p0 + 1 <= q < p ==> #[trigger] list_at(b, q) is None;
                assert forall|q: int| p0 <= q < p implies #[trigger] list_at(b, q) is None by {
                    if q > p0 {
                    }
                }
                assert(list_at(b, p) == Some(first_list_from(b, p0)));
            }
        } else {
            assert(list_at(b, p0) == Some(first_list_from(b, p0)));
        }
    }
}

/// The list found is the leftmost one: when the text holds no list `[d,d,...]` of at
/// least 51 numbers anywhere, none is found; otherwise the numbers found are those of a
/// list that starts at some position `p`, and no list starts before `p`, however long
/// the lists after it are.
pub proof fn found_list_is_leftmost(b: Seq<u8>)
    ensures
        first_list(b).len() == 0 <==> forall|q: int| 0 <= q < b.len() ==> #[trigger] list_at(b, q) is None,
        first_list(b).len() > 0 ==> exists|p: int|
            0 <= p < b.len() && #[trigger] list_at(b, p) == Some(first_list(b))
                && forall|q: int| 0 <= q < p ==> #[trigger] list_at(b, q) is None,
{
    lemma_leftmost_from(b, 0);
    if first_list(b).len() > 0 {
        let p = choose|p: int|
            0 <= p < b.len() && #[trigger] list_at(b, p) == Some(first_list_from(b, 0))
                && forall|q: int| 0 <= q < p ==> #[trigger] list_at(b, q) is None;
        assert(list_at(b, p) is Some);
    }
}

/// The end of the run of digits that starts at `i`.
fn scan_digits(b: &[u8], i: usize) -> (j: usize)
    requires
        i <= b@.len(),
    ensures
        j == digits_end(b@, i as int),
{
    let mut j = i;
    while j < b.len() && 48 <= b[j] && b[j] <= 57
        invariant
            i <= j <= b@.len(),
            digits_end(b@, i as int) == digits_end(b@, j as int),
        decreases b@.len() - j,
    {
        j += 1;
    }
    j
}

/// How many `,d+` groups follow position `j`, and where they end.
fn scan_comma_numbers(b: &[u8], j: usize) -> (r: (usize, usize))
    requires
        j <= b@.len(),
    ensures
        r.0 == comma_numbers(b@, j as int).0.len(),
        r.1 == comma_numbers(b@, j as int).1,
{
    let mut count: usize = 0;
    let mut pos = j;
    loop
        invariant
            j <= pos <= b@.len(),
            count <= pos - j,
            comma_numbers(b@, j as int).0.len() == count + comma_numbers(b@, pos as int).0.len(),
            comma_numbers(b@, j as int).1 == comma_numbers(b@, pos as int).1,
        decreases b@.len() - pos,
    {
        if pos < b.len() && b[pos] == 44 {
            let k = scan_digits(b, pos + 1);
            proof {
                lemma_digits_end_bounds(b@, pos + 1);
            }
            if k > pos + 1 {
                count += 1;
                pos = k;
                continue;
            }
        }
        return (count, pos);
    }
}

/// Where the list that starts at `p` closes, if one starts there.
fn list_close_at(b: &[u8], p: usize) -> (r: Option<usize>)
    requires
        p < b@.len(),
    ensures
        r is Some <==> list_at(b@, p as int) is Some,
{
    if b[p] != 91 {
        return None;
    }
    let k = scan_digits(b, p + 1);
    proof {
        lemma_digits_end_bounds(b@, p + 1);
    }
    if k <= p + 1 {
        return None;
    }
    let (count, end) = scan_comma_numbers(b, k);
    if count >= 50 && end < b.len() && b[end] == 93 {
        Some(end)
    } else {
        None
    }
}

/// The value of the digits `b[i..j]`, given that it fits in an `i64`.
fn digits_to_i64(b: &[u8], i: usize, j: usize) -> (v: i64)
    requires
        i <= j <= b@.len(),
        forall|m: int| i <= m < j ==> is_digit(#[trigger] b@[m]),
        digits_value(b@, i as int, j as int) <= i64::MAX,
    ensures
        v == digits_value(b@, i as int, j as int),
{
    let mut v: i64 = 0;
    let mut k = i;
    while k < j
        invariant
            i <= k <= j <= b@.len(),
            forall|m: int| i <= m < j ==> is_digit(#[trigger] b@[m]),
            digits_value(b@, i as int, j as int) <= i64::MAX,
            v == digits_value(b@, i as int, k as int),
        decreases j - k,
    {
        proof {
            lemma_digits_value_monotone(b@, i as int, k + 1, j as int);
        }
        v = v * 10 + (b[k] - 48) as i64;
        k += 1;
    }
    v
}

/// Reads the numbers of the list that starts at `p`.
fn read_list_at(b: &[u8], p: usize) -> (r: Vec<i64>)
    requires
        p < b@.len(),
        list_at(b@, p as int) is Some,
        forall|m: int| 0 <= m < list_at(b@, p as int)->0.len() ==> #[trigger] list_at(b@, p as int)->0[m] <= i64::MAX,
    ensures
        r@.map_values(|v: i64| v as nat) == list_at(b@, p as int)->0,
{
    let ghost vs = list_at(b@, p as int)->0;
    let n = b.len();
    let k = scan_digits(b, p + 1);
    proof {
        lemma_digits_end_bounds(b@, p + 1);
        assert(vs[0] == digits_value(b@, p + 1, k as int));
    }
    let mut r: Vec<i64> = Vec::new();
    r.push(digits_to_i64(b, p + 1, k));
    let mut pos = k;
    loop
        invariant
            p < pos <= b@.len(),
            vs == list_at(b@, p as int)->0,
            forall|m: int| 0 <= m < vs.len() ==> #[trigger] vs[m] <= i64::MAX,
            1 <= r@.len() <= vs.len(),
            vs == seq![vs[0]] + comma_numbers(b@, digits_end(b@, p + 1)).0,
            vs.subrange(r@.len() as int, vs.len() as int) == comma_numbers(b@, pos as int).0,
            r@.map_values(|v: i64| v as nat) == vs.subrange(0, r@.len() as int),
        decreases b@.len() - pos,
    {
        if pos < b.len() && b[pos] == 44 {
            let k = scan_digits(b, pos + 1);
            proof {
                lemma_digits_end_bounds(b@, pos + 1);
            }
            if k > pos + 1 {
                proof {
                    let rest = comma_numbers(b@, pos as int);
                    assert(rest.0[0] == digits_value(b@, pos + 1, k as int));
                    assert(rest.0.len() >= 1);
                    assert(vs.subrange(r@.len() as int, vs.len() as int).len() == rest.0.len());
                    assert(vs.subrange(r@.len() as int, vs.len() as int)[0] == vs[r@.len() as int]);
                    assert(vs[r@.len() as int] == rest.0[0]);
                    assert(vs.subrange(r@.len() as int + 1, vs.len() as int) =~= rest.0.drop_first());
                    assert(comma_numbers(b@, k as int).0 =~= rest.0.drop_first());
                }
                let v = digits_to_i64(b, pos + 1, k);
                let ghost old_r = r@;
                r.push(v);
                proof {
                    assert(r@.map_values(|v: i64| v as nat) =~= vs.subrange(0, r@.len() as int));
                }
                pos = k;
                continue;
            }
        }
        proof {
            assert(vs.subrange(r@.len() as int, vs.len() as int).len() == 0);
            assert(vs.subrange(0, r@.len() as int) =~= vs);
        }
        return r;
    }
}

/// The numbers of the leftmost list of at least 51 numbers, written `[d,d,...,d]`, in
/// `string`; none if `string` holds no such list. Every number of that list must fit in
/// an `i64`.
pub fn find_list(string: String) -> (r: Vec<i64>)
    requires
        forall|m: int|
            0 <= m < first_list(encode_utf8(string@)).len() ==> #[trigger] first_list(
                encode_utf8(string@),
            )[m] <= i64::MAX,
    ensures
        r@.map_values(|v: i64| v as nat) == first_list(encode_utf8(string@)),
{
    let b = string.as_str().as_bytes();
    let mut p: usize = 0;
    while p < b.len()
        invariant
            p <= b@.len(),
            b@ == encode_utf8(string@),
            first_list(b@) == first_list_from(b@, p as int),
            forall|m: int|
                0 <= m < first_list(b@).len() ==> #[trigger] first_list(b@)[m] <= i64::MAX,
        decreases b@.len() - p,
    {
        if list_close_at(b, p).is_some() {
            assert(first_list_from(b@, p as int) == list_at(b@, p as int)->0);
            assert forall|m: int| 0 <= m < list_at(b@, p as int)->0.len() implies #[trigger] list_at(
                b@,
                p as int,
            )->0[m] <= i64::MAX by {
                assert(first_list(b@)[m] == list_at(b@, p as int)->0[m]);
            }
            return read_list_at(b, p);
        }
        p += 1;
    }
    let r: Vec<i64> = Vec::new();
    assert(r@.map_values(|v: i64| v as nat) =~= first_list(b@));
    r
}

} // verus!
