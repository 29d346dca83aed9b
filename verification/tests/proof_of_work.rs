use ctsolver::cd::utils::{
    find_answers, find_nonce, generate_server_offset, id_from_draws, make_id, meets_difficulty,
    server_offset,
    try_find_answers,
};
use sha2::{Digest, Sha256};

/// The difficulty of a hash as a float, as the challenge defines it.
fn float_difficulty(hash: &str) -> f64 {
    let base: i64 = 0x10000000000000;
    let denominator = u64::from_str_radix(&hash[..13], 16).unwrap_or(0) as f64 + 1.0;
    base as f64 / denominator
}

fn sha_hex(s: &str) -> String {
    hex::encode(Sha256::digest(s.as_bytes()))
}

#[test]
fn difficulty_matches_the_float_formula() {
    let samples = [
        "0000000000000ffff",
        "3333333333333",
        "3333333333334",
        "ffffffffffffffff",
        "+000000000000",
        "zz00000000000",
        "0CCCCCCCCCCCC",
        "3333333333332xyz",
    ];
    for s in samples {
        assert_eq!(meets_difficulty(s), float_difficulty(s) >= 5.0, "{}", s);
    }
    // the threshold: 5 * (v + 1) <= 2^52 exactly when v <= 0x3333333333332
    assert!(meets_difficulty("3333333333332"));
    assert!(!meets_difficulty("3333333333333"));
    // a prefix that is not hex counts as 0
    assert!(meets_difficulty("zzzzzzzzzzzzz"));
}

#[test]
fn nonce_search_finds_the_least_nonce() {
    let start = sha_hex("seed");
    let (n, h) = find_nonce(&start).unwrap();
    assert!(n >= 1);
    assert_eq!(h, sha_hex(&format!("{}, {}", n, start)));
    assert!(float_difficulty(&h) >= 5.0);
    for m in 1..n {
        assert!(float_difficulty(&sha_hex(&format!("{}, {}", m, start))) < 5.0);
    }
}

#[test]
fn answers_form_a_chain() {
    let start = "1700000000000";
    let id = "0123456789abcdef0123456789abcdef";
    let (answers, last) = find_answers(start, id);
    assert_eq!(answers.len(), 2);
    let h0 = sha_hex(&format!("tp-v2-input, {}, {}", start, id));
    let h1 = sha_hex(&format!("{}, {}", answers[0], h0));
    assert!(float_difficulty(&h1) >= 5.0);
    for m in 1..answers[0] {
        assert!(float_difficulty(&sha_hex(&format!("{}, {}", m, h0))) < 5.0);
    }
    let h2 = sha_hex(&format!("{}, {}", answers[1], h1));
    assert_eq!(last, h2);
    assert!(float_difficulty(&h2) >= 5.0);
    assert_eq!(try_find_answers(start, id), Some((answers, last)));
}

#[test]
fn ids_are_32_hex_digits() {
    let id = make_id();
    assert_eq!(id.len(), 32);
    assert!(id.chars().all(|c| "0123456789abcdef".contains(c)));
}

#[test]
fn server_offset_is_within_range() {
    for _ in 0..20 {
        let (offset, t1, t2) = generate_server_offset();
        assert_eq!(offset, t2 - t1);
        assert!((1400..2700).contains(&offset));
        assert!(t1 > 1_600_000_000_000);
    }
}

#[test]
fn server_offset_adds_the_draw_to_the_base_delay() {
    assert_eq!(server_offset(1_700_000_000_000, 0), (1400, 1_700_000_000_000, 1_700_000_001_400));
    assert_eq!(server_offset(1_700_000_000_000, 1299), (2699, 1_700_000_000_000, 1_700_000_002_699));
    assert_eq!(server_offset(0, 250), (1650, 0, 1650));
}

#[test]
fn id_spells_its_draws() {
    let draws: Vec<u64> = (0..32).map(|i| (i * 7 % 16) as u64).collect();
    let id = id_from_draws(&draws);
    let expected: String = draws.iter().map(|&d| "0123456789abcdef".as_bytes()[d as usize] as char).collect();
    assert_eq!(id, expected);
    assert_eq!(&id[..4], "07e5");
    assert_eq!(id_from_draws(&vec![15, 0, 10]), "f0a");
}
