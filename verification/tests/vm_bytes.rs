use ctsolver::ct::vm::utils::{decode_vm_bytes, get_vm_bytes, try_get_vm_bytes};
use unicode_segmentation::UnicodeSegmentation;

const CHARSET: &str = "0123456789abcdefghijklmnopqrstuvwxyzABCDEFGHIJKLMNOPQRSTUVWXYZ$_";

/// The decoding written out directly, digit by digit.
fn reference(instructions: &str, charset: &str) -> Vec<i64> {
    let mut index = [62usize; 256];
    for (i, g) in charset.graphemes(true).enumerate() {
        index[g.as_bytes()[0] as usize] = i;
    }
    let bytes: Vec<u8> = instructions.graphemes(true).map(|g| g.as_bytes()[0]).collect();
    let mut out = Vec::new();
    let mut k = 0;
    while k < bytes.len() {
        let (mut h, mut l) = (0i64, 1i64);
        loop {
            let x = index[bytes[k] as usize] as i64;
            k += 1;
            h += l * (x % 50);
            if x < 50 {
                out.push(h);
                break;
            }
            h += 50 * l;
            l *= 12;
        }
    }
    out
}

#[test]
fn single_digit_numbers() {
    assert_eq!(get_vm_bytes("0179", CHARSET), vec![0, 1, 7, 9]);
    assert_eq!(get_vm_bytes("aM", CHARSET), vec![10, 48]);
}

#[test]
fn continued_numbers() {
    // 'Y' is digit 60: 10 + 50, then '1' adds 12 * 1
    assert_eq!(get_vm_bytes("Y1", CHARSET), vec![60 + 12]);
    assert_eq!(get_vm_bytes("YY2", CHARSET), vec![60 + 12 * 60 + 144 * 2]);
    let text = "Y1a_$3Z9b";
    assert_eq!(get_vm_bytes(text, CHARSET), reference(text, CHARSET));
}

#[test]
fn characters_outside_the_charset_are_62() {
    // '!' is not in the charset: digit 62, so it continues the number
    assert_eq!(get_vm_bytes("!0", CHARSET), vec![12 + 50]);
    assert_eq!(get_vm_bytes("!0", CHARSET), reference("!0", CHARSET));
}

#[test]
fn later_clusters_win_in_the_charset() {
    assert_eq!(get_vm_bytes("a", "aab"), vec![1]);
}

#[test]
fn cut_short_numbers_are_refused() {
    assert_eq!(try_get_vm_bytes("1Y", CHARSET), None);
    assert_eq!(try_get_vm_bytes("1Y2", CHARSET), Some(vec![1, 10 + 50 + 24]));
    assert_eq!(try_get_vm_bytes("", CHARSET), Some(vec![]));
}

#[test]
fn overflowing_numbers_are_refused() {
    let long = "Y".repeat(40) + "1";
    assert_eq!(try_get_vm_bytes(&long, CHARSET), None);
}

fn encoded_char(c: char) -> i64 {
    // the entry whose code is `c`: high bits as they are, low six bits times 51
    // (the inverse of 59 modulo 64)
    let code = c as i64;
    (code & !63) | (((code & 63) * 51) & 63)
}

#[test]
fn splits_the_string_out() {
    let mut v: Vec<i64> = vec![1, 2, 3];
    let offset = v.len() as i64;
    v.push(77);
    v.push(2);
    v.push(encoded_char('h'));
    v.push(encoded_char('i'));
    v.push(9);
    let len = v.len() as i64 + 1;
    v.push(offset ^ (len + 4));
    let (text, rest) = decode_vm_bytes(v.clone());
    assert_eq!(text, "hi");
    assert_eq!(rest, vec![1, 2, 3, 9, offset ^ (len + 4)]);
    assert_eq!(rest.len(), v.len() - 4);
}

#[test]
fn invalid_codes_become_nul() {
    // 0xD800 is a surrogate, and its low six bits are zero
    let bad = 0xD800i64;
    let v = vec![0, 1, bad, 0 ^ (4 + 4)];
    let (text, rest) = decode_vm_bytes(v);
    assert_eq!(text, "\0");
    assert_eq!(rest, vec![0 ^ 8]);
}
