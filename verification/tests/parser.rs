use ctsolver::ct::vm::parser::find_list;

fn list_text(n: usize, start: i64) -> String {
    let nums: Vec<String> = (0..n).map(|i| (start + i as i64).to_string()).collect();
    format!("[{}]", nums.join(","))
}

#[test]
fn finds_a_list_of_51_numbers() {
    let text = format!("var x = {};", list_text(51, 100));
    let expected: Vec<i64> = (100..151).collect();
    assert_eq!(find_list(text), expected);
}

#[test]
fn fifty_numbers_are_not_a_list() {
    assert_eq!(find_list(list_text(50, 0)), Vec::<i64>::new());
    assert_eq!(find_list(String::new()), Vec::<i64>::new());
}

#[test]
fn leftmost_list_wins() {
    let text = format!("{} and {}", list_text(60, 1), list_text(55, 1000));
    assert_eq!(find_list(text).len(), 60);
    let text = format!("[{}", list_text(51, 7));
    assert_eq!(find_list(text)[0], 7);
}

#[test]
fn broken_lists_are_skipped() {
    // a space inside the list, or a trailing comma, breaks it
    let broken = list_text(51, 0).replace(",5,", ", 5,");
    assert_eq!(find_list(broken.clone()), Vec::<i64>::new());
    let trailing = format!("{},]", &list_text(51, 0)[..list_text(51, 0).len() - 1]);
    assert_eq!(find_list(trailing), Vec::<i64>::new());
    let text = format!("{} {}", broken, list_text(52, 3));
    assert_eq!(find_list(text).len(), 52);
}

#[test]
fn large_numbers_and_leading_zeros() {
    let mut nums: Vec<String> = (0..51).map(|i| i.to_string()).collect();
    nums[0] = "9223372036854775807".to_string();
    nums[1] = "007".to_string();
    let text = format!("é[{}]", nums.join(","));
    let found = find_list(text);
    assert_eq!(found[0], i64::MAX);
    assert_eq!(found[1], 7);
    assert_eq!(found.len(), 51);
}
