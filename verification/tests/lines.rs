use cargo_ebuild::lines::{copy_lines, dedup_lines, join_lines, sort_lines, unique_sorted};

fn lines(texts: &[&str]) -> Vec<String> {
    texts.iter().map(|t| t.to_string()).collect()
}

#[test]
fn sort_lines_orders_by_text_and_keeps_repeats() {
    let given = lines(&["b\n", "a\n", "c\n", "a\n", "ab\n", ""]);
    assert_eq!(sort_lines(&given), lines(&["", "a\n", "a\n", "ab\n", "b\n", "c\n"]));
}

#[test]
fn sort_lines_agrees_with_the_standard_sort() {
    let given = lines(&[
        "serde-1.0.0\n", "libc-0.2.40\n", "serde-0.9.15\n", "Serde-1.0.0\n", "serde_derive-1.0.0\n",
        "libc-0.2.40\n", "https://alt.example/index", "époque-1.0.0\n", "a-10.0.0\n", "a-9.0.0\n",
    ]);
    let mut expected = given.clone();
    expected.sort();
    assert_eq!(sort_lines(&given), expected);
}

#[test]
fn sort_lines_of_nothing_is_nothing() {
    assert_eq!(sort_lines(&Vec::new()), Vec::<String>::new());
}

#[test]
fn dedup_lines_drops_a_line_equal_to_its_predecessor() {
    let given = lines(&["a\n", "a\n", "b\n", "a\n", "a\n", "a\n", "c\n"]);
    assert_eq!(dedup_lines(&given), lines(&["a\n", "b\n", "a\n", "c\n"]));
    assert_eq!(dedup_lines(&lines(&["x"])), lines(&["x"]));
    assert_eq!(dedup_lines(&Vec::new()), Vec::<String>::new());
}

#[test]
fn unique_sorted_gives_each_different_line_once_in_order() {
    let given = lines(&["b\n", "a\n", "b\n", "c\n", "a\n", "b\n"]);
    assert_eq!(unique_sorted(&given), lines(&["a\n", "b\n", "c\n"]));
}

#[test]
fn unique_sorted_does_not_depend_on_the_order_given() {
    let one = lines(&["x-1\n", "y-2\n", "x-1\n", "a-0\n"]);
    let other = lines(&["a-0\n", "x-1\n", "y-2\n", "y-2\n"]);
    assert_eq!(unique_sorted(&one), unique_sorted(&other));
}

#[test]
fn join_lines_puts_nothing_between_the_lines() {
    assert_eq!(join_lines(&lines(&["a-1\n", "b-2\n"])), "a-1\nb-2\n");
    assert_eq!(join_lines(&lines(&["https://alt.example/", "b-2\n"])), "https://alt.example/b-2\n");
    assert_eq!(join_lines(&Vec::new()), "");
}

#[test]
fn copy_lines_copies() {
    let given = lines(&["a\n", "", "b"]);
    assert_eq!(copy_lines(&given), given);
}
