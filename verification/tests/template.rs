use cargo_ebuild::template::{all_slots, is_at, occurs, Slot};

fn chars(s: &str) -> Vec<char> {
    s.chars().collect()
}

#[test]
fn there_are_ten_slots_with_their_names() {
    let names: Vec<&str> = all_slots().iter().map(|s| s.as_str()).collect();
    assert_eq!(
        names,
        vec![
            "description",
            "homepage",
            "license",
            "crates",
            "git_crates",
            "package_name",
            "package_version",
            "generator_name",
            "generator_version",
            "generation_year",
        ]
    );
}

#[test]
fn a_marker_is_the_name_between_braces() {
    assert_eq!(Slot::Crates.marker_chars(), chars("{crates}"));
    assert_eq!(Slot::GenerationYear.marker_chars(), chars("{generation_year}"));
}

#[test]
fn is_at_compares_at_the_given_place() {
    let text = chars("ab{crates}cd");
    let marker = chars("{crates}");
    assert!(is_at(&text, 2, &marker));
    assert!(!is_at(&text, 1, &marker));
    assert!(!is_at(&text, 3, &marker));
    assert!(!is_at(&text, 5, &marker));
    assert!(!is_at(&text, 12, &marker));
    assert!(!is_at(&text, 13, &marker));
    assert!(!is_at(&text, usize::MAX, &marker));
}

#[test]
fn the_empty_pattern_stands_everywhere_in_the_text() {
    let text = chars("ab");
    assert!(is_at(&text, 0, &Vec::new()));
    assert!(is_at(&text, 2, &Vec::new()));
    assert!(!is_at(&text, 3, &Vec::new()));
    assert!(occurs(&Vec::new(), &Vec::new()));
}

#[test]
fn occurs_finds_a_pattern_anywhere() {
    let marker = chars("{license}");
    assert!(occurs(&chars("{license}"), &marker));
    assert!(occurs(&chars("LICENSE=\"{license}\""), &marker));
    assert!(occurs(&chars("x{license}"), &marker));
    assert!(!occurs(&chars("LICENSE=\"{license\""), &marker));
    assert!(!occurs(&chars("{licens}e}"), &marker));
    assert!(!occurs(&chars(""), &marker));
    assert!(!occurs(&chars("{LICENSE}"), &marker));
}
