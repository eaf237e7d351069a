use cargo_ebuild::metadata::{choose_first, resolve_metadata};
use cargo_ebuild::metadata::{MetadataError, ProjectMetadata, ResolvedMetadata};

fn bare(name: &str, version: &str) -> ProjectMetadata {
    ProjectMetadata {
        name: name.to_string(),
        version: version.to_string(),
        description: None,
        homepage: None,
        repository: None,
        license: None,
    }
}

#[test]
fn summary_falls_back_to_the_name() {
    let resolved = resolve_metadata(&bare("foo", "0.1.0")).unwrap();
    assert_eq!(resolved.summary, "foo");
}

#[test]
fn summary_is_the_description_if_there_is_one() {
    let mut raw = bare("foo", "0.1.0");
    raw.description = Some("Generates an ebuild".to_string());
    assert_eq!(resolve_metadata(&raw).unwrap().summary, "Generates an ebuild");
}

#[test]
fn homepage_falls_back_to_the_repository() {
    let mut raw = bare("foo", "0.1.0");
    raw.repository = Some("https://x.example".to_string());
    assert_eq!(resolve_metadata(&raw).unwrap().homepage, "https://x.example");
}

#[test]
fn homepage_is_empty_without_homepage_and_repository() {
    assert_eq!(resolve_metadata(&bare("foo", "0.1.0")).unwrap().homepage, "");
}

#[test]
fn homepage_comes_before_the_repository() {
    let mut raw = bare("foo", "0.1.0");
    raw.homepage = Some("https://home.example".to_string());
    raw.repository = Some("https://repo.example".to_string());
    assert_eq!(resolve_metadata(&raw).unwrap().homepage, "https://home.example");
}

#[test]
fn license_falls_back_to_the_placeholder() {
    assert_eq!(resolve_metadata(&bare("foo", "0.1.0")).unwrap().license, "unknown license");
}

#[test]
fn license_is_taken_if_there_is_one() {
    let mut raw = bare("foo", "0.1.0");
    raw.license = Some("MIT/Apache-2.0".to_string());
    assert_eq!(resolve_metadata(&raw).unwrap().license, "MIT/Apache-2.0");
}

#[test]
fn fields_are_trimmed() {
    let raw = ProjectMetadata {
        name: "foo".to_string(),
        version: " 1.2.3\n".to_string(),
        description: Some("\n  A summary.  \n".to_string()),
        homepage: Some("\thttps://home.example ".to_string()),
        repository: None,
        license: Some(" MIT ".to_string()),
    };
    assert_eq!(
        resolve_metadata(&raw),
        Ok(ResolvedMetadata {
            summary: "A summary.".to_string(),
            homepage: "https://home.example".to_string(),
            license: "MIT".to_string(),
            version: "1.2.3".to_string(),
        })
    );
}

#[test]
fn a_name_used_as_summary_is_trimmed_too() {
    assert_eq!(resolve_metadata(&bare(" foo ", "0.1.0")).unwrap().summary, "foo");
}

#[test]
fn a_present_but_blank_value_is_not_replaced() {
    let mut raw = bare("foo", "0.1.0");
    raw.description = Some("  ".to_string());
    raw.homepage = Some("".to_string());
    raw.repository = Some("https://repo.example".to_string());
    raw.license = Some(" ".to_string());
    let resolved = resolve_metadata(&raw).unwrap();
    assert_eq!(resolved.summary, "");
    assert_eq!(resolved.homepage, "");
    assert_eq!(resolved.license, "");
}

#[test]
fn a_missing_version_is_an_error() {
    assert_eq!(resolve_metadata(&bare("foo", "")), Err(MetadataError::MissingVersion));
    assert_eq!(resolve_metadata(&bare("foo", " \n")), Err(MetadataError::MissingVersion));
}

#[test]
fn the_version_is_kept() {
    assert_eq!(resolve_metadata(&bare("foo", "1.0.0")).unwrap().version, "1.0.0");
}

#[test]
fn choose_first_takes_the_first_present_candidate() {
    let a = Some("a".to_string());
    let b = Some("b".to_string());
    let none: Option<String> = None;
    assert_eq!(choose_first(&vec![&a, &b], "z"), "a");
    assert_eq!(choose_first(&vec![&none, &b], "z"), "b");
    assert_eq!(choose_first(&vec![&none, &none, &a, &b], "z"), "a");
    assert_eq!(choose_first(&vec![&none, &none], "z"), "z");
    assert_eq!(choose_first(&Vec::new(), "z"), "z");
}
