use cargo_ebuild::source::{classify, ClassifyError, OriginDescriptor, SourceOrigin};

#[test]
fn a_registry_is_classified_as_registry() {
    let origin = OriginDescriptor::registry("https://github.com/rust-lang/crates.io-index");
    assert_eq!(classify(&origin), Ok(SourceOrigin::Registry));
}

#[test]
fn a_path_is_classified_as_path() {
    let origin = OriginDescriptor::path("/home/me/project/local-dep");
    assert_eq!(classify(&origin), Ok(SourceOrigin::Path));
}

#[test]
fn a_git_repository_carries_its_url_and_reference() {
    let origin = OriginDescriptor::git("https://git.example/mylib", Some("v0.3.0".to_string()));
    assert_eq!(
        classify(&origin),
        Ok(SourceOrigin::Git {
            url: "https://git.example/mylib".to_string(),
            reference: "v0.3.0".to_string(),
        })
    );
}

#[test]
fn a_git_repository_without_a_readable_reference_is_an_error() {
    let origin = OriginDescriptor::git("https://git.example/mylib", None);
    assert_eq!(classify(&origin), Err(ClassifyError::ReferenceUnresolvable));
}

#[test]
fn an_alternate_registry_carries_its_url() {
    let origin = OriginDescriptor::alternate_registry("https://alt.example/index");
    assert_eq!(
        classify(&origin),
        Ok(SourceOrigin::AlternateRegistry { url: "https://alt.example/index".to_string() })
    );
}

#[test]
fn anything_else_is_unknown() {
    let origin = OriginDescriptor::other("directory+/vendor");
    assert_eq!(classify(&origin), Ok(SourceOrigin::Unknown));
}

#[test]
fn the_kinds_are_tried_in_order() {
    let mut origin = OriginDescriptor {
        registry: true,
        path: true,
        git: true,
        alternate_registry: true,
        url: "u".to_string(),
        reference: None,
    };
    assert_eq!(classify(&origin), Ok(SourceOrigin::Registry));
    origin.registry = false;
    assert_eq!(classify(&origin), Ok(SourceOrigin::Path));
    origin.path = false;
    assert_eq!(classify(&origin), Err(ClassifyError::ReferenceUnresolvable));
    origin.reference = Some("master".to_string());
    assert_eq!(
        classify(&origin),
        Ok(SourceOrigin::Git { url: "u".to_string(), reference: "master".to_string() })
    );
    origin.git = false;
    assert_eq!(classify(&origin), Ok(SourceOrigin::AlternateRegistry { url: "u".to_string() }));
    origin.alternate_registry = false;
    assert_eq!(classify(&origin), Ok(SourceOrigin::Unknown));
}

#[test]
fn a_reference_is_ignored_where_the_origin_is_no_git_repository() {
    let origin = OriginDescriptor {
        registry: false,
        path: true,
        git: false,
        alternate_registry: false,
        url: "/p".to_string(),
        reference: Some("master".to_string()),
    };
    assert_eq!(classify(&origin), Ok(SourceOrigin::Path));
}

#[test]
fn classification_is_deterministic() {
    let origin = OriginDescriptor::git("https://git.example/mylib", Some("abc123".to_string()));
    assert_eq!(classify(&origin), classify(&origin.clone()));
}
