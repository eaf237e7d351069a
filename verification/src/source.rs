//! Where a resolved package comes from, and how that is classified.

use vstd::prelude::*;
use vstd::string::*;

verus! {

/// What a resolver recorded about the origin of a package: the questions its
/// tag answers, and its locator.
#[derive(Clone, Debug, PartialEq, Eq)]
pub struct OriginDescriptor {
    /// The origin is an index of the package registry.
    pub registry: bool,
    /// The origin is a path in the local filesystem.
    pub path: bool,
    /// The origin is a git repository.
    pub git: bool,
    /// The origin is a registry other than the default one.
    pub alternate_registry: bool,
    /// The locator: the URL of the registry or repository, or the path.
    pub url: String,
    /// The resolved git reference (tag, branch or revision) in readable form,
    /// if it has one.
    pub reference: Option<String>,
}

/// The mathematical content of an [`OriginDescriptor`].
pub struct OriginModel {
    pub registry: bool,
    pub path: bool,
    pub git: bool,
    pub alternate_registry: bool,
    pub url: Seq<char>,
    pub reference: Option<Seq<char>>,
}

/// The text of an optional string.
pub open spec fn optional_text(s: Option<String>) -> Option<Seq<char>> {
    match s {
        Some(s) => Some(s@),
        None => None,
    }
}

impl View for OriginDescriptor {
    type V = OriginModel;

    open spec fn view(&self) -> OriginModel {
        OriginModel {
            registry: self.registry,
            path: self.path,
            git: self.git,
            alternate_registry: self.alternate_registry,
            url: self.url@,
            reference: optional_text(self.reference),
        }
    }
}

impl OriginDescriptor {
    /// The descriptor of the package registry at `url`.
    pub fn registry(url: &str) -> (origin: OriginDescriptor)
        ensures
            origin@ == (OriginModel {
                registry: true,
                path: false,
                git: false,
                alternate_registry: false,
                url: url@,
                reference: None,
            }),
    {
        OriginDescriptor {
            registry: true,
            path: false,
            git: false,
            alternate_registry: false,
            url: String::from_str(url),
            reference: None,
        }
    }

    /// The descriptor of a path in the local filesystem.
    pub fn path(path: &str) -> (origin: OriginDescriptor)
        ensures
            origin@ == (OriginModel {
                registry: false,
                path: true,
                git: false,
                alternate_registry: false,
                url: path@,
                reference: None,
            }),
    {
        OriginDescriptor {
            registry: false,
            path: true,
            git: false,
            alternate_registry: false,
            url: String::from_str(path),
            reference: None,
        }
    }

    /// The descriptor of the git repository at `url`, with the readable form
    /// of the resolved reference, if it has one.
    pub fn git(url: &str, reference: Option<String>) -> (origin: OriginDescriptor)
        ensures
            origin@ == (OriginModel {
                registry: false,
                path: false,
                git: true,
                alternate_registry: false,
                url: url@,
                reference: optional_text(reference),
            }),
    {
        OriginDescriptor {
            registry: false,
            path: false,
            git: true,
            alternate_registry: false,
            url: String::from_str(url),
            reference,
        }
    }

    /// The descriptor of the alternate registry with the base URL `url`.
    pub fn alternate_registry(url: &str) -> (origin: OriginDescriptor)
        ensures
            origin@ == (OriginModel {
                registry: false,
                path: false,
                git: false,
                alternate_registry: true,
                url: url@,
                reference: None,
            }),
    {
        OriginDescriptor {
            registry: false,
            path: false,
            git: false,
            alternate_registry: true,
            url: String::from_str(url),
            reference: None,
        }
    }

    /// A descriptor of none of the known kinds.
    pub fn other(url: &str) -> (origin: OriginDescriptor)
        ensures
            origin@ == (OriginModel {
                registry: false,
                path: false,
                git: false,
                alternate_registry: false,
                url: url@,
                reference: None,
            }),
    {
        OriginDescriptor {
            registry: false,
            path: false,
            git: false,
            alternate_registry: false,
            url: String::from_str(url),
            reference: None,
        }
    }
}

/// The origin of a package, classified.
#[derive(Clone, Debug, PartialEq, Eq)]
pub enum SourceOrigin {
    /// The package registry.
    Registry,
    /// A path in the local filesystem: the package belongs to the project.
    Path,
    /// A git repository, at the reference that was resolved.
    Git { url: String, reference: String },
    /// A registry other than the default one, with its base URL.
    AlternateRegistry { url: String },
    /// None of the kinds above.
    Unknown,
}

/// The mathematical content of a [`SourceOrigin`].
pub enum OriginKind {
    Registry,
    Path,
    Git { url: Seq<char>, reference: Seq<char> },
    AlternateRegistry { url: Seq<char> },
    Unknown,
}

impl View for SourceOrigin {
    type V = OriginKind;

    open spec fn view(&self) -> OriginKind {
        match *self {
            SourceOrigin::Registry => OriginKind::Registry,
            SourceOrigin::Path => OriginKind::Path,
            SourceOrigin::Git { url, reference } => OriginKind::Git {
                url: url@,
                reference: reference@,
            },
            SourceOrigin::AlternateRegistry { url } => OriginKind::AlternateRegistry { url: url@ },
            SourceOrigin::Unknown => OriginKind::Unknown,
        }
    }
}

/// Why an origin could not be classified.
#[derive(Clone, Copy, Debug, PartialEq, Eq)]
pub enum ClassifyError {
    /// The origin is a git repository whose reference has no readable form.
    ReferenceUnresolvable,
}

/// The classification of an origin: the first kind that the descriptor
/// answers to, in the order registry, path, git, alternate registry.
pub open spec fn classification(origin: OriginModel) -> Result<OriginKind, ClassifyError> {
    if origin.registry {
        Ok(OriginKind::Registry)
    } else if origin.path {
        Ok(OriginKind::Path)
    } else if origin.git {
        match origin.reference {
            Some(reference) => Ok(OriginKind::Git { url: origin.url, reference }),
            None => Err(ClassifyError::ReferenceUnresolvable),
        }
    } else if origin.alternate_registry {
        Ok(OriginKind::AlternateRegistry { url: origin.url })
    } else {
        Ok(OriginKind::Unknown)
    }
}

/// The mathematical content of what `classify` returns.
pub open spec fn classified(r: Result<SourceOrigin, ClassifyError>) -> Result<
    OriginKind,
    ClassifyError,
> {
    match r {
        Ok(origin) => Ok(origin@),
        Err(e) => Err(e),
    }
}

/// Classifies the origin of one package.
pub fn classify(origin: &OriginDescriptor) -> (r: Result<SourceOrigin, ClassifyError>)
    ensures
        classified(r) == classification(origin@),
{
    if origin.registry {
        Ok(SourceOrigin::Registry)
    } else if origin.path {
        Ok(SourceOrigin::Path)
    } else if origin.git {
        match &origin.reference {
            Some(reference) => Ok(
                SourceOrigin::Git { url: origin.url.clone(), reference: reference.clone() },
            ),
            None => Err(ClassifyError::ReferenceUnresolvable),
        }
    } else if origin.alternate_registry {
        Ok(SourceOrigin::AlternateRegistry { url: origin.url.clone() })
    } else {
        Ok(SourceOrigin::Unknown)
    }
}

} // verus!
