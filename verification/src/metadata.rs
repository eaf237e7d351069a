//! The metadata of the project: what its manifest holds, and what the recipe
//! takes from it.

use crate::source::optional_text;
use crate::text::{lemma_trimmed_is_tight, tight, trim, trimmed};
use vstd::prelude::*;
use vstd::string::*;

verus! {

/// The metadata of a project as its manifest gives it.
#[derive(Clone, Debug, PartialEq, Eq)]
pub struct ProjectMetadata {
    pub name: String,
    pub version: String,
    pub description: Option<String>,
    pub homepage: Option<String>,
    pub repository: Option<String>,
    pub license: Option<String>,
}

/// The mathematical content of a [`ProjectMetadata`].
pub struct MetadataModel {
    pub name: Seq<char>,
    pub version: Seq<char>,
    pub description: Option<Seq<char>>,
    pub homepage: Option<Seq<char>>,
    pub repository: Option<Seq<char>>,
    pub license: Option<Seq<char>>,
}

impl View for ProjectMetadata {
    type V = MetadataModel;

    open spec fn view(&self) -> MetadataModel {
        MetadataModel {
            name: self.name@,
            version: self.version@,
            description: optional_text(self.description),
            homepage: optional_text(self.homepage),
            repository: optional_text(self.repository),
            license: optional_text(self.license),
        }
    }
}

/// The metadata that goes into the recipe.
#[derive(Clone, Debug, PartialEq, Eq)]
pub struct ResolvedMetadata {
    pub summary: String,
    pub homepage: String,
    pub license: String,
    pub version: String,
}

/// The mathematical content of a [`ResolvedMetadata`].
pub struct ResolvedMetadataModel {
    pub summary: Seq<char>,
    pub homepage: Seq<char>,
    pub license: Seq<char>,
    pub version: Seq<char>,
}

impl View for ResolvedMetadata {
    type V = ResolvedMetadataModel;

    open spec fn view(&self) -> ResolvedMetadataModel {
        ResolvedMetadataModel {
            summary: self.summary@,
            homepage: self.homepage@,
            license: self.license@,
            version: self.version@,
        }
    }
}

/// Why the metadata of a project cannot go into a recipe.
#[derive(Clone, Copy, Debug, PartialEq, Eq)]
pub enum MetadataError {
    /// The project has no version: the field is empty or all whitespace.
    MissingVersion,
}

/// The first candidate that is present, or `fallback` if none is.
pub open spec fn first_present(candidates: Seq<Option<Seq<char>>>, fallback: Seq<char>) -> Seq<
    char,
>
    decreases candidates.len(),
{
    if candidates.len() == 0 {
        fallback
    } else {
        match candidates.first() {
            Some(text) => text,
            None => first_present(candidates.drop_first(), fallback),
        }
    }
}

/// The texts of a list of candidates.
pub open spec fn candidate_texts(candidates: Seq<&Option<String>>) -> Seq<Option<Seq<char>>> {
    candidates.map_values(|c: &Option<String>| optional_text(*c))
}

/// Walks a fallback chain: returns the first candidate that is present, or
/// `fallback` if none is.
pub fn choose_first(candidates: &Vec<&Option<String>>, fallback: &str) -> (chosen: String)
    ensures
        chosen@ == first_present(candidate_texts(candidates@), fallback@),
{
    let ghost all = candidate_texts(candidates@);
    let mut i: usize = 0;
    assert(all.subrange(0, all.len() as int) =~= all);
    while i < candidates.len()
        invariant
            i <= candidates.len(),
            all == candidate_texts(candidates@),
            first_present(all, fallback@) == first_present(
                all.subrange(i as int, all.len() as int),
                fallback@,
            ),
        decreases candidates.len() - i,
    {
        proof {
            let rest = all.subrange(i as int, all.len() as int);
            assert(rest.first() == optional_text(*candidates@[i as int]));
            assert(rest.drop_first() =~= all.subrange(i + 1, all.len() as int));
        }
        match candidates[i] {
            Some(text) => {
                return text.clone();
            },
            None => {},
        }
        i += 1;
    }
    String::from_str(fallback)
}

/// The license of a project that names none.
pub open spec fn unknown_license() -> Seq<char> {
    "unknown license"@
}

/// The metadata that goes into the recipe of a project: each field is the
/// first present value of its fallback chain, without surrounding whitespace.
/// A project without a version has none.
pub open spec fn resolved_metadata(raw: MetadataModel) -> Result<
    ResolvedMetadataModel,
    MetadataError,
> {
    if trimmed(raw.version).len() == 0 {
        Err(MetadataError::MissingVersion)
    } else {
        Ok(
            ResolvedMetadataModel {
                summary: trimmed(first_present(seq![raw.description], raw.name)),
                homepage: trimmed(
                    first_present(seq![raw.homepage, raw.repository], Seq::empty()),
                ),
                license: trimmed(first_present(seq![raw.license], unknown_license())),
                version: trimmed(raw.version),
            },
        )
    }
}

/// What each field falls back to: the summary to the name of the package,
/// the homepage to the repository and then to the empty text, the license to
/// the placeholder; and a value that is present is the one taken. Whether
/// there is a result depends on the version alone, which is kept as it is but
/// for the whitespace around it.
pub proof fn lemma_fallback_chain(raw: MetadataModel)
    ensures
        resolved_metadata(raw) is Err <==> trimmed(raw.version).len() == 0,
        resolved_metadata(raw) matches Ok(resolved) ==> {
            &&& resolved.version == trimmed(raw.version)
            &&& resolved.summary == trimmed(
                match raw.description {
                    Some(description) => description,
                    None => raw.name,
                },
            )
            &&& resolved.homepage == trimmed(
                match (raw.homepage, raw.repository) {
                    (Some(homepage), _) => homepage,
                    (None, Some(repository)) => repository,
                    (None, None) => Seq::empty(),
                },
            )
            &&& resolved.license == trimmed(
                match raw.license {
                    Some(license) => license,
                    None => unknown_license(),
                },
            )
        },
{
    reveal_with_fuel(first_present, 3);
    let homepage = seq![raw.homepage, raw.repository];
    assert(homepage.drop_first() =~= seq![raw.repository]);
}

/// No field of the resolved metadata begins or ends with whitespace, and the
/// version is not empty.
pub proof fn lemma_resolved_fields_are_tight(raw: MetadataModel)
    ensures
        resolved_metadata(raw) matches Ok(resolved) ==> {
            &&& tight(resolved.summary)
            &&& tight(resolved.homepage)
            &&& tight(resolved.license)
            &&& tight(resolved.version)
            &&& resolved.version.len() > 0
        },
{
    lemma_trimmed_is_tight(first_present(seq![raw.description], raw.name));
    lemma_trimmed_is_tight(first_present(seq![raw.homepage, raw.repository], Seq::empty()));
    lemma_trimmed_is_tight(first_present(seq![raw.license], unknown_license()));
    lemma_trimmed_is_tight(raw.version);
}

/// The mathematical content of what `resolve_metadata` returns.
pub open spec fn resolution(r: Result<ResolvedMetadata, MetadataError>) -> Result<
    ResolvedMetadataModel,
    MetadataError,
> {
    match r {
        Ok(metadata) => Ok(metadata@),
        Err(e) => Err(e),
    }
}

/// Computes the metadata that goes into the recipe.
pub fn resolve_metadata(raw: &ProjectMetadata) -> (r: Result<ResolvedMetadata, MetadataError>)
    ensures
        resolution(r) == resolved_metadata(raw@),
{
    let version = trim(raw.version.as_str());
    if version.as_str().is_empty() {
        return Err(MetadataError::MissingVersion);
    }
    let description: Vec<&Option<String>> = vec![&raw.description];
    let homepage: Vec<&Option<String>> = vec![&raw.homepage, &raw.repository];
    let license: Vec<&Option<String>> = vec![&raw.license];
    proof {
        reveal_strlit("");
        assert(""@ =~= Seq::<char>::empty());
        assert(candidate_texts(description@) =~= seq![raw@.description]);
        assert(candidate_texts(homepage@) =~= seq![raw@.homepage, raw@.repository]);
        assert(candidate_texts(license@) =~= seq![raw@.license]);
    }
    let summary = choose_first(&description, raw.name.as_str());
    let homepage = choose_first(&homepage, "");
    let license = choose_first(&license, "unknown license");
    Ok(
        ResolvedMetadata {
            summary: trim(summary.as_str()),
            homepage: trim(homepage.as_str()),
            license: trim(license.as_str()),
            version,
        },
    )
}

} // verus!
