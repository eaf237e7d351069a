//! Templates: texts with named slots.
//!
//! A slot is written as its name between braces. A template is read from
//! left to right: where the marker of a slot starts, the slot stands, and
//! reading goes on behind the marker. Every other character stands for
//! itself.

use crate::text::to_chars;
use vstd::prelude::*;
use vstd::string::*;

verus! {

/// The named slots of a recipe template.
#[derive(Clone, Copy, Debug, PartialEq, Eq)]
pub enum Slot {
    /// The summary of the project.
    Description,
    /// Its homepage.
    Homepage,
    /// Its license.
    License,
    /// The dependency lines, joined.
    Crates,
    /// The git lines, joined.
    GitCrates,
    /// The name of the package.
    PackageName,
    /// The version of the package.
    PackageVersion,
    /// The name of the program that generates the recipe.
    GeneratorName,
    /// The version of that program.
    GeneratorVersion,
    /// The year in which the recipe is generated.
    GenerationYear,
}

impl Slot {
    /// The name of the slot.
    pub open spec fn name(self) -> Seq<char> {
        match self {
            Slot::Description => "description"@,
            Slot::Homepage => "homepage"@,
            Slot::License => "license"@,
            Slot::Crates => "crates"@,
            Slot::GitCrates => "git_crates"@,
            Slot::PackageName => "package_name"@,
            Slot::PackageVersion => "package_version"@,
            Slot::GeneratorName => "generator_name"@,
            Slot::GeneratorVersion => "generator_version"@,
            Slot::GenerationYear => "generation_year"@,
        }
    }

    /// The text that marks the slot in a template: its name between braces.
    pub open spec fn marker(self) -> Seq<char> {
        seq!['{'] + self.name() + seq!['}']
    }

    /// The name of the slot.
    pub fn as_str(self) -> (name: &'static str)
        ensures
            name@ == self.name(),
    {
        match self {
            Slot::Description => "description",
            Slot::Homepage => "homepage",
            Slot::License => "license",
            Slot::Crates => "crates",
            Slot::GitCrates => "git_crates",
            Slot::PackageName => "package_name",
            Slot::PackageVersion => "package_version",
            Slot::GeneratorName => "generator_name",
            Slot::GeneratorVersion => "generator_version",
            Slot::GenerationYear => "generation_year",
        }
    }

    /// The characters of the slot's marker.
    pub fn marker_chars(self) -> (marker: Vec<char>)
        ensures
            marker@ == self.marker(),
    {
        let name = to_chars(self.as_str());
        let mut marker: Vec<char> = Vec::new();
        marker.push('{');
        let mut i: usize = 0;
        while i < name.len()
            invariant
                i <= name.len(),
                marker@ == seq!['{'] + name@.take(i as int),
            decreases name.len() - i,
        {
            marker.push(name[i]);
            i += 1;
        }
        marker.push('}');
        assert(name@.take(name.len() as int) =~= name@);
        marker
    }
}

/// All the slots, in the order in which a template is searched for them.
pub open spec fn slots() -> Seq<Slot> {
    seq![
        Slot::Description,
        Slot::Homepage,
        Slot::License,
        Slot::Crates,
        Slot::GitCrates,
        Slot::PackageName,
        Slot::PackageVersion,
        Slot::GeneratorName,
        Slot::GeneratorVersion,
        Slot::GenerationYear,
    ]
}

/// Every slot is one of `slots()`.
pub proof fn lemma_slots_complete(slot: Slot)
    ensures
        slots().contains(slot),
{
    let k: int = match slot {
        Slot::Description => 0,
        Slot::Homepage => 1,
        Slot::License => 2,
        Slot::Crates => 3,
        Slot::GitCrates => 4,
        Slot::PackageName => 5,
        Slot::PackageVersion => 6,
        Slot::GeneratorName => 7,
        Slot::GeneratorVersion => 8,
        Slot::GenerationYear => 9,
    };
    assert(slots()[k] == slot);
}

/// All the slots, in the order of `slots()`.
pub fn all_slots() -> (all: Vec<Slot>)
    ensures
        all@ == slots(),
{
    let all = vec![
        Slot::Description,
        Slot::Homepage,
        Slot::License,
        Slot::Crates,
        Slot::GitCrates,
        Slot::PackageName,
        Slot::PackageVersion,
        Slot::GeneratorName,
        Slot::GeneratorVersion,
        Slot::GenerationYear,
    ];
    assert(all@ =~= slots());
    all
}

/// `pattern` stands in `text` at the place `at`.
pub open spec fn starts_at(text: Seq<char>, at: int, pattern: Seq<char>) -> bool {
    &&& 0 <= at
    &&& at + pattern.len() <= text.len()
    &&& text.subrange(at, at + pattern.len()) == pattern
}

/// Tells whether `pattern` stands in `text` at the place `at`.
pub fn is_at(text: &Vec<char>, at: usize, pattern: &Vec<char>) -> (found: bool)
    ensures
        found == starts_at(text@, at as int, pattern@),
{
    if at > text.len() || pattern.len() > text.len() - at {
        return false;
    }
    let ghost part = text@.subrange(at as int, at + pattern.len());
    let mut i: usize = 0;
    while i < pattern.len()
        invariant
            i <= pattern.len(),
            at + pattern.len() <= text.len(),
            part == text@.subrange(at as int, at + pattern.len()),
            forall|j: int| 0 <= j < i ==> part[j] == pattern@[j],
        decreases pattern.len() - i,
    {
        if text[at + i] != pattern[i] {
            assert(part[i as int] != pattern@[i as int]);
            return false;
        }
        i += 1;
    }
    assert(part =~= pattern@);
    true
}

/// `pattern` stands somewhere in `text`.
pub open spec fn occurs_in(text: Seq<char>, pattern: Seq<char>) -> bool {
    exists|at: int| starts_at(text, at, pattern)
}

/// Tells whether `pattern` stands somewhere in `text`.
pub fn occurs(text: &Vec<char>, pattern: &Vec<char>) -> (found: bool)
    ensures
        found == occurs_in(text@, pattern@),
{
    let mut at: usize = 0;
    loop
        invariant
            at <= text.len(),
            forall|earlier: int| 0 <= earlier < at ==> !starts_at(text@, earlier, pattern@),
        decreases text.len() - at,
    {
        if is_at(text, at, pattern) {
            return true;
        }
        if at == text.len() {
            return false;
        }
        at += 1;
    }
}

} // verus!
