//! The recipe document: everything that goes into the slots of a template.

use crate::aggregate::{Aggregate, AggregateModel};
use crate::lines::{copy_lines, join_lines, strictly_ascending, texts};
use crate::metadata::{ResolvedMetadata, ResolvedMetadataModel};
use crate::template::Slot;
use crate::text::{decimal, decimal_text};
use vstd::prelude::*;
use vstd::string::*;

verus! {

/// The program that generates the recipe.
#[derive(Clone, Debug, PartialEq, Eq)]
pub struct Generator {
    pub name: String,
    pub version: String,
}

/// The mathematical content of a [`Generator`].
pub struct GeneratorModel {
    pub name: Seq<char>,
    pub version: Seq<char>,
}

impl View for Generator {
    type V = GeneratorModel;

    open spec fn view(&self) -> GeneratorModel {
        GeneratorModel { name: self.name@, version: self.version@ }
    }
}

/// Everything that a recipe says.
///
/// The dependency lines of a `RecipeDocument` are always in strictly
/// ascending order, so that no line occurs twice. A document is made once,
/// by [`RecipeDocument::assemble`], and not changed afterwards.
#[derive(Debug, PartialEq, Eq)]
pub struct RecipeDocument {
    summary: String,
    homepage: String,
    license: String,
    dependency_lines: Vec<String>,
    git_lines: Vec<String>,
    package_name: String,
    package_version: String,
    generator_name: String,
    generator_version: String,
    generation_year: i64,
}

/// The mathematical content of a [`RecipeDocument`].
pub struct DocumentModel {
    pub summary: Seq<char>,
    pub homepage: Seq<char>,
    pub license: Seq<char>,
    pub dependency_lines: Seq<Seq<char>>,
    pub git_lines: Seq<Seq<char>>,
    pub package_name: Seq<char>,
    pub package_version: Seq<char>,
    pub generator_name: Seq<char>,
    pub generator_version: Seq<char>,
    pub generation_year: int,
}

impl View for RecipeDocument {
    type V = DocumentModel;

    closed spec fn view(&self) -> DocumentModel {
        DocumentModel {
            summary: self.summary@,
            homepage: self.homepage@,
            license: self.license@,
            dependency_lines: texts(self.dependency_lines@),
            git_lines: texts(self.git_lines@),
            package_name: self.package_name@,
            package_version: self.package_version@,
            generator_name: self.generator_name@,
            generator_version: self.generator_version@,
            generation_year: self.generation_year as int,
        }
    }
}

/// The document of a package: its metadata, what its dependencies give, the
/// generator, and the year.
pub open spec fn document_of(
    package_name: Seq<char>,
    metadata: ResolvedMetadataModel,
    found: AggregateModel,
    generator: GeneratorModel,
    generation_year: int,
) -> DocumentModel {
    DocumentModel {
        summary: metadata.summary,
        homepage: metadata.homepage,
        license: metadata.license,
        dependency_lines: found.dependency_lines,
        git_lines: found.git_lines,
        package_name,
        package_version: metadata.version,
        generator_name: generator.name,
        generator_version: generator.version,
        generation_year,
    }
}

/// The text that a document puts into a slot. The lines are joined with
/// nothing between them; the year is written as a decimal numeral.
pub open spec fn slot_value(document: DocumentModel, slot: Slot) -> Seq<char> {
    match slot {
        Slot::Description => document.summary,
        Slot::Homepage => document.homepage,
        Slot::License => document.license,
        Slot::Crates => document.dependency_lines.flatten(),
        Slot::GitCrates => document.git_lines.flatten(),
        Slot::PackageName => document.package_name,
        Slot::PackageVersion => document.package_version,
        Slot::GeneratorName => document.generator_name,
        Slot::GeneratorVersion => document.generator_version,
        Slot::GenerationYear => decimal(document.generation_year),
    }
}

impl RecipeDocument {
    #[verifier::type_invariant]
    spec fn ordered(&self) -> bool {
        strictly_ascending(texts(self.dependency_lines@))
    }

    /// Makes the document of a package.
    pub fn assemble(
        package_name: &str,
        metadata: ResolvedMetadata,
        found: &Aggregate,
        generator: &Generator,
        generation_year: i64,
    ) -> (document: RecipeDocument)
        ensures
            document@ == document_of(
                package_name@,
                metadata@,
                found@,
                generator@,
                generation_year as int,
            ),
    {
        let dependency_lines = copy_lines(found.dependency_lines());
        let git_lines = copy_lines(found.git_lines());
        RecipeDocument {
            summary: metadata.summary,
            homepage: metadata.homepage,
            license: metadata.license,
            dependency_lines,
            git_lines,
            package_name: String::from_str(package_name),
            package_version: metadata.version,
            generator_name: generator.name.clone(),
            generator_version: generator.version.clone(),
            generation_year,
        }
    }

    /// The summary of the project.
    pub fn summary(&self) -> (text: &String)
        ensures
            text@ == self@.summary,
    {
        &self.summary
    }

    /// The homepage of the project; empty if it has none.
    pub fn homepage(&self) -> (text: &String)
        ensures
            text@ == self@.homepage,
    {
        &self.homepage
    }

    /// The license of the project.
    pub fn license(&self) -> (text: &String)
        ensures
            text@ == self@.license,
    {
        &self.license
    }

    /// The dependency lines: sorted, each different line once.
    pub fn dependency_lines(&self) -> (lines: &Vec<String>)
        ensures
            texts(lines@) == self@.dependency_lines,
            strictly_ascending(self@.dependency_lines),
    {
        proof {
            use_type_invariant(self);
        }
        &self.dependency_lines
    }

    /// The git lines, in the order in which the packages were found.
    pub fn git_lines(&self) -> (lines: &Vec<String>)
        ensures
            texts(lines@) == self@.git_lines,
    {
        &self.git_lines
    }

    /// The name of the package.
    pub fn package_name(&self) -> (text: &String)
        ensures
            text@ == self@.package_name,
    {
        &self.package_name
    }

    /// The version of the package.
    pub fn package_version(&self) -> (text: &String)
        ensures
            text@ == self@.package_version,
    {
        &self.package_version
    }

    /// The name of the program that generates the recipe.
    pub fn generator_name(&self) -> (text: &String)
        ensures
            text@ == self@.generator_name,
    {
        &self.generator_name
    }

    /// The version of that program.
    pub fn generator_version(&self) -> (text: &String)
        ensures
            text@ == self@.generator_version,
    {
        &self.generator_version
    }

    /// The year in which the recipe is generated.
    pub fn generation_year(&self) -> (year: i64)
        ensures
            year == self@.generation_year,
    {
        self.generation_year
    }

    /// The text that the document puts into `slot`.
    pub fn slot_text(&self, slot: Slot) -> (text: String)
        ensures
            text@ == slot_value(self@, slot),
    {
        match slot {
            Slot::Description => self.summary.clone(),
            Slot::Homepage => self.homepage.clone(),
            Slot::License => self.license.clone(),
            Slot::Crates => join_lines(&self.dependency_lines),
            Slot::GitCrates => join_lines(&self.git_lines),
            Slot::PackageName => self.package_name.clone(),
            Slot::PackageVersion => self.package_version.clone(),
            Slot::GeneratorName => self.generator_name.clone(),
            Slot::GeneratorVersion => self.generator_version.clone(),
            Slot::GenerationYear => decimal_text(self.generation_year),
        }
    }
}

} // verus!
