//! The whole way from a resolved project to its recipe.

use crate::aggregate::{aggregate, aggregate_of, diagnostic_models, package_models};
use crate::aggregate::{Diagnostic, DiagnosticModel, PackageModel, ResolvedPackage};
use crate::clock::{current_year, year_after_1900};
use crate::document::{document_of, Generator, GeneratorModel, RecipeDocument};
use crate::metadata::{resolve_metadata, resolved_metadata};
use crate::metadata::{MetadataError, MetadataModel, ProjectMetadata};
use crate::render::{is_complete, render, rendering, RenderError};
use vstd::prelude::*;
use vstd::string::*;

verus! {

/// What the program is asked to do.
#[derive(Clone, Debug, PartialEq, Eq)]
pub enum Command {
    /// Build an ebuild file from a cargo project.
    Build { manifest_path: Option<String> },
}

/// A project as the resolver and the manifest give it: its resolved
/// packages, in the order of the resolver, and its metadata.
#[derive(Clone, Debug, PartialEq, Eq)]
pub struct Project {
    pub packages: Vec<ResolvedPackage>,
    pub metadata: ProjectMetadata,
}

/// The mathematical content of a [`Project`].
pub struct ProjectModel {
    pub packages: Seq<PackageModel>,
    pub metadata: MetadataModel,
}

impl View for Project {
    type V = ProjectModel;

    open spec fn view(&self) -> ProjectModel {
        ProjectModel { packages: package_models(self.packages@), metadata: self.metadata@ }
    }
}

/// Why no recipe was made.
#[derive(Clone, Copy, Debug, PartialEq, Eq)]
pub enum RecipeError {
    /// The project has no version.
    MissingVersion,
    /// The template lacks one of the slots.
    TemplateMismatch,
}

/// A finished recipe: the name of its file, its text, and the reports on the
/// packages that were left out of it.
#[derive(Clone, Debug, PartialEq, Eq)]
pub struct Recipe {
    pub file_name: String,
    pub text: String,
    pub diagnostics: Vec<Diagnostic>,
}

/// The mathematical content of a [`Recipe`].
pub struct RecipeModel {
    pub file_name: Seq<char>,
    pub text: Seq<char>,
    pub diagnostics: Seq<DiagnosticModel>,
}

impl View for Recipe {
    type V = RecipeModel;

    open spec fn view(&self) -> RecipeModel {
        RecipeModel {
            file_name: self.file_name@,
            text: self.text@,
            diagnostics: diagnostic_models(self.diagnostics@),
        }
    }
}

/// The name of the file of a recipe: the name of the package, a hyphen, its
/// version, and the extension `.ebuild`.
pub open spec fn file_name_of(name: Seq<char>, version: Seq<char>) -> Seq<char> {
    name + seq!['-'] + version + ".ebuild"@
}

/// Writes the name of the file of a recipe.
pub fn ebuild_file_name(name: &str, version: &str) -> (file_name: String)
    ensures
        file_name@ == file_name_of(name@, version@),
{
    proof {
        reveal_strlit("-");
        assert("-"@ =~= seq!['-']);
    }
    let mut file_name = String::from_str(name);
    file_name.append("-");
    file_name.append(version);
    file_name.append(".ebuild");
    file_name
}

/// The recipe of a project in a given year, or why there is none. A missing
/// version is found before a template is looked at.
pub open spec fn recipe_of(
    project: ProjectModel,
    generator: GeneratorModel,
    year: int,
    template: Seq<char>,
) -> Result<RecipeModel, RecipeError> {
    match resolved_metadata(project.metadata) {
        Err(MetadataError::MissingVersion) => Err(RecipeError::MissingVersion),
        Ok(metadata) => {
            let found = aggregate_of(project.packages);
            let document = document_of(project.metadata.name, metadata, found, generator, year);
            match rendering(document, template) {
                Err(RenderError::TemplateMismatch) => Err(RecipeError::TemplateMismatch),
                Ok(text) => Ok(
                    RecipeModel {
                        file_name: file_name_of(project.metadata.name, metadata.version),
                        text,
                        diagnostics: found.diagnostics,
                    },
                ),
            }
        },
    }
}

/// Why a project has no recipe with a template, if it has none. The year has
/// no part in this.
pub open spec fn failure_of(project: ProjectModel, template: Seq<char>) -> Option<RecipeError> {
    if resolved_metadata(project.metadata) is Err {
        Some(RecipeError::MissingVersion)
    } else if !is_complete(template) {
        Some(RecipeError::TemplateMismatch)
    } else {
        None
    }
}

/// The year decides nothing but the text: whether there is a recipe, why
/// there is none, the name of the file and the reports are the same in every
/// year.
pub proof fn lemma_year_decides_only_the_text(
    project: ProjectModel,
    generator: GeneratorModel,
    year: int,
    template: Seq<char>,
)
    ensures
        match failure_of(project, template) {
            Some(e) => recipe_of(project, generator, year, template) == Err::<RecipeModel, _>(e),
            None => {
                &&& recipe_of(project, generator, year, template) matches Ok(recipe)
                &&& recipe.file_name == file_name_of(
                    project.metadata.name,
                    resolved_metadata(project.metadata)->Ok_0.version,
                )
                &&& recipe.diagnostics == aggregate_of(project.packages).diagnostics
            },
        },
{
}

/// The mathematical content of what building a recipe returns.
pub open spec fn recipe_result(r: Result<Recipe, RecipeError>) -> Result<RecipeModel, RecipeError> {
    match r {
        Ok(recipe) => Ok(recipe@),
        Err(e) => Err(e),
    }
}

/// Builds the recipe of a project for a given year.
pub fn build_recipe(project: &Project, generator: &Generator, year: i64, template: &str) -> (r:
    Result<Recipe, RecipeError>)
    ensures
        recipe_result(r) == recipe_of(project@, generator@, year as int, template@),
{
    let metadata = match resolve_metadata(&project.metadata) {
        Ok(metadata) => metadata,
        Err(MetadataError::MissingVersion) => {
            return Err(RecipeError::MissingVersion);
        },
    };
    let file_name = ebuild_file_name(project.metadata.name.as_str(), metadata.version.as_str());
    let found = aggregate(&project.packages);
    let document = RecipeDocument::assemble(
        project.metadata.name.as_str(),
        metadata,
        &found,
        generator,
        year,
    );
    match render(&document, template) {
        Ok(text) => Ok(Recipe { file_name, text, diagnostics: found.into_diagnostics() }),
        Err(RenderError::TemplateMismatch) => Err(RecipeError::TemplateMismatch),
    }
}

/// Building is repeatable: two recipes built from the same project, for the
/// same generator, year and template, are the same, character for character,
/// and so are two failures.
pub proof fn lemma_same_inputs_same_recipe(
    project: ProjectModel,
    generator: GeneratorModel,
    year: int,
    template: Seq<char>,
    first: Result<Recipe, RecipeError>,
    second: Result<Recipe, RecipeError>,
)
    requires
        recipe_result(first) == recipe_of(project, generator, year, template),
        recipe_result(second) == recipe_of(project, generator, year, template),
    ensures
        recipe_result(first) == recipe_result(second),
        first is Ok <==> second is Ok,
        first is Ok ==> first->Ok_0.text@ == second->Ok_0.text@ && first->Ok_0.file_name@
            == second->Ok_0.file_name@,
        first is Err ==> first->Err_0 == second->Err_0,
{
}

/// Builds the recipe of a project for the current year, which it reads from
/// the clock. The path of the manifest plays no part.
pub fn real_main(
    project: &Project,
    generator: &Generator,
    template: &str,
    _manifest_path: Option<String>,
) -> (r: Result<Recipe, RecipeError>)
    ensures
        exists|tm_year: i32|
            recipe_result(r) == recipe_of(
                project@,
                generator@,
                #[trigger] year_after_1900(tm_year as int),
                template@,
            ),
        match failure_of(project@, template@) {
            Some(e) => r == Err::<Recipe, _>(e),
            None => r is Ok,
        },
{
    let year = current_year();
    proof {
        lemma_year_decides_only_the_text(project@, generator@, year as int, template@);
    }
    build_recipe(project, generator, year, template)
}

/// Carries out a command; without one, builds the recipe.
pub fn run_cargo_ebuild(
    project: &Project,
    generator: &Generator,
    template: &str,
    cmd: Option<Command>,
) -> (r: Result<Recipe, RecipeError>)
    ensures
        exists|tm_year: i32|
            recipe_result(r) == recipe_of(
                project@,
                generator@,
                #[trigger] year_after_1900(tm_year as int),
                template@,
            ),
        match failure_of(project@, template@) {
            Some(e) => r == Err::<Recipe, _>(e),
            None => r is Ok,
        },
{
    let cmd = match cmd {
        Some(cmd) => cmd,
        None => Command::Build { manifest_path: None },
    };
    match cmd {
        Command::Build { manifest_path } => real_main(project, generator, template, manifest_path),
    }
}

} // verus!
