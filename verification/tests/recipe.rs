use cargo_ebuild::aggregate::{aggregate, Diagnostic, Problem, ResolvedPackage};
use cargo_ebuild::clock::{calendar_year, current_year};
use cargo_ebuild::document::Generator;
use cargo_ebuild::metadata::{resolve_metadata, ProjectMetadata};
use cargo_ebuild::recipe::{build_recipe, ebuild_file_name, real_main, run_cargo_ebuild};
use cargo_ebuild::recipe::{Command, Project, Recipe, RecipeError};
use cargo_ebuild::source::OriginDescriptor;

const TEMPLATE: &str = "# {generation_year} {generator_name} {generator_version}
CRATES=\"
{crates}\"
GIT=\"
{git_crates}\"
DESCRIPTION=\"{description}\"
HOMEPAGE=\"{homepage}\"
LICENSE=\"{license}\"
P=\"{package_name}-{package_version}\"
";

fn package(name: &str, version: &str, origin: OriginDescriptor) -> ResolvedPackage {
    ResolvedPackage { name: name.to_string(), version: version.to_string(), origin }
}

fn scenario() -> Project {
    Project {
        packages: vec![
            package("serde", "1.0.0", OriginDescriptor::registry("https://index.example")),
            package("local-dep", "0.1.0", OriginDescriptor::path("/work/app/local-dep")),
            package(
                "mylib",
                "0.3.0",
                OriginDescriptor::git("https://git.example/mylib", Some("v0.3.0".to_string())),
            ),
        ],
        metadata: ProjectMetadata {
            name: "app".to_string(),
            version: "1.0.0".to_string(),
            description: None,
            homepage: None,
            repository: Some("https://app.example".to_string()),
            license: None,
        },
    }
}

fn generator() -> Generator {
    Generator { name: "cargo-ebuild".to_string(), version: "0.1.5".to_string() }
}

#[test]
fn end_to_end_scenario() {
    let project = scenario();
    let found = aggregate(&project.packages);
    assert_eq!(found.dependency_lines(), &vec!["serde-1.0.0\n".to_string()]);
    assert_eq!(found.git_lines(), &vec!["https://git.example/mylib v0.3.0\n".to_string()]);
    assert!(found.diagnostics().is_empty());
    let metadata = resolve_metadata(&project.metadata).unwrap();
    assert_eq!(metadata.summary, "app");
    assert_eq!(metadata.homepage, "https://app.example");
    assert_eq!(metadata.license, "unknown license");
    assert_eq!(metadata.version, "1.0.0");
}

#[test]
fn build_recipe_gives_the_file_name_the_text_and_the_reports() {
    let mut project = scenario();
    project.packages.push(package("odd", "0.0.1", OriginDescriptor::other("directory+/vendor")));
    let expected = Recipe {
        file_name: "app-1.0.0.ebuild".to_string(),
        text: "# 2018 cargo-ebuild 0.1.5
CRATES=\"
serde-1.0.0
\"
GIT=\"
https://git.example/mylib v0.3.0
\"
DESCRIPTION=\"app\"
HOMEPAGE=\"https://app.example\"
LICENSE=\"unknown license\"
P=\"app-1.0.0\"
"
        .to_string(),
        diagnostics: vec![Diagnostic {
            package: "odd".to_string(),
            problem: Problem::UnknownSource,
        }],
    };
    assert_eq!(build_recipe(&project, &generator(), 2018, TEMPLATE), Ok(expected));
}

#[test]
fn building_twice_gives_the_same_recipe() {
    let project = scenario();
    let first = build_recipe(&project, &generator(), 2018, TEMPLATE);
    let second = build_recipe(&project.clone(), &generator(), 2018, TEMPLATE);
    assert!(first.is_ok());
    assert_eq!(first, second);
}

#[test]
fn the_order_of_registry_packages_does_not_change_the_recipe() {
    let mut project = scenario();
    project.packages.push(package("libc", "0.2.40", OriginDescriptor::registry("i")));
    let mut reordered = project.clone();
    reordered.packages.reverse();
    assert_eq!(
        build_recipe(&project, &generator(), 2018, TEMPLATE),
        build_recipe(&reordered, &generator(), 2018, TEMPLATE)
    );
}

#[test]
fn a_missing_version_stops_the_build() {
    let mut project = scenario();
    project.metadata.version = "  ".to_string();
    assert_eq!(
        build_recipe(&project, &generator(), 2018, TEMPLATE),
        Err(RecipeError::MissingVersion)
    );
}

#[test]
fn a_template_without_a_slot_stops_the_build() {
    let lacking = TEMPLATE.replace("{homepage}", "");
    assert_eq!(
        build_recipe(&scenario(), &generator(), 2018, &lacking),
        Err(RecipeError::TemplateMismatch)
    );
}

#[test]
fn a_missing_version_is_found_before_a_bad_template() {
    let mut project = scenario();
    project.metadata.version = String::new();
    assert_eq!(
        build_recipe(&project, &generator(), 2018, "no slots"),
        Err(RecipeError::MissingVersion)
    );
}

#[test]
fn the_file_name_is_name_hyphen_version_ebuild() {
    assert_eq!(ebuild_file_name("cargo-ebuild", "0.1.5"), "cargo-ebuild-0.1.5.ebuild");
    assert_eq!(ebuild_file_name("", ""), "-.ebuild");
}

#[test]
fn the_file_name_takes_the_trimmed_version() {
    let mut project = scenario();
    project.metadata.version = " 1.0.0\n".to_string();
    let recipe = build_recipe(&project, &generator(), 2018, TEMPLATE).unwrap();
    assert_eq!(recipe.file_name, "app-1.0.0.ebuild");
}

#[test]
fn calendar_year_counts_from_1900() {
    assert_eq!(calendar_year(0), 1900);
    assert_eq!(calendar_year(118), 2018);
    assert_eq!(calendar_year(-1), 1899);
    assert_eq!(calendar_year(i32::MAX), 2147485547);
    assert_eq!(calendar_year(i32::MIN), -2147481748);
}

#[test]
fn current_year_is_the_year_of_the_clock() {
    let before = 1900 + time::now().tm_year as i64;
    let year = current_year();
    let after = 1900 + time::now().tm_year as i64;
    assert!(before <= year && year <= after);
    assert!(year >= 2024);
}

#[test]
fn real_main_builds_for_the_current_year() {
    let project = scenario();
    let before = current_year();
    let recipe = real_main(&project, &generator(), TEMPLATE, None);
    let after = current_year();
    assert!(
        recipe == build_recipe(&project, &generator(), before, TEMPLATE)
            || recipe == build_recipe(&project, &generator(), after, TEMPLATE)
    );
    assert!(recipe.unwrap().text.starts_with(&format!("# {} cargo-ebuild 0.1.5\n", after)));
}

#[test]
fn real_main_ignores_the_manifest_path() {
    let project = scenario();
    let with_path =
        real_main(&project, &generator(), TEMPLATE, Some("/elsewhere/Cargo.toml".to_string()));
    let without = real_main(&project, &generator(), TEMPLATE, None);
    assert_eq!(with_path.unwrap().file_name, without.unwrap().file_name);
}

#[test]
fn run_cargo_ebuild_builds_by_default() {
    let project = scenario();
    let year = current_year();
    let by_default = run_cargo_ebuild(&project, &generator(), TEMPLATE, None);
    let asked = run_cargo_ebuild(
        &project,
        &generator(),
        TEMPLATE,
        Some(Command::Build { manifest_path: None }),
    );
    let again = current_year();
    if year == again {
        let expected = build_recipe(&project, &generator(), year, TEMPLATE);
        assert_eq!(by_default, expected);
        assert_eq!(asked, expected);
    }
}

#[test]
fn run_cargo_ebuild_reports_failures() {
    let mut project = scenario();
    project.metadata.version = String::new();
    assert_eq!(
        run_cargo_ebuild(&project, &generator(), TEMPLATE, None),
        Err(RecipeError::MissingVersion)
    );
    assert_eq!(
        real_main(&scenario(), &generator(), "{crates}", None),
        Err(RecipeError::TemplateMismatch)
    );
}
