//! From the resolved packages of a project to the lines of its recipe.
//!
//! Each package is classified by its origin. Packages of a registry give the
//! dependency lines, which are kept sorted and without repeats; packages of a
//! git repository give the git lines, in the order in which they were found;
//! packages of the project itself give nothing; the others are reported.

use crate::lines::{is_sorted_set_of, sorted_set, strictly_ascending, texts, unique_sorted};
use crate::lines::{lemma_sorted_set_exists, lemma_sorted_set_unique};
use crate::lines::lemma_strictly_ascending_no_duplicates;
use crate::text::{lemma_precedes_total, precedes};
use crate::source::{classification, classify};
use crate::source::{ClassifyError, OriginDescriptor, OriginKind, OriginModel, SourceOrigin};
use vstd::prelude::*;
use vstd::string::*;

verus! {

/// One package of the resolved dependency graph.
#[derive(Clone, Debug, PartialEq, Eq)]
pub struct ResolvedPackage {
    pub name: String,
    pub version: String,
    pub origin: OriginDescriptor,
}

/// The mathematical content of a [`ResolvedPackage`].
pub struct PackageModel {
    pub name: Seq<char>,
    pub version: Seq<char>,
    pub origin: OriginModel,
}

impl View for ResolvedPackage {
    type V = PackageModel;

    open spec fn view(&self) -> PackageModel {
        PackageModel { name: self.name@, version: self.version@, origin: self.origin@ }
    }
}

/// The models of a list of packages.
pub open spec fn package_models(packages: Seq<ResolvedPackage>) -> Seq<PackageModel> {
    packages.map_values(|p: ResolvedPackage| p@)
}

/// Why a package was left out of the recipe.
#[derive(Clone, Copy, Debug, PartialEq, Eq)]
pub enum Problem {
    /// Its origin is of no known kind.
    UnknownSource,
    /// Its git reference has no readable form.
    ReferenceUnresolvable,
}

/// The report on one package that was left out of the recipe.
#[derive(Clone, Debug, PartialEq, Eq)]
pub struct Diagnostic {
    /// The name of the package.
    pub package: String,
    pub problem: Problem,
}

/// The mathematical content of a [`Diagnostic`].
pub struct DiagnosticModel {
    pub package: Seq<char>,
    pub problem: Problem,
}

impl View for Diagnostic {
    type V = DiagnosticModel;

    open spec fn view(&self) -> DiagnosticModel {
        DiagnosticModel { package: self.package@, problem: self.problem }
    }
}

/// The models of a list of diagnostics.
pub open spec fn diagnostic_models(diagnostics: Seq<Diagnostic>) -> Seq<DiagnosticModel> {
    diagnostics.map_values(|d: Diagnostic| d@)
}

/// The line of a registry package: its name, a hyphen, its version, and a
/// line feed.
pub open spec fn registry_line(name: Seq<char>, version: Seq<char>) -> Seq<char> {
    name + seq!['-'] + version + seq!['\n']
}

/// The line of a git package: the URL of the repository, a space, the
/// reference, and a line feed.
pub open spec fn git_line(url: Seq<char>, reference: Seq<char>) -> Seq<char> {
    url + seq![' '] + reference + seq!['\n']
}

/// Writes the line of a registry package.
pub fn format_registry_line(name: &str, version: &str) -> (line: String)
    ensures
        line@ == registry_line(name@, version@),
{
    proof {
        reveal_strlit("-");
        reveal_strlit("\n");
        assert("-"@ =~= seq!['-']);
        assert("\n"@ =~= seq!['\n']);
    }
    let mut line = String::from_str(name);
    line.append("-");
    line.append(version);
    line.append("\n");
    line
}

/// Writes the line of a git package.
pub fn format_git_line(url: &str, reference: &str) -> (line: String)
    ensures
        line@ == git_line(url@, reference@),
{
    proof {
        reveal_strlit(" ");
        reveal_strlit("\n");
        assert(" "@ =~= seq![' ']);
        assert("\n"@ =~= seq!['\n']);
    }
    let mut line = String::from_str(url);
    line.append(" ");
    line.append(reference);
    line.append("\n");
    line
}

/// The dependency line that a package gives, if it gives one: its registry
/// line if it comes from the registry, the base URL of its registry if it
/// comes from an alternate one.
pub open spec fn dependency_line_of(package: PackageModel) -> Option<Seq<char>> {
    match classification(package.origin) {
        Ok(OriginKind::Registry) => Some(registry_line(package.name, package.version)),
        Ok(OriginKind::AlternateRegistry { url }) => Some(url),
        _ => None,
    }
}

/// The git line that a package gives, if it gives one.
pub open spec fn git_line_of(package: PackageModel) -> Option<Seq<char>> {
    match classification(package.origin) {
        Ok(OriginKind::Git { url, reference }) => Some(git_line(url, reference)),
        _ => None,
    }
}

/// The report on a package, if it is left out with one.
pub open spec fn diagnostic_of(package: PackageModel) -> Option<DiagnosticModel> {
    match classification(package.origin) {
        Ok(OriginKind::Unknown) => Some(
            DiagnosticModel { package: package.name, problem: Problem::UnknownSource },
        ),
        Err(ClassifyError::ReferenceUnresolvable) => Some(
            DiagnosticModel { package: package.name, problem: Problem::ReferenceUnresolvable },
        ),
        _ => None,
    }
}

/// The dependency lines that the packages give, one for each package that
/// gives one, in the order of the packages.
pub open spec fn dependency_lines_found(packages: Seq<PackageModel>) -> Seq<Seq<char>> {
    packages.filter_map(|p: PackageModel| dependency_line_of(p))
}

/// The git lines of the packages, one for each git package, in the order of
/// the packages.
pub open spec fn git_lines_of(packages: Seq<PackageModel>) -> Seq<Seq<char>> {
    packages.filter_map(|p: PackageModel| git_line_of(p))
}

/// The reports on the packages, in the order of the packages.
pub open spec fn diagnostics_of(packages: Seq<PackageModel>) -> Seq<DiagnosticModel> {
    packages.filter_map(|p: PackageModel| diagnostic_of(p))
}

/// What the packages of a project give to its recipe.
///
/// The dependency lines of an `Aggregate` are always in strictly ascending
/// order, so that no line occurs twice.
#[derive(Debug, PartialEq, Eq)]
pub struct Aggregate {
    dependency_lines: Vec<String>,
    git_lines: Vec<String>,
    diagnostics: Vec<Diagnostic>,
}

/// The mathematical content of an [`Aggregate`].
pub struct AggregateModel {
    pub dependency_lines: Seq<Seq<char>>,
    pub git_lines: Seq<Seq<char>>,
    pub diagnostics: Seq<DiagnosticModel>,
}

impl View for Aggregate {
    type V = AggregateModel;

    closed spec fn view(&self) -> AggregateModel {
        AggregateModel {
            dependency_lines: texts(self.dependency_lines@),
            git_lines: texts(self.git_lines@),
            diagnostics: diagnostic_models(self.diagnostics@),
        }
    }
}

impl Aggregate {
    #[verifier::type_invariant]
    spec fn ordered(&self) -> bool {
        strictly_ascending(texts(self.dependency_lines@))
    }

    /// The lines of the registry packages: sorted, each different line once.
    pub fn dependency_lines(&self) -> (lines: &Vec<String>)
        ensures
            texts(lines@) == self@.dependency_lines,
            strictly_ascending(self@.dependency_lines),
    {
        proof {
            use_type_invariant(self);
        }
        &self.dependency_lines
    }

    /// The lines of the git packages, in the order of the packages.
    pub fn git_lines(&self) -> (lines: &Vec<String>)
        ensures
            texts(lines@) == self@.git_lines,
    {
        &self.git_lines
    }

    /// The packages that were left out, in the order of the packages.
    pub fn diagnostics(&self) -> (reports: &Vec<Diagnostic>)
        ensures
            diagnostic_models(reports@) == self@.diagnostics,
    {
        &self.diagnostics
    }

    /// Gives up the aggregate for its reports.
    pub fn into_diagnostics(self) -> (reports: Vec<Diagnostic>)
        ensures
            diagnostic_models(reports@) == self@.diagnostics,
    {
        self.diagnostics
    }
}

/// What a list of packages gives to the recipe.
pub open spec fn aggregate_of(packages: Seq<PackageModel>) -> AggregateModel {
    AggregateModel {
        dependency_lines: sorted_set(dependency_lines_found(packages)),
        git_lines: git_lines_of(packages),
        diagnostics: diagnostics_of(packages),
    }
}

/// Classifies each package and collects what it gives to the recipe.
pub fn aggregate(packages: &Vec<ResolvedPackage>) -> (found: Aggregate)
    ensures
        found@ == aggregate_of(package_models(packages@)),
        is_sorted_set_of(
            found@.dependency_lines,
            dependency_lines_found(package_models(packages@)),
        ),
{
    let mut dependency_lines: Vec<String> = Vec::new();
    let mut git_lines: Vec<String> = Vec::new();
    let mut diagnostics: Vec<Diagnostic> = Vec::new();
    let ghost models = package_models(packages@);
    let mut i: usize = 0;
    proof {
        assert(texts(dependency_lines@) =~= dependency_lines_found(models.take(0)));
        assert(texts(git_lines@) =~= git_lines_of(models.take(0)));
        assert(diagnostic_models(diagnostics@) =~= diagnostics_of(models.take(0)));
    }
    while i < packages.len()
        invariant
            i <= packages.len(),
            models == package_models(packages@),
            texts(dependency_lines@) == dependency_lines_found(models.take(i as int)),
            texts(git_lines@) == git_lines_of(models.take(i as int)),
            diagnostic_models(diagnostics@) == diagnostics_of(models.take(i as int)),
        decreases packages.len() - i,
    {
        let package = &packages[i];
        let ghost lines_before = texts(dependency_lines@);
        let ghost git_before = texts(git_lines@);
        let ghost reports_before = diagnostic_models(diagnostics@);
        proof {
            assert(models[i as int] == package@);
            models.lemma_filter_map_take_succ(|p: PackageModel| dependency_line_of(p), i as int);
            models.lemma_filter_map_take_succ(|p: PackageModel| git_line_of(p), i as int);
            models.lemma_filter_map_take_succ(|p: PackageModel| diagnostic_of(p), i as int);
        }
        match classify(&package.origin) {
            Ok(SourceOrigin::Registry) => {
                let line = format_registry_line(package.name.as_str(), package.version.as_str());
                dependency_lines.push(line);
                assert(texts(dependency_lines@) =~= lines_before.push(line@));
            },
            Ok(SourceOrigin::AlternateRegistry { url }) => {
                dependency_lines.push(url);
                assert(texts(dependency_lines@) =~= lines_before.push(url@));
            },
            Ok(SourceOrigin::Git { url, reference }) => {
                let line = format_git_line(url.as_str(), reference.as_str());
                git_lines.push(line);
                assert(texts(git_lines@) =~= git_before.push(line@));
            },
            Ok(SourceOrigin::Path) => {},
            Ok(SourceOrigin::Unknown) => {
                let report = Diagnostic {
                    package: package.name.clone(),
                    problem: Problem::UnknownSource,
                };
                diagnostics.push(report);
                assert(diagnostic_models(diagnostics@) =~= reports_before.push(report@));
            },
            Err(ClassifyError::ReferenceUnresolvable) => {
                let report = Diagnostic {
                    package: package.name.clone(),
                    problem: Problem::ReferenceUnresolvable,
                };
                diagnostics.push(report);
                assert(diagnostic_models(diagnostics@) =~= reports_before.push(report@));
            },
        }
        i += 1;
    }
    assert(models.take(packages.len() as int) =~= models);
    let dependency_lines = unique_sorted(&dependency_lines);
    Aggregate { dependency_lines, git_lines, diagnostics }
}

/// The package belongs to the project itself: its origin is a path.
pub open spec fn is_local(package: PackageModel) -> bool {
    classification(package.origin) == Ok::<OriginKind, ClassifyError>(OriginKind::Path)
}

/// The package comes from the registry.
pub open spec fn is_from_registry(package: PackageModel) -> bool {
    classification(package.origin) == Ok::<OriginKind, ClassifyError>(OriginKind::Registry)
}

/// What is collected from a list does not change when the elements that
/// give nothing are taken out first.
proof fn lemma_collect_after_filter<A, B>(
    s: Seq<A>,
    keep: spec_fn(A) -> bool,
    f: spec_fn(A) -> Option<B>,
)
    requires
        forall|x: A| !(#[trigger] keep(x)) ==> f(x) is None,
    ensures
        s.filter(keep).filter_map(f) == s.filter_map(f),
    decreases s.len(),
{
    reveal(Seq::filter);
    if s.len() > 0 {
        lemma_collect_after_filter(s.drop_last(), keep, f);
        if keep(s.last()) {
            let kept = s.drop_last().filter(keep);
            assert(kept.push(s.last()).drop_last() =~= kept);
        }
    }
}

/// Packages of the project itself leave no trace: with or without them the
/// same lines and the same reports come out, and each line that comes out is
/// the line of a package that is none of them.
pub proof fn lemma_local_packages_leave_no_trace(packages: Seq<PackageModel>)
    ensures
        aggregate_of(packages) == aggregate_of(packages.filter(|p: PackageModel| !is_local(p))),
        forall|line: Seq<char>| #[trigger]
            aggregate_of(packages).dependency_lines.contains(line) ==> exists|p: PackageModel|
                #[trigger] packages.contains(p) && !is_local(p) && dependency_line_of(p) == Some(
                    line,
                ),
        forall|line: Seq<char>| #[trigger]
            aggregate_of(packages).git_lines.contains(line) ==> exists|p: PackageModel|
                #[trigger] packages.contains(p) && !is_local(p) && git_line_of(p) == Some(line),
{
    let others = |p: PackageModel| !is_local(p);
    lemma_collect_after_filter(packages, others, |p: PackageModel| dependency_line_of(p));
    lemma_collect_after_filter(packages, others, |p: PackageModel| git_line_of(p));
    lemma_collect_after_filter(packages, others, |p: PackageModel| diagnostic_of(p));
    lemma_sorted_set_exists(dependency_lines_found(packages));
    assert forall|line: Seq<char>| #[trigger]
        aggregate_of(packages).dependency_lines.contains(line) implies exists|p: PackageModel|
        #[trigger] packages.contains(p) && !is_local(p) && dependency_line_of(p) == Some(
            line,
        ) by {
        assert(dependency_lines_found(packages).contains(line));
        packages.lemma_filter_map_contains(|p: PackageModel| dependency_line_of(p), line);
    }
    assert forall|line: Seq<char>| #[trigger]
        aggregate_of(packages).git_lines.contains(line) implies exists|p: PackageModel|
        #[trigger] packages.contains(p) && !is_local(p) && git_line_of(p) == Some(line) by {
        packages.lemma_filter_map_contains(|p: PackageModel| git_line_of(p), line);
    }
}

/// The dependency lines of any list of packages are in strictly ascending
/// order, hold no line twice, and are the lines that the packages give.
pub proof fn lemma_dependency_lines_sorted_and_unique(packages: Seq<PackageModel>)
    ensures
        strictly_ascending(aggregate_of(packages).dependency_lines),
        aggregate_of(packages).dependency_lines.no_duplicates(),
        forall|line: Seq<char>|
            aggregate_of(packages).dependency_lines.contains(line) <==> dependency_lines_found(
                packages,
            ).contains(line),
{
    lemma_sorted_set_exists(dependency_lines_found(packages));
    lemma_strictly_ascending_no_duplicates(aggregate_of(packages).dependency_lines);
}

/// The git lines follow the order of the packages: those of one list
/// followed by another are those of the first followed by those of the
/// second.
pub proof fn lemma_git_lines_keep_order(first: Seq<PackageModel>, second: Seq<PackageModel>)
    ensures
        git_lines_of(first + second) == git_lines_of(first) + git_lines_of(second),
    decreases second.len(),
{
    let f = |p: PackageModel| git_line_of(p);
    if second.len() == 0 {
        assert(first + second =~= first);
        assert(git_lines_of(first) + git_lines_of(second) =~= git_lines_of(first));
    } else {
        let front = second.drop_last();
        lemma_git_lines_keep_order(first, front);
        assert((first + second).drop_last() =~= first + front);
        assert((first + second).last() == second.last());
        match f(second.last()) {
            Some(line) => {
                assert(git_lines_of(first) + (git_lines_of(front) + seq![line]) =~= (git_lines_of(
                    first,
                ) + git_lines_of(front)) + seq![line]);
            },
            None => {},
        }
    }
}

/// Each git package gives one git line, whatever the others give: git lines
/// are never merged, so that two references of one repository both appear.
pub proof fn lemma_each_git_package_gives_a_line(packages: Seq<PackageModel>, package: PackageModel)
    requires
        git_line_of(package) is Some,
    ensures
        git_lines_of(packages.push(package)) == git_lines_of(packages).push(
            git_line_of(package)->0,
        ),
        git_lines_of(packages.push(package)).len() == git_lines_of(packages).len() + 1,
{
    assert(packages.push(package).drop_last() =~= packages);
}

/// Two git lines of one repository differ if their references differ.
pub proof fn lemma_git_lines_differ_by_reference(
    url: Seq<char>,
    reference: Seq<char>,
    other: Seq<char>,
)
    requires
        reference != other,
    ensures
        git_line(url, reference) != git_line(url, other),
{
    let a = git_line(url, reference);
    let b = git_line(url, other);
    if a == b {
        let from = url.len() + 1;
        assert(a.len() == url.len() + reference.len() + 2);
        assert(b.len() == url.len() + other.len() + 2);
        assert(reference =~= a.subrange(from as int, a.len() - 1));
        assert(other =~= b.subrange(from as int, b.len() - 1));
    }
}

/// Two registry lines of one name differ if their versions differ.
pub proof fn lemma_registry_lines_differ_by_version(
    name: Seq<char>,
    version: Seq<char>,
    other: Seq<char>,
)
    requires
        version != other,
    ensures
        registry_line(name, version) != registry_line(name, other),
{
    let a = registry_line(name, version);
    let b = registry_line(name, other);
    if a == b {
        let from = name.len() + 1;
        assert(a.len() == name.len() + version.len() + 2);
        assert(b.len() == name.len() + other.len() + 2);
        assert(version =~= a.subrange(from as int, a.len() - 1));
        assert(other =~= b.subrange(from as int, b.len() - 1));
    }
}

/// Two registry packages with the same name and the same version give one
/// dependency line.
pub proof fn lemma_equal_packages_collapse(first: PackageModel, second: PackageModel)
    requires
        is_from_registry(first),
        is_from_registry(second),
        first.name == second.name,
        first.version == second.version,
    ensures
        aggregate_of(seq![first, second]).dependency_lines == seq![
            registry_line(first.name, first.version),
        ],
{
    let packages = seq![first, second];
    let line = registry_line(first.name, first.version);
    let found = dependency_lines_found(packages);
    reveal_with_fuel(Seq::filter_map, 3);
    assert(packages.drop_last() =~= seq![first]);
    assert(seq![first].drop_last() =~= Seq::<PackageModel>::empty());
    assert(found =~= seq![line, line]);
    let one = seq![line];
    assert(is_sorted_set_of(one, found)) by {
        assert forall|l: Seq<char>| one.contains(l) <==> found.contains(l) by {
            if one.contains(l) {
                assert(found[0] == l);
            }
            if found.contains(l) {
                assert(one[0] == l);
            }
        }
    }
    lemma_sorted_set_unique(one, sorted_set(found), found);
}

/// Two registry packages with the same name and different versions give two
/// dependency lines, the one that comes first in the order of lines first.
pub proof fn lemma_two_versions_survive(first: PackageModel, second: PackageModel)
    requires
        is_from_registry(first),
        is_from_registry(second),
        first.name == second.name,
        first.version != second.version,
    ensures
        ({
            let a = registry_line(first.name, first.version);
            let b = registry_line(second.name, second.version);
            &&& a != b
            &&& aggregate_of(seq![first, second]).dependency_lines == if precedes(a, b) {
                seq![a, b]
            } else {
                seq![b, a]
            }
        }),
{
    let packages = seq![first, second];
    let a = registry_line(first.name, first.version);
    let b = registry_line(second.name, second.version);
    lemma_registry_lines_differ_by_version(first.name, first.version, second.version);
    let found = dependency_lines_found(packages);
    reveal_with_fuel(Seq::filter_map, 3);
    assert(packages.drop_last() =~= seq![first]);
    assert(seq![first].drop_last() =~= Seq::<PackageModel>::empty());
    assert(found =~= seq![a, b]);
    lemma_precedes_total(a, b);
    let both = if precedes(a, b) {
        seq![a, b]
    } else {
        seq![b, a]
    };
    assert(is_sorted_set_of(both, found)) by {
        assert forall|l: Seq<char>| both.contains(l) <==> found.contains(l) by {
            if both.contains(l) {
                let i = choose|i: int| 0 <= i < both.len() && both[i] == l;
                assert(found[0] == l || found[1] == l);
            }
            if found.contains(l) {
                let i = choose|i: int| 0 <= i < found.len() && found[i] == l;
                assert(both[0] == l || both[1] == l);
            }
        }
    }
    lemma_sorted_set_unique(both, sorted_set(found), found);
}

} // verus!
