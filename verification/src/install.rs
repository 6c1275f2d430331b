//! Deciding, for one workspace, which packages are installed and with
//! which commands.

use vstd::prelude::*;
use crate::chars;
use crate::deps::{
    check_project_requirements,
    declared_dependencies,
    get_installed_dependencies_at,
    installed_view,
    merged_up_to,
    project_issues,
    ProjectPackages,
    RequirementIssue,
    RequirementIssueReason,
    RequirementIssueView,
};
use crate::plan::{
    install_tokens,
    plan_dependency_install,
    plan_for,
    DependencyInstallPlan,
    DependencyScope,
    InstallEnvironment,
};
use crate::ordered::sorted;
use crate::string_map::{is_sorting_of, lookup, same_text, StringMap};
use crate::text::{first, first_from};
use crate::workspace::PackageManagerContext;

verus! {

/// The packages that the components of a run need in one workspace.
#[derive(Clone, Debug, Default)]
pub struct WorkspaceDependencySet {
    pub regular: StringMap,
    pub dev: StringMap,
}

impl WorkspaceDependencySet {
    /// Both maps hold no name twice.
    pub open spec fn wf(&self) -> bool {
        self.regular.wf() && self.dev.wf()
    }

    /// No packages.
    pub fn new() -> (r: Self)
        ensures
            r.wf(),
            r.regular@ == Seq::<(Seq<char>, Seq<char>)>::empty(),
            r.dev@ == Seq::<(Seq<char>, Seq<char>)>::empty(),
    {
        WorkspaceDependencySet { regular: StringMap::new(), dev: StringMap::new() }
    }

    /// Whether no package is needed.
    pub fn is_empty(&self) -> (r: bool)
        ensures
            r == (self.regular@.len() == 0 && self.dev@.len() == 0),
    {
        self.regular.is_empty() && self.dev.is_empty()
    }
}

/// The issue is about the package `name`.
pub open spec fn issue_named(name: Seq<char>) -> spec_fn(RequirementIssueView) -> bool {
    |issue: RequirementIssueView| issue.name == name
}

/// What is reported of a package that has to be installed: what is
/// required, and for a package that is there, what is installed.
pub open spec fn incompatible_line(
    name: Seq<char>,
    version: Seq<char>,
    issue: RequirementIssueView,
) -> Seq<char> {
    if issue.reason == RequirementIssueReason::Missing {
        name + ": required "@ + version
    } else {
        name + ": installed "@ + (match issue.installed {
            Some(installed) => installed,
            None => "unknown"@,
        }) + ", required "@ + version
    }
}

/// What is reported of a package that is there as required.
pub open spec fn satisfied_line(name: Seq<char>, installed: Seq<char>, version: Seq<char>) -> Seq<
    char,
> {
    name + "@"@ + installed + " (satisfies "@ + version + ")"@
}

/// What is decided of the packages of one scope.
pub struct ScopeDecision {
    /// The packages to install, with the required ranges.
    pub to_install: Seq<(Seq<char>, Seq<char>)>,
    /// What is reported of each of them.
    pub incompatible: Seq<Seq<char>>,
    /// What is reported of the packages that are there as required.
    pub satisfied: Seq<Seq<char>>,
}

/// What is decided of the first `n` required packages of a scope: a
/// package with an issue is installed; one without an issue is reported as
/// satisfied where the project has it.
pub open spec fn scope_decision(
    required: Seq<(Seq<char>, Seq<char>)>,
    issues: Seq<RequirementIssueView>,
    installed: Seq<(Seq<char>, Seq<char>)>,
    n: int,
) -> ScopeDecision
    decreases n,
{
    if n <= 0 {
        ScopeDecision { to_install: seq![], incompatible: seq![], satisfied: seq![] }
    } else {
        let before = scope_decision(required, issues, installed, n - 1);
        let (name, version) = required[n - 1];
        match first(issues, issue_named(name)) {
            Some(i) => ScopeDecision {
                to_install: before.to_install.push((name, version)),
                incompatible: before.incompatible.push(incompatible_line(name, version, issues[i])),
                satisfied: before.satisfied,
            },
            None => match lookup(installed, name) {
                Some(have) => ScopeDecision {
                    to_install: before.to_install,
                    incompatible: before.incompatible,
                    satisfied: before.satisfied.push(satisfied_line(name, have, version)),
                },
                None => before,
            },
        }
    }
}

/// The first issue about the package `name`.
fn issue_for<'a>(issues: &'a Vec<RequirementIssue>, name: &str) -> (r: Option<&'a RequirementIssue>)
    ensures
        match r {
            Some(issue) => first(chars::views(issues@), issue_named(name@)) matches Some(i)
                && issue@ == chars::views(issues@)[i],
            None => first(chars::views(issues@), issue_named(name@)) is None,
        },
{
    let ghost pred = issue_named(name@);
    let mut i: usize = 0;
    while i < issues.len()
        invariant
            i <= issues.len(),
            pred == issue_named(name@),
            first(chars::views(issues@), pred) == first_from(chars::views(issues@), pred, i as int),
        decreases issues.len() - i,
    {
        if same_text(issues[i].name.as_str(), name) {
            return Some(&issues[i]);
        }
        i += 1;
    }
    None
}

/// The text of the given pieces, one after the other.
fn concat_all(pieces: &Vec<&str>) -> (r: String)
    ensures
        r@ == flat(chars::views(pieces@), pieces@.len() as int),
{
    let mut all: Vec<char> = Vec::new();
    let mut i: usize = 0;
    while i < pieces.len()
        invariant
            i <= pieces.len(),
            all@ == flat(chars::views(pieces@), i as int),
        decreases pieces.len() - i,
    {
        chars::append(&mut all, &chars::chars_of(pieces[i]));
        i += 1;
    }
    chars::string_of(&all)
}

/// The first `n` pieces, one after the other.
pub open spec fn flat(pieces: Seq<Seq<char>>, n: int) -> Seq<char>
    decreases n,
{
    if n <= 0 {
        seq![]
    } else {
        flat(pieces, n - 1) + pieces[n - 1]
    }
}

/// What is decided of the packages of one scope, in executable form.
pub struct ScopeReport {
    pub to_install: StringMap,
    pub incompatible: Vec<String>,
    pub satisfied: Vec<String>,
}

/// Decides what becomes of the required packages of one scope.
pub fn decide_scope(required: &StringMap, issues: &Vec<RequirementIssue>, installed: &StringMap) -> (r:
    ScopeReport)
    ensures
        r.to_install@ == scope_decision(
            required@,
            chars::views(issues@),
            installed@,
            required@.len() as int,
        ).to_install,
        chars::views(r.incompatible@) == scope_decision(
            required@,
            chars::views(issues@),
            installed@,
            required@.len() as int,
        ).incompatible,
        chars::views(r.satisfied@) == scope_decision(
            required@,
            chars::views(issues@),
            installed@,
            required@.len() as int,
        ).satisfied,
{
    let mut to_install = StringMap { entries: Vec::new() };
    let mut incompatible: Vec<String> = Vec::new();
    let mut satisfied: Vec<String> = Vec::new();
    let mut n: usize = 0;
    proof {
        let start = scope_decision(required@, chars::views(issues@), installed@, 0);
        assert(to_install@ =~= start.to_install);
        assert(chars::views(incompatible@) =~= start.incompatible);
        assert(chars::views(satisfied@) =~= start.satisfied);
    }
    while n < required.entries.len()
        invariant
            n <= required.entries.len(),
            to_install@ == scope_decision(
                required@,
                chars::views(issues@),
                installed@,
                n as int,
            ).to_install,
            chars::views(incompatible@) == scope_decision(
                required@,
                chars::views(issues@),
                installed@,
                n as int,
            ).incompatible,
            chars::views(satisfied@) == scope_decision(
                required@,
                chars::views(issues@),
                installed@,
                n as int,
            ).satisfied,
        decreases required.entries.len() - n,
    {
        let name = required.entries[n].0.as_str();
        let version = required.entries[n].1.as_str();
        let ghost before = scope_decision(required@, chars::views(issues@), installed@, n as int);
        match issue_for(issues, name) {
            Some(issue) => {
                to_install.entries.push((name.to_owned(), version.to_owned()));
                let line = if issue.reason == RequirementIssueReason::Missing {
                    let pieces: Vec<&str> = vec![name, ": required ", version];
                    proof {
                        let p = chars::views(pieces@);
                        assert(p =~= seq![name@, ": required "@, version@]);
                        assert(flat(p, 3) == flat(p, 2) + p[2]);
                        assert(flat(p, 2) == flat(p, 1) + p[1]);
                        assert(flat(p, 1) == flat(p, 0) + p[0]);
                        assert(flat(p, 3) =~= name@ + ": required "@ + version@);
                    }
                    concat_all(&pieces)
                } else {
                    let shown: &str = match &issue.installed {
                        Some(have) => have.as_str(),
                        None => "unknown",
                    };
                    let pieces: Vec<&str> = vec![name, ": installed ", shown, ", required ", version];
                    proof {
                        let p = chars::views(pieces@);
                        assert(p =~= seq![
                            name@,
                            ": installed "@,
                            shown@,
                            ", required "@,
                            version@,
                        ]);
                        assert(flat(p, 5) == flat(p, 4) + p[4]);
                        assert(flat(p, 4) == flat(p, 3) + p[3]);
                        assert(flat(p, 3) == flat(p, 2) + p[2]);
                        assert(flat(p, 2) == flat(p, 1) + p[1]);
                        assert(flat(p, 1) == flat(p, 0) + p[0]);
                        assert(flat(p, 5) =~= name@ + ": installed "@ + shown@ + ", required "@
                            + version@);
                    }
                    concat_all(&pieces)
                };
                incompatible.push(line);
                proof {
                    assert(to_install@ =~= before.to_install.push((name@, version@)));
                    assert(chars::views(incompatible@) =~= before.incompatible.push(line@));
                }
            },
            None => {
                match installed.get(name) {
                    Some(have) => {
                        let pieces: Vec<&str> = vec![
                            name,
                            "@",
                            have.as_str(),
                            " (satisfies ",
                            version,
                            ")",
                        ];
                        proof {
                            let p = chars::views(pieces@);
                            assert(p =~= seq![
                                name@,
                                "@"@,
                                have@,
                                " (satisfies "@,
                                version@,
                                ")"@,
                            ]);
                            assert(flat(p, 6) == flat(p, 5) + p[5]);
                            assert(flat(p, 5) == flat(p, 4) + p[4]);
                            assert(flat(p, 4) == flat(p, 3) + p[3]);
                            assert(flat(p, 3) == flat(p, 2) + p[2]);
                            assert(flat(p, 2) == flat(p, 1) + p[1]);
                            assert(flat(p, 1) == flat(p, 0) + p[0]);
                            assert(flat(p, 6) =~= satisfied_line(name@, have@, version@));
                        }
                        let line = concat_all(&pieces);
                        satisfied.push(line);
                        assert(chars::views(satisfied@) =~= before.satisfied.push(line@));
                    },
                    None => {},
                }
            },
        }
        n += 1;
    }
    ScopeReport { to_install, incompatible, satisfied }
}

/// What is decided of the packages of one workspace: what is installed in
/// each scope, with which command, and what is said about it.
pub struct WorkspaceDependencyReport {
    /// What is decided of the regular packages.
    pub regular: ScopeReport,
    /// What is decided of the development packages.
    pub dev: ScopeReport,
    /// The command that installs the regular packages, if there are any.
    pub regular_plan: Option<DependencyInstallPlan>,
    /// The command that installs the development packages, if there are any.
    pub dev_plan: Option<DependencyInstallPlan>,
}

/// All the packages that a workspace needs, a development package taking
/// the place of a regular one of the same name.
pub open spec fn all_required(dependencies: WorkspaceDependencySet) -> Seq<(Seq<char>, Seq<char>)> {
    merged_up_to(
        dependencies.regular@,
        dependencies.dev@,
        (dependencies.regular@.len() + dependencies.dev@.len()) as int,
    )
}

/// What is decided of the packages of a workspace, given its regular and
/// its development packages in the order in which they are gone through.
pub open spec fn workspace_decision(
    report: WorkspaceDependencyReport,
    regular_entries: Seq<(Seq<char>, Seq<char>)>,
    dev_entries: Seq<(Seq<char>, Seq<char>)>,
    dependencies: WorkspaceDependencySet,
    project: ProjectPackages,
    context: PackageManagerContext,
    environment: InstallEnvironment,
) -> bool {
    let issues = project_issues(project, all_required(dependencies));
    let installed = installed_view(project);
    let regular = scope_decision(regular_entries, issues, installed, regular_entries.len() as int);
    let dev = scope_decision(dev_entries, issues, installed, dev_entries.len() as int);
    &&& report.regular.to_install@ == regular.to_install
    &&& chars::views(report.regular.incompatible@) == regular.incompatible
    &&& chars::views(report.regular.satisfied@) == regular.satisfied
    &&& report.dev.to_install@ == dev.to_install
    &&& chars::views(report.dev.incompatible@) == dev.incompatible
    &&& chars::views(report.dev.satisfied@) == dev.satisfied
    &&& report.regular_plan is None <==> regular.to_install.len() == 0
    &&& report.dev_plan is None <==> dev.to_install.len() == 0
    &&& report.regular_plan matches Some(plan) ==> {
        &&& sorted(plan@.dependencies)
        &&& plan@.dependencies.to_multiset() == install_tokens(regular.to_install).to_multiset()
        &&& plan@ == plan_for(plan@.dependencies, context, environment)
    }
    &&& report.dev_plan matches Some(plan) ==> {
        &&& sorted(plan@.dependencies)
        &&& plan@.dependencies.to_multiset() == install_tokens(dev.to_install).to_multiset()
        &&& plan@ == plan_for(plan@.dependencies, context, environment)
    }
}

/// Reconciles the packages that a workspace needs with what its project
/// has, and plans the installs: every required package is checked against
/// the project; in each scope the packages are gone through in rising
/// order of their names, those with an issue are installed by one command,
/// and the others are reported as satisfied where the project has them.
pub fn handle_workspace_dependencies(
    dependencies: &WorkspaceDependencySet,
    project: &ProjectPackages,
    context: &PackageManagerContext,
    environment: &InstallEnvironment,
) -> (r: WorkspaceDependencyReport)
    ensures
        exists|regular_entries: Seq<(Seq<char>, Seq<char>)>, dev_entries: Seq<(Seq<char>, Seq<char>)>|
            {
                &&& is_sorting_of(regular_entries, dependencies.regular@)
                &&& is_sorting_of(dev_entries, dependencies.dev@)
                &&& #[trigger] workspace_decision(
                    r,
                    regular_entries,
                    dev_entries,
                    *dependencies,
                    *project,
                    *context,
                    *environment,
                )
            },
{
    let installed = get_installed_dependencies_at(project);
    let required = declared_dependencies(&dependencies.regular, &dependencies.dev);
    let issues = check_project_requirements(project, &required);
    let regular_entries = dependencies.regular.sorted_by_name();
    let dev_entries = dependencies.dev.sorted_by_name();
    let regular = decide_scope(&regular_entries, &issues, &installed);
    let dev = decide_scope(&dev_entries, &issues, &installed);
    let regular_plan = plan_dependency_install(&regular.to_install, context, environment);
    let dev_plan = plan_dependency_install(&dev.to_install, context, environment);
    let report = WorkspaceDependencyReport { regular, dev, regular_plan, dev_plan };
    assert(workspace_decision(
        report,
        regular_entries@,
        dev_entries@,
        *dependencies,
        *project,
        *context,
        *environment,
    ));
    report
}

/// The packages that a shared UI workspace asks of its host.
pub open spec fn is_peer_dependency(name: Seq<char>) -> bool {
    name == "react"@ || name == "react-dom"@
}

/// The packages that a shared UI workspace needs for development only.
pub open spec fn is_dev_dependency(name: Seq<char>) -> bool {
    name == "@types/react"@
}

/// The scope in which a shared UI workspace installs a package.
pub open spec fn shared_ui_scope(name: Seq<char>) -> DependencyScope {
    if is_peer_dependency(name) {
        DependencyScope::Peer
    } else if is_dev_dependency(name) {
        DependencyScope::Dev
    } else {
        DependencyScope::Regular
    }
}

/// The entries among the first `n` that a shared UI workspace installs in
/// the given scope.
pub open spec fn scope_entries(required: Seq<(Seq<char>, Seq<char>)>, scope: DependencyScope, n: int) -> Seq<
    (Seq<char>, Seq<char>),
>
    decreases n,
{
    if n <= 0 {
        seq![]
    } else {
        let before = scope_entries(required, scope, n - 1);
        if shared_ui_scope(required[n - 1].0) == scope {
            before.push(required[n - 1])
        } else {
            before
        }
    }
}

/// The groups in which the required packages are installed: for a shared
/// UI workspace its peer, development and regular packages, in that order,
/// empty groups left out; for any other workspace all of them as regular
/// packages.
pub open spec fn install_groups(required: Seq<(Seq<char>, Seq<char>)>, is_shared_ui: bool) -> Seq<
    (DependencyScope, Seq<(Seq<char>, Seq<char>)>),
> {
    let n = required.len() as int;
    if is_shared_ui {
        let peer = scope_entries(required, DependencyScope::Peer, n);
        let dev = scope_entries(required, DependencyScope::Dev, n);
        let regular = scope_entries(required, DependencyScope::Regular, n);
        (if peer.len() > 0 {
            seq![(DependencyScope::Peer, peer)]
        } else {
            seq![]
        }) + (if dev.len() > 0 {
            seq![(DependencyScope::Dev, dev)]
        } else {
            seq![]
        }) + (if regular.len() > 0 {
            seq![(DependencyScope::Regular, regular)]
        } else {
            seq![]
        })
    } else if required.len() > 0 {
        seq![(DependencyScope::Regular, required)]
    } else {
        seq![]
    }
}

/// The groups that a list of scopes and maps holds.
pub open spec fn group_views(groups: Seq<(DependencyScope, StringMap)>) -> Seq<
    (DependencyScope, Seq<(Seq<char>, Seq<char>)>),
> {
    Seq::new(groups.len(), |i: int| (groups[i].0, groups[i].1@))
}

/// Parts the required packages, taken in rising order of their names,
/// into the groups in which they are installed.
pub fn handle_dependencies(required: &StringMap, is_shared_ui: bool) -> (r: Vec<
    (DependencyScope, StringMap),
>)
    ensures
        exists|entries: Seq<(Seq<char>, Seq<char>)>|
            is_sorting_of(entries, required@) && group_views(r@) == #[trigger] install_groups(
                entries,
                is_shared_ui,
            ),
{
    let required = &required.sorted_by_name();
    let mut groups: Vec<(DependencyScope, StringMap)> = Vec::new();
    if !is_shared_ui {
        if !required.is_empty() {
            groups.push((DependencyScope::Regular, required.duplicate()));
        }
        assert(group_views(groups@) =~= install_groups(required@, is_shared_ui));
        return groups;
    }
    let mut peer = StringMap { entries: Vec::new() };
    let mut dev = StringMap { entries: Vec::new() };
    let mut regular = StringMap { entries: Vec::new() };
    let mut n: usize = 0;
    proof {
        assert(peer@ =~= scope_entries(required@, DependencyScope::Peer, 0));
        assert(dev@ =~= scope_entries(required@, DependencyScope::Dev, 0));
        assert(regular@ =~= scope_entries(required@, DependencyScope::Regular, 0));
    }
    while n < required.entries.len()
        invariant
            n <= required.entries.len(),
            peer@ == scope_entries(required@, DependencyScope::Peer, n as int),
            dev@ == scope_entries(required@, DependencyScope::Dev, n as int),
            regular@ == scope_entries(required@, DependencyScope::Regular, n as int),
        decreases required.entries.len() - n,
    {
        let name = required.entries[n].0.as_str();
        let entry = (required.entries[n].0.clone(), required.entries[n].1.clone());
        let ghost p = peer@;
        let ghost d = dev@;
        let ghost g = regular@;
        if same_text(name, "react") || same_text(name, "react-dom") {
            peer.entries.push(entry);
            assert(peer@ =~= p.push(required@[n as int]));
        } else if same_text(name, "@types/react") {
            dev.entries.push(entry);
            assert(dev@ =~= d.push(required@[n as int]));
        } else {
            regular.entries.push(entry);
            assert(regular@ =~= g.push(required@[n as int]));
        }
        n += 1;
    }
    if !peer.is_empty() {
        groups.push((DependencyScope::Peer, peer));
    }
    if !dev.is_empty() {
        groups.push((DependencyScope::Dev, dev));
    }
    if !regular.is_empty() {
        groups.push((DependencyScope::Regular, regular));
    }
    assert(group_views(groups@) =~= install_groups(required@, is_shared_ui));
    groups
}

} // verus!
