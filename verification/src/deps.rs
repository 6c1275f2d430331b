//! Reconciling the packages that components need with what a project has
//! installed or declared.

use vstd::prelude::*;
use crate::chars;
use crate::string_map::{
    is_sorting_of,
    lookup,
    names,
    position,
    position_from,
    same_text,
    StringMap,
};
use crate::types::option_view;
use crate::versions::{
    extract_major,
    extract_version_from_spec,
    major_of,
    parse_version,
    parsed_version,
    range_accepts,
    range_accepts_version,
    normalized_version,
    normalize_version_str,
    version_in_spec,
};

verus! {

/// The files that show that Yarn runs without a `node_modules` tree.
pub const YARN_PNP_MARKERS: [&'static str; 3] = [".pnp.cjs", ".pnp.js", ".pnp.loader.mjs"];

/// Why a required package has to be installed.
#[derive(Clone, Copy, Debug, PartialEq, Eq, Structural)]
pub enum RequirementIssueReason {
    /// Neither installed nor declared.
    Missing,
    /// What the project has does not meet the required range.
    Outdated,
    /// Installed, but its version could not be read.
    Unknown,
}

/// A required package that the project does not provide as required.
#[derive(Clone, Debug, PartialEq, Eq)]
pub struct RequirementIssue {
    pub name: String,
    pub required: String,
    pub installed: Option<String>,
    pub declared: Option<String>,
    pub reason: RequirementIssueReason,
}

/// What a `RequirementIssue` says.
pub struct RequirementIssueView {
    pub name: Seq<char>,
    pub required: Seq<char>,
    pub installed: Option<Seq<char>>,
    pub declared: Option<Seq<char>>,
    pub reason: RequirementIssueReason,
}

impl View for RequirementIssue {
    type V = RequirementIssueView;

    open spec fn view(&self) -> RequirementIssueView {
        RequirementIssueView {
            name: self.name@,
            required: self.required@,
            installed: option_view(self.installed),
            declared: option_view(self.declared),
            reason: self.reason,
        }
    }
}

/// A package found in a `node_modules` directory at or above the project,
/// with the version that its metadata gives, where it gives one.
#[derive(Clone, Debug)]
pub struct InstalledModule {
    pub name: String,
    pub version: Option<String>,
}

/// What a project's tree shows of its packages.
#[derive(Clone, Debug)]
pub struct ProjectPackages {
    /// The ranges that `package.json` declares, development packages included.
    pub declared: StringMap,
    /// The packages found installed.
    pub modules: Vec<InstalledModule>,
    /// Whether Yarn runs in Plug'n'Play mode here.
    pub uses_yarn_pnp: bool,
}

/// The names of the installed modules, in order.
pub open spec fn module_names(modules: Seq<InstalledModule>) -> Seq<Seq<char>> {
    Seq::new(modules.len(), |i: int| modules[i].name@)
}

impl ProjectPackages {
    /// Whether a module of that name is installed.
    pub open spec fn has_module(&self, name: Seq<char>) -> bool {
        position(module_names(self.modules@), name) is Some
    }

    /// The version that the installed module of that name gives.
    pub open spec fn module_version(&self, name: Seq<char>) -> Option<Seq<char>> {
        match position(module_names(self.modules@), name) {
            Some(i) => option_view(self.modules@[i].version),
            None => None,
        }
    }

    /// The range that the project declares for that name.
    pub open spec fn declared_range(&self, name: Seq<char>) -> Option<Seq<char>> {
        lookup(self.declared@, name)
    }

    /// The first installed module of that name.
    pub fn find_module(&self, name: &str) -> (r: Option<&InstalledModule>)
        ensures
            r is Some == self.has_module(name@),
            r matches Some(module) ==> option_view(module.version) == self.module_version(name@),
    {
        let mut i: usize = 0;
        while i < self.modules.len()
            invariant
                i <= self.modules.len(),
                position(module_names(self.modules@), name@) == position_from(
                    module_names(self.modules@),
                    name@,
                    i as int,
                ),
            decreases self.modules.len() - i,
        {
            if same_text(self.modules[i].name.as_str(), name) {
                return Some(&self.modules[i]);
            }
            i += 1;
        }
        None
    }
}

/// Whether a declared range and a required range agree under Yarn
/// Plug'n'Play: the version in one meets the other, either way round.
pub open spec fn declared_satisfies(required_range: Seq<char>, declared_spec: Seq<char>) -> bool {
    ||| (version_in_spec(declared_spec) matches Some(version) && range_accepts(
        required_range,
        version,
    ))
    ||| (version_in_spec(required_range) matches Some(version) && range_accepts(
        declared_spec,
        version,
    ))
}

/// Whether a declared range and a required range agree, either way round.
pub fn yarn_declared_satisfies(required_range: &str, declared_spec: &str) -> (r: bool)
    ensures
        r == declared_satisfies(required_range@, declared_spec@),
{
    let forward = match extract_version_from_spec(declared_spec) {
        Some(version) => range_accepts_version(required_range, version.as_str()),
        None => false,
    };
    let backward = match extract_version_from_spec(required_range) {
        Some(version) => range_accepts_version(declared_spec, version.as_str()),
        None => false,
    };
    satisfied_either_way(forward, backward)
}

/// Two ranges agree where the version of either meets the other.
pub fn satisfied_either_way(forward: bool, backward: bool) -> (r: bool)
    ensures
        r == (forward || backward),
{
    forward || backward
}

/// The issue with a required package that is not installed: none where
/// Plug'n'Play is in use and the declared range agrees; else outdated where
/// the package is declared, and missing where it is not.
pub open spec fn absent_issue(
    name: Seq<char>,
    required: Seq<char>,
    declared: Option<Seq<char>>,
    pnp_agrees: bool,
) -> Option<RequirementIssueView> {
    if pnp_agrees {
        None
    } else {
        Some(
            RequirementIssueView {
                name,
                required,
                installed: None,
                declared,
                reason: if declared is Some {
                    RequirementIssueReason::Outdated
                } else {
                    RequirementIssueReason::Missing
                },
            },
        )
    }
}

/// The issue with a required package that is not installed.
pub fn assess_absent(name: &str, required: &str, declared: Option<&String>, pnp_agrees: bool) -> (r:
    Option<RequirementIssue>)
    ensures
        (match r {
            Some(issue) => Some(issue@),
            None => None,
        }) == absent_issue(
            name@,
            required@,
            match declared {
                Some(d) => Some(d@),
                None => None,
            },
            pnp_agrees,
        ),
{
    if pnp_agrees {
        return None;
    }
    let reason = if declared.is_some() {
        RequirementIssueReason::Outdated
    } else {
        RequirementIssueReason::Missing
    };
    let declared = match declared {
        Some(d) => Some(d.clone()),
        None => None,
    };
    Some(
        RequirementIssue {
            name: name.to_owned(),
            required: required.to_owned(),
            installed: None,
            declared,
            reason,
        },
    )
}

/// Whether the version in use has a higher major number than the range asks.
pub open spec fn higher_major(installed_spec: Option<Seq<char>>, required: Seq<char>) -> bool {
    match installed_spec {
        Some(spec) => match (major_of(spec), major_of(required)) {
            (Some(have), Some(want)) => have > want,
            _ => false,
        },
        None => false,
    }
}

/// The issue with a required package that is installed. `installed_spec` is
/// the version in use, `resolved` its canonical text where it is a version,
/// `range_satisfied` whether it meets the required range. There is none
/// where the range is met or the major number is higher than required.
pub open spec fn installed_issue(
    name: Seq<char>,
    required: Seq<char>,
    installed_spec: Option<Seq<char>>,
    resolved: Option<Seq<char>>,
    range_satisfied: bool,
) -> Option<RequirementIssueView> {
    if range_satisfied || higher_major(installed_spec, required) {
        None
    } else {
        Some(
            RequirementIssueView {
                name,
                required,
                installed: resolved,
                declared: if resolved == installed_spec {
                    None
                } else {
                    installed_spec
                },
                reason: if resolved is Some {
                    RequirementIssueReason::Outdated
                } else {
                    RequirementIssueReason::Unknown
                },
            },
        )
    }
}

/// The issue with a required package that is installed.
pub fn assess_installed(
    name: &str,
    required: &str,
    installed_spec: Option<String>,
    resolved: Option<String>,
    range_satisfied: bool,
) -> (r: Option<RequirementIssue>)
    ensures
        (match r {
            Some(issue) => Some(issue@),
            None => None,
        }) == installed_issue(
            name@,
            required@,
            option_view(installed_spec),
            option_view(resolved),
            range_satisfied,
        ),
{
    let higher = match &installed_spec {
        Some(spec) => match (extract_major(spec.as_str()), extract_major(required)) {
            (Some(have), Some(want)) => have > want,
            _ => false,
        },
        None => false,
    };
    if range_satisfied || higher {
        return None;
    }
    let reason = if resolved.is_some() {
        RequirementIssueReason::Outdated
    } else {
        RequirementIssueReason::Unknown
    };
    let declared = match (&resolved, installed_spec) {
        (Some(canonical), Some(spec)) => if same_text(canonical.as_str(), spec.as_str()) {
            None
        } else {
            Some(spec)
        },
        (None, Some(spec)) => Some(spec),
        (_, None) => None,
    };
    Some(
        RequirementIssue {
            name: name.to_owned(),
            required: required.to_owned(),
            installed: resolved,
            declared,
            reason,
        },
    )
}

/// The version in use of an installed package: the one its metadata gives,
/// else the declared range.
pub open spec fn version_in_use(project: ProjectPackages, name: Seq<char>) -> Option<Seq<char>> {
    match project.module_version(name) {
        Some(version) => Some(version),
        None => project.declared_range(name),
    }
}

/// The issue, if any, with one required package.
pub open spec fn requirement_issue(
    project: ProjectPackages,
    name: Seq<char>,
    required: Seq<char>,
) -> Option<RequirementIssueView> {
    if !project.has_module(name) {
        absent_issue(
            name,
            required,
            project.declared_range(name),
            project.uses_yarn_pnp && (project.declared_range(name) matches Some(declared)
                && declared_satisfies(required, declared)),
        )
    } else {
        let spec = version_in_use(project, name);
        installed_issue(
            name,
            required,
            spec,
            match spec {
                Some(s) => parsed_version(s),
                None => None,
            },
            spec matches Some(s) && range_accepts(required, normalized_version(s)),
        )
    }
}

/// The issues with the first `n` requirements, in their order.
pub open spec fn issues_up_to(
    project: ProjectPackages,
    requirements: Seq<(Seq<char>, Seq<char>)>,
    n: int,
) -> Seq<RequirementIssueView>
    decreases n,
{
    if n <= 0 {
        seq![]
    } else {
        let before = issues_up_to(project, requirements, n - 1);
        match requirement_issue(project, requirements[n - 1].0, requirements[n - 1].1) {
            Some(issue) => before.push(issue),
            None => before,
        }
    }
}

/// The issues with a list of requirements, in the list's order.
pub open spec fn project_issues(
    project: ProjectPackages,
    requirements: Seq<(Seq<char>, Seq<char>)>,
) -> Seq<RequirementIssueView> {
    issues_up_to(project, requirements, requirements.len() as int)
}

/// Checks one required package against the project.
pub fn check_requirement(project: &ProjectPackages, name: &str, required: &str) -> (r: Option<
    RequirementIssue,
>)
    ensures
        (match r {
            Some(issue) => Some(issue@),
            None => None,
        }) == requirement_issue(*project, name@, required@),
{
    let declared = project.declared.get(name);
    match project.find_module(name) {
        None => {
            let pnp_agrees = project.uses_yarn_pnp && match declared {
                Some(spec) => yarn_declared_satisfies(required, spec.as_str()),
                None => false,
            };
            assess_absent(name, required, declared, pnp_agrees)
        },
        Some(module) => {
            let spec: Option<String> = match &module.version {
                Some(version) => Some(version.clone()),
                None => match declared {
                    Some(range) => Some(range.clone()),
                    None => None,
                },
            };
            let resolved = match &spec {
                Some(s) => parse_version(s.as_str()),
                None => None,
            };
            let range_satisfied = match &spec {
                Some(s) => {
                    let normalized = normalize_version_str(s.as_str());
                    range_accepts_version(required, normalized.as_str())
                },
                None => false,
            };
            assess_installed(name, required, spec, resolved, range_satisfied)
        },
    }
}

/// Checks every required package against the project and lists the issues
/// in the order of the requirements.
pub fn check_project_requirements(project: &ProjectPackages, requirements: &StringMap) -> (r: Vec<
    RequirementIssue,
>)
    ensures
        chars::views(r@) == project_issues(*project, requirements@),
{
    let mut issues: Vec<RequirementIssue> = Vec::new();
    let mut i: usize = 0;
    assert(chars::views(issues@) =~= issues_up_to(*project, requirements@, 0));
    while i < requirements.entries.len()
        invariant
            i <= requirements.entries.len(),
            chars::views(issues@) == issues_up_to(*project, requirements@, i as int),
        decreases requirements.entries.len() - i,
    {
        let name = requirements.entries[i].0.as_str();
        let required = requirements.entries[i].1.as_str();
        let ghost before = chars::views(issues@);
        match check_requirement(project, name, required) {
            Some(issue) => {
                issues.push(issue);
                assert(chars::views(issues@) =~= before.push(issue@));
            },
            None => {},
        }
        i += 1;
    }
    issues
}

/// A required package that is higher in major number than the range asks
/// raises no issue, whatever the range says of it.
pub proof fn lemma_higher_major_satisfies(
    project: ProjectPackages,
    name: Seq<char>,
    required: Seq<char>,
)
    requires
        project.has_module(name),
        higher_major(version_in_use(project, name), required),
    ensures
        requirement_issue(project, name, required) is None,
{
}

/// Under Yarn Plug'n'Play a package that is not installed raises no issue
/// where its declared range agrees with the required one.
pub proof fn lemma_pnp_declared_satisfies(
    project: ProjectPackages,
    name: Seq<char>,
    required: Seq<char>,
    declared: Seq<char>,
)
    requires
        project.uses_yarn_pnp,
        !project.has_module(name),
        project.declared_range(name) == Some(declared),
        declared_satisfies(required, declared),
    ensures
        requirement_issue(project, name, required) is None,
{
}

/// The required packages that are not among the installed ones, with their
/// ranges, in the order of `required`.
pub open spec fn missing_up_to(
    required: Seq<(Seq<char>, Seq<char>)>,
    installed: Seq<(Seq<char>, Seq<char>)>,
    n: int,
) -> Seq<(Seq<char>, Seq<char>)>
    decreases n,
{
    if n <= 0 {
        seq![]
    } else {
        let before = missing_up_to(required, installed, n - 1);
        if lookup(installed, required[n - 1].0) is Some {
            before
        } else {
            before.push(required[n - 1])
        }
    }
}

/// The required packages that are not among the installed ones, in
/// rising order of their names.
pub fn missing_dependencies(required: &StringMap, installed: &StringMap) -> (r: StringMap)
    ensures
        is_sorting_of(r@, missing_up_to(required@, installed@, required@.len() as int)),
{
    let mut missing = StringMap { entries: Vec::new() };
    let mut i: usize = 0;
    assert(missing@ =~= missing_up_to(required@, installed@, 0));
    while i < required.entries.len()
        invariant
            i <= required.entries.len(),
            missing@ == missing_up_to(required@, installed@, i as int),
        decreases required.entries.len() - i,
    {
        let ghost before = missing@;
        if !installed.contains_key(required.entries[i].0.as_str()) {
            missing.entries.push((required.entries[i].0.clone(), required.entries[i].1.clone()));
            assert(missing@ =~= before.push(required@[i as int]));
        }
        i += 1;
    }
    missing.sorted_by_name()
}

/// The entries of `first` and then of `second`, a later value taking the
/// place of an earlier one for the same name.
pub open spec fn merged_up_to(
    first: Seq<(Seq<char>, Seq<char>)>,
    second: Seq<(Seq<char>, Seq<char>)>,
    n: int,
) -> Seq<(Seq<char>, Seq<char>)>
    decreases n,
{
    if n <= 0 {
        seq![]
    } else {
        let before = merged_up_to(first, second, n - 1);
        let entry = if n <= first.len() {
            first[n - 1]
        } else {
            second[n - 1 - first.len()]
        };
        match position(names(before), entry.0) {
            Some(i) => before.update(i, entry),
            None => before.push(entry),
        }
    }
}

/// What `package.json` declares: its dependencies, then its development
/// dependencies, one entry for each name.
pub fn declared_dependencies(dependencies: &StringMap, dev_dependencies: &StringMap) -> (r:
    StringMap)
    ensures
        r.wf(),
        r@ == merged_up_to(
            dependencies@,
            dev_dependencies@,
            (dependencies@.len() + dev_dependencies@.len()) as int,
        ),
{
    let mut merged = StringMap::new();
    let mut i: usize = 0;
    while i < dependencies.entries.len()
        invariant
            i <= dependencies.entries.len(),
            merged.wf(),
            merged@ == merged_up_to(dependencies@, dev_dependencies@, i as int),
        decreases dependencies.entries.len() - i,
    {
        merged.insert(dependencies.entries[i].0.clone(), dependencies.entries[i].1.clone());
        i += 1;
    }
    let mut k: usize = 0;
    while k < dev_dependencies.entries.len()
        invariant
            k <= dev_dependencies.entries.len(),
            merged.wf(),
            merged@ == merged_up_to(
                dependencies@,
                dev_dependencies@,
                (dependencies@.len() + k) as int,
            ),
        decreases dev_dependencies.entries.len() - k,
    {
        merged.insert(dev_dependencies.entries[k].0.clone(), dev_dependencies.entries[k].1.clone());
        k += 1;
    }
    merged
}

/// For each declared name the version in use: the installed one where the
/// module gives it, else the declared range.
pub open spec fn installed_view(project: ProjectPackages) -> Seq<(Seq<char>, Seq<char>)> {
    Seq::new(
        project.declared@.len(),
        |i: int|
            (
                project.declared@[i].0,
                match project.module_version(project.declared@[i].0) {
                    Some(version) => version,
                    None => project.declared@[i].1,
                },
            ),
    )
}

/// For each declared name the version in use.
pub fn get_installed_dependencies_at(project: &ProjectPackages) -> (r: StringMap)
    ensures
        r@ == installed_view(*project),
{
    let mut resolved = StringMap { entries: Vec::new() };
    let mut i: usize = 0;
    while i < project.declared.entries.len()
        invariant
            i <= project.declared.entries.len(),
            resolved@ == installed_view(*project).take(i as int),
        decreases project.declared.entries.len() - i,
    {
        let name = project.declared.entries[i].0.clone();
        let ghost before = resolved@;
        let version = match project.find_module(name.as_str()) {
            Some(module) => match &module.version {
                Some(version) => version.clone(),
                None => project.declared.entries[i].1.clone(),
            },
            None => project.declared.entries[i].1.clone(),
        };
        resolved.entries.push((name, version));
        assert(resolved@ =~= before.push(installed_view(*project)[i as int]));
        assert(installed_view(*project).take(i + 1) =~= before.push(
            installed_view(*project)[i as int],
        ));
        i += 1;
    }
    assert(installed_view(*project).take(project.declared@.len() as int) =~= installed_view(
        *project,
    ));
    resolved
}

} // verus!
