//! Package managers, the context in which one is run, and the manifest of
//! the workspaces of a repository.

use vstd::prelude::*;
use crate::chars;
use crate::string_map::same_text;
use crate::text;
use crate::types::{option_view, WorkspaceKind};

verus! {

/// The file that lists the workspaces of a repository.
pub const WORKSPACE_MANIFEST_FILE: &'static str = "nocta.workspace.json";

/// The package managers that can install dependencies.
#[derive(Clone, Copy, Debug, PartialEq, Eq, Structural)]
pub enum PackageManagerKind {
    Npm,
    Pnpm,
    Yarn,
    Bun,
}

impl PackageManagerKind {
    /// The name of the program.
    pub open spec fn name(self) -> Seq<char> {
        match self {
            PackageManagerKind::Npm => "npm"@,
            PackageManagerKind::Pnpm => "pnpm"@,
            PackageManagerKind::Yarn => "yarn"@,
            PackageManagerKind::Bun => "bun"@,
        }
    }

    /// The package manager with the given name.
    pub open spec fn named(name: Seq<char>) -> Option<PackageManagerKind> {
        if name == "npm"@ {
            Some(PackageManagerKind::Npm)
        } else if name == "pnpm"@ {
            Some(PackageManagerKind::Pnpm)
        } else if name == "yarn"@ {
            Some(PackageManagerKind::Yarn)
        } else if name == "bun"@ {
            Some(PackageManagerKind::Bun)
        } else {
            None
        }
    }

    /// The name of the program.
    pub fn as_str(&self) -> (r: &'static str)
        ensures
            r@ == self.name(),
    {
        match self {
            PackageManagerKind::Npm => "npm",
            PackageManagerKind::Pnpm => "pnpm",
            PackageManagerKind::Yarn => "yarn",
            PackageManagerKind::Bun => "bun",
        }
    }

    /// The package manager with the given name, if there is one.
    pub fn from_name(name: &str) -> (r: Option<Self>)
        ensures
            r == Self::named(name@),
    {
        if same_text(name, "npm") {
            Some(PackageManagerKind::Npm)
        } else if same_text(name, "pnpm") {
            Some(PackageManagerKind::Pnpm)
        } else if same_text(name, "yarn") {
            Some(PackageManagerKind::Yarn)
        } else if same_text(name, "bun") {
            Some(PackageManagerKind::Bun)
        } else {
            None
        }
    }

    /// Every package manager is found again by its own name.
    pub proof fn lemma_name_round_trip(kind: PackageManagerKind)
        ensures
            Self::named(kind.name()) == Some(kind),
    {
        reveal_strlit("npm");
        reveal_strlit("pnpm");
        reveal_strlit("yarn");
        reveal_strlit("bun");
        assert("npm"@.len() == 3 && "bun"@.len() == 3 && "pnpm"@.len() == 4 && "yarn"@.len() == 4);
        assert("npm"@[0] == 'n' && "bun"@[0] == 'b' && "pnpm"@[0] == 'p' && "yarn"@[0] == 'y');
    }
}

/// Where and for which package a package manager is run.
#[derive(Clone, Debug)]
pub struct PackageManagerContext {
    pub repo_root: String,
    pub workspace_root: Option<String>,
    pub workspace_package: Option<String>,
    pub package_manager: Option<PackageManagerKind>,
}

impl PackageManagerContext {
    /// A context at the root of a repository, with nothing else known.
    pub fn new(repo_root: &str) -> (r: Self)
        ensures
            r.repo_root@ == repo_root@,
            r.workspace_root is None,
            r.workspace_package is None,
            r.package_manager is None,
    {
        PackageManagerContext {
            repo_root: repo_root.to_owned(),
            workspace_root: None,
            workspace_package: None,
            package_manager: None,
        }
    }

    /// The same context with the workspace's directory set.
    pub fn with_workspace_root(self, root: &str) -> (r: Self)
        ensures
            r.repo_root == self.repo_root,
            option_view(r.workspace_root) == Some(root@),
            r.workspace_package == self.workspace_package,
            r.package_manager == self.package_manager,
    {
        let mut next = self;
        next.workspace_root = Some(root.to_owned());
        next
    }

    /// The same context with the workspace's package name set.
    pub fn with_workspace_package(self, package: &str) -> (r: Self)
        ensures
            r.repo_root == self.repo_root,
            r.workspace_root == self.workspace_root,
            option_view(r.workspace_package) == Some(package@),
            r.package_manager == self.package_manager,
    {
        let mut next = self;
        next.workspace_package = Some(package.to_owned());
        next
    }

    /// The same context with the package manager set.
    pub fn with_package_manager(self, manager: PackageManagerKind) -> (r: Self)
        ensures
            r.repo_root == self.repo_root,
            r.workspace_root == self.workspace_root,
            r.workspace_package == self.workspace_package,
            r.package_manager == Some(manager),
    {
        let mut next = self;
        next.package_manager = Some(manager);
        next
    }
}

/// One workspace of a repository, as the manifest lists it.
#[derive(Clone, Debug)]
pub struct WorkspaceManifestEntry {
    pub name: String,
    pub kind: WorkspaceKind,
    pub package_name: Option<String>,
    pub root: String,
    pub config: String,
}

/// The workspaces of a repository and its package manager.
#[derive(Clone, Debug)]
pub struct WorkspaceManifest {
    pub workspaces: Vec<WorkspaceManifestEntry>,
    pub package_manager: Option<PackageManagerKind>,
    pub repo_root: Option<String>,
}

impl Default for WorkspaceManifest {
    fn default() -> (r: Self)
        ensures
            r.workspaces@.len() == 0,
            r.package_manager is None,
            r.repo_root is None,
    {
        WorkspaceManifest { workspaces: Vec::new(), package_manager: None, repo_root: None }
    }
}

impl WorkspaceManifestEntry {
    /// The entry goes by `package_name`: as its package or as its own name.
    pub open spec fn answers_to(&self, package_name: Seq<char>) -> bool {
        option_view(self.package_name) == Some(package_name) || self.name@ == package_name
    }
}

/// The first workspace that goes by `package_name`.
pub fn resolve_workspace_by_package<'a>(manifest: &'a WorkspaceManifest, package_name: &str) -> (r:
    Option<&'a WorkspaceManifestEntry>)
    ensures
        r matches Some(entry) ==> exists|i: int|
            0 <= i < manifest.workspaces@.len() && *entry == #[trigger] manifest.workspaces@[i]
                && entry.answers_to(package_name@) && forall|j: int|
                0 <= j < i ==> !(#[trigger] manifest.workspaces@[j]).answers_to(package_name@),
        r is None ==> forall|j: int|
            0 <= j < manifest.workspaces@.len() ==> !(#[trigger] manifest.workspaces@[j]).answers_to(
                package_name@,
            ),
{
    let mut i: usize = 0;
    while i < manifest.workspaces.len()
        invariant
            i <= manifest.workspaces.len(),
            forall|j: int|
                0 <= j < i ==> !(#[trigger] manifest.workspaces@[j]).answers_to(package_name@),
        decreases manifest.workspaces.len() - i,
    {
        let entry = &manifest.workspaces[i];
        let by_package = match &entry.package_name {
            Some(name) => same_text(name.as_str(), package_name),
            None => false,
        };
        if by_package || same_text(entry.name.as_str(), package_name) {
            return Some(entry);
        }
        i += 1;
    }
    None
}

/// The first workspace of the given kind.
pub fn resolve_workspace_by_kind<'a>(manifest: &'a WorkspaceManifest, kind: WorkspaceKind) -> (r:
    Option<&'a WorkspaceManifestEntry>)
    ensures
        r matches Some(entry) ==> exists|i: int|
            0 <= i < manifest.workspaces@.len() && *entry == #[trigger] manifest.workspaces@[i]
                && entry.kind == kind && forall|j: int|
                0 <= j < i ==> (#[trigger] manifest.workspaces@[j]).kind != kind,
        r is None ==> forall|j: int|
            0 <= j < manifest.workspaces@.len() ==> (#[trigger] manifest.workspaces@[j]).kind
                != kind,
{
    let mut i: usize = 0;
    while i < manifest.workspaces.len()
        invariant
            i <= manifest.workspaces.len(),
            forall|j: int| 0 <= j < i ==> (#[trigger] manifest.workspaces@[j]).kind != kind,
        decreases manifest.workspaces.len() - i,
    {
        let entry = &manifest.workspaces[i];
        if entry.kind == kind {
            return Some(entry);
        }
        i += 1;
    }
    None
}

/// The first workspace whose configuration is the file `config_path`.
pub fn resolve_workspace_by_config<'a>(manifest: &'a WorkspaceManifest, config_path: &str) -> (r:
    Option<&'a WorkspaceManifestEntry>)
    ensures
        r matches Some(entry) ==> exists|i: int|
            0 <= i < manifest.workspaces@.len() && *entry == #[trigger] manifest.workspaces@[i]
                && entry.config@ == config_path@ && forall|j: int|
                0 <= j < i ==> (#[trigger] manifest.workspaces@[j]).config@ != config_path@,
        r is None ==> forall|j: int|
            0 <= j < manifest.workspaces@.len() ==> (#[trigger] manifest.workspaces@[j]).config@
                != config_path@,
{
    let mut i: usize = 0;
    while i < manifest.workspaces.len()
        invariant
            i <= manifest.workspaces.len(),
            forall|j: int|
                0 <= j < i ==> (#[trigger] manifest.workspaces@[j]).config@ != config_path@,
        decreases manifest.workspaces.len() - i,
    {
        let entry = &manifest.workspaces[i];
        if same_text(entry.config.as_str(), config_path) {
            return Some(entry);
        }
        i += 1;
    }
    None
}

/// What a directory shows of the package manager in use.
#[derive(Clone, Debug)]
pub struct PackageManagerEvidence {
    /// `pnpm-lock.yaml` is present.
    pub pnpm_lock: bool,
    /// `yarn.lock` is present.
    pub yarn_lock: bool,
    /// `bun.lockb` or `bun.lock` is present.
    pub bun_lock: bool,
    /// `package-lock.json` is present.
    pub npm_lock: bool,
    /// The `packageManager` field of `package.json`, where it is a string.
    pub declared: Option<String>,
}

/// The text of `spec` before its first `@`.
pub open spec fn declared_manager_name(spec: Seq<char>) -> Seq<char> {
    match text::find_char(spec, '@') {
        Some(i) => spec.take(i),
        None => spec,
    }
}

/// The package manager that the evidence points to: a lock file decides,
/// pnpm before yarn before bun before npm; without one, the declared name.
pub open spec fn detected_package_manager(
    evidence: PackageManagerEvidence,
) -> Option<PackageManagerKind> {
    if evidence.pnpm_lock {
        Some(PackageManagerKind::Pnpm)
    } else if evidence.yarn_lock {
        Some(PackageManagerKind::Yarn)
    } else if evidence.bun_lock {
        Some(PackageManagerKind::Bun)
    } else if evidence.npm_lock {
        Some(PackageManagerKind::Npm)
    } else {
        match evidence.declared {
            Some(spec) => PackageManagerKind::named(declared_manager_name(spec@)),
            None => None,
        }
    }
}

/// The package manager that the evidence points to.
pub fn detect_package_manager(evidence: &PackageManagerEvidence) -> (r: Option<PackageManagerKind>)
    ensures
        r == detected_package_manager(*evidence),
{
    if evidence.pnpm_lock {
        return Some(PackageManagerKind::Pnpm);
    }
    if evidence.yarn_lock {
        return Some(PackageManagerKind::Yarn);
    }
    if evidence.bun_lock {
        return Some(PackageManagerKind::Bun);
    }
    if evidence.npm_lock {
        return Some(PackageManagerKind::Npm);
    }
    match &evidence.declared {
        Some(spec) => {
            let all = chars::chars_of(spec.as_str());
            let name = match chars::find_char(&all, '@') {
                Some(i) => chars::slice(&all, 0, i),
                None => all,
            };
            let name = chars::string_of(&name);
            PackageManagerKind::from_name(name.as_str())
        },
        None => None,
    }
}

/// What a directory shows of being the root of several workspaces.
#[derive(Clone, Copy, Debug)]
pub struct WorkspaceEvidence {
    /// The workspace manifest is present.
    pub workspace_manifest: bool,
    /// `pnpm-workspace.yaml` is present.
    pub pnpm_workspace: bool,
    /// `turbo.json` is present.
    pub turbo: bool,
    /// `package.json` lists workspaces.
    pub package_workspaces: bool,
}

/// Whether the directory is the root of several workspaces.
pub fn repo_indicates_workspaces(evidence: &WorkspaceEvidence) -> (r: bool)
    ensures
        r == (evidence.workspace_manifest || evidence.pnpm_workspace || evidence.turbo
            || evidence.package_workspaces),
{
    evidence.workspace_manifest || evidence.pnpm_workspace || evidence.turbo
        || evidence.package_workspaces
}

/// What `package.json` holds under `workspaces`.
#[derive(Clone, Copy, Debug, PartialEq, Eq, Structural)]
pub enum WorkspacesField {
    /// No such field.
    Missing,
    /// A list with this many entries.
    List(usize),
    /// A map whose `packages` is a list with this many entries.
    MapWithPackages(usize),
    /// A map without a list under `packages`.
    MapWithoutPackages,
    /// A single text.
    Text,
    /// Something else.
    Other,
}

/// Whether `package.json` lists workspaces: a list that is not empty, a
/// map unless its list of packages is empty, or a text.
pub fn package_json_has_workspaces(field: WorkspacesField) -> (r: bool)
    ensures
        r == match field {
            WorkspacesField::Missing => false,
            WorkspacesField::List(count) => count > 0,
            WorkspacesField::MapWithPackages(count) => count > 0,
            WorkspacesField::MapWithoutPackages => true,
            WorkspacesField::Text => true,
            WorkspacesField::Other => false,
        },
{
    match field {
        WorkspacesField::Missing => false,
        WorkspacesField::List(count) => count > 0,
        WorkspacesField::MapWithPackages(count) => count > 0,
        WorkspacesField::MapWithoutPackages => true,
        WorkspacesField::Text => true,
        WorkspacesField::Other => false,
    }
}

} // verus!
