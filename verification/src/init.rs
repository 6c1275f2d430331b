//! Deciding how a project is set up: its configuration by framework, its
//! place among the workspaces of a repository, and what `package.json`
//! exports.

use vstd::prelude::*;
use vstd::string::StrSliceExecFns;
use crate::chars;
use crate::framework::{listed, AppStructure, FrameworkDetection, FrameworkKind, ProjectFiles};
use crate::ordered::{lemma_lex_asymmetric, lemma_lex_transitive};
use crate::paths::{parts_of, path_parts, parts_start_with};
use crate::setup::{guess_workspace_kind, guessed_kind, join_relative_components, relative_child};
use crate::string_map::same_text;
use crate::text;
use crate::text::{first, first_from, lex_lt};
use crate::types::{
    duplicate_option,
    option_view,
    AliasTarget,
    Aliases,
    Config,
    TailwindConfig,
    WorkspaceConfig,
    WorkspaceKind,
    WorkspaceLink,
};
use crate::workspace::{PackageManagerKind, WorkspaceManifest, WorkspaceManifestEntry};

verus! {

/// An application without a known framework cannot be configured.
#[derive(Clone, Copy, Debug, PartialEq, Eq, Structural)]
pub struct UnsupportedFramework;

impl UnsupportedFramework {
    /// What to tell the user.
    pub fn message(&self) -> (r: &'static str)
        ensures
            r@ == "Unsupported framework configuration"@,
    {
        "Unsupported framework configuration"
    }
}

/// The style sheets that a TanStack Start project may have.
pub const TANSTACK_CSS_CANDIDATES: [&'static str; 11] = [
    "src/styles.css",
    "src/style.css",
    "src/global.css",
    "src/globals.css",
    "src/index.css",
    "src/app.css",
    "app/app.css",
    "app/styles.css",
    "app/globals.css",
    "app/global.css",
    "app/tailwind.css",
];

/// The style sheets that a shared workspace may have.
pub const SHARED_CSS_CANDIDATES: [&'static str; 9] = [
    "src/styles.css",
    "src/style.css",
    "src/global.css",
    "src/globals.css",
    "src/index.css",
    "src/app.css",
    "styles.css",
    "global.css",
    "index.css",
];

/// The path exists in the project.
pub open spec fn exists_in(files: ProjectFiles) -> spec_fn(&'static str) -> bool {
    |path: &'static str| files.has(path@)
}

/// The first of the candidates that exists; `src/styles.css` where none does.
pub open spec fn chosen_css(files: ProjectFiles, candidates: Seq<&'static str>) -> Seq<char> {
    match first(candidates, exists_in(files)) {
        Some(i) => candidates[i]@,
        None => "src/styles.css"@,
    }
}

/// The first of the candidates that exists; `src/styles.css` where none does.
fn choose_css(files: &ProjectFiles, candidates: &Vec<&'static str>) -> (r: String)
    ensures
        r@ == chosen_css(*files, candidates@),
{
    let ghost pred = exists_in(*files);
    let mut i: usize = 0;
    while i < candidates.len()
        invariant
            i <= candidates.len(),
            pred == exists_in(*files),
            first(candidates@, pred) == first_from(candidates@, pred, i as int),
        decreases candidates.len() - i,
    {
        if files.path_exists(candidates[i]) {
            return candidates[i].to_owned();
        }
        i += 1;
    }
    "src/styles.css".to_owned()
}

/// The style sheet, the components directory and the utilities of a new
/// configuration, by framework; `None` for an application without one.
pub open spec fn config_paths(
    workspace_kind: WorkspaceKind,
    framework: FrameworkKind,
    app_structure: Option<AppStructure>,
    files: ProjectFiles,
) -> Option<(Seq<char>, Seq<char>, Seq<char>)> {
    match framework {
        FrameworkKind::NextJs => Some(
            (
                if app_structure == Some(AppStructure::AppRouter) {
                    "app/globals.css"@
                } else {
                    "styles/globals.css"@
                },
                "components/ui"@,
                "lib/utils"@,
            ),
        ),
        FrameworkKind::ViteReact => Some(("src/App.css"@, "src/components/ui"@, "src/lib/utils"@)),
        FrameworkKind::ReactRouter => Some(
            ("app/app.css"@, "app/components/ui"@, "app/lib/utils"@),
        ),
        FrameworkKind::TanstackStart => Some(
            (chosen_css(files, TANSTACK_CSS_CANDIDATES@), "src/components/ui"@, "src/lib/utils"@),
        ),
        FrameworkKind::Unknown => if workspace_kind == WorkspaceKind::App {
            None
        } else {
            Some(
                (chosen_css(files, SHARED_CSS_CANDIDATES@), "src/components/ui"@, "src/lib/utils"@),
            )
        },
    }
}

/// A configuration with the given style sheet, components directory and
/// utilities, and nothing else set.
fn config_with(css: String, components: &str, utils: &str) -> (r: Config)
    ensures
        r.schema is None,
        r.style@ == "default"@,
        r.tailwind.css@ == css@,
        r.aliases.components.filesystem() == components@,
        r.aliases.components.import() is None,
        r.aliases.utils.filesystem() == utils@,
        r.aliases.utils.import() is None,
        r.alias_prefixes is None,
        r.exports is None,
        r.workspace is None,
{
    Config {
        schema: None,
        style: "default".to_owned(),
        tailwind: TailwindConfig { css },
        aliases: Aliases {
            components: AliasTarget::from_path(components),
            utils: AliasTarget::from_path(utils),
        },
        alias_prefixes: None,
        exports: None,
        workspace: None,
    }
}

/// The configuration of a new project, by its framework. An application
/// needs a known framework; a shared workspace does without.
pub fn build_config(
    workspace_kind: WorkspaceKind,
    detection: &FrameworkDetection,
    files: &ProjectFiles,
) -> (r: Result<Config, UnsupportedFramework>)
    ensures
        match config_paths(
            workspace_kind,
            detection.framework,
            detection.details.app_structure,
            *files,
        ) {
            None => r is Err,
            Some((css, components, utils)) => {
                &&& r matches Ok(config)
                &&& config.tailwind.css@ == css
                &&& config.aliases.components.filesystem() == components
                &&& config.aliases.utils.filesystem() == utils
                &&& config.style@ == "default"@
                &&& config.schema is None
                &&& config.alias_prefixes is None
                &&& config.exports is None
                &&& config.workspace is None
            },
        },
{
    match detection.framework {
        FrameworkKind::NextJs => {
            let app_router = match detection.details.app_structure {
                Some(AppStructure::AppRouter) => true,
                _ => false,
            };
            let css = if app_router {
                "app/globals.css"
            } else {
                "styles/globals.css"
            };
            Ok(config_with(css.to_owned(), "components/ui", "lib/utils"))
        },
        FrameworkKind::ViteReact => Ok(
            config_with("src/App.css".to_owned(), "src/components/ui", "src/lib/utils"),
        ),
        FrameworkKind::ReactRouter => Ok(
            config_with("app/app.css".to_owned(), "app/components/ui", "app/lib/utils"),
        ),
        FrameworkKind::TanstackStart => Ok(
            config_with(
                choose_css(files, &listed(&TANSTACK_CSS_CANDIDATES)),
                "src/components/ui",
                "src/lib/utils",
            ),
        ),
        FrameworkKind::Unknown => build_shared_workspace_config(workspace_kind, files),
    }
}

/// The configuration of a shared workspace without a framework.
pub fn build_shared_workspace_config(kind: WorkspaceKind, files: &ProjectFiles) -> (r: Result<
    Config,
    UnsupportedFramework,
>)
    ensures
        kind == WorkspaceKind::App ==> r is Err,
        kind != WorkspaceKind::App ==> {
            &&& r matches Ok(config)
            &&& config.tailwind.css@ == chosen_css(*files, SHARED_CSS_CANDIDATES@)
            &&& config.aliases.components.filesystem() == "src/components/ui"@
            &&& config.aliases.utils.filesystem() == "src/lib/utils"@
            &&& config.style@ == "default"@
            &&& config.schema is None
            &&& config.alias_prefixes is None
            &&& config.exports is None
            &&& config.workspace is None
        },
{
    if kind == WorkspaceKind::App {
        return Err(UnsupportedFramework);
    }
    Ok(
        config_with(
            choose_css(files, &listed(&SHARED_CSS_CANDIDATES)),
            "src/components/ui",
            "src/lib/utils",
        ),
    )
}

/// What `package.json` holds under `exports`, as far as it matters for
/// pointing it at the barrel.
#[derive(Clone, Debug, PartialEq, Eq)]
pub enum PackageExports {
    /// No `exports` at all.
    Missing,
    /// A single path.
    Text(String),
    /// A map without an entry for `.`.
    MapWithoutRoot,
    /// A map whose entry for `.` is a single path.
    MapWithRootText(String),
    /// A map whose entry for `.` is something else.
    MapWithOtherRoot,
    /// Something else.
    Other,
}

/// What to do to the `exports` of `package.json`.
#[derive(Clone, Copy, Debug, PartialEq, Eq, Structural)]
pub enum ExportsPatch {
    /// Leave it as it is.
    Keep,
    /// Make `exports` a map with the barrel under `.`.
    CreateMap,
    /// Put the barrel into the map under `.`.
    SetRoot,
    /// Make the barrel the single path.
    SetText,
}

/// What to do to the `exports` so that they point at the barrel: shapes
/// that name one path are pointed at it, richer shapes are left alone.
pub open spec fn exports_patch(current: PackageExports, barrel: Seq<char>) -> ExportsPatch {
    match current {
        PackageExports::Missing => ExportsPatch::CreateMap,
        PackageExports::Text(path) => if path@ == barrel {
            ExportsPatch::Keep
        } else {
            ExportsPatch::SetText
        },
        PackageExports::MapWithoutRoot => ExportsPatch::SetRoot,
        PackageExports::MapWithRootText(path) => if path@ == barrel {
            ExportsPatch::Keep
        } else {
            ExportsPatch::SetRoot
        },
        PackageExports::MapWithOtherRoot => ExportsPatch::Keep,
        PackageExports::Other => ExportsPatch::Keep,
    }
}

/// What to do to the `exports` of the `package.json` of a workspace, and
/// the path to point them at. Only a shared UI workspace that keeps a
/// barrel exports it.
pub fn ensure_package_exports(
    kind: WorkspaceKind,
    config: &Config,
    current: &PackageExports,
) -> (r: (ExportsPatch, String))
    ensures
        r.0 == (match crate::setup::barrel_of(*config) {
            Some(barrel) => if kind == WorkspaceKind::Ui && text::trim(barrel).len() > 0 {
                exports_patch(*current, crate::setup::exported_barrel(text::trim(barrel)))
            } else {
                ExportsPatch::Keep
            },
            None => ExportsPatch::Keep,
        }),
        r.0 != ExportsPatch::Keep ==> (crate::setup::barrel_of(*config) matches Some(barrel) && r.1@
            == crate::setup::exported_barrel(text::trim(barrel))),
{
    if kind != WorkspaceKind::Ui {
        return (ExportsPatch::Keep, String::new());
    }
    let target = match &config.exports {
        Some(exports) => match exports.components() {
            Some(target) => target,
            None => {
                return (ExportsPatch::Keep, String::new());
            },
        },
        None => {
            return (ExportsPatch::Keep, String::new());
        },
    };
    let barrel = chars::string_of(&chars::trim(&chars::chars_of(target.barrel_path())));
    if barrel.as_str().unicode_len() == 0 {
        return (ExportsPatch::Keep, String::new());
    }
    let value = crate::setup::sanitize_barrel_for_exports(barrel.as_str());
    let patch = match current {
        PackageExports::Missing => ExportsPatch::CreateMap,
        PackageExports::Text(path) => if same_text(path.as_str(), value.as_str()) {
            ExportsPatch::Keep
        } else {
            ExportsPatch::SetText
        },
        PackageExports::MapWithoutRoot => ExportsPatch::SetRoot,
        PackageExports::MapWithRootText(path) => if same_text(path.as_str(), value.as_str()) {
            ExportsPatch::Keep
        } else {
            ExportsPatch::SetRoot
        },
        PackageExports::MapWithOtherRoot => ExportsPatch::Keep,
        PackageExports::Other => ExportsPatch::Keep,
    };
    (patch, value)
}

/// The way from the root of the repository to the current directory: `.`
/// where they are the same or the one is not inside the other.
pub open spec fn workspace_root_relative(current_dir: Seq<char>, repo_root: Seq<char>) -> Seq<char> {
    let all = path_parts(current_dir);
    let head = path_parts(repo_root);
    if text::starts_with(current_dir, "/"@) == text::starts_with(repo_root, "/"@)
        && parts_start_with(all, head) && all.len() > head.len() {
        text::join(all.skip(head.len() as int), "/"@)
    } else {
        "."@
    }
}

/// The way from the root of the repository to the current directory.
#[verifier::loop_isolation(false)]
pub fn workspace_root(current_dir: &str, repo_root: &str) -> (r: String)
    ensures
        r@ == workspace_root_relative(current_dir@, repo_root@),
{
    let path = chars::chars_of(current_dir);
    let base = chars::chars_of(repo_root);
    let slash = chars::chars_of("/");
    if chars::starts_with(&path, &slash) != chars::starts_with(&base, &slash) {
        return ".".to_owned();
    }
    let all = parts_of(&path);
    let head = parts_of(&base);
    if head.len() >= all.len() {
        proof {
            if parts_start_with(chars::views(all@), chars::views(head@)) {
            }
        }
        return ".".to_owned();
    }
    let mut i: usize = 0;
    while i < head.len()
        invariant
            i <= head.len() < all.len(),
            forall|j: int| 0 <= j < i ==> all@[j]@ == head@[j]@,
        decreases head.len() - i,
    {
        if !chars::equal(&all[i], &head[i]) {
            assert(chars::views(all@).take(head@.len() as int)[i as int] != chars::views(
                head@,
            )[i as int]);
            return ".".to_owned();
        }
        i += 1;
    }
    assert(chars::views(all@).take(head@.len() as int) =~= chars::views(head@));
    let mut rest: Vec<Vec<char>> = Vec::new();
    let mut k: usize = head.len();
    assert(chars::views(rest@) =~= chars::views(all@).subrange(head.len() as int, k as int));
    while k < all.len()
        invariant
            head.len() <= k <= all.len(),
            chars::views(rest@) == chars::views(all@).subrange(head.len() as int, k as int),
        decreases all.len() - k,
    {
        let ghost before = chars::views(rest@);
        rest.push(all[k].clone());
        assert(chars::views(rest@) =~= before.push(all@[k as int]@));
        assert(chars::views(all@).subrange(head.len() as int, k + 1) =~= before.push(
            all@[k as int]@,
        ));
        k += 1;
    }
    assert(chars::views(all@).subrange(head.len() as int, all.len() as int) =~= chars::views(
        all@,
    ).skip(head.len() as int));
    chars::string_of(&chars::join(&rest, &slash))
}

/// The workspace lies at `root`.
pub open spec fn at_root(root: Seq<char>) -> spec_fn(WorkspaceManifestEntry) -> bool {
    |entry: WorkspaceManifestEntry| entry.root@ == root
}

/// What is known of a workspace before the user is asked anything.
#[derive(Clone, Debug)]
pub struct WorkspacePlan {
    /// Whether the repository holds several workspaces.
    pub monorepo: bool,
    /// The position of the workspace in the manifest, where it is listed.
    pub existing: Option<usize>,
    /// The kind that the workspace has in the manifest, or that its path
    /// suggests.
    pub default_kind: WorkspaceKind,
    /// Whether the user is asked for the kind.
    pub ask_kind: bool,
    /// The package name that is known.
    pub package_name: Option<String>,
    /// Whether the user is asked for the package name.
    pub ask_package_name: bool,
}

/// Plans the setup of the workspace at `root`: a repository counts as
/// holding several workspaces where its files say so, where the workspace
/// is not at its root, or where its manifest lists more than one. What the
/// manifest says of the workspace is taken over; the user is asked only in
/// a repository of several workspaces, and only for what is not known.
pub fn plan_workspace(
    manifest: &WorkspaceManifest,
    root: &str,
    indicates_workspaces: bool,
    package_json_name: Option<String>,
) -> (r: WorkspacePlan)
    ensures
        r.monorepo == (indicates_workspaces || root@ != "."@ || manifest.workspaces@.len() > 1),
        (match r.existing {
            Some(i) => Some(i as int),
            None => None,
        }) == first(manifest.workspaces@, at_root(root@)),
        r.default_kind == (match first(manifest.workspaces@, at_root(root@)) {
            Some(i) => manifest.workspaces@[i].kind,
            None => guessed_kind(root@),
        }),
        r.ask_kind == (r.monorepo && r.existing is None),
        option_view(r.package_name) == if !r.monorepo {
            None
        } else {
            match first(manifest.workspaces@, at_root(root@)) {
                Some(i) => match manifest.workspaces@[i].package_name {
                    Some(name) => Some(name@),
                    None => option_view(package_json_name),
                },
                None => option_view(package_json_name),
            }
        },
        r.ask_package_name == (r.monorepo && r.package_name is None),
{
    let monorepo = indicates_workspaces || !same_text(root, ".") || manifest.workspaces.len() > 1;
    let ghost pred = at_root(root@);
    let mut existing: Option<usize> = None;
    let mut i: usize = 0;
    while i < manifest.workspaces.len()
        invariant_except_break
            existing is None,
        invariant
            i <= manifest.workspaces.len(),
            pred == at_root(root@),
            first(manifest.workspaces@, pred) == first_from(manifest.workspaces@, pred, i as int),
        ensures
            (match existing {
                Some(k) => Some(k as int),
                None => None,
            }) == first(manifest.workspaces@, pred),
            existing matches Some(k) ==> k < manifest.workspaces@.len(),
        decreases manifest.workspaces.len() - i,
    {
        if same_text(manifest.workspaces[i].root.as_str(), root) {
            existing = Some(i);
            break ;
        }
        i += 1;
    }
    let default_kind = match existing {
        Some(k) => manifest.workspaces[k].kind,
        None => guess_workspace_kind(root),
    };
    let known = match existing {
        Some(k) => match &manifest.workspaces[k].package_name {
            Some(name) => Some(name.clone()),
            None => package_json_name,
        },
        None => package_json_name,
    };
    let package_name = if monorepo {
        known
    } else {
        None
    };
    let ask_package_name = monorepo && package_name.is_none();
    WorkspacePlan {
        monorepo,
        existing,
        default_kind,
        ask_kind: monorepo && existing.is_none(),
        package_name,
        ask_package_name,
    }
}

/// The positions among the first `n` workspaces of the shared UI
/// workspaces that lie elsewhere than at `root`.
pub open spec fn linkable(workspaces: Seq<WorkspaceManifestEntry>, root: Seq<char>, n: int) -> Seq<
    int,
>
    decreases n,
{
    if n <= 0 {
        seq![]
    } else {
        let before = linkable(workspaces, root, n - 1);
        if workspaces[n - 1].kind == WorkspaceKind::Ui && workspaces[n - 1].root@ != root {
            before.push(n - 1)
        } else {
            before
        }
    }
}

/// The shared UI workspaces that an application at `root` can be linked
/// to, by position in the manifest: none unless the workspace is an
/// application in a repository of several workspaces.
pub fn linkable_workspaces(
    manifest: &WorkspaceManifest,
    root: &str,
    kind: WorkspaceKind,
    monorepo: bool,
) -> (r: Vec<usize>)
    ensures
        crate::resolver::places_of(r@) == if kind == WorkspaceKind::App && monorepo {
            linkable(manifest.workspaces@, root@, manifest.workspaces@.len() as int)
        } else {
            seq![]
        },
{
    let mut found: Vec<usize> = Vec::new();
    assert(crate::resolver::places_of(found@) =~= Seq::<int>::empty());
    if !(kind == WorkspaceKind::App && monorepo) {
        return found;
    }
    let mut n: usize = 0;
    while n < manifest.workspaces.len()
        invariant
            n <= manifest.workspaces.len(),
            crate::resolver::places_of(found@) == linkable(manifest.workspaces@, root@, n as int),
        decreases manifest.workspaces.len() - n,
    {
        let ghost before = crate::resolver::places_of(found@);
        if manifest.workspaces[n].kind == WorkspaceKind::Ui && !same_text(
            manifest.workspaces[n].root.as_str(),
            root,
        ) {
            found.push(n);
            assert(crate::resolver::places_of(found@) =~= before.push(n as int));
        }
        n += 1;
    }
    found
}

/// The link from an application to a shared UI workspace. `relative_config`
/// is the way from the application to the workspace's configuration file,
/// where there is one; else the path that the manifest gives stands.
pub fn link_to(entry: &WorkspaceManifestEntry, relative_config: Option<String>) -> (r: WorkspaceLink)
    ensures
        r.kind == entry.kind,
        option_view(r.package_name) == option_view(entry.package_name),
        r.root@ == entry.root@,
        r.config@ == (match relative_config {
            Some(path) => crate::setup::relative_path_text(path@),
            None => entry.config@,
        }),
{
    let config = match relative_config {
        Some(path) => crate::setup::normalize_relative_path(path.as_str()),
        None => entry.config.clone(),
    };
    WorkspaceLink {
        kind: entry.kind,
        package_name: duplicate_option(&entry.package_name),
        root: entry.root.clone(),
        config,
    }
}

/// The roots of the workspaces, in order.
pub open spec fn roots(workspaces: Seq<WorkspaceManifestEntry>) -> Seq<Seq<char>> {
    Seq::new(workspaces.len(), |i: int| workspaces[i].root@)
}

/// The workspaces stand in rising order of their roots.
pub open spec fn sorted_by_root(workspaces: Seq<WorkspaceManifestEntry>) -> bool {
    forall|i: int, j: int|
        0 <= i < j < workspaces.len() ==> !lex_lt(workspaces[j].root@, workspaces[i].root@)
}

/// Puts `entry` among workspaces that rise by root: behind those whose
/// root does not come after its own.
pub fn insert_by_root(workspaces: &mut Vec<WorkspaceManifestEntry>, entry: WorkspaceManifestEntry)
    requires
        sorted_by_root(old(workspaces)@),
    ensures
        sorted_by_root(final(workspaces)@),
        final(workspaces)@.to_multiset() == old(workspaces)@.to_multiset().insert(entry),
        final(workspaces)@.len() == old(workspaces)@.len() + 1,
{
    let wanted = chars::chars_of(entry.root.as_str());
    let mut k: usize = 0;
    while k < workspaces.len()
        invariant
            k <= workspaces.len(),
            workspaces@ == old(workspaces)@,
            wanted@ == entry.root@,
            forall|i: int| 0 <= i < k ==> !lex_lt(entry.root@, (#[trigger] workspaces@[i]).root@),
        ensures
            k <= workspaces.len(),
            k < workspaces.len() ==> lex_lt(entry.root@, workspaces@[k as int].root@),
        decreases workspaces.len() - k,
    {
        let here = chars::chars_of(workspaces[k].root.as_str());
        if chars::lex_lt(&wanted, &here) {
            break ;
        }
        k += 1;
    }
    let ghost before = workspaces@;
    workspaces.insert(k, entry);
    proof {
        let after = workspaces@;
        assert(after =~= before.insert(k as int, entry));
        assert forall|i: int, j: int| 0 <= i < j < after.len() implies !lex_lt(
            after[j].root@,
            after[i].root@,
        ) by {
            if j == k {
                assert(after[i] == before[i]);
            } else if i == k {
                assert(after[j] == before[j - 1]);
                if j - 1 > k {
                    if lex_lt(before[j - 1].root@, entry.root@) {
                        lemma_lex_transitive(
                            before[j - 1].root@,
                            entry.root@,
                            before[k as int].root@,
                        );
                    }
                } else {
                    lemma_lex_asymmetric(entry.root@, before[k as int].root@);
                }
            } else {
                let i0 = if i < k { i } else { i - 1 };
                let j0 = if j < k { j } else { j - 1 };
                assert(after[i] == before[i0] && after[j] == before[j0]);
            }
        }
        vstd::seq_lib::to_multiset_insert(before, k as int, entry);
    }
}

/// The workspaces in rising order of their roots.
pub fn sort_by_root(workspaces: Vec<WorkspaceManifestEntry>) -> (r: Vec<WorkspaceManifestEntry>)
    ensures
        sorted_by_root(r@),
        r@.to_multiset() == workspaces@.to_multiset(),
{
    let ghost all = workspaces@;
    let mut sorted: Vec<WorkspaceManifestEntry> = Vec::new();
    assert(all.take(0) =~= Seq::<WorkspaceManifestEntry>::empty());
    for entry in it: workspaces
        invariant
            it.seq() == all,
            sorted_by_root(sorted@),
            sorted@.to_multiset() == all.take(it.index() as int).to_multiset(),
    {
        proof {
            let i = it.index() as int;
            assert(all.take(i + 1) =~= all.take(i).push(all[i]));
            vstd::seq_lib::to_multiset_build(all.take(i), all[i]);
        }
        insert_by_root(&mut sorted, entry);
    }
    assert(all.take(all.len() as int) =~= all);
    sorted
}

/// The entry of the manifest for the workspace at `root`: named after its
/// package, or after its root where it has none.
pub fn manifest_entry(root: &str, kind: WorkspaceKind, package_name: &Option<String>) -> (r:
    WorkspaceManifestEntry)
    ensures
        r.kind == kind,
        r.root@ == root@,
        option_view(r.package_name) == option_view(*package_name),
        r.config@ == relative_child(root@, "nocta.config.json"@),
        r.name@ == (match *package_name {
            Some(name) => if name@.len() == 0 {
                root@
            } else {
                name@
            },
            None => root@,
        }),
{
    let name = match package_name {
        Some(name) => if name.as_str().unicode_len() == 0 {
            root.to_owned()
        } else {
            name.clone()
        },
        None => root.to_owned(),
    };
    WorkspaceManifestEntry {
        name,
        kind,
        package_name: duplicate_option(package_name),
        root: root.to_owned(),
        config: join_relative_components(root, "nocta.config.json"),
    }
}

/// The manifest after the workspace is set up: its entry takes the place
/// of the one it had, or is added; the workspaces stand in rising order of
/// their roots; the package manager is recorded; and the root of the
/// repository is `.` where none was recorded.
pub fn update_manifest(
    manifest: WorkspaceManifest,
    existing: Option<usize>,
    entry: WorkspaceManifestEntry,
    package_manager: PackageManagerKind,
) -> (r: WorkspaceManifest)
    ensures
        sorted_by_root(r.workspaces@),
        r.workspaces@.to_multiset() == (match existing {
            Some(i) => if i < manifest.workspaces@.len() {
                manifest.workspaces@.update(i as int, entry).to_multiset()
            } else {
                manifest.workspaces@.push(entry).to_multiset()
            },
            None => manifest.workspaces@.push(entry).to_multiset(),
        }),
        r.package_manager == Some(package_manager),
        option_view(r.repo_root) == (match manifest.repo_root {
            Some(root) => Some(root@),
            None => Some("."@),
        }),
{
    let mut workspaces = manifest.workspaces;
    match existing {
        Some(i) => {
            if i < workspaces.len() {
                workspaces.set(i, entry);
            } else {
                workspaces.push(entry);
            }
        },
        None => {
            workspaces.push(entry);
        },
    }
    let repo_root = match manifest.repo_root {
        Some(root) => Some(root),
        None => Some(".".to_owned()),
    };
    WorkspaceManifest {
        workspaces: sort_by_root(workspaces),
        package_manager: Some(package_manager),
        repo_root,
    }
}

/// The workspace that a new configuration describes.
pub fn workspace_config(
    kind: WorkspaceKind,
    package_name: Option<String>,
    root: &str,
    linked_workspaces: Vec<WorkspaceLink>,
) -> (r: WorkspaceConfig)
    ensures
        r.kind == kind,
        r.package_name == package_name,
        r.root@ == root@,
        r.linked_workspaces == linked_workspaces,
{
    WorkspaceConfig { kind, package_name, root: root.to_owned(), linked_workspaces }
}

} // verus!
