//! Choosing the workspace that receives each file and each package of a
//! component.

use vstd::prelude::*;
use vstd::string::StrSliceExecFns;
use crate::chars;
use crate::framework::FrameworkKind;
use crate::string_map::same_text;
use crate::text;
use crate::text::{first, first_from};
use crate::types::{duplicate_option, option_view, Config, WorkspaceKind, WorkspaceLink};
use crate::workspace::{PackageManagerContext, PackageManagerKind};

verus! {

/// A workspace that components can be installed into.
#[derive(Clone, Debug)]
pub struct WorkspaceHandle {
    pub id: String,
    pub label: String,
    pub kind: WorkspaceKind,
    pub root_abs: String,
    pub root_rel: String,
    pub config: Config,
    pub alias_prefix: String,
    pub component_import_alias: Option<String>,
    pub package_name: Option<String>,
    pub package_manager_context: PackageManagerContext,
}

/// The workspaces of a run; the first is the primary one.
#[derive(Clone, Debug)]
pub struct WorkspaceContext {
    pub current_dir: String,
    pub handles: Vec<WorkspaceHandle>,
}

/// A file names a workspace that is not configured.
#[derive(Clone, Debug, PartialEq, Eq)]
pub struct UnknownTarget {
    pub target: String,
}

impl UnknownTarget {
    /// What to tell the user.
    pub open spec fn text(target: Seq<char>) -> Seq<char> {
        "No workspace configured for target `"@ + target
            + "`. Update nocta.config.json to link the workspace."@
    }

    /// What to tell the user.
    pub fn message(&self) -> (r: String)
        ensures
            r@ == Self::text(self.target@),
    {
        let mut all = chars::chars_of("No workspace configured for target `");
        chars::append(&mut all, &chars::chars_of(self.target.as_str()));
        chars::append(
            &mut all,
            &chars::chars_of("`. Update nocta.config.json to link the workspace."),
        );
        chars::string_of(&all)
    }
}

/// The kind of workspace that a target names by keyword.
pub open spec fn keyword_kind(target: Seq<char>) -> Option<WorkspaceKind> {
    if target == "app"@ {
        Some(WorkspaceKind::App)
    } else if target == "ui"@ || target == "shared"@ {
        Some(WorkspaceKind::Ui)
    } else if target == "library"@ || target == "lib"@ {
        Some(WorkspaceKind::Library)
    } else {
        None
    }
}

/// The handle's package goes by the lower-case name `name`.
pub open spec fn package_is(name: Seq<char>) -> spec_fn(WorkspaceHandle) -> bool {
    |h: WorkspaceHandle|
        match h.package_name {
            Some(package) => text::ascii_lower(package@) == name,
            None => false,
        }
}

/// The handle's root goes by the lower-case path `name`.
pub open spec fn root_is(name: Seq<char>) -> spec_fn(WorkspaceHandle) -> bool {
    |h: WorkspaceHandle| text::ascii_lower(h.root_rel@) == name
}

/// The handle is of the kind `kind`.
pub open spec fn kind_is(kind: WorkspaceKind) -> spec_fn(WorkspaceHandle) -> bool {
    |h: WorkspaceHandle| h.kind == kind
}

/// The handle has the identifier `id`.
pub open spec fn id_is(id: Seq<char>) -> spec_fn(WorkspaceHandle) -> bool {
    |h: WorkspaceHandle| h.id@ == id
}

/// The workspace that receives a file. A named target is matched, letters
/// of either case, against package names, then against root paths, then as
/// a keyword for a kind; `None` where nothing matches. Without a target a
/// primary application hands over to the first UI workspace, if there is
/// one; else the primary workspace receives the file.
pub open spec fn selected_handle(handles: Seq<WorkspaceHandle>, target: Option<Seq<char>>) -> Option<
    int,
> {
    match target {
        Some(named) => {
            let name = text::ascii_lower(named);
            match first(handles, package_is(name)) {
                Some(i) => Some(i),
                None => match first(handles, root_is(name)) {
                    Some(i) => Some(i),
                    None => match keyword_kind(name) {
                        Some(kind) => first(handles, kind_is(kind)),
                        None => None,
                    },
                },
            }
        },
        None => if handles[0].kind == WorkspaceKind::App {
            match first(handles, kind_is(WorkspaceKind::Ui)) {
                Some(i) => Some(i),
                None => Some(0),
            }
        } else {
            Some(0)
        },
    }
}

impl WorkspaceContext {
    /// There is a primary workspace.
    pub open spec fn wf(&self) -> bool {
        self.handles@.len() > 0
    }

    /// The primary workspace.
    pub fn primary(&self) -> (r: &WorkspaceHandle)
        requires
            self.wf(),
        ensures
            *r == self.handles@[0],
    {
        &self.handles[0]
    }

    /// The position of the first workspace of the given kind.
    pub fn first_by_kind(&self, kind: WorkspaceKind) -> (r: Option<usize>)
        ensures
            (match r {
                Some(i) => Some(i as int),
                None => None,
            }) == first(self.handles@, kind_is(kind)),
            r matches Some(i) ==> i < self.handles@.len() && self.handles@[i as int].kind == kind,
    {
        let mut i: usize = 0;
        while i < self.handles.len()
            invariant
                i <= self.handles.len(),
                first(self.handles@, kind_is(kind)) == first_from(
                    self.handles@,
                    kind_is(kind),
                    i as int,
                ),
            decreases self.handles.len() - i,
        {
            if self.handles[i].kind == kind {
                return Some(i);
            }
            i += 1;
        }
        None
    }

    /// The position of the workspace with the given identifier.
    pub fn handle_by_id(&self, id: &str) -> (r: Option<usize>)
        ensures
            (match r {
                Some(i) => Some(i as int),
                None => None,
            }) == first(self.handles@, id_is(id@)),
            r matches Some(i) ==> i < self.handles@.len() && self.handles@[i as int].id@ == id@,
    {
        let mut i: usize = 0;
        while i < self.handles.len()
            invariant
                i <= self.handles.len(),
                first(self.handles@, id_is(id@)) == first_from(self.handles@, id_is(id@), i as int),
            decreases self.handles.len() - i,
        {
            if same_text(self.handles[i].id.as_str(), id) {
                return Some(i);
            }
            i += 1;
        }
        None
    }

    /// The position of the first workspace whose package goes by `name`.
    fn first_by_package(&self, name: &Vec<char>) -> (r: Option<usize>)
        ensures
            (match r {
                Some(i) => Some(i as int),
                None => None,
            }) == first(self.handles@, package_is(name@)),
            r matches Some(i) ==> i < self.handles@.len(),
    {
        let mut i: usize = 0;
        while i < self.handles.len()
            invariant
                i <= self.handles.len(),
                first(self.handles@, package_is(name@)) == first_from(
                    self.handles@,
                    package_is(name@),
                    i as int,
                ),
            decreases self.handles.len() - i,
        {
            let hit = match &self.handles[i].package_name {
                Some(package) => {
                    let lowered = chars::ascii_lower(&chars::chars_of(package.as_str()));
                    chars::equal(&lowered, name)
                },
                None => false,
            };
            if hit {
                return Some(i);
            }
            i += 1;
        }
        None
    }

    /// The position of the first workspace whose root goes by `name`.
    fn first_by_root(&self, name: &Vec<char>) -> (r: Option<usize>)
        ensures
            (match r {
                Some(i) => Some(i as int),
                None => None,
            }) == first(self.handles@, root_is(name@)),
            r matches Some(i) ==> i < self.handles@.len(),
    {
        let mut i: usize = 0;
        while i < self.handles.len()
            invariant
                i <= self.handles.len(),
                first(self.handles@, root_is(name@)) == first_from(
                    self.handles@,
                    root_is(name@),
                    i as int,
                ),
            decreases self.handles.len() - i,
        {
            let lowered = chars::ascii_lower(&chars::chars_of(self.handles[i].root_rel.as_str()));
            if chars::equal(&lowered, name) {
                return Some(i);
            }
            i += 1;
        }
        None
    }
}

/// The kind of workspace that a target names by keyword.
fn kind_for_keyword(name: &Vec<char>) -> (r: Option<WorkspaceKind>)
    ensures
        r == keyword_kind(name@),
{
    if chars::equal(name, &chars::chars_of("app")) {
        Some(WorkspaceKind::App)
    } else if chars::equal(name, &chars::chars_of("ui")) || chars::equal(
        name,
        &chars::chars_of("shared"),
    ) {
        Some(WorkspaceKind::Ui)
    } else if chars::equal(name, &chars::chars_of("library")) || chars::equal(
        name,
        &chars::chars_of("lib"),
    ) {
        Some(WorkspaceKind::Library)
    } else {
        None
    }
}

/// Chooses the workspace that receives a file with the given target. Fails
/// where the file names a target that no workspace answers to.
pub fn select_workspace_handle(context: &WorkspaceContext, target: Option<&str>) -> (r: Result<
    usize,
    UnknownTarget,
>)
    requires
        context.wf(),
    ensures
        match r {
            Ok(i) => i < context.handles@.len() && selected_handle(
                context.handles@,
                match target {
                    Some(t) => Some(t@),
                    None => None,
                },
            ) == Some(i as int),
            Err(error) => target matches Some(t) && error.target@ == t@ && selected_handle(
                context.handles@,
                Some(t@),
            ) is None,
        },
{
    match target {
        Some(named) => {
            let name = chars::ascii_lower(&chars::chars_of(named));
            if let Some(i) = context.first_by_package(&name) {
                return Ok(i);
            }
            if let Some(i) = context.first_by_root(&name) {
                return Ok(i);
            }
            let by_kind = match kind_for_keyword(&name) {
                Some(kind) => context.first_by_kind(kind),
                None => None,
            };
            match by_kind {
                Some(i) => Ok(i),
                None => Err(UnknownTarget { target: named.to_owned() }),
            }
        },
        None => {
            if context.handles[0].kind == WorkspaceKind::App {
                if let Some(i) = context.first_by_kind(WorkspaceKind::Ui) {
                    return Ok(i);
                }
            }
            Ok(0)
        },
    }
}

/// The kind of the workspace with the given identifier.
pub open spec fn kind_of_id(handles: Seq<WorkspaceHandle>, id: Seq<char>) -> Option<WorkspaceKind> {
    match first(handles, id_is(id)) {
        Some(i) => Some(handles[i].kind),
        None => None,
    }
}

/// The identifier names a workspace of the kind `kind`.
pub open spec fn id_of_kind(handles: Seq<WorkspaceHandle>, kind: WorkspaceKind) -> spec_fn(
    Seq<char>,
) -> bool {
    |id: Seq<char>| kind_of_id(handles, id) == Some(kind)
}

/// The workspace that receives the packages of a component whose files
/// went to the workspaces `ids`: the first UI workspace among them, else
/// the first library, else the first of them; none where there are none.
pub open spec fn dependency_target(handles: Seq<WorkspaceHandle>, ids: Seq<Seq<char>>) -> Option<
    Seq<char>,
> {
    if ids.len() == 0 {
        None
    } else {
        match first(ids, id_of_kind(handles, WorkspaceKind::Ui)) {
            Some(i) => Some(ids[i]),
            None => match first(ids, id_of_kind(handles, WorkspaceKind::Library)) {
                Some(i) => Some(ids[i]),
                None => Some(ids[0]),
            },
        }
    }
}

/// The first of `ids` that names a workspace of the kind `kind`.
fn first_id_of_kind(context: &WorkspaceContext, ids: &Vec<String>, kind: WorkspaceKind) -> (r:
    Option<usize>)
    ensures
        (match r {
            Some(i) => Some(i as int),
            None => None,
        }) == first(chars::views(ids@), id_of_kind(context.handles@, kind)),
        r matches Some(i) ==> i < ids@.len(),
{
    let ghost pred = id_of_kind(context.handles@, kind);
    let mut i: usize = 0;
    while i < ids.len()
        invariant
            i <= ids.len(),
            pred == id_of_kind(context.handles@, kind),
            first(chars::views(ids@), pred) == first_from(chars::views(ids@), pred, i as int),
        decreases ids.len() - i,
    {
        let hit = match context.handle_by_id(ids[i].as_str()) {
            Some(h) => context.handles[h].kind == kind,
            None => false,
        };
        if hit {
            return Some(i);
        }
        i += 1;
    }
    None
}

/// Chooses the workspace that receives the packages of a component.
pub fn select_dependency_target(workspace_ids: &Vec<String>, context: &WorkspaceContext) -> (r:
    Option<String>)
    ensures
        option_view(r) == dependency_target(context.handles@, chars::views(workspace_ids@)),
{
    if workspace_ids.len() == 0 {
        return None;
    }
    if let Some(i) = first_id_of_kind(context, workspace_ids, WorkspaceKind::Ui) {
        return Some(workspace_ids[i].clone());
    }
    if let Some(i) = first_id_of_kind(context, workspace_ids, WorkspaceKind::Library) {
        return Some(workspace_ids[i].clone());
    }
    Some(workspace_ids[0].clone())
}

/// The prefix of import paths: the configured one, else `~` for React
/// Router and `@` for everything else.
pub open spec fn alias_prefix_of(config: Config, framework: Option<FrameworkKind>) -> Seq<char> {
    match config.alias_prefixes {
        Some(prefixes) => match prefixes.components {
            Some(prefix) => prefix@,
            None => default_alias_prefix(framework),
        },
        None => default_alias_prefix(framework),
    }
}

/// The prefix of import paths that goes with a framework.
pub open spec fn default_alias_prefix(framework: Option<FrameworkKind>) -> Seq<char> {
    if framework == Some(FrameworkKind::ReactRouter) {
        "~"@
    } else {
        "@"@
    }
}

/// The prefix of import paths in a workspace.
pub fn resolve_alias_prefix(config: &Config, framework: Option<FrameworkKind>) -> (r: String)
    ensures
        r@ == alias_prefix_of(*config, framework),
{
    if let Some(prefixes) = &config.alias_prefixes {
        if let Some(prefix) = &prefixes.components {
            return prefix.clone();
        }
    }
    match framework {
        Some(FrameworkKind::ReactRouter) => "~".to_owned(),
        _ => "@".to_owned(),
    }
}

/// The alias under which components are imported, where the configuration
/// sets one: without trailing slashes.
pub open spec fn component_import_alias_of(config: Config) -> Option<Seq<char>> {
    match config.aliases.components.import() {
        Some(alias) => Some(text::trim_end_char(alias, '/')),
        None => None,
    }
}

/// The alias under which components are imported.
pub fn resolve_component_import_alias(config: &Config) -> (r: Option<String>)
    ensures
        option_view(r) == component_import_alias_of(*config),
{
    match config.aliases.components.import_alias() {
        Some(alias) => Some(
            chars::string_of(&chars::trim_end_char(&chars::chars_of(alias), '/')),
        ),
        None => None,
    }
}

// ---------------------------------------------------------------------------
// Building the context
// ---------------------------------------------------------------------------

/// Where a run takes place.
#[derive(Clone, Debug)]
pub struct WorkspaceEnvironment {
    /// The current directory.
    pub current_dir: String,
    /// The root of the repository.
    pub repo_root: String,
    /// The package manager of the repository.
    pub package_manager: PackageManagerKind,
    /// The directory of the configured workspace.
    pub primary_root: String,
}

/// What was found of a linked workspace: its directory and, where its
/// configuration file holds one, its configuration.
#[derive(Clone, Debug)]
pub struct LinkedWorkspace {
    pub root_abs: String,
    pub config: Option<Config>,
}

/// The configuration of a linked workspace is missing.
#[derive(Clone, Debug, PartialEq, Eq)]
pub struct LinkedConfigMissing {
    pub config: String,
    pub root: String,
}

impl LinkedConfigMissing {
    /// What to tell the user.
    pub fn message(&self) -> (r: String)
        ensures
            r@ == "linked workspace config "@ + self.config@ + " not found (expected for "@
                + self.root@ + ")"@,
    {
        let mut all = chars::chars_of("linked workspace config ");
        chars::append(&mut all, &chars::chars_of(self.config.as_str()));
        chars::append(&mut all, &chars::chars_of(" not found (expected for "));
        chars::append(&mut all, &chars::chars_of(self.root.as_str()));
        chars::append(&mut all, &chars::chars_of(")"));
        chars::string_of(&all)
    }
}

/// The package manager of a repository: the one its manifest names, else
/// the one its files point to, else npm.
pub fn resolve_package_manager(
    manifest: Option<PackageManagerKind>,
    detected: Option<PackageManagerKind>,
) -> (r: PackageManagerKind)
    ensures
        r == match manifest {
            Some(kind) => kind,
            None => match detected {
                Some(kind) => kind,
                None => PackageManagerKind::Npm,
            },
        },
{
    match manifest {
        Some(kind) => kind,
        None => match detected {
            Some(kind) => kind,
            None => PackageManagerKind::Npm,
        },
    }
}

/// The context in which the package manager runs for a workspace.
pub open spec fn handle_pm_context(
    context: PackageManagerContext,
    environment: WorkspaceEnvironment,
    root_abs: Seq<char>,
    package: Option<Seq<char>>,
) -> bool {
    &&& context.repo_root@ == environment.repo_root@
    &&& option_view(context.workspace_root) == Some(root_abs)
    &&& option_view(context.workspace_package) == package
    &&& context.package_manager == Some(environment.package_manager)
}

/// `handle` is the primary workspace that `config` describes.
pub open spec fn is_primary_handle(
    handle: WorkspaceHandle,
    config: Config,
    framework: FrameworkKind,
    environment: WorkspaceEnvironment,
) -> bool {
    &&& handle.id@ == "primary"@
    &&& handle.config == config
    &&& handle.alias_prefix@ == alias_prefix_of(config, Some(framework))
    &&& option_view(handle.component_import_alias) == component_import_alias_of(config)
    &&& match config.workspace {
        Some(workspace) => {
            let root_rel = if workspace.root@.len() == 0 {
                "."@
            } else {
                workspace.root@
            };
            &&& handle.kind == workspace.kind
            &&& handle.root_abs@ == environment.primary_root@
            &&& handle.root_rel@ == root_rel
            &&& option_view(handle.package_name) == option_view(workspace.package_name)
            &&& handle.label@ == (match workspace.package_name {
                Some(package) => package@,
                None => root_rel,
            })
            &&& handle_pm_context(
                handle.package_manager_context,
                environment,
                environment.primary_root@,
                option_view(workspace.package_name),
            )
        },
        None => {
            &&& handle.kind == WorkspaceKind::App
            &&& handle.root_abs@ == environment.current_dir@
            &&& handle.root_rel@ == "."@
            &&& handle.package_name is None
            &&& handle.label@ == "."@
            &&& handle_pm_context(
                handle.package_manager_context,
                environment,
                environment.current_dir@,
                None,
            )
        },
    }
}

/// `handle` is the workspace that the link at `index` leads to.
pub open spec fn is_linked_handle(
    handle: WorkspaceHandle,
    link: WorkspaceLink,
    index: int,
    found: LinkedWorkspace,
    environment: WorkspaceEnvironment,
) -> bool {
    &&& found.config is Some
    &&& handle.id@ == "linked-"@ + text::decimal(index as nat)
    &&& handle.config == found.config->0
    &&& handle.alias_prefix@ == alias_prefix_of(found.config->0, None)
    &&& option_view(handle.component_import_alias) == component_import_alias_of(found.config->0)
    &&& handle.kind == link.kind
    &&& handle.root_abs@ == found.root_abs@
    &&& handle.root_rel@ == link.root@
    &&& option_view(handle.package_name) == option_view(link.package_name)
    &&& handle.label@ == (match link.package_name {
        Some(package) => package@,
        None => link.root@,
    })
    &&& handle_pm_context(
        handle.package_manager_context,
        environment,
        found.root_abs@,
        option_view(link.package_name),
    )
}

/// The links of a configuration.
pub open spec fn links_of(config: Config) -> Seq<WorkspaceLink> {
    match config.workspace {
        Some(workspace) => workspace.linked_workspaces@,
        None => seq![],
    }
}

/// What was found of the link at `i` holds no configuration.
pub open spec fn config_missing(found: Seq<LinkedWorkspace>, i: int) -> bool {
    i >= found.len() || found[i].config is None
}

/// Builds the workspaces of a run: the primary one that `config`
/// describes, then one for each of its links, in their order. `linked[i]`
/// says what was found of the link `i`. Fails at the first link whose
/// configuration is missing.
pub fn build_workspace_context(
    config: Config,
    framework: FrameworkKind,
    environment: &WorkspaceEnvironment,
    linked: Vec<LinkedWorkspace>,
) -> (r: Result<WorkspaceContext, LinkedConfigMissing>)
    ensures
        match r {
            Ok(context) => {
                &&& context.wf()
                &&& context.current_dir@ == environment.current_dir@
                &&& context.handles@.len() == 1 + links_of(config).len()
                &&& is_primary_handle(context.handles@[0], config, framework, *environment)
                &&& forall|i: int|
                    0 <= i < links_of(config).len() ==> i < linked@.len() && is_linked_handle(
                        #[trigger] context.handles@[i + 1],
                        links_of(config)[i],
                        i,
                        linked@[i],
                        *environment,
                    )
            },
            Err(error) => exists|i: int|
                0 <= i < links_of(config).len() && #[trigger] config_missing(linked@, i) && (
                forall|j: int| 0 <= j < i ==> !config_missing(linked@, j)) && error.config@
                    == links_of(config)[i].config@ && error.root@ == links_of(config)[i].root@,
        },
{
    let mut others: Vec<WorkspaceHandle> = Vec::new();
    let ghost found = linked@;
    assert(linked@.len() == linked.len());
    match &config.workspace {
        Some(workspace) => {
            let mut index: usize = 0;
            for item in it: linked
                invariant
                    it.seq() == found,
                    found.len() <= usize::MAX,
                    index == it.index(),
                    config.workspace == Some(*workspace),
                    others@.len() == if index <= workspace.linked_workspaces@.len() {
                        index as int
                    } else {
                        workspace.linked_workspaces@.len() as int
                    },
                    forall|i: int|
                        0 <= i < others@.len() ==> is_linked_handle(
                            #[trigger] others@[i],
                            workspace.linked_workspaces@[i],
                            i,
                            found[i],
                            *environment,
                        ),
                    forall|j: int|
                        0 <= j < index && j < workspace.linked_workspaces@.len()
                            ==> !config_missing(found, j),
            {
                if index < workspace.linked_workspaces.len() {
                    let link = &workspace.linked_workspaces[index];
                    let link_config = match item.config {
                        Some(link_config) => link_config,
                        None => {
                            assert(config_missing(found, index as int));
                            return Err(
                                LinkedConfigMissing {
                                    config: link.config.clone(),
                                    root: link.root.clone(),
                                },
                            );
                        },
                    };
                    let mut id = chars::chars_of("linked-");
                    chars::append(&mut id, &chars::decimal(index));
                    let alias_prefix = resolve_alias_prefix(&link_config, None);
                    let component_import_alias = resolve_component_import_alias(&link_config);
                    let label = match &link.package_name {
                        Some(package) => package.clone(),
                        None => link.root.clone(),
                    };
                    let handle = WorkspaceHandle {
                        id: chars::string_of(&id),
                        label,
                        kind: link.kind,
                        root_abs: item.root_abs.clone(),
                        root_rel: link.root.clone(),
                        config: link_config,
                        alias_prefix,
                        component_import_alias,
                        package_name: duplicate_option(&link.package_name),
                        package_manager_context: PackageManagerContext {
                            repo_root: environment.repo_root.clone(),
                            workspace_root: Some(item.root_abs),
                            workspace_package: duplicate_option(&link.package_name),
                            package_manager: Some(environment.package_manager),
                        },
                    };
                    others.push(handle);
                }
                assert(index < found.len());
                index += 1;
            }
            if others.len() < workspace.linked_workspaces.len() {
                let link = &workspace.linked_workspaces[others.len()];
                assert(config_missing(found, others@.len() as int));
                return Err(
                    LinkedConfigMissing { config: link.config.clone(), root: link.root.clone() },
                );
            }
        },
        None => {},
    }
    let alias_prefix = resolve_alias_prefix(&config, Some(framework));
    let component_import_alias = resolve_component_import_alias(&config);
    let primary = match &config.workspace {
        Some(workspace) => {
            let root_rel = if workspace.root.as_str().unicode_len() == 0 {
                ".".to_owned()
            } else {
                workspace.root.clone()
            };
            let label = match &workspace.package_name {
                Some(package) => package.clone(),
                None => root_rel.clone(),
            };
            let package_name = duplicate_option(&workspace.package_name);
            let workspace_package = duplicate_option(&workspace.package_name);
            let kind = workspace.kind;
            WorkspaceHandle {
                id: "primary".to_owned(),
                label,
                kind,
                root_abs: environment.primary_root.clone(),
                root_rel,
                config,
                alias_prefix,
                component_import_alias,
                package_name,
                package_manager_context: PackageManagerContext {
                    repo_root: environment.repo_root.clone(),
                    workspace_root: Some(environment.primary_root.clone()),
                    workspace_package,
                    package_manager: Some(environment.package_manager),
                },
            }
        },
        None => WorkspaceHandle {
            id: "primary".to_owned(),
            label: ".".to_owned(),
            kind: WorkspaceKind::App,
            root_abs: environment.current_dir.clone(),
            root_rel: ".".to_owned(),
            config,
            alias_prefix,
            component_import_alias,
            package_name: None,
            package_manager_context: PackageManagerContext {
                repo_root: environment.repo_root.clone(),
                workspace_root: Some(environment.current_dir.clone()),
                workspace_package: None,
                package_manager: Some(environment.package_manager),
            },
        },
    };
    let ghost linked_handles = others@;
    others.insert(0, primary);
    proof {
        assert forall|i: int| 0 <= i < links_of(config).len() implies i < linked@.len()
            && is_linked_handle(
            #[trigger] others@[i + 1],
            links_of(config)[i],
            i,
            linked@[i],
            *environment,
        ) by {
            assert(others@[i + 1] == linked_handles[i]);
        }
    }
    Ok(WorkspaceContext { current_dir: environment.current_dir.clone(), handles: others })
}

} // verus!
