//! Placing the files of the resolved components in their workspaces, and
//! collecting the packages that each workspace then needs.

use vstd::prelude::*;
use crate::chars;
use crate::install::WorkspaceDependencySet;
use crate::paths::{
    component_path,
    display_path,
    flatten_relative_path_for_slug,
    flattened_path,
    join_path,
    joined_path,
    resolve_component_path,
};
use crate::registry::RegistryComponent;
use crate::resolver::contains_text;
use crate::string_map::{lookup, position, position_from, same_text, StringMap};
use crate::targets::{
    dependency_target,
    select_dependency_target,
    select_workspace_handle,
    selected_handle,
    UnknownTarget,
    WorkspaceContext,
    WorkspaceHandle,
};
use crate::types::{option_view, Component, ComponentFile};

verus! {

/// A file of a component with the place where it goes; its content is
/// still to be fetched.
#[derive(Clone, Debug)]
pub struct PendingComponentFile {
    /// The position of the receiving workspace in the context.
    pub workspace_index: usize,
    pub workspace_id: String,
    pub absolute_path: String,
    pub display_path: String,
    pub component_name: String,
    pub component_slug: String,
    pub file_type: String,
    pub registry_path: String,
}

/// What a `PendingComponentFile` says, but for the path that is shown.
pub struct PendingView {
    pub workspace_index: int,
    pub workspace_id: Seq<char>,
    pub absolute_path: Seq<char>,
    pub component_name: Seq<char>,
    pub component_slug: Seq<char>,
    pub file_type: Seq<char>,
    pub registry_path: Seq<char>,
}

impl View for PendingComponentFile {
    type V = PendingView;

    open spec fn view(&self) -> PendingView {
        PendingView {
            workspace_index: self.workspace_index as int,
            workspace_id: self.workspace_id@,
            absolute_path: self.absolute_path@,
            component_name: self.component_name@,
            component_slug: self.component_slug@,
            file_type: self.file_type@,
            registry_path: self.registry_path@,
        }
    }
}

/// Where a registry file goes in a workspace: below the workspace's root,
/// at its place below the components directory, and out of a directory
/// that is named after its component.
pub open spec fn placed_path(handle: WorkspaceHandle, file_path: Seq<char>, slug: Seq<char>) -> Seq<
    char,
> {
    let base = handle.config.aliases.components.filesystem();
    let relative = component_path(file_path, base);
    joined_path(
        handle.root_abs@,
        match flattened_path(relative, base, slug) {
            Some(flat) => flat,
            None => relative,
        },
    )
}

/// The place of one file of a component; or the target that it names and
/// that no workspace answers to.
pub open spec fn pending_file(
    handles: Seq<WorkspaceHandle>,
    slug: Seq<char>,
    component_name: Seq<char>,
    file: ComponentFile,
) -> Result<PendingView, Seq<char>> {
    match selected_handle(handles, option_view(file.target)) {
        Some(i) => Ok(
            PendingView {
                workspace_index: i,
                workspace_id: handles[i].id@,
                absolute_path: placed_path(handles[i], file.path@, slug),
                component_name,
                component_slug: slug,
                file_type: file.file_type@,
                registry_path: file.path@,
            },
        ),
        None => Err(option_view(file.target)->0),
    }
}

/// Places one file of a component.
pub fn plan_component_file(
    context: &WorkspaceContext,
    slug: &str,
    component_name: &str,
    file: &ComponentFile,
) -> (r: Result<PendingComponentFile, UnknownTarget>)
    requires
        context.wf(),
    ensures
        (match r {
            Ok(pending) => Ok(pending@),
            Err(error) => Err(error.target@),
        }) == pending_file(context.handles@, slug@, component_name@, *file),
        r matches Ok(pending) ==> pending.workspace_index < context.handles@.len(),
{
    let target: Option<&str> = match &file.target {
        Some(t) => Some(t.as_str()),
        None => None,
    };
    let index = match select_workspace_handle(context, target) {
        Ok(i) => i,
        Err(error) => {
            return Err(error);
        },
    };
    let handle = &context.handles[index];
    let relative = resolve_component_path(file.path.as_str(), &handle.config);
    let relative = match flatten_relative_path_for_slug(relative.as_str(), &handle.config, slug) {
        Some(flat) => flat,
        None => relative,
    };
    let absolute_path = join_path(handle.root_abs.as_str(), relative.as_str());
    let shown = display_path(absolute_path.as_str(), context.current_dir.as_str());
    Ok(
        PendingComponentFile {
            workspace_index: index,
            workspace_id: handle.id.clone(),
            absolute_path,
            display_path: shown,
            component_name: component_name.to_owned(),
            component_slug: slug.to_owned(),
            file_type: file.file_type.clone(),
            registry_path: file.path.clone(),
        },
    )
}

/// The places of the first `n` files of a component; or the first target
/// among them that no workspace answers to.
pub open spec fn pending_files(handles: Seq<WorkspaceHandle>, entry: RegistryComponent, n: int) -> Result<
    Seq<PendingView>,
    Seq<char>,
>
    decreases n,
{
    if n <= 0 {
        Ok(seq![])
    } else {
        match pending_files(handles, entry, n - 1) {
            Err(target) => Err(target),
            Ok(before) => match pending_file(
                handles,
                entry.slug@,
                entry.component.name@,
                entry.component.files@[n - 1],
            ) {
                Ok(pending) => Ok(before.push(pending)),
                Err(target) => Err(target),
            },
        }
    }
}

/// A failure at one file is the failure of all the files.
pub proof fn lemma_pending_failure(
    handles: Seq<WorkspaceHandle>,
    entry: RegistryComponent,
    m: int,
    n: int,
)
    requires
        0 <= m <= n,
        pending_files(handles, entry, m) is Err,
    ensures
        pending_files(handles, entry, n) == pending_files(handles, entry, m),
    decreases n - m,
{
    if m < n {
        lemma_pending_failure(handles, entry, m, n - 1);
    }
}

/// Places the files of one component.
pub fn plan_component_files(context: &WorkspaceContext, entry: &RegistryComponent) -> (r: Result<
    Vec<PendingComponentFile>,
    UnknownTarget,
>)
    requires
        context.wf(),
    ensures
        (match r {
            Ok(list) => Ok(chars::views(list@)),
            Err(error) => Err(error.target@),
        }) == pending_files(context.handles@, *entry, entry.component.files@.len() as int),
{
    let mut list: Vec<PendingComponentFile> = Vec::new();
    let mut n: usize = 0;
    assert(chars::views(list@) =~= Seq::<PendingView>::empty());
    while n < entry.component.files.len()
        invariant
            n <= entry.component.files.len(),
            context.wf(),
            pending_files(context.handles@, *entry, n as int) == Ok::<Seq<PendingView>, Seq<char>>(
                chars::views(list@),
            ),
        decreases entry.component.files.len() - n,
    {
        let ghost before = chars::views(list@);
        match plan_component_file(
            context,
            entry.slug.as_str(),
            entry.component.name.as_str(),
            &entry.component.files[n],
        ) {
            Ok(pending) => {
                list.push(pending);
                assert(chars::views(list@) =~= before.push(pending@));
            },
            Err(error) => {
                proof {
                    lemma_pending_failure(
                        context.handles@,
                        *entry,
                        n + 1,
                        entry.component.files@.len() as int,
                    );
                }
                return Err(error);
            },
        }
        n += 1;
    }
    Ok(list)
}

/// The identifiers of the workspaces of the first `n` places, each once,
/// in the order in which they are first seen.
pub open spec fn workspace_ids(pending: Seq<PendingView>, n: int) -> Seq<Seq<char>>
    decreases n,
{
    if n <= 0 {
        seq![]
    } else {
        let before = workspace_ids(pending, n - 1);
        if before.contains(pending[n - 1].workspace_id) {
            before
        } else {
            before.push(pending[n - 1].workspace_id)
        }
    }
}

/// The identifiers of the workspaces that receive the given files.
pub fn component_workspace_ids(pending: &Vec<PendingComponentFile>) -> (r: Vec<String>)
    ensures
        chars::views(r@) == workspace_ids(chars::views(pending@), pending@.len() as int),
{
    let mut ids: Vec<String> = Vec::new();
    let mut n: usize = 0;
    assert(chars::views(ids@) =~= Seq::<Seq<char>>::empty());
    while n < pending.len()
        invariant
            n <= pending.len(),
            chars::views(ids@) == workspace_ids(chars::views(pending@), n as int),
        decreases pending.len() - n,
    {
        let ghost before = chars::views(ids@);
        if !contains_text(&ids, pending[n].workspace_id.as_str()) {
            ids.push(pending[n].workspace_id.clone());
            assert(chars::views(ids@) =~= before.push(pending@[n as int].workspace_id@));
        }
        n += 1;
    }
    ids
}

/// `acc` with the first `n` entries of `added` that it has no name for.
pub open spec fn with_absent(
    acc: Seq<(Seq<char>, Seq<char>)>,
    added: Seq<(Seq<char>, Seq<char>)>,
    n: int,
) -> Seq<(Seq<char>, Seq<char>)>
    decreases n,
{
    if n <= 0 {
        acc
    } else {
        let before = with_absent(acc, added, n - 1);
        if lookup(before, added[n - 1].0) is Some {
            before
        } else {
            before.push(added[n - 1])
        }
    }
}

/// Adds to `acc` the entries of `added` for which it has no name yet.
pub fn add_absent(acc: &mut StringMap, added: &StringMap)
    requires
        old(acc).wf(),
    ensures
        final(acc).wf(),
        final(acc)@ == with_absent(old(acc)@, added@, added@.len() as int),
{
    let mut n: usize = 0;
    while n < added.entries.len()
        invariant
            n <= added.entries.len(),
            acc.wf(),
            acc@ == with_absent(old(acc)@, added@, n as int),
        decreases added.entries.len() - n,
    {
        acc.insert_if_absent(added.entries[n].0.clone(), added.entries[n].1.clone());
        n += 1;
    }
}

/// What a set of dependencies says.
pub struct DependencySetView {
    pub regular: Seq<(Seq<char>, Seq<char>)>,
    pub dev: Seq<(Seq<char>, Seq<char>)>,
}

/// What the dependency sets of the workspaces say, by workspace.
pub open spec fn dependency_views(sets: Seq<(String, WorkspaceDependencySet)>) -> Seq<
    (Seq<char>, DependencySetView),
> {
    Seq::new(
        sets.len(),
        |i: int| (sets[i].0@, DependencySetView { regular: sets[i].1.regular@, dev: sets[i].1.dev@ }),
    )
}

/// The identifiers of the workspaces that have a dependency set.
pub open spec fn set_ids(sets: Seq<(Seq<char>, DependencySetView)>) -> Seq<Seq<char>> {
    Seq::new(sets.len(), |i: int| sets[i].0)
}

/// The dependency sets after the packages of a component went to the
/// workspace `target`: a package is added where the workspace does not
/// ask for it yet; the first range asked for stays.
pub open spec fn with_component(
    sets: Seq<(Seq<char>, DependencySetView)>,
    target: Seq<char>,
    component: Component,
) -> Seq<(Seq<char>, DependencySetView)> {
    let (at, all) = match position(set_ids(sets), target) {
        Some(i) => (i, sets),
        None => (
            sets.len() as int,
            sets.push((target, DependencySetView { regular: seq![], dev: seq![] })),
        ),
    };
    all.update(
        at,
        (
            target,
            DependencySetView {
                regular: with_absent(
                    all[at].1.regular,
                    component.dependencies@,
                    component.dependencies@.len() as int,
                ),
                dev: with_absent(
                    all[at].1.dev,
                    component.dev_dependencies@,
                    component.dev_dependencies@.len() as int,
                ),
            },
        ),
    )
}

/// Every dependency set holds no name twice.
pub open spec fn sets_wf(sets: Seq<(String, WorkspaceDependencySet)>) -> bool {
    forall|i: int| 0 <= i < sets.len() ==> (#[trigger] sets[i]).1.wf()
}

/// Sends the packages of a component to the workspace `target`.
pub fn add_component_dependencies(
    sets: &mut Vec<(String, WorkspaceDependencySet)>,
    target: &str,
    component: &Component,
)
    requires
        sets_wf(old(sets)@),
    ensures
        sets_wf(final(sets)@),
        dependency_views(final(sets)@) == with_component(
            dependency_views(old(sets)@),
            target@,
            *component,
        ),
{
    let ghost before = dependency_views(sets@);
    let ghost ids = set_ids(before);
    let mut at: usize = 0;
    let mut found = false;
    while at < sets.len()
        invariant_except_break
            !found,
        invariant
            at <= sets.len(),
            sets@ == old(sets)@,
            ids == set_ids(dependency_views(sets@)),
            position(ids, target@) == position_from(ids, target@, at as int),
        ensures
            at <= sets.len(),
            sets@ == old(sets)@,
            found ==> position(ids, target@) == Some(at as int) && at < sets.len(),
            !found ==> position(ids, target@) is None && at == sets.len(),
        decreases sets.len() - at,
    {
        if same_text(sets[at].0.as_str(), target) {
            found = true;
            break ;
        }
        at += 1;
    }
    if !found {
        sets.push((target.to_owned(), WorkspaceDependencySet::new()));
        proof {
            assert(dependency_views(sets@) =~= before.push(
                (target@, DependencySetView { regular: seq![], dev: seq![] }),
            ));
        }
    }
    let ghost all = dependency_views(sets@);
    proof {
        crate::string_map::lemma_position(ids, target@);
        assert(all[at as int].0 == target@);
    }
    let mut entry = (String::new(), WorkspaceDependencySet::new());
    std::mem::swap(&mut entry, &mut sets[at]);
    let (id, mut set) = entry;
    assert(set.wf());
    add_absent(&mut set.regular, &component.dependencies);
    add_absent(&mut set.dev, &component.dev_dependencies);
    let ghost set_view = DependencySetView { regular: set.regular@, dev: set.dev@ };
    sets.set(at, (id, set));
    proof {
        assert(dependency_views(sets@) =~= all.update(at as int, (target@, set_view)));
        assert forall|i: int| 0 <= i < sets@.len() implies (#[trigger] sets@[i]).1.wf() by {
            if i != at {
                if i < old(sets)@.len() {
                    assert(sets@[i] == old(sets)@[i]);
                }
            }
        }
    }
}

/// What gathering the first `n` components gives: the places of all their
/// files, in order, and the packages that each workspace needs. The
/// packages of a component go to one of the workspaces that receive its
/// files: a UI workspace before a library before any other.
pub open spec fn gathered(handles: Seq<WorkspaceHandle>, components: Seq<RegistryComponent>, n: int) -> Result<
    (Seq<PendingView>, Seq<(Seq<char>, DependencySetView)>),
    Seq<char>,
>
    decreases n,
{
    if n <= 0 {
        Ok((seq![], seq![]))
    } else {
        match gathered(handles, components, n - 1) {
            Err(target) => Err(target),
            Ok((files, sets)) => {
                let entry = components[n - 1];
                match pending_files(handles, entry, entry.component.files@.len() as int) {
                    Err(target) => Err(target),
                    Ok(pending) => Ok(
                        (
                            files + pending,
                            match dependency_target(
                                handles,
                                workspace_ids(pending, pending.len() as int),
                            ) {
                                Some(target) => with_component(sets, target, entry.component),
                                None => sets,
                            },
                        ),
                    ),
                }
            },
        }
    }
}

/// A failure at one component is the failure of all the components.
pub proof fn lemma_gathered_failure(
    handles: Seq<WorkspaceHandle>,
    components: Seq<RegistryComponent>,
    m: int,
    n: int,
)
    requires
        0 <= m <= n,
        gathered(handles, components, m) is Err,
    ensures
        gathered(handles, components, n) == gathered(handles, components, m),
    decreases n - m,
{
    if m < n {
        lemma_gathered_failure(handles, components, m, n - 1);
    }
}

/// Places the files of the resolved components in their workspaces and
/// collects the packages that each workspace needs. Fails where a file
/// names a target that no workspace answers to.
pub fn gather_component_files(components: &Vec<RegistryComponent>, context: &WorkspaceContext) -> (r:
    Result<(Vec<PendingComponentFile>, Vec<(String, WorkspaceDependencySet)>), UnknownTarget>)
    requires
        context.wf(),
    ensures
        (match r {
            Ok(found) => Ok((chars::views(found.0@), dependency_views(found.1@))),
            Err(error) => Err(error.target@),
        }) == gathered(context.handles@, components@, components@.len() as int),
        r matches Ok(found) ==> sets_wf(found.1@),
{
    let mut files: Vec<PendingComponentFile> = Vec::new();
    let mut sets: Vec<(String, WorkspaceDependencySet)> = Vec::new();
    let mut n: usize = 0;
    proof {
        assert(chars::views(files@) =~= Seq::<PendingView>::empty());
        assert(dependency_views(sets@) =~= Seq::<(Seq<char>, DependencySetView)>::empty());
    }
    while n < components.len()
        invariant
            n <= components.len(),
            context.wf(),
            sets_wf(sets@),
            gathered(context.handles@, components@, n as int) == Ok::<
                (Seq<PendingView>, Seq<(Seq<char>, DependencySetView)>),
                Seq<char>,
            >((chars::views(files@), dependency_views(sets@))),
        decreases components.len() - n,
    {
        let entry = &components[n];
        let ghost before_files = chars::views(files@);
        let mut pending = match plan_component_files(context, entry) {
            Ok(pending) => pending,
            Err(error) => {
                proof {
                    lemma_gathered_failure(
                        context.handles@,
                        components@,
                        n + 1,
                        components@.len() as int,
                    );
                }
                return Err(error);
            },
        };
        let ghost placed = chars::views(pending@);
        let ids = component_workspace_ids(&pending);
        if let Some(target) = select_dependency_target(&ids, context) {
            add_component_dependencies(&mut sets, target.as_str(), &entry.component);
        }
        files.append(&mut pending);
        assert(chars::views(files@) =~= before_files + placed);
        n += 1;
    }
    Ok((files, sets))
}

} // verus!
