//! Keeping the barrel of a workspace in step with the components that
//! were installed into it.

use vstd::prelude::*;
use crate::chars;
use crate::exports::{
    add_exports,
    barrel_update,
    merge_barrel,
    BarrelUpdate,
    ExportMap,
    ExportMapView,
};
use crate::imports::{normalize_component_content, normalized_content, rules_of};
use crate::gather::PendingComponentFile;
use crate::paths::{join_path, joined_path, module_path_from_barrel, parent_dir, parent_of};
use crate::registry::RegistryComponent;
use crate::string_map::same_text;
use crate::targets::{WorkspaceContext, WorkspaceHandle};
use crate::text::{first, first_from};
use crate::types::ExportsTargetConfig;
use crate::writer::ComponentFileWithContent;

verus! {

/// The fetched content of a pending file, rewritten for its workspace.
pub fn attach_content(pending: PendingComponentFile, content: &str, context: &WorkspaceContext) -> (r:
    ComponentFileWithContent)
    requires
        pending.workspace_index < context.handles@.len(),
    ensures
        r.content@ == normalized_content(
            content@,
            rules_of(context.handles@[pending.workspace_index as int]),
        ),
        r.workspace_id == pending.workspace_id,
        r.absolute_path == pending.absolute_path,
        r.display_path == pending.display_path,
        r.component_name == pending.component_name,
        r.component_slug == pending.component_slug,
        r.file_type == pending.file_type,
{
    let normalized = normalize_component_content(content, &context.handles[pending.workspace_index]);
    ComponentFileWithContent {
        workspace_id: pending.workspace_id,
        absolute_path: pending.absolute_path,
        display_path: pending.display_path,
        content: normalized,
        component_name: pending.component_name,
        component_slug: pending.component_slug,
        file_type: pending.file_type,
    }
}

/// The settings of the barrel of a workspace, where it keeps one.
pub open spec fn barrel_config(handle: WorkspaceHandle) -> Option<ExportsTargetConfig> {
    match handle.config.exports {
        Some(exports) => exports.components,
        None => None,
    }
}

/// The barrel file of a workspace and the directory that holds it.
pub fn barrel_location(handle: &WorkspaceHandle) -> (r: Option<(String, String)>)
    ensures
        r is Some == barrel_config(*handle) is Some,
        r matches Some(place) ==> place.0@ == joined_path(
            handle.root_abs@,
            barrel_config(*handle)->0.barrel@,
        ) && place.1@ == (match parent_dir(place.0@) {
            Some(dir) => dir,
            None => handle.root_abs@,
        }),
{
    let target = match &handle.config.exports {
        Some(exports) => match exports.components() {
            Some(target) => target,
            None => {
                return None;
            },
        },
        None => {
            return None;
        },
    };
    let barrel = join_path(handle.root_abs.as_str(), target.barrel_path());
    let dir = match parent_of(barrel.as_str()) {
        Some(dir) => dir,
        None => handle.root_abs.clone(),
    };
    Some((barrel, dir))
}

/// The entry is kept under the slug `slug`.
pub open spec fn slug_is(slug: Seq<char>) -> spec_fn(RegistryComponent) -> bool {
    |entry: RegistryComponent| entry.slug@ == slug
}

/// The names that the file re-exports into the barrel of the workspace
/// `id`: the exports of its component, for a component file of that
/// workspace whose component was requested.
pub open spec fn file_exports(
    id: Seq<char>,
    entries: Seq<RegistryComponent>,
    file: ComponentFileWithContent,
) -> Seq<Seq<char>> {
    if file.workspace_id@ == id && file.file_type@ == "component"@ {
        match first(entries, slug_is(file.component_slug@)) {
            Some(i) => chars::views(entries[i].component.exports@),
            None => seq![],
        }
    } else {
        seq![]
    }
}

/// The names that the first `n` files re-export from `module`, the module
/// of the file `i` being `module_paths[i]`.
pub open spec fn collected_exports(
    id: Seq<char>,
    entries: Seq<RegistryComponent>,
    files: Seq<ComponentFileWithContent>,
    module_paths: Seq<Seq<char>>,
    n: int,
    module: Seq<char>,
) -> Set<Seq<char>>
    decreases n,
{
    if n <= 0 {
        Set::empty()
    } else {
        let before = collected_exports(id, entries, files, module_paths, n - 1, module);
        if module_paths[n - 1] == module {
            before.union(file_exports(id, entries, files[n - 1]).to_set())
        } else {
            before
        }
    }
}

/// The exports of the component of a file, where it counts for the barrel
/// of the workspace `id`.
#[verifier::loop_isolation(false)]
fn exports_of_file<'a>(
    id: &str,
    entries: &'a Vec<RegistryComponent>,
    file: &ComponentFileWithContent,
) -> (r: Option<&'a Vec<String>>)
    ensures
        match r {
            Some(names) => chars::views(names@) == file_exports(id@, entries@, *file),
            None => file_exports(id@, entries@, *file).len() == 0,
        },
{
    if !(same_text(file.workspace_id.as_str(), id) && same_text(file.file_type.as_str(), "component")) {
        return None;
    }
    let ghost pred = slug_is(file.component_slug@);
    let mut i: usize = 0;
    while i < entries.len()
        invariant
            i <= entries.len(),
            pred == slug_is(file.component_slug@),
            first(entries@, pred) == first_from(entries@, pred, i as int),
        decreases entries.len() - i,
    {
        if same_text(entries[i].slug.as_str(), file.component_slug.as_str()) {
            return Some(&entries[i].component.exports);
        }
        i += 1;
    }
    None
}

/// Collects what the installed files re-export into the barrel of the
/// workspace `id`, by module; `module_paths[i]` is the module of `files[i]`.
pub fn collect_workspace_exports(
    id: &str,
    entries: &Vec<RegistryComponent>,
    files: &Vec<ComponentFileWithContent>,
    module_paths: &Vec<String>,
) -> (r: ExportMap)
    requires
        module_paths@.len() == files@.len(),
    ensures
        r.wf(),
        forall|m: Seq<char>|
            r@.exports_of(m) == collected_exports(
                id@,
                entries@,
                files@,
                chars::views(module_paths@),
                files@.len() as int,
                m,
            ),
{
    let mut map = ExportMap::new();
    let mut n: usize = 0;
    while n < files.len()
        invariant
            n <= files.len(),
            module_paths@.len() == files@.len(),
            map.wf(),
            forall|m: Seq<char>|
                map@.exports_of(m) == collected_exports(
                    id@,
                    entries@,
                    files@,
                    chars::views(module_paths@),
                    n as int,
                    m,
                ),
        decreases files.len() - n,
    {
        let ghost before = map@;
        match exports_of_file(id, entries, &files[n]) {
            Some(names) => {
                add_exports(&mut map, module_paths[n].as_str(), names);
                proof {
                    let module = module_paths@[n as int]@;
                    if names@.len() == 0 {
                        assert(chars::views(names@).to_set() =~= Set::<Seq<char>>::empty());
                        assert(before.exports_of(module).union(Set::<Seq<char>>::empty())
                            =~= before.exports_of(module));
                    }
                }
            },
            None => {
                proof {
                    let none = file_exports(id@, entries@, files@[n as int]);
                    assert(none.to_set() =~= Set::<Seq<char>>::empty());
                    assert forall|m: Seq<char>| before.exports_of(m).union(
                        Set::<Seq<char>>::empty(),
                    ) == before.exports_of(m) by {
                        assert(before.exports_of(m).union(Set::<Seq<char>>::empty())
                            =~= before.exports_of(m));
                    }
                }
            },
        }
        n += 1;
    }
    map
}

/// `map` is sound and re-exports, from every module, what the files
/// re-export from it.
pub open spec fn is_collected(
    map: ExportMapView,
    id: Seq<char>,
    entries: Seq<RegistryComponent>,
    files: Seq<ComponentFileWithContent>,
    module_paths: Seq<Seq<char>>,
) -> bool {
    &&& map.wf()
    &&& forall|m: Seq<char>|
        map.exports_of(m) == collected_exports(id, entries, files, module_paths, files.len() as int, m)
}

/// What becomes of the barrel of a workspace after the given files were
/// installed: nothing where the workspace keeps no barrel or the barrel
/// re-exports all of it already; else the barrel's block rewritten with
/// the exports of the installed components merged in, each under the
/// module path of its file, and the text around the block as it was.
/// `existing_barrel` is the text of the barrel file, `None` where there is
/// none yet.
pub fn sync_component_exports(
    handle: &WorkspaceHandle,
    entries: &Vec<RegistryComponent>,
    files: &Vec<ComponentFileWithContent>,
    existing_barrel: Option<&str>,
) -> (r: Option<BarrelUpdate>)
    ensures
        barrel_config(*handle) is None ==> r is None,
        barrel_config(*handle) is Some ==> exists|module_paths: Seq<Seq<char>>, added: ExportMapView|
            {
                &&& module_paths.len() == files@.len()
                &&& #[trigger] is_collected(added, handle.id@, entries@, files@, module_paths)
                &&& (match r {
                    Some(update) => Some(update@),
                    None => None,
                }) == barrel_update(
                    match existing_barrel {
                        Some(text) => Some(text@),
                        None => None,
                    },
                    added,
                )
            },
{
    let (_barrel, dir) = match barrel_location(handle) {
        Some(place) => place,
        None => {
            return None;
        },
    };
    let mut module_paths: Vec<String> = Vec::new();
    let mut n: usize = 0;
    while n < files.len()
        invariant
            n <= files.len(),
            module_paths@.len() == n,
        decreases files.len() - n,
    {
        module_paths.push(module_path_from_barrel(dir.as_str(), files[n].absolute_path.as_str()));
        n += 1;
    }
    let added = collect_workspace_exports(handle.id.as_str(), entries, files, &module_paths);
    let update = merge_barrel(existing_barrel, &added);
    proof {
        assert(is_collected(added@, handle.id@, entries@, files@, chars::views(module_paths@)));
    }
    update
}

} // verus!
