//! The documents this library works on: registry components and the
//! project's configuration.

use vstd::prelude::*;
use crate::chars;
use crate::string_map::StringMap;

verus! {

/// A copy of a list of strings.
pub fn duplicate_strings(v: &Vec<String>) -> (r: Vec<String>)
    ensures
        chars::views(r@) == chars::views(v@),
{
    let mut r: Vec<String> = Vec::new();
    let mut i: usize = 0;
    while i < v.len()
        invariant
            i <= v.len(),
            r@.len() == i,
            forall|j: int| 0 <= j < i ==> r@[j]@ == v@[j]@,
        decreases v.len() - i,
    {
        r.push(v[i].clone());
        i += 1;
    }
    assert(chars::views(r@) =~= chars::views(v@));
    r
}

/// A copy of an optional string.
pub fn duplicate_option(v: &Option<String>) -> (r: Option<String>)
    ensures
        option_view(r) == option_view(*v),
{
    match v {
        Some(s) => Some(s.clone()),
        None => None,
    }
}

/// The text of an optional string.
pub open spec fn option_view(v: Option<String>) -> Option<Seq<char>> {
    match v {
        Some(s) => Some(s@),
        None => None,
    }
}

/// One file of a component, as the registry lists it.
#[derive(Clone, Debug)]
pub struct ComponentFile {
    pub name: String,
    pub path: String,
    pub file_type: String,
    pub target: Option<String>,
}

/// What a `ComponentFile` says.
pub struct ComponentFileView {
    pub name: Seq<char>,
    pub path: Seq<char>,
    pub file_type: Seq<char>,
    pub target: Option<Seq<char>>,
}

impl View for ComponentFile {
    type V = ComponentFileView;

    open spec fn view(&self) -> ComponentFileView {
        ComponentFileView {
            name: self.name@,
            path: self.path@,
            file_type: self.file_type@,
            target: option_view(self.target),
        }
    }
}

impl ComponentFile {
    /// A copy that says the same.
    pub fn duplicate(&self) -> (r: Self)
        ensures
            r@ == self@,
    {
        ComponentFile {
            name: self.name.clone(),
            path: self.path.clone(),
            file_type: self.file_type.clone(),
            target: duplicate_option(&self.target),
        }
    }
}

/// A component of the registry.
#[derive(Clone, Debug)]
pub struct Component {
    pub name: String,
    pub description: String,
    pub category: String,
    pub files: Vec<ComponentFile>,
    pub dependencies: StringMap,
    pub dev_dependencies: StringMap,
    pub internal_dependencies: Vec<String>,
    pub exports: Vec<String>,
    pub props: Vec<(String, Vec<String>)>,
    pub variants: Vec<String>,
    pub sizes: Vec<String>,
}

/// What a `Component` says.
pub struct ComponentView {
    pub name: Seq<char>,
    pub description: Seq<char>,
    pub category: Seq<char>,
    pub files: Seq<ComponentFileView>,
    pub dependencies: Seq<(Seq<char>, Seq<char>)>,
    pub dev_dependencies: Seq<(Seq<char>, Seq<char>)>,
    pub internal_dependencies: Seq<Seq<char>>,
    pub exports: Seq<Seq<char>>,
    pub props: Seq<(Seq<char>, Seq<Seq<char>>)>,
    pub variants: Seq<Seq<char>>,
    pub sizes: Seq<Seq<char>>,
}

/// What a list of properties says.
pub open spec fn props_view(props: Seq<(String, Vec<String>)>) -> Seq<(Seq<char>, Seq<Seq<char>>)> {
    Seq::new(props.len(), |i: int| (props[i].0@, chars::views(props[i].1@)))
}

impl View for Component {
    type V = ComponentView;

    open spec fn view(&self) -> ComponentView {
        ComponentView {
            name: self.name@,
            description: self.description@,
            category: self.category@,
            files: chars::views(self.files@),
            dependencies: self.dependencies@,
            dev_dependencies: self.dev_dependencies@,
            internal_dependencies: chars::views(self.internal_dependencies@),
            exports: chars::views(self.exports@),
            props: props_view(self.props@),
            variants: chars::views(self.variants@),
            sizes: chars::views(self.sizes@),
        }
    }
}

impl Component {
    /// The dependency maps hold no name twice.
    pub open spec fn wf(&self) -> bool {
        self.dependencies.wf() && self.dev_dependencies.wf()
    }

    /// A copy that says the same.
    pub fn duplicate(&self) -> (r: Self)
        ensures
            r@ == self@,
    {
        let mut files: Vec<ComponentFile> = Vec::new();
        let mut i: usize = 0;
        while i < self.files.len()
            invariant
                i <= self.files.len(),
                files@.len() == i,
                forall|j: int| 0 <= j < i ==> files@[j]@ == self.files@[j]@,
            decreases self.files.len() - i,
        {
            files.push(self.files[i].duplicate());
            i += 1;
        }
        assert(chars::views(files@) =~= chars::views(self.files@));
        let mut props: Vec<(String, Vec<String>)> = Vec::new();
        let mut k: usize = 0;
        while k < self.props.len()
            invariant
                k <= self.props.len(),
                props@.len() == k,
                forall|j: int|
                    0 <= j < k ==> props@[j].0@ == self.props@[j].0@ && chars::views(props@[j].1@)
                        == chars::views(self.props@[j].1@),
            decreases self.props.len() - k,
        {
            props.push((self.props[k].0.clone(), duplicate_strings(&self.props[k].1)));
            k += 1;
        }
        assert(props_view(props@) =~= props_view(self.props@));
        Component {
            name: self.name.clone(),
            description: self.description.clone(),
            category: self.category.clone(),
            files,
            dependencies: self.dependencies.duplicate(),
            dev_dependencies: self.dev_dependencies.duplicate(),
            internal_dependencies: duplicate_strings(&self.internal_dependencies),
            exports: duplicate_strings(&self.exports),
            props,
            variants: duplicate_strings(&self.variants),
            sizes: duplicate_strings(&self.sizes),
        }
    }
}

/// A category of the registry and the slugs of its components.
#[derive(Clone, Debug)]
pub struct CategoryInfo {
    pub name: String,
    pub description: String,
    pub components: Vec<String>,
}

/// The registry manifest: components and categories by key, and the
/// packages that every project needs.
#[derive(Clone, Debug)]
pub struct Registry {
    pub name: String,
    pub description: Option<String>,
    pub version: String,
    pub components: Vec<(String, Component)>,
    pub categories: Vec<(String, CategoryInfo)>,
    pub requirements: StringMap,
}

/// The only way in which a barrel re-exports components.
#[derive(Clone, Copy, Debug, PartialEq, Eq, Structural)]
pub enum ExportStrategy {
    Named,
}

impl Default for ExportStrategy {
    fn default() -> (r: Self)
        ensures
            r == ExportStrategy::Named,
    {
        ExportStrategy::Named
    }
}

/// Where the re-exports of a workspace's components are kept.
#[derive(Clone, Debug)]
pub struct ExportsTargetConfig {
    pub barrel: String,
    pub strategy: ExportStrategy,
}

impl ExportsTargetConfig {
    /// Named re-exports kept in the file `barrel`.
    pub fn new(barrel: &str) -> (r: Self)
        ensures
            r.barrel@ == barrel@,
            r.strategy == ExportStrategy::Named,
    {
        ExportsTargetConfig { barrel: barrel.to_owned(), strategy: ExportStrategy::Named }
    }

    /// The barrel file's path.
    pub fn barrel_path(&self) -> (r: &str)
        ensures
            r@ == self.barrel@,
    {
        self.barrel.as_str()
    }
}

/// The export settings of a workspace.
#[derive(Clone, Debug)]
pub struct ExportsConfig {
    pub components: Option<ExportsTargetConfig>,
}

impl Default for ExportsConfig {
    fn default() -> (r: Self)
        ensures
            r.components is None,
    {
        ExportsConfig { components: None }
    }
}

impl ExportsConfig {
    /// The settings for component exports, if any.
    pub fn components(&self) -> (r: Option<&ExportsTargetConfig>)
        ensures
            r is Some == self.components is Some,
            r matches Some(target) ==> *target == self.components->0,
    {
        self.components.as_ref()
    }

    /// The settings for component exports, to be changed in place.
    pub fn components_mut(&mut self) -> (r: Option<&mut ExportsTargetConfig>)
        ensures
            r is Some == old(self).components is Some,
            r matches Some(target) ==> *target == old(self).components->0 && final(self).components
                == Some(*final(target)),
            r is None ==> *final(self) == *old(self),
    {
        match &mut self.components {
            Some(target) => Some(target),
            None => None,
        }
    }
}

/// Where an alias points: one path for both uses, or a path on disk with
/// an optional alias of its own for imports.
#[derive(Clone, Debug)]
pub enum AliasTarget {
    Path(String),
    Paths { filesystem: String, import: Option<String> },
}

impl Default for AliasTarget {
    fn default() -> (r: Self)
        ensures
            r.filesystem() == Seq::<char>::empty(),
            r.import() is None,
            r is Path,
    {
        AliasTarget::Path(String::new())
    }
}

impl AliasTarget {
    /// The path on disk.
    pub open spec fn filesystem(&self) -> Seq<char> {
        match self {
            AliasTarget::Path(path) => path@,
            AliasTarget::Paths { filesystem, .. } => filesystem@,
        }
    }

    /// The alias for imports, where one is set.
    pub open spec fn import(&self) -> Option<Seq<char>> {
        match self {
            AliasTarget::Path(_) => None,
            AliasTarget::Paths { import, .. } => option_view(*import),
        }
    }

    /// The path on disk.
    pub fn filesystem_path(&self) -> (r: &str)
        ensures
            r@ == self.filesystem(),
    {
        match self {
            AliasTarget::Path(path) => path.as_str(),
            AliasTarget::Paths { filesystem, .. } => filesystem.as_str(),
        }
    }

    /// The alias for imports, where one is set.
    pub fn import_alias(&self) -> (r: Option<&str>)
        ensures
            r is Some == self.import() is Some,
            r matches Some(alias) ==> self.import() == Some(alias@),
    {
        match self {
            AliasTarget::Path(_) => None,
            AliasTarget::Paths { import, .. } => match import {
                Some(alias) => Some(alias.as_str()),
                None => None,
            },
        }
    }

    /// A target with a path on disk and an optional import alias.
    pub fn with_paths(filesystem: &str, import: Option<String>) -> (r: Self)
        ensures
            r is Paths,
            r.filesystem() == filesystem@,
            r.import() == option_view(import),
    {
        AliasTarget::Paths { filesystem: filesystem.to_owned(), import }
    }

    /// Sets the import alias and keeps the path on disk.
    pub fn set_import(&mut self, import: Option<String>)
        ensures
            *final(self) is Paths,
            final(self).filesystem() == old(self).filesystem(),
            final(self).import() == option_view(import),
    {
        let filesystem = match self {
            AliasTarget::Path(path) => path.clone(),
            AliasTarget::Paths { filesystem, .. } => filesystem.clone(),
        };
        *self = AliasTarget::Paths { filesystem, import };
    }

    /// A target with one path for both uses.
    pub fn from_path(path: &str) -> (r: Self)
        ensures
            r is Path,
            r.filesystem() == path@,
            r.import() is None,
    {
        AliasTarget::Path(path.to_owned())
    }
}

/// The style sheet that Tailwind reads.
#[derive(Clone, Debug)]
pub struct TailwindConfig {
    pub css: String,
}

/// Where components and utilities live.
#[derive(Clone, Debug)]
pub struct Aliases {
    pub components: AliasTarget,
    pub utils: AliasTarget,
}

/// Overrides of the import prefix.
#[derive(Clone, Debug)]
pub struct AliasPrefixes {
    pub components: Option<String>,
    pub utils: Option<String>,
}

/// The three kinds of workspace.
#[derive(Clone, Copy, Debug, PartialEq, Eq, Structural)]
pub enum WorkspaceKind {
    App,
    Ui,
    Library,
}

/// Another workspace that this one installs into.
#[derive(Clone, Debug)]
pub struct WorkspaceLink {
    pub kind: WorkspaceKind,
    pub package_name: Option<String>,
    pub root: String,
    pub config: String,
}

/// The workspace that a configuration describes.
#[derive(Clone, Debug)]
pub struct WorkspaceConfig {
    pub kind: WorkspaceKind,
    pub package_name: Option<String>,
    pub root: String,
    pub linked_workspaces: Vec<WorkspaceLink>,
}

/// The root of a workspace whose configuration names none.
pub fn workspace_root_default() -> (r: String)
    ensures
        r@ == "."@,
{
    ".".to_owned()
}

/// The project's configuration document.
#[derive(Clone, Debug)]
pub struct Config {
    pub schema: Option<String>,
    pub style: String,
    pub tailwind: TailwindConfig,
    pub aliases: Aliases,
    pub alias_prefixes: Option<AliasPrefixes>,
    pub exports: Option<ExportsConfig>,
    pub workspace: Option<WorkspaceConfig>,
}

} // verus!
