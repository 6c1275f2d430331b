//! Small decisions of setting a project up: the kind of a workspace, the
//! default places of its files, and what counts as installed.

use vstd::prelude::*;
use crate::chars;
use crate::framework::{AppStructure, FrameworkDetection, FrameworkKind};
use crate::string_map::{lookup, StringMap};
use crate::text;
use crate::types::{option_view, Config, ExportsConfig, ExportsTargetConfig, WorkspaceKind};
use crate::versions::{decimal_value, from_first_digit, leading_digits};

verus! {

/// The name of the configuration file.
pub const CONFIG_FILE_NAME: &'static str = "nocta.config.json";

/// The schema that a written configuration names where it names none.
pub const DEFAULT_SCHEMA_URL: &'static str = "https://www.nocta-ui.com/registry/config-schema.json";

/// What a configuration file holds.
#[derive(Clone, Copy, Debug, PartialEq, Eq, Structural)]
pub enum ConfigText {
    /// There is no file.
    Missing,
    /// The file is blank.
    Blank,
    /// The file holds a document, still to be parsed.
    Document,
}

/// What a configuration file holds, given its text, `None` where there is
/// no file: only a text that is not blank is a document.
pub fn read_config(contents: Option<&str>) -> (r: ConfigText)
    ensures
        r == match contents {
            None => ConfigText::Missing,
            Some(text) => if text::trim(text@).len() > 0 {
                ConfigText::Document
            } else {
                ConfigText::Blank
            },
        },
{
    match contents {
        None => ConfigText::Missing,
        Some(text) => if chars::trim(&chars::chars_of(text)).len() > 0 {
            ConfigText::Document
        } else {
            ConfigText::Blank
        },
    }
}

/// The configuration as it is written: with the default schema where it
/// names none.
pub fn write_config(config: Config) -> (r: Config)
    ensures
        option_view(r.schema) == (match config.schema {
            Some(schema) => Some(schema@),
            None => Some(DEFAULT_SCHEMA_URL@),
        }),
        r.style == config.style,
        r.tailwind == config.tailwind,
        r.aliases == config.aliases,
        r.alias_prefixes == config.alias_prefixes,
        r.exports == config.exports,
        r.workspace == config.workspace,
{
    let mut document = config;
    if document.schema.is_none() {
        document.schema = Some(DEFAULT_SCHEMA_URL.to_owned());
    }
    document
}

/// A relative path as the manifest writes it: with slashes for
/// backslashes, without one leading run of `./`, and `.` for the empty path.
pub open spec fn relative_path_text(path: Seq<char>) -> Seq<char> {
    let plain = text::replace_char(path, '\\', '/');
    if plain.len() == 0 || plain == "."@ {
        "."@
    } else if text::starts_with(plain, "./"@) {
        let rest = text::trim_start_pat(plain, "./"@);
        if rest.len() == 0 {
            "."@
        } else {
            rest
        }
    } else {
        plain
    }
}

/// A relative path as the manifest writes it.
pub fn normalize_relative_path(path: &str) -> (r: String)
    ensures
        r@ == relative_path_text(path@),
{
    let plain = chars::replace_char(&chars::chars_of(path), '\\', '/');
    let dot = chars::chars_of(".");
    let dot_slash = chars::chars_of("./");
    if plain.len() == 0 || chars::equal(&plain, &dot) {
        return ".".to_owned();
    }
    if chars::starts_with(&plain, &dot_slash) {
        let rest = chars::trim_start_pat(&plain, &dot_slash);
        if rest.len() == 0 {
            return ".".to_owned();
        }
        return chars::string_of(&rest);
    }
    chars::string_of(&plain)
}

/// A relative path as the manifest writes it.
pub fn normalize_relative_path_buf(path: String) -> (r: String)
    ensures
        r@ == relative_path_text(path@),
{
    normalize_relative_path(path.as_str())
}

/// The kind of workspace that a path suggests.
pub open spec fn guessed_kind(path: Seq<char>) -> WorkspaceKind {
    let lower = text::ascii_lower(path);
    if text::contains(lower, "/ui"@) || text::contains(lower, "ui/"@) || text::contains(
        lower,
        "packages/ui"@,
    ) {
        WorkspaceKind::Ui
    } else if text::contains(lower, "package"@) && text::contains(lower, "ui"@) {
        WorkspaceKind::Ui
    } else if text::contains(lower, "lib"@) || text::contains(lower, "library"@) {
        WorkspaceKind::Library
    } else {
        WorkspaceKind::App
    }
}

/// The kind of workspace that a path suggests.
pub fn guess_workspace_kind(path: &str) -> (r: WorkspaceKind)
    ensures
        r == guessed_kind(path@),
{
    let lower = chars::ascii_lower(&chars::chars_of(path));
    if chars::contains(&lower, &chars::chars_of("/ui")) || chars::contains(
        &lower,
        &chars::chars_of("ui/"),
    ) || chars::contains(&lower, &chars::chars_of("packages/ui")) {
        WorkspaceKind::Ui
    } else if chars::contains(&lower, &chars::chars_of("package")) && chars::contains(
        &lower,
        &chars::chars_of("ui"),
    ) {
        WorkspaceKind::Ui
    } else if chars::contains(&lower, &chars::chars_of("lib")) || chars::contains(
        &lower,
        &chars::chars_of("library"),
    ) {
        WorkspaceKind::Library
    } else {
        WorkspaceKind::App
    }
}

/// `child` below the relative path `base`.
pub open spec fn relative_child(base: Seq<char>, child: Seq<char>) -> Seq<char> {
    if base == "."@ || base.len() == 0 {
        child
    } else {
        text::trim_end_char(base, '/') + "/"@ + child
    }
}

/// `child` below the relative path `base`.
pub fn join_relative_components(base: &str, child: &str) -> (r: String)
    ensures
        r@ == relative_child(base@, child@),
{
    let b = chars::chars_of(base);
    if chars::equal(&b, &chars::chars_of(".")) || b.len() == 0 {
        return child.to_owned();
    }
    let mut all = chars::trim_end_char(&b, '/');
    chars::append(&mut all, &chars::chars_of("/"));
    chars::append(&mut all, &chars::chars_of(child));
    chars::string_of(&all)
}

/// How a kind of workspace is called.
pub fn workspace_kind_label(kind: WorkspaceKind) -> (r: &'static str)
    ensures
        r@ == match kind {
            WorkspaceKind::App => "Application"@,
            WorkspaceKind::Ui => "Shared UI"@,
            WorkspaceKind::Library => "Library"@,
        },
{
    match kind {
        WorkspaceKind::App => "Application",
        WorkspaceKind::Ui => "Shared UI",
        WorkspaceKind::Library => "Library",
    }
}

/// Whether the packages of a workspace are installed in the workspace
/// itself: not for an application that is linked to other workspaces.
pub fn dependencies_managed_in_workspace(kind: WorkspaceKind, linked_workspaces: usize) -> (r: bool)
    ensures
        r == !(kind == WorkspaceKind::App && linked_workspaces > 0),
{
    !(kind == WorkspaceKind::App && linked_workspaces > 0)
}

/// The first part of a path that is not empty.
pub open spec fn first_segment(pieces: Seq<Seq<char>>, from: int) -> Option<Seq<char>>
    decreases pieces.len() - from,
{
    if from < 0 || from >= pieces.len() {
        None
    } else if pieces[from].len() > 0 {
        Some(pieces[from])
    } else {
        first_segment(pieces, from + 1)
    }
}

/// The barrel of a components directory by default: `index.ts` in the
/// first directory of its path.
pub open spec fn default_barrel(path: Seq<char>) -> Seq<char> {
    let plain = text::trim_start_pat(text::trim_start_pat(text::trim(path), "./"@), "/"@);
    match first_segment(text::split_char(plain, '/'), 0) {
        Some(segment) => segment + "/index.ts"@,
        None => "index.ts"@,
    }
}

/// The barrel of a components directory by default.
#[verifier::loop_isolation(false)]
pub fn default_components_barrel_path(path: &str) -> (r: String)
    ensures
        r@ == default_barrel(path@),
{
    let plain = chars::trim_start_pat(
        &chars::trim_start_pat(&chars::trim(&chars::chars_of(path)), &chars::chars_of("./")),
        &chars::chars_of("/"),
    );
    let pieces = chars::split_char(&plain, '/');
    let mut i: usize = 0;
    while i < pieces.len()
        invariant
            i <= pieces.len(),
            first_segment(chars::views(pieces@), 0) == first_segment(chars::views(pieces@), i as int),
        decreases pieces.len() - i,
    {
        if pieces[i].len() > 0 {
            let mut all = pieces[i].clone();
            chars::append(&mut all, &chars::chars_of("/index.ts"));
            return chars::string_of(&all);
        }
        i += 1;
    }
    "index.ts".to_owned()
}

/// The barrel as `package.json` names it among its exports: with slashes
/// for backslashes and a leading dot.
pub open spec fn exported_barrel(path: Seq<char>) -> Seq<char> {
    let plain = text::trim_start_pat(text::replace_char(text::trim(path), '\\', '/'), "./"@);
    if plain.len() == 0 {
        "./index.ts"@
    } else if text::starts_with(plain, "."@) {
        plain
    } else {
        "./"@ + plain
    }
}

/// The barrel as `package.json` names it among its exports.
pub fn sanitize_barrel_for_exports(path: &str) -> (r: String)
    ensures
        r@ == exported_barrel(path@),
{
    let plain = chars::trim_start_pat(
        &chars::replace_char(&chars::trim(&chars::chars_of(path)), '\\', '/'),
        &chars::chars_of("./"),
    );
    if plain.len() == 0 {
        return "./index.ts".to_owned();
    }
    if chars::starts_with(&plain, &chars::chars_of(".")) {
        return chars::string_of(&plain);
    }
    let mut all = chars::chars_of("./");
    chars::append(&mut all, &plain);
    chars::string_of(&all)
}

/// What is known of Tailwind in a project.
#[derive(Clone, Debug)]
pub struct TailwindCheck {
    pub installed: bool,
    pub version: Option<String>,
}

/// What is known of Tailwind, given the range that the project declares
/// for it and the version found installed: it counts as installed only
/// where it is declared and found.
pub fn check_tailwind_installation(declared: Option<String>, installed: Option<String>) -> (r:
    TailwindCheck)
    ensures
        r.installed == (declared is Some && installed is Some),
        option_view(r.version) == (match declared {
            None => None,
            Some(range) => match installed {
                Some(version) => Some(version@),
                None => Some(range@),
            },
        }),
{
    match declared {
        None => TailwindCheck { installed: false, version: None },
        Some(range) => match installed {
            Some(version) => TailwindCheck { installed: true, version: Some(version) },
            None => TailwindCheck { installed: false, version: Some(range) },
        },
    }
}

/// The major number of a version of Tailwind: the number that its first
/// run of digits writes.
pub open spec fn tailwind_major_of(version: Option<Seq<char>>) -> Option<u64> {
    match version {
        None => None,
        Some(text) => {
            let digits = leading_digits(from_first_digit(text));
            if digits.len() == 0 || decimal_value(digits) > u64::MAX {
                None
            } else {
                Some(decimal_value(digits) as u64)
            }
        },
    }
}

/// The major number of the version of Tailwind.
pub fn tailwind_major(check: &TailwindCheck) -> (r: Option<u64>)
    ensures
        r == tailwind_major_of(option_view(check.version)),
{
    match &check.version {
        None => None,
        Some(version) => crate::versions::first_number(version.as_str()),
    }
}

/// Whether Tailwind is of version 4 or later.
pub fn tailwind_v4(check: &TailwindCheck) -> (r: bool)
    ensures
        r == (tailwind_major_of(option_view(check.version)) matches Some(major) && major >= 4),
{
    match tailwind_major(check) {
        Some(major) => major >= 4,
        None => false,
    }
}

/// The prefix of import paths that is written into a new configuration.
pub fn config_alias_prefix(framework: FrameworkKind) -> (r: String)
    ensures
        r@ == crate::targets::default_alias_prefix(Some(framework)),
{
    match framework {
        FrameworkKind::ReactRouter => "~".to_owned(),
        _ => "@".to_owned(),
    }
}

/// Gives a shared UI workspace its default barrel where it names none.
pub fn ensure_default_exports_config(config: &mut Config, workspace_kind: WorkspaceKind)
    ensures
        workspace_kind != WorkspaceKind::Ui ==> *final(config) == *old(config),
        workspace_kind == WorkspaceKind::Ui ==> {
            &&& final(config).exports matches Some(exports)
            &&& exports.components matches Some(target)
            &&& target.barrel@ == (match barrel_of(*old(config)) {
                Some(barrel) => if text::trim(barrel).len() == 0 {
                    default_barrel(old(config).aliases.components.filesystem())
                } else {
                    barrel
                },
                None => default_barrel(old(config).aliases.components.filesystem()),
            })
            &&& final(config).schema == old(config).schema
            &&& final(config).style == old(config).style
            &&& final(config).tailwind == old(config).tailwind
            &&& final(config).aliases == old(config).aliases
            &&& final(config).alias_prefixes == old(config).alias_prefixes
            &&& final(config).workspace == old(config).workspace
        },
{
    if workspace_kind != WorkspaceKind::Ui {
        return ;
    }
    let default = default_components_barrel_path(config.aliases.components.filesystem_path());
    let mut exports = None;
    std::mem::swap(&mut exports, &mut config.exports);
    let target = match exports {
        Some(ExportsConfig { components: Some(target) }) => {
            if chars::trim(&chars::chars_of(target.barrel.as_str())).len() == 0 {
                ExportsTargetConfig { barrel: default, strategy: target.strategy }
            } else {
                target
            }
        },
        _ => ExportsTargetConfig::new(default.as_str()),
    };
    config.exports = Some(ExportsConfig { components: Some(target) });
}

/// The barrel that a configuration names.
pub open spec fn barrel_of(config: Config) -> Option<Seq<char>> {
    match config.exports {
        Some(exports) => match exports.components {
            Some(target) => Some(target.barrel@),
            None => None,
        },
        None => None,
    }
}

/// Whether a project is written in TypeScript: it depends on it or on the
/// types of Node, or it has a `tsconfig.json`.
pub fn is_type_script_project(dependencies: Option<&StringMap>, has_tsconfig: bool) -> (r: bool)
    ensures
        r == ((dependencies matches Some(deps) && (lookup(deps@, "typescript"@) is Some || lookup(
            deps@,
            "@types/node"@,
        ) is Some)) || has_tsconfig),
{
    if let Some(deps) = dependencies {
        if deps.contains_key("typescript") || deps.contains_key("@types/node") {
            return true;
        }
    }
    has_tsconfig
}

/// Whether a line of `.yarnrc.yml` turns Plug'n'Play on.
pub open spec fn pnp_lines(lines: Seq<Seq<char>>, n: int) -> bool
    decreases n,
{
    if n <= 0 {
        false
    } else {
        pnp_lines(lines, n - 1) || text::contains(text::trim(lines[n - 1]), "nodeLinker: pnp"@)
    }
}

/// Whether the text of `.yarnrc.yml` turns Plug'n'Play on.
pub fn yarnrc_enables_pnp(contents: &str) -> (r: bool)
    ensures
        r == pnp_lines(text::lines(contents@), text::lines(contents@).len() as int),
{
    let lines = chars::lines(&chars::chars_of(contents));
    let wanted = chars::chars_of("nodeLinker: pnp");
    let mut n: usize = 0;
    let mut found = false;
    while n < lines.len()
        invariant
            n <= lines.len(),
            wanted@ == "nodeLinker: pnp"@,
            chars::views(lines@) == text::lines(contents@),
            found == pnp_lines(text::lines(contents@), n as int),
        decreases lines.len() - n,
    {
        if chars::contains(&chars::trim(&lines[n]), &wanted) {
            found = true;
        }
        n += 1;
    }
    found
}

/// What one directory shows of Yarn's Plug'n'Play.
#[derive(Clone, Debug)]
pub struct YarnEvidence {
    /// One of the marker files is present.
    pub marker: bool,
    /// The text of `.yarnrc.yml`, where it can be read.
    pub yarnrc: Option<String>,
}

/// Whether one of the first `n` directories shows Plug'n'Play.
pub open spec fn pnp_up_to(directories: Seq<YarnEvidence>, n: int) -> bool
    decreases n,
{
    if n <= 0 {
        false
    } else {
        pnp_up_to(directories, n - 1) || directories[n - 1].marker || (
        directories[n - 1].yarnrc matches Some(contents) && pnp_lines(
            text::lines(contents@),
            text::lines(contents@).len() as int,
        ))
    }
}

/// Whether Yarn runs in Plug'n'Play mode, given what the project's
/// directory and the directories above it show.
pub fn detect_yarn_pnp(directories: &Vec<YarnEvidence>) -> (r: bool)
    ensures
        r == pnp_up_to(directories@, directories@.len() as int),
{
    let mut n: usize = 0;
    let mut found = false;
    while n < directories.len()
        invariant
            n <= directories.len(),
            found == pnp_up_to(directories@, n as int),
        decreases directories.len() - n,
    {
        if directories[n].marker {
            found = true;
        } else if let Some(contents) = &directories[n].yarnrc {
            if yarnrc_enables_pnp(contents.as_str()) {
                found = true;
            }
        }
        n += 1;
    }
    found
}

/// Where the metadata of the package `name` lies below `dir`.
pub open spec fn module_metadata_path(dir: Seq<char>, name: Seq<char>) -> Seq<char> {
    crate::paths::joined_path(
        crate::paths::joined_path(
            crate::paths::joined_path(dir, "node_modules"@),
            text::join(crate::paths::path_parts(name), "/"@),
        ),
        "package.json"@,
    )
}

/// Where the metadata of the package `name` lies below `dir`.
pub fn node_module_package_json_path(dir: &str, name: &str) -> (r: String)
    ensures
        r@ == module_metadata_path(dir@, name@),
{
    let parts = crate::paths::parts_of(&chars::chars_of(name));
    let inner = chars::string_of(&chars::join(&parts, &chars::chars_of("/")));
    let modules = crate::paths::join_path(dir, "node_modules");
    let package = crate::paths::join_path(modules.as_str(), inner.as_str());
    crate::paths::join_path(package.as_str(), "package.json")
}

/// What one directory shows of being the root of a repository.
#[derive(Clone, Copy, Debug)]
pub struct RootEvidence {
    /// The directory is marked as the root of several workspaces.
    pub workspace_root: bool,
    /// The directory holds a `package.json`.
    pub package_json: bool,
}

/// The directory is marked as the root of several workspaces.
pub open spec fn marked_root() -> spec_fn(RootEvidence) -> bool {
    |e: RootEvidence| e.workspace_root
}

/// The directory holds a `package.json`.
pub open spec fn has_package() -> spec_fn(RootEvidence) -> bool {
    |e: RootEvidence| e.package_json
}

/// The root of the repository among a directory and the directories above
/// it, nearest first: the nearest that is marked as a root; else the
/// nearest with a `package.json`; else the directory itself.
pub open spec fn repo_root_index(directories: Seq<RootEvidence>) -> int {
    match text::first(directories, marked_root()) {
        Some(i) => i,
        None => match text::first(directories, has_package()) {
            Some(i) => i,
            None => 0,
        },
    }
}

/// The position of the root of the repository among a directory and the
/// directories above it.
pub fn find_repo_root(directories: &Vec<RootEvidence>) -> (r: usize)
    ensures
        r == repo_root_index(directories@),
{
    let mut i: usize = 0;
    while i < directories.len()
        invariant
            i <= directories.len(),
            text::first(directories@, marked_root()) == text::first_from(
                directories@,
                marked_root(),
                i as int,
            ),
        decreases directories.len() - i,
    {
        if directories[i].workspace_root {
            return i;
        }
        i += 1;
    }
    let mut k: usize = 0;
    while k < directories.len()
        invariant
            k <= directories.len(),
            text::first(directories@, marked_root()) is None,
            text::first(directories@, has_package()) == text::first_from(
                directories@,
                has_package(),
                k as int,
            ),
        decreases directories.len() - k,
    {
        if directories[k].package_json {
            return k;
        }
        k += 1;
    }
    0
}

/// How a detected framework is called, with its version.
pub open spec fn framework_label(
    framework: FrameworkKind,
    version: Option<Seq<char>>,
    app_structure: Option<AppStructure>,
) -> Seq<char> {
    let shown = match version {
        Some(text) => text,
        None => seq![],
    };
    match framework {
        FrameworkKind::NextJs => "Next.js "@ + shown + " ("@ + (match app_structure {
            Some(AppStructure::AppRouter) => "App Router"@,
            Some(AppStructure::PagesRouter) => "Pages Router"@,
            _ => "Unknown Router"@,
        }) + ")"@,
        FrameworkKind::ViteReact => "Vite "@ + shown + " + React"@,
        FrameworkKind::ReactRouter => "React Router "@ + shown + " (Framework Mode)"@,
        FrameworkKind::TanstackStart => "TanStack Start "@ + shown,
        FrameworkKind::Unknown => "Unknown"@,
    }
}

/// How a detected framework is called, with its version.
pub fn framework_info(detection: &FrameworkDetection) -> (r: String)
    ensures
        r@ == framework_label(
            detection.framework,
            option_view(detection.version),
            detection.details.app_structure,
        ),
{
    let version: Vec<char> = match &detection.version {
        Some(text) => chars::chars_of(text.as_str()),
        None => Vec::new(),
    };
    let mut all: Vec<char> = Vec::new();
    match detection.framework {
        FrameworkKind::NextJs => {
            let router = match detection.details.app_structure {
                Some(AppStructure::AppRouter) => "App Router",
                Some(AppStructure::PagesRouter) => "Pages Router",
                _ => "Unknown Router",
            };
            chars::append(&mut all, &chars::chars_of("Next.js "));
            chars::append(&mut all, &version);
            chars::append(&mut all, &chars::chars_of(" ("));
            chars::append(&mut all, &chars::chars_of(router));
            chars::append(&mut all, &chars::chars_of(")"));
        },
        FrameworkKind::ViteReact => {
            chars::append(&mut all, &chars::chars_of("Vite "));
            chars::append(&mut all, &version);
            chars::append(&mut all, &chars::chars_of(" + React"));
        },
        FrameworkKind::ReactRouter => {
            chars::append(&mut all, &chars::chars_of("React Router "));
            chars::append(&mut all, &version);
            chars::append(&mut all, &chars::chars_of(" (Framework Mode)"));
        },
        FrameworkKind::TanstackStart => {
            chars::append(&mut all, &chars::chars_of("TanStack Start "));
            chars::append(&mut all, &version);
        },
        FrameworkKind::Unknown => {
            chars::append(&mut all, &chars::chars_of("Unknown"));
        },
    }
    chars::string_of(&all)
}

/// Where the registry's utilities and its icons go in a project: the
/// utilities at the path of their alias with the extension `.ts`, the
/// icons among the components.
pub fn sync_registry_assets(config: &Config) -> (r: (String, String))
    ensures
        r.0@ == config.aliases.utils.filesystem() + ".ts"@,
        r.1@ == crate::paths::component_path(
            "components/icons.ts"@,
            config.aliases.components.filesystem(),
        ),
{
    let mut utils = chars::chars_of(config.aliases.utils.filesystem_path());
    chars::append(&mut utils, &chars::chars_of(".ts"));
    (chars::string_of(&utils), crate::paths::resolve_component_path("components/icons.ts", config))
}

} // verus!
