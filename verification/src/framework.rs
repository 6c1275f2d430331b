//! The framework of a project, as far as its dependencies and files show it.

use vstd::prelude::*;
use crate::chars;
use crate::resolver::contains_text;
use crate::string_map::{lookup, StringMap};
use crate::text;
use crate::types::option_view;

verus! {

/// The frameworks that components can be installed into.
#[derive(Clone, Copy, Debug, PartialEq, Eq, Structural)]
pub enum FrameworkKind {
    NextJs,
    ViteReact,
    ReactRouter,
    TanstackStart,
    Unknown,
}

/// How a Next.js project lays out its routes.
#[derive(Clone, Copy, Debug, PartialEq, Eq, Structural)]
pub enum AppStructure {
    AppRouter,
    PagesRouter,
    Unknown,
}

/// What was found of a framework.
#[derive(Clone, Debug)]
pub struct FrameworkDetails {
    pub has_config: bool,
    pub has_react_dependency: bool,
    pub has_framework_dependency: bool,
    pub app_structure: Option<AppStructure>,
    pub config_files: Vec<String>,
}

impl FrameworkDetails {
    /// Nothing found.
    pub fn new() -> (r: Self)
        ensures
            !r.has_config,
            !r.has_react_dependency,
            !r.has_framework_dependency,
            r.app_structure is None,
            r.config_files@.len() == 0,
    {
        FrameworkDetails {
            has_config: false,
            has_react_dependency: false,
            has_framework_dependency: false,
            app_structure: None,
            config_files: Vec::new(),
        }
    }
}

/// The framework of a project, with its version where it is declared.
#[derive(Clone, Debug)]
pub struct FrameworkDetection {
    pub framework: FrameworkKind,
    pub version: Option<String>,
    pub details: FrameworkDetails,
}

/// What a project's directory holds, as far as the detection asks: the
/// paths, among those it asks for, at which something exists; those of
/// them that are directories; and the text of `index.html`.
#[derive(Clone, Debug)]
pub struct ProjectFiles {
    pub existing: Vec<String>,
    pub directories: Vec<String>,
    pub index_html: Option<String>,
}

impl ProjectFiles {
    /// Something exists at `path`.
    pub open spec fn has(&self, path: Seq<char>) -> bool {
        chars::views(self.existing@).contains(path)
    }

    /// A directory exists at `path`.
    pub open spec fn has_directory(&self, path: Seq<char>) -> bool {
        chars::views(self.directories@).contains(path)
    }

    /// Whether something exists at `path`.
    pub fn path_exists(&self, path: &str) -> (r: bool)
        ensures
            r == self.has(path@),
    {
        contains_text(&self.existing, path)
    }

    /// Whether a directory exists at `path`.
    pub fn is_dir(&self, path: &str) -> (r: bool)
        ensures
            r == self.has_directory(path@),
    {
        contains_text(&self.directories, path)
    }
}

/// The first `n` of `candidates` that exist, in order.
pub open spec fn existing_among(files: ProjectFiles, candidates: Seq<Seq<char>>, n: int) -> Seq<
    Seq<char>,
>
    decreases n,
{
    if n <= 0 {
        seq![]
    } else {
        let before = existing_among(files, candidates, n - 1);
        if files.has(candidates[n - 1]) {
            before.push(candidates[n - 1])
        } else {
            before
        }
    }
}

/// Whether one of the first `n` of `candidates` exists.
pub open spec fn any_among(files: ProjectFiles, candidates: Seq<Seq<char>>, n: int) -> bool
    decreases n,
{
    if n <= 0 {
        false
    } else {
        any_among(files, candidates, n - 1) || files.has(candidates[n - 1])
    }
}

/// Whether one of the first `n` of `names` is among the dependencies.
pub open spec fn any_dependency(deps: Seq<(Seq<char>, Seq<char>)>, names: Seq<Seq<char>>, n: int) -> bool
    decreases n,
{
    if n <= 0 {
        false
    } else {
        any_dependency(deps, names, n - 1) || lookup(deps, names[n - 1]) is Some
    }
}

/// The version of the first of the first `n` of `names` that is among the
/// dependencies.
pub open spec fn first_version(deps: Seq<(Seq<char>, Seq<char>)>, names: Seq<Seq<char>>, n: int) -> Option<
    Seq<char>,
>
    decreases n,
{
    if n <= 0 {
        None
    } else {
        match first_version(deps, names, n - 1) {
            Some(version) => Some(version),
            None => lookup(deps, names[n - 1]),
        }
    }
}

/// The candidates that exist, in order.
pub fn find_existing_files(files: &ProjectFiles, candidates: &Vec<&str>) -> (r: Vec<String>)
    ensures
        chars::views(r@) == existing_among(*files, chars::views(candidates@), candidates@.len() as int),
{
    let mut found: Vec<String> = Vec::new();
    let mut n: usize = 0;
    assert(chars::views(found@) =~= Seq::<Seq<char>>::empty());
    while n < candidates.len()
        invariant
            n <= candidates.len(),
            chars::views(found@) == existing_among(*files, chars::views(candidates@), n as int),
        decreases candidates.len() - n,
    {
        let ghost before = chars::views(found@);
        if files.path_exists(candidates[n]) {
            found.push(candidates[n].to_owned());
            assert(chars::views(found@) =~= before.push(candidates@[n as int]@));
        }
        n += 1;
    }
    found
}

/// Whether one of the candidates exists.
pub fn any_exists(files: &ProjectFiles, candidates: &Vec<&str>) -> (r: bool)
    ensures
        r == any_among(*files, chars::views(candidates@), candidates@.len() as int),
{
    let mut n: usize = 0;
    let mut found = false;
    while n < candidates.len()
        invariant
            n <= candidates.len(),
            found == any_among(*files, chars::views(candidates@), n as int),
        decreases candidates.len() - n,
    {
        if files.path_exists(candidates[n]) {
            found = true;
        }
        n += 1;
    }
    found
}

/// Whether one of the names is among the dependencies.
pub fn any_dependency_of(deps: &StringMap, names: &Vec<&str>) -> (r: bool)
    ensures
        r == any_dependency(deps@, chars::views(names@), names@.len() as int),
{
    let mut n: usize = 0;
    let mut found = false;
    while n < names.len()
        invariant
            n <= names.len(),
            found == any_dependency(deps@, chars::views(names@), n as int),
        decreases names.len() - n,
    {
        if deps.contains_key(names[n]) {
            found = true;
        }
        n += 1;
    }
    found
}

/// The version of the first of the names that is among the dependencies.
pub fn first_version_of(deps: &StringMap, names: &Vec<&str>) -> (r: Option<String>)
    ensures
        option_view(r) == first_version(deps@, chars::views(names@), names@.len() as int),
{
    let mut n: usize = 0;
    let mut found: Option<String> = None;
    while n < names.len()
        invariant
            n <= names.len(),
            option_view(found) == first_version(deps@, chars::views(names@), n as int),
        decreases names.len() - n,
    {
        if found.is_none() {
            if let Some(version) = deps.get(names[n]) {
                found = Some(version.clone());
            }
        }
        n += 1;
    }
    found
}

/// The configuration files of Next.js.
pub const NEXT_CONFIG_FILES: [&'static str; 4] = [
    "next.config.js",
    "next.config.mjs",
    "next.config.ts",
    "next.config.cjs",
];

/// The files that show the app router of Next.js.
pub const APP_ROUTER_PATHS: [&'static str; 8] = [
    "app/layout.tsx",
    "app/layout.ts",
    "app/layout.jsx",
    "app/layout.js",
    "src/app/layout.tsx",
    "src/app/layout.ts",
    "src/app/layout.jsx",
    "src/app/layout.js",
];

/// The files that show the pages router of Next.js.
pub const PAGES_ROUTER_PATHS: [&'static str; 16] = [
    "pages/_app.tsx",
    "pages/_app.ts",
    "pages/_app.jsx",
    "pages/_app.js",
    "pages/index.tsx",
    "pages/index.ts",
    "pages/index.jsx",
    "pages/index.js",
    "src/pages/_app.tsx",
    "src/pages/_app.ts",
    "src/pages/_app.jsx",
    "src/pages/_app.js",
    "src/pages/index.tsx",
    "src/pages/index.ts",
    "src/pages/index.jsx",
    "src/pages/index.js",
];

/// The configuration files of React Router.
pub const REACT_ROUTER_CONFIG_FILES: [&'static str; 2] = [
    "react-router.config.ts",
    "react-router.config.js",
];

/// The files that show React Router in framework mode.
pub const REACT_ROUTER_INDICATORS: [&'static str; 16] = [
    "app/routes.ts",
    "app/routes.tsx",
    "app/routes.js",
    "app/routes.jsx",
    "app/root.tsx",
    "app/root.ts",
    "app/root.jsx",
    "app/root.js",
    "app/entry.client.tsx",
    "app/entry.client.ts",
    "app/entry.client.jsx",
    "app/entry.client.js",
    "app/entry.server.tsx",
    "app/entry.server.ts",
    "app/entry.server.jsx",
    "app/entry.server.js",
];

/// The packages whose version counts as that of React Router.
pub const REACT_ROUTER_PACKAGES: [&'static str; 3] = [
    "react-router",
    "@react-router/dev",
    "@remix-run/react",
];

/// The configuration files of TanStack Start.
pub const TANSTACK_CONFIG_FILES: [&'static str; 5] = [
    "start.config.ts",
    "start.config.js",
    "start.config.mts",
    "start.config.mjs",
    "start.config.cjs",
];

/// The packages of TanStack Start.
pub const TANSTACK_START_PACKAGES: [&'static str; 5] = [
    "@tanstack/start",
    "@tanstack/start-client",
    "@tanstack/start-server",
    "@tanstack/start-router",
    "@tanstack/react-start",
];

/// The packages of TanStack Router.
pub const TANSTACK_ROUTER_PACKAGES: [&'static str; 11] = [
    "@tanstack/react-router",
    "@tanstack/react-router-server",
    "@tanstack/react-router-devtools",
    "@tanstack/react-router-start",
    "@tanstack/router",
    "@tanstack/router-server",
    "@tanstack/router-devtools",
    "@tanstack/router-vite",
    "@tanstack/react-router-vite",
    "@tanstack/router-plugin",
    "@tanstack/react-router-ssr-query",
];

/// The packages whose version counts as that of TanStack Start.
pub const TANSTACK_VERSION_PACKAGES: [&'static str; 6] = [
    "@tanstack/start",
    "@tanstack/start-client",
    "@tanstack/start-server",
    "@tanstack/react-router",
    "@tanstack/react-start",
    "@tanstack/router",
];

/// The files that show the routes of TanStack Start.
pub const TANSTACK_INDICATORS: [&'static str; 34] = [
    "app/routes/__root.tsx",
    "app/routes/__root.ts",
    "app/routes/__root.jsx",
    "app/routes/__root.js",
    "app/routes/__root.client.tsx",
    "app/routes/__root.client.ts",
    "app/routes/__root.client.jsx",
    "app/routes/__root.client.js",
    "app/entry-client.tsx",
    "app/entry-client.ts",
    "app/entry-client.jsx",
    "app/entry-client.js",
    "app/entry-server.tsx",
    "app/entry-server.ts",
    "app/entry-server.jsx",
    "app/entry-server.js",
    "src/routes/__root.tsx",
    "src/routes/__root.ts",
    "src/routes/__root.jsx",
    "src/routes/__root.js",
    "src/routes/__root.client.tsx",
    "src/routes/__root.client.ts",
    "src/routes/__root.client.jsx",
    "src/routes/__root.client.js",
    "src/entry-client.tsx",
    "src/entry-client.ts",
    "src/entry-client.jsx",
    "src/entry-client.js",
    "src/entry-server.tsx",
    "src/entry-server.ts",
    "src/entry-server.jsx",
    "src/entry-server.js",
    "src/router.tsx",
    "src/router.ts",
];

/// The configuration files of Vite.
pub const VITE_CONFIG_FILES: [&'static str; 4] = [
    "vite.config.js",
    "vite.config.ts",
    "vite.config.mjs",
    "vite.config.cjs",
];

/// The files that show a React project built with Vite.
pub const VITE_INDICATORS: [&'static str; 12] = [
    "src/App.tsx",
    "src/App.jsx",
    "src/App.ts",
    "src/App.js",
    "src/main.tsx",
    "src/main.jsx",
    "src/main.ts",
    "src/main.js",
    "src/index.tsx",
    "src/index.jsx",
    "src/index.ts",
    "src/index.js",
];

/// The items of a list of constant texts.
pub fn listed<const N: usize>(items: &[&'static str; N]) -> (r: Vec<&'static str>)
    ensures
        r@ == items@,
{
    let mut r: Vec<&'static str> = Vec::new();
    let mut i: usize = 0;
    while i < N
        invariant
            i <= N,
            r@ == items@.take(i as int),
        decreases N - i,
    {
        r.push(items[i]);
        assert(r@ =~= items@.take(i + 1));
        i += 1;
    }
    assert(items@.take(N as int) =~= items@);
    r
}

/// What a `FrameworkDetection` says.
pub struct FrameworkDetectionView {
    pub framework: FrameworkKind,
    pub version: Option<Seq<char>>,
    pub has_config: bool,
    pub has_react_dependency: bool,
    pub has_framework_dependency: bool,
    pub app_structure: Option<AppStructure>,
    pub config_files: Seq<Seq<char>>,
}

impl View for FrameworkDetection {
    type V = FrameworkDetectionView;

    open spec fn view(&self) -> FrameworkDetectionView {
        FrameworkDetectionView {
            framework: self.framework,
            version: option_view(self.version),
            has_config: self.details.has_config,
            has_react_dependency: self.details.has_react_dependency,
            has_framework_dependency: self.details.has_framework_dependency,
            app_structure: self.details.app_structure,
            config_files: chars::views(self.details.config_files@),
        }
    }
}

/// What an optional detection says.
pub open spec fn detection_view(detection: Option<FrameworkDetection>) -> Option<
    FrameworkDetectionView,
> {
    match detection {
        Some(found) => Some(found@),
        None => None,
    }
}

/// The candidates that exist, in order.
pub open spec fn found_among(files: ProjectFiles, candidates: Seq<&'static str>) -> Seq<Seq<char>> {
    existing_among(files, chars::views(candidates), candidates.len() as int)
}

/// Whether one of the candidates exists.
pub open spec fn shows_any(files: ProjectFiles, candidates: Seq<&'static str>) -> bool {
    any_among(files, chars::views(candidates), candidates.len() as int)
}

/// Whether one of the names is among the dependencies.
pub open spec fn depends_on_any(deps: Seq<(Seq<char>, Seq<char>)>, names: Seq<&'static str>) -> bool {
    any_dependency(deps, chars::views(names), names.len() as int)
}

/// The version of the first of the names that is among the dependencies.
pub open spec fn version_of_first(deps: Seq<(Seq<char>, Seq<char>)>, names: Seq<&'static str>) -> Option<
    Seq<char>,
> {
    first_version(deps, chars::views(names), names.len() as int)
}

/// Next.js, where the project depends on it or has its configuration; with
/// the router that its files show.
pub open spec fn nextjs_detection(
    deps: Seq<(Seq<char>, Seq<char>)>,
    has_react: bool,
    files: ProjectFiles,
) -> Option<FrameworkDetectionView> {
    let found = found_among(files, NEXT_CONFIG_FILES@);
    if lookup(deps, "next"@) is None && found.len() == 0 {
        None
    } else {
        Some(
            FrameworkDetectionView {
                framework: FrameworkKind::NextJs,
                version: lookup(deps, "next"@),
                has_config: found.len() > 0,
                has_react_dependency: has_react,
                has_framework_dependency: lookup(deps, "next"@) is Some,
                app_structure: Some(
                    if shows_any(files, APP_ROUTER_PATHS@) {
                        AppStructure::AppRouter
                    } else if shows_any(files, PAGES_ROUTER_PATHS@) {
                        AppStructure::PagesRouter
                    } else {
                        AppStructure::Unknown
                    },
                ),
                config_files: found,
            },
        )
    }
}

/// Next.js, where the project depends on it or has its configuration.
pub fn detect_nextjs(deps: &StringMap, has_react: bool, files: &ProjectFiles) -> (r: Option<
    FrameworkDetection,
>)
    ensures
        detection_view(r) == nextjs_detection(deps@, has_react, *files),
{
    let found = find_existing_files(files, &listed(&NEXT_CONFIG_FILES));
    let has_next = deps.contains_key("next");
    if !has_next && found.len() == 0 {
        return None;
    }
    let app_structure = if any_exists(files, &listed(&APP_ROUTER_PATHS)) {
        AppStructure::AppRouter
    } else if any_exists(files, &listed(&PAGES_ROUTER_PATHS)) {
        AppStructure::PagesRouter
    } else {
        AppStructure::Unknown
    };
    let version = match deps.get("next") {
        Some(version) => Some(version.clone()),
        None => None,
    };
    Some(
        FrameworkDetection {
            framework: FrameworkKind::NextJs,
            version,
            details: FrameworkDetails {
                has_config: found.len() > 0,
                has_react_dependency: has_react,
                has_framework_dependency: has_next,
                app_structure: Some(app_structure),
                config_files: found,
            },
        },
    )
}

/// Whether the project shows React Router in framework mode: by its
/// files, its configuration or its development package, or by Remix's
/// React package without a Remix configuration.
pub open spec fn shows_react_router(deps: Seq<(Seq<char>, Seq<char>)>, files: ProjectFiles) -> bool {
    ||| shows_any(files, REACT_ROUTER_INDICATORS@)
    ||| lookup(deps, "@react-router/dev"@) is Some
    ||| found_among(files, REACT_ROUTER_CONFIG_FILES@).len() > 0
    ||| (lookup(deps, "@remix-run/react"@) is Some && !files.has("remix.config.js"@) && !files.has(
        "remix.config.ts"@,
    ))
}

/// React Router in framework mode, where React is there and the project
/// shows it.
pub open spec fn react_router_detection(
    deps: Seq<(Seq<char>, Seq<char>)>,
    has_react: bool,
    files: ProjectFiles,
) -> Option<FrameworkDetectionView> {
    let found = found_among(files, REACT_ROUTER_CONFIG_FILES@);
    if shows_react_router(deps, files) && has_react {
        Some(
            FrameworkDetectionView {
                framework: FrameworkKind::ReactRouter,
                version: version_of_first(deps, REACT_ROUTER_PACKAGES@),
                has_config: found.len() > 0,
                has_react_dependency: has_react,
                has_framework_dependency: depends_on_any(deps, REACT_ROUTER_PACKAGES@),
                app_structure: None,
                config_files: found,
            },
        )
    } else {
        None
    }
}

/// React Router in framework mode, where React is there and the project
/// shows its files, its configuration or its development package, or uses
/// Remix's React package without a Remix configuration.
pub fn detect_react_router(deps: &StringMap, has_react: bool, files: &ProjectFiles) -> (r: Option<
    FrameworkDetection,
>)
    ensures
        detection_view(r) == react_router_detection(deps@, has_react, *files),
{
    let found = find_existing_files(files, &listed(&REACT_ROUTER_CONFIG_FILES));
    let has_router_dev = deps.contains_key("@react-router/dev");
    let has_remix = deps.contains_key("@remix-run/react");
    let mut is_framework = any_exists(files, &listed(&REACT_ROUTER_INDICATORS));
    if has_router_dev || found.len() > 0 {
        is_framework = true;
    }
    if has_remix && !files.path_exists("remix.config.js") && !files.path_exists("remix.config.ts") {
        is_framework = true;
    }
    if !(is_framework && has_react) {
        return None;
    }
    let names = listed(&REACT_ROUTER_PACKAGES);
    let version = first_version_of(deps, &names);
    let has_framework_dependency = any_dependency_of(deps, &names);
    Some(
        FrameworkDetection {
            framework: FrameworkKind::ReactRouter,
            version,
            details: FrameworkDetails {
                has_config: found.len() > 0,
                has_react_dependency: has_react,
                has_framework_dependency,
                app_structure: None,
                config_files: found,
            },
        },
    )
}

/// Whether the project has the structure of a TanStack Start project: its
/// configuration, its route files or a directory of routes.
pub open spec fn shows_tanstack_structure(files: ProjectFiles) -> bool {
    ||| found_among(files, TANSTACK_CONFIG_FILES@).len() > 0
    ||| shows_any(files, TANSTACK_INDICATORS@)
    ||| files.has_directory("app/routes"@)
    ||| files.has_directory("src/routes"@)
}

/// TanStack Start, where React is there and the project depends on Start,
/// or depends on the router and has the structure of a Start project.
pub open spec fn tanstack_detection(
    deps: Seq<(Seq<char>, Seq<char>)>,
    has_react: bool,
    files: ProjectFiles,
) -> Option<FrameworkDetectionView> {
    let found = found_among(files, TANSTACK_CONFIG_FILES@);
    let has_start = depends_on_any(deps, TANSTACK_START_PACKAGES@);
    let has_router = depends_on_any(deps, TANSTACK_ROUTER_PACKAGES@);
    if (has_start || (shows_tanstack_structure(files) && has_router)) && has_react {
        Some(
            FrameworkDetectionView {
                framework: FrameworkKind::TanstackStart,
                version: version_of_first(deps, TANSTACK_VERSION_PACKAGES@),
                has_config: found.len() > 0,
                has_react_dependency: has_react,
                has_framework_dependency: has_start || has_router,
                app_structure: None,
                config_files: found,
            },
        )
    } else {
        None
    }
}

/// TanStack Start, where React is there and the project depends on Start,
/// or depends on the router and shows the structure of a Start project.
pub fn detect_tanstack_start(deps: &StringMap, has_react: bool, files: &ProjectFiles) -> (r: Option<
    FrameworkDetection,
>)
    ensures
        detection_view(r) == tanstack_detection(deps@, has_react, *files),
{
    let has_start = any_dependency_of(deps, &listed(&TANSTACK_START_PACKAGES));
    let has_router = any_dependency_of(deps, &listed(&TANSTACK_ROUTER_PACKAGES));
    let found = find_existing_files(files, &listed(&TANSTACK_CONFIG_FILES));
    let has_indicators = any_exists(files, &listed(&TANSTACK_INDICATORS));
    let has_routes_dir = files.is_dir("app/routes") || files.is_dir("src/routes");
    let has_structure = found.len() > 0 || has_indicators || has_routes_dir;
    if !(has_start || (has_structure && has_router)) || !has_react {
        return None;
    }
    let version = first_version_of(deps, &listed(&TANSTACK_VERSION_PACKAGES));
    Some(
        FrameworkDetection {
            framework: FrameworkKind::TanstackStart,
            version,
            details: FrameworkDetails {
                has_config: found.len() > 0,
                has_react_dependency: has_react,
                has_framework_dependency: has_start || has_router,
                app_structure: None,
                config_files: found,
            },
        },
    )
}

/// Whether `index.html` looks like the entry of a React project: it has
/// the root element and loads a module.
pub open spec fn html_shows_react(html: Seq<char>) -> bool {
    (text::contains(html, "id=\"root\""@) || text::contains(html, "id='root'"@)) && (
    text::contains(html, "/src/main."@) || text::contains(html, "/src/index."@) || text::contains(
        html,
        "type=\"module\""@,
    ))
}

/// Whether `index.html` looks like the entry of a React project.
pub fn index_html_shows_react(html: &str) -> (r: bool)
    ensures
        r == html_shows_react(html@),
{
    let all = chars::chars_of(html);
    let has_root = chars::contains(&all, &chars::chars_of("id=\"root\"")) || chars::contains(
        &all,
        &chars::chars_of("id='root'"),
    );
    let has_script = chars::contains(&all, &chars::chars_of("/src/main.")) || chars::contains(
        &all,
        &chars::chars_of("/src/index."),
    ) || chars::contains(&all, &chars::chars_of("type=\"module\""));
    has_root && has_script
}

/// Whether a project that uses Vite shows React: by a React plugin, by its
/// source files, or by an `index.html` that is the entry of a React project.
pub open spec fn vite_shows_react(deps: Seq<(Seq<char>, Seq<char>)>, files: ProjectFiles) -> bool {
    ||| lookup(deps, "@vitejs/plugin-react"@) is Some
    ||| lookup(deps, "@vitejs/plugin-react-swc"@) is Some
    ||| shows_any(files, VITE_INDICATORS@)
    ||| (files.has("index.html"@) && (files.index_html matches Some(html) && html_shows_react(
        html@,
    )))
}

/// Vite with React, where React is there, the project uses Vite, and it
/// shows React.
pub open spec fn vite_detection(
    deps: Seq<(Seq<char>, Seq<char>)>,
    has_react: bool,
    files: ProjectFiles,
) -> Option<FrameworkDetectionView> {
    let found = found_among(files, VITE_CONFIG_FILES@);
    if (lookup(deps, "vite"@) is Some || found.len() > 0) && vite_shows_react(deps, files)
        && has_react {
        Some(
            FrameworkDetectionView {
                framework: FrameworkKind::ViteReact,
                version: lookup(deps, "vite"@),
                has_config: found.len() > 0,
                has_react_dependency: has_react,
                has_framework_dependency: lookup(deps, "vite"@) is Some,
                app_structure: None,
                config_files: found,
            },
        )
    } else {
        None
    }
}

/// Vite with React, where React is there, the project uses Vite, and its
/// plugin, its source files or its `index.html` show React.
pub fn detect_vite_react(deps: &StringMap, has_react: bool, files: &ProjectFiles) -> (r: Option<
    FrameworkDetection,
>)
    ensures
        detection_view(r) == vite_detection(deps@, has_react, *files),
{
    let found = find_existing_files(files, &listed(&VITE_CONFIG_FILES));
    let has_vite = deps.contains_key("vite");
    if !has_vite && found.len() == 0 {
        return None;
    }
    let mut is_react = deps.contains_key("@vitejs/plugin-react") || deps.contains_key(
        "@vitejs/plugin-react-swc",
    );
    if !is_react {
        is_react = any_exists(files, &listed(&VITE_INDICATORS));
    }
    if !is_react && files.path_exists("index.html") {
        if let Some(html) = &files.index_html {
            is_react = index_html_shows_react(html.as_str());
        }
    }
    if !(is_react && has_react) {
        return None;
    }
    let version = match deps.get("vite") {
        Some(version) => Some(version.clone()),
        None => None,
    };
    Some(
        FrameworkDetection {
            framework: FrameworkKind::ViteReact,
            version,
            details: FrameworkDetails {
                has_config: found.len() > 0,
                has_react_dependency: has_react,
                has_framework_dependency: has_vite,
                app_structure: None,
                config_files: found,
            },
        },
    )
}

/// A project without a framework that the library knows.
pub open spec fn unknown_detection(has_react: bool) -> FrameworkDetectionView {
    FrameworkDetectionView {
        framework: FrameworkKind::Unknown,
        version: None,
        has_config: false,
        has_react_dependency: has_react,
        has_framework_dependency: false,
        app_structure: None,
        config_files: seq![],
    }
}

/// The framework of a project: Next.js before React Router before
/// TanStack Start before Vite; unknown where none of them shows, and where
/// `package.json` cannot be read.
pub open spec fn framework_detection(
    dependencies: Option<Seq<(Seq<char>, Seq<char>)>>,
    files: ProjectFiles,
) -> FrameworkDetectionView {
    match dependencies {
        None => unknown_detection(false),
        Some(deps) => {
            let has_react = lookup(deps, "react"@) is Some;
            match nextjs_detection(deps, has_react, files) {
                Some(found) => found,
                None => match react_router_detection(deps, has_react, files) {
                    Some(found) => found,
                    None => match tanstack_detection(deps, has_react, files) {
                        Some(found) => found,
                        None => match vite_detection(deps, has_react, files) {
                            Some(found) => found,
                            None => unknown_detection(has_react),
                        },
                    },
                },
            }
        },
    }
}

/// The framework of a project. `dependencies` holds what `package.json`
/// declares, development packages included, `None` where it cannot be read.
pub fn detect_framework(dependencies: Option<&StringMap>, files: &ProjectFiles) -> (r:
    FrameworkDetection)
    ensures
        r@ == framework_detection(
            match dependencies {
                Some(deps) => Some(deps@),
                None => None,
            },
            *files,
        ),
{
    let deps = match dependencies {
        Some(deps) => deps,
        None => {
            let unknown = FrameworkDetection {
                framework: FrameworkKind::Unknown,
                version: None,
                details: FrameworkDetails::new(),
            };
            assert(unknown@.config_files =~= Seq::<Seq<char>>::empty());
            return unknown;
        },
    };
    let has_react = deps.contains_key("react");
    if let Some(detection) = detect_nextjs(deps, has_react, files) {
        return detection;
    }
    if let Some(detection) = detect_react_router(deps, has_react, files) {
        return detection;
    }
    if let Some(detection) = detect_tanstack_start(deps, has_react, files) {
        return detection;
    }
    if let Some(detection) = detect_vite_react(deps, has_react, files) {
        return detection;
    }
    let unknown = FrameworkDetection {
        framework: FrameworkKind::Unknown,
        version: None,
        details: FrameworkDetails {
            has_config: false,
            has_react_dependency: has_react,
            has_framework_dependency: false,
            app_structure: None,
            config_files: Vec::new(),
        },
    };
    assert(unknown@.config_files =~= Seq::<Seq<char>>::empty());
    unknown
}

} // verus!
