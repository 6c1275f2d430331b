use nocta_core::barrel::{attach_content, barrel_location, collect_workspace_exports, sync_component_exports};
use nocta_core::exports::ExportChangeKind;
use nocta_core::framework::FrameworkKind;
use nocta_core::gather::{component_workspace_ids, gather_component_files, plan_component_files};
use nocta_core::install::{handle_dependencies, handle_workspace_dependencies};
use nocta_core::deps::{InstalledModule, ProjectPackages};
use nocta_core::plan::{DependencyScope, InstallEnvironment};
use nocta_core::registry::RegistryComponent;
use nocta_core::string_map::StringMap;
use nocta_core::targets::{
    build_workspace_context, resolve_alias_prefix, resolve_component_import_alias,
    resolve_package_manager, select_dependency_target, select_workspace_handle, LinkedConfigMissing,
    LinkedWorkspace, UnknownTarget, WorkspaceContext, WorkspaceEnvironment,
};
use nocta_core::types::{
    AliasPrefixes, AliasTarget, Aliases, Component, ComponentFile, Config, ExportsConfig,
    ExportsTargetConfig, TailwindConfig, WorkspaceConfig, WorkspaceKind, WorkspaceLink,
};
use nocta_core::workspace::PackageManagerKind;
use nocta_core::writer::ComponentFileWithContent;

fn map(entries: &[(&str, &str)]) -> StringMap {
    StringMap {
        entries: entries.iter().map(|(k, v)| (k.to_string(), v.to_string())).collect(),
    }
}

fn config(components: AliasTarget, workspace: Option<WorkspaceConfig>, barrel: Option<&str>) -> Config {
    Config {
        schema: None,
        style: "default".to_string(),
        tailwind: TailwindConfig { css: "app/globals.css".to_string() },
        aliases: Aliases { components, utils: AliasTarget::from_path("lib/utils") },
        alias_prefixes: None,
        exports: barrel.map(|b| ExportsConfig { components: Some(ExportsTargetConfig::new(b)) }),
        workspace,
    }
}

fn environment() -> WorkspaceEnvironment {
    WorkspaceEnvironment {
        current_dir: "/repo/apps/web".to_string(),
        repo_root: "/repo".to_string(),
        package_manager: PackageManagerKind::Pnpm,
        primary_root: "/repo/apps/web".to_string(),
    }
}

fn monorepo() -> WorkspaceContext {
    let app = config(
        AliasTarget::from_path("components/ui"),
        Some(WorkspaceConfig {
            kind: WorkspaceKind::App,
            package_name: Some("@acme/web".to_string()),
            root: "apps/web".to_string(),
            linked_workspaces: vec![
                WorkspaceLink {
                    kind: WorkspaceKind::Library,
                    package_name: None,
                    root: "packages/Lib".to_string(),
                    config: "../../packages/lib/nocta.config.json".to_string(),
                },
                WorkspaceLink {
                    kind: WorkspaceKind::Ui,
                    package_name: Some("@acme/ui".to_string()),
                    root: "packages/ui".to_string(),
                    config: "../../packages/ui/nocta.config.json".to_string(),
                },
            ],
        }),
        None,
    );
    let linked = vec![
        LinkedWorkspace {
            root_abs: "/repo/packages/lib".to_string(),
            config: Some(config(AliasTarget::from_path("src/components"), None, None)),
        },
        LinkedWorkspace {
            root_abs: "/repo/packages/ui".to_string(),
            config: Some(config(
                AliasTarget::with_paths("src/components/ui", Some("@acme/ui/".to_string())),
                None,
                Some("src/index.ts"),
            )),
        },
    ];
    build_workspace_context(app, FrameworkKind::NextJs, &environment(), linked).unwrap()
}

fn button() -> RegistryComponent {
    RegistryComponent {
        slug: "button".to_string(),
        component: Component {
            name: "Button".to_string(),
            description: String::new(),
            category: "forms".to_string(),
            files: vec![
                ComponentFile {
                    name: "button.tsx".to_string(),
                    path: "components/ui/button/button.tsx".to_string(),
                    file_type: "component".to_string(),
                    target: None,
                },
                ComponentFile {
                    name: "use-button.ts".to_string(),
                    path: "lib/use-button.ts".to_string(),
                    file_type: "hook".to_string(),
                    target: Some("APP".to_string()),
                },
            ],
            dependencies: map(&[("clsx", "^2.0.0")]),
            dev_dependencies: map(&[("@types/react", "^19.0.0")]),
            internal_dependencies: vec!["icon".to_string()],
            exports: vec!["Button".to_string(), "buttonVariants".to_string()],
            props: Vec::new(),
            variants: Vec::new(),
            sizes: Vec::new(),
        },
    }
}

#[test]
fn context_is_built_from_the_configuration_and_its_links() {
    let context = monorepo();
    assert_eq!(context.current_dir, "/repo/apps/web");
    let ids: Vec<&str> = context.handles.iter().map(|h| h.id.as_str()).collect();
    assert_eq!(ids, vec!["primary", "linked-0", "linked-1"]);
    let labels: Vec<&str> = context.handles.iter().map(|h| h.label.as_str()).collect();
    assert_eq!(labels, vec!["@acme/web", "packages/Lib", "@acme/ui"]);
    let primary = context.primary();
    assert_eq!(primary.kind, WorkspaceKind::App);
    assert_eq!(primary.root_abs, "/repo/apps/web");
    assert_eq!(primary.root_rel, "apps/web");
    assert_eq!(primary.alias_prefix, "@");
    assert_eq!(primary.component_import_alias, None);
    assert_eq!(primary.package_manager_context.repo_root, "/repo");
    assert_eq!(primary.package_manager_context.workspace_root, Some("/repo/apps/web".to_string()));
    assert_eq!(primary.package_manager_context.workspace_package, Some("@acme/web".to_string()));
    assert_eq!(primary.package_manager_context.package_manager, Some(PackageManagerKind::Pnpm));
    let ui = &context.handles[2];
    assert_eq!(ui.kind, WorkspaceKind::Ui);
    assert_eq!(ui.root_abs, "/repo/packages/ui");
    assert_eq!(ui.component_import_alias, Some("@acme/ui".to_string()));
    assert_eq!(ui.package_manager_context.workspace_root, Some("/repo/packages/ui".to_string()));
    assert_eq!(context.first_by_kind(WorkspaceKind::Library), Some(1));
    assert_eq!(context.handle_by_id("linked-1"), Some(2));
    assert_eq!(context.handle_by_id("linked-2"), None);
}

#[test]
fn context_without_workspace_is_a_single_application() {
    let context = build_workspace_context(
        config(AliasTarget::from_path("app/components/ui"), None, None),
        FrameworkKind::ReactRouter,
        &environment(),
        Vec::new(),
    )
    .unwrap();
    assert_eq!(context.handles.len(), 1);
    let primary = context.primary();
    assert_eq!(primary.id, "primary");
    assert_eq!(primary.label, ".");
    assert_eq!(primary.kind, WorkspaceKind::App);
    assert_eq!(primary.root_abs, "/repo/apps/web");
    assert_eq!(primary.root_rel, ".");
    assert_eq!(primary.alias_prefix, "~");
    assert_eq!(primary.package_name, None);
}

#[test]
fn missing_linked_configuration_is_an_error() {
    let app = config(
        AliasTarget::from_path("components/ui"),
        Some(WorkspaceConfig {
            kind: WorkspaceKind::App,
            package_name: None,
            root: String::new(),
            linked_workspaces: vec![WorkspaceLink {
                kind: WorkspaceKind::Ui,
                package_name: None,
                root: "packages/ui".to_string(),
                config: "../ui/nocta.config.json".to_string(),
            }],
        }),
        None,
    );
    let error = build_workspace_context(
        app.clone(),
        FrameworkKind::NextJs,
        &environment(),
        vec![LinkedWorkspace { root_abs: "/repo/packages/ui".to_string(), config: None }],
    )
    .unwrap_err();
    assert_eq!(
        error,
        LinkedConfigMissing {
            config: "../ui/nocta.config.json".to_string(),
            root: "packages/ui".to_string()
        }
    );
    assert_eq!(
        error.message(),
        "linked workspace config ../ui/nocta.config.json not found (expected for packages/ui)"
    );
    assert!(build_workspace_context(app, FrameworkKind::NextJs, &environment(), Vec::new()).is_err());
}

#[test]
fn files_are_sent_to_the_workspace_they_name() {
    let context = monorepo();
    assert_eq!(select_workspace_handle(&context, None), Ok(2));
    assert_eq!(select_workspace_handle(&context, Some("@ACME/web")), Ok(0));
    assert_eq!(select_workspace_handle(&context, Some("packages/lib")), Ok(1));
    assert_eq!(select_workspace_handle(&context, Some("Shared")), Ok(2));
    assert_eq!(select_workspace_handle(&context, Some("ui")), Ok(2));
    assert_eq!(select_workspace_handle(&context, Some("LIB")), Ok(1));
    assert_eq!(select_workspace_handle(&context, Some("library")), Ok(1));
    assert_eq!(select_workspace_handle(&context, Some("app")), Ok(0));
    let error = select_workspace_handle(&context, Some("docs")).unwrap_err();
    assert_eq!(error, UnknownTarget { target: "docs".to_string() });
    assert_eq!(
        error.message(),
        "No workspace configured for target `docs`. Update nocta.config.json to link the workspace."
    );
}

#[test]
fn primary_workspace_receives_files_without_a_linked_ui() {
    let context = build_workspace_context(
        config(AliasTarget::from_path("components/ui"), None, None),
        FrameworkKind::NextJs,
        &environment(),
        Vec::new(),
    )
    .unwrap();
    assert_eq!(select_workspace_handle(&context, None), Ok(0));
    assert!(select_workspace_handle(&context, Some("ui")).is_err());
}

#[test]
fn packages_go_to_the_ui_workspace_before_a_library() {
    let context = monorepo();
    let ids = |items: &[&str]| items.iter().map(|i| i.to_string()).collect::<Vec<String>>();
    assert_eq!(select_dependency_target(&ids(&["primary", "linked-0", "linked-1"]), &context), Some("linked-1".to_string()));
    assert_eq!(select_dependency_target(&ids(&["primary", "linked-0"]), &context), Some("linked-0".to_string()));
    assert_eq!(select_dependency_target(&ids(&["primary"]), &context), Some("primary".to_string()));
    assert_eq!(select_dependency_target(&ids(&["unknown", "primary"]), &context), Some("unknown".to_string()));
    assert_eq!(select_dependency_target(&ids(&[]), &context), None);
}

#[test]
fn component_files_are_placed_and_packages_collected() {
    let context = monorepo();
    let entries = vec![button()];
    let (files, sets) = gather_component_files(&entries, &context).unwrap();
    let places: Vec<(&str, &str, &str)> = files
        .iter()
        .map(|f| (f.workspace_id.as_str(), f.absolute_path.as_str(), f.display_path.as_str()))
        .collect();
    assert_eq!(
        places,
        vec![
            ("linked-1", "/repo/packages/ui/src/components/ui/button.tsx", "../../packages/ui/src/components/ui/button.tsx"),
            ("primary", "/repo/apps/web/components/ui/lib/use-button.ts", "components/ui/lib/use-button.ts"),
        ]
    );
    assert_eq!(files[0].workspace_index, 2);
    assert_eq!(files[0].registry_path, "components/ui/button/button.tsx");
    assert_eq!(files[1].file_type, "hook");
    assert_eq!(component_workspace_ids(&files), vec!["linked-1", "primary"]);
    assert_eq!(sets.len(), 1);
    assert_eq!(sets[0].0, "linked-1");
    assert_eq!(sets[0].1.regular, map(&[("clsx", "^2.0.0")]));
    assert_eq!(sets[0].1.dev, map(&[("@types/react", "^19.0.0")]));
    assert!(!sets[0].1.is_empty());
}

#[test]
fn first_range_asked_for_stays() {
    let context = monorepo();
    let mut card = button();
    card.slug = "card".to_string();
    card.component.dependencies = map(&[("clsx", "^3.0.0"), ("zod", "^3.0.0")]);
    let (_, sets) = gather_component_files(&vec![button(), card], &context).unwrap();
    assert_eq!(sets.len(), 1);
    assert_eq!(sets[0].1.regular, map(&[("clsx", "^2.0.0"), ("zod", "^3.0.0")]));
}

#[test]
fn unknown_target_stops_the_gathering() {
    let context = monorepo();
    let mut entry = button();
    entry.component.files[1].target = Some("docs".to_string());
    assert_eq!(
        plan_component_files(&context, &entry).unwrap_err(),
        UnknownTarget { target: "docs".to_string() }
    );
    assert_eq!(
        gather_component_files(&vec![button(), entry], &context).unwrap_err(),
        UnknownTarget { target: "docs".to_string() }
    );
}

#[test]
fn fetched_content_is_rewritten_for_its_workspace() {
    let context = monorepo();
    let (mut files, _) = gather_component_files(&vec![button()], &context).unwrap();
    let file = attach_content(files.remove(0), "import { Icon } from \"@/components/ui/icon\";", &context);
    assert_eq!(file.content, "import { Icon } from \"@acme/ui/icon\";");
    assert_eq!(file.absolute_path, "/repo/packages/ui/src/components/ui/button.tsx");
    assert_eq!(file.component_slug, "button");
}

fn installed_file(id: &str, path: &str, slug: &str, file_type: &str) -> ComponentFileWithContent {
    ComponentFileWithContent {
        workspace_id: id.to_string(),
        absolute_path: path.to_string(),
        display_path: path.to_string(),
        content: String::new(),
        component_name: slug.to_string(),
        component_slug: slug.to_string(),
        file_type: file_type.to_string(),
    }
}

#[test]
fn barrel_of_a_workspace_is_kept_in_step() {
    let context = monorepo();
    let ui = &context.handles[2];
    assert_eq!(
        barrel_location(ui),
        Some(("/repo/packages/ui/src/index.ts".to_string(), "/repo/packages/ui/src".to_string()))
    );
    assert_eq!(barrel_location(context.primary()), None);
    let files = vec![
        installed_file("linked-1", "/repo/packages/ui/src/components/ui/button.tsx", "button", "component"),
        installed_file("linked-1", "/repo/packages/ui/src/components/ui/button.css", "button", "style"),
        installed_file("primary", "/repo/apps/web/components/ui/button.tsx", "button", "component"),
        installed_file("linked-1", "/repo/packages/ui/src/components/ui/icon.tsx", "icon", "component"),
    ];
    let update = sync_component_exports(ui, &vec![button()], &files, None).unwrap();
    assert_eq!(update.change, ExportChangeKind::Created);
    assert_eq!(
        update.statements,
        vec!["export { Button, buttonVariants } from \"./components/ui/button\";"]
    );
    assert!(sync_component_exports(ui, &vec![button()], &files, Some(&update.content)).is_none());
    assert!(sync_component_exports(context.primary(), &vec![button()], &files, None).is_none());
    let collected = collect_workspace_exports(
        "linked-1",
        &vec![button()],
        &files,
        &vec!["./a".to_string(), "./b".to_string(), "./c".to_string(), "./d".to_string()],
    );
    assert_eq!(collected.modules, vec!["./a"]);
}

#[test]
fn prefixes_and_aliases_come_from_the_configuration() {
    let mut with_prefix = config(AliasTarget::with_paths("src/ui", Some("#ui//".to_string())), None, None);
    with_prefix.alias_prefixes = Some(AliasPrefixes { components: Some("$".to_string()), utils: None });
    assert_eq!(resolve_alias_prefix(&with_prefix, Some(FrameworkKind::ReactRouter)), "$");
    assert_eq!(resolve_component_import_alias(&with_prefix), Some("#ui".to_string()));
    let plain = config(AliasTarget::from_path("src/ui"), None, None);
    assert_eq!(resolve_alias_prefix(&plain, Some(FrameworkKind::ReactRouter)), "~");
    assert_eq!(resolve_alias_prefix(&plain, Some(FrameworkKind::ViteReact)), "@");
    assert_eq!(resolve_alias_prefix(&plain, None), "@");
    assert_eq!(resolve_component_import_alias(&plain), None);
    assert_eq!(resolve_package_manager(Some(PackageManagerKind::Bun), Some(PackageManagerKind::Yarn)), PackageManagerKind::Bun);
    assert_eq!(resolve_package_manager(None, Some(PackageManagerKind::Yarn)), PackageManagerKind::Yarn);
    assert_eq!(resolve_package_manager(None, None), PackageManagerKind::Npm);
}

#[test]
fn missing_package_is_reported_and_planned() {
    let context = monorepo();
    let (_, sets) = gather_component_files(&vec![button()], &context).unwrap();
    let project = ProjectPackages {
        declared: map(&[("@types/react", "^19.0.0")]),
        modules: vec![InstalledModule { name: "@types/react".to_string(), version: Some("19.1.0".to_string()) }],
        uses_yarn_pnp: false,
    };
    let environment = InstallEnvironment { detected_package_manager: None, bun_linker: None };
    let ui = &context.handles[2];
    let report = handle_workspace_dependencies(&sets[0].1, &project, &ui.package_manager_context, &environment);
    assert_eq!(report.regular.to_install, map(&[("clsx", "^2.0.0")]));
    assert_eq!(report.regular.incompatible, vec!["clsx: required ^2.0.0"]);
    assert!(report.regular.satisfied.is_empty());
    assert!(report.dev.to_install.is_empty());
    assert_eq!(report.dev.satisfied, vec!["@types/react@19.1.0 (satisfies ^19.0.0)"]);
    assert!(report.dev_plan.is_none());
    let plan = report.regular_plan.unwrap();
    assert_eq!(plan.command_line().join(" "), "pnpm add --filter @acme/ui clsx@^2.0.0");
    assert_eq!(plan.working_directory, "/repo");
}

#[test]
fn outdated_package_is_reported_with_what_is_installed() {
    let context = monorepo();
    let (_, sets) = gather_component_files(&vec![button()], &context).unwrap();
    let project = ProjectPackages {
        declared: map(&[("clsx", "^1.0.0")]),
        modules: vec![
            InstalledModule { name: "clsx".to_string(), version: Some("1.2.0".to_string()) },
            InstalledModule { name: "@types/react".to_string(), version: None },
        ],
        uses_yarn_pnp: false,
    };
    let environment = InstallEnvironment { detected_package_manager: None, bun_linker: None };
    let report = handle_workspace_dependencies(
        &sets[0].1,
        &project,
        &context.primary().package_manager_context,
        &environment,
    );
    assert_eq!(report.regular.incompatible, vec!["clsx: installed 1.2.0, required ^2.0.0"]);
    assert_eq!(report.dev.incompatible, vec!["@types/react: installed unknown, required ^19.0.0"]);
    assert_eq!(
        report.dev_plan.unwrap().command_line().join(" "),
        "pnpm add --filter @acme/web @types/react@^19.0.0"
    );
}

#[test]
fn shared_ui_installs_peers_and_development_packages_apart() {
    let unsorted = map(&[("react-dom", "^19"), ("clsx", "^2"), ("@types/react", "^19"), ("react", "^19")]);
    let required = map(&[("@types/react", "^19"), ("clsx", "^2"), ("react", "^19"), ("react-dom", "^19")]);
    assert_eq!(handle_dependencies(&unsorted, false), vec![(DependencyScope::Regular, required.clone())]);
    assert_eq!(
        handle_dependencies(&unsorted, true),
        vec![
            (DependencyScope::Peer, map(&[("react", "^19"), ("react-dom", "^19")])),
            (DependencyScope::Dev, map(&[("@types/react", "^19")])),
            (DependencyScope::Regular, map(&[("clsx", "^2")])),
        ]
    );
    assert_eq!(handle_dependencies(&required, false), vec![(DependencyScope::Regular, required.clone())]);
    assert_eq!(handle_dependencies(&map(&[("react", "^19")]), true), vec![(DependencyScope::Peer, map(&[("react", "^19")]))]);
    assert!(handle_dependencies(&StringMap::new(), true).is_empty());
    assert!(handle_dependencies(&StringMap::new(), false).is_empty());
}

#[test]
fn packages_are_gone_through_in_order_of_their_names() {
    let context = monorepo();
    let mut set = nocta_core::install::WorkspaceDependencySet::new();
    set.regular = map(&[("zod", "^3.0.0"), ("clsx", "^2.0.0"), ("react", "^19.0.0")]);
    let project = ProjectPackages {
        declared: map(&[("react", "^19.0.0")]),
        modules: vec![InstalledModule { name: "react".to_string(), version: Some("19.0.1".to_string()) }],
        uses_yarn_pnp: false,
    };
    let environment = InstallEnvironment { detected_package_manager: None, bun_linker: None };
    let report = handle_workspace_dependencies(
        &set,
        &project,
        &context.primary().package_manager_context,
        &environment,
    );
    assert_eq!(report.regular.to_install, map(&[("clsx", "^2.0.0"), ("zod", "^3.0.0")]));
    assert_eq!(
        report.regular.incompatible,
        vec!["clsx: required ^2.0.0", "zod: required ^3.0.0"]
    );
    assert_eq!(report.regular.satisfied, vec!["react@19.0.1 (satisfies ^19.0.0)"]);
    assert_eq!(
        report.regular_plan.unwrap().args,
        vec!["add", "--filter", "@acme/web", "clsx@^2.0.0", "zod@^3.0.0"]
    );
}
