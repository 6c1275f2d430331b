use nocta_core::setup::{
    check_tailwind_installation, config_alias_prefix, default_components_barrel_path,
    dependencies_managed_in_workspace, detect_yarn_pnp, ensure_default_exports_config,
    find_repo_root, guess_workspace_kind, is_type_script_project, join_relative_components,
    node_module_package_json_path, normalize_relative_path, normalize_relative_path_buf,
    read_config, sanitize_barrel_for_exports, tailwind_major, tailwind_v4, workspace_kind_label,
    write_config, yarnrc_enables_pnp, ConfigText, RootEvidence, TailwindCheck, YarnEvidence,
    DEFAULT_SCHEMA_URL,
};
use nocta_core::framework::{FrameworkDetails, FrameworkKind};
use nocta_core::string_map::StringMap;
use nocta_core::types::{
    workspace_root_default, AliasTarget, Aliases, Config, ExportStrategy, ExportsConfig,
    ExportsTargetConfig, TailwindConfig, WorkspaceKind,
};
use nocta_core::workspace::{
    detect_package_manager, package_json_has_workspaces, repo_indicates_workspaces,
    resolve_workspace_by_config, resolve_workspace_by_kind, resolve_workspace_by_package,
    PackageManagerEvidence, PackageManagerKind, WorkspaceEvidence, WorkspaceManifest,
    WorkspaceManifestEntry, WorkspacesField,
};

fn config() -> Config {
    Config {
        schema: None,
        style: "default".to_string(),
        tailwind: TailwindConfig { css: "src/styles.css".to_string() },
        aliases: Aliases {
            components: AliasTarget::from_path("src/components/ui"),
            utils: AliasTarget::from_path("src/lib/utils"),
        },
        alias_prefixes: None,
        exports: None,
        workspace: None,
    }
}

#[test]
fn configuration_gets_the_default_schema() {
    assert_eq!(write_config(config()).schema, Some(DEFAULT_SCHEMA_URL.to_string()));
    let mut named = config();
    named.schema = Some("mine".to_string());
    assert_eq!(write_config(named).schema, Some("mine".to_string()));
    assert_eq!(read_config(Some("{}")), ConfigText::Document);
    assert_eq!(read_config(Some(" \n\t")), ConfigText::Blank);
    assert_eq!(read_config(Some("")), ConfigText::Blank);
    assert_eq!(read_config(None), ConfigText::Missing);
}

#[test]
fn alias_targets_keep_their_paths() {
    let mut target = AliasTarget::from_path("src/ui");
    assert_eq!(target.filesystem_path(), "src/ui");
    assert_eq!(target.import_alias(), None);
    target.set_import(Some("@acme/ui".to_string()));
    assert_eq!(target.filesystem_path(), "src/ui");
    assert_eq!(target.import_alias(), Some("@acme/ui"));
    target.set_import(None);
    assert_eq!(target.import_alias(), None);
    let both = AliasTarget::with_paths("a", Some("b".to_string()));
    assert_eq!((both.filesystem_path(), both.import_alias()), ("a", Some("b")));
    assert_eq!(AliasTarget::default().filesystem_path(), "");
    assert_eq!(workspace_root_default(), ".");
    assert_eq!(ExportStrategy::default(), ExportStrategy::Named);
    let mut exports = ExportsConfig::default();
    assert!(exports.components().is_none());
    assert!(exports.components_mut().is_none());
    exports.components = Some(ExportsTargetConfig::new("src/index.ts"));
    assert_eq!(exports.components().unwrap().barrel_path(), "src/index.ts");
    exports.components_mut().unwrap().barrel = "index.ts".to_string();
    assert_eq!(exports.components().unwrap().barrel_path(), "index.ts");
}

#[test]
fn relative_paths_are_written_plainly() {
    assert_eq!(normalize_relative_path(""), ".");
    assert_eq!(normalize_relative_path("."), ".");
    assert_eq!(normalize_relative_path("./"), ".");
    assert_eq!(normalize_relative_path("././apps/web"), "apps/web");
    assert_eq!(normalize_relative_path("apps\\web"), "apps/web");
    assert_eq!(normalize_relative_path(".\\apps"), "apps");
    assert_eq!(normalize_relative_path_buf("../ui".to_string()), "../ui");
    assert_eq!(join_relative_components(".", "nocta.config.json"), "nocta.config.json");
    assert_eq!(join_relative_components("", "nocta.config.json"), "nocta.config.json");
    assert_eq!(join_relative_components("packages/ui//", "nocta.config.json"), "packages/ui/nocta.config.json");
}

#[test]
fn workspace_kinds_are_guessed_from_paths() {
    assert_eq!(guess_workspace_kind("packages/UI"), WorkspaceKind::Ui);
    assert_eq!(guess_workspace_kind("ui/core"), WorkspaceKind::Ui);
    assert_eq!(guess_workspace_kind("package-gui"), WorkspaceKind::Ui);
    assert_eq!(guess_workspace_kind("packages/utils-lib"), WorkspaceKind::Library);
    assert_eq!(guess_workspace_kind("apps/web"), WorkspaceKind::App);
    assert_eq!(guess_workspace_kind("."), WorkspaceKind::App);
    assert_eq!(workspace_kind_label(WorkspaceKind::Ui), "Shared UI");
    assert_eq!(workspace_kind_label(WorkspaceKind::App), "Application");
    assert_eq!(workspace_kind_label(WorkspaceKind::Library), "Library");
    assert!(dependencies_managed_in_workspace(WorkspaceKind::App, 0));
    assert!(!dependencies_managed_in_workspace(WorkspaceKind::App, 1));
    assert!(dependencies_managed_in_workspace(WorkspaceKind::Ui, 2));
}

#[test]
fn barrels_have_default_places() {
    assert_eq!(default_components_barrel_path("src/components/ui"), "src/index.ts");
    assert_eq!(default_components_barrel_path(" ./components "), "components/index.ts");
    assert_eq!(default_components_barrel_path("//x/y"), "x/index.ts");
    assert_eq!(default_components_barrel_path(""), "index.ts");
    assert_eq!(default_components_barrel_path("./"), "index.ts");
    assert_eq!(sanitize_barrel_for_exports("src/index.ts"), "./src/index.ts");
    assert_eq!(sanitize_barrel_for_exports(" ./src\\index.ts "), "./src/index.ts");
    assert_eq!(sanitize_barrel_for_exports("../index.ts"), "../index.ts");
    assert_eq!(sanitize_barrel_for_exports(""), "./index.ts");
    let mut ui = config();
    ensure_default_exports_config(&mut ui, WorkspaceKind::Ui);
    assert_eq!(ui.exports.as_ref().unwrap().components().unwrap().barrel_path(), "src/index.ts");
    ui.exports = Some(ExportsConfig { components: Some(ExportsTargetConfig::new("lib/all.ts")) });
    ensure_default_exports_config(&mut ui, WorkspaceKind::Ui);
    assert_eq!(ui.exports.as_ref().unwrap().components().unwrap().barrel_path(), "lib/all.ts");
    ui.exports = Some(ExportsConfig { components: Some(ExportsTargetConfig::new("  ")) });
    ensure_default_exports_config(&mut ui, WorkspaceKind::Ui);
    assert_eq!(ui.exports.as_ref().unwrap().components().unwrap().barrel_path(), "src/index.ts");
    let mut app = config();
    ensure_default_exports_config(&mut app, WorkspaceKind::App);
    assert!(app.exports.is_none());
}

#[test]
fn tailwind_counts_as_installed_when_declared_and_found() {
    let check = check_tailwind_installation(Some("^4.0.0".to_string()), Some("4.1.3".to_string()));
    assert!(check.installed);
    assert_eq!(check.version, Some("4.1.3".to_string()));
    assert_eq!(tailwind_major(&check), Some(4));
    assert!(tailwind_v4(&check));
    let check = check_tailwind_installation(Some("^3.4.0".to_string()), None);
    assert!(!check.installed);
    assert_eq!(check.version, Some("^3.4.0".to_string()));
    assert!(!tailwind_v4(&check));
    let check = check_tailwind_installation(None, Some("4.1.3".to_string()));
    assert!(!check.installed);
    assert_eq!(check.version, None);
    assert_eq!(tailwind_major(&check), None);
    assert_eq!(tailwind_major(&TailwindCheck { installed: true, version: Some("v10.2".to_string()) }), Some(10));
    assert_eq!(tailwind_major(&TailwindCheck { installed: true, version: Some("next".to_string()) }), None);
    let mut detection = nocta_core::framework::FrameworkDetection {
        framework: FrameworkKind::NextJs,
        version: Some("15.1.0".to_string()),
        details: FrameworkDetails::new(),
    };
    assert_eq!(nocta_core::setup::framework_info(&detection), "Next.js 15.1.0 (Unknown Router)");
    detection.details.app_structure = Some(nocta_core::framework::AppStructure::AppRouter);
    assert_eq!(nocta_core::setup::framework_info(&detection), "Next.js 15.1.0 (App Router)");
    detection.framework = FrameworkKind::ViteReact;
    detection.version = None;
    assert_eq!(nocta_core::setup::framework_info(&detection), "Vite  + React");
    detection.framework = FrameworkKind::Unknown;
    assert_eq!(nocta_core::setup::framework_info(&detection), "Unknown");
    assert_eq!(
        nocta_core::setup::sync_registry_assets(&config()),
        ("src/lib/utils.ts".to_string(), "src/components/ui/icons.ts".to_string())
    );
    assert_eq!(config_alias_prefix(FrameworkKind::ReactRouter), "~");
    assert_eq!(config_alias_prefix(FrameworkKind::NextJs), "@");
    assert!(FrameworkDetails::new().config_files.is_empty());
}

#[test]
fn project_surroundings_are_judged_from_evidence() {
    let deps = StringMap {
        entries: vec![("@types/node".to_string(), "^22".to_string())],
    };
    assert!(is_type_script_project(Some(&deps), false));
    assert!(is_type_script_project(None, true));
    assert!(!is_type_script_project(Some(&StringMap::new()), false));
    assert!(yarnrc_enables_pnp("enableGlobalCache: true\n  nodeLinker: pnp  \n"));
    assert!(!yarnrc_enables_pnp("nodeLinker: node-modules\n"));
    assert!(!yarnrc_enables_pnp("nodeLinker:\n pnp"));
    let no = YarnEvidence { marker: false, yarnrc: None };
    let rc = YarnEvidence { marker: false, yarnrc: Some("nodeLinker: pnp".to_string()) };
    let marker = YarnEvidence { marker: true, yarnrc: None };
    assert!(!detect_yarn_pnp(&vec![no.clone(), no.clone()]));
    assert!(detect_yarn_pnp(&vec![no.clone(), rc]));
    assert!(detect_yarn_pnp(&vec![marker, no]));
    assert!(!detect_yarn_pnp(&Vec::new()));
    assert_eq!(
        node_module_package_json_path("/repo/apps/web", "@radix-ui/react-icons"),
        "/repo/apps/web/node_modules/@radix-ui/react-icons/package.json"
    );
    let dir = |workspace_root, package_json| RootEvidence { workspace_root, package_json };
    assert_eq!(find_repo_root(&vec![dir(false, true), dir(false, false), dir(true, true)]), 2);
    assert_eq!(find_repo_root(&vec![dir(false, false), dir(false, true), dir(false, true)]), 1);
    assert_eq!(find_repo_root(&vec![dir(false, false), dir(false, false)]), 0);
    assert_eq!(find_repo_root(&vec![dir(true, false), dir(true, true)]), 0);
}

#[test]
fn package_manager_is_detected_from_lock_files_first() {
    let evidence = |pnpm, yarn, bun, npm, declared: Option<&str>| PackageManagerEvidence {
        pnpm_lock: pnpm,
        yarn_lock: yarn,
        bun_lock: bun,
        npm_lock: npm,
        declared: declared.map(|d| d.to_string()),
    };
    assert_eq!(detect_package_manager(&evidence(true, true, true, true, Some("npm@10"))), Some(PackageManagerKind::Pnpm));
    assert_eq!(detect_package_manager(&evidence(false, true, true, true, None)), Some(PackageManagerKind::Yarn));
    assert_eq!(detect_package_manager(&evidence(false, false, true, true, None)), Some(PackageManagerKind::Bun));
    assert_eq!(detect_package_manager(&evidence(false, false, false, true, None)), Some(PackageManagerKind::Npm));
    assert_eq!(detect_package_manager(&evidence(false, false, false, false, Some("yarn@4.1.0"))), Some(PackageManagerKind::Yarn));
    assert_eq!(detect_package_manager(&evidence(false, false, false, false, Some("bun"))), Some(PackageManagerKind::Bun));
    assert_eq!(detect_package_manager(&evidence(false, false, false, false, Some("deno@2"))), None);
    assert_eq!(detect_package_manager(&evidence(false, false, false, false, None)), None);
    assert!(package_json_has_workspaces(WorkspacesField::List(2)));
    assert!(!package_json_has_workspaces(WorkspacesField::List(0)));
    assert!(!package_json_has_workspaces(WorkspacesField::MapWithPackages(0)));
    assert!(package_json_has_workspaces(WorkspacesField::MapWithoutPackages));
    assert!(package_json_has_workspaces(WorkspacesField::Text));
    assert!(!package_json_has_workspaces(WorkspacesField::Missing));
    assert!(!package_json_has_workspaces(WorkspacesField::Other));
    let none = WorkspaceEvidence { workspace_manifest: false, pnpm_workspace: false, turbo: false, package_workspaces: false };
    assert!(!repo_indicates_workspaces(&none));
    assert!(repo_indicates_workspaces(&WorkspaceEvidence { turbo: true, ..none }));
}

#[test]
fn workspaces_are_found_in_the_manifest() {
    let entry = |name: &str, kind, package: Option<&str>, root: &str| WorkspaceManifestEntry {
        name: name.to_string(),
        kind,
        package_name: package.map(|p| p.to_string()),
        root: root.to_string(),
        config: format!("{}/nocta.config.json", root),
    };
    let manifest = WorkspaceManifest {
        workspaces: vec![
            entry("web", WorkspaceKind::App, Some("@acme/web"), "apps/web"),
            entry("ui", WorkspaceKind::Ui, Some("@acme/ui"), "packages/ui"),
            entry("@acme/ui", WorkspaceKind::Ui, None, "packages/ui2"),
        ],
        package_manager: None,
        repo_root: None,
    };
    assert_eq!(resolve_workspace_by_package(&manifest, "@acme/ui").unwrap().root, "packages/ui");
    assert_eq!(resolve_workspace_by_package(&manifest, "web").unwrap().root, "apps/web");
    assert!(resolve_workspace_by_package(&manifest, "docs").is_none());
    assert_eq!(resolve_workspace_by_kind(&manifest, WorkspaceKind::Ui).unwrap().name, "ui");
    assert!(resolve_workspace_by_kind(&manifest, WorkspaceKind::Library).is_none());
    assert_eq!(resolve_workspace_by_config(&manifest, "packages/ui2/nocta.config.json").unwrap().name, "@acme/ui");
    assert!(resolve_workspace_by_config(&manifest, "nocta.config.json").is_none());
    assert!(WorkspaceManifest::default().workspaces.is_empty());
}
