use nocta_core::deps::{check_project_requirements, ProjectPackages, RequirementIssueReason};
use nocta_core::imports::{component_import_base, example_import_path};
use nocta_core::plan::{plan_dependency_install, InstallEnvironment};
use nocta_core::resolver::fetch_component_with_dependencies;
use nocta_core::string_map::StringMap;
use nocta_core::targets::WorkspaceHandle;
use nocta_core::types::{
    AliasTarget, Aliases, Component, Config, Registry, TailwindConfig, WorkspaceKind,
};
use nocta_core::workspace::{PackageManagerContext, PackageManagerKind};

fn component(name: &str, deps: &[&str], packages: &[(&str, &str)]) -> Component {
    Component {
        name: name.to_string(),
        description: String::new(),
        category: "forms".to_string(),
        files: Vec::new(),
        dependencies: StringMap {
            entries: packages.iter().map(|(k, v)| (k.to_string(), v.to_string())).collect(),
        },
        dev_dependencies: StringMap::new(),
        internal_dependencies: deps.iter().map(|d| d.to_string()).collect(),
        exports: Vec::new(),
        props: Vec::new(),
        variants: Vec::new(),
        sizes: Vec::new(),
    }
}

#[test]
fn requesting_button_installs_icon_first_and_plans_clsx() {
    let registry = Registry {
        name: "nocta".to_string(),
        description: None,
        version: "1.0.0".to_string(),
        components: vec![
            ("button".to_string(), component("Button", &["icon"], &[("clsx", "^2.0.0")])),
            ("icon".to_string(), component("Icon", &[], &[])),
        ],
        categories: Vec::new(),
        requirements: StringMap::new(),
    };
    let resolved = fetch_component_with_dependencies(&registry, "button").unwrap();
    let slugs: Vec<&str> = resolved.iter().map(|entry| entry.slug.as_str()).collect();
    assert_eq!(slugs, vec!["icon", "button"]);

    let project =
        ProjectPackages { declared: StringMap::new(), modules: Vec::new(), uses_yarn_pnp: false };
    let required = &resolved[1].component.dependencies;
    let issues = check_project_requirements(&project, required);
    assert_eq!(issues.len(), 1);
    assert_eq!(issues[0].name, "clsx");
    assert_eq!(issues[0].reason, RequirementIssueReason::Missing);

    let none = InstallEnvironment { detected_package_manager: None, bun_linker: None };
    let context = PackageManagerContext::new("/repo");
    let lines: Vec<String> = [
        PackageManagerKind::Npm,
        PackageManagerKind::Pnpm,
        PackageManagerKind::Yarn,
        PackageManagerKind::Bun,
    ]
    .into_iter()
    .map(|kind| {
        let context = context.clone().with_package_manager(kind);
        plan_dependency_install(required, &context, &none).unwrap().command_line().join(" ")
    })
    .collect();
    assert_eq!(
        lines,
        vec![
            "npm install clsx@^2.0.0",
            "pnpm add clsx@^2.0.0",
            "yarn add clsx@^2.0.0",
            "bun add clsx@^2.0.0"
        ]
    );
}

#[test]
fn installed_components_are_imported_below_the_components_directory() {
    let mut handle = WorkspaceHandle {
        id: "primary".to_string(),
        label: ".".to_string(),
        kind: WorkspaceKind::App,
        root_abs: "/repo".to_string(),
        root_rel: ".".to_string(),
        config: Config {
            schema: None,
            style: "default".to_string(),
            tailwind: TailwindConfig { css: "app/globals.css".to_string() },
            aliases: Aliases {
                components: AliasTarget::from_path("./src/components/ui"),
                utils: AliasTarget::from_path("lib/utils"),
            },
            alias_prefixes: None,
            exports: None,
            workspace: None,
        },
        alias_prefix: "@/".to_string(),
        component_import_alias: None,
        package_name: None,
        package_manager_context: PackageManagerContext::new("/repo"),
    };
    assert_eq!(component_import_base(&handle), "@/components/ui");
    assert_eq!(example_import_path(&handle, "./components/ui/button.tsx"), "@/components/ui/button");
    assert_eq!(example_import_path(&handle, "lib/hooks.ts"), "@/components/ui/lib/hooks.ts");
    handle.component_import_alias = Some("@acme/ui/".to_string());
    assert_eq!(component_import_base(&handle), "@acme/ui");
    assert_eq!(example_import_path(&handle, "components/ui/button.tsx"), "@acme/ui/button");
    assert_eq!(example_import_path(&handle, "components"), "@acme/ui");
}
