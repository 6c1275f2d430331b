use nocta_core::plan::{
    parse_bun_linker, plan_dependency_install, DependencyInstallPlan, InstallEnvironment,
};
use nocta_core::string_map::StringMap;
use nocta_core::workspace::{PackageManagerContext, PackageManagerKind};

fn map(entries: &[(&str, &str)]) -> StringMap {
    StringMap {
        entries: entries.iter().map(|(k, v)| (k.to_string(), v.to_string())).collect(),
    }
}

fn environment() -> InstallEnvironment {
    InstallEnvironment { detected_package_manager: None, bun_linker: None }
}

fn plan(
    deps: &[(&str, &str)],
    context: &PackageManagerContext,
    environment: &InstallEnvironment,
) -> DependencyInstallPlan {
    plan_dependency_install(&map(deps), context, environment).unwrap()
}

#[test]
fn nothing_to_install_gives_no_plan() {
    let context = PackageManagerContext::new("/repo");
    assert_eq!(plan_dependency_install(&StringMap::new(), &context, &environment()), None);
}

#[test]
fn npm_installs_a_missing_package() {
    let context = PackageManagerContext::new("/repo");
    let plan = plan(&[("clsx", "^2.0.0")], &context, &environment());
    assert_eq!(plan.command_line().join(" "), "npm install clsx@^2.0.0");
    assert_eq!(plan.package_manager, PackageManagerKind::Npm);
    assert_eq!(plan.working_directory, "/repo");
    assert_eq!(plan.dependencies, vec!["clsx@^2.0.0"]);
    assert_eq!(plan.target_label(), None);
    assert!(plan.env.is_empty());
}

#[test]
fn npm_names_the_workspace_package() {
    let context = PackageManagerContext::new("/repo")
        .with_workspace_root("/repo/packages/ui")
        .with_workspace_package("@acme/ui")
        .with_package_manager(PackageManagerKind::Npm);
    let plan = plan(&[("zod", "^3.0.0"), ("clsx", "^2.0.0")], &context, &environment());
    assert_eq!(
        plan.args,
        vec!["install", "clsx@^2.0.0", "zod@^3.0.0", "--workspace", "@acme/ui"]
    );
    assert_eq!(plan.working_directory, "/repo");
    assert_eq!(plan.target_label(), Some("workspace `@acme/ui`"));
}

#[test]
fn npm_runs_in_the_workspace_root_without_a_package() {
    let context = PackageManagerContext::new("/repo").with_workspace_root("/repo/apps/web");
    let plan = plan(&[("clsx", "^2.0.0")], &context, &environment());
    assert_eq!(plan.args, vec!["install", "clsx@^2.0.0"]);
    assert_eq!(plan.working_directory, "/repo/apps/web");
    assert_eq!(plan.target_label(), Some("directory /repo/apps/web"));
}

#[test]
fn yarn_adds_to_a_workspace_or_in_its_root() {
    let named = PackageManagerContext::new("/repo")
        .with_workspace_root("/repo/packages/ui")
        .with_workspace_package("ui")
        .with_package_manager(PackageManagerKind::Yarn);
    let plan_named = plan(&[("clsx", "^2.0.0")], &named, &environment());
    assert_eq!(plan_named.command_line(), vec!["yarn", "workspace", "ui", "add", "clsx@^2.0.0"]);
    assert_eq!(plan_named.working_directory, "/repo");
    let unnamed = PackageManagerContext::new("/repo")
        .with_workspace_root("/repo/packages/ui")
        .with_package_manager(PackageManagerKind::Yarn);
    let plan_unnamed = plan(&[("clsx", "^2.0.0")], &unnamed, &environment());
    assert_eq!(plan_unnamed.command_line(), vec!["yarn", "add", "clsx@^2.0.0"]);
    assert_eq!(plan_unnamed.working_directory, "/repo/packages/ui");
}

#[test]
fn pnpm_filters_by_package_or_runs_in_the_workspace_root() {
    let named = PackageManagerContext::new("/repo")
        .with_workspace_root("/repo/packages/ui")
        .with_workspace_package("ui")
        .with_package_manager(PackageManagerKind::Pnpm);
    let plan_named = plan(&[("clsx", "^2.0.0")], &named, &environment());
    assert_eq!(plan_named.command_line(), vec!["pnpm", "add", "--filter", "ui", "clsx@^2.0.0"]);
    assert_eq!(plan_named.working_directory, "/repo");
    let unnamed = PackageManagerContext::new("/repo")
        .with_workspace_root("/repo/packages/ui")
        .with_package_manager(PackageManagerKind::Pnpm);
    let plan_unnamed = plan(&[("clsx", "^2.0.0")], &unnamed, &environment());
    assert_eq!(plan_unnamed.command_line(), vec!["pnpm", "add", "clsx@^2.0.0"]);
    assert_eq!(plan_unnamed.working_directory, "/repo/packages/ui");
    let bare = PackageManagerContext::new("/repo").with_package_manager(PackageManagerKind::Pnpm);
    assert_eq!(plan(&[("clsx", "^2.0.0")], &bare, &environment()).working_directory, "/repo");
}

#[test]
fn bun_passes_the_directory_and_the_linker() {
    let context = PackageManagerContext::new("/repo")
        .with_workspace_root("/repo/packages/ui")
        .with_workspace_package("ui")
        .with_package_manager(PackageManagerKind::Bun);
    let environment = InstallEnvironment {
        detected_package_manager: Some(PackageManagerKind::Npm),
        bun_linker: Some("isolated".to_string()),
    };
    let plan = plan(&[("clsx", "^2.0.0")], &context, &environment);
    assert_eq!(
        plan.command_line(),
        vec!["bun", "add", "clsx@^2.0.0", "--cwd", "/repo/packages/ui"]
    );
    assert_eq!(plan.working_directory, "/repo");
    assert_eq!(plan.env, vec![("BUN_INSTALL_LINKER".to_string(), "isolated".to_string())]);
}

#[test]
fn linker_is_passed_to_bun_only() {
    let context = PackageManagerContext::new("/repo");
    let environment = InstallEnvironment {
        detected_package_manager: Some(PackageManagerKind::Pnpm),
        bun_linker: Some("isolated".to_string()),
    };
    let plan = plan(&[("clsx", "^2.0.0")], &context, &environment);
    assert_eq!(plan.package_manager, PackageManagerKind::Pnpm);
    assert_eq!(plan.program, "pnpm");
    assert!(plan.env.is_empty());
}

#[test]
fn tokens_are_sorted() {
    let context = PackageManagerContext::new("/repo");
    let plan = plan(
        &[("zod", "^3"), ("@radix-ui/react-icons", "^1"), ("clsx", "^2"), ("Clsx", "^2")],
        &context,
        &environment(),
    );
    let mut expected = vec![
        "zod@^3".to_string(),
        "@radix-ui/react-icons@^1".to_string(),
        "clsx@^2".to_string(),
        "Clsx@^2".to_string(),
    ];
    expected.sort();
    assert_eq!(plan.dependencies, expected);
}

#[test]
fn bun_linker_is_read_from_the_install_section() {
    assert_eq!(
        parse_bun_linker("[install]\nlinker = \"isolated\"\n"),
        Some("isolated".to_string())
    );
    assert_eq!(
        parse_bun_linker("# comment\n[test]\nlinker = 'x'\n\n[install]\n  linker='hoisted' # why\n"),
        Some("hoisted".to_string())
    );
    assert_eq!(parse_bun_linker("linker = \"isolated\"\n"), None);
    assert_eq!(parse_bun_linker("[install]\nlinker = \"\"\nlinker = b\r\n"), Some("b".to_string()));
    assert_eq!(parse_bun_linker("[install]\nregistry = \"x\"\n[other]\nlinker = a"), None);
    assert_eq!(parse_bun_linker(""), None);
}

#[test]
fn package_managers_go_by_their_names() {
    for kind in [
        PackageManagerKind::Npm,
        PackageManagerKind::Pnpm,
        PackageManagerKind::Yarn,
        PackageManagerKind::Bun,
    ] {
        assert_eq!(PackageManagerKind::from_name(kind.as_str()), Some(kind));
    }
    assert_eq!(PackageManagerKind::from_name("deno"), None);
    assert_eq!(PackageManagerKind::Pnpm.as_str(), "pnpm");
}
