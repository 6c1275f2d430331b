use nocta_core::imports::{
    component_relative_path, join_import_path, normalize_alias_path, normalize_component_content,
    normalize_import_path,
};
use nocta_core::targets::WorkspaceHandle;
use nocta_core::types::{AliasTarget, Aliases, Config, TailwindConfig, WorkspaceKind};
use nocta_core::workspace::PackageManagerContext;

fn handle(prefix: &str, components: AliasTarget) -> WorkspaceHandle {
    let alias = components.import_alias().map(|a| a.trim_end_matches('/').to_string());
    WorkspaceHandle {
        id: "primary".to_string(),
        label: ".".to_string(),
        kind: WorkspaceKind::App,
        root_abs: "/repo".to_string(),
        root_rel: ".".to_string(),
        config: Config {
            schema: None,
            style: "default".to_string(),
            tailwind: TailwindConfig { css: "app/globals.css".to_string() },
            aliases: Aliases { components, utils: AliasTarget::from_path("lib/utils") },
            alias_prefixes: None,
            exports: None,
            workspace: None,
        },
        alias_prefix: prefix.to_string(),
        component_import_alias: alias,
        package_name: None,
        package_manager_context: PackageManagerContext::new("/repo"),
    }
}

fn with_regex(content: &str, handle: &WorkspaceHandle) -> String {
    let pattern = regex::Regex::new(r#"(['"])@/([^'"\n]+)(['"])"#).unwrap();
    let prefix = handle.alias_prefix.trim_end_matches('/').to_string();
    pattern
        .replace_all(content, |caps: &regex::Captures| {
            let path = normalize_import_path(&caps[2]);
            if let Some(alias) = handle.component_import_alias.as_deref() {
                if let Some(relative) = component_relative_path(handle, &path) {
                    let joined = if relative.is_empty() {
                        alias.to_string()
                    } else {
                        join_import_path(alias, &relative)
                    };
                    return format!("{}{}{}", &caps[1], joined, &caps[3]);
                }
            }
            format!("{}{}{}", &caps[1], join_import_path(&prefix, &path), &caps[3])
        })
        .into_owned()
}

const SAMPLES: [&str; 12] = [
    "import { cn } from \"@/lib/utils\";\nimport { Icon } from '@/components/ui/icon';\n",
    "const a = \"@/\"; const b = '@/x';",
    "\"@/a\"@/b\"",
    "\"@/a\n\" '@/src/app/x' \"@/./components\"",
    "'@/app/components/ui/button\" trailing",
    "no imports here",
    "",
    "\"\"@/x\"\"",
    "\"@/x",
    "'@/é/ü' \"@//abs\"",
    "\"@/components\" '@/components/' \"@/components//ui/x\"",
    "x\"@/a\"\"@/b\"'@/c'",
];

#[test]
fn imports_are_rewritten_below_the_prefix() {
    let handle = handle("~/", AliasTarget::from_path("app/components/ui"));
    assert_eq!(
        normalize_component_content(SAMPLES[0], &handle),
        "import { cn } from \"~/lib/utils\";\nimport { Icon } from '~/components/ui/icon';\n"
    );
    assert_eq!(normalize_component_content("from \"@/src/lib/utils\"", &handle), "from \"~/lib/utils\"");
}

#[test]
fn component_imports_go_below_the_component_alias() {
    let handle = handle(
        "@",
        AliasTarget::with_paths("src/components/ui", Some("@acme/ui/".to_string())),
    );
    assert_eq!(
        normalize_component_content(
            "import a from \"@/components/ui/button\"; import b from '@/lib/utils'; import c from \"@/components\";",
            &handle
        ),
        "import a from \"@acme/ui/button\"; import b from '@/lib/utils'; import c from \"@acme/ui\";"
    );
}

#[test]
fn rewriting_agrees_with_the_pattern() {
    let handles = [
        handle("@", AliasTarget::from_path("components/ui")),
        handle("~/", AliasTarget::from_path("./app/components/ui")),
        handle("@", AliasTarget::with_paths("src/components/ui", Some("@acme/ui".to_string()))),
        handle("#", AliasTarget::with_paths("components", Some("$ui/".to_string()))),
    ];
    for handle in handles.iter() {
        for sample in SAMPLES.iter() {
            assert_eq!(normalize_component_content(sample, handle), with_regex(sample, handle));
        }
    }
}

#[test]
fn rewriting_twice_is_rewriting_once_for_settled_content() {
    let handle = handle("@", AliasTarget::from_path("components/ui"));
    let once = normalize_component_content(SAMPLES[0], &handle);
    assert_eq!(normalize_component_content(&once, &handle), once);
    let other = self::handle("~", AliasTarget::from_path("components/ui"));
    let once = normalize_component_content(SAMPLES[0], &other);
    assert_eq!(once, "import { cn } from \"~/lib/utils\";\nimport { Icon } from '~/components/ui/icon';\n");
    assert_eq!(normalize_component_content(&once, &other), once);
}

#[test]
fn import_paths_are_normalized_and_joined() {
    assert_eq!(normalize_import_path("./src/lib/utils"), "lib/utils");
    assert_eq!(normalize_import_path("/app/routes"), "routes");
    assert_eq!(normalize_import_path("app/src/x"), "src/x");
    assert_eq!(normalize_import_path("././/lib"), "lib");
    assert_eq!(normalize_import_path("lib/app/x"), "lib/app/x");
    assert_eq!(join_import_path("@/", "lib/utils"), "@/lib/utils");
    assert_eq!(join_import_path("@//", "//lib"), "@/lib");
    assert_eq!(join_import_path("@acme/ui/", ""), "@acme/ui");
    assert_eq!(normalize_alias_path("./src/components/ui"), "components/ui");
    assert_eq!(normalize_alias_path("/app/app/x"), "x");
}

#[test]
fn component_paths_are_taken_relative_to_the_components_directory() {
    let handle = handle("@", AliasTarget::from_path("src/components/ui"));
    assert_eq!(component_relative_path(&handle, "components"), Some(String::new()));
    assert_eq!(component_relative_path(&handle, "components/ui/button"), Some("button".to_string()));
    assert_eq!(component_relative_path(&handle, "./components/forms/x"), Some("forms/x".to_string()));
    assert_eq!(component_relative_path(&handle, "lib/utils"), None);
    assert_eq!(component_relative_path(&handle, "components/ui"), Some(String::new()));
}
