use nocta_core::chars::{chars_of, string_of};
use nocta_core::paths::{
    display_path, extract_alias_suffix, file_name_of, flatten_relative_path_for_slug, join_path,
    module_path_from_barrel, module_path_from_relative, parent_of, parts_of, project_path,
    resolve_component_path, shown_path, strip_extension,
};
use nocta_core::types::{AliasTarget, Aliases, Config, TailwindConfig};

fn config(components: &str) -> Config {
    Config {
        schema: None,
        style: "default".to_string(),
        tailwind: TailwindConfig { css: "app/globals.css".to_string() },
        aliases: Aliases {
            components: AliasTarget::from_path(components),
            utils: AliasTarget::from_path("lib/utils"),
        },
        alias_prefixes: None,
        exports: None,
        workspace: None,
    }
}

#[test]
fn paths_are_joined_like_path_buffers() {
    let cases = [
        ("/repo", "src/a.ts"),
        ("/repo/", "src/a.ts"),
        ("/repo", "/abs/a.ts"),
        ("", "a.ts"),
        ("a", ""),
        (".", "components/ui"),
        ("a/b", "../c"),
    ];
    for (base, rel) in cases {
        let expected = std::path::Path::new(base).join(rel).to_string_lossy().into_owned();
        assert_eq!(join_path(base, rel), expected);
    }
    assert_eq!(project_path("src/a.ts"), "./src/a.ts");
}

#[test]
fn parents_are_found_like_path_parents() {
    for path in ["/repo/src/index.ts", "/repo/src/", "index.ts", "/", "", "/a", "a//b", "a/b//"] {
        let expected = std::path::Path::new(path).parent().map(|p| p.to_string_lossy().into_owned());
        assert_eq!(parent_of(path), expected);
    }
}

#[test]
fn component_files_go_below_the_components_directory() {
    let next = config("components/ui");
    assert_eq!(resolve_component_path("components/ui/button.tsx", &next), "components/ui/button.tsx");
    assert_eq!(resolve_component_path("./components/button.tsx", &next), "components/ui/button.tsx");
    assert_eq!(resolve_component_path("app/components/ui/forms/input.tsx", &next), "components/ui/forms/input.tsx");
    assert_eq!(resolve_component_path("lib/utils.ts", &next), "components/ui/lib/utils.ts");
    assert_eq!(resolve_component_path("components/ui", &next), "components/ui/ui");
    assert_eq!(resolve_component_path("components", &next), "components/ui/components");
    let vite = config("./src/components/ui");
    assert_eq!(resolve_component_path("components/ui/button.tsx", &vite), "./src/components/ui/button.tsx");
    assert_eq!(resolve_component_path("/src/components/uix/a.tsx", &vite), "./src/components/ui/uix/a.tsx");
    assert_eq!(extract_alias_suffix("./src/components/ui"), "ui");
    assert_eq!(extract_alias_suffix("app/src/components/components//x"), "x");
}

#[test]
fn files_in_a_directory_named_after_the_component_are_moved_up() {
    let config = config("src/components/ui");
    assert_eq!(
        flatten_relative_path_for_slug("src/components/ui/button/button.tsx", &config, "button"),
        Some("src/components/ui/button.tsx".to_string())
    );
    assert_eq!(
        flatten_relative_path_for_slug("src/components/ui/button/parts/a.tsx", &config, "button"),
        Some("src/components/ui/parts/a.tsx".to_string())
    );
    assert_eq!(flatten_relative_path_for_slug("src/components/ui/button.tsx", &config, "button"), None);
    assert_eq!(flatten_relative_path_for_slug("src/components/ui/button", &config, "button"), None);
    assert_eq!(flatten_relative_path_for_slug("src/components/ui/card/card.tsx", &config, "button"), None);
    assert_eq!(flatten_relative_path_for_slug("src/lib/button/a.ts", &config, "button"), None);
    assert_eq!(flatten_relative_path_for_slug("/src/components/ui/button/a.ts", &config, "button"), None);
}

#[test]
fn module_paths_are_relative_and_without_extension() {
    assert_eq!(module_path_from_relative("button.tsx"), "./button");
    assert_eq!(module_path_from_relative("ui/button.test.tsx"), "./ui/button.test");
    assert_eq!(module_path_from_relative("../shared/icon.ts"), "../shared/icon");
    assert_eq!(module_path_from_relative("/abs/icon.ts"), "./abs/icon");
    assert_eq!(module_path_from_relative("ui\\button.tsx"), "./ui/button");
    assert_eq!(module_path_from_relative("ui/.hidden"), "./ui/.hidden");
    assert_eq!(module_path_from_relative("ui.d/file"), "./ui.d/file");
}

#[test]
fn ways_between_paths_come_from_the_path_difference() {
    assert_eq!(display_path("/repo/src/a.ts", "/repo"), "src/a.ts");
    assert_eq!(display_path("/repo/src/a.ts", "/repo/apps/web"), "../../src/a.ts");
    assert_eq!(display_path("/repo/src/a.ts", "relative"), "/repo/src/a.ts");
    assert_eq!(display_path("relative/a.ts", "/repo"), "relative/a.ts");
    assert_eq!(shown_path(None, "/x"), "/x");
    assert_eq!(shown_path(Some("y".to_string()), "/x"), "y");
    assert_eq!(
        module_path_from_barrel("/repo/packages/ui/src", "/repo/packages/ui/src/components/ui/button.tsx"),
        "./components/ui/button"
    );
    assert_eq!(
        module_path_from_barrel("/repo/packages/ui/src/barrel", "/repo/packages/ui/src/components/button.tsx"),
        "../components/button"
    );
}

#[test]
fn names_parts_and_extensions_agree_with_the_standard_library() {
    let paths = [
        "a/b.txt", "a/b/", "a/.", "a/..", "/", "", ".", "..", "a//b", "./x", "a/b.tar.gz",
        "a.b/c", "a/.hidden", "a/b.", "x", "/abs/file.ts", "../up/file",
    ];
    for path in paths {
        let std_path = std::path::Path::new(path);
        assert_eq!(
            file_name_of(&chars_of(path)).map(|name| string_of(&name)),
            std_path.file_name().map(|name| name.to_string_lossy().into_owned())
        );
        let parts: Vec<String> = parts_of(&chars_of(path)).iter().map(string_of).collect();
        let expected: Vec<String> = std_path
            .components()
            .filter_map(|component| match component {
                std::path::Component::Normal(part) => Some(part.to_string_lossy().into_owned()),
                std::path::Component::ParentDir => Some("..".to_string()),
                _ => None,
            })
            .collect();
        assert_eq!(parts, expected);
        if !path.ends_with('/') && !path.ends_with("/.") {
            assert_eq!(
                string_of(&strip_extension(&chars_of(path))),
                std_path.with_extension("").to_string_lossy()
            );
        }
    }
}
