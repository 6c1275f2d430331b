use nocta_core::registry::{RegistryComponent, RegistryError};
use nocta_core::resolver::{
    build_component_lookup, collect_components, fetch_component_with_dependencies,
    partition_requested, resolve_requested_components,
};
use nocta_core::string_map::StringMap;
use nocta_core::types::{Component, ComponentFile, Registry};

fn component(name: &str, deps: &[&str]) -> Component {
    Component {
        name: name.to_string(),
        description: String::new(),
        category: "forms".to_string(),
        files: vec![ComponentFile {
            name: format!("{}.tsx", name.to_lowercase()),
            path: format!("components/{}.tsx", name.to_lowercase()),
            file_type: "component".to_string(),
            target: None,
        }],
        dependencies: StringMap::new(),
        dev_dependencies: StringMap::new(),
        internal_dependencies: deps.iter().map(|d| d.to_string()).collect(),
        exports: vec![name.to_string()],
        props: Vec::new(),
        variants: Vec::new(),
        sizes: Vec::new(),
    }
}

fn registry(entries: &[(&str, &str, &[&str])]) -> Registry {
    Registry {
        name: "test".to_string(),
        description: None,
        version: "1.0.0".to_string(),
        components: entries
            .iter()
            .map(|(slug, name, deps)| (slug.to_string(), component(name, deps)))
            .collect(),
        categories: Vec::new(),
        requirements: StringMap::new(),
    }
}

fn slugs(list: &[RegistryComponent]) -> Vec<String> {
    list.iter().map(|entry| entry.slug.clone()).collect()
}

#[test]
fn button_with_icon_dependency_resolves_icon_first() {
    let registry = registry(&[("button", "Button", &["icon"]), ("icon", "Icon", &[])]);
    let resolved = fetch_component_with_dependencies(&registry, "button").unwrap();
    assert_eq!(slugs(&resolved), vec!["icon", "button"]);
    assert_eq!(resolved[1].component.name, "Button");
    assert_eq!(resolved[0].component.exports, vec!["Icon"]);
}

#[test]
fn chain_is_resolved_in_topological_order() {
    let registry = registry(&[
        ("d", "D", &[]),
        ("a", "A", &["b", "c"]),
        ("b", "B", &["d"]),
        ("c", "C", &["d", "b"]),
    ]);
    let resolved = fetch_component_with_dependencies(&registry, "a").unwrap();
    assert_eq!(slugs(&resolved), vec!["d", "b", "c", "a"]);
}

#[test]
fn cycle_is_resolved_with_each_component_once() {
    let registry = registry(&[("a", "A", &["b"]), ("b", "B", &["a"])]);
    let resolved = fetch_component_with_dependencies(&registry, "a").unwrap();
    assert_eq!(slugs(&resolved), vec!["b", "a"]);
    let resolved = fetch_component_with_dependencies(&registry, "b").unwrap();
    assert_eq!(slugs(&resolved), vec!["a", "b"]);
}

#[test]
fn self_dependency_is_resolved_once() {
    let registry = registry(&[("a", "A", &["a"])]);
    let resolved = fetch_component_with_dependencies(&registry, "a").unwrap();
    assert_eq!(slugs(&resolved), vec!["a"]);
}

#[test]
fn missing_component_is_an_error() {
    let registry = registry(&[("button", "Button", &["icon"])]);
    assert_eq!(
        fetch_component_with_dependencies(&registry, "card").unwrap_err(),
        RegistryError::ComponentNotFound("card".to_string())
    );
    assert_eq!(
        fetch_component_with_dependencies(&registry, "button").unwrap_err(),
        RegistryError::ComponentNotFound("icon".to_string())
    );
}

#[test]
fn several_requests_are_deduplicated_in_first_seen_order() {
    let registry = registry(&[
        ("button", "Button", &["icon"]),
        ("icon", "Icon", &[]),
        ("card", "Card", &["icon", "button"]),
        ("badge", "Badge", &[]),
    ]);
    let requested = vec!["button".to_string(), "card".to_string(), "badge".to_string()];
    let collected = collect_components(&registry, &requested).unwrap();
    assert_eq!(slugs(&collected), vec!["icon", "button", "card", "badge"]);
    let (wanted, needed) = partition_requested(collected, &requested);
    assert_eq!(slugs(&wanted), vec!["button", "card", "badge"]);
    assert_eq!(slugs(&needed), vec!["icon"]);
}

#[test]
fn collecting_fails_on_the_first_missing_slug() {
    let registry = registry(&[("button", "Button", &[])]);
    let requested = vec!["button".to_string(), "nope".to_string()];
    assert_eq!(
        collect_components(&registry, &requested).unwrap_err(),
        RegistryError::ComponentNotFound("nope".to_string())
    );
}

#[test]
fn requested_names_are_found_whatever_their_case() {
    let registry = registry(&[("date-picker", "DatePicker", &[]), ("button", "Button", &[])]);
    let lookup = build_component_lookup(&registry.components);
    assert_eq!(lookup.get("datepicker").map(String::as_str), Some("date-picker"));
    assert_eq!(lookup.get("date-picker").map(String::as_str), Some("date-picker"));
    let names = vec!["BUTTON".to_string(), "DatePicker".to_string()];
    assert_eq!(
        resolve_requested_components(&lookup, &names),
        Ok(vec!["button".to_string(), "date-picker".to_string()])
    );
    let names = vec!["button".to_string(), "Slider".to_string()];
    assert_eq!(resolve_requested_components(&lookup, &names), Err("Slider".to_string()));
}
