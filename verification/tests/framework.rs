use nocta_core::framework::{
    any_exists, detect_framework, detect_nextjs, detect_react_router, detect_tanstack_start,
    detect_vite_react, find_existing_files, index_html_shows_react, listed, AppStructure,
    FrameworkKind, ProjectFiles, NEXT_CONFIG_FILES,
};
use nocta_core::string_map::StringMap;

fn deps(entries: &[(&str, &str)]) -> StringMap {
    StringMap {
        entries: entries.iter().map(|(k, v)| (k.to_string(), v.to_string())).collect(),
    }
}

fn files(existing: &[&str], directories: &[&str], index_html: Option<&str>) -> ProjectFiles {
    ProjectFiles {
        existing: existing.iter().map(|p| p.to_string()).collect(),
        directories: directories.iter().map(|p| p.to_string()).collect(),
        index_html: index_html.map(|t| t.to_string()),
    }
}

#[test]
fn next_is_detected_by_dependency_or_configuration() {
    let project = files(&["next.config.mjs", "src/app/layout.tsx", "pages/index.js"], &[], None);
    let found = detect_nextjs(&deps(&[("next", "15.0.0")]), true, &project).unwrap();
    assert_eq!(found.framework, FrameworkKind::NextJs);
    assert_eq!(found.version, Some("15.0.0".to_string()));
    assert_eq!(found.details.app_structure, Some(AppStructure::AppRouter));
    assert_eq!(found.details.config_files, vec!["next.config.mjs"]);
    assert!(found.details.has_config && found.details.has_framework_dependency);
    let by_config = detect_nextjs(&deps(&[]), false, &files(&["next.config.js", "pages/_app.tsx"], &[], None)).unwrap();
    assert_eq!(by_config.version, None);
    assert_eq!(by_config.details.app_structure, Some(AppStructure::PagesRouter));
    assert!(!by_config.details.has_react_dependency);
    let bare = detect_nextjs(&deps(&[("next", "14")]), true, &files(&[], &[], None)).unwrap();
    assert_eq!(bare.details.app_structure, Some(AppStructure::Unknown));
    assert!(!bare.details.has_config);
    assert!(detect_nextjs(&deps(&[("react", "19")]), true, &files(&["vite.config.ts"], &[], None)).is_none());
}

#[test]
fn react_router_needs_react_and_a_sign_of_framework_mode() {
    let project = files(&["app/routes.ts"], &[], None);
    let found = detect_react_router(&deps(&[("react-router", "7.1.0")]), true, &project).unwrap();
    assert_eq!(found.framework, FrameworkKind::ReactRouter);
    assert_eq!(found.version, Some("7.1.0".to_string()));
    assert!(detect_react_router(&deps(&[("react-router", "7.1.0")]), false, &project).is_none());
    assert!(detect_react_router(&deps(&[("react-router", "7.1.0")]), true, &files(&[], &[], None)).is_none());
    let dev = detect_react_router(&deps(&[("@react-router/dev", "7.0.0")]), true, &files(&[], &[], None)).unwrap();
    assert_eq!(dev.version, Some("7.0.0".to_string()));
    assert!(detect_react_router(&deps(&[("@remix-run/react", "2")]), true, &files(&["remix.config.js"], &[], None)).is_none());
    assert!(detect_react_router(&deps(&[("@remix-run/react", "2")]), true, &files(&[], &[], None)).is_some());
}

#[test]
fn tanstack_start_needs_its_package_or_router_and_structure() {
    let none = files(&[], &[], None);
    let start = detect_tanstack_start(&deps(&[("@tanstack/react-start", "1.2.0")]), true, &none).unwrap();
    assert_eq!(start.framework, FrameworkKind::TanstackStart);
    assert_eq!(start.version, Some("1.2.0".to_string()));
    assert!(detect_tanstack_start(&deps(&[("@tanstack/react-router", "1.0.0")]), true, &none).is_none());
    let routed = detect_tanstack_start(
        &deps(&[("@tanstack/router", "0.9"), ("@tanstack/react-router", "1.0.0")]),
        true,
        &files(&[], &["src/routes"], None),
    )
    .unwrap();
    assert_eq!(routed.version, Some("1.0.0".to_string()));
    assert!(detect_tanstack_start(&deps(&[("@tanstack/start", "1")]), false, &none).is_none());
}

#[test]
fn vite_needs_react_in_plugin_sources_or_page() {
    let none = files(&[], &[], None);
    assert!(detect_vite_react(&deps(&[("react", "19")]), true, &none).is_none());
    assert!(detect_vite_react(&deps(&[("vite", "6.0.0")]), true, &none).is_none());
    let plugin = detect_vite_react(&deps(&[("vite", "6.0.0"), ("@vitejs/plugin-react-swc", "3")]), true, &none).unwrap();
    assert_eq!(plugin.framework, FrameworkKind::ViteReact);
    assert_eq!(plugin.version, Some("6.0.0".to_string()));
    assert!(detect_vite_react(&deps(&[]), true, &files(&["vite.config.ts", "src/main.tsx"], &[], None)).is_some());
    let page = "<div id=\"root\"></div><script type=\"module\" src=\"/src/x.tsx\"></script>";
    assert!(detect_vite_react(&deps(&[("vite", "6")]), true, &files(&["index.html"], &[], Some(page))).is_some());
    assert!(detect_vite_react(&deps(&[("vite", "6")]), true, &files(&[], &[], Some(page))).is_none());
    assert!(detect_vite_react(&deps(&[("vite", "6")]), false, &files(&["src/App.tsx"], &[], None)).is_none());
    assert!(index_html_shows_react("<div id='root'></div> /src/main.tsx"));
    assert!(!index_html_shows_react("<div id='app'></div> /src/main.tsx"));
    assert!(!index_html_shows_react("<div id='root'></div>"));
}

#[test]
fn frameworks_are_tried_in_order() {
    let both = deps(&[("react", "19"), ("next", "15"), ("vite", "6"), ("@vitejs/plugin-react", "4")]);
    assert_eq!(detect_framework(Some(&both), &files(&[], &[], None)).framework, FrameworkKind::NextJs);
    let vite = deps(&[("react", "19"), ("vite", "6"), ("@vitejs/plugin-react", "4")]);
    assert_eq!(detect_framework(Some(&vite), &files(&[], &[], None)).framework, FrameworkKind::ViteReact);
    let plain = detect_framework(Some(&deps(&[("react", "19"), ("react-scripts", "5")])), &files(&[], &[], None));
    assert_eq!(plain.framework, FrameworkKind::Unknown);
    assert!(plain.details.has_react_dependency);
    let unread = detect_framework(None, &files(&["next.config.js"], &[], None));
    assert_eq!(unread.framework, FrameworkKind::Unknown);
    assert!(!unread.details.has_react_dependency);
}

#[test]
fn existing_candidates_are_listed_in_order() {
    let project = files(&["next.config.ts", "next.config.js", "other"], &["dir"], None);
    assert_eq!(find_existing_files(&project, &listed(&NEXT_CONFIG_FILES)), vec!["next.config.js", "next.config.ts"]);
    assert!(any_exists(&project, &vec!["a", "other"]));
    assert!(!any_exists(&project, &vec!["a", "dir"]));
    assert!(project.is_dir("dir"));
    assert!(!project.is_dir("other"));
    assert!(project.path_exists("other"));
}
