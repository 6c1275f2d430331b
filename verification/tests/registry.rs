use nocta_core::cache::{
    cache_dir, cache_ttl_millis, max_cache_age, metadata_path, normalized_rel_path, parse_number,
    read_cache_text, resolve_cache_path, resolve_sidecar_path, CacheContext, CacheRead,
};
use nocta_core::fetch::{
    fetch_step, request_headers, FetchAction, FetchEvent, FetchState, HttpCacheMetadata,
};
use nocta_core::registry::{
    asset_cache_path, asset_url, cache_namespace_for, decoded_text, fetch_component,
    fetch_component_file, fetch_summary, namespace_of_checksum, namespaced_path,
    normalize_manifest_key, read_as_text, registry_url, ComponentManifest, RegistryError,
};
use nocta_core::string_map::StringMap;
use nocta_core::types::Registry;

fn map(entries: &[(&str, &str)]) -> StringMap {
    StringMap {
        entries: entries.iter().map(|(k, v)| (k.to_string(), v.to_string())).collect(),
    }
}

#[test]
fn cache_namespace_is_the_checksum_of_the_address() {
    assert_eq!(cache_namespace_for("https://www.nocta-ui.com/registry"), "registry/fe56a048");
    assert_eq!(cache_namespace_for("  https://www.nocta-ui.com/registry\n"), "registry/fe56a048");
    assert_eq!(cache_namespace_for("http://localhost:3000/registry/"), "registry/52e6f3cb");
    assert_eq!(cache_namespace_for(""), "registry/00000000");
    assert_eq!(namespace_of_checksum(0xfe56a048), "registry/fe56a048");
    assert_eq!(namespace_of_checksum(0x1f), "registry/0000001f");
    assert_eq!(namespace_of_checksum(u32::MAX), "registry/ffffffff");
}

#[test]
fn decoding_outcomes_become_texts_or_errors() {
    assert_eq!(decoded_text("a.ts", Ok(b"hi".to_vec())), Ok("hi".to_string()));
    assert_eq!(
        decoded_text("a.ts", Err("bad symbol".to_string())),
        Err(RegistryError::Decode("a.ts".to_string(), "bad symbol".to_string()))
    );
    assert!(decoded_text("a.ts", Ok(vec![0xc3, 0x28])).is_err());
    assert_eq!(read_as_text("a.ts", Ok("hi".to_string())), Ok("hi".to_string()));
    assert_eq!(
        read_as_text("a.ts", Err("not utf-8".to_string())),
        Err(RegistryError::Decode("a.ts".to_string(), "not utf-8".to_string()))
    );
}

#[test]
fn addresses_and_cache_paths_are_joined_with_one_slash() {
    assert_eq!(registry_url("https://x.dev/registry//"), "https://x.dev/registry/registry.json");
    assert_eq!(asset_url("https://x.dev/registry/", "/css/index.css"), "https://x.dev/registry/css/index.css");
    assert_eq!(asset_cache_path("//components.json"), "assets/components.json");
    assert_eq!(namespaced_path("registry/fe56a048", "/registry/registry.json"), "registry/fe56a048/registry/registry.json");
}

#[test]
fn manifest_finds_files_by_path_and_by_name() {
    let manifest = ComponentManifest::from_raw(&map(&[
        ("./components\\button.tsx", "QQ=="),
        ("icons.ts", "Qg=="),
        ("/lib/utils.ts", "Qw=="),
        ("components/button.tsx", "RA=="),
    ]));
    assert_eq!(manifest.by_path, map(&[("components/button.tsx", "RA=="), ("lib/utils.ts", "Qw==")]));
    assert_eq!(manifest.fallback_by_file, map(&[("icons.ts", "Qg==")]));
    assert_eq!(manifest.lookup("components/button.tsx").map(String::as_str), Some("RA=="));
    assert_eq!(manifest.lookup("icons/icons.ts").map(String::as_str), Some("Qg=="));
    assert_eq!(manifest.lookup(".\\icons.ts").map(String::as_str), Some("Qg=="));
    assert_eq!(manifest.lookup("other/utils.ts"), None);
    assert_eq!(normalize_manifest_key(".\\a\\b.ts"), "a/b.ts");
    assert_eq!(normalize_manifest_key("././/a"), "a");
}

#[test]
fn component_files_are_decoded() {
    let manifest = ComponentManifest::from_raw(&map(&[
        ("components/button.tsx", "ZXhwb3J0IGNvbnN0IHggPSAxOwo="),
        ("components/broken.tsx", "not base64!"),
        ("components/binary.tsx", "//4="),
    ]));
    assert_eq!(
        fetch_component_file(&manifest, "components/button.tsx"),
        Ok("export const x = 1;\n".to_string())
    );
    assert_eq!(
        fetch_component_file(&manifest, "components/none.tsx"),
        Err(RegistryError::ComponentNotFound("components/none.tsx".to_string()))
    );
    match fetch_component_file(&manifest, "components/broken.tsx") {
        Err(RegistryError::Decode(path, reason)) => {
            assert_eq!(path, "components/broken.tsx");
            assert!(!reason.is_empty());
        }
        other => panic!("unexpected {:?}", other),
    }
    match fetch_component_file(&manifest, "components/binary.tsx") {
        Err(RegistryError::Decode(path, reason)) => {
            assert_eq!(path, "components/binary.tsx");
            assert_eq!(reason, String::from_utf8(vec![0xff, 0xfe]).unwrap_err().to_string());
        }
        other => panic!("unexpected {:?}", other),
    }
}

#[test]
fn errors_have_messages() {
    assert_eq!(RegistryError::Network("down".to_string()).message(), "network error: down");
    assert_eq!(
        RegistryError::Parse("eof".to_string()).message(),
        "failed to parse registry response: eof"
    );
    assert_eq!(
        RegistryError::ComponentNotFound("card".to_string()).message(),
        "component `card` not found in registry"
    );
    assert_eq!(
        RegistryError::Decode("a.ts".to_string(), "bad".to_string()).message(),
        "failed to decode registry asset `a.ts`: bad"
    );
    assert_eq!(
        RegistryError::AssetParse("components.json".to_string(), "bad".to_string()).message(),
        "failed to parse registry asset `components.json`: bad"
    );
}

#[test]
fn registry_gives_its_summary_and_components() {
    let registry = Registry {
        name: "nocta".to_string(),
        description: Some("components".to_string()),
        version: "2.0.0".to_string(),
        components: Vec::new(),
        categories: Vec::new(),
        requirements: StringMap::new(),
    };
    let summary = fetch_summary(&registry);
    assert_eq!(summary.name, "nocta");
    assert_eq!(summary.version, "2.0.0");
    assert_eq!(summary.description, Some("components".to_string()));
    assert_eq!(
        fetch_component(&registry, "card").unwrap_err(),
        RegistryError::ComponentNotFound("card".to_string())
    );
}

#[test]
fn fresh_cache_is_served_without_a_request() {
    let (state, action) = fetch_step(FetchState::Start, FetchEvent::Begin);
    assert_eq!((state.clone(), action), (FetchState::AwaitFresh, FetchAction::ReadFresh));
    assert_eq!(
        fetch_step(state, FetchEvent::CacheRead(Some("body".to_string()))),
        (FetchState::Done, FetchAction::Serve("body".to_string()))
    );
}

#[test]
fn stale_cache_is_revalidated_and_delivery_is_stored() {
    let (state, action) = fetch_step(FetchState::AwaitFresh, FetchEvent::CacheRead(None));
    assert_eq!((state.clone(), action), (FetchState::AwaitMetadata, FetchAction::LoadMetadata));
    let metadata = HttpCacheMetadata { etag: Some("\"abc\"".to_string()), last_modified: Some("Mon".to_string()) };
    let (state, action) = fetch_step(state, FetchEvent::MetadataLoaded(metadata));
    assert_eq!(state, FetchState::AwaitResponse);
    assert_eq!(
        action,
        FetchAction::Send(vec![
            ("if-none-match".to_string(), "\"abc\"".to_string()),
            ("if-modified-since".to_string(), "Mon".to_string()),
        ])
    );
    let delivered = FetchEvent::Delivered {
        body: "new".to_string(),
        etag: Some("\"def\"".to_string()),
        last_modified: None,
    };
    assert_eq!(
        fetch_step(state, delivered),
        (
            FetchState::Done,
            FetchAction::StoreAndServe {
                body: "new".to_string(),
                metadata: HttpCacheMetadata { etag: Some("\"def\"".to_string()), last_modified: None },
            }
        )
    );
    assert!(request_headers(&HttpCacheMetadata::new()).is_empty());
    assert!(HttpCacheMetadata::new().is_empty());
}

#[test]
fn failures_fall_back_to_the_stale_cache() {
    let events = vec![
        (FetchEvent::NotModified, "registry returned 304 but cache entry is missing"),
        (FetchEvent::Rejected("500 Internal Server Error".to_string()), "registry request failed with status 500 Internal Server Error"),
        (FetchEvent::BodyFailed("cut".to_string()), "cut"),
        (FetchEvent::Unreachable("dns".to_string()), "dns"),
    ];
    for (event, reason) in events {
        let (state, action) = fetch_step(FetchState::AwaitResponse, event);
        assert_eq!(action, FetchAction::ReadStale);
        assert_eq!(state, FetchState::AwaitStale(RegistryError::Network(reason.to_string())));
        assert_eq!(
            fetch_step(state.clone(), FetchEvent::CacheRead(Some("old".to_string()))),
            (FetchState::Done, FetchAction::Serve("old".to_string()))
        );
        assert_eq!(
            fetch_step(state, FetchEvent::CacheRead(None)),
            (FetchState::Done, FetchAction::Fail(RegistryError::Network(reason.to_string())))
        );
    }
    assert_eq!(
        fetch_step(FetchState::Done, FetchEvent::Begin),
        (FetchState::Done, FetchAction::Ignore)
    );
}

#[test]
fn cache_entries_are_used_by_their_age() {
    let second: u128 = 1_000_000_000;
    assert_eq!(read_cache_text(false, None, Some(second), false), CacheRead::Missing);
    assert_eq!(read_cache_text(true, None, Some(second), false), CacheRead::Use);
    assert_eq!(read_cache_text(true, Some(second), Some(second), false), CacheRead::Use);
    assert_eq!(read_cache_text(true, Some(second + 1), Some(second), false), CacheRead::Stale);
    assert_eq!(read_cache_text(true, Some(second + 1), Some(second), true), CacheRead::Use);
    assert_eq!(read_cache_text(true, Some(second + 1), None, false), CacheRead::Use);
    assert_eq!(max_cache_age(), 30 * 24 * 60 * 60 * second);
    assert_eq!(read_cache_text(true, Some(max_cache_age()), None, true), CacheRead::Use);
    assert_eq!(read_cache_text(true, Some(max_cache_age() + 1), None, true), CacheRead::Purge);
}

#[test]
fn cache_paths_are_kept_inside_the_cache() {
    let context = CacheContext::new(None, Some("/home/u/.cache"), "/tmp");
    assert_eq!(cache_dir(&context), "/home/u/.cache/nocta-ui");
    assert_eq!(CacheContext::new(Some("  "), None, "/tmp").base_dir, "/tmp/nocta-ui");
    assert_eq!(CacheContext::new(Some("/x"), Some("/y"), "/tmp").base_dir, "/x");
    assert_eq!(normalized_rel_path("../../etc/./passwd"), "etc/passwd");
    assert_eq!(normalized_rel_path("/registry//registry.json"), "registry/registry.json");
    assert_eq!(normalized_rel_path("../.."), "entry");
    assert_eq!(normalized_rel_path(""), "entry");
    assert_eq!(resolve_cache_path(&context, "a/b.json"), "/home/u/.cache/nocta-ui/a/b.json");
    assert_eq!(resolve_sidecar_path(&context, "a/b.json", ".etag"), "/home/u/.cache/nocta-ui/a/b.json.etag");
    assert_eq!(metadata_path(&context, ""), "/home/u/.cache/nocta-ui/entry.meta");
}

#[test]
fn time_to_live_is_read_from_its_setting() {
    assert_eq!(parse_number("600000"), Some(600000));
    assert_eq!(parse_number("+5"), Some(5));
    assert_eq!(parse_number(""), None);
    assert_eq!(parse_number("+"), None);
    assert_eq!(parse_number("-5"), None);
    assert_eq!(parse_number("5s"), None);
    assert_eq!(parse_number("18446744073709551615"), Some(u64::MAX));
    assert_eq!(parse_number("18446744073709551616"), None);
    assert_eq!(cache_ttl_millis(Some("250"), 600000), 250);
    assert_eq!(cache_ttl_millis(Some("soon"), 600000), 600000);
    assert_eq!(cache_ttl_millis(None, 600000), 600000);
    for text in ["0", "007", "+0", "++1", " 1", "1 ", "99999999999999999999"] {
        assert_eq!(parse_number(text), text.parse::<u64>().ok());
    }
}
