//! The pages of the client.
use webshooter::server::frontend::{
    base_path, icon_size_from_path, manifest, manifest_object, route, IconCache, Route,
};

#[test]
fn icon_path_parsing() {
    assert_eq!(icon_size_from_path("icon-192.png"), Some(192));
    assert_eq!(icon_size_from_path("icon-512.png"), Some(512));
    assert_eq!(icon_size_from_path("icon-32.png"), Some(32));
    assert_eq!(icon_size_from_path("icon-2048.png"), Some(2048));
    assert_eq!(icon_size_from_path("icon-0.png"), None);
    assert_eq!(icon_size_from_path("icon-abc.png"), None);
    assert_eq!(icon_size_from_path("webshooter.svg"), None);
    assert_eq!(icon_size_from_path("icon-192.png/extra"), None);
}

#[test]
fn icon_sizes_have_bounds() {
    assert_eq!(icon_size_from_path("icon-31.png"), None);
    assert_eq!(icon_size_from_path("icon-2049.png"), None);
    assert_eq!(icon_size_from_path("icon-4294967488.png"), None);
    assert_eq!(icon_size_from_path("icon-+64.png"), Some(64));
    assert_eq!(icon_size_from_path("icon--64.png"), None);
    assert_eq!(icon_size_from_path("icon-.png"), None);
    for n in 32..=2048u32 {
        assert_eq!(icon_size_from_path(&format!("icon-{n}.png")), Some(n));
    }
}

#[test]
fn icons_are_drawn_once() {
    let mut cache = IconCache::new();
    assert_eq!(cache.get(64), None);
    cache.insert(64, vec![1, 2, 3]);
    assert_eq!(cache.get(64), Some(vec![1, 2, 3]));
    assert_eq!(cache.get(65), None);
    cache.insert(64, vec![4]);
    assert_eq!(cache.get(64), Some(vec![4]));
}

#[test]
fn paths_have_their_routes() {
    assert!(matches!(route(None), Route::Asset(name) if name == "index.html"));
    assert!(matches!(route(Some("manifest.webmanifest")), Route::Manifest));
    assert!(matches!(route(Some("icon-64.png")), Route::Icon(64)));
    assert!(matches!(route(Some("icon-1.png")), Route::Asset(name) if name == "icon-1.png"));
    assert!(matches!(route(Some("a/b.js")), Route::Asset(name) if name == "a/b.js"));
}

#[test]
fn the_first_header_that_counts_wins() {
    assert_eq!(base_path(None, None, None), "/");
    assert_eq!(base_path(Some("/app"), Some("/b"), Some("path=/c")), "/app");
    assert_eq!(base_path(Some(""), Some("/b"), Some("path=/c")), "/b");
    assert_eq!(base_path(None, Some(""), Some("for=1.2.3.4; path=\"/c/\"")), "/c");
    assert_eq!(base_path(None, None, Some("for=1.2.3.4")), "/");
    assert_eq!(base_path(None, None, Some("path=/one;path=/two")), "/one");
}

#[test]
fn mounts_are_normal() {
    assert_eq!(base_path(Some("app"), None, None), "/app");
    assert_eq!(base_path(Some("  /app//  "), None, None), "/app");
    assert_eq!(base_path(Some("///"), None, None), "/");
    assert_eq!(base_path(Some(" "), None, None), "/");
    assert_eq!(base_path(Some("\u{2003}/app/"), None, None), "/app");
}

#[test]
fn the_manifest_is_rebased() {
    let made = manifest(Some(b"{\"name\":\"Webshooter\",\"scope\":\"old\"}"), "/app");
    assert_eq!(
        String::from_utf8(made).unwrap(),
        "{\"name\":\"Webshooter\",\"scope\":\"/app/\",\"start_url\":\"/app/\"}"
    );
    let root = "{\"scope\":\"/\",\"start_url\":\"/\"}";
    let base = base_path(None, None, None);
    assert_eq!(String::from_utf8(manifest(None, &base)).unwrap(), root);
    let expected = "{\"scope\":\"/a\\\"b/\",\"start_url\":\"/a\\\"b/\"}";
    assert_eq!(String::from_utf8(manifest(None, "/a\"b")).unwrap(), expected);
    assert_eq!(String::from_utf8(manifest(Some(b"[1]"), "/a\"b")).unwrap(), expected);
    assert_eq!(String::from_utf8(manifest(Some(b"no json"), "/a\"b")).unwrap(), expected);
}

#[test]
fn manifests_are_made_of_what_was_read() {
    let mut object = serde_json::Map::new();
    object.insert("name".to_string(), serde_json::Value::Bool(true));
    object.insert("start_url".to_string(), serde_json::Value::Null);
    let made = manifest_object(Some(Ok(Some(object))), "/a");
    assert_eq!(made.len(), 3);
    assert_eq!(made["name"], serde_json::Value::Bool(true));
    assert_eq!(made["start_url"].as_str(), Some("/a/"));
    assert_eq!(made["scope"].as_str(), Some("/a/"));
    let fault = serde_json::from_str::<serde_json::Value>("{").unwrap_err();
    for read in [None, Some(Ok(None)), Some(Err(fault))] {
        let made = manifest_object(read, "/");
        assert_eq!(made.len(), 2);
        assert_eq!(made["start_url"].as_str(), Some("/"));
        assert_eq!(made["scope"].as_str(), Some("/"));
    }
    let made = manifest(None, "/\u{1}\u{8}\t\n\u{c}\r\u{1f}\u{7f}\\\"\u{e9}");
    let quoted = "\"/\\u0001\\b\\t\\n\\f\\r\\u001f\u{7f}\\\\\\\"\u{e9}/\"";
    assert_eq!(
        String::from_utf8(made).unwrap(),
        format!("{{\"scope\":{quoted},\"start_url\":{quoted}}}")
    );
}
