use bollwark::api::assets::{hashed_assets, unavailable, WidgetBundle, ASSET_BASE_PLACEHOLDER,
    ASSET_MOUNT, ENTRY_CACHE_CONTROL, IMMUTABLE_CACHE_CONTROL, LEGACY_CACHE_CONTROL};
use bollwark::api::cors::{allowed_origins, parse_origins};
use sha2::Digest;

const WIDGET: &str = "const base = '__BOLLWARK_ASSET_BASE__';\nload(base + '/captcha-worker.js');\n";

/// The widget's files as a deployment ships them.
fn files() -> Vec<Option<Vec<u8>>> {
    vec![
        Some(WIDGET.as_bytes().to_vec()),
        Some(b"self.onmessage = solve;".to_vec()),
        Some(b".captcha { display: block }".to_vec()),
        Some(b"!function(){}();".to_vec()),
    ]
}

fn bundle() -> WidgetBundle {
    WidgetBundle::load(&files(), &Some(WIDGET.to_string())).expect("bundle should load")
}

#[test]
fn loads_the_repo_bundle() {
    let bundle = bundle();
    assert_eq!(bundle.version.len(), 16, "8 bytes hex-encoded");
    assert!(bundle.version.chars().all(|c| c.is_ascii_hexdigit()));
}

#[test]
fn entry_point_has_the_asset_base_substituted() {
    let bundle = bundle();
    assert!(
        !bundle.source.contains(ASSET_BASE_PLACEHOLDER),
        "placeholder must be rewritten in the served entry point"
    );
    assert!(bundle.source.contains(&bundle.mount_path()));
}

#[test]
fn version_is_deterministic() {
    assert_eq!(bundle().version, bundle().version);
}

#[test]
fn missing_static_dir_yields_no_bundle() {
    let none: Vec<Option<Vec<u8>>> = vec![None, None, None, None];
    assert!(WidgetBundle::load(&none, &None).is_none());
}

#[test]
fn one_missing_file_yields_no_bundle() {
    for i in 0..4 {
        let mut some = files();
        some[i] = None;
        assert!(WidgetBundle::load(&some, &Some(WIDGET.to_string())).is_none(), "{i}");
    }
    // Nor is there one when the widget itself is no text.
    assert!(WidgetBundle::load(&files(), &None).is_none());
}

#[test]
fn the_version_is_the_hash_of_names_lengths_and_contents() {
    let names = hashed_assets();
    assert_eq!(
        names,
        vec![
            "captcha-widget.js",
            "captcha-worker.js",
            "captcha-widget.css",
            "vendor/argon2.umd.min.js"
        ]
    );
    let mut bytes: Vec<u8> = Vec::new();
    for (name, content) in names.iter().zip(files()) {
        let content = content.unwrap();
        bytes.extend_from_slice(name.as_bytes());
        bytes.extend_from_slice(&(content.len() as u64).to_le_bytes());
        bytes.extend_from_slice(&content);
    }
    let digest = sha2::Sha256::digest(&bytes);
    assert_eq!(bundle().version, hex::encode(&digest[..8]));
}

#[test]
fn any_change_moves_the_bundle() {
    let mut changed = files();
    changed[2] = Some(b".captcha { display: none }".to_vec());
    let other = WidgetBundle::load(&changed, &Some(WIDGET.to_string())).unwrap();
    assert_ne!(other.version, bundle().version);
    // A byte that wanders from one file to the next is a change too.
    let a = WidgetBundle::of(&vec!["a", "b"], &vec![b"xy".to_vec(), b"z".to_vec()], "");
    let b = WidgetBundle::of(&vec!["a", "b"], &vec![b"x".to_vec(), b"yz".to_vec()], "");
    assert_ne!(a.version, b.version);
}

#[test]
fn every_placeholder_is_replaced() {
    let names = vec!["a"];
    let contents = vec![b"x".to_vec()];
    let p = ASSET_BASE_PLACEHOLDER;
    let b = WidgetBundle::of(&names, &contents, &format!("{p}{p}-_{p}"));
    let m = b.mount_path();
    assert_eq!(b.source, format!("{m}{m}-_{m}"));
    assert_eq!(m, format!("{ASSET_MOUNT}/{}", b.version));
    let untouched = WidgetBundle::of(&names, &contents, "__BOLLWARK_ASSET_BASE_");
    assert_eq!(untouched.source, "__BOLLWARK_ASSET_BASE_");
}

#[test]
fn the_entry_point_is_sent_with_a_short_life() {
    let b = bundle();
    let reply = b.respond();
    assert_eq!(reply.content_type, "text/javascript; charset=utf-8");
    assert_eq!(reply.cache_control, "public, max-age=300");
    assert_eq!(reply.body, b.source);
    assert_eq!(ENTRY_CACHE_CONTROL, LEGACY_CACHE_CONTROL);
    assert_eq!(IMMUTABLE_CACHE_CONTROL, "public, max-age=31536000, immutable");
    assert_eq!(unavailable(), (503, "widget assets unavailable; check STATIC_DIR"));
}

#[test]
fn origins_are_listed_with_commas_or_white_space() {
    assert_eq!(
        parse_origins("https://a.example, https://b.example\n https://c.example,"),
        vec!["https://a.example", "https://b.example", "https://c.example"]
    );
    assert!(parse_origins(" ,, \t").is_empty());
    // What cannot stand in a header is left out.
    assert_eq!(parse_origins("https://a\u{7f}b, https://ok"), vec!["https://ok"]);
    assert_eq!(parse_origins("https://bücher.example"), vec!["https://bücher.example"]);
}

#[test]
fn what_may_be_sent_agrees_with_the_header_type() {
    for text in ["https://a", "a\u{1}b", "a\u{7f}", "ä", "~"] {
        let sendable = !parse_origins(text).is_empty();
        assert_eq!(sendable, axum::http::HeaderValue::from_str(text).is_ok(), "{text:?}");
    }
}

#[test]
fn any_origin_may_ask_until_some_are_listed() {
    assert!(allowed_origins(&None).is_none());
    assert_eq!(allowed_origins(&Some(" , ".to_string())), Some(Vec::new()));
    assert_eq!(allowed_origins(&Some("https://a\u{7f}b".to_string())), Some(Vec::new()));
    assert_eq!(
        allowed_origins(&Some("https://a".to_string())),
        Some(vec!["https://a".to_string()])
    );
}
