use moondream_launcher::json::{parse_settings, render_settings};
use moondream_launcher::settings::{AiSettings, AppSettings, MigrationSettings, StorageSettings};

fn full_record() -> AppSettings {
    AppSettings {
        storage: Some(StorageSettings {
            mode: Some(String::from("icloud")),
            icloud_path: Some(String::from("/cloud/Moondream")),
            migration: Some(MigrationSettings {
                from: String::from("/old/data"),
                to: String::from("/new/data"),
                requested_at: Some(String::from("2024-01-01T00:00:00Z")),
            }),
        }),
        ai: Some(AiSettings {
            provider: Some(String::from("local_station")),
            endpoint: Some(String::from("http://127.0.0.1:2020")),
        }),
    }
}

#[test]
fn load_save_load_full_record() {
    let s = full_record();
    let text = render_settings(&s);
    let s2 = parse_settings(&text);
    assert_eq!(s2, s);
    let text2 = render_settings(&s2);
    let s3 = parse_settings(&text2);
    assert_eq!(s3, s2);
}

#[test]
fn load_save_load_default_record() {
    let s = AppSettings { storage: None, ai: None };
    let s2 = parse_settings(&render_settings(&s));
    assert_eq!(s2, s);
}

#[test]
fn load_save_load_partial_records() {
    let cases = vec![
        AppSettings {
            storage: Some(StorageSettings { mode: None, icloud_path: None, migration: None }),
            ai: None,
        },
        AppSettings {
            storage: Some(StorageSettings {
                mode: Some(String::from("local")),
                icloud_path: None,
                migration: Some(MigrationSettings {
                    from: String::from("/a"),
                    to: String::from("/b"),
                    requested_at: None,
                }),
            }),
            ai: Some(AiSettings { provider: None, endpoint: None }),
        },
    ];
    for s in cases {
        let s2 = parse_settings(&render_settings(&s));
        assert_eq!(s2, s);
    }
}

#[test]
fn round_trip_with_escaped_characters() {
    // a path holding a quote and a backslash is escaped on save and
    // unescaped on load (this exercises the tolerant reader)
    let s = AppSettings {
        storage: Some(StorageSettings {
            mode: Some(String::from("local")),
            icloud_path: Some(String::from("C:\\Users\\\"x\"\\Moondream")),
            migration: None,
        }),
        ai: None,
    };
    let text = render_settings(&s);
    let s2 = parse_settings(&text);
    assert_eq!(s2, s);
}

#[test]
fn control_characters_are_escaped_and_read_back() {
    let s = AppSettings {
        storage: Some(StorageSettings {
            mode: None,
            icloud_path: Some(String::from("line1\nline2\ttab")),
            migration: None,
        }),
        ai: None,
    };
    let text = render_settings(&s);
    // the rendered file is valid JSON: no raw control characters
    assert!(!text.contains('\n') || !text.contains("line1\nline2"));
    assert!(text.contains("line1\\u000aline2\\u0009tab"));
    let s2 = parse_settings(&text);
    assert_eq!(s2, s);
}

#[test]
fn unicode_escapes_are_decoded() {
    let text = "{\"ai\": {\"provider\": \"\\u0041\\u00e9\\u4e2d\", \"endpoint\": \"a\\bb\\fc\"}}";
    let s = parse_settings(text);
    let ai = s.ai.expect("ai parsed");
    assert_eq!(ai.provider.as_deref(), Some("A\u{e9}\u{4e2d}"));
    assert_eq!(ai.endpoint.as_deref(), Some("a\u{8}b\u{c}c"));
}

#[test]
fn lone_surrogate_escape_is_malformed() {
    let text = "{\"ai\": {\"provider\": \"\\ud800\"}}";
    let s = parse_settings(text);
    assert!(s.ai.is_none());
    assert!(s.storage.is_none());
}

#[test]
fn rendered_shape_is_pretty_json() {
    let s = AppSettings { storage: None, ai: None };
    let text = render_settings(&s);
    assert_eq!(text, "{\n  \"storage\": null,\n  \"ai\": null\n}");
}

#[test]
fn rendered_shape_with_migration() {
    let s = AppSettings {
        storage: Some(StorageSettings {
            mode: Some(String::from("local")),
            icloud_path: None,
            migration: Some(MigrationSettings {
                from: String::from("/a"),
                to: String::from("/b"),
                requested_at: None,
            }),
        }),
        ai: None,
    };
    let expected = "{\n  \"storage\": {\n    \"mode\": \"local\",\n    \"icloudPath\": null,\n    \"migration\": {\n      \"from\": \"/a\",\n      \"to\": \"/b\",\n      \"requestedAt\": null\n    }\n  },\n  \"ai\": null\n}";
    assert_eq!(render_settings(&s), expected);
}

#[test]
fn parse_tolerates_reordered_and_unknown_members() {
    let text = "{ \"junk\": [1, 2, {\"x\": true}], \"ai\": {\"endpoint\": \"http://h:1\"},\n  \"storage\": {\"icloud_path\": \"/cloud\", \"mode\": \"icloud\", \"extra\": null} }";
    let s = parse_settings(text);
    let storage = s.storage.expect("storage parsed");
    assert_eq!(storage.mode.as_deref(), Some("icloud"));
    assert_eq!(storage.icloud_path.as_deref(), Some("/cloud"));
    assert!(storage.migration.is_none());
    let ai = s.ai.expect("ai parsed");
    assert_eq!(ai.endpoint.as_deref(), Some("http://h:1"));
    assert!(ai.provider.is_none());
}

#[test]
fn parse_accepts_requested_at_alias() {
    let text = "{\"storage\": {\"migration\": {\"from\": \"/a\", \"to\": \"/b\", \"requested_at\": \"now\"}}}";
    let s = parse_settings(text);
    let m = s.storage.unwrap().migration.unwrap();
    assert_eq!(m.from, "/a");
    assert_eq!(m.to, "/b");
    assert_eq!(m.requested_at.as_deref(), Some("now"));
}

#[test]
fn parse_malformed_yields_default() {
    for text in ["", "not json", "{\"storage\": ", "[1,2,3]", "{\"storage\": 7}"] {
        let s = parse_settings(text);
        assert!(s.storage.is_none());
        assert!(s.ai.is_none());
    }
}

#[test]
fn empty_object_is_the_default_record() {
    for text in ["{}", "  {\n\t}  ", "{ } trailing"] {
        let s = parse_settings(text);
        assert!(s.storage.is_none());
        assert!(s.ai.is_none());
    }
}

#[test]
fn parse_migration_without_source_is_malformed() {
    // a request needs both endpoints; anything else is a corrupt file and
    // yields the default record
    let text = "{\"storage\": {\"migration\": {\"to\": \"/b\"}}}";
    let s = parse_settings(text);
    assert!(s.storage.is_none());
}
