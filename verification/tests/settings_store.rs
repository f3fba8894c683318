//! Tests of the settings store: defaults, the canonical encoding, the
//! parser, and the load protocol.

use editor_host::codec::encode_settings;
use editor_host::parse::parse_settings;
use editor_host::settings::AutoSaveSettings;
use editor_host::settings::EditorSettings;
use editor_host::settings::default_settings;
use editor_host::store::LoadPlan;
use editor_host::store::SettingsError;
use editor_host::store::plan_load;

fn assert_settings_eq(a: &EditorSettings, b: &EditorSettings) {
    assert_eq!(a.font_size, b.font_size);
    assert_eq!(a.word_wrap_column, b.word_wrap_column);
    assert_eq!(a.background_color, b.background_color);
    assert_eq!(a.text_color, b.text_color);
    assert_eq!(a.font_family, b.font_family);
    assert_eq!(a.auto_save.enabled, b.auto_save.enabled);
    assert_eq!(a.auto_save.interval, b.auto_save.interval);
    assert_eq!(a.resizer_ratio, b.resizer_ratio);
}

fn sample_settings(resizer_ratio: Option<u32>) -> EditorSettings {
    EditorSettings {
        font_size: 11,
        word_wrap_column: 120,
        background_color: String::from("#123abc"),
        text_color: String::from("#000"),
        font_family: String::from("\"Quoted Font\", a\\b, serif"),
        auto_save: AutoSaveSettings { enabled: false, interval: 0 },
        resizer_ratio,
    }
}

#[test]
fn default_values_are_fixed() {
    let d = default_settings();
    assert_eq!(d.font_size, 16);
    assert_eq!(d.word_wrap_column, 60);
    assert_eq!(d.background_color, "#ffffff");
    assert_eq!(d.text_color, "#000000");
    assert_eq!(
        d.font_family,
        "\"UD デジタル 教科書体 N-R\", \"Hiragino Sans\", \"Yu Gothic UI\", \"Meiryo UI\", sans-serif"
    );
    assert!(d.auto_save.enabled);
    assert_eq!(d.auto_save.interval, 10);
    assert_eq!(d.resizer_ratio, Some(50));
}

#[test]
fn missing_file_yields_defaults_and_persists_them() {
    // A fresh environment has no stored document: the plan hands out the
    // fixed defaults and asks for their canonical form to be written.
    let plan = plan_load(None);
    match plan {
        LoadPlan::WriteDefaults { settings, encoded } => {
            assert_settings_eq(&settings, &default_settings());
            // What gets persisted reads back as the same document.
            match plan_load(Some(&encoded)) {
                LoadPlan::Ready(read_back) => assert_settings_eq(&read_back, &settings),
                _ => panic!("the persisted defaults must parse"),
            }
            assert_eq!(encoded, encode_settings(&default_settings()));
        }
        _ => panic!("a missing document must yield the defaults"),
    }
}

#[test]
fn round_trip_preserves_every_field() {
    for ratio in [None, Some(0), Some(50), Some(u32::MAX)] {
        let v = sample_settings(ratio);
        let text = encode_settings(&v);
        let parsed = parse_settings(&text).expect("the canonical form parses");
        assert_settings_eq(&parsed, &v);
    }
}

#[test]
fn round_trip_distinguishes_absent_from_zero_ratio() {
    let absent = encode_settings(&sample_settings(None));
    let zero = encode_settings(&sample_settings(Some(0)));
    assert_ne!(absent, zero);
    assert_eq!(parse_settings(&absent).unwrap().resizer_ratio, None);
    assert_eq!(parse_settings(&zero).unwrap().resizer_ratio, Some(0));
}

#[test]
fn corruption_is_surfaced_not_healed() {
    // A truncated document exists on disk: the plan reports ParseFailed and
    // does not ask for any write.
    let truncated = "{\n  \"fontSize\": 16,\n  \"wordWrap";
    match plan_load(Some(truncated)) {
        LoadPlan::Fail(SettingsError::ParseFailed(_)) => {}
        LoadPlan::WriteDefaults { .. } => panic!("a corrupt document must not be overwritten"),
        _ => panic!("a corrupt document must be reported as ParseFailed"),
    }
}

#[test]
fn encoding_matches_reference_pretty_printer() {
    // The canonical encoding is byte-for-byte the fixed pretty-printed
    // form: two-space indentation, fields in declaration order.
    let expected = "{\n  \"fontSize\": 16,\n  \"wordWrapColumn\": 60,\n  \"backgroundColor\": \"#ffffff\",\n  \"textColor\": \"#000000\",\n  \"fontFamily\": \"\\\"UD デジタル 教科書体 N-R\\\", \\\"Hiragino Sans\\\", \\\"Yu Gothic UI\\\", \\\"Meiryo UI\\\", sans-serif\",\n  \"autoSave\": {\n    \"enabled\": true,\n    \"interval\": 10\n  },\n  \"resizerRatio\": 50\n}";
    assert_eq!(encode_settings(&default_settings()), expected);
    // And serde_json reads it back as the same JSON value, field for field.
    let mut auto = serde_json::Map::new();
    auto.insert("enabled".to_string(), serde_json::Value::Bool(true));
    auto.insert(
        "interval".to_string(),
        serde_json::Value::Number(serde_json::Number::from(10u32)),
    );
    let mut doc = serde_json::Map::new();
    doc.insert(
        "fontSize".to_string(),
        serde_json::Value::Number(serde_json::Number::from(16u32)),
    );
    doc.insert(
        "wordWrapColumn".to_string(),
        serde_json::Value::Number(serde_json::Number::from(60u32)),
    );
    doc.insert(
        "backgroundColor".to_string(),
        serde_json::Value::String("#ffffff".to_string()),
    );
    doc.insert(
        "textColor".to_string(),
        serde_json::Value::String("#000000".to_string()),
    );
    doc.insert(
        "fontFamily".to_string(),
        serde_json::Value::String(
            "\"UD デジタル 教科書体 N-R\", \"Hiragino Sans\", \"Yu Gothic UI\", \"Meiryo UI\", sans-serif"
                .to_string(),
        ),
    );
    doc.insert("autoSave".to_string(), serde_json::Value::Object(auto));
    doc.insert(
        "resizerRatio".to_string(),
        serde_json::Value::Number(serde_json::Number::from(50u32)),
    );
    let parsed: serde_json::Value = serde_json::from_str(expected).unwrap();
    assert_eq!(parsed, serde_json::Value::Object(doc));
}

#[test]
fn encoding_is_readable_by_reference_parser() {
    let text = encode_settings(&sample_settings(Some(7)));
    let value: serde_json::Value = serde_json::from_str(&text).unwrap();
    assert_eq!(value["fontSize"], serde_json::Value::Number(serde_json::Number::from(11u32)));
    assert_eq!(value["fontFamily"], serde_json::Value::String("\"Quoted Font\", a\\b, serif".to_string()));
    assert_eq!(value["resizerRatio"], serde_json::Value::Number(serde_json::Number::from(7u32)));
}

#[test]
fn parser_accepts_reordered_and_unknown_members() {
    let text = r##"
        {
            "theme": { "flavor": ["dark", 3, null, -1.5e2], "nested": {} },
            "resizerRatio": null,
            "autoSave": { "interval": 30, "extra": true, "enabled": false },
            "fontFamily": "serif",
            "textColor": "#111111",
            "backgroundColor": "#222222",
            "wordWrapColumn": 99,
            "fontSize": 8
        }
    "##;
    let v = parse_settings(text).expect("reordered members parse");
    assert_eq!(v.font_size, 8);
    assert_eq!(v.word_wrap_column, 99);
    assert_eq!(v.background_color, "#222222");
    assert_eq!(v.text_color, "#111111");
    assert_eq!(v.font_family, "serif");
    assert!(!v.auto_save.enabled);
    assert_eq!(v.auto_save.interval, 30);
    assert_eq!(v.resizer_ratio, None);
}

#[test]
fn parser_decodes_string_escapes() {
    let text = "{\"fontSize\":1,\"wordWrapColumn\":2,\"backgroundColor\":\"\\u0041\\n\\t\\\"\\\\\\/\",\"textColor\":\"\\uD83D\\uDE00\",\"fontFamily\":\"\\u00e9\",\"autoSave\":{\"enabled\":true,\"interval\":3}}";
    let v = parse_settings(text).expect("escapes parse");
    assert_eq!(v.background_color, "A\n\t\"\\/");
    assert_eq!(v.text_color, "\u{1F600}");
    assert_eq!(v.font_family, "é");
    assert_eq!(v.resizer_ratio, None, "an absent ratio is unset");
}

#[test]
fn parser_round_trips_control_characters() {
    let mut v = sample_settings(None);
    v.background_color = String::from("a\u{1}b\u{1f}c");
    let text = encode_settings(&v);
    assert!(text.contains("\\u0001"));
    assert!(text.contains("\\u001f"));
    let parsed = parse_settings(&text).unwrap();
    assert_eq!(parsed.background_color, "a\u{1}b\u{1f}c");
}

#[test]
fn parser_rejects_invalid_documents() {
    let missing_field = r#"{"fontSize":1,"wordWrapColumn":2,"backgroundColor":"a","textColor":"b","fontFamily":"c"}"#;
    let duplicate = r#"{"fontSize":1,"fontSize":2,"wordWrapColumn":2,"backgroundColor":"a","textColor":"b","fontFamily":"c","autoSave":{"enabled":true,"interval":3}}"#;
    let wrong_type = r#"{"fontSize":"1","wordWrapColumn":2,"backgroundColor":"a","textColor":"b","fontFamily":"c","autoSave":{"enabled":true,"interval":3}}"#;
    let negative = r#"{"fontSize":-1,"wordWrapColumn":2,"backgroundColor":"a","textColor":"b","fontFamily":"c","autoSave":{"enabled":true,"interval":3}}"#;
    let fractional = r#"{"fontSize":1.5,"wordWrapColumn":2,"backgroundColor":"a","textColor":"b","fontFamily":"c","autoSave":{"enabled":true,"interval":3}}"#;
    let too_large = r#"{"fontSize":4294967296,"wordWrapColumn":2,"backgroundColor":"a","textColor":"b","fontFamily":"c","autoSave":{"enabled":true,"interval":3}}"#;
    let trailing = r#"{"fontSize":1,"wordWrapColumn":2,"backgroundColor":"a","textColor":"b","fontFamily":"c","autoSave":{"enabled":true,"interval":3}} x"#;
    let trailing_comma = r#"{"fontSize":1,"wordWrapColumn":2,"backgroundColor":"a","textColor":"b","fontFamily":"c","autoSave":{"enabled":true,"interval":3},}"#;
    let leading_zero = r#"{"fontSize":01,"wordWrapColumn":2,"backgroundColor":"a","textColor":"b","fontFamily":"c","autoSave":{"enabled":true,"interval":3}}"#;
    let lone_surrogate = r#"{"fontSize":1,"wordWrapColumn":2,"backgroundColor":"\uD800","textColor":"b","fontFamily":"c","autoSave":{"enabled":true,"interval":3}}"#;
    for text in [
        "",
        "   ",
        "null",
        "[]",
        "{}",
        "{",
        missing_field,
        duplicate,
        wrong_type,
        negative,
        fractional,
        too_large,
        trailing,
        trailing_comma,
        leading_zero,
        lone_surrogate,
    ] {
        assert!(parse_settings(text).is_err(), "must reject: {text:?}");
    }
}

#[test]
fn settings_file_name_is_fixed() {
    assert_eq!(editor_host::settings_file_name(), "settings.json");
}
