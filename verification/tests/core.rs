//! Tests for the translation resolver: construction, language switching,
//! lookup with fallback, and the textual rendering of non-leaf nodes.

use i18nrs::{I18n, I18nConfig, StorageType};

fn raw(entries: &[(&str, &str)]) -> Vec<(String, String)> {
    entries.iter().map(|(k, v)| (k.to_string(), v.to_string())).collect()
}

fn make(entries: &[(&str, &str)]) -> I18n {
    let translations = raw(entries);
    let config = I18nConfig { translations: translations.clone() };
    I18n::new(config, translations).expect("construction should succeed")
}

#[test]
fn scenario_basic_lookup_and_switch() {
    let mut i18n = make(&[
        ("en", r#"{"greeting":"Hello"}"#),
        ("fr", r#"{"greeting":"Bonjour"}"#),
    ]);
    assert_eq!(i18n.get_current_language(), "en");
    assert_eq!(i18n.t("greeting"), "Hello");
    let r = i18n.set_translation_language("fr", &StorageType::LocalStorage, "i18nrs");
    assert!(r.is_ok());
    assert_eq!(i18n.get_current_language(), "fr");
    assert_eq!(i18n.t("greeting"), "Bonjour");
}

#[test]
fn scenario_unsupported_switch_keeps_state() {
    let mut i18n = make(&[
        ("en", r#"{"greeting":"Hello"}"#),
        ("fr", r#"{"greeting":"Bonjour"}"#),
    ]);
    i18n.set_translation_language("fr", &StorageType::LocalStorage, "i18nrs")
        .expect("fr is supported");
    let r = i18n.set_translation_language("de", &StorageType::SessionStorage, "i18nrs");
    assert_eq!(r, Err("Language 'de' is not supported".to_string()));
    assert_eq!(i18n.get_current_language(), "fr");
    assert_eq!(i18n.t("greeting"), "Bonjour");
}

#[test]
fn scenario_fallback_to_first_language() {
    let mut i18n = make(&[("en", r#"{"a":{"b":"X"}}"#), ("fr", r#"{}"#)]);
    i18n.set_translation_language("fr", &StorageType::LocalStorage, "i18nrs")
        .expect("fr is supported");
    assert_eq!(i18n.t("a.b"), "X");
}

#[test]
fn scenario_invalid_payload_rejects_whole_batch() {
    let translations = raw(&[("en", r#"{}"#), ("fr", r#"{"broken""#)]);
    let config = I18nConfig { translations: translations.clone() };
    let r = I18n::new(config, translations);
    let msg = r.expect_err("construction must fail");
    assert!(msg.starts_with("Invalid JSON for language fr: "));
}

#[test]
fn scenario_missing_key_placeholder() {
    let i18n = make(&[("en", r#"{"greeting":"Hello"}"#)]);
    assert_eq!(
        i18n.t("missing.key"),
        "Key 'missing.key' not found for language 'en'"
    );
}

#[test]
fn empty_language_set_is_rejected() {
    let r = I18n::new(I18nConfig { translations: vec![] }, vec![]);
    assert_eq!(
        r.err().map(|e| e.to_string()),
        Some("You must add at least one supported language".to_string())
    );
}

#[test]
fn first_invalid_language_is_reported() {
    let translations = raw(&[("aa", r#"{"#), ("bb", r#"also broken"#)]);
    let config = I18nConfig { translations: translations.clone() };
    let msg = I18n::new(config, translations).expect_err("both payloads are broken");
    assert!(msg.starts_with("Invalid JSON for language aa: "));
}

#[test]
fn nested_node_renders_as_json_style_text() {
    let i18n = make(&[("en", r#"{"a":{"b":"X"}}"#)]);
    assert_eq!(i18n.t("a"), r#"{"b":"X"}"#);
}

#[test]
fn nested_node_with_two_entries_renders_in_order() {
    let i18n = make(&[("en", r#"{"a":{"b":"X","c":"Y"}}"#)]);
    assert_eq!(i18n.t("a"), r#"{"b":"X","c":"Y"}"#);
}

#[test]
fn non_string_leaves_render_as_their_json_text() {
    let i18n = make(&[(
        "en",
        r#"{"n":5,"b":true,"z":null,"arr":[1,2],"deep":{"x":7}}"#,
    )]);
    assert_eq!(i18n.t("n"), "5");
    assert_eq!(i18n.t("b"), "true");
    assert_eq!(i18n.t("z"), "null");
    assert_eq!(i18n.t("arr"), "[1,2]");
    assert_eq!(i18n.t("deep.x"), "7");
}

#[test]
fn walking_through_a_leaf_falls_back() {
    // "a" is a leaf in the current language but a mapping in the fallback.
    let mut i18n = make(&[("en", r#"{"a":{"b":"X"}}"#), ("fr", r#"{"a":"flat"}"#)]);
    i18n.set_translation_language("fr", &StorageType::LocalStorage, "i18nrs")
        .expect("fr is supported");
    assert_eq!(i18n.t("a.b"), "X");
    assert_eq!(i18n.t("a"), "flat");
}

#[test]
fn current_language_prevails_over_fallback() {
    let mut i18n = make(&[
        ("en", r#"{"greeting":"Hello"}"#),
        ("fr", r#"{"greeting":"Bonjour"}"#),
    ]);
    i18n.set_translation_language("fr", &StorageType::LocalStorage, "i18nrs")
        .expect("fr is supported");
    assert_eq!(i18n.t("greeting"), "Bonjour");
}

#[test]
fn fallback_is_first_constructed_language() {
    let mut i18n = make(&[("fr", r#"{"only":"ici"}"#), ("en", r#"{}"#)]);
    i18n.set_translation_language("en", &StorageType::LocalStorage, "i18nrs")
        .expect("en is supported");
    assert_eq!(i18n.t("only"), "ici");
}

#[test]
fn empty_key_splits_to_one_empty_segment() {
    let i18n = make(&[("en", r#"{"":"blank"}"#)]);
    assert_eq!(i18n.t(""), "blank");
}

#[test]
fn dotted_edge_cases_follow_str_split() {
    let i18n = make(&[("en", r#"{"a":{"":{"b":"deep"}}}"#)]);
    assert_eq!(i18n.t("a..b"), "deep");
}

#[test]
fn switch_returns_ok_unit() {
    let mut i18n = make(&[("en", r#"{}"#), ("ar", r#"{}"#)]);
    assert_eq!(
        i18n.set_translation_language("ar", &StorageType::LocalStorage, "i18nrs"),
        Ok(())
    );
    assert_eq!(i18n.get_current_language(), "ar");
}

#[test]
fn config_is_kept_as_given() {
    let translations = raw(&[("en", r#"{"k":"v"}"#)]);
    let config = I18nConfig { translations: translations.clone() };
    let i18n = I18n::new(config.clone(), translations).expect("valid payload");
    assert_eq!(i18n.config, config);
}
