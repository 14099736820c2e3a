//! Tests for the session controller's decisions: initial-language
//! resolution, the text-direction policy, the switch protocol, and the
//! cookie and header helpers used by server-rendered sessions.

use i18nrs::session::{
    change_language, initialize_session, is_rtl_language, resolve_initial_language,
    text_direction, Direction, I18nProviderConfig, SessionChange, SessionInit,
};
use i18nrs::cookie::{accept_language_first, cookie_header_value, find_cookie_value, trim_header};
use i18nrs::StorageType;

fn raw(entries: &[(&str, &str)]) -> Vec<(String, String)> {
    entries.iter().map(|(k, v)| (k.to_string(), v.to_string())).collect()
}

fn provider_config(entries: &[(&str, &str)], default_language: &str) -> I18nProviderConfig {
    I18nProviderConfig {
        translations: raw(entries),
        storage_type: StorageType::LocalStorage,
        storage_name: "i18nrs".to_string(),
        default_language: default_language.to_string(),
    }
}

#[test]
fn rtl_languages_are_the_fixed_set() {
    for lang in ["ar", "he", "fa", "ur", "ps", "ku", "sd"] {
        assert!(is_rtl_language(lang), "{lang} should be right-to-left");
        assert_eq!(text_direction(lang), Direction::Rtl);
    }
    for lang in ["en", "fr", "de", "AR", "arabic", ""] {
        assert!(!is_rtl_language(lang), "{lang} should be left-to-right");
        assert_eq!(text_direction(lang), Direction::Ltr);
    }
}

#[test]
fn stored_language_wins_over_default() {
    assert_eq!(resolve_initial_language(Some("fr".to_string()), "en"), "fr");
    assert_eq!(resolve_initial_language(None, "en"), "en");
}

#[test]
fn provider_defaults_match_the_documented_ones() {
    let config = I18nProviderConfig::default();
    assert!(config.translations.is_empty());
    assert_eq!(config.storage_type, StorageType::LocalStorage);
    assert_eq!(config.storage_name, "i18nrs");
    assert_eq!(config.default_language, "en");
    assert_eq!(StorageType::default(), StorageType::LocalStorage);
}

#[test]
fn initialize_without_stored_language_uses_default() {
    let config = provider_config(
        &[("en", r#"{"greeting":"Hello"}"#), ("fr", r#"{"greeting":"Bonjour"}"#)],
        "en",
    );
    match initialize_session(config, None) {
        SessionInit::Ready { i18n, direction, warning } => {
            assert_eq!(i18n.get_current_language(), "en");
            assert_eq!(direction, Direction::Ltr);
            assert_eq!(warning, None);
            assert_eq!(i18n.t("greeting"), "Hello");
        }
        SessionInit::Failed { .. } => panic!("construction should succeed"),
    }
}

#[test]
fn initialize_with_stored_language_applies_it() {
    let config = provider_config(
        &[("en", r#"{"greeting":"Hello"}"#), ("fr", r#"{"greeting":"Bonjour"}"#)],
        "en",
    );
    match initialize_session(config, Some("fr".to_string())) {
        SessionInit::Ready { i18n, direction, warning } => {
            assert_eq!(i18n.get_current_language(), "fr");
            assert_eq!(direction, Direction::Ltr);
            assert_eq!(warning, None);
        }
        SessionInit::Failed { .. } => panic!("construction should succeed"),
    }
}

#[test]
fn initialize_with_unknown_language_warns_and_keeps_fallback() {
    let config = provider_config(&[("en", r#"{}"#), ("fr", r#"{}"#)], "en");
    match initialize_session(config, Some("de".to_string())) {
        SessionInit::Ready { i18n, direction, warning } => {
            assert_eq!(i18n.get_current_language(), "en");
            assert_eq!(direction, Direction::Ltr);
            assert_eq!(warning, Some("Language 'de' is not supported".to_string()));
        }
        SessionInit::Failed { .. } => panic!("construction should succeed"),
    }
}

#[test]
fn initialize_applies_rtl_direction_for_stored_arabic() {
    let config = provider_config(&[("en", r#"{}"#), ("ar", r#"{}"#)], "en");
    match initialize_session(config, Some("ar".to_string())) {
        SessionInit::Ready { i18n, direction, warning } => {
            assert_eq!(i18n.get_current_language(), "ar");
            assert_eq!(direction, Direction::Rtl);
            assert_eq!(warning, None);
        }
        SessionInit::Failed { .. } => panic!("construction should succeed"),
    }
}

#[test]
fn initialize_fails_terminally_on_bad_payload() {
    let config = provider_config(&[("en", r#"{}"#), ("fr", "not json")], "en");
    match initialize_session(config, None) {
        SessionInit::Ready { .. } => panic!("construction must fail"),
        SessionInit::Failed { direction, error } => {
            assert_eq!(direction, Direction::Ltr);
            assert!(error.starts_with("Invalid JSON for language fr: "));
        }
    }
}

#[test]
fn initialize_fails_terminally_on_empty_set() {
    let config = provider_config(&[], "en");
    match initialize_session(config, None) {
        SessionInit::Ready { .. } => panic!("construction must fail"),
        SessionInit::Failed { error, .. } => {
            assert_eq!(error, "You must add at least one supported language");
        }
    }
}

#[test]
fn accepted_change_reports_and_persists_the_code() {
    let config = provider_config(
        &[("en", r#"{"greeting":"Hello"}"#), ("ar", r#"{"greeting":"Marhaban"}"#)],
        "en",
    );
    let i18n = match initialize_session(config, None) {
        SessionInit::Ready { i18n, .. } => i18n,
        SessionInit::Failed { .. } => panic!("construction should succeed"),
    };
    match change_language(i18n, &StorageType::LocalStorage, "i18nrs", "ar") {
        SessionChange::Accepted { i18n, direction, notify, persist_key, persist_value } => {
            assert_eq!(i18n.get_current_language(), "ar");
            assert_eq!(i18n.t("greeting"), "Marhaban");
            assert_eq!(direction, Direction::Rtl);
            assert_eq!(notify, "ar");
            assert_eq!(persist_key, "i18nrs");
            assert_eq!(persist_value, "ar");
        }
        SessionChange::Rejected { .. } => panic!("ar is supported"),
    }
}

#[test]
fn rejected_change_hands_the_resolver_back_unchanged() {
    let config = provider_config(&[("en", r#"{"greeting":"Hello"}"#)], "en");
    let i18n = match initialize_session(config, None) {
        SessionInit::Ready { i18n, .. } => i18n,
        SessionInit::Failed { .. } => panic!("construction should succeed"),
    };
    match change_language(i18n, &StorageType::SessionStorage, "i18nrs", "de") {
        SessionChange::Accepted { .. } => panic!("de is not supported"),
        SessionChange::Rejected { i18n, direction } => {
            assert_eq!(i18n.get_current_language(), "en");
            assert_eq!(i18n.t("greeting"), "Hello");
            assert_eq!(direction, Direction::Ltr);
        }
    }
}

#[test]
fn cookie_lookup_finds_the_named_entry() {
    assert_eq!(
        find_cookie_value("a=1; i18nrs=fr; b=2", "i18nrs"),
        Some("fr".to_string())
    );
    assert_eq!(find_cookie_value("i18nrs=ar", "i18nrs"), Some("ar".to_string()));
    assert_eq!(find_cookie_value("a=1; b=2", "i18nrs"), None);
    assert_eq!(find_cookie_value("", "i18nrs"), None);
    assert_eq!(find_cookie_value("i18nrs=", "i18nrs"), Some("".to_string()));
    assert_eq!(
        find_cookie_value("x=1;  i18nrs=de ;y=2", "i18nrs"),
        Some("de".to_string())
    );
    assert_eq!(find_cookie_value("xi18nrs=fr", "i18nrs"), None);
}

#[test]
fn first_matching_cookie_entry_wins() {
    assert_eq!(
        find_cookie_value("i18nrs=fr; i18nrs=en", "i18nrs"),
        Some("fr".to_string())
    );
}

#[test]
fn accept_language_takes_the_first_tag() {
    assert_eq!(accept_language_first("fr-CH, fr;q=0.9, en;q=0.8"), "fr-CH");
    assert_eq!(accept_language_first("en"), "en");
    assert_eq!(accept_language_first(" de , en"), "de");
    assert_eq!(accept_language_first(""), "");
}

#[test]
fn cookie_header_value_has_the_fixed_attributes() {
    assert_eq!(
        cookie_header_value("i18nrs", "fr"),
        "i18nrs=fr; Path=/; SameSite=Lax; Max-Age=31536000"
    );
}

#[test]
fn trim_header_strips_spaces_and_tabs() {
    assert_eq!(trim_header("  fr \t"), "fr");
    assert_eq!(trim_header("fr"), "fr");
    assert_eq!(trim_header(" \t "), "");
    assert_eq!(trim_header("a b"), "a b");
}
