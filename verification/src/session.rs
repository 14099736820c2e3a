//! The session controller's decisions: resolving the initial language,
//! the text-direction policy, and the language-switch protocol. Each
//! function turns the state and an event into the next state and the
//! actions the surrounding application must perform (apply a direction,
//! publish a resolver, invoke a callback, persist a value); the
//! application performs them and hands the next event back.

use vstd::prelude::*;
use vstd::string::StringExecFns;
use crate::config::{
    I18n, I18nConfig, StorageType, construction_ok, empty_set_message, first_invalid,
    invalid_payload_message, raw_keys, unsupported_message,
};
use crate::text::str_eq;

verus! {

/// The document text direction applied for a language.
#[derive(Debug, Clone, Copy, PartialEq, Eq, Structural)]
pub enum Direction {
    /// Left-to-right text.
    Ltr,
    /// Right-to-left text.
    Rtl,
}

/// The fixed closed set of right-to-left language codes.
pub open spec fn is_rtl_spec(code: Seq<char>) -> bool {
    ||| code == "ar"@
    ||| code == "he"@
    ||| code == "fa"@
    ||| code == "ur"@
    ||| code == "ps"@
    ||| code == "ku"@
    ||| code == "sd"@
}

/// Whether `lang` is written right-to-left.
pub fn is_rtl_language(lang: &str) -> (r: bool)
    ensures
        r == is_rtl_spec(lang@),
{
    str_eq(lang, "ar") || str_eq(lang, "he") || str_eq(lang, "fa") || str_eq(lang, "ur") || str_eq(
        lang,
        "ps",
    ) || str_eq(lang, "ku") || str_eq(lang, "sd")
}

/// The direction the side-effect hook applies for `code`.
pub open spec fn direction_spec(code: Seq<char>) -> Direction {
    if is_rtl_spec(code) {
        Direction::Rtl
    } else {
        Direction::Ltr
    }
}

/// Executable form of `direction_spec`.
pub fn text_direction(lang: &str) -> (d: Direction)
    ensures
        d == direction_spec(lang@),
{
    if is_rtl_language(lang) {
        Direction::Rtl
    } else {
        Direction::Ltr
    }
}

/// What a provider mount needs: the raw translations, where to persist the
/// selected language, and the language used when nothing is persisted.
#[derive(Debug, Clone, PartialEq)]
pub struct I18nProviderConfig {
    /// Language codes paired with raw JSON translation payloads.
    pub translations: Vec<(String, String)>,
    /// Which browser store persists the selected language.
    pub storage_type: StorageType,
    /// The key for storing the selected language.
    pub storage_name: String,
    /// The language used when storage holds none.
    pub default_language: String,
}

impl Default for I18nProviderConfig {
    fn default() -> (r: Self)
        ensures
            r.translations@.len() == 0,
            r.storage_type == StorageType::LocalStorage,
            r.storage_name@ == "i18nrs"@,
            r.default_language@ == "en"@,
    {
        I18nProviderConfig {
            translations: Vec::new(),
            storage_type: StorageType::LocalStorage,
            storage_name: String::from_str("i18nrs"),
            default_language: String::from_str("en"),
        }
    }
}

/// The initial language: what storage held, or the configured default when
/// storage held nothing.
pub fn resolve_initial_language(stored: Option<String>, default_language: &str) -> (r: String)
    ensures
        r@ == match stored {
            Some(s) => s@,
            None => default_language@,
        },
{
    match stored {
        Some(s) => s,
        None => default_language.to_owned(),
    }
}

/// The outcome of mounting a provider.
pub enum SessionInit {
    /// The session is ready: the resolver to publish, the direction applied
    /// for the initial language, and the error reported when that language
    /// is not in the translation set (the resolver then keeps its fallback
    /// language).
    Ready { i18n: I18n, direction: Direction, warning: Option<String> },
    /// Construction failed; the error is reported and the dependent subtree
    /// cannot render.
    Failed { direction: Direction, error: String },
}

/// Duplicates a raw translations vector.
fn clone_raw(v: &Vec<(String, String)>) -> (r: Vec<(String, String)>)
    ensures
        r@ == v@,
{
    let mut r: Vec<(String, String)> = Vec::new();
    let mut i: usize = 0;
    while i < v.len()
        invariant
            0 <= i <= v@.len(),
            r@.len() == i,
            forall|j: int| 0 <= j < i ==> r@[j] == v@[j],
        decreases v@.len() - i,
    {
        r.push((v[i].0.clone(), v[i].1.clone()));
        i += 1;
    }
    proof {
        assert(r@ =~= v@);
    }
    r
}

/// Mounts a session: reads nothing itself, but takes what the surrounding
/// application read from storage, applies the direction for the initial
/// language before validation, constructs the resolver, and applies the
/// initial language to it. A construction failure is terminal; an initial
/// language outside the set is only reported, and the resolver keeps its
/// fallback language.
pub fn initialize_session(config: I18nProviderConfig, stored: Option<String>) -> (r: SessionInit)
    requires
        raw_keys(config.translations@).no_duplicates(),
    ensures
        ({
            let initial = match stored {
                Some(s) => s@,
                None => config.default_language@,
            };
            &&& (r is Ready <==> construction_ok(config.translations@))
            &&& (r matches SessionInit::Ready { i18n, direction, warning } ==> {
                &&& i18n.wf()
                &&& direction == direction_spec(initial)
                &&& i18n.language_codes() == raw_keys(config.translations@)
                &&& (forall|i: int|
                    0 <= i < config.translations@.len() ==> i18n.tree_for(
                        (#[trigger] config.translations@[i]).0@,
                    ) == Some(crate::parse::json_tree(config.translations@[i].1@)->Ok_0))
                &&& (i18n.supported(initial) ==> i18n.current() == initial && warning is None)
                &&& (!i18n.supported(initial) ==> i18n.current() == config.translations@[0].0@
                    && warning is Some && warning->Some_0@ == unsupported_message(initial))
            })
            &&& (r matches SessionInit::Failed { direction, error } ==> {
                &&& direction == direction_spec(initial)
                &&& (config.translations@.len() == 0 ==> error@ == empty_set_message())
                &&& (config.translations@.len() > 0 ==> (first_invalid(
                    config.translations@,
                ) matches Some(fi) && error@ == invalid_payload_message(fi.0, fi.1)))
            })
        }),
{
    let I18nProviderConfig { translations, storage_type, storage_name, default_language } = config;
    let initial = resolve_initial_language(stored, default_language.as_str());
    let direction = text_direction(initial.as_str());
    let raws = clone_raw(&translations);
    match I18n::new(I18nConfig { translations: raws }, translations) {
        Ok(mut i18n) => {
            match i18n.set_translation_language(
                initial.as_str(),
                &storage_type,
                storage_name.as_str(),
            ) {
                Ok(_) => SessionInit::Ready { i18n, direction, warning: None },
                Err(e) => SessionInit::Ready { i18n, direction, warning: Some(e) },
            }
        },
        Err(e) => SessionInit::Failed { direction, error: e },
    }
}

/// The outcome of a language-switch request.
pub enum SessionChange {
    /// The switch was validated: the resolver to publish, the direction
    /// applied, the code to report through the change callback, and the
    /// key and value to persist best-effort.
    Accepted {
        i18n: I18n,
        direction: Direction,
        notify: String,
        persist_key: String,
        persist_value: String,
    },
    /// The switch named an unknown language: the resolver is handed back
    /// unchanged, nothing is published, reported or persisted, and no error
    /// is raised; the direction was still applied before validation.
    Rejected { i18n: I18n, direction: Direction },
}

/// Requests a language switch on the current resolver snapshot. The
/// direction is applied optimistically, before validation; everything else
/// happens only when the language is in the set.
pub fn change_language(
    i18n: I18n,
    storage_type: &StorageType,
    storage_name: &str,
    code: &str,
) -> (r: SessionChange)
    requires
        i18n.wf(),
    ensures
        r is Accepted <==> i18n.supported(code@),
        r matches SessionChange::Accepted { i18n: next, direction, notify, persist_key, persist_value } ==> {
            &&& next.wf()
            &&& next.config == i18n.config
            &&& next.entries() == i18n.entries()
            &&& next.current() == code@
            &&& direction == direction_spec(code@)
            &&& notify@ == code@
            &&& persist_key@ == storage_name@
            &&& persist_value@ == code@
        },
        r matches SessionChange::Rejected { i18n: prior, direction } ==> prior == i18n && direction
            == direction_spec(code@),
{
    let direction = text_direction(code);
    let mut next = i18n;
    match next.set_translation_language(code, storage_type, storage_name) {
        Ok(_) => SessionChange::Accepted {
            i18n: next,
            direction,
            notify: code.to_owned(),
            persist_key: storage_name.to_owned(),
            persist_value: code.to_owned(),
        },
        Err(_) => SessionChange::Rejected { i18n: next, direction },
    }
}

} // verus!
