//! The translation resolver: the set of loaded per-language trees, the
//! active language, and key lookup with fallback to the first-constructed
//! language.

use vstd::prelude::*;
use vstd::string::{StrSliceExecFns, StringExecFns};
use crate::parse::{json_tree, parse_tree};
use crate::text::split_on;
use crate::text::split_str;
use crate::text::str_eq;
use crate::tree::TranslationTree;

verus! {

/// Configuration for the resolver, holding the raw translations: language
/// codes paired with the JSON text of each language's tree, in the order
/// they were supplied. That order decides the fallback language, so the
/// mapping is kept as an ordered sequence of pairs.
#[derive(Debug, Clone, PartialEq)]
pub struct I18nConfig {
    /// Language codes paired with raw JSON translation payloads.
    pub translations: Vec<(String, String)>,
}

/// Browser storage options for persisting the selected language. The core
/// never touches storage itself; the value only selects which store the
/// surrounding application writes to.
#[derive(Debug, Clone, PartialEq)]
pub enum StorageType {
    /// Persist in the browser's local storage.
    LocalStorage,
    /// Persist in the browser's session storage.
    SessionStorage,
}

impl Default for StorageType {
    fn default() -> (r: Self)
        ensures
            r == StorageType::LocalStorage,
    {
        StorageType::LocalStorage
    }
}

/// The message returned when construction receives no languages.
pub open spec fn empty_set_message() -> Seq<char> {
    "You must add at least one supported language"@
}

/// The message returned when one language's payload does not parse.
pub open spec fn invalid_payload_message(lang: Seq<char>, detail: Seq<char>) -> Seq<char> {
    "Invalid JSON for language "@ + lang + ": "@ + detail
}

/// The message returned when a switch names an unknown language.
pub open spec fn unsupported_message(lang: Seq<char>) -> Seq<char> {
    "Language '"@ + lang + "' is not supported"@
}

/// The placeholder returned when a key resolves nowhere: it names both the
/// missing key and the language that was active.
pub open spec fn missing_key_message(key: Seq<char>, lang: Seq<char>) -> Seq<char> {
    "Key '"@ + key + "' not found for language '"@ + lang + "'"@
}

/// The language codes of a raw translations sequence.
pub open spec fn raw_keys(raws: Seq<(String, String)>) -> Seq<Seq<char>> {
    raws.map_values(|e: (String, String)| e.0@)
}

/// The first payload at or after position `i` that the parser refuses, as
/// the pair (language code, parser message).
pub open spec fn first_invalid_from(raws: Seq<(String, String)>, i: int) -> Option<
    (Seq<char>, Seq<char>),
>
    decreases raws.len() - i,
{
    if i < 0 || i >= raws.len() {
        None
    } else {
        match json_tree(raws[i].1@) {
            Result::Err(detail) => Some((raws[i].0@, detail)),
            Result::Ok(_) => first_invalid_from(raws, i + 1),
        }
    }
}

/// The first payload the parser refuses, if any.
pub open spec fn first_invalid(raws: Seq<(String, String)>) -> Option<(Seq<char>, Seq<char>)> {
    first_invalid_from(raws, 0)
}

/// Construction succeeds exactly when at least one language is given and
/// every payload parses.
pub open spec fn construction_ok(raws: Seq<(String, String)>) -> bool {
    raws.len() > 0 && (forall|i: int|
        0 <= i < raws.len() ==> json_tree((#[trigger] raws[i]).1@) is Ok)
}

/// No payload is refused exactly when every payload parses.
pub proof fn lemma_first_invalid_none(raws: Seq<(String, String)>, i: int)
    requires
        0 <= i <= raws.len(),
    ensures
        (first_invalid_from(raws, i) is None) <==> (forall|j: int|
            i <= j < raws.len() ==> json_tree(#[trigger] raws[j].1@) is Ok),
    decreases raws.len() - i,
{
    if i < raws.len() {
        lemma_first_invalid_none(raws, i + 1);
    }
}

/// The state and methods for managing internationalization: the loaded
/// translation trees, the configuration they came from, and the current
/// language.
#[derive(Debug, Clone, PartialEq)]
pub struct I18n {
    /// The configuration the resolver was constructed from.
    pub config: I18nConfig,
    /// The current language code. Always one of the loaded codes when the
    /// resolver is well formed; mutated only through the validated switch.
    pub current_language: String,
    /// The loaded translation trees, one per language, in construction
    /// order. The first entry's code is the fallback language.
    pub translations: Vec<(String, TranslationTree)>,
}

impl I18n {
    /// The loaded entries: language codes paired with their trees, in
    /// construction order.
    pub open spec fn entries(self) -> Seq<(String, TranslationTree)> {
        self.translations@
    }

    /// The loaded language codes, in construction order.
    pub open spec fn language_codes(self) -> Seq<Seq<char>> {
        self.translations@.map_values(|e: (String, TranslationTree)| e.0@)
    }

    /// The current language code.
    pub open spec fn current(self) -> Seq<char> {
        self.current_language@
    }

    /// The fallback language: the first-constructed one.
    pub open spec fn fallback(self) -> Seq<char> {
        self.translations@[0].0@
    }

    /// Whether `code` names a loaded language.
    pub open spec fn supported(self, code: Seq<char>) -> bool {
        self.language_codes().contains(code)
    }

    /// The tree loaded for `code`, if any.
    pub open spec fn tree_for(self, code: Seq<char>) -> Option<TranslationTree> {
        TranslationTree::find_entry(self.translations@, code)
    }

    /// Well-formedness: at least one language, distinct codes, and a current
    /// language that is loaded. Constructors establish it and every method
    /// preserves it.
    pub open spec fn wf(self) -> bool {
        &&& self.translations@.len() > 0
        &&& self.language_codes().no_duplicates()
        &&& self.supported(self.current())
    }

    /// The node `key`'s dot-separated path leads to in the tree of `code`.
    pub open spec fn lookup_in(self, code: Seq<char>, key: Seq<char>) -> Option<TranslationTree> {
        match self.tree_for(code) {
            Some(tree) => tree.lookup(split_on(key, '.')),
            None => None,
        }
    }

    /// The node a translation request resolves to: the current language's
    /// tree first, then the fallback language's tree.
    pub open spec fn resolved_node(self, key: Seq<char>) -> Option<TranslationTree> {
        if self.lookup_in(self.current(), key) is Some {
            self.lookup_in(self.current(), key)
        } else {
            self.lookup_in(self.fallback(), key)
        }
    }

    /// What `t` returns: the resolved node's text, or the placeholder naming
    /// the key and the current language.
    pub open spec fn translate_spec(self, key: Seq<char>) -> Seq<char> {
        match self.resolved_node(key) {
            Some(node) => node.display_text(),
            None => missing_key_message(key, self.current()),
        }
    }

    /// Parses every payload, or reports the first one the parser refuses,
    /// naming the offending language and the parser's message.
    fn load_translations(translations: &Vec<(String, String)>) -> (r: Result<
        Vec<(String, TranslationTree)>,
        String,
    >)
        ensures
            r is Ok <==> first_invalid(translations@) is None,
            r matches Ok(loaded) ==> ({
                &&& loaded@.len() == translations@.len()
                &&& forall|i: int|
                    0 <= i < translations@.len() ==> (#[trigger] loaded@[i]).0@
                        == translations@[i].0@ && json_tree(translations@[i].1@) == Ok::<
                        TranslationTree,
                        Seq<char>,
                    >(loaded@[i].1)
            }),
            r matches Err(msg) ==> (first_invalid(translations@) matches Some(fi) && msg@
                == invalid_payload_message(fi.0, fi.1)),
    {
        let mut loaded: Vec<(String, TranslationTree)> = Vec::new();
        let mut i: usize = 0;
        while i < translations.len()
            invariant
                0 <= i <= translations@.len(),
                loaded@.len() == i,
                first_invalid(translations@) == first_invalid_from(translations@, i as int),
                forall|j: int|
                    0 <= j < i ==> (#[trigger] loaded@[j]).0@ == translations@[j].0@ && json_tree(
                        translations@[j].1@,
                    ) == Ok::<TranslationTree, Seq<char>>(loaded@[j].1),
            decreases translations@.len() - i,
        {
            match parse_tree(translations[i].1.as_str()) {
                Ok(tree) => {
                    let code = translations[i].0.clone();
                    loaded.push((code, tree));
                },
                Err(err) => {
                    let msg = build_invalid_payload_message(
                        translations[i].0.as_str(),
                        err.as_str(),
                    );
                    return Err(msg);
                },
            }
            i += 1;
        }
        Ok(loaded)
    }

    /// Initializes a resolver from a configuration and the raw translations:
    /// every payload must parse and at least one language must be given, or
    /// nothing is produced. On success the current language starts at the
    /// first-constructed (fallback) language.
    pub fn new(config: I18nConfig, translations: Vec<(String, String)>) -> (r: Result<
        I18n,
        String,
    >)
        requires
            raw_keys(translations@).no_duplicates(),
        ensures
            r is Ok <==> construction_ok(translations@),
            r matches Ok(i18n) ==> ({
                &&& i18n.wf()
                &&& i18n.config == config
                &&& i18n.language_codes() == raw_keys(translations@)
                &&& i18n.current() == translations@[0].0@
                &&& forall|i: int|
                    0 <= i < translations@.len() ==> i18n.tree_for(
                        (#[trigger] translations@[i]).0@,
                    ) == Some(json_tree(translations@[i].1@)->Ok_0)
            }),
            r is Err && translations@.len() == 0 ==> r->Err_0@ == empty_set_message(),
            r is Err && translations@.len() > 0 ==> (first_invalid(
                translations@,
            ) matches Some(fi) && r->Err_0@ == invalid_payload_message(fi.0, fi.1)),
    {
        proof {
            lemma_first_invalid_none(translations@, 0);
        }
        let loaded = match Self::load_translations(&translations) {
            Ok(l) => l,
            Err(e) => {
                return Err(e);
            },
        };
        if loaded.len() == 0 {
            return Err(build_empty_set_message());
        }
        let current_language = loaded[0].0.clone();
        let i18n = I18n { config, current_language, translations: loaded };
        proof {
            assert(i18n.language_codes() =~= raw_keys(translations@));
            assert(i18n.supported(i18n.current())) by {
                assert(i18n.language_codes()[0] == i18n.current());
            }
            assert forall|i: int| 0 <= i < translations@.len() implies i18n.tree_for(
                (#[trigger] translations@[i]).0@,
            ) == Some(json_tree(translations@[i].1@)->Ok_0) by {
                assert(i18n.translations@[i].0@ == translations@[i].0@);
                assert forall|j: int| 0 <= j < i implies (#[trigger] i18n.translations@[j]).0@
                    != i18n.translations@[i].0@ by {
                    assert(i18n.language_codes()[j] == i18n.translations@[j].0@);
                    assert(i18n.language_codes()[i] == i18n.translations@[i].0@);
                }
                TranslationTree::lemma_find_entry_at(i18n.translations@, i);
            }
        }
        Ok(i18n)
    }

    /// Switches the current language: succeeds exactly when `language` is a
    /// loaded code, and changes nothing on failure. The storage arguments
    /// select where the surrounding application persists the choice; the
    /// resolver itself performs no storage access.
    pub fn set_translation_language(
        &mut self,
        language: &str,
        _storage_type: &StorageType,
        _storage_name: &str,
    ) -> (r: Result<(), String>)
        requires
            old(self).wf(),
        ensures
            final(self).wf(),
            r is Ok <==> old(self).supported(language@),
            r is Ok ==> final(self).config == old(self).config && final(self).translations == old(
                self,
            ).translations && final(self).current() == language@,
            r is Err ==> *final(self) == *old(self) && r->Err_0@ == unsupported_message(language@),
    {
        let n = self.translations.len();
        let mut j: usize = 0;
        while j < n
            invariant
                old(self).wf(),
                *self == *old(self),
                n == self.translations@.len(),
                0 <= j <= n,
                forall|k: int| 0 <= k < j ==> (#[trigger] self.translations@[k]).0@ != language@,
            decreases n - j,
        {
            if str_eq(self.translations[j].0.as_str(), language) {
                self.current_language = language.to_owned();
                proof {
                    assert(self.language_codes() == old(self).language_codes());
                    assert(self.supported(language@)) by {
                        assert(self.language_codes()[j as int] == language@);
                    }
                }
                return Ok(());
            }
            j += 1;
        }
        proof {
            assert(!old(self).supported(language@)) by {
                if old(self).language_codes().contains(language@) {
                    let i = choose|i: int|
                        0 <= i < old(self).language_codes().len() && old(self).language_codes()[i]
                            == language@;
                    assert(old(self).translations@[i].0@ == language@);
                }
            }
        }
        Err(build_unsupported_message(language))
    }

    /// The current language code.
    pub fn get_current_language(&self) -> (r: &str)
        ensures
            r@ == self.current(),
    {
        self.current_language.as_str()
    }

    /// Translates a dot-separated key against the current language's tree,
    /// falling back to the first-constructed language's tree, and otherwise
    /// returning the placeholder that names the key and the current
    /// language. Never fails: every input yields a displayable string.
    pub fn t(&self, key: &str) -> (r: String)
        requires
            self.wf(),
        ensures
            r@ == self.translate_spec(key@),
    {
        let keys = split_str(key, '.');
        let from_current: Option<&TranslationTree> = match TranslationTree::find_child(
            &self.translations,
            self.current_language.as_str(),
        ) {
            Some(tree) => Self::get_nested_value(tree, &keys),
            None => None,
        };
        let resolved: Option<&TranslationTree> = match from_current {
            Some(node) => Some(node),
            None => Self::get_nested_value(&self.translations[0].1, &keys),
        };
        match resolved {
            Some(node) => node.display_string(),
            None => build_missing_key_message(key, self.current_language.as_str()),
        }
    }

    /// Walks a parsed tree along a sequence of path segments.
    fn get_nested_value<'a>(tree: &'a TranslationTree, keys: &Vec<String>) -> (r: Option<
        &'a TranslationTree,
    >)
        ensures
            match r {
                Some(node) => tree.lookup(crate::text::views_of(keys@)) == Some(*node),
                None => tree.lookup(crate::text::views_of(keys@)) is None,
            },
    {
        let ghost path = crate::text::views_of(keys@);
        let mut cur: &'a TranslationTree = tree;
        let mut i: usize = 0;
        while i < keys.len()
            invariant
                0 <= i <= keys@.len(),
                path == crate::text::views_of(keys@),
                path.len() == keys@.len(),
                tree.lookup(path) == cur.lookup_from(path, i as int),
            decreases keys@.len() - i,
        {
            match cur {
                TranslationTree::Leaf(_) => {
                    return None;
                },
                TranslationTree::Node(entries) => {
                    match TranslationTree::find_child(entries, keys[i].as_str()) {
                        Some(child) => {
                            proof {
                                assert(path[i as int] == keys@[i as int]@);
                            }
                            cur = child;
                        },
                        None => {
                            return None;
                        },
                    }
                },
            }
            i += 1;
        }
        Some(cur)
    }
}

/// Fallback determinism: a key that resolves in the fallback language's tree
/// but not in the current language's tree is answered from the fallback
/// tree's node.
pub proof fn lemma_fallback_determinism(i18n: I18n, key: Seq<char>)
    requires
        i18n.wf(),
        i18n.lookup_in(i18n.current(), key) is None,
        i18n.lookup_in(i18n.fallback(), key) is Some,
    ensures
        i18n.translate_spec(key) == i18n.lookup_in(i18n.fallback(), key)->Some_0.display_text(),
{
}

/// Totality on missing keys: a key that resolves neither in the current
/// language's tree nor in the fallback language's tree still yields a
/// string, namely the placeholder that names the key and the current
/// language; `t` never fails.
pub proof fn lemma_missing_key_placeholder(i18n: I18n, key: Seq<char>)
    requires
        i18n.wf(),
        i18n.lookup_in(i18n.current(), key) is None,
        i18n.lookup_in(i18n.fallback(), key) is None,
    ensures
        i18n.translate_spec(key) == missing_key_message(key, i18n.current()),
{
}

/// Leaf stringification: a key that resolves to a nested mapping rather
/// than a string leaf yields that mapping's deterministic JSON-style
/// rendering, not an error.
pub proof fn lemma_node_stringification(i18n: I18n, key: Seq<char>)
    requires
        i18n.wf(),
        i18n.resolved_node(key) is Some,
        i18n.resolved_node(key)->Some_0 is Node,
    ensures
        i18n.translate_spec(key) == i18n.resolved_node(key)->Some_0.rendered(),
{
}

/// Builds the construction error for an empty language set.
fn build_empty_set_message() -> (out: String)
    ensures
        out@ == empty_set_message(),
{
    String::from_str("You must add at least one supported language")
}

/// Builds the construction error for a payload the parser refused.
fn build_invalid_payload_message(lang: &str, detail: &str) -> (out: String)
    ensures
        out@ == invalid_payload_message(lang@, detail@),
{
    let mut out = String::from_str("Invalid JSON for language ");
    out.append(lang);
    out.append(": ");
    out.append(detail);
    proof {
        assert(out@ =~= invalid_payload_message(lang@, detail@));
    }
    out
}

/// Builds the rejection message for a switch to an unknown language.
fn build_unsupported_message(lang: &str) -> (out: String)
    ensures
        out@ == unsupported_message(lang@),
{
    let mut out = String::from_str("Language '");
    out.append(lang);
    out.append("' is not supported");
    proof {
        assert(out@ =~= unsupported_message(lang@));
    }
    out
}

/// Builds the placeholder for a key that resolves nowhere.
fn build_missing_key_message(key: &str, lang: &str) -> (out: String)
    ensures
        out@ == missing_key_message(key@, lang@),
{
    let mut out = String::from_str("Key '");
    out.append(key);
    out.append("' not found for language '");
    out.append(lang);
    out.append("'");
    proof {
        assert(out@ =~= missing_key_message(key@, lang@));
    }
    out
}

} // verus!
