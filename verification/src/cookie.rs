//! Cookie and header text handling for server-rendered sessions: reading a
//! language from a `Cookie` header, taking the first tag of an
//! `Accept-Language` header, and writing the `Set-Cookie` value that
//! persists a language. Only the text work happens here; the surrounding
//! application moves the headers in and out.

use vstd::prelude::*;
use vstd::string::{StrSliceExecFns, StringExecFns};
use crate::text::{lemma_split_on_len, split_on, split_str, str_eq, views_of};

verus! {

/// Header whitespace: the blank characters trimmed around cookie entries
/// and language tags.
pub open spec fn is_header_space(c: char) -> bool {
    c == ' ' || c == '\t'
}

/// `s` without leading header whitespace.
pub open spec fn trim_front_sp(s: Seq<char>) -> Seq<char>
    decreases s.len(),
{
    if s.len() > 0 && is_header_space(s[0]) {
        trim_front_sp(s.drop_first())
    } else {
        s
    }
}

/// `s` without trailing header whitespace.
pub open spec fn trim_back_sp(s: Seq<char>) -> Seq<char>
    decreases s.len(),
{
    if s.len() > 0 && is_header_space(s[s.len() - 1]) {
        trim_back_sp(s.drop_last())
    } else {
        s
    }
}

/// `s` without leading and trailing header whitespace.
pub open spec fn trim_sp(s: Seq<char>) -> Seq<char> {
    trim_back_sp(trim_front_sp(s))
}

/// Trimming the front keeps the part after the leading whitespace.
pub proof fn lemma_trim_front_at(s: Seq<char>, a: int)
    requires
        0 <= a <= s.len(),
        forall|j: int| 0 <= j < a ==> is_header_space(s[j]),
        a == s.len() || !is_header_space(s[a]),
    ensures
        trim_front_sp(s) == s.subrange(a, s.len() as int),
    decreases a,
{
    if a == 0 {
        assert(trim_front_sp(s) =~= s.subrange(0, s.len() as int));
    } else {
        lemma_trim_front_at(s.drop_first(), a - 1);
        assert(s.drop_first().subrange(a - 1, s.drop_first().len() as int) =~= s.subrange(
            a,
            s.len() as int,
        ));
    }
}

/// Trimming the back keeps the part before the trailing whitespace.
pub proof fn lemma_trim_back_at(s: Seq<char>, b: int)
    requires
        0 <= b <= s.len(),
        forall|j: int| b <= j < s.len() ==> is_header_space(s[j]),
        b == 0 || !is_header_space(s[b - 1]),
    ensures
        trim_back_sp(s) == s.subrange(0, b),
    decreases s.len(),
{
    if b == s.len() {
        assert(trim_back_sp(s) =~= s.subrange(0, b));
    } else {
        assert(is_header_space(s[s.len() - 1]));
        lemma_trim_back_at(s.drop_last(), b);
        assert(s.drop_last().subrange(0, b) =~= s.subrange(0, b));
    }
}

/// Whether `c` is header whitespace.
fn is_space(c: char) -> (r: bool)
    ensures
        r == is_header_space(c),
{
    c == ' ' || c == '\t'
}

/// Removes leading and trailing header whitespace.
pub fn trim_header(s: &str) -> (r: String)
    ensures
        r@ == trim_sp(s@),
{
    let len = s.unicode_len();
    let mut a: usize = 0;
    while a < len && is_space(s.get_char(a))
        invariant
            len == s@.len(),
            0 <= a <= len,
            forall|j: int| 0 <= j < a ==> is_header_space(s@[j]),
        decreases len - a,
    {
        a += 1;
    }
    let mut b: usize = len;
    while b > a && is_space(s.get_char(b - 1))
        invariant
            len == s@.len(),
            a <= b <= len,
            forall|j: int| 0 <= j < a ==> is_header_space(s@[j]),
            a == len || !is_header_space(s@[a as int]),
            forall|j: int| b <= j < len ==> is_header_space(s@[j]),
        decreases b,
    {
        b -= 1;
    }
    proof {
        lemma_trim_front_at(s@, a as int);
        let t = s@.subrange(a as int, len as int);
        assert forall|k: int| (b - a) <= k < t.len() implies is_header_space(t[k]) by {
            assert(t[k] == s@[a + k]);
        }
        if b > a {
            assert(t[b - a - 1] == s@[b - 1]);
        }
        lemma_trim_back_at(t, b - a);
        assert(t.subrange(0, b - a) =~= s@.subrange(a as int, b as int));
    }
    s.substring_char(a, b).to_owned()
}

/// The value of one `key=value` cookie entry, after trimming, when its
/// name is exactly `key`.
pub open spec fn cookie_entry_value(entry: Seq<char>, key: Seq<char>) -> Option<Seq<char>> {
    let t = trim_sp(entry);
    if t.len() > key.len() && t.subrange(0, key.len() as int) == key && t[key.len() as int]
        == '=' {
        Some(t.subrange(key.len() as int + 1, t.len() as int))
    } else {
        None
    }
}

/// The first cookie entry at or after `i` whose name is `key`.
pub open spec fn cookie_value_from(entries: Seq<Seq<char>>, key: Seq<char>, i: int) -> Option<
    Seq<char>,
>
    decreases entries.len() - i,
{
    if i < 0 || i >= entries.len() {
        None
    } else {
        match cookie_entry_value(entries[i], key) {
            Some(v) => Some(v),
            None => cookie_value_from(entries, key, i + 1),
        }
    }
}

/// The value under `key` in a `Cookie` header: entries are separated by
/// semicolons and trimmed, and the first one reading `key=value` yields
/// its value.
pub open spec fn cookie_value(raw: Seq<char>, key: Seq<char>) -> Option<Seq<char>> {
    cookie_value_from(split_on(raw, ';'), key, 0)
}

/// Checks one cookie entry against `key`.
fn entry_value(entry: &str, key: &str) -> (r: Option<String>)
    ensures
        match r {
            Some(v) => cookie_entry_value(entry@, key@) == Some(v@),
            None => cookie_entry_value(entry@, key@) is None,
        },
{
    let t = trim_header(entry);
    let tlen = t.unicode_len();
    let klen = key.unicode_len();
    if tlen > klen {
        let name = t.as_str().substring_char(0, klen);
        if str_eq(name, key) {
            if t.as_str().get_char(klen) == '=' {
                return Some(t.as_str().substring_char(klen + 1, tlen).to_owned());
            }
        }
    }
    None
}

/// Looks a language up in a `Cookie` header, as a server-rendered session
/// does before falling back to the `Accept-Language` header.
pub fn find_cookie_value(raw: &str, key: &str) -> (r: Option<String>)
    ensures
        match r {
            Some(v) => cookie_value(raw@, key@) == Some(v@),
            None => cookie_value(raw@, key@) is None,
        },
{
    let entries = split_str(raw, ';');
    let mut i: usize = 0;
    while i < entries.len()
        invariant
            views_of(entries@) == split_on(raw@, ';'),
            0 <= i <= entries@.len(),
            cookie_value(raw@, key@) == cookie_value_from(views_of(entries@), key@, i as int),
        decreases entries@.len() - i,
    {
        proof {
            assert(views_of(entries@)[i as int] == entries@[i as int]@);
        }
        match entry_value(entries[i].as_str(), key) {
            Some(v) => {
                return Some(v);
            },
            None => {},
        }
        i += 1;
    }
    None
}

/// The first language tag of an `Accept-Language` header: the text before
/// the first comma, trimmed.
pub fn accept_language_first(header: &str) -> (r: String)
    ensures
        r@ == trim_sp(split_on(header@, ',')[0]),
{
    let pieces = split_str(header, ',');
    proof {
        lemma_split_on_len(header@, ',');
        assert(views_of(pieces@)[0] == pieces@[0]@);
    }
    trim_header(pieces[0].as_str())
}

/// The `Set-Cookie` value that persists `lang` under `key`, with the fixed
/// path, same-site and one-year max-age attributes.
pub fn cookie_header_value(key: &str, lang: &str) -> (r: String)
    ensures
        r@ == key@ + "="@ + lang@ + "; Path=/; SameSite=Lax; Max-Age=31536000"@,
{
    let mut out = key.to_owned();
    out.append("=");
    out.append(lang);
    out.append("; Path=/; SameSite=Lax; Max-Age=31536000");
    proof {
        assert(out@ =~= key@ + "="@ + lang@ + "; Path=/; SameSite=Lax; Max-Age=31536000"@);
    }
    out
}

} // verus!
