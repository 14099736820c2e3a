//! Small verified helpers on strings: equality, splitting on a separator
//! character, and trimming header whitespace.

use vstd::prelude::*;
use vstd::string::StrSliceExecFns;

verus! {

/// Character-for-character equality of two string slices.
pub fn str_eq(a: &str, b: &str) -> (r: bool)
    ensures
        r == (a@ == b@),
{
    let alen = a.unicode_len();
    let blen = b.unicode_len();
    if alen != blen {
        return false;
    }
    let mut i: usize = 0;
    while i < alen
        invariant
            alen == a@.len(),
            blen == b@.len(),
            alen == blen,
            0 <= i <= alen,
            forall|j: int| 0 <= j < i ==> a@[j] == b@[j],
        decreases alen - i,
    {
        let ca = a.get_char(i);
        let cb = b.get_char(i);
        if ca != cb {
            return false;
        }
        i += 1;
    }
    proof {
        assert(a@ =~= b@);
    }
    true
}

/// The pieces of `s` between occurrences of `sep`, in order. An empty text
/// yields one empty piece, and a separator at either end yields an empty
/// piece there, as `str::split` does.
pub open spec fn split_on(s: Seq<char>, sep: char) -> Seq<Seq<char>>
    decreases s.len(),
{
    if s.len() == 0 {
        seq![Seq::<char>::empty()]
    } else if s[0] == sep {
        seq![Seq::<char>::empty()] + split_on(s.drop_first(), sep)
    } else {
        let rest = split_on(s.drop_first(), sep);
        seq![seq![s[0]] + rest[0]] + rest.drop_first()
    }
}

pub proof fn lemma_split_on_len(s: Seq<char>, sep: char)
    ensures
        split_on(s, sep).len() >= 1,
    decreases s.len(),
{
    if s.len() == 0 {
    } else {
        lemma_split_on_len(s.drop_first(), sep);
    }
}

/// A text without the separator is a single piece.
pub proof fn lemma_split_on_no_sep(s: Seq<char>, sep: char)
    requires
        forall|j: int| 0 <= j < s.len() ==> s[j] != sep,
    ensures
        split_on(s, sep) == seq![s],
    decreases s.len(),
{
    if s.len() == 0 {
        assert(s =~= Seq::<char>::empty());
        assert(split_on(s, sep) =~= seq![s]);
    } else {
        lemma_split_on_no_sep(s.drop_first(), sep);
        assert(seq![s[0]] + s.drop_first() =~= s);
        assert(split_on(s, sep) =~= seq![s]);
    }
}

/// Splitting at the first separator: the piece before it, then the split of
/// what follows it.
pub proof fn lemma_split_on_sep_at(s: Seq<char>, sep: char, d: int)
    requires
        0 <= d < s.len(),
        s[d] == sep,
        forall|j: int| 0 <= j < d ==> s[j] != sep,
    ensures
        split_on(s, sep) == seq![s.subrange(0, d)] + split_on(
            s.subrange(d + 1, s.len() as int),
            sep,
        ),
    decreases d,
{
    lemma_split_on_len(s, sep);
    if d == 0 {
        assert(s.subrange(0, 0) =~= Seq::<char>::empty());
        assert(s.subrange(1, s.len() as int) =~= s.drop_first());
        assert(split_on(s, sep) =~= seq![s.subrange(0, 0)] + split_on(
            s.subrange(1, s.len() as int),
            sep,
        ));
    } else {
        let t = s.drop_first();
        lemma_split_on_sep_at(t, sep, d - 1);
        lemma_split_on_len(t, sep);
        let rest = split_on(t, sep);
        assert(rest[0] == t.subrange(0, d - 1));
        assert(seq![s[0]] + t.subrange(0, d - 1) =~= s.subrange(0, d));
        assert(t.subrange(d - 1 + 1, t.len() as int) =~= s.subrange(d + 1, s.len() as int));
        assert(rest.drop_first() == split_on(s.subrange(d + 1, s.len() as int), sep));
        assert(split_on(s, sep) =~= seq![s.subrange(0, d)] + split_on(
            s.subrange(d + 1, s.len() as int),
            sep,
        ));
    }
}

/// The views of a vector of owned pieces.
pub open spec fn views_of(pieces: Seq<String>) -> Seq<Seq<char>> {
    pieces.map_values(|p: String| p@)
}

/// Splits `s` on every occurrence of `sep`, as `str::split` does.
pub fn split_str(s: &str, sep: char) -> (out: Vec<String>)
    ensures
        views_of(out@) == split_on(s@, sep),
    decreases s@.len(),
{
    let len = s.unicode_len();
    let mut i: usize = 0;
    while i < len && s.get_char(i) != sep
        invariant
            len == s@.len(),
            0 <= i <= len,
            forall|j: int| 0 <= j < i ==> s@[j] != sep,
        decreases len - i,
    {
        i += 1;
    }
    if i >= len {
        let mut out: Vec<String> = Vec::new();
        out.push(s.to_owned());
        proof {
            lemma_split_on_no_sep(s@, sep);
            assert(views_of(out@) =~= split_on(s@, sep));
        }
        out
    } else {
        let head = s.substring_char(0, i);
        let tail = s.substring_char(i + 1, len);
        let mut out: Vec<String> = Vec::new();
        out.push(head.to_owned());
        let mut rest = split_str(tail, sep);
        out.append(&mut rest);
        proof {
            lemma_split_on_sep_at(s@, sep, i as int);
            assert(views_of(out@) =~= split_on(s@, sep));
        }
        out
    }
}

} // verus!
