//! The parsed translation structure for one language: a nested mapping from
//! string keys to either a string leaf or a further subtree.

use vstd::prelude::*;
use vstd::string::{StrSliceExecFns, StringExecFns};
use crate::text::str_eq;

verus! {

/// One language's parsed translation payload: either a string leaf or an
/// ordered mapping from keys to subtrees, kept in the order the entries
/// were first written.
#[derive(Debug, PartialEq)]
pub enum TranslationTree {
    /// A translated string, returned verbatim when a key resolves to it.
    Leaf(String),
    /// A nested mapping from path segments to subtrees.
    Node(Vec<(String, TranslationTree)>),
}

impl TranslationTree {
    /// The first entry at or after position `i` whose key reads `key`.
    pub open spec fn find_entry_from(
        entries: Seq<(String, TranslationTree)>,
        key: Seq<char>,
        i: int,
    ) -> Option<TranslationTree>
        decreases entries.len() - i,
    {
        if i < 0 || i >= entries.len() {
            None
        } else if entries[i].0@ == key {
            Some(entries[i].1)
        } else {
            Self::find_entry_from(entries, key, i + 1)
        }
    }

    /// The first entry whose key reads `key`, if any.
    pub open spec fn find_entry(
        entries: Seq<(String, TranslationTree)>,
        key: Seq<char>,
    ) -> Option<TranslationTree> {
        Self::find_entry_from(entries, key, 0)
    }

    /// Walks the path segments starting at segment `i`: each step requires
    /// the current node to be a mapping holding the next segment as a key.
    pub open spec fn lookup_from(self, path: Seq<Seq<char>>, i: int) -> Option<TranslationTree>
        decreases path.len() - i,
    {
        if i < 0 || i >= path.len() {
            Some(self)
        } else {
            match self {
                TranslationTree::Leaf(_) => None,
                TranslationTree::Node(entries) => match Self::find_entry(entries@, path[i]) {
                    Some(child) => child.lookup_from(path, i + 1),
                    None => None,
                },
            }
        }
    }

    /// The node the full path leads to, if the walk succeeds.
    pub open spec fn lookup(self, path: Seq<Seq<char>>) -> Option<TranslationTree> {
        self.lookup_from(path, 0)
    }

    /// The JSON-style text of one subtree: a leaf between double quotes,
    /// written verbatim, and a mapping as `{"key":value,...}` in entry order.
    pub open spec fn rendered(self) -> Seq<char>
        decreases self, 0int,
    {
        match self {
            TranslationTree::Leaf(s) => seq!['"'] + s@ + seq!['"'],
            TranslationTree::Node(entries) => seq!['{'] + Self::rendered_entries_from(entries@, 0)
                + seq!['}'],
        }
    }

    /// The rendering of the entries at or after position `i`, joined by commas.
    pub open spec fn rendered_entries_from(
        entries: Seq<(String, TranslationTree)>,
        i: int,
    ) -> Seq<char>
        decreases entries, entries.len() - i,
    {
        if i < 0 || i >= entries.len() {
            Seq::empty()
        } else {
            let head = seq!['"'] + entries[i].0@ + seq!['"', ':'] + entries[i].1.rendered();
            if i == entries.len() - 1 {
                head
            } else {
                head + seq![','] + Self::rendered_entries_from(entries, i + 1)
            }
        }
    }

    /// The text a resolved key yields at this node: a leaf verbatim, a
    /// mapping in its JSON-style rendering.
    pub open spec fn display_text(self) -> Seq<char> {
        match self {
            TranslationTree::Leaf(s) => s@,
            TranslationTree::Node(_) => self.rendered(),
        }
    }

    /// When no earlier entry in `[k, i)` carries entry `i`'s key, the search
    /// from `k` lands on entry `i`.
    pub proof fn lemma_find_entry_from_at(entries: Seq<(String, TranslationTree)>, i: int, k: int)
        requires
            0 <= k <= i < entries.len(),
            forall|j: int| k <= j < i ==> (#[trigger] entries[j]).0@ != entries[i].0@,
        ensures
            Self::find_entry_from(entries, entries[i].0@, k) == Some(entries[i].1),
        decreases i - k,
    {
        if k < i {
            Self::lemma_find_entry_from_at(entries, i, k + 1);
        }
    }

    /// When no earlier entry carries entry `i`'s key, the search finds entry `i`.
    pub proof fn lemma_find_entry_at(entries: Seq<(String, TranslationTree)>, i: int)
        requires
            0 <= i < entries.len(),
            forall|j: int| 0 <= j < i ==> (#[trigger] entries[j]).0@ != entries[i].0@,
        ensures
            Self::find_entry(entries, entries[i].0@) == Some(entries[i].1),
    {
        Self::lemma_find_entry_from_at(entries, i, 0);
    }

    /// Linear search for `key` among the entries of a mapping.
    pub fn find_child<'a>(
        entries: &'a Vec<(String, TranslationTree)>,
        key: &str,
    ) -> (r: Option<&'a TranslationTree>)
        ensures
            match r {
                Some(child) => Self::find_entry(entries@, key@) == Some(*child),
                None => Self::find_entry(entries@, key@) is None,
            },
    {
        let mut j: usize = 0;
        while j < entries.len()
            invariant
                0 <= j <= entries@.len(),
                Self::find_entry(entries@, key@) == Self::find_entry_from(entries@, key@, j as int),
            decreases entries@.len() - j,
        {
            if str_eq(entries[j].0.as_str(), key) {
                return Some(&entries[j].1);
            }
            j += 1;
        }
        None
    }

    /// Executable form of `display_text`.
    pub fn display_string(&self) -> (out: String)
        ensures
            out@ == self.display_text(),
    {
        match self {
            TranslationTree::Leaf(s) => s.clone(),
            TranslationTree::Node(_) => self.rendered_string(),
        }
    }

    /// Executable form of `rendered`.
    pub fn rendered_string(&self) -> (out: String)
        ensures
            out@ == self.rendered(),
        decreases self, 0int,
    {
        match self {
            TranslationTree::Leaf(s) => {
                let mut out = String::from_str("\"");
                out.append(s.as_str());
                out.append("\"");
                proof {
                    reveal_strlit("\"");
                    assert(out@ =~= self.rendered());
                }
                out
            },
            TranslationTree::Node(entries) => {
                let mut out = String::from_str("{");
                let rest = Self::rendered_entries_string(entries, 0);
                out.append(rest.as_str());
                out.append("}");
                proof {
                    reveal_strlit("{");
                    reveal_strlit("}");
                    assert(out@ =~= self.rendered());
                }
                out
            },
        }
    }

    /// A deep copy of one subtree.
    fn clone_tree(&self) -> (res: Self)
        decreases self, 0int,
    {
        match self {
            TranslationTree::Leaf(s) => TranslationTree::Leaf(s.clone()),
            TranslationTree::Node(entries) => TranslationTree::Node(
                Self::clone_entries_from(entries, 0),
            ),
        }
    }

    /// A deep copy of the entries at or after position `i`.
    fn clone_entries_from(
        entries: &Vec<(String, TranslationTree)>,
        i: usize,
    ) -> (out: Vec<(String, TranslationTree)>)
        decreases entries@, entries@.len() - i,
    {
        if i >= entries.len() {
            Vec::new()
        } else {
            let pair = (entries[i].0.clone(), entries[i].1.clone_tree());
            let mut rest = Self::clone_entries_from(entries, i + 1);
            rest.insert(0, pair);
            rest
        }
    }

    /// Executable form of `rendered_entries_from`.
    fn rendered_entries_string(
        entries: &Vec<(String, TranslationTree)>,
        i: usize,
    ) -> (out: String)
        ensures
            out@ == Self::rendered_entries_from(entries@, i as int),
        decreases entries@, entries@.len() - i,
    {
        if i >= entries.len() {
            String::new()
        } else {
            let mut out = String::from_str("\"");
            out.append(entries[i].0.as_str());
            out.append("\":");
            let child = entries[i].1.rendered_string();
            out.append(child.as_str());
            if i + 1 < entries.len() {
                out.append(",");
                let rest = Self::rendered_entries_string(entries, i + 1);
                out.append(rest.as_str());
            }
            proof {
                reveal_strlit("\"");
                reveal_strlit("\":");
                reveal_strlit(",");
                assert(out@ =~= Self::rendered_entries_from(entries@, i as int));
            }
            out
        }
    }
}

impl Clone for TranslationTree {
    /// A deep copy; nothing is claimed of it in contracts.
    fn clone(&self) -> Self {
        self.clone_tree()
    }
}

} // verus!
