//! The boundary to the JSON parser. The library receives each language's
//! payload as raw text and turns it into a [`TranslationTree`] by calling
//! serde_json; everything after that point is verified against the name
//! `json_tree` given to the parse result here.

use vstd::prelude::*;
use crate::tree::TranslationTree;

verus! {

#[verifier::external_type_specification]
#[verifier::external_body]
pub struct ExValue(serde_json::Value);

/// The result of parsing one payload: the translation tree the text denotes,
/// or the parser's message. It is a function of the characters alone; nothing
/// more is assumed of it.
pub uninterp spec fn json_tree(s: Seq<char>) -> Result<TranslationTree, Seq<char>>;

/// Relies on serde_json::Value: the conversion step of `parse_tree`. Each
/// variant is told apart and moved into the library's tree: an object becomes
/// a `Node` of its entries in the object's own order, a string becomes a
/// `Leaf` holding it verbatim, and any other value becomes a `Leaf` holding
/// its compact JSON text from serde_json's `Display`.
#[verifier::external_body]
fn tree_from_value(v: &serde_json::Value) -> TranslationTree {
    match v {
        serde_json::Value::String(s) => TranslationTree::Leaf(s.clone()),
        serde_json::Value::Object(m) => TranslationTree::Node(
            m.iter().map(|(k, x)| (k.clone(), tree_from_value(x))).collect(),
        ),
        other => TranslationTree::Leaf(other.to_string()),
    }
}

/// Relies on serde_json::from_str: whether the text parses, and the value it
/// yields, depend on the characters alone, and the error's rendered message
/// does too. The parsed value is moved into the library's tree by
/// `tree_from_value`; the whole result is named `json_tree(s@)`.
#[verifier::external_body]
pub(crate) fn parse_tree(s: &str) -> (r: Result<TranslationTree, String>)
    ensures
        r is Ok <==> json_tree(s@) is Ok,
        r is Ok ==> r->Ok_0 == json_tree(s@)->Ok_0,
        r is Err ==> r->Err_0@ == json_tree(s@)->Err_0,
{
    match serde_json::from_str::<serde_json::Value>(s) {
        Ok(v) => Ok(tree_from_value(&v)),
        Err(e) => Err(e.to_string()),
    }
}

} // verus!
