//! Loading a document: the text-to-tree parse, consumed from serde_json as
//! an external collaborator.  Everything downstream of the parse works on
//! the crate's own [`Node`] tree.

use serde_json::Value;
use vstd::prelude::*;

use crate::value::model_wf;
use crate::value::Node;
use crate::value::ValueModel;

verus! {

/// Declares serde_json::Value, the parser's own tree type, so that the
/// trusted conversion below can take it; it is opaque here and never leaves
/// this module.
#[verifier::external_type_specification]
#[verifier::external_body]
pub struct ExValue(serde_json::Value);

/// The tree a given text parses to, as a function of the text alone;
/// `None` stands for "does not parse".  Only the trusted parse below says
/// anything about this name.
pub uninterp spec fn json_doc(s: Seq<char>) -> Option<ValueModel>;

/// Relies on serde_json::Value and serde_json::Number: rebuilds a parsed
/// tree as a [`Node`], one arm per variant.  A number stored as a
/// non-negative integer becomes `Uint`, one stored as a negative integer
/// becomes `Int`, and any other number carries its IEEE-754 bit pattern as
/// `Float`.  serde_json's map is an ordered map (keys ascending), so the
/// rebuilt object keeps strictly ascending keys and the result is
/// well-formed.
#[verifier::external_body]
fn node_from_json(v: serde_json::Value) -> (r: Node)
    ensures
        model_wf(r@),
{
    match v {
        Value::Null => Node::Null,
        Value::Bool(b) => Node::Bool(b),
        Value::Number(n) => match (n.as_u64(), n.as_i64()) {
            (Some(u), _) => Node::Uint(u),
            (None, Some(i)) => Node::Int(i),
            _ => Node::Float(n.as_f64().map(|x| x.to_bits()).unwrap_or(0)),
        },
        Value::String(s) => Node::Text(s),
        Value::Array(a) => Node::Array(a.into_iter().map(node_from_json).collect()),
        Value::Object(o) => Node::Object(
            o.into_iter().map(|(k, x)| (k, node_from_json(x))).collect(),
        ),
    }
}

/// Relies on serde_json::from_str: whether a text parses, and the tree it
/// parses to, depend on the text alone.  On failure the parser's own words
/// come back.
#[verifier::external_body]
pub(crate) fn parse_json(text: &str) -> (r: Result<Node, String>)
    ensures
        match r {
            Ok(n) => json_doc(text@) == Some(n@) && model_wf(n@),
            Err(_) => json_doc(text@) is None,
        },
{
    match serde_json::from_str::<serde_json::Value>(text) {
        Ok(v) => Ok(node_from_json(v)),
        Err(e) => Err(format!("{}", e)),
    }
}

} // verus!
