//! The value tree: the in-memory form of a loaded document, its mathematical
//! model, and the closed type discriminator that communicates a node's shape
//! across the boundary.

use vstd::prelude::*;

verus! {

/// Closed discriminator for the shape of a [`Node`], in the form it crosses
/// the boundary.
#[allow(non_camel_case_types)]
#[derive(Clone, Copy, Debug, PartialEq, Eq, Structural)]
pub enum Ffi__DataType {
    Null,
    Bool,
    Int64,
    Uint64,
    Float,
    String,
    Array,
    Object,
}

/// One node of a loaded document.
///
/// A JSON-like tree: scalars, ordered arrays, and objects whose entries map a
/// text key to a child node.  A float is carried as its IEEE-754 bit pattern
/// (`u64`); nothing in this crate computes on it, it is only stored and
/// handed back.  Object entries are kept with their keys in strictly
/// ascending order ([`model_wf`]), which is the tree's native key ordering.
pub enum Node {
    Null,
    Bool(bool),
    Int(i64),
    Uint(u64),
    Float(u64),
    Text(String),
    Array(Vec<Node>),
    Object(Vec<(String, Node)>),
}

/// The mathematical model of a node: the same tree over `Seq` and plain
/// values.  Every contract in this crate speaks of models, so that two nodes
/// with equal models are interchangeable wherever a contract applies.
#[verifier::ext_equal]
pub enum ValueModel {
    Null,
    Bool(bool),
    Int(i64),
    Uint(u64),
    Float(u64),
    Text(Seq<char>),
    Array(Seq<ValueModel>),
    Object(Seq<(Seq<char>, ValueModel)>),
}

/// The model of a node.
pub open spec fn node_model(n: Node) -> ValueModel
    decreases n,
{
    match n {
        Node::Null => ValueModel::Null,
        Node::Bool(b) => ValueModel::Bool(b),
        Node::Int(i) => ValueModel::Int(i),
        Node::Uint(u) => ValueModel::Uint(u),
        Node::Float(bits) => ValueModel::Float(bits),
        Node::Text(s) => ValueModel::Text(s@),
        Node::Array(cs) => ValueModel::Array(models_of(cs@)),
        Node::Object(es) => ValueModel::Object(entries_model(es@)),
    }
}

/// The models of a sequence of nodes, elementwise.
pub open spec fn models_of(cs: Seq<Node>) -> Seq<ValueModel>
    decreases cs,
{
    Seq::new(
        cs.len(),
        |i: int|
            if 0 <= i < cs.len() {
                node_model(cs[i])
            } else {
                ValueModel::Null
            },
    )
}

/// The models of a sequence of object entries, elementwise, keys as text.
pub open spec fn entries_model(es: Seq<(String, Node)>) -> Seq<(Seq<char>, ValueModel)>
    decreases es,
{
    Seq::new(
        es.len(),
        |i: int|
            if 0 <= i < es.len() {
                (es[i].0@, node_model(es[i].1))
            } else {
                (Seq::empty(), ValueModel::Null)
            },
    )
}

/// The keys of a sequence of modelled object entries, in stored order.
pub open spec fn keys_of(es: Seq<(Seq<char>, ValueModel)>) -> Seq<Seq<char>> {
    Seq::new(es.len(), |i: int| es[i].0)
}

impl View for Node {
    type V = ValueModel;

    open spec fn view(&self) -> ValueModel {
        node_model(*self)
    }
}

impl DeepView for Node {
    type V = ValueModel;

    open spec fn deep_view(&self) -> ValueModel {
        node_model(*self)
    }
}

/// Strict lexicographic order on text, by Unicode scalar value.
///
/// UTF-8 encoding preserves scalar-value order, so this coincides with the
/// byte order `String` comparison uses.
pub open spec fn str_lt(a: Seq<char>, b: Seq<char>) -> bool
    decreases a.len(),
{
    if b.len() == 0 {
        false
    } else if a.len() == 0 {
        true
    } else if (a[0] as u32) < (b[0] as u32) {
        true
    } else if (a[0] as u32) > (b[0] as u32) {
        false
    } else {
        str_lt(a.drop_first(), b.drop_first())
    }
}

/// Well-formedness of a modelled node: every object holds its entries with
/// strictly ascending keys (hence unique), recursively.  Scalars are always
/// well-formed.
pub open spec fn model_wf(m: ValueModel) -> bool
    decreases m,
{
    match m {
        ValueModel::Array(cs) => forall|i: int|
            #![trigger cs[i]]
            0 <= i < cs.len() ==> model_wf(cs[i]),
        ValueModel::Object(es) => {
            &&& forall|i: int|
                #![trigger es[i]]
                0 <= i < es.len() ==> model_wf(es[i].1)
            &&& forall|i: int|
                #![trigger es[i]]
                0 <= i && i + 1 < es.len() ==> str_lt(es[i].0, es[i + 1].0)
        },
        _ => true,
    }
}

/// The shape of a modelled node, as reported across the boundary.
pub open spec fn type_tag(m: ValueModel) -> Ffi__DataType {
    match m {
        ValueModel::Null => Ffi__DataType::Null,
        ValueModel::Bool(_) => Ffi__DataType::Bool,
        ValueModel::Int(_) => Ffi__DataType::Int64,
        ValueModel::Uint(_) => Ffi__DataType::Uint64,
        ValueModel::Float(_) => Ffi__DataType::Float,
        ValueModel::Text(_) => Ffi__DataType::String,
        ValueModel::Array(_) => Ffi__DataType::Array,
        ValueModel::Object(_) => Ffi__DataType::Object,
    }
}

impl Node {
    /// Reports the tag matching this node's actual stored shape.
    pub fn node_type(&self) -> (t: Ffi__DataType)
        ensures
            t == type_tag(self@),
    {
        match self {
            Node::Null => Ffi__DataType::Null,
            Node::Bool(_) => Ffi__DataType::Bool,
            Node::Int(_) => Ffi__DataType::Int64,
            Node::Uint(_) => Ffi__DataType::Uint64,
            Node::Float(_) => Ffi__DataType::Float,
            Node::Text(_) => Ffi__DataType::String,
            Node::Array(_) => Ffi__DataType::Array,
            Node::Object(_) => Ffi__DataType::Object,
        }
    }

    /// Deep copy: a node with the same model that shares no storage with
    /// `self`.  Extracted sub-documents are built from such copies, which is
    /// why they stay valid after their source is freed.
    #[verifier::loop_isolation(false)]
    pub fn deep_clone(&self) -> (r: Node)
        ensures
            r@ == self@,
        decreases *self,
    {
        match self {
            Node::Null => Node::Null,
            Node::Bool(b) => Node::Bool(*b),
            Node::Int(i) => Node::Int(*i),
            Node::Uint(u) => Node::Uint(*u),
            Node::Float(bits) => Node::Float(*bits),
            Node::Text(s) => Node::Text(s.clone()),
            Node::Array(cs) => {
                let n = cs.len();
                let mut out: Vec<Node> = Vec::new();
                for i in 0..n
                    invariant
                        n == cs@.len(),
                        out@.len() == i,
                        forall|j: int| 0 <= j < i ==> (#[trigger] out@[j])@ == cs@[j]@,
                {
                    proof {
                        assert(decreases_to!(*self => self->Array_0));
                        assert(decreases_to!(self->Array_0 => self->Array_0@));
                        vstd::seq::axiom_seq_index_decreases(self->Array_0@, i as int);
                    }
                    out.push(cs[i].deep_clone());
                }
                let r = Node::Array(out);
                proof {
                    assert(r@->Array_0 =~= self@->Array_0);
                    assert(r@ =~= self@);
                }
                r
            },
            Node::Object(es) => {
                let n = es.len();
                let mut out: Vec<(String, Node)> = Vec::new();
                for i in 0..n
                    invariant
                        n == es@.len(),
                        out@.len() == i,
                        forall|j: int|
                            0 <= j < i ==> (#[trigger] out@[j]).0@ == es@[j].0@ && out@[j].1@
                                == es@[j].1@,
                {
                    proof {
                        assert(decreases_to!(*self => self->Object_0));
                        assert(decreases_to!(self->Object_0 => self->Object_0@));
                        vstd::seq::axiom_seq_index_decreases(self->Object_0@, i as int);
                        assert(decreases_to!(self->Object_0@[i as int] => self->Object_0@[i as int].1));
                    }
                    out.push((es[i].0.clone(), es[i].1.deep_clone()));
                }
                let r = Node::Object(out);
                proof {
                    assert(r@->Object_0 =~= self@->Object_0);
                    assert(r@ =~= self@);
                }
                r
            },
        }
    }
}

} // verus!
