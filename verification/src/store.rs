//! The handle lifecycle manager and error channel.
//!
//! A [`DataStore`] owns every open document.  Callers hold opaque
//! [`Handle`]s; every operation looks its document up, works on it, and
//! leaves it in place unchanged, so the handle stays valid across any number
//! of calls until [`DataStore::free_value`] consumes it.  Every failing
//! operation records its reason in the store's last-error slot before
//! returning its sentinel; successful operations never clear it.

use vstd::prelude::*;

use crate::parse::json_doc;
use crate::parse::parse_json;
use crate::pointer::lemma_resolve_wf;
use crate::pointer::resolve_model;
use crate::pointer::resolve_node;
use crate::value::entries_model;
use crate::value::keys_of;
use crate::value::model_wf;
use crate::value::node_model;
use crate::value::type_tag;
use crate::value::Ffi__DataType;
use crate::value::Node;
use crate::value::ValueModel;

verus! {

/// Opaque token for one open document in a [`DataStore`].
///
/// A handle is valid from the call that returned it until `free_value`
/// consumes it.  Using it afterwards violates the precondition of every
/// operation: the contract, not a checked error.
#[derive(Clone, Copy, Debug, PartialEq, Eq, Structural)]
pub struct Handle {
    idx: usize,
}

/// The pointer argument as text: absent means "the whole document".
pub open spec fn view_opt(p: Option<&str>) -> Option<Seq<char>> {
    match p {
        Some(s) => Some(s@),
        None => None,
    }
}

/// Resolution with an optional pointer: an absent pointer addresses the
/// root.
pub open spec fn resolve_opt(d: ValueModel, p: Option<Seq<char>>) -> Option<ValueModel> {
    match p {
        None => Some(d),
        Some(q) => resolve_model(d, q),
    }
}

/// What `get_value_type` reports: the declared shape of the node the
/// pointer resolves to, or nothing.
pub open spec fn value_type_result(d: ValueModel, p: Option<Seq<char>>) -> Option<
    Ffi__DataType,
> {
    match resolve_opt(d, p) {
        Some(c) => Some(type_tag(c)),
        None => None,
    }
}

/// Whether the error channel holds a lookup failure naming pointer `p`.
pub open spec fn names_lookup_failure(e: Option<DataError>, p: Option<Seq<char>>) -> bool {
    e matches Some(DataError::Lookup(s)) && Some(s@) == p
}

/// What `get_value_keys` finds.  A pointer that does not resolve is an
/// error; a resolved node that is no object gives the same empty sentinel
/// with no error recorded — the two are told apart only through the error
/// channel.
pub enum KeysOutcome {
    NotFound,
    NotObject,
    Keys(Seq<Seq<char>>),
}

pub open spec fn keys_result(d: ValueModel, p: Option<Seq<char>>) -> KeysOutcome {
    match resolve_opt(d, p) {
        None => KeysOutcome::NotFound,
        Some(c) => match c {
            ValueModel::Object(es) => KeysOutcome::Keys(keys_of(es)),
            _ => KeysOutcome::NotObject,
        },
    }
}

/// Every document open in `before` is still open in `after`, unchanged:
/// the lifecycle invariant that every operation but `free_value` keeps.
pub open spec fn preserves(before: DataStore, after: DataStore) -> bool {
    forall|g: Handle| before.valid(g) ==> after.valid(g) && after.doc(g) == before.doc(g)
}

/// No handle is open in `after` that was not open in `before`.
pub open spec fn no_new_handles(before: DataStore, after: DataStore) -> bool {
    forall|g: Handle| after.valid(g) ==> before.valid(g)
}

/// A payload handed back by [`DataStore::get_value`], in a boundary-safe
/// shape: plain values, owned text, or handles to freshly opened
/// sub-documents.
pub enum Payload {
    /// A successful `Null` request carries nothing.
    Nothing,
    Flag(bool),
    IntVal(i64),
    UintVal(u64),
    /// A float's IEEE-754 bit pattern.
    FloatBits(u64),
    /// An owned, independently released copy of the node's text.
    Text(String),
    /// One fresh, independent handle per element of the resolved array.
    Items(Vec<Handle>),
    /// A handle to the requested document.
    Doc(Handle),
}

/// What `get_value` does for a given document model, requested tag and
/// pointer: the contract's description of every branch of the dispatch.
pub enum Outcome {
    /// The pointer did not resolve: sentinel, lookup error.
    NotFound,
    /// The node's shape is not the requested one: sentinel, mismatch error
    /// naming the requested tag, then the actual one.
    WrongShape(Ffi__DataType, Ffi__DataType),
    Nothing,
    Flag(bool),
    IntVal(i64),
    UintVal(u64),
    FloatBits(u64),
    Text(Seq<char>),
    /// The models of the array's elements, each to be re-exposed behind a
    /// fresh root handle.
    Items(Seq<ValueModel>),
    /// An object was requested with no pointer against an object root: the
    /// caller's own handle is re-exposed unchanged.
    SameDoc,
    /// A deep copy of the resolved node, re-exposed as a new root handle.
    DocCopy(ValueModel),
}

pub open spec fn extract_outcome(
    d: ValueModel,
    dt: Ffi__DataType,
    p: Option<Seq<char>>,
) -> Outcome {
    match resolve_opt(d, p) {
        None => Outcome::NotFound,
        Some(c) => match dt {
            Ffi__DataType::Null => match c {
                ValueModel::Null => Outcome::Nothing,
                _ => Outcome::WrongShape(dt, type_tag(c)),
            },
            Ffi__DataType::Bool => match c {
                ValueModel::Bool(b) => Outcome::Flag(b),
                _ => Outcome::WrongShape(dt, type_tag(c)),
            },
            Ffi__DataType::Int64 => match c {
                ValueModel::Int(i) => Outcome::IntVal(i),
                _ => Outcome::WrongShape(dt, type_tag(c)),
            },
            Ffi__DataType::Uint64 => match c {
                ValueModel::Uint(u) => Outcome::UintVal(u),
                _ => Outcome::WrongShape(dt, type_tag(c)),
            },
            Ffi__DataType::Float => match c {
                ValueModel::Float(bits) => Outcome::FloatBits(bits),
                _ => Outcome::WrongShape(dt, type_tag(c)),
            },
            Ffi__DataType::String => match c {
                ValueModel::Text(s) => Outcome::Text(s),
                _ => Outcome::WrongShape(dt, type_tag(c)),
            },
            Ffi__DataType::Array => match c {
                ValueModel::Array(cs) => Outcome::Items(cs),
                _ => Outcome::WrongShape(dt, type_tag(c)),
            },
            Ffi__DataType::Object => match p {
                Some(_) => Outcome::DocCopy(c),
                None => match c {
                    ValueModel::Object(_) => Outcome::SameDoc,
                    _ => Outcome::WrongShape(dt, type_tag(c)),
                },
            },
        },
    }
}

/// What phase one of `get_value` hands to phase two: everything read from
/// the borrowed document, before any slot is touched.
enum Staged {
    NotFound,
    WrongShape(Ffi__DataType),
    Done(Payload),
    Children(Vec<Node>),
    CopyDoc(Node),
}

/// What the last failing operation recorded in the error channel.
pub enum DataError {
    /// A pointer that did not resolve; holds the pointer's text.
    Lookup(String),
    /// A shape mismatch: the requested tag, then the one actually found.
    Mismatch(Ffi__DataType, Ffi__DataType),
    /// A text that did not load as a document; holds the parser's words.
    Load(String),
    /// A text argument or result that cannot be represented as valid
    /// interchange text; holds the boundary's words.
    Encoding(String),
}

/// The name of a type tag, as it appears in a mismatch message.
pub open spec fn tag_name(t: Ffi__DataType) -> Seq<char> {
    match t {
        Ffi__DataType::Null => "Null"@,
        Ffi__DataType::Bool => "Bool"@,
        Ffi__DataType::Int64 => "Int64"@,
        Ffi__DataType::Uint64 => "Uint64"@,
        Ffi__DataType::Float => "Float"@,
        Ffi__DataType::String => "String"@,
        Ffi__DataType::Array => "Array"@,
        Ffi__DataType::Object => "Object"@,
    }
}

/// The human-readable description of an error: a lookup failure names the
/// pointer, a shape mismatch names the requested and the actual shape, a
/// load failure carries the parser's words.
pub open spec fn error_text(e: DataError) -> Seq<char> {
    match e {
        DataError::Lookup(p) => "Could not find "@ + p@ + " in data"@,
        DataError::Mismatch(exp, act) => "Expected "@ + tag_name(exp) + ", found "@ + tag_name(
            act,
        ),
        DataError::Load(s) => s@,
        DataError::Encoding(s) => s@,
    }
}

/// The tag's name as text.
pub fn tag_name_text(t: Ffi__DataType) -> (r: &'static str)
    ensures
        r@ == tag_name(t),
{
    match t {
        Ffi__DataType::Null => "Null",
        Ffi__DataType::Bool => "Bool",
        Ffi__DataType::Int64 => "Int64",
        Ffi__DataType::Uint64 => "Uint64",
        Ffi__DataType::Float => "Float",
        Ffi__DataType::String => "String",
        Ffi__DataType::Array => "Array",
        Ffi__DataType::Object => "Object",
    }
}

impl DataError {
    /// Renders the error for the boundary's last-error accessor.
    pub fn message(&self) -> (m: String)
        ensures
            m@ == error_text(*self),
    {
        match self {
            DataError::Lookup(p) => {
                let mut m = String::from_str("Could not find ");
                m.append(p.as_str());
                m.append(" in data");
                m
            },
            DataError::Mismatch(exp, act) => {
                let mut m = String::from_str("Expected ");
                m.append(tag_name_text(*exp));
                m.append(", found ");
                m.append(tag_name_text(*act));
                m
            },
            DataError::Load(s) => s.clone(),
            DataError::Encoding(s) => s.clone(),
        }
    }
}

/// The store: every open document, addressed by handle, plus the process's
/// last-error slot.
pub struct DataStore {
    slots: Vec<Option<Node>>,
    err: Option<DataError>,
}

impl DataStore {
    /// Whether `h` currently refers to an open document.
    pub closed spec fn valid(self, h: Handle) -> bool {
        h.idx < self.slots@.len() && self.slots@[h.idx as int] is Some
    }

    /// The model of the document `h` refers to.
    pub closed spec fn doc(self, h: Handle) -> ValueModel {
        node_model(self.slots@[h.idx as int]->Some_0)
    }

    /// The error channel's content.
    pub closed spec fn err_slot(self) -> Option<DataError> {
        self.err
    }

    /// Every open document is well-formed.
    pub closed spec fn wf(self) -> bool {
        forall|k: int|
            0 <= k < self.slots@.len() && self.slots@[k] is Some ==> model_wf(
                node_model(#[trigger] self.slots@[k]->Some_0),
            )
    }

    /// An empty store: no documents, nothing in the error channel.
    pub fn new() -> (s: DataStore)
        ensures
            s.wf(),
            s.err_slot() is None,
            forall|g: Handle| !s.valid(g),
    {
        DataStore { slots: Vec::new(), err: None }
    }

    /// Reads the error channel, to be consulted immediately after a
    /// sentinel result.
    pub fn last_error(&self) -> (r: &Option<DataError>)
        ensures
            *r == self.err_slot(),
    {
        &self.err
    }

    /// Loads a document from its text.  On success a fresh handle to the
    /// parsed tree comes back and the error channel is untouched; on
    /// failure no handle is produced and the error channel holds the load
    /// error.  Already open documents are never affected.
    pub fn data_open(&mut self, text: &str) -> (r: Option<Handle>)
        requires
            old(self).wf(),
        ensures
            final(self).wf(),
            forall|g: Handle|
                old(self).valid(g) ==> final(self).valid(g) && final(self).doc(g) == old(
                    self,
                ).doc(g),
            match r {
                Some(h) => {
                    &&& json_doc(text@) == Some(final(self).doc(h))
                    &&& final(self).valid(h)
                    &&& !old(self).valid(h)
                    &&& final(self).err_slot() == old(self).err_slot()
                    &&& forall|g: Handle|
                        final(self).valid(g) ==> old(self).valid(g) || g == h
                },
                None => {
                    &&& json_doc(text@) is None
                    &&& final(self).err_slot() matches Some(DataError::Load(_))
                    &&& forall|g: Handle| final(self).valid(g) ==> old(self).valid(g)
                },
            },
    {
        match parse_json(text) {
            Ok(node) => {
                let h = Handle { idx: self.slots.len() };
                self.slots.push(Some(node));
                Some(h)
            },
            Err(msg) => {
                self.err = Some(DataError::Load(msg));
                None
            },
        }
    }

    /// The declared shape of the node the pointer resolves to, as a type
    /// tag.  On resolution failure the failure sentinel `None` comes back
    /// and the error channel names the pointer; no document is ever
    /// changed, and the handle stays valid either way.
    pub fn get_value_type(&mut self, h: Handle, pointer: Option<&str>) -> (r: Option<
        Ffi__DataType,
    >)
        requires
            old(self).wf(),
            old(self).valid(h),
        ensures
            final(self).wf(),
            forall|g: Handle|
                old(self).valid(g) ==> final(self).valid(g) && final(self).doc(g) == old(
                    self,
                ).doc(g),
            forall|g: Handle| final(self).valid(g) ==> old(self).valid(g),
            r == value_type_result(old(self).doc(h), view_opt(pointer)),
            match resolve_opt(old(self).doc(h), view_opt(pointer)) {
                Some(_) => final(self).err_slot() == old(self).err_slot(),
                None => names_lookup_failure(final(self).err_slot(), view_opt(pointer)),
            },
    {
        let found: Option<Ffi__DataType> = {
            let node: &Node = match &self.slots[h.idx] {
                Some(nd) => nd,
                None => {
                    proof {
                        assert(false);
                    }
                    return None;
                },
            };
            match pointer {
                Some(p) => match resolve_node(node, p) {
                    Some(c) => Some(c.node_type()),
                    None => None,
                },
                None => Some(node.node_type()),
            }
        };
        match found {
            Some(t) => Some(t),
            None => {
                match pointer {
                    Some(p) => {
                        self.err = Some(DataError::Lookup(p.to_owned()));
                    },
                    None => {
                        proof {
                            assert(false);
                        }
                    },
                }
                None
            },
        }
    }

    /// The keys of the object the pointer resolves to, as independently
    /// owned text, in the tree's native (ascending) key order.  A node that
    /// resolves but is no object gives the empty sentinel with **no** error
    /// recorded; a pointer that does not resolve gives the empty sentinel
    /// and records a lookup error naming the pointer.
    pub fn get_value_keys(&mut self, h: Handle, pointer: Option<&str>) -> (r: Option<
        Vec<String>,
    >)
        requires
            old(self).wf(),
            old(self).valid(h),
        ensures
            final(self).wf(),
            forall|g: Handle|
                old(self).valid(g) ==> final(self).valid(g) && final(self).doc(g) == old(
                    self,
                ).doc(g),
            forall|g: Handle| final(self).valid(g) ==> old(self).valid(g),
            match keys_result(old(self).doc(h), view_opt(pointer)) {
                KeysOutcome::NotFound => r is None && names_lookup_failure(
                    final(self).err_slot(),
                    view_opt(pointer),
                ),
                KeysOutcome::NotObject => r is None && final(self).err_slot() == old(
                    self,
                ).err_slot(),
                KeysOutcome::Keys(ks) => (r matches Some(v) && v.deep_view() == ks) && final(self).err_slot() == old(self).err_slot(),
            },
    {
        let staged: Result<Vec<String>, bool> = {
            let node: &Node = match &self.slots[h.idx] {
                Some(nd) => nd,
                None => {
                    proof {
                        assert(false);
                    }
                    return None;
                },
            };
            let target: Option<&Node> = match pointer {
                Some(p) => resolve_node(node, p),
                None => Some(node),
            };
            match target {
                None => Err(true),
                Some(nd) => match nd {
                    Node::Object(es) => {
                        let n = es.len();
                        let mut out: Vec<String> = Vec::new();
                        for i in 0..n
                            invariant
                                n == es@.len(),
                                out@.len() == i,
                                forall|j: int| 0 <= j < i ==> (#[trigger] out@[j])@ == es@[j].0@,
                        {
                            out.push(es[i].0.clone());
                        }
                        proof {
                            assert(out.deep_view() =~= keys_of(entries_model(es@)));
                        }
                        Ok(out)
                    },
                    _ => Err(false),
                },
            }
        };
        match staged {
            Ok(v) => Some(v),
            Err(record) => {
                if record {
                    match pointer {
                        Some(p) => {
                            self.err = Some(DataError::Lookup(p.to_owned()));
                        },
                        None => {
                            proof {
                                assert(false);
                            }
                        },
                    }
                }
                None
            },
        }
    }

    /// Extracts the resolved node's payload in the requested shape.  The
    /// dispatch is strict: each tag succeeds only on a node of exactly its
    /// own shape, with no coercion between the numeric shapes.  An
    /// `Object` request with a pointer re-exposes a deep copy of whatever
    /// the pointer resolves to behind a fresh handle; without a pointer it
    /// re-exposes the caller's own handle, and only if the root itself is
    /// an object.  Every failure records its error and returns the
    /// sentinel; the addressed document — and every other open document —
    /// survives unchanged either way.
    pub fn get_value(&mut self, h: Handle, data_type: Ffi__DataType, pointer: Option<&str>) -> (r:
        Option<Payload>)
        requires
            old(self).wf(),
            old(self).valid(h),
        ensures
            final(self).wf(),
            preserves(*old(self), *final(self)),
            match extract_outcome(old(self).doc(h), data_type, view_opt(pointer)) {
                Outcome::NotFound => r is None && names_lookup_failure(
                    final(self).err_slot(),
                    view_opt(pointer),
                ) && no_new_handles(*old(self), *final(self)),
                Outcome::WrongShape(e, f) => r is None && final(self).err_slot() == Some(
                    DataError::Mismatch(e, f),
                ) && no_new_handles(*old(self), *final(self)),
                Outcome::Nothing => r == Some(Payload::Nothing) && final(self).err_slot() == old(
                    self,
                ).err_slot() && no_new_handles(*old(self), *final(self)),
                Outcome::Flag(b) => r == Some(Payload::Flag(b)) && final(self).err_slot() == old(
                    self,
                ).err_slot() && no_new_handles(*old(self), *final(self)),
                Outcome::IntVal(i) => r == Some(Payload::IntVal(i)) && final(self).err_slot()
                    == old(self).err_slot() && no_new_handles(*old(self), *final(self)),
                Outcome::UintVal(u) => r == Some(Payload::UintVal(u)) && final(self).err_slot()
                    == old(self).err_slot() && no_new_handles(*old(self), *final(self)),
                Outcome::FloatBits(bits) => r == Some(Payload::FloatBits(bits)) && final(self).err_slot() == old(self).err_slot() && no_new_handles(*old(self), *final(self)),
                Outcome::Text(s) => (r matches Some(Payload::Text(t)) && t@ == s) && final(self).err_slot() == old(self).err_slot() && no_new_handles(*old(self), *final(self)),
                Outcome::Items(ds) => (r matches Some(Payload::Items(hs)) && hs@.len() == ds.len()
                    && (forall|k: int|
                    0 <= k < hs@.len() ==> final(self).valid(#[trigger] hs@[k]) && !old(
                        self,
                    ).valid(hs@[k]) && final(self).doc(hs@[k]) == ds[k]) && (forall|
                    k1: int,
                    k2: int,
                |
                    0 <= k1 < k2 < hs@.len() ==> hs@[k1] != hs@[k2])) && final(self).err_slot()
                    == old(self).err_slot(),
                Outcome::SameDoc => r == Some(Payload::Doc(h)) && final(self).err_slot() == old(
                    self,
                ).err_slot() && no_new_handles(*old(self), *final(self)),
                Outcome::DocCopy(c) => (r matches Some(Payload::Doc(g)) && final(self).valid(g)
                    && !old(self).valid(g) && final(self).doc(g) == c) && final(self).err_slot()
                    == old(self).err_slot(),
            },
    {
        let staged: Staged = {
            let node: &Node = match &self.slots[h.idx] {
                Some(nd) => nd,
                None => {
                    proof {
                        assert(false);
                    }
                    return None;
                },
            };
            let target: Option<&Node> = match pointer {
                Some(p) => resolve_node(node, p),
                None => Some(node),
            };
            proof {
                match pointer {
                    Some(p) => lemma_resolve_wf(node@, p@),
                    None => (),
                }
            }
            match target {
                None => Staged::NotFound,
                Some(nd) => match data_type {
                    Ffi__DataType::Null => match nd {
                        Node::Null => Staged::Done(Payload::Nothing),
                        _ => Staged::WrongShape(nd.node_type()),
                    },
                    Ffi__DataType::Bool => match nd {
                        Node::Bool(b) => Staged::Done(Payload::Flag(*b)),
                        _ => Staged::WrongShape(nd.node_type()),
                    },
                    Ffi__DataType::Int64 => match nd {
                        Node::Int(i) => Staged::Done(Payload::IntVal(*i)),
                        _ => Staged::WrongShape(nd.node_type()),
                    },
                    Ffi__DataType::Uint64 => match nd {
                        Node::Uint(u) => Staged::Done(Payload::UintVal(*u)),
                        _ => Staged::WrongShape(nd.node_type()),
                    },
                    Ffi__DataType::Float => match nd {
                        Node::Float(bits) => Staged::Done(Payload::FloatBits(*bits)),
                        _ => Staged::WrongShape(nd.node_type()),
                    },
                    Ffi__DataType::String => match nd {
                        Node::Text(s) => Staged::Done(Payload::Text(s.clone())),
                        _ => Staged::WrongShape(nd.node_type()),
                    },
                    Ffi__DataType::Array => match nd {
                        Node::Array(cs) => {
                            let n = cs.len();
                            let mut copies: Vec<Node> = Vec::new();
                            for k in 0..n
                                invariant
                                    n == cs@.len(),
                                    copies@.len() == k,
                                    forall|j: int|
                                        0 <= j < k ==> (#[trigger] copies@[j])@ == cs@[j]@,
                            {
                                copies.push(cs[k].deep_clone());
                            }
                            Staged::Children(copies)
                        },
                        _ => Staged::WrongShape(nd.node_type()),
                    },
                    Ffi__DataType::Object => match pointer {
                        Some(_) => Staged::CopyDoc(nd.deep_clone()),
                        None => match nd {
                            Node::Object(_) => Staged::Done(Payload::Doc(h)),
                            _ => Staged::WrongShape(nd.node_type()),
                        },
                    },
                },
            }
        };
        let ghost out0 = extract_outcome(old(self).doc(h), data_type, view_opt(pointer));
        match staged {
            Staged::NotFound => {
                match pointer {
                    Some(p) => {
                        self.err = Some(DataError::Lookup(p.to_owned()));
                    },
                    None => {
                        proof {
                            assert(false);
                        }
                    },
                }
                None
            },
            Staged::WrongShape(found) => {
                self.err = Some(DataError::Mismatch(data_type, found));
                None
            },
            Staged::Done(p) => Some(p),
            Staged::Children(copies) => {
                let ghost ds = out0->Items_0;
                let ghost base = self.slots@.len();
                let n = copies.len();
                let mut rest = copies;
                let mut hs: Vec<Handle> = Vec::new();
                proof {
                    assert(forall|j: int| 0 <= j < ds.len() ==> model_wf(#[trigger] ds[j]));
                }
                for k in 0..n
                    invariant
                        n == ds.len(),
                        rest@.len() == n - k,
                        hs@.len() == k,
                        base == old(self).slots@.len(),
                        self.slots@.len() == base + k,
                        forall|j: int| 0 <= j < n - k ==> (#[trigger] rest@[j])@ == ds[k + j],
                        forall|j: int| 0 <= j < ds.len() ==> model_wf(#[trigger] ds[j]),
                        forall|j: int| 0 <= j < k ==> (#[trigger] hs@[j]).idx == base + j,
                        forall|j: int|
                            0 <= j < k ==> self.valid(#[trigger] hs@[j]) && self.doc(hs@[j])
                                == ds[j],
                        self.wf(),
                        self.err_slot() == old(self).err_slot(),
                        preserves(*old(self), *self),
                {
                    let nd = rest.remove(0);
                    let g = Handle { idx: self.slots.len() };
                    self.slots.push(Some(nd));
                    hs.push(g);
                }
                proof {
                    assert(forall|j: int|
                        0 <= j < n ==> !old(self).valid(#[trigger] hs@[j]));
                }
                Some(Payload::Items(hs))
            },
            Staged::CopyDoc(nd) => {
                let g = Handle { idx: self.slots.len() };
                self.slots.push(Some(nd));
                Some(Payload::Doc(g))
            },
        }
    }

    /// Consumes a handle: its document is destroyed and the handle must
    /// never be used again — any later call with it violates that
    /// operation's precondition.  Every other handle survives untouched.
    /// Returns 0, the success status.
    pub fn free_value(&mut self, h: Handle) -> (r: u8)
        requires
            old(self).wf(),
            old(self).valid(h),
        ensures
            final(self).wf(),
            r == 0,
            !final(self).valid(h),
            forall|g: Handle|
                g != h && old(self).valid(g) ==> final(self).valid(g) && final(self).doc(g)
                    == old(self).doc(g),
            forall|g: Handle| final(self).valid(g) ==> old(self).valid(g),
            final(self).err_slot() == old(self).err_slot(),
    {
        self.slots[h.idx] = None;
        0
    }

    /// Records a load failure reported by the boundary, for the half of
    /// open — reading the path — that happens outside the store.  Open
    /// documents are untouched.
    pub fn record_load_error(&mut self, msg: String)
        requires
            old(self).wf(),
        ensures
            final(self).wf(),
            preserves(*old(self), *final(self)),
            no_new_handles(*old(self), *final(self)),
            final(self).err_slot() matches Some(DataError::Load(m)) && m@ == msg@,
    {
        self.err = Some(DataError::Load(msg));
    }

    /// Records an encoding failure reported by the boundary: a text
    /// argument or result that cannot be represented as valid interchange
    /// text.  Open documents are untouched.
    pub fn record_encoding_error(&mut self, msg: String)
        requires
            old(self).wf(),
        ensures
            final(self).wf(),
            preserves(*old(self), *final(self)),
            no_new_handles(*old(self), *final(self)),
            final(self).err_slot() matches Some(DataError::Encoding(m)) && m@ == msg@,
    {
        self.err = Some(DataError::Encoding(msg));
    }

    /// Whether a handle currently refers to an open document, for a
    /// boundary that wants to test before it calls.
    pub fn is_valid(&self, h: Handle) -> (r: bool)
        ensures
            r == self.valid(h),
    {
        h.idx < self.slots.len() && match &self.slots[h.idx] {
            Some(_) => true,
            None => false,
        }
    }

    /// Every open document of a well-formed store is itself well-formed.
    pub proof fn lemma_doc_wf(self, h: Handle)
        requires
            self.wf(),
            self.valid(h),
        ensures
            model_wf(self.doc(h)),
    {
    }
}

} // verus!
