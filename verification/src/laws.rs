//! Guarantees that cut across several operations, stated and proved once.

use vstd::prelude::*;

use crate::pointer::lemma_resolve_wf;
use crate::store::extract_outcome;
use crate::store::keys_result;
use crate::store::resolve_opt;
use crate::store::value_type_result;
use crate::store::DataStore;
use crate::store::Handle;
use crate::store::KeysOutcome;
use crate::value::keys_of;
use crate::value::model_wf;
use crate::value::str_lt;
use crate::value::Ffi__DataType;
use crate::value::ValueModel;

verus! {

/// Repeated identical calls agree.  Every operation's result is described
/// by a function of the addressed document's model, the requested tag and
/// the pointer alone, and every operation's contract says it leaves each
/// open document unchanged; so a second identical call on the same handle
/// is described by the same outcome as the first, and the handle is still
/// valid when it is made.
pub proof fn lemma_repeated_calls_agree(
    s1: DataStore,
    s2: DataStore,
    h: Handle,
    dt: Ffi__DataType,
    p: Option<Seq<char>>,
)
    requires
        s1.valid(h),
        s2.valid(h),
        s2.doc(h) == s1.doc(h),
    ensures
        s2.valid(h),
        value_type_result(s2.doc(h), p) == value_type_result(s1.doc(h), p),
        keys_result(s2.doc(h), p) == keys_result(s1.doc(h), p),
        extract_outcome(s2.doc(h), dt, p) == extract_outcome(s1.doc(h), dt, p),
{
}

/// Key enumeration is sorted: whatever node a pointer resolves to in a
/// well-formed document, its keys come back in strictly ascending text
/// order — the tree's native ordering, not the source's insertion order.
pub proof fn lemma_keys_sorted(d: ValueModel, p: Option<Seq<char>>)
    requires
        model_wf(d),
    ensures
        keys_result(d, p) matches KeysOutcome::Keys(ks) ==> forall|i: int|
            0 <= i && i + 1 < ks.len() ==> str_lt(#[trigger] ks[i], ks[i + 1]),
{
    match p {
        Some(q) => lemma_resolve_wf(d, q),
        None => (),
    }
    match resolve_opt(d, p) {
        Some(c) => match c {
            ValueModel::Object(es) => {
                let ks = keys_of(es);
                assert forall|i: int| 0 <= i && i + 1 < ks.len() implies str_lt(
                    #[trigger] ks[i],
                    ks[i + 1],
                ) by {
                    assert(ks[i] == es[i].0);
                    assert(ks[i + 1] == es[i + 1].0);
                }
            },
            _ => (),
        },
        None => (),
    }
}

} // verus!
