//! RFC 6901 JSON-Pointer resolution against a value tree.
//!
//! The empty pointer addresses the root.  Any other pointer must start with
//! `/` and is read as `/`-separated segments; inside a segment `~1` stands
//! for `/` and `~0` for `~`.  An object consumes a segment as a key, an
//! array as a non-negative base-10 index without leading zeros; any other
//! combination fails with "not found" — never a crash.

use vstd::prelude::*;

use crate::value::entries_model;
use crate::value::model_wf;
use crate::value::Node;
use crate::value::ValueModel;

verus! {

/// Leftmost, non-overlapping replacement of the two-character pattern `a b`
/// by the single character `r`.
pub open spec fn replace_pair(s: Seq<char>, a: char, b: char, r: char) -> Seq<char>
    decreases s.len(),
{
    if s.len() < 2 {
        s
    } else if s[0] == a && s[1] == b {
        seq![r] + replace_pair(s.skip(2), a, b, r)
    } else {
        seq![s[0]] + replace_pair(s.skip(1), a, b, r)
    }
}

/// A pointer segment with its escapes undone: first every `~1` becomes `/`,
/// then every `~0` becomes `~`.
pub open spec fn unescape(s: Seq<char>) -> Seq<char> {
    replace_pair(replace_pair(s, '~', '1', '/'), '~', '0', '~')
}

/// The end of the segment that starts at `i`: the first position at or after
/// `i` holding `/`, or the end of the pointer.
pub open spec fn seg_end(p: Seq<char>, i: int) -> int
    decreases p.len() - i,
{
    if i < 0 || i >= p.len() {
        p.len() as int
    } else if p[i] == '/' {
        i
    } else {
        seg_end(p, i + 1)
    }
}

pub proof fn lemma_seg_end(p: Seq<char>, i: int)
    requires
        0 <= i <= p.len(),
    ensures
        i <= seg_end(p, i) <= p.len(),
    decreases p.len() - i,
{
    if i < p.len() && p[i] != '/' {
        lemma_seg_end(p, i + 1);
    }
}

pub open spec fn is_digit(c: char) -> bool {
    48 <= c as u32 <= 57
}

pub open spec fn digit_val(c: char) -> nat {
    (c as u32 - 48) as nat
}

pub open spec fn all_digits(s: Seq<char>) -> bool {
    forall|i: int| 0 <= i < s.len() ==> is_digit(#[trigger] s[i])
}

/// Whether a (already unescaped) segment is a valid array index: at least
/// one digit, nothing but digits, and no leading zero.
pub open spec fn is_index_seg(s: Seq<char>) -> bool {
    s.len() > 0 && all_digits(s) && (s.len() == 1 || s[0] != '0')
}

/// The base-10 value of a digit string.
pub open spec fn index_val(s: Seq<char>) -> nat
    decreases s.len(),
{
    if s.len() == 0 {
        0
    } else {
        index_val(s.drop_last()) * 10 + digit_val(s.last())
    }
}

/// The first entry with the given key, if any.  Keys of a well-formed object
/// are unique, so "first" is immaterial there.
pub open spec fn entry_lookup(es: Seq<(Seq<char>, ValueModel)>, key: Seq<char>) -> Option<
    ValueModel,
>
    decreases es.len(),
{
    if es.len() == 0 {
        None
    } else if es[0].0 == key {
        Some(es[0].1)
    } else {
        entry_lookup(es.drop_first(), key)
    }
}

/// One resolution step: the child of `m` addressed by the unescaped segment
/// `seg`.  An object consumes a key, an array an index; a scalar has no
/// children, and a key never addresses into an array.
pub open spec fn child_for_segment(m: ValueModel, seg: Seq<char>) -> Option<ValueModel> {
    match m {
        ValueModel::Object(es) => entry_lookup(es, seg),
        ValueModel::Array(cs) => if is_index_seg(seg) && index_val(seg) < cs.len() {
            Some(cs[index_val(seg) as int])
        } else {
            None
        },
        _ => None,
    }
}

/// Resolution of the pointer tail `p[i..]` (a `/`-separated segment list,
/// `i` just past a `/`) against `m`.
pub open spec fn resolve_from(m: ValueModel, p: Seq<char>, i: int) -> Option<ValueModel>
    decreases p.len() - i,
    when 0 <= i <= p.len()
{
    let j = seg_end(p, i);
    match child_for_segment(m, unescape(p.subrange(i, j))) {
        None => None,
        Some(c) => if j >= p.len() {
            Some(c)
        } else {
            proof {
                lemma_seg_end(p, i);
            }
            resolve_from(c, p, j + 1)
        },
    }
}

/// Resolution of a whole pointer: the empty pointer addresses the root;
/// any other pointer must start with `/`.
pub open spec fn resolve_model(m: ValueModel, p: Seq<char>) -> Option<ValueModel> {
    if p.len() == 0 {
        Some(m)
    } else if p[0] != '/' {
        None
    } else {
        resolve_from(m, p, 1)
    }
}

proof fn lemma_entry_lookup_wf(es: Seq<(Seq<char>, ValueModel)>, key: Seq<char>)
    requires
        forall|i: int| 0 <= i < es.len() ==> model_wf(#[trigger] es[i].1),
    ensures
        entry_lookup(es, key) matches Some(c) ==> model_wf(c),
    decreases es.len(),
{
    if es.len() > 0 && es[0].0 != key {
        let tail = es.drop_first();
        assert forall|i: int| 0 <= i < tail.len() implies model_wf(#[trigger] tail[i].1) by {
            assert(tail[i] == es[i + 1]);
        }
        lemma_entry_lookup_wf(tail, key);
    }
}

proof fn lemma_child_wf(m: ValueModel, seg: Seq<char>)
    requires
        model_wf(m),
    ensures
        child_for_segment(m, seg) matches Some(c) ==> model_wf(c),
{
    match m {
        ValueModel::Object(es) => {
            assert forall|i: int| 0 <= i < es.len() implies model_wf(#[trigger] es[i].1) by {
                assert(es[i] == es[i]);
            }
            lemma_entry_lookup_wf(es, seg);
        },
        ValueModel::Array(cs) => {
            assert(model_wf(ValueModel::Array(cs)));
        },
        _ => {},
    }
}

pub proof fn lemma_resolve_from_wf(m: ValueModel, p: Seq<char>, i: int)
    requires
        model_wf(m),
        0 <= i <= p.len(),
    ensures
        resolve_from(m, p, i) matches Some(c) ==> model_wf(c),
    decreases p.len() - i,
{
    lemma_seg_end(p, i);
    let j = seg_end(p, i);
    let seg = unescape(p.subrange(i, j));
    lemma_child_wf(m, seg);
    match child_for_segment(m, seg) {
        Some(c) => {
            if j < p.len() {
                lemma_resolve_from_wf(c, p, j + 1);
            }
        },
        None => {},
    }
}

/// Resolution never leaves the well-formed fragment: whatever a pointer
/// resolves to in a well-formed document is well-formed itself.
pub proof fn lemma_resolve_wf(m: ValueModel, p: Seq<char>)
    requires
        model_wf(m),
    ensures
        resolve_model(m, p) matches Some(c) ==> model_wf(c),
{
    if p.len() != 0 && p[0] == '/' {
        lemma_resolve_from_wf(m, p, 1);
    }
}

/// Replaces every leftmost occurrence of the two-character pattern `a b` by
/// the one-character text `rep`.
fn replace_pair_exec(s: &str, a: char, b: char, rep: &str) -> (out: String)
    requires
        rep@.len() == 1,
    ensures
        out@ == replace_pair(s@, a, b, rep@[0]),
{
    let ghost r = rep@[0];
    let n = s.unicode_len();
    let mut out = String::new();
    let mut i: usize = 0;
    proof {
        assert(s@.skip(0) =~= s@);
        assert(Seq::<char>::empty() + replace_pair(s@, a, b, r) =~= replace_pair(s@, a, b, r));
    }
    while i < n
        invariant
            n == s@.len(),
            i <= n,
            rep@.len() == 1,
            r == rep@[0],
            replace_pair(s@, a, b, r) == out@ + replace_pair(s@.skip(i as int), a, b, r),
        decreases n - i,
    {
        let ghost t = s@.skip(i as int);
        proof {
            assert(t.len() == n - i);
            assert(t[0] == s@[i as int]);
        }
        let c = s.get_char(i);
        if i + 1 < n && c == a && s.get_char(i + 1) == b {
            proof {
                assert(t[1] == s@[i + 1]);
                assert(replace_pair(t, a, b, r) == seq![r] + replace_pair(t.skip(2), a, b, r));
                assert(t.skip(2) =~= s@.skip(i + 2));
                assert(rep@ =~= seq![r]);
                assert((out@ + rep@) + replace_pair(s@.skip(i + 2), a, b, r) =~= out@ + (seq![r]
                    + replace_pair(s@.skip(i + 2), a, b, r)));
            }
            out.append(rep);
            i = i + 2;
        } else {
            let piece = s.substring_char(i, i + 1);
            proof {
                assert(piece@ =~= seq![t[0]]);
                assert(t.skip(1) =~= s@.skip(i + 1));
                if t.len() >= 2 {
                    assert(!(t[0] == a && t[1] == b));
                    assert(replace_pair(t, a, b, r) == seq![t[0]] + replace_pair(
                        t.skip(1),
                        a,
                        b,
                        r,
                    ));
                } else {
                    assert(t =~= seq![t[0]]);
                    assert(replace_pair(t, a, b, r) == t);
                    assert(t.skip(1) =~= Seq::<char>::empty());
                    assert(replace_pair(t.skip(1), a, b, r) == t.skip(1));
                    assert(replace_pair(t, a, b, r) =~= seq![t[0]] + replace_pair(
                        t.skip(1),
                        a,
                        b,
                        r,
                    ));
                }
                assert((out@ + piece@) + replace_pair(s@.skip(i + 1), a, b, r) =~= out@ + (
                seq![t[0]] + replace_pair(s@.skip(i + 1), a, b, r)));
            }
            out.append(piece);
            i = i + 1;
        }
    }
    proof {
        assert(s@.skip(n as int) =~= Seq::<char>::empty());
        assert(out@ + replace_pair(s@.skip(n as int), a, b, r) =~= out@);
    }
    out
}

/// A digit string's value never shrinks when the string grows to the right.
proof fn lemma_index_val_prefix(s: Seq<char>, i: int)
    requires
        0 <= i <= s.len(),
    ensures
        index_val(s.subrange(0, i)) <= index_val(s),
    decreases s.len(),
{
    if i < s.len() {
        let shorter = s.drop_last();
        assert(shorter =~= s.subrange(0, s.len() - 1));
        assert(shorter.subrange(0, i) =~= s.subrange(0, i));
        lemma_index_val_prefix(shorter, i);
    } else {
        assert(s.subrange(0, i) =~= s);
    }
}

/// Parses an already unescaped segment as an array index smaller than
/// `bound`: digits only, no leading zero.  Anything else — or an index at or
/// past `bound` — is `None`, exactly when a resolution step into an array of
/// length `bound` would fail.
fn parse_index(seg: &str, bound: usize) -> (r: Option<usize>)
    ensures
        match r {
            Some(k) => is_index_seg(seg@) && index_val(seg@) == k && k < bound,
            None => !(is_index_seg(seg@) && index_val(seg@) < bound),
        },
{
    let n = seg.unicode_len();
    if n == 0 {
        return None;
    }
    if n > 1 && seg.get_char(0) == '0' {
        return None;
    }
    let mut val: usize = 0;
    let mut i: usize = 0;
    while i < n
        invariant
            n == seg@.len(),
            i <= n,
            all_digits(seg@.subrange(0, i as int)),
            val == index_val(seg@.subrange(0, i as int)),
        decreases n - i,
    {
        let c = seg.get_char(i);
        let code = c as u32;
        if code < 48 || code > 57 {
            assert(!is_digit(seg@[i as int]));
            return None;
        }
        let d = (code - 48) as usize;
        let ghost prefix = seg@.subrange(0, i as int);
        let ghost grown = seg@.subrange(0, i + 1);
        proof {
            assert(grown.drop_last() =~= prefix);
            assert(grown.last() == seg@[i as int]);
            assert(index_val(grown) == index_val(prefix) * 10 + digit_val(seg@[i as int]));
        }
        let next = match val.checked_mul(10) {
            Some(x) => x.checked_add(d),
            None => None,
        };
        match next {
            Some(x) => {
                val = x;
            },
            None => {
                proof {
                    assert(index_val(grown) > usize::MAX);
                    lemma_index_val_prefix(seg@, i + 1);
                    assert(index_val(seg@) > usize::MAX >= bound);
                }
                return None;
            },
        }
        i = i + 1;
        proof {
            assert(forall|j: int|
                0 <= j < i ==> is_digit(#[trigger] seg@.subrange(0, i as int)[j]));
        }
    }
    proof {
        assert(seg@.subrange(0, n as int) =~= seg@);
    }
    if val < bound {
        Some(val)
    } else {
        None
    }
}

/// The entry with the given key in an object's entry list, if any.
fn lookup_entry<'a>(es: &'a Vec<(String, Node)>, key: &String) -> (r: Option<&'a Node>)
    ensures
        match r {
            Some(c) => entry_lookup(entries_model(es@), key@) == Some(c@),
            None => entry_lookup(entries_model(es@), key@) is None,
        },
{
    let n = es.len();
    let ghost ms = entries_model(es@);
    let mut i: usize = 0;
    proof {
        assert(ms.skip(0) =~= ms);
    }
    while i < n
        invariant
            n == es@.len(),
            i <= n,
            ms == entries_model(es@),
            ms.len() == n,
            entry_lookup(ms, key@) == entry_lookup(ms.skip(i as int), key@),
        decreases n - i,
    {
        proof {
            assert(ms.skip(i as int)[0] == ms[i as int]);
        }
        if es[i].0.eq(key) {
            return Some(&es[i].1);
        }
        proof {
            assert(ms.skip(i as int).drop_first() =~= ms.skip(i + 1));
        }
        i = i + 1;
    }
    proof {
        assert(ms.skip(n as int) =~= Seq::<(Seq<char>, ValueModel)>::empty());
    }
    None
}

/// Undoes a segment's escapes: first every `~1` becomes `/`, then every
/// `~0` becomes `~`.
fn unescape_exec(seg: &str) -> (out: String)
    ensures
        out@ == unescape(seg@),
{
    proof {
        reveal_strlit("/");
        reveal_strlit("~");
    }
    let pass1 = replace_pair_exec(seg, '~', '1', "/");
    let pass2 = replace_pair_exec(pass1.as_str(), '~', '0', "~");
    pass2
}

/// Resolves a pointer against a node.  The empty pointer addresses the node
/// itself; any other pointer must start with `/` and walks objects by key
/// and arrays by index, segment by segment.  `None` is "not found", never a
/// crash.
pub fn resolve_node<'a>(n: &'a Node, pointer: &str) -> (r: Option<&'a Node>)
    ensures
        match r {
            Some(c) => resolve_model(n@, pointer@) == Some(c@),
            None => resolve_model(n@, pointer@) is None,
        },
{
    let plen = pointer.unicode_len();
    if plen == 0 {
        return Some(n);
    }
    if pointer.get_char(0) != '/' {
        return None;
    }
    let mut cur: &Node = n;
    let mut i: usize = 1;
    loop
        invariant
            plen == pointer@.len(),
            1 <= i <= plen,
            pointer@[0] == '/',
            resolve_model(n@, pointer@) == resolve_from(cur@, pointer@, i as int),
        decreases plen - i,
    {
        let mut j: usize = i;
        while j < plen && pointer.get_char(j) != '/'
            invariant
                i <= j <= plen,
                plen == pointer@.len(),
                seg_end(pointer@, i as int) == seg_end(pointer@, j as int),
            decreases plen - j,
        {
            j = j + 1;
        }
        proof {
            assert(seg_end(pointer@, i as int) == j as int);
        }
        let seg = pointer.substring_char(i, j);
        let useg = unescape_exec(seg);
        let child: Option<&Node> = match cur {
            Node::Object(es) => lookup_entry(es, &useg),
            Node::Array(cs) => {
                match parse_index(useg.as_str(), cs.len()) {
                    Some(k) => Some(&cs[k]),
                    None => None,
                }
            },
            _ => None,
        };
        proof {
            assert(seg@ == pointer@.subrange(i as int, j as int));
            assert(useg@ == unescape(seg@));
            match child {
                Some(c) => {
                    assert(child_for_segment(cur@, useg@) == Some(c@));
                },
                None => {
                    assert(child_for_segment(cur@, useg@) is None);
                },
            }
        }
        match child {
            None => {
                return None;
            },
            Some(c) => {
                if j == plen {
                    return Some(c);
                }
                cur = c;
                i = j + 1;
            },
        }
    }
}

} // verus!
