//! The flattener: walks a tree and yields path-keyed scalar leaves, in
//! traversal order. Objects append `.<key>` (no separator before the first
//! segment); arrays append `[<index>]`. Empty containers yield no entries.
use crate::text::dec_str;
use crate::value::{Entry, EntryView, Val, ValView};
use vstd::prelude::*;

verus! {

broadcast use vstd::seq::axiom_seq_index_decreases, vstd::std_specs::vec::group_vec_axioms;

/// The view of a list of entries.
pub open spec fn entries_view(s: Seq<Entry>) -> Seq<EntryView> {
    Seq::new(
        s.len(),
        |i: int|
            if 0 <= i < s.len() {
                EntryView { key: s[i].key@, val: s[i].val@ }
            } else {
                EntryView { key: Seq::empty(), val: ValView::Null }
            },
    )
}

/// The path of the `i`-th element under a prefix.
pub open spec fn arr_path(prefix: Seq<char>, i: int) -> Seq<char> {
    prefix + "["@ + dec_str(i as nat) + "]"@
}

/// The path of the entry keyed `key` under a prefix.
pub open spec fn obj_path(prefix: Seq<char>, key: Seq<char>) -> Seq<char> {
    if prefix.len() == 0 {
        key
    } else {
        prefix + "."@ + key
    }
}

/// The ordered (path, leaf) pairs of a tree: a leaf yields itself at the
/// accumulated path; containers are expanded child by child.
pub open spec fn flat_spec(v: ValView, prefix: Seq<char>) -> Seq<EntryView>
    decreases v, 0int, 0int,
{
    match v {
        ValView::Arr(a) => flat_arr(a, prefix, 0),
        ValView::Obj(m) => flat_obj(m, prefix, 0),
        _ => seq![EntryView { key: prefix, val: v }],
    }
}

/// The pairs of the elements of `a` from index `i` on.
pub open spec fn flat_arr(a: Seq<ValView>, prefix: Seq<char>, i: int) -> Seq<EntryView>
    decreases a, 1int, a.len() - i,
{
    if i < 0 || i >= a.len() {
        Seq::empty()
    } else {
        flat_spec(a[i], arr_path(prefix, i)) + flat_arr(a, prefix, i + 1)
    }
}

/// The pairs of the entries of `m` from index `i` on.
pub open spec fn flat_obj(m: Seq<EntryView>, prefix: Seq<char>, i: int) -> Seq<EntryView>
    decreases m, 1int, m.len() - i,
{
    if i < 0 || i >= m.len() {
        Seq::empty()
    } else {
        flat_spec(m[i].val, obj_path(prefix, m[i].key)) + flat_obj(m, prefix, i + 1)
    }
}

/// Every pair yielded by flattening holds a leaf.
pub proof fn lemma_flat_leaves(v: ValView, prefix: Seq<char>)
    ensures
        forall|i: int|
            0 <= i < flat_spec(v, prefix).len() ==> (#[trigger] flat_spec(v, prefix)[i]).val.is_leaf(),
    decreases v, 0int, 0int,
{
    match v {
        ValView::Arr(a) => lemma_flat_arr_leaves(a, prefix, 0),
        ValView::Obj(m) => lemma_flat_obj_leaves(m, prefix, 0),
        _ => (),
    }
}

proof fn lemma_flat_arr_leaves(a: Seq<ValView>, prefix: Seq<char>, i: int)
    ensures
        forall|j: int|
            0 <= j < flat_arr(a, prefix, i).len() ==> (#[trigger] flat_arr(a, prefix, i)[j]).val.is_leaf(),
    decreases a, 1int, a.len() - i,
{
    if 0 <= i < a.len() {
        lemma_flat_leaves(a[i], arr_path(prefix, i));
        lemma_flat_arr_leaves(a, prefix, i + 1);
    }
}

proof fn lemma_flat_obj_leaves(m: Seq<EntryView>, prefix: Seq<char>, i: int)
    ensures
        forall|j: int|
            0 <= j < flat_obj(m, prefix, i).len() ==> (#[trigger] flat_obj(m, prefix, i)[j]).val.is_leaf(),
    decreases m, 1int, m.len() - i,
{
    if 0 <= i < m.len() {
        lemma_flat_leaves(m[i].val, obj_path(prefix, m[i].key));
        lemma_flat_obj_leaves(m, prefix, i + 1);
    }
}

proof fn lemma_entries_view_concat(a: Seq<Entry>, b: Seq<Entry>)
    ensures
        entries_view(a + b) == entries_view(a) + entries_view(b),
{
    assert(entries_view(a + b) =~= entries_view(a) + entries_view(b));
}

/// Flattens `value` into its ordered (path, leaf) pairs, starting from `prefix`.
#[verifier::loop_isolation(false)]
pub fn flatten_value(value: &Val, prefix: &str) -> (row: Vec<Entry>)
    ensures
        entries_view(row@) == flat_spec(value@, prefix@),
    decreases value,
{
    match value {
        Val::Arr(a) => {
            let mut out: Vec<Entry> = Vec::new();
            proof {
                assert(entries_view(out@) =~= Seq::empty());
            }
            for i in 0..a.len()
                invariant
                    entries_view(out@) + flat_arr(value@->Arr_0, prefix@, i as int) == flat_spec(
                        value@,
                        prefix@,
                    ),
            {
                let mut child_prefix = String::from_str(prefix);
                child_prefix.append("[");
                child_prefix.append(crate::text::u64_dec(i as u64).as_str());
                child_prefix.append("]");
                proof {
                    reveal_strlit("[");
                    reveal_strlit("]");
                    assert(child_prefix@ == arr_path(prefix@, i as int));
                }
                let mut sub = flatten_value(&a[i], child_prefix.as_str());
                let ghost old_out = out@;
                let ghost sub_snap = sub@;
                out.append(&mut sub);
                proof {
                    lemma_entries_view_concat(old_out, sub_snap);
                    assert(value@->Arr_0[i as int] == a[i as int]@);
                }
            }
            proof {
                assert(entries_view(out@) + Seq::<EntryView>::empty() =~= entries_view(out@));
            }
            out
        },
        Val::Obj(m) => {
            let mut out: Vec<Entry> = Vec::new();
            proof {
                assert(entries_view(out@) =~= Seq::empty());
            }
            for i in 0..m.len()
                invariant
                    entries_view(out@) + flat_obj(value@->Obj_0, prefix@, i as int) == flat_spec(
                        value@,
                        prefix@,
                    ),
            {
                let child_prefix = if prefix.is_empty() {
                    m[i].key.clone()
                } else {
                    let mut cp = String::from_str(prefix);
                    cp.append(".");
                    cp.append(m[i].key.as_str());
                    proof {
                        reveal_strlit(".");
                    }
                    cp
                };
                proof {
                    assert(child_prefix@ == obj_path(prefix@, m[i as int].key@));
                }
                let mut sub = flatten_value(&m[i].val, child_prefix.as_str());
                let ghost old_out = out@;
                let ghost sub_snap = sub@;
                out.append(&mut sub);
                proof {
                    lemma_entries_view_concat(old_out, sub_snap);
                    assert(value@->Obj_0[i as int] == (EntryView {
                        key: m[i as int].key@,
                        val: m[i as int].val@,
                    }));
                }
            }
            proof {
                assert(entries_view(out@) + Seq::<EntryView>::empty() =~= entries_view(out@));
            }
            out
        },
        _ => {
            let mut out: Vec<Entry> = Vec::new();
            out.push(Entry { key: String::from_str(prefix), val: value.duplicate() });
            proof {
                assert(entries_view(out@) =~= seq![
                    EntryView { key: prefix@, val: value@ },
                ]);
            }
            out
        },
    }
}

} // verus!
