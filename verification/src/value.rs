//! The shared tree model: every parser produces a `Val`, every serializer
//! consumes one, and all algorithms of this crate walk it.
use crate::text::str_eq;
use vstd::prelude::*;

verus! {

broadcast use vstd::seq::axiom_seq_index_decreases, vstd::std_specs::vec::group_vec_axioms;

/// One object entry: a key bound to a value. Entry order is insertion order
/// and is preserved end to end.
#[derive(PartialEq, Eq, Debug)]
pub struct Entry {
    pub key: String,
    pub val: Val,
}

/// A tagged-union tree over null, booleans, numbers, text, ordered arrays
/// and insertion-ordered objects. A number is carried as its canonical
/// decimal text, with no integer/float distinction; the algorithms only ever
/// carry or print it. Object keys are unique in a well-formed value.
#[derive(PartialEq, Eq, Debug)]
pub enum Val {
    Null,
    Bool(bool),
    Num(String),
    Text(String),
    Arr(Vec<Val>),
    Obj(Vec<Entry>),
}

/// The mathematical shape of an `Entry`.
pub struct EntryView {
    pub key: Seq<char>,
    pub val: ValView,
}

/// The mathematical shape of a `Val`: the same tree over `int`, `Seq<char>`
/// and `Seq`. All contracts in this crate speak of this type.
pub enum ValView {
    Null,
    Bool(bool),
    Num(Seq<char>),
    Text(Seq<char>),
    Arr(Seq<ValView>),
    Obj(Seq<EntryView>),
}

impl View for Val {
    type V = ValView;

    open spec fn view(&self) -> ValView
        decreases self,
    {
        match self {
            Val::Null => ValView::Null,
            Val::Bool(b) => ValView::Bool(*b),
            Val::Num(n) => ValView::Num(n@),
            Val::Text(s) => ValView::Text(s@),
            Val::Arr(a) => ValView::Arr(
                Seq::new(
                    a.len() as nat,
                    |i: int| if 0 <= i < a.len() { a[i]@ } else { ValView::Null },
                ),
            ),
            Val::Obj(m) => ValView::Obj(
                Seq::new(
                    m.len() as nat,
                    |i: int|
                        if 0 <= i < m.len() {
                            EntryView { key: m[i].key@, val: m[i].val@ }
                        } else {
                            EntryView { key: Seq::empty(), val: ValView::Null }
                        },
                ),
            ),
        }
    }
}

impl View for Entry {
    type V = EntryView;

    open spec fn view(&self) -> EntryView {
        EntryView { key: self.key@, val: self.val@ }
    }
}

impl ValView {
    /// Object keys are unique at every object node.
    pub open spec fn wf(self) -> bool
        decreases self, 0int, 0int,
    {
        match self {
            ValView::Arr(a) => wf_elems(a, 0),
            ValView::Obj(m) => {
                &&& forall|i: int, j: int|
                    0 <= i < j < m.len() ==> (#[trigger] m[i].key) != (#[trigger] m[j].key)
                &&& wf_entries(m, 0)
            },
            _ => true,
        }
    }

    /// A leaf is any value that is not an array and not an object.
    pub open spec fn is_leaf(self) -> bool {
        match self {
            ValView::Arr(_) => false,
            ValView::Obj(_) => false,
            _ => true,
        }
    }
}

/// The container nesting of `v` is at most `d` levels deep.
pub open spec fn nest_le(v: ValView, d: int) -> bool
    decreases v,
{
    match v {
        ValView::Arr(a) => d >= 1 && forall|i: int|
            0 <= i < a.len() ==> nest_le(#[trigger] a[i], d - 1),
        ValView::Obj(m) => d >= 1 && forall|i: int|
            0 <= i < m.len() ==> nest_le((#[trigger] m[i]).val, d - 1),
        _ => true,
    }
}

/// First binding of `key` among the entries of an object, if any.
pub open spec fn entries_get(m: Seq<EntryView>, key: Seq<char>) -> Option<ValView>
    decreases m.len(),
{
    if m.len() == 0 {
        None
    } else if m[0].key == key {
        Some(m[0].val)
    } else {
        entries_get(m.drop_first(), key)
    }
}

/// The elements of `a` from index `i` on are well-formed.
pub open spec fn wf_elems(a: Seq<ValView>, i: int) -> bool
    decreases a, 1int, a.len() - i,
{
    if i < 0 || i >= a.len() {
        true
    } else {
        a[i].wf() && wf_elems(a, i + 1)
    }
}

/// The entry values of `m` from index `i` on are well-formed.
pub open spec fn wf_entries(m: Seq<EntryView>, i: int) -> bool
    decreases m, 1int, m.len() - i,
{
    if i < 0 || i >= m.len() {
        true
    } else {
        m[i].val.wf() && wf_entries(m, i + 1)
    }
}

proof fn lemma_wf_elems_each(a: Seq<ValView>, i: int, j: int)
    requires
        wf_elems(a, i),
        i <= j < a.len(),
        0 <= i,
    ensures
        a[j].wf(),
    decreases j - i,
{
    if i < j {
        lemma_wf_elems_each(a, i + 1, j);
    }
}

proof fn lemma_wf_entries_each(m: Seq<EntryView>, i: int, j: int)
    requires
        wf_entries(m, i),
        i <= j < m.len(),
        0 <= i,
    ensures
        m[j].val.wf(),
    decreases j - i,
{
    if i < j {
        lemma_wf_entries_each(m, i + 1, j);
    }
}

/// Well-formedness passes to the members of a container.
pub proof fn lemma_wf_member(v: ValView, i: int)
    requires
        v.wf(),
    ensures
        v matches ValView::Arr(a) ==> (0 <= i < a.len() ==> a[i].wf()),
        v matches ValView::Obj(m) ==> (0 <= i < m.len() ==> m[i].val.wf()),
{
    match v {
        ValView::Arr(a) => {
            if 0 <= i < a.len() {
                lemma_wf_elems_each(a, 0, i);
            }
        },
        ValView::Obj(m) => {
            if 0 <= i < m.len() {
                lemma_wf_entries_each(m, 0, i);
            }
        },
        _ => (),
    }
}

/// `entries_get` returns the first entry whose key matches.
pub proof fn lemma_entries_get_first(m: Seq<EntryView>, key: Seq<char>, i: int)
    requires
        0 <= i < m.len(),
        m[i].key == key,
        forall|j: int| 0 <= j < i ==> (#[trigger] m[j]).key != key,
    ensures
        entries_get(m, key) == Some(m[i].val),
    decreases i,
{
    if i == 0 {
    } else {
        assert(forall|j: int| 0 <= j < i - 1 ==> #[trigger] m.drop_first()[j] == m[j + 1]);
        lemma_entries_get_first(m.drop_first(), key, i - 1);
    }
}

/// `entries_get` finds nothing when no key matches.
pub proof fn lemma_entries_get_none(m: Seq<EntryView>, key: Seq<char>)
    requires
        forall|j: int| 0 <= j < m.len() ==> (#[trigger] m[j]).key != key,
    ensures
        entries_get(m, key) is None,
    decreases m.len(),
{
    if m.len() != 0 {
        assert(forall|j: int|
            0 <= j < m.drop_first().len() ==> #[trigger] m.drop_first()[j] == m[j + 1]);
        lemma_entries_get_none(m.drop_first(), key);
    }
}

/// A found entry value is one of the entries of the sequence.
pub proof fn lemma_entries_get_index(m: Seq<EntryView>, key: Seq<char>)
    requires
        entries_get(m, key) is Some,
    ensures
        exists|j: int|
            0 <= j < m.len() && entries_get(m, key) == Some((#[trigger] m[j]).val),
    decreases m.len(),
{
    if m.len() == 0 {
    } else if m[0].key == key {
        assert(entries_get(m, key) == Some(m[0].val));
    } else {
        lemma_entries_get_index(m.drop_first(), key);
        let j = choose|j: int|
            0 <= j < m.drop_first().len() && entries_get(m.drop_first(), key) == Some(
                (#[trigger] m.drop_first()[j]).val,
            );
        assert(m.drop_first()[j] == m[j + 1]);
        assert(entries_get(m, key) == Some(m[j + 1].val));
    }
}

/// Lookup in an object value; `None` on non-objects and absent keys.
pub open spec fn obj_get(v: ValView, key: Seq<char>) -> Option<ValView> {
    match v {
        ValView::Obj(m) => entries_get(m, key),
        _ => None,
    }
}

impl Val {
    /// Looks a key up among the entries of an object value.
    #[verifier::loop_isolation(false)]
    pub fn get<'a>(&'a self, key: &str) -> (r: Option<&'a Val>)
        ensures
            match r {
                Some(v) => obj_get(self@, key@) == Some(v@),
                None => obj_get(self@, key@) is None,
            },
    {
        match self {
            Val::Obj(m) => {
                let ghost entries = self@->Obj_0;
                proof {
                    assert(entries.skip(0) =~= entries);
                }
                for i in 0..m.len()
                    invariant
                        entries == self@->Obj_0,
                        self@ matches ValView::Obj(_),
                        entries.len() == m.len(),
                        forall|k: int|
                            0 <= k < m.len() ==> #[trigger] entries[k] == (EntryView {
                                key: m[k].key@,
                                val: m[k].val@,
                            }),
                        obj_get(self@, key@) == entries_get(entries.skip(i as int), key@),
                {
                    proof {
                        assert(entries.skip(i as int).drop_first() =~= entries.skip(i + 1));
                        assert(entries.skip(i as int)[0] == entries[i as int]);
                    }
                    if str_eq(m[i].key.as_str(), key) {
                        return Some(&m[i].val);
                    }
                }
                assert(entries.skip(m.len() as int) =~= Seq::empty());
                None
            },
            _ => None,
        }
    }

    /// Finds the first entry with the given key, scanning in insertion order.
    pub fn find_entry(m: &Vec<Entry>, key: &str) -> (r: Option<usize>)
        ensures
            match r {
                Some(i) => {
                    &&& i < m.len()
                    &&& m[i as int].key@ == key@
                    &&& forall|j: int| 0 <= j < i ==> m[j].key@ != key@
                },
                None => forall|j: int| 0 <= j < m.len() ==> m[j].key@ != key@,
            },
    {
        for i in 0..m.len()
            invariant
                forall|j: int| 0 <= j < i ==> m[j].key@ != key@,
        {
            if str_eq(m[i].key.as_str(), key) {
                return Some(i);
            }
        }
        None
    }

    /// Structure-preserving deep copy.
    #[verifier::loop_isolation(false)]
    pub fn duplicate(&self) -> (r: Val)
        ensures
            r@ == self@,
        decreases self,
    {
        match self {
            Val::Null => Val::Null,
            Val::Bool(b) => Val::Bool(*b),
            Val::Num(n) => Val::Num(n.clone()),
            Val::Text(s) => Val::Text(s.clone()),
            Val::Arr(a) => {
                let mut out: Vec<Val> = Vec::new();
                for i in 0..a.len()
                    invariant
                        out.len() == i,
                        forall|k: int| 0 <= k < i ==> #[trigger] out[k]@ == a[k]@,
                {
                    out.push(a[i].duplicate());
                }
                let r = Val::Arr(out);
                proof {
                    let av = self@->Arr_0;
                    let rv = r@->Arr_0;
                    assert(rv.len() == av.len());
                    assert forall|k: int| 0 <= k < av.len() implies rv[k] == av[k] by {
                        assert(rv[k] == (r->Arr_0)[k]@);
                        assert(av[k] == a[k]@);
                    }
                    assert(rv =~= av);
                }
                r
            },
            Val::Obj(m) => {
                let mut out: Vec<Entry> = Vec::new();
                for i in 0..m.len()
                    invariant
                        out.len() == i,
                        forall|k: int|
                            0 <= k < i ==> #[trigger] out[k]@ == (EntryView {
                                key: m[k].key@,
                                val: m[k].val@,
                            }),
                {
                    out.push(Entry { key: m[i].key.clone(), val: m[i].val.duplicate() });
                }
                let r = Val::Obj(out);
                proof {
                    let mv = self@->Obj_0;
                    let rv = r@->Obj_0;
                    assert(rv.len() == mv.len());
                    assert forall|k: int| 0 <= k < mv.len() implies rv[k] == mv[k] by {
                        assert(rv[k] == (r->Obj_0)[k]@);
                        assert(mv[k] == (EntryView { key: m[k].key@, val: m[k].val@ }));
                    }
                    assert(rv =~= mv);
                }
                r
            },
        }
    }
}

} // verus!
