//! The redactor: a pure walk that replaces values whose keys look sensitive.
//!
//! Keys are tested case-insensitively against three classes, first match wins:
//! mail addresses, credentials, and personal data. A matched entry's value is
//! replaced wholesale and never recursed into; arrays carry no key and are
//! always recursed.
use crate::text::has_sub;
use crate::value::{Entry, EntryView, Val, ValView};
use vstd::prelude::*;

verus! {

broadcast use vstd::seq::axiom_seq_index_decreases, vstd::std_specs::vec::group_vec_axioms;

/// What `str::to_lowercase` returns for a given character sequence.
pub uninterp spec fn lower_of(s: Seq<char>) -> Seq<char>;

/// Relies on str::to_lowercase: the result depends on the characters alone.
#[verifier::external_body]
fn lowercase(s: &str) -> (r: String)
    ensures
        r@ == lower_of(s@),
{
    s.to_lowercase()
}

/// The key marks a mail address.
pub open spec fn key_masks_email(k: Seq<char>) -> bool {
    has_sub(lower_of(k), "email"@)
}

/// The key marks a credential; tested only when the mail rule did not match.
pub open spec fn key_masks_secret(k: Seq<char>) -> bool {
    ||| has_sub(lower_of(k), "password"@)
    ||| has_sub(lower_of(k), "token"@)
    ||| has_sub(lower_of(k), "secret"@)
}

/// The key marks personal data; tested only when the two rules above did not match.
pub open spec fn key_masks_personal(k: Seq<char>) -> bool {
    ||| has_sub(lower_of(k), "name"@)
    ||| has_sub(lower_of(k), "phone"@)
    ||| has_sub(lower_of(k), "address"@)
}

/// The redacted form of a tree: entries whose key matches a rule are replaced
/// by that rule's placeholder; everything else is walked recursively.
pub open spec fn redact_spec(v: ValView) -> ValView
    decreases v, 0int,
{
    match v {
        ValView::Arr(a) => ValView::Arr(
            Seq::new(
                a.len(),
                |i: int| if 0 <= i < a.len() { redact_spec(a[i]) } else { ValView::Null },
            ),
        ),
        ValView::Obj(m) => ValView::Obj(
            Seq::new(
                m.len(),
                |i: int|
                    if 0 <= i < m.len() {
                        EntryView { key: m[i].key, val: redact_entry_val(m[i].key, m[i].val) }
                    } else {
                        EntryView { key: Seq::empty(), val: ValView::Null }
                    },
            ),
        ),
        _ => v,
    }
}

/// The redacted form of one object entry's value, given its key.
pub open spec fn redact_entry_val(k: Seq<char>, v: ValView) -> ValView
    decreases v, 1int,
{
    if key_masks_email(k) {
        ValView::Text("XXXX@example.com"@)
    } else if key_masks_secret(k) {
        ValView::Text("********"@)
    } else if key_masks_personal(k) {
        ValView::Text("REDACTED"@)
    } else {
        redact_spec(v)
    }
}

/// Returns a new tree in which every entry whose key matches a sensitivity
/// rule carries that rule's placeholder instead of its value. The input is
/// not altered.
#[verifier::loop_isolation(false)]
pub fn anonymize_data(value: &Val) -> (r: Val)
    ensures
        r@ == redact_spec(value@),
    decreases value,
{
    match value {
        Val::Null => Val::Null,
        Val::Bool(b) => Val::Bool(*b),
        Val::Num(n) => Val::Num(n.clone()),
        Val::Text(s) => Val::Text(s.clone()),
        Val::Arr(a) => {
            let mut out: Vec<Val> = Vec::new();
            for i in 0..a.len()
                invariant
                    out.len() == i,
                    forall|k: int| 0 <= k < i ==> #[trigger] out[k]@ == redact_spec(a[k]@),
            {
                out.push(anonymize_data(&a[i]));
            }
            let r = Val::Arr(out);
            proof {
                let av = redact_spec(value@)->Arr_0;
                let rv = r@->Arr_0;
                assert forall|k: int| 0 <= k < av.len() implies rv[k] == av[k] by {
                    assert(rv[k] == (r->Arr_0)[k]@);
                }
                assert(rv =~= av);
            }
            r
        },
        Val::Obj(m) => {
            let mut out: Vec<Entry> = Vec::new();
            for i in 0..m.len()
                invariant
                    out.len() == i,
                    forall|k: int|
                        0 <= k < i ==> #[trigger] out[k]@ == (EntryView {
                            key: m[k].key@,
                            val: redact_entry_val(m[k].key@, m[k].val@),
                        }),
            {
                let low = lowercase(m[i].key.as_str());
                let masked: Option<&'static str> = if crate::text::contains_str(
                    low.as_str(),
                    "email",
                ) {
                    Some("XXXX@example.com")
                } else if crate::text::contains_str(low.as_str(), "password")
                    || crate::text::contains_str(low.as_str(), "token")
                    || crate::text::contains_str(low.as_str(), "secret") {
                    Some("********")
                } else if crate::text::contains_str(low.as_str(), "name")
                    || crate::text::contains_str(low.as_str(), "phone")
                    || crate::text::contains_str(low.as_str(), "address") {
                    Some("REDACTED")
                } else {
                    None
                };
                let nv = match masked {
                    Some(mask) => Val::Text(String::from_str(mask)),
                    None => anonymize_data(&m[i].val),
                };
                assert(nv@ == redact_entry_val(m[i as int].key@, m[i as int].val@));
                out.push(Entry { key: m[i].key.clone(), val: nv });
            }
            let r = Val::Obj(out);
            proof {
                let mv = redact_spec(value@)->Obj_0;
                let rv = r@->Obj_0;
                assert forall|k: int| 0 <= k < mv.len() implies rv[k] == mv[k] by {
                    assert(rv[k] == (r->Obj_0)[k]@);
                }
                assert(rv =~= mv);
            }
            r
        },
    }
}

} // verus!
