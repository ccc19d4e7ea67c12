//! The schema engine: infers a structural schema from a sample value, and
//! synthesizes a representative mock value from a schema.
//!
//! A schema is itself a `Val`: an object with a `type` entry, an `items`
//! entry for arrays, and a `properties` entry for objects.
use crate::value::{
    entries_get, lemma_entries_get_first, lemma_entries_get_index, lemma_entries_get_none,
    obj_get, Entry, EntryView, Val, ValView,
};
use crate::error::DataError;
use vstd::prelude::*;

verus! {

broadcast use vstd::seq::axiom_seq_index_decreases, vstd::std_specs::vec::group_vec_axioms;

/// The `type` entry of a schema object.
pub open spec fn type_entry(t: Seq<char>) -> EntryView {
    EntryView { key: "type"@, val: ValView::Text(t) }
}

/// The schema inferred from a sample value: structural, single-sample,
/// recursive. Only the first element of an array is sampled.
pub open spec fn infer_spec(v: ValView) -> ValView
    decreases v,
{
    match v {
        ValView::Null => ValView::Obj(seq![type_entry("null"@)]),
        ValView::Bool(_) => ValView::Obj(seq![type_entry("boolean"@)]),
        ValView::Num(_) => ValView::Obj(seq![type_entry("number"@)]),
        ValView::Text(_) => ValView::Obj(seq![type_entry("string"@)]),
        ValView::Arr(a) => if a.len() == 0 {
            ValView::Obj(seq![type_entry("array"@)])
        } else {
            ValView::Obj(
                seq![
                    type_entry("array"@),
                    EntryView { key: "items"@, val: infer_spec(a[0]) },
                ],
            )
        },
        ValView::Obj(m) => ValView::Obj(
            seq![
                type_entry("object"@),
                EntryView {
                    key: "properties"@,
                    val: ValView::Obj(
                        Seq::new(
                            m.len(),
                            |i: int|
                                if 0 <= i < m.len() {
                                    EntryView { key: m[i].key, val: infer_spec(m[i].val) }
                                } else {
                                    EntryView { key: Seq::empty(), val: ValView::Null }
                                },
                        ),
                    ),
                },
            ],
        ),
    }
}

fn schema_leaf(t: &str) -> (r: Val)
    ensures
        r@ == ValView::Obj(seq![type_entry(t@)]),
{
    let mut entries: Vec<Entry> = Vec::new();
    entries.push(Entry { key: String::from_str("type"), val: Val::Text(String::from_str(t)) });
    let r = Val::Obj(entries);
    proof {
        let rv = r@->Obj_0;
        assert(rv[0] == (r->Obj_0)[0]@);
        assert(rv =~= seq![type_entry(t@)]);
    }
    r
}

/// Infers the schema of `value`.
#[verifier::loop_isolation(false)]
pub fn generate_schema(value: &Val) -> (r: Val)
    ensures
        r@ == infer_spec(value@),
    decreases value,
{
    match value {
        Val::Null => schema_leaf("null"),
        Val::Bool(_) => schema_leaf("boolean"),
        Val::Num(_) => schema_leaf("number"),
        Val::Text(_) => schema_leaf("string"),
        Val::Arr(a) => {
            if a.len() == 0 {
                schema_leaf("array")
            } else {
                let items = generate_schema(&a[0]);
                let mut entries: Vec<Entry> = Vec::new();
                entries.push(
                    Entry { key: String::from_str("type"), val: Val::Text(String::from_str("array")) },
                );
                entries.push(Entry { key: String::from_str("items"), val: items });
                let r = Val::Obj(entries);
                proof {
                    let rv = r@->Obj_0;
                    assert(rv[0] == (r->Obj_0)[0]@);
                    assert(rv[1] == (r->Obj_0)[1]@);
                    assert(value@->Arr_0[0] == a[0]@);
                    assert(rv =~= infer_spec(value@)->Obj_0);
                }
                r
            }
        },
        Val::Obj(m) => {
            let mut props: Vec<Entry> = Vec::new();
            for i in 0..m.len()
                invariant
                    props.len() == i,
                    forall|k: int|
                        0 <= k < i ==> #[trigger] props[k]@ == (EntryView {
                            key: m[k].key@,
                            val: infer_spec(m[k].val@),
                        }),
            {
                props.push(Entry { key: m[i].key.clone(), val: generate_schema(&m[i].val) });
            }
            let props_value = Val::Obj(props);
            let ghost props_spec = infer_spec(value@)->Obj_0[1].val;
            proof {
                let pv = props_value@->Obj_0;
                assert forall|k: int| 0 <= k < props_spec->Obj_0.len() implies pv[k]
                    == props_spec->Obj_0[k] by {
                    assert(pv[k] == (props_value->Obj_0)[k]@);
                }
                assert(pv =~= props_spec->Obj_0);
            }
            let mut entries: Vec<Entry> = Vec::new();
            entries.push(
                Entry { key: String::from_str("type"), val: Val::Text(String::from_str("object")) },
            );
            entries.push(Entry { key: String::from_str("properties"), val: props_value });
            let r = Val::Obj(entries);
            proof {
                let rv = r@->Obj_0;
                assert(rv[0] == (r->Obj_0)[0]@);
                assert(rv[1] == (r->Obj_0)[1]@);
                assert(rv =~= infer_spec(value@)->Obj_0);
            }
            r
        },
    }
}

/// The `type` entry of a schema, when it is present and holds text.
pub open spec fn schema_type(s: ValView) -> Option<Seq<char>> {
    match obj_get(s, "type"@) {
        Some(t) => match t {
            ValView::Text(tt) => Some(tt),
            _ => None,
        },
        None => None,
    }
}

/// The deterministic mock value synthesized from a schema, driven only by its
/// `type` entry; a schema without a recognized `type` synthesizes null.
pub open spec fn synth_spec(s: ValView) -> ValView
    decreases s,
    via synth_spec_dec
{
    match schema_type(s) {
        None => ValView::Null,
        Some(t) => if t == "string"@ {
            ValView::Text("mock_string"@)
        } else if t == "number"@ || t == "integer"@ {
            ValView::Num("42"@)
        } else if t == "boolean"@ {
            ValView::Bool(true)
        } else if t == "array"@ {
            match obj_get(s, "items"@) {
                Some(items) => ValView::Arr(seq![synth_spec(items)]),
                None => ValView::Arr(Seq::empty()),
            }
        } else if t == "object"@ {
            match obj_get(s, "properties"@) {
                Some(props_value) => match props_value {
                    ValView::Obj(props) => ValView::Obj(
                        Seq::new(
                            props.len(),
                            |i: int|
                                if 0 <= i < props.len() {
                                    EntryView { key: props[i].key, val: synth_spec(props[i].val) }
                                } else {
                                    EntryView { key: Seq::empty(), val: ValView::Null }
                                },
                        ),
                    ),
                    _ => ValView::Obj(Seq::empty()),
                },
                None => ValView::Obj(Seq::empty()),
            }
        } else {
            ValView::Null
        },
    }
}

#[via_fn]
proof fn synth_spec_dec(s: ValView) {
    match s {
        ValView::Obj(m) => {
            if entries_get(m, "items"@) is Some {
                lemma_entries_get_index(m, "items"@);
                let j = choose|j: int|
                    0 <= j < m.len() && entries_get(m, "items"@) == Some(m[j].val);
                assert(decreases_to!(s => m[j].val));
            }
            if entries_get(m, "properties"@) is Some {
                lemma_entries_get_index(m, "properties"@);
                let j = choose|j: int|
                    0 <= j < m.len() && entries_get(m, "properties"@) == Some(m[j].val);
                assert(decreases_to!(s => m[j].val));
                match m[j].val {
                    ValView::Obj(props) => {
                        assert forall|i: int| 0 <= i < props.len() implies decreases_to!(
                            s => props[i].val,
                        ) by {
                            assert(decreases_to!(m[j].val => props[i].val));
                        }
                    },
                    _ => (),
                }
            }
        },
        _ => (),
    }
}

/// Synthesizes the deterministic mock value described by `schema`.
#[verifier::loop_isolation(false)]
pub fn generate_mock_data(schema: &Val) -> (r: Val)
    ensures
        r@ == synth_spec(schema@),
    decreases schema,
{
    let m = match schema {
        Val::Obj(m) => m,
        _ => {
            return Val::Null;
        },
    };
    let ghost mv = schema@->Obj_0;
    proof {
        assert(forall|j: int|
            0 <= j < m.len() ==> mv[j] == (EntryView { key: m[j].key@, val: m[j].val@ }));
    }
    let ti = match Val::find_entry(m, "type") {
        Some(ti) => ti,
        None => {
            proof {
                lemma_entries_get_none(mv, "type"@);
            }
            return Val::Null;
        },
    };
    proof {
        lemma_entries_get_first(mv, "type"@, ti as int);
    }
    let t = match &m[ti].val {
        Val::Text(t) => t,
        _ => {
            return Val::Null;
        },
    };
    if crate::text::str_eq(t.as_str(), "string") {
        return Val::Text(String::from_str("mock_string"));
    }
    if crate::text::str_eq(t.as_str(), "number") || crate::text::str_eq(t.as_str(), "integer") {
        return Val::Num(String::from_str("42"));
    }
    if crate::text::str_eq(t.as_str(), "boolean") {
        return Val::Bool(true);
    }
    if crate::text::str_eq(t.as_str(), "array") {
        match Val::find_entry(m, "items") {
            Some(ii) => {
                proof {
                    lemma_entries_get_first(mv, "items"@, ii as int);
                }
                let item = generate_mock_data(&m[ii].val);
                let mut arr: Vec<Val> = Vec::new();
                arr.push(item);
                let r = Val::Arr(arr);
                proof {
                    assert(r@->Arr_0 =~= seq![synth_spec(m[ii as int].val@)]);
                }
                return r;
            },
            None => {
                proof {
                    lemma_entries_get_none(mv, "items"@);
                }
                let r = Val::Arr(Vec::new());
                proof {
                    assert(r@->Arr_0 =~= Seq::<ValView>::empty());
                }
                return r;
            },
        }
    }
    if crate::text::str_eq(t.as_str(), "object") {
        match Val::find_entry(m, "properties") {
            Some(pi) => {
                proof {
                    lemma_entries_get_first(mv, "properties"@, pi as int);
                }
                match &m[pi].val {
                    Val::Obj(props) => {
                        let mut out: Vec<Entry> = Vec::new();
                        for i in 0..props.len()
                            invariant
                                out.len() == i,
                                forall|k: int|
                                    0 <= k < i ==> #[trigger] out[k]@ == (EntryView {
                                        key: props[k].key@,
                                        val: synth_spec(props[k].val@),
                                    }),
                        {
                            proof {
                                assert(decreases_to!(schema => props[i as int].val));
                            }
                            out.push(
                                Entry {
                                    key: props[i].key.clone(),
                                    val: generate_mock_data(&props[i].val),
                                },
                            );
                        }
                        let r = Val::Obj(out);
                        proof {
                            let sv = synth_spec(schema@)->Obj_0;
                            let rv = r@->Obj_0;
                            assert forall|k: int| 0 <= k < sv.len() implies rv[k] == sv[k] by {
                                assert(rv[k] == (r->Obj_0)[k]@);
                            }
                            assert(rv =~= sv);
                        }
                        return r;
                    },
                    _ => {
                        let r = Val::Obj(Vec::new());
                        proof {
                            assert(r@->Obj_0 =~= Seq::<EntryView>::empty());
                        }
                        return r;
                    },
                }
            },
            None => {
                proof {
                    lemma_entries_get_none(mv, "properties"@);
                }
                let r = Val::Obj(Vec::new());
                proof {
                    assert(r@->Obj_0 =~= Seq::<EntryView>::empty());
                }
                return r;
            },
        }
    }
    Val::Null
}

/// Whether the schema compiles as a JSON Schema. Deterministic: reference
/// fetching is disabled, so compilation reads the schema document alone.
pub uninterp spec fn schema_compiles(s: ValView) -> bool;

/// The violation messages of `v` against a compilable schema, in the
/// validator's order; an empty sequence means the value conforms.
pub uninterp spec fn violations_of(v: ValView, s: ValView) -> Seq<Seq<char>>;

/// Relies on jsonschema::validator_for and Validator::iter_errors: compiles
/// the schema, then lists one message per violation of `value`, in the
/// validator's order. With remote and file reference fetching disabled, both
/// steps are deterministic in the two documents.
#[verifier::external_body]
fn validate_with_schema(value: &Val, schema: &Val) -> (r: Result<Vec<String>, String>)
    ensures
        match r {
            Ok(msgs) => schema_compiles(schema@) && msgs.deep_view() == violations_of(
                value@,
                schema@,
            ),
            Err(_) => !schema_compiles(schema@),
        },
{
    let sj = crate::formats::to_json(schema);
    let vj = crate::formats::to_json(value);
    match jsonschema::validator_for(&sj) {
        Ok(v) => Ok(v.iter_errors(&vj).map(|e| e.to_string()).collect()),
        Err(e) => Err(format!("Invalid schema: {}", e)),
    }
}

/// Validates `value` against a JSON-Schema document: exactly the validator's
/// violation messages for every compilable schema, `SchemaCompileError` if
/// and only if the schema cannot be compiled.
pub fn validate_json_schema(value: &Val, schema: &Val) -> (r: Result<Vec<String>, DataError>)
    ensures
        match r {
            Ok(msgs) => schema_compiles(schema@) && msgs.deep_view() == violations_of(
                value@,
                schema@,
            ),
            Err(e) => !schema_compiles(schema@) && e matches DataError::SchemaCompileError(_),
        },
{
    match validate_with_schema(value, schema) {
        Ok(msgs) => Ok(msgs),
        Err(m) => Err(DataError::SchemaCompileError(m)),
    }
}

/// Ground facts distinguishing the schema keys and type tags.
proof fn lemma_schema_literals()
    ensures
        "type"@.len() == 4 && "type"@[0] == 't',
        "items"@.len() == 5 && "items"@[0] == 'i',
        "properties"@.len() == 10 && "properties"@[0] == 'p',
        "null"@.len() == 4 && "null"@[0] == 'n',
        "boolean"@.len() == 7 && "boolean"@[0] == 'b',
        "number"@.len() == 6 && "number"@[0] == 'n',
        "integer"@.len() == 7 && "integer"@[0] == 'i',
        "string"@.len() == 6 && "string"@[0] == 's',
        "array"@.len() == 5 && "array"@[0] == 'a',
        "object"@.len() == 6 && "object"@[0] == 'o',
        "mock_string"@.len() == 11 && "mock_string"@[0] == 'm',
{
    reveal_strlit("type");
    reveal_strlit("items");
    reveal_strlit("properties");
    reveal_strlit("null");
    reveal_strlit("boolean");
    reveal_strlit("number");
    reveal_strlit("integer");
    reveal_strlit("string");
    reveal_strlit("array");
    reveal_strlit("object");
    reveal_strlit("mock_string");
}

/// A schema in the inferencer's shape: a `type` entry first, then `items`
/// (arrays, when sampled) or `properties` (objects, always), and nothing else.
pub open spec fn normal_schema(s: ValView) -> bool
    decreases s,
{
    match s {
        ValView::Obj(m) => {
            ||| (m.len() == 1 && (m[0] == type_entry("null"@) || m[0] == type_entry("boolean"@)
                || m[0] == type_entry("number"@) || m[0] == type_entry("string"@) || m[0]
                == type_entry("array"@)))
            ||| (m.len() == 2 && m[0] == type_entry("array"@) && m[1].key == "items"@
                && normal_schema(m[1].val))
            ||| (m.len() == 2 && m[0] == type_entry("object"@) && m[1].key == "properties"@
                && match m[1].val {
                    ValView::Obj(props) => forall|i: int|
                        0 <= i < props.len() ==> normal_schema((#[trigger] props[i]).val),
                    _ => false,
                })
        },
        _ => false,
    }
}

/// Every inferred schema is in normal form.
pub proof fn lemma_infer_normal(v: ValView)
    ensures
        normal_schema(infer_spec(v)),
    decreases v,
{
    match v {
        ValView::Arr(a) => {
            if a.len() != 0 {
                lemma_infer_normal(a[0]);
            }
        },
        ValView::Obj(m) => {
            let s = infer_spec(v);
            let props = s->Obj_0[1].val->Obj_0;
            assert forall|i: int| 0 <= i < props.len() implies normal_schema(
                (#[trigger] props[i]).val,
            ) by {
                lemma_infer_normal(m[i].val);
            }
        },
        _ => (),
    }
}

/// Synthesis is schema-shape preserving: inferring the schema of the mock
/// value of a normal schema gives that schema back, node for node.
pub proof fn lemma_mock_round_trip(s: ValView)
    requires
        normal_schema(s),
    ensures
        infer_spec(synth_spec(s)) == s,
    decreases s,
{
    lemma_schema_literals();
    let m = s->Obj_0;
    assert(entries_get(m, "type"@) == Some(m[0].val));
    if m.len() == 1 {
        assert(m[0].key == "type"@);
        assert("type"@ != "items"@);
        assert(m.drop_first().len() == 0);
        assert(entries_get(m.drop_first(), "items"@) is None);
        assert(entries_get(m, "items"@) is None);
        assert(infer_spec(synth_spec(s))->Obj_0 =~= m);
    } else {
        if m[0] == type_entry("array"@) {
            assert(m[0].key == "type"@);
            assert("type"@ != "items"@);
            assert(m.drop_first()[0] == m[1]);
            assert(m[1].key == "items"@);
            assert(entries_get(m.drop_first(), "items"@) == Some(m[1].val));
            assert(entries_get(m, "items"@) == Some(m[1].val));
            lemma_mock_round_trip(m[1].val);
            let mock = synth_spec(s);
            assert(mock == ValView::Arr(seq![synth_spec(m[1].val)]));
            let t = infer_spec(mock);
            assert(t->Obj_0 =~= m);
        } else {
            assert(m[1].key == "properties"@);
            assert(m[0].key == "type"@);
            assert("type"@ != "properties"@);
            assert(m.drop_first().len() == 1);
            assert(m.drop_first()[0] == m[1]);
            assert(entries_get(m.drop_first(), "properties"@) == Some(m[1].val));
            assert(entries_get(m, "properties"@) == Some(m[1].val));
            let props = m[1].val->Obj_0;
            let mock = synth_spec(s);
            let mocked = mock->Obj_0;
            assert(mocked.len() == props.len());
            assert forall|i: int| 0 <= i < props.len() implies infer_spec(
                (#[trigger] mocked[i]).val,
            ) == props[i].val && mocked[i].key == props[i].key by {
                lemma_mock_round_trip(props[i].val);
            }
            let t = infer_spec(mock);
            assert(t->Obj_0[1].val->Obj_0 =~= props);
            assert(t->Obj_0[1].val == m[1].val);
            assert(t->Obj_0 =~= m);
        }
    }
}

/// A spec-shaped schema: an object whose `type` is one of the six tags, whose
/// `items` (when present) is such a schema, and whose `properties` (when
/// present) is an object of such schemas.
pub open spec fn canonical_schema(s: ValView) -> bool
    decreases s, 0int, 0int,
    via canonical_schema_dec
{
    match schema_type(s) {
        Some(t) => {
            &&& (t == "null"@ || t == "boolean"@ || t == "number"@ || t == "string"@ || t
                == "array"@ || t == "object"@)
            &&& (t == "array"@ ==> match obj_get(s, "items"@) {
                Some(it) => canonical_schema(it),
                None => true,
            })
            &&& (t == "object"@ ==> match obj_get(s, "properties"@) {
                Some(pv) => match pv {
                    ValView::Obj(props) => canonical_props(props, 0),
                    _ => false,
                },
                None => true,
            })
        },
        None => false,
    }
}

/// The entry values of `props` from index `i` on are spec-shaped schemas.
pub open spec fn canonical_props(props: Seq<EntryView>, i: int) -> bool
    decreases props, 1int, props.len() - i,
{
    if i < 0 || i >= props.len() {
        true
    } else {
        canonical_schema(props[i].val) && canonical_props(props, i + 1)
    }
}

#[via_fn]
proof fn canonical_schema_dec(s: ValView) {
    match s {
        ValView::Obj(m) => {
            if entries_get(m, "items"@) is Some {
                lemma_entries_get_index(m, "items"@);
                let j = choose|j: int|
                    0 <= j < m.len() && entries_get(m, "items"@) == Some(m[j].val);
                assert(decreases_to!(s => m[j].val));
            }
            if entries_get(m, "properties"@) is Some {
                lemma_entries_get_index(m, "properties"@);
                let j = choose|j: int|
                    0 <= j < m.len() && entries_get(m, "properties"@) == Some(m[j].val);
                match m[j].val {
                    ValView::Obj(props) => {
                        assert(decreases_to!(s => props));
                    },
                    _ => (),
                }
            }
        },
        _ => (),
    }
}

proof fn lemma_canonical_props_each(props: Seq<EntryView>, i: int, j: int)
    requires
        canonical_props(props, i),
        0 <= i <= j < props.len(),
    ensures
        canonical_schema(props[j].val),
    decreases j - i,
{
    if i < j {
        lemma_canonical_props_each(props, i + 1, j);
    }
}

/// `t` carries the same `type` as `s` at every node of `s`: at the root, at
/// `items` where `s` has one, and pointwise under `properties` where `s` has
/// them.
pub open spec fn same_type_shape(t: ValView, s: ValView) -> bool
    decreases s, 0int, 0int,
    via same_type_shape_dec
{
    &&& schema_type(t) == schema_type(s)
    &&& (schema_type(s) == Some("array"@) ==> match obj_get(s, "items"@) {
        Some(si) => match obj_get(t, "items"@) {
            Some(ti) => same_type_shape(ti, si),
            None => false,
        },
        None => true,
    })
    &&& (schema_type(s) == Some("object"@) ==> match obj_get(s, "properties"@) {
        Some(sp) => match sp {
            ValView::Obj(sprops) => match obj_get(t, "properties"@) {
                Some(tp) => match tp {
                    ValView::Obj(tprops) => tprops.len() == sprops.len() && shape_props(
                        tprops,
                        sprops,
                        0,
                    ),
                    _ => false,
                },
                None => false,
            },
            _ => true,
        },
        None => true,
    })
}

/// From index `i` on, the entries of `tprops` keep the keys of `sprops` and
/// their values agree in type shape.
pub open spec fn shape_props(tprops: Seq<EntryView>, sprops: Seq<EntryView>, i: int) -> bool
    decreases sprops, 1int, sprops.len() - i,
{
    if i < 0 || i >= sprops.len() || tprops.len() != sprops.len() {
        true
    } else {
        tprops[i].key == sprops[i].key && same_type_shape(tprops[i].val, sprops[i].val)
            && shape_props(tprops, sprops, i + 1)
    }
}

#[via_fn]
proof fn same_type_shape_dec(t: ValView, s: ValView) {
    match s {
        ValView::Obj(m) => {
            if entries_get(m, "items"@) is Some {
                lemma_entries_get_index(m, "items"@);
                let j = choose|j: int|
                    0 <= j < m.len() && entries_get(m, "items"@) == Some(m[j].val);
                assert(decreases_to!(s => m[j].val));
            }
            if entries_get(m, "properties"@) is Some {
                lemma_entries_get_index(m, "properties"@);
                let j = choose|j: int|
                    0 <= j < m.len() && entries_get(m, "properties"@) == Some(m[j].val);
                match m[j].val {
                    ValView::Obj(sprops) => {
                        assert(decreases_to!(s => sprops));
                    },
                    _ => (),
                }
            }
        },
        _ => (),
    }
}

proof fn lemma_shape_props_build(tprops: Seq<EntryView>, sprops: Seq<EntryView>, i: int)
    requires
        tprops.len() == sprops.len(),
        0 <= i <= sprops.len(),
        forall|k: int|
            i <= k < sprops.len() ==> (#[trigger] tprops[k]).key == sprops[k].key
                && same_type_shape(tprops[k].val, sprops[k].val),
    ensures
        shape_props(tprops, sprops, i),
    decreases sprops.len() - i,
{
    if i < sprops.len() {
        lemma_shape_props_build(tprops, sprops, i + 1);
    }
}

/// Structural conformance to a schema of the inferencer's shape: the type
/// tag fits the value's variant; every array element conforms to `items`
/// where it is present; every object entry conforms to its schema under
/// `properties` where one is given for its key.
pub open spec fn conforms(v: ValView, s: ValView) -> bool
    decreases v,
{
    match schema_type(s) {
        None => false,
        Some(t) => if t == "null"@ {
            v is Null
        } else if t == "boolean"@ {
            v is Bool
        } else if t == "number"@ {
            v is Num
        } else if t == "string"@ {
            v is Text
        } else if t == "array"@ {
            &&& v is Arr
            &&& match obj_get(s, "items"@) {
                Some(it) => forall|i: int|
                    0 <= i < v->Arr_0.len() ==> conforms(#[trigger] v->Arr_0[i], it),
                None => true,
            }
        } else if t == "object"@ {
            &&& v is Obj
            &&& match obj_get(s, "properties"@) {
                Some(pv) => match pv {
                    ValView::Obj(props) => forall|i: int|
                        0 <= i < v->Obj_0.len() ==> match entries_get(
                            props,
                            (#[trigger] v->Obj_0[i]).key,
                        ) {
                            Some(ps) => conforms(v->Obj_0[i].val, ps),
                            None => true,
                        },
                    _ => true,
                },
                None => true,
            }
        } else {
            false
        },
    }
}

/// Arrays are uniform: every element's inferred schema equals the first
/// element's, at every array node of the tree.
pub open spec fn uniform(v: ValView) -> bool
    decreases v, 0int,
{
    match v {
        ValView::Arr(a) => {
            &&& uniform_elems(a, 0)
            &&& forall|i: int|
                0 <= i < a.len() ==> infer_spec(#[trigger] a[i]) == infer_spec(a[0])
        },
        ValView::Obj(m) => uniform_entries(m, 0),
        _ => true,
    }
}

/// The elements of `a` from index `i` on are uniform.
pub open spec fn uniform_elems(a: Seq<ValView>, i: int) -> bool
    decreases a, 1int, a.len() - i,
{
    if i < 0 || i >= a.len() {
        true
    } else {
        uniform(a[i]) && uniform_elems(a, i + 1)
    }
}

/// The entry values of `m` from index `i` on are uniform.
pub open spec fn uniform_entries(m: Seq<EntryView>, i: int) -> bool
    decreases m, 1int, m.len() - i,
{
    if i < 0 || i >= m.len() {
        true
    } else {
        uniform(m[i].val) && uniform_entries(m, i + 1)
    }
}

proof fn lemma_uniform_elems_each(a: Seq<ValView>, i: int, j: int)
    requires
        uniform_elems(a, i),
        0 <= i <= j < a.len(),
    ensures
        uniform(a[j]),
    decreases j - i,
{
    if i < j {
        lemma_uniform_elems_each(a, i + 1, j);
    }
}

proof fn lemma_uniform_entries_each(m: Seq<EntryView>, i: int, j: int)
    requires
        uniform_entries(m, i),
        0 <= i <= j < m.len(),
    ensures
        uniform(m[j].val),
    decreases j - i,
{
    if i < j {
        lemma_uniform_entries_each(m, i + 1, j);
    }
}

/// A well-formed value with uniform arrays conforms to its own inferred
/// schema.
pub proof fn lemma_conforms_to_inferred(v: ValView)
    requires
        v.wf(),
        uniform(v),
    ensures
        conforms(v, infer_spec(v)),
    decreases v,
{
    lemma_schema_literals();
    let s = infer_spec(v);
    let m = s->Obj_0;
    assert(entries_get(m, "type"@) == Some(m[0].val));
    assert(schema_type(s) is Some);
    match v {
        ValView::Arr(a) => {
            if a.len() == 0 {
                assert(m.drop_first().len() == 0);
                assert(entries_get(m.drop_first(), "items"@) is None);
                assert(entries_get(m, "items"@) is None);
            } else {
                assert(m.drop_first()[0] == m[1]);
                assert(entries_get(m.drop_first(), "items"@) == Some(m[1].val));
                assert(entries_get(m, "items"@) == Some(infer_spec(a[0])));
                assert forall|i: int| 0 <= i < a.len() implies conforms(
                    #[trigger] a[i],
                    infer_spec(a[0]),
                ) by {
                    crate::value::lemma_wf_member(v, i);
                    lemma_uniform_elems_each(a, 0, i);
                    lemma_conforms_to_inferred(a[i]);
                }
            }
        },
        ValView::Obj(mm) => {
            assert(m.drop_first()[0] == m[1]);
            assert(entries_get(m.drop_first(), "properties"@) == Some(m[1].val));
            assert(entries_get(m, "properties"@) == Some(m[1].val));
            let props = m[1].val->Obj_0;
            assert forall|i: int| 0 <= i < mm.len() implies match entries_get(
                props,
                (#[trigger] mm[i]).key,
            ) {
                Some(ps) => conforms(mm[i].val, ps),
                None => true,
            } by {
                assert(forall|j: int|
                    0 <= j < mm.len() ==> (#[trigger] props[j]).key == mm[j].key);
                lemma_entries_get_first(props, mm[i].key, i);
                crate::value::lemma_wf_member(v, i);
                lemma_uniform_entries_each(mm, 0, i);
                lemma_conforms_to_inferred(mm[i].val);
            }
        },
        _ => (),
    }
}

/// Mock synthesis is schema-shape preserving for every spec-shaped schema:
/// the schema inferred from the mock value carries the same `type` as the
/// schema at every node, through `items` and `properties`.
pub proof fn lemma_mock_type_shape(s: ValView)
    requires
        canonical_schema(s),
    ensures
        same_type_shape(infer_spec(synth_spec(s)), s),
    decreases s,
{
    lemma_schema_literals();
    let m = s->Obj_0;
    let t = match schema_type(s) {
        Some(t) => t,
        None => Seq::empty(),
    };
    let mock = synth_spec(s);
    let res = infer_spec(mock);
    if t == "array"@ {
        match obj_get(s, "items"@) {
            Some(it) => {
                lemma_entries_get_index(m, "items"@);
                let j = choose|j: int|
                    0 <= j < m.len() && entries_get(m, "items"@) == Some(m[j].val);
                assert(it == m[j].val);
                assert(decreases_to!(s => m[j].val));
                lemma_mock_type_shape(it);
                assert(mock == ValView::Arr(seq![synth_spec(it)]));
                let rm = res->Obj_0;
                assert(rm[0] == type_entry("array"@));
                assert(rm[1] == (EntryView { key: "items"@, val: infer_spec(synth_spec(it)) }));
                assert(entries_get(rm, "type"@) == Some(rm[0].val));
                assert(rm.drop_first()[0] == rm[1]);
                assert(entries_get(rm.drop_first(), "items"@) == Some(rm[1].val));
                assert(entries_get(rm, "items"@) == Some(rm[1].val));
            },
            None => {
                assert(mock == ValView::Arr(Seq::empty()));
                let rm = res->Obj_0;
                assert(rm[0] == type_entry("array"@));
                assert(entries_get(rm, "type"@) == Some(rm[0].val));
            },
        }
    } else if t == "object"@ {
        match obj_get(s, "properties"@) {
            Some(pv) => {
                lemma_entries_get_index(m, "properties"@);
                let j = choose|j: int|
                    0 <= j < m.len() && entries_get(m, "properties"@) == Some(m[j].val);
                assert(pv == m[j].val);
                match pv {
                    ValView::Obj(sprops) => {
                        let mocked = mock->Obj_0;
                        assert(mocked.len() == sprops.len());
                        let rm = res->Obj_0;
                        assert(rm[0] == type_entry("object"@));
                        assert(rm[1].key == "properties"@);
                        let tprops = rm[1].val->Obj_0;
                        assert(tprops.len() == sprops.len());
                        assert forall|k: int| 0 <= k < sprops.len() implies (#[trigger] tprops[k]).key
                            == sprops[k].key && same_type_shape(tprops[k].val, sprops[k].val) by {
                            lemma_canonical_props_each(sprops, 0, k);
                            assert(decreases_to!(s => sprops[k].val));
                            lemma_mock_type_shape(sprops[k].val);
                            assert(mocked[k] == (EntryView {
                                key: sprops[k].key,
                                val: synth_spec(sprops[k].val),
                            }));
                            assert(tprops[k] == (EntryView {
                                key: mocked[k].key,
                                val: infer_spec(mocked[k].val),
                            }));
                        }
                        lemma_shape_props_build(tprops, sprops, 0);
                        assert(entries_get(rm, "type"@) == Some(rm[0].val));
                        assert(rm.drop_first()[0] == rm[1]);
                        assert(entries_get(rm.drop_first(), "properties"@) == Some(rm[1].val));
                        assert(entries_get(rm, "properties"@) == Some(rm[1].val));
                    },
                    _ => (),
                }
            },
            None => {
                assert(mock == ValView::Obj(Seq::empty()));
                let rm = res->Obj_0;
                assert(rm[0] == type_entry("object"@));
                assert(rm[1].key == "properties"@);
                assert(entries_get(rm, "type"@) == Some(rm[0].val));
            },
        }
    } else {
        assert(mock.is_leaf());
        let rm = res->Obj_0;
        assert(entries_get(rm, "type"@) == Some(rm[0].val));
        assert(schema_type(res) == Some(t));
    }
}

/// Inferring, synthesizing a mock, and inferring again gives the first
/// schema back: the shape survives the round trip for every sample value.
pub proof fn lemma_mock_preserves_schema(v: ValView)
    ensures
        infer_spec(synth_spec(infer_spec(v))) == infer_spec(v),
{
    lemma_infer_normal(v);
    lemma_mock_round_trip(infer_spec(v));
}

} // verus!
