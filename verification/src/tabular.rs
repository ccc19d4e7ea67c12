//! The tabular serializer: flattens each record, unions the observed paths
//! into a sorted header list, and emits one delimited line per record.
use crate::error::DataError;
use crate::flatten::{entries_view, flat_spec, flatten_value};
use crate::text::{lemma_lex_trans, lemma_lex_trichotomy, lex_lt, str_eq, str_lt, strings_view};
use crate::value::{Entry, EntryView, Val, ValView};
use vstd::prelude::*;

verus! {

broadcast use vstd::seq::axiom_seq_index_decreases, vstd::std_specs::vec::group_vec_axioms;

/// The records to flatten: the elements of an array, or the value itself as
/// the only record.
pub open spec fn rows_spec(v: ValView) -> Seq<Seq<EntryView>> {
    match v {
        ValView::Arr(a) => Seq::new(
            a.len(),
            |i: int| if 0 <= i < a.len() { flat_spec(a[i], ""@) } else { Seq::empty() },
        ),
        _ => seq![flat_spec(v, ""@)],
    }
}

/// The paths of one row, in order.
pub open spec fn row_keys(row: Seq<EntryView>) -> Seq<Seq<char>> {
    Seq::new(row.len(), |i: int| if 0 <= i < row.len() { row[i].key } else { Seq::empty() })
}

/// All paths of all rows, in order.
pub open spec fn rows_keys(rows: Seq<Seq<EntryView>>) -> Seq<Seq<char>>
    decreases rows.len(),
{
    if rows.len() == 0 {
        Seq::empty()
    } else {
        rows_keys(rows.drop_last()) + row_keys(rows.last())
    }
}

/// Inserts a path into a sorted list of distinct paths, keeping it sorted and
/// dropping duplicates.
pub open spec fn insert_sorted(hs: Seq<Seq<char>>, k: Seq<char>) -> Seq<Seq<char>>
    decreases hs.len(),
{
    if hs.len() == 0 {
        seq![k]
    } else if lex_lt(k, hs[0]) {
        seq![k] + hs
    } else if k == hs[0] {
        hs
    } else {
        seq![hs[0]] + insert_sorted(hs.drop_first(), k)
    }
}

/// The sorted union of a list of paths: the header set.
pub open spec fn headers_fold(ks: Seq<Seq<char>>) -> Seq<Seq<char>>
    decreases ks.len(),
{
    if ks.len() == 0 {
        Seq::empty()
    } else {
        insert_sorted(headers_fold(ks.drop_last()), ks.last())
    }
}

/// The header set of a conversion: the sorted union of all paths of all rows.
pub open spec fn headers_spec(v: ValView) -> Seq<Seq<char>> {
    headers_fold(rows_keys(rows_spec(v)))
}

/// The last binding of `k` in a row, mirroring last-write-wins insertion.
pub open spec fn lookup_last(row: Seq<EntryView>, k: Seq<char>) -> Option<ValView>
    decreases row.len(),
{
    if row.len() == 0 {
        None
    } else if row.last().key == k {
        Some(row.last().val)
    } else {
        lookup_last(row.drop_last(), k)
    }
}

/// The text of one cell: absent paths and null are empty, text is itself,
/// a boolean or a number takes its canonical text; containers never reach a
/// row and contribute nothing.
pub open spec fn cell_spec(ov: Option<ValView>) -> Seq<char> {
    match ov {
        None => Seq::empty(),
        Some(v) => match v {
            ValView::Null => Seq::empty(),
            ValView::Text(s) => s,
            ValView::Bool(b) => if b {
                "true"@
            } else {
                "false"@
            },
            ValView::Num(n) => n,
            _ => Seq::empty(),
        },
    }
}

/// One emitted record: one cell per header, in header order.
pub open spec fn record_of_row(row: Seq<EntryView>, headers: Seq<Seq<char>>) -> Seq<Seq<char>> {
    Seq::new(
        headers.len(),
        |j: int|
            if 0 <= j < headers.len() {
                cell_spec(lookup_last(row, headers[j]))
            } else {
                Seq::empty()
            },
    )
}

/// All emitted records: the header line, then one record per row.
pub open spec fn records_spec(v: ValView) -> Seq<Seq<Seq<char>>> {
    seq![headers_spec(v)] + Seq::new(
        rows_spec(v).len(),
        |i: int|
            if 0 <= i < rows_spec(v).len() {
                record_of_row(rows_spec(v)[i], headers_spec(v))
            } else {
                Seq::empty()
            },
    )
}

/// What csv::Writer emits for the given records.
pub uninterp spec fn csv_text_of(records: Seq<Seq<Seq<char>>>) -> Seq<char>;

/// Relies on csv::Writer: emits one comma-separated, quoted-as-needed line
/// per record into an in-memory buffer; the text depends on the records
/// alone, and writing fails only when records carry unequal field counts, so
/// equal-length records always emit.
#[verifier::external_body]
fn write_csv_records(records: &Vec<Vec<String>>) -> (r: Result<String, String>)
    ensures
        r matches Ok(t) ==> t@ == csv_text_of(records.deep_view()),
        (forall|i: int|
            0 <= i < records@.len() ==> (#[trigger] records@[i]@).len()
                == records@[0]@.len()) ==> r is Ok,
{
    let mut w = csv::Writer::from_writer(Vec::new());
    if let Err(e) = records.iter().try_for_each(|rec| w.write_record(rec)) {
        return Err(e.to_string());
    }
    let buf = w.into_inner().map_err(|e| e.to_string())?;
    String::from_utf8(buf).map_err(|e| e.to_string())
}

/// A non-array document is converted as a one-record list: its records are
/// those of its singleton array.
pub proof fn lemma_single_record(v: ValView)
    requires
        !(v is Arr),
    ensures
        records_spec(v) == records_spec(ValView::Arr(seq![v])),
{
    let w = ValView::Arr(seq![v]);
    assert(rows_spec(w) =~= rows_spec(v));
    assert(headers_spec(w) == headers_spec(v));
    assert(records_spec(w) =~= records_spec(v));
}

/// Strictly ascending paths: sorted, with no duplicates.
pub open spec fn sorted_strict(hs: Seq<Seq<char>>) -> bool {
    forall|i: int, j: int| 0 <= i < j < hs.len() ==> lex_lt(#[trigger] hs[i], #[trigger] hs[j])
}

proof fn lemma_insert_sorted_props(hs: Seq<Seq<char>>, k: Seq<char>)
    requires
        sorted_strict(hs),
    ensures
        sorted_strict(insert_sorted(hs, k)),
        forall|x: Seq<char>| #[trigger] insert_sorted(hs, k).contains(x) ==> x == k
            || hs.contains(x),
        forall|x: Seq<char>| #[trigger] hs.contains(x) ==> insert_sorted(hs, k).contains(x),
        insert_sorted(hs, k).contains(k),
    decreases hs.len(),
{
    let r = insert_sorted(hs, k);
    if hs.len() == 0 {
        assert(r[0] == k);
        assert(r.contains(k));
        assert forall|x: Seq<char>| #[trigger] r.contains(x) implies x == k || hs.contains(x) by {
            let i = choose|i: int| 0 <= i < r.len() && r[i] == x;
        }
    } else if lex_lt(k, hs[0]) {
        assert(r == seq![k] + hs);
        assert(r[0] == k);
        assert(r.contains(k));
        assert forall|i: int, j: int| 0 <= i < j < r.len() implies lex_lt(r[i], r[j]) by {
            assert(r[j] == hs[j - 1]);
            if i == 0 {
                if j > 1 {
                    lemma_lex_trans(k, hs[0], hs[j - 1]);
                }
            } else {
                assert(r[i] == hs[i - 1]);
            }
        }
        assert forall|x: Seq<char>| #[trigger] r.contains(x) implies x == k || hs.contains(x) by {
            let i = choose|i: int| 0 <= i < r.len() && r[i] == x;
            if i > 0 {
                assert(hs[i - 1] == x);
            }
        }
        assert forall|x: Seq<char>| #[trigger] hs.contains(x) implies r.contains(x) by {
            let i = choose|i: int| 0 <= i < hs.len() && hs[i] == x;
            assert(r[i + 1] == x);
        }
    } else if k == hs[0] {
        assert(r == hs);
        assert(hs[0] == k);
        assert(r.contains(k));
    } else {
        lemma_lex_trichotomy(k, hs[0]);
        let d = hs.drop_first();
        assert(forall|j: int| 0 <= j < d.len() ==> #[trigger] d[j] == hs[j + 1]);
        lemma_insert_sorted_props(d, k);
        let t = insert_sorted(d, k);
        assert(r == seq![hs[0]] + t);
        assert forall|i: int, j: int| 0 <= i < j < r.len() implies lex_lt(r[i], r[j]) by {
            assert(r[j] == t[j - 1]);
            if i == 0 {
                assert(t.contains(t[j - 1]));
                if t[j - 1] == k {
                    assert(lex_lt(hs[0], k));
                } else {
                    let p = choose|p: int| 0 <= p < d.len() && d[p] == t[j - 1];
                    assert(hs[p + 1] == t[j - 1]);
                }
            } else {
                assert(r[i] == t[i - 1]);
            }
        }
        assert(r[1 + choose|i: int| 0 <= i < t.len() && t[i] == k] == k);
        assert(r.contains(k));
        assert forall|x: Seq<char>| #[trigger] r.contains(x) implies x == k || hs.contains(x) by {
            let i = choose|i: int| 0 <= i < r.len() && r[i] == x;
            if i == 0 {
                assert(hs[0] == x);
            } else {
                assert(t.contains(t[i - 1]));
                if t[i - 1] != k {
                    let p = choose|p: int| 0 <= p < d.len() && d[p] == t[i - 1];
                    assert(hs[p + 1] == x);
                }
            }
        }
        assert forall|x: Seq<char>| #[trigger] hs.contains(x) implies r.contains(x) by {
            let i = choose|i: int| 0 <= i < hs.len() && hs[i] == x;
            if i == 0 {
                assert(r[0] == x);
            } else {
                assert(d[i - 1] == x);
                assert(d.contains(x));
                assert(t.contains(x));
                let p = choose|p: int| 0 <= p < t.len() && t[p] == x;
                assert(r[p + 1] == x);
            }
        }
    }
}

/// The header set is strictly sorted and holds exactly the observed paths:
/// the ordering of the header line is a contract, not an accident.
pub proof fn lemma_headers_sorted(ks: Seq<Seq<char>>)
    ensures
        sorted_strict(headers_fold(ks)),
        forall|x: Seq<char>| #[trigger] headers_fold(ks).contains(x) <==> ks.contains(x),
    decreases ks.len(),
{
    if ks.len() == 0 {
        assert forall|x: Seq<char>| #[trigger] headers_fold(ks).contains(x) implies false by {
            let i = choose|i: int|
                0 <= i < headers_fold(ks).len() && headers_fold(ks)[i] == x;
        }
        assert forall|x: Seq<char>| #[trigger] ks.contains(x) implies false by {
            let i = choose|i: int| 0 <= i < ks.len() && ks[i] == x;
        }
    } else {
        let d = ks.drop_last();
        lemma_headers_sorted(d);
        lemma_insert_sorted_props(headers_fold(d), ks.last());
        assert(forall|j: int| 0 <= j < d.len() ==> #[trigger] d[j] == ks[j]);
        assert forall|x: Seq<char>| #[trigger] headers_fold(ks).contains(x) implies ks.contains(
            x,
        ) by {
            if x == ks.last() {
                assert(ks[ks.len() - 1] == x);
            } else {
                assert(headers_fold(d).contains(x));
                assert(d.contains(x));
                let i = choose|i: int| 0 <= i < d.len() && d[i] == x;
                assert(ks[i] == x);
            }
        }
        assert forall|x: Seq<char>| #[trigger] ks.contains(x) implies headers_fold(ks).contains(
            x,
        ) by {
            let i = choose|i: int| 0 <= i < ks.len() && ks[i] == x;
            assert(headers_fold(ks) == insert_sorted(headers_fold(d), ks.last()));
            if i < ks.len() - 1 {
                assert(d[i] == x);
                assert(d.contains(x));
                assert(headers_fold(d).contains(x));
            } else {
                assert(x == ks.last());
            }
        }
    }
}

/// `insert_sorted` splits at the first position whose path is not below `k`.
proof fn lemma_insert_sorted_split(hs: Seq<Seq<char>>, k: Seq<char>, p: int)
    requires
        0 <= p <= hs.len(),
        forall|j: int| 0 <= j < p ==> lex_lt(#[trigger] hs[j], k),
        p < hs.len() ==> !lex_lt(hs[p], k),
    ensures
        insert_sorted(hs, k) == if p < hs.len() && hs[p] == k {
            hs
        } else {
            hs.take(p) + seq![k] + hs.skip(p)
        },
    decreases p,
{
    if p == 0 {
        if hs.len() == 0 {
            assert(insert_sorted(hs, k) =~= hs.take(0) + seq![k] + hs.skip(0));
        } else {
            lemma_lex_trichotomy(k, hs[0]);
            if lex_lt(k, hs[0]) {
                assert(seq![k] + hs =~= hs.take(0) + seq![k] + hs.skip(0));
            } else {
                assert(k == hs[0]);
            }
        }
    } else {
        lemma_lex_trichotomy(k, hs[0]);
        assert(forall|j: int|
            0 <= j < p - 1 ==> #[trigger] hs.drop_first()[j] == hs[j + 1]);
        lemma_insert_sorted_split(hs.drop_first(), k, p - 1);
        if p < hs.len() && hs[p] == k {
            assert(hs.drop_first()[p - 1] == k);
            assert(insert_sorted(hs, k) =~= hs);
        } else {
            assert(hs.drop_first().take(p - 1) =~= hs.take(p).drop_first());
            assert(hs.drop_first().skip(p - 1) =~= hs.skip(p));
            assert(seq![hs[0]] + (hs.drop_first().take(p - 1) + seq![k] + hs.drop_first().skip(
                p - 1,
            )) =~= hs.take(p) + seq![k] + hs.skip(p));
        }
    }
}

/// Inserts one path into the sorted header list.
#[verifier::loop_isolation(false)]
fn insert_header(headers: &mut Vec<String>, k: &String)
    ensures
        strings_view(final(headers)@) == insert_sorted(strings_view(old(headers)@), k@),
{
    let ghost hv = strings_view(headers@);
    let mut idx: usize = 0;
    while idx < headers.len() && str_lt(headers[idx].as_str(), k.as_str())
        invariant
            idx <= headers.len(),
            forall|j: int| 0 <= j < idx ==> lex_lt(#[trigger] hv[j], k@),
        decreases headers.len() - idx,
    {
        idx += 1;
    }
    if idx < headers.len() && str_eq(headers[idx].as_str(), k.as_str()) {
        proof {
            lemma_insert_sorted_split(hv, k@, idx as int);
        }
        return ;
    }
    headers.insert(idx, k.clone());
    proof {
        lemma_insert_sorted_split(hv, k@, idx as int);
        assert(strings_view(headers@) =~= hv.take(idx as int) + seq![k@] + hv.skip(idx as int));
    }
}

/// Builds the sorted header union of all paths of all rows.
#[verifier::loop_isolation(false)]
fn collect_headers(keys: &Vec<String>) -> (headers: Vec<String>)
    ensures
        strings_view(headers@) == headers_fold(strings_view(keys@)),
{
    let mut headers: Vec<String> = Vec::new();
    proof {
        assert(strings_view(headers@) =~= Seq::empty());
        assert(strings_view(keys@).take(0) =~= Seq::empty());
    }
    for i in 0..keys.len()
        invariant
            strings_view(headers@) == headers_fold(strings_view(keys@).take(i as int)),
    {
        insert_header(&mut headers, &keys[i]);
        proof {
            let kv = strings_view(keys@);
            assert(kv.take(i + 1).drop_last() =~= kv.take(i as int));
            assert(kv.take(i + 1).last() == kv[i as int]);
        }
    }
    proof {
        assert(strings_view(keys@).take(keys@.len() as int) =~= strings_view(keys@));
    }
    headers
}

/// Renders the cell of `key` in `row`.
#[verifier::loop_isolation(false)]
fn cell_text(row: &Vec<Entry>, key: &String) -> (r: String)
    ensures
        r@ == cell_spec(lookup_last(entries_view(row@), key@)),
{
    let ghost ev = entries_view(row@);
    let mut idx: usize = row.len();
    proof {
        assert(ev.take(row@.len() as int) =~= ev);
    }
    while idx > 0
        invariant
            idx <= row.len(),
            lookup_last(ev, key@) == lookup_last(ev.take(idx as int), key@),
        decreases idx,
    {
        idx -= 1;
        proof {
            assert(ev.take(idx + 1).last() == ev[idx as int]);
            assert(ev.take(idx + 1).drop_last() =~= ev.take(idx as int));
        }
        if str_eq(row[idx].key.as_str(), key.as_str()) {
            return match &row[idx].val {
                Val::Null => String::new(),
                Val::Bool(b) => {
                    if *b {
                        String::from_str("true")
                    } else {
                        String::from_str("false")
                    }
                },
                Val::Num(n) => n.clone(),
                Val::Text(s) => s.clone(),
                Val::Arr(_) => String::new(),
                Val::Obj(_) => String::new(),
            };
        }
    }
    proof {
        assert(ev.take(0) =~= Seq::empty());
    }
    String::new()
}

/// Converts a value to delimited text: each record flattened, paths unioned
/// and sorted into the header line, one line per record thereafter. Every
/// record carries one field per header, so emission always succeeds.
#[verifier::loop_isolation(false)]
#[verifier::rlimit(80)]
pub fn json_to_csv(value: &Val) -> (r: Result<String, DataError>)
    ensures
        r matches Ok(t) && t@ == csv_text_of(records_spec(value@)),
{
    let ghost rsv = rows_spec(value@);
    let mut rows: Vec<Vec<Entry>> = Vec::new();
    match value {
        Val::Arr(a) => {
            for i in 0..a.len()
                invariant
                    rows.len() == i,
                    forall|j: int|
                        0 <= j < i ==> entries_view(#[trigger] rows[j]@) == rsv[j],
            {
                rows.push(flatten_value(&a[i], ""));
                proof {
                    assert(value@->Arr_0[i as int] == a[i as int]@);
                }
            }
        },
        _ => {
            rows.push(flatten_value(value, ""));
        },
    }
    proof {
        assert(rows@.len() == rsv.len());
        assert(forall|j: int| 0 <= j < rsv.len() ==> entries_view(#[trigger] rows@[j]@) == rsv[j]);
    }
    let mut keys: Vec<String> = Vec::new();
    let ghost all_keys = rows_keys(rsv);
    for ri in 0..rows.len()
        invariant
            rows@.len() == rsv.len(),
            forall|j: int| 0 <= j < rsv.len() ==> entries_view(#[trigger] rows@[j]@) == rsv[j],
            strings_view(keys@) == rows_keys(rsv.take(ri as int)),
    {
        let row_len = rows[ri].len();
        for ei in 0..row_len
            invariant
                rows@.len() == rsv.len(),
                forall|j: int| 0 <= j < rsv.len() ==> entries_view(#[trigger] rows@[j]@) == rsv[j],
                row_len == rows@[ri as int]@.len(),
                strings_view(keys@) == rows_keys(rsv.take(ri as int)) + row_keys(
                    rsv[ri as int],
                ).take(ei as int),
        {
            let ghost kv_old = strings_view(keys@);
            keys.push(rows[ri][ei].key.clone());
            proof {
                let rk = row_keys(rsv[ri as int]);
                assert(rk[ei as int] == rsv[ri as int][ei as int].key);
                assert(rsv[ri as int][ei as int].key == rows@[ri as int]@[ei as int].key@);
                assert(strings_view(keys@) =~= kv_old.push(rk[ei as int]));
                assert(rk.take(ei + 1) =~= rk.take(ei as int).push(rk[ei as int]));
                assert(rows_keys(rsv.take(ri as int)) + rk.take(ei + 1) =~= (rows_keys(
                    rsv.take(ri as int),
                ) + rk.take(ei as int)).push(rk[ei as int]));
                assert(strings_view(keys@) =~= rows_keys(rsv.take(ri as int)) + rk.take(ei + 1));
            }
        }
        proof {
            assert(rsv.take(ri + 1).drop_last() =~= rsv.take(ri as int));
            assert(rsv.take(ri + 1).last() == rsv[ri as int]);
            assert(row_keys(rsv[ri as int]).take(rsv[ri as int].len() as int) =~= row_keys(
                rsv[ri as int],
            ));
        }
    }
    proof {
        assert(rsv.take(rsv.len() as int) =~= rsv);
    }
    let headers = collect_headers(&keys);
    let ghost hv = headers_spec(value@);
    let mut records: Vec<Vec<String>> = Vec::new();
    let mut header_row: Vec<String> = Vec::new();
    for j in 0..headers.len()
        invariant
            header_row.len() == j,
            forall|q: int| 0 <= q < j ==> #[trigger] header_row[q]@ == hv[q],
            strings_view(headers@) == hv,
    {
        header_row.push(headers[j].clone());
    }
    records.push(header_row);
    for ri in 0..rows.len()
        invariant
            rows@.len() == rsv.len(),
            forall|j: int| 0 <= j < rsv.len() ==> entries_view(#[trigger] rows@[j]@) == rsv[j],
            strings_view(headers@) == hv,
            records.len() == ri + 1,
            strings_view(records@[0]@) == hv,
            forall|q: int|
                0 <= q < ri ==> strings_view(#[trigger] records@[q + 1]@) == record_of_row(
                    rsv[q],
                    hv,
                ),
    {
        let mut rec: Vec<String> = Vec::new();
        for j in 0..headers.len()
            invariant
                rows@.len() == rsv.len(),
                forall|q: int| 0 <= q < rsv.len() ==> entries_view(#[trigger] rows@[q]@) == rsv[q],
                strings_view(headers@) == hv,
                ri < rsv.len(),
                rec.len() == j,
                forall|q: int|
                    0 <= q < j ==> #[trigger] rec[q]@ == cell_spec(
                        lookup_last(rsv[ri as int], hv[q]),
                    ),
        {
            rec.push(cell_text(&rows[ri], &headers[j]));
        }
        records.push(rec);
        proof {
            assert(strings_view(rec@) =~= record_of_row(rsv[ri as int], hv));
        }
    }
    proof {
        let rv = records_spec(value@);
        assert(records.deep_view().len() == rv.len());
        assert forall|q: int| 0 <= q < rv.len() implies records.deep_view()[q] == rv[q] by {
            assert(records.deep_view()[q] == records@[q].deep_view());
            assert(records@[q].deep_view() =~= strings_view(records@[q]@));
            if q > 0 {
                let p = q - 1;
                assert(strings_view(records@[p + 1]@) == record_of_row(rsv[p], hv));
                assert(strings_view(records@[q]@) == record_of_row(rsv[q - 1], hv));
                assert(rv[q] == record_of_row(rsv[q - 1], hv));
            }
        }
        assert(records.deep_view() =~= records_spec(value@));
        assert forall|q: int|
            0 <= q < records@.len() implies (#[trigger] records@[q]@).len()
            == records@[0]@.len() by {
            assert(strings_view(records@[0]@).len() == records@[0]@.len());
            assert(strings_view(records@[q]@).len() == records@[q]@.len());
            if q > 0 {
                let p = q - 1;
                assert(strings_view(records@[p + 1]@) == record_of_row(rsv[p], hv));
            }
        }
    }
    match write_csv_records(&records) {
        Ok(t) => Ok(t),
        Err(m) => Err(DataError::EncodingError(m)),
    }
}

} // verus!
