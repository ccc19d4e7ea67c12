//! Query evaluation: jq-style filters and JSONPath selections are outside
//! collaborators; the result-collapsing rule and the error mapping are
//! verified here.
use crate::error::DataError;
use crate::formats::{from_json, to_json};
use crate::value::{Val, ValView};
use crate::query::QueryFailure::{Compile, Runtime};
use jaq_core::load::{Arena, File, Loader};
use jaq_core::{Compiler, Ctx, RcIter};
use vstd::prelude::*;

verus! {

broadcast use vstd::std_specs::vec::group_vec_axioms;

/// How a query failed: at compile time or while running.
enum QueryFailure {
    Compile(String),
    Runtime(String),
}

/// The view of a list of values.
pub open spec fn vals_view(s: Seq<Val>) -> Seq<ValView> {
    Seq::new(s.len(), |i: int| if 0 <= i < s.len() { s[i]@ } else { ValView::Null })
}

/// What a JSONPath selection yields, in document order; `None` where the path
/// is rejected.
pub uninterp spec fn jsonpath_results_of(path: Seq<char>, v: ValView) -> Option<Seq<ValView>>;

/// Whether the filter text loads and compiles as a jq program; deterministic
/// in the text, since loading reads only the filter and the fixed library.
pub uninterp spec fn jq_compiles(filter: Seq<char>) -> bool;

/// Relies on jaq (Loader::load, Compiler::compile, Filter::run): compiles the
/// filter against jaq's standard library and runs it on the value. Loading
/// and compiling depend on the filter text alone and happen before any
/// evaluation; a filter may read the clock, so nothing is claimed of the
/// results themselves.
#[verifier::external_body]
fn eval_jq(filter: &str, value: &Val) -> (r: Result<Vec<Val>, QueryFailure>)
    ensures
        match r {
            Ok(_) => jq_compiles(filter@),
            Err(e) => e matches QueryFailure::Compile(_) <==> !jq_compiles(filter@),
        },
{
    let arena = Arena::default();
    let modules = Loader::new(jaq_std::defs().chain(jaq_json::defs())).load(
        &arena,
        File { code: filter, path: () },
    ).map_err(|e| Compile(format!("Load error: {e:?}")))?;
    let compiled = Compiler::default().with_funs(jaq_std::funs().chain(jaq_json::funs())).compile(
        modules,
    ).map_err(|e| Compile(format!("Compile error: {e:?}")))?;
    compiled.run((Ctx::new([], &RcIter::new(core::iter::empty())), jaq_json::Val::from(to_json(value)))).map(
        |res| res.map_err(|e| Runtime(format!("Runtime error: {e:?}"))).map(|v| from_json(v.into())),
    ).collect()
}

/// Relies on jsonpath_lib::select: the selected nodes, in document order,
/// deterministic in the path and the value.
#[verifier::external_body]
fn eval_jsonpath(path: &str, value: &Val) -> (r: Result<Vec<Val>, String>)
    ensures
        match r {
            Ok(vs) => jsonpath_results_of(path@, value@) == Some(vals_view(vs@)),
            Err(_) => jsonpath_results_of(path@, value@) is None,
        },
{
    let j = to_json(value);
    let found = jsonpath_lib::select(&j, path).map_err(|e| e.to_string())?;
    Ok(found.into_iter().map(|x| from_json(x.clone())).collect())
}

/// Collapses a query's result list: a single result stands alone, any other
/// count is wrapped in an array.
pub fn collapse_results(results: Vec<Val>) -> (r: Val)
    ensures
        results@.len() == 1 ==> r@ == results@[0]@,
        results@.len() != 1 ==> r@ == ValView::Arr(vals_view(results@)),
{
    let mut results = results;
    if results.len() == 1 {
        match results.pop() {
            Some(v) => v,
            None => Val::Null,
        }
    } else {
        let r = Val::Arr(results);
        proof {
            assert(r@->Arr_0 =~= vals_view(r->Arr_0@));
        }
        r
    }
}

/// Compiles and runs a jq-style filter on `value`: a filter that does not
/// compile fails with `QueryCompileError`, and only then; a runtime failure
/// comes back as `QueryRuntimeError`; results are collapsed by
/// `collapse_results`.
pub fn run_jq(filter: &str, value: &Val) -> (r: Result<Val, DataError>)
    ensures
        r matches Err(e) ==> (e matches DataError::QueryCompileError(_) || e
            matches DataError::QueryRuntimeError(_)),
        r matches Ok(_) ==> jq_compiles(filter@),
        r matches Err(e) ==> (e matches DataError::QueryCompileError(_) <==> !jq_compiles(
            filter@,
        )),
{
    match eval_jq(filter, value) {
        Ok(results) => Ok(collapse_results(results)),
        Err(QueryFailure::Compile(m)) => Err(DataError::QueryCompileError(m)),
        Err(QueryFailure::Runtime(m)) => Err(DataError::QueryRuntimeError(m)),
    }
}

/// Selects by a JSONPath expression; a rejected path comes back as
/// `QueryCompileError`, and results are collapsed by `collapse_results`.
pub fn run_jsonpath(path: &str, value: &Val) -> (r: Result<Val, DataError>)
    ensures
        match jsonpath_results_of(path@, value@) {
            Some(vs) => match r {
                Ok(v) => (vs.len() == 1 ==> v@ == vs[0]) && (vs.len() != 1 ==> v@
                    == ValView::Arr(vs)),
                Err(_) => false,
            },
            None => r matches Err(e) && e matches DataError::QueryCompileError(_),
        },
{
    match eval_jsonpath(path, value) {
        Ok(results) => Ok(collapse_results(results)),
        Err(m) => Err(DataError::QueryCompileError(m)),
    }
}

} // verus!
