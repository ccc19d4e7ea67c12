//! Recent-file bookkeeping: the pure list update behind the persistent
//! storage edge. The newly opened path moves to the front, an earlier entry
//! for it is dropped, and the list is capped at ten.
use crate::text::{str_eq, strings_view};
use vstd::prelude::*;

verus! {

broadcast use vstd::std_specs::vec::group_vec_axioms;

/// How many recent files are kept.
pub const RECENT_CAP: usize = 10;

/// `fs` with every occurrence of `p` removed, order kept.
pub open spec fn without(fs: Seq<Seq<char>>, p: Seq<char>) -> Seq<Seq<char>>
    decreases fs.len(),
{
    if fs.len() == 0 {
        Seq::empty()
    } else {
        without(fs.drop_last(), p) + if fs.last() == p {
            Seq::<Seq<char>>::empty()
        } else {
            seq![fs.last()]
        }
    }
}

/// `s` capped at the recent-file limit.
pub open spec fn capped(s: Seq<Seq<char>>) -> Seq<Seq<char>> {
    if s.len() <= RECENT_CAP {
        s
    } else {
        s.take(RECENT_CAP as int)
    }
}

/// Returns the recent list after opening `path`: `path` first, then the
/// earlier entries except `path`, at most ten in all.
#[verifier::loop_isolation(false)]
pub fn update_recent_files(files: Vec<String>, path: String) -> (r: Vec<String>)
    ensures
        strings_view(r@) == capped(seq![path@] + without(strings_view(files@), path@)),
{
    let mut out: Vec<String> = Vec::new();
    out.push(path.clone());
    proof {
        assert(strings_view(files@).take(0) =~= Seq::empty());
        assert(strings_view(out@) =~= seq![path@] + without(strings_view(files@).take(0), path@));
    }
    for i in 0..files.len()
        invariant
            strings_view(out@) == seq![path@] + without(
                strings_view(files@).take(i as int),
                path@,
            ),
    {
        let ghost fv = strings_view(files@);
        proof {
            assert(fv.take(i + 1).drop_last() =~= fv.take(i as int));
            assert(fv.take(i + 1).last() == fv[i as int]);
        }
        if !str_eq(files[i].as_str(), path.as_str()) {
            let ghost before = strings_view(out@);
            out.push(files[i].clone());
            proof {
                assert(strings_view(out@) =~= before + seq![fv[i as int]]);
                assert(seq![path@] + without(fv.take(i as int), path@) + seq![fv[i as int]]
                    =~= seq![path@] + without(fv.take(i + 1), path@));
            }
        } else {
            proof {
                assert(without(fv.take(i + 1), path@) =~= without(fv.take(i as int), path@));
            }
        }
    }
    proof {
        assert(strings_view(files@).take(files@.len() as int) =~= strings_view(files@));
    }
    if out.len() > RECENT_CAP {
        let ghost full = strings_view(out@);
        out.truncate(RECENT_CAP);
        proof {
            assert(strings_view(out@) =~= full.take(RECENT_CAP as int));
        }
    }
    out
}

} // verus!
