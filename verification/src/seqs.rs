//! Sequences of results: their successes, their failures, and flattening.

use vstd::prelude::*;

verus! {

/// The values of the `Ok` results, in order.
pub open spec fn oks<A, E>(rs: Seq<Result<A, E>>) -> Seq<A>
    decreases rs.len(),
{
    if rs.len() == 0 {
        Seq::empty()
    } else {
        match rs.last() {
            Ok(a) => oks(rs.drop_last()).push(a),
            Err(_) => oks(rs.drop_last()),
        }
    }
}

/// The errors of the `Err` results, in order.
pub open spec fn errs<A, E>(rs: Seq<Result<A, E>>) -> Seq<E>
    decreases rs.len(),
{
    if rs.len() == 0 {
        Seq::empty()
    } else {
        match rs.last() {
            Ok(_) => errs(rs.drop_last()),
            Err(e) => errs(rs.drop_last()).push(e),
        }
    }
}

/// The sequences one after the other.
pub open spec fn flatten<A>(ss: Seq<Seq<A>>) -> Seq<A>
    decreases ss.len(),
{
    if ss.len() == 0 {
        Seq::empty()
    } else {
        flatten(ss.drop_last()) + ss.last()
    }
}

/// Every result of `rs` is `Ok` exactly when `rs` has no errors.
pub proof fn lemma_no_errs_all_ok<A, E>(rs: Seq<Result<A, E>>)
    ensures
        errs(rs).len() == 0 <==> forall|i: int| 0 <= i < rs.len() ==> rs[i] is Ok,
        errs(rs).len() == 0 ==> oks(rs).len() == rs.len(),
        errs(rs).len() == 0 ==> forall|i: int| 0 <= i < rs.len() ==> rs[i] == Ok::<A, E>(#[trigger] oks(rs)[i]),
    decreases rs.len(),
{
    if rs.len() > 0 {
        lemma_no_errs_all_ok(rs.drop_last());
        if errs(rs).len() == 0 {
            assert forall|i: int| 0 <= i < rs.len() implies rs[i] is Ok by {
                if i < rs.len() - 1 {
                    assert(rs.drop_last()[i] == rs[i]);
                }
            }
        } else {
            if errs(rs.drop_last()).len() > 0 {
                let k = choose|k: int| 0 <= k < rs.drop_last().len() && !(rs.drop_last()[k] is Ok);
                assert(rs[k] == rs.drop_last()[k]);
            }
        }
    }
}

} // verus!
