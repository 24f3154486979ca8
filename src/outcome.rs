//! How the outcome of a call on an engine is decided from what the native
//! call left behind: a status (zero on success) and the coordinates it wrote.
use vstd::prelude::*;

verus! {

/// The outcome of one call: its output where its status is zero, else the
/// status itself. Nothing from an earlier call enters.
pub open spec fn call_result<P>(status: i32, out: P) -> Result<P, i32> {
    if status == 0 {
        Ok(out)
    } else {
        Err(status)
    }
}

/// The outcome of one call: its output where its status is zero, else the
/// status itself.
pub fn call_outcome<P>(status: i32, out: P) -> (r: Result<P, i32>)
    ensures
        r == call_result(status, out),
{
    if status == 0 {
        Ok(out)
    } else {
        Err(status)
    }
}

/// The outcomes of calls made one after another on the same engine.
pub open spec fn session_results<P>(calls: Seq<(i32, P)>) -> Seq<Result<P, i32>> {
    calls.map_values(|c: (i32, P)| call_result(c.0, c.1))
}

/// A failed call leaves nothing behind: whatever calls came before, failed
/// or not, a call has the outcome it has on a fresh engine.
pub proof fn lemma_error_isolation<P>(earlier: Seq<(i32, P)>, status: i32, out: P)
    ensures
        session_results(earlier.push((status, out))).last() == session_results(
            seq![(status, out)],
        )[0],
        session_results(earlier.push((status, out))).drop_last() == session_results(earlier),
{
    assert(session_results(earlier.push((status, out))).drop_last() =~= session_results(earlier));
}

/// The element of a batch that failed first, and its status.
#[derive(Clone, Copy, Debug, PartialEq, Eq, Structural)]
pub struct BatchFailure {
    pub index: usize,
    pub code: i32,
}

/// Every element of a batch succeeded.
pub open spec fn batch_succeeds<P>(results: Seq<(i32, P)>) -> bool {
    forall|i: int| 0 <= i < results.len() ==> (#[trigger] results[i]).0 == 0
}

/// The outputs of the elements of a batch, in order.
pub open spec fn batch_output<P>(results: Seq<(i32, P)>) -> Seq<P> {
    results.map_values(|c: (i32, P)| c.1)
}

/// Applies the results of a batch to `points`: where every element
/// succeeded, each point is replaced by its output, in index order;
/// otherwise the points are left as they were and the first failing element
/// is reported.
pub fn apply_batch<P: Copy>(points: &mut Vec<P>, results: &Vec<(i32, P)>) -> (r: Result<(), BatchFailure>)
    requires
        old(points)@.len() == results@.len(),
    ensures
        final(points)@.len() == old(points)@.len(),
        match r {
            Ok(()) => batch_succeeds(results@) && final(points)@ == batch_output(results@),
            Err(f) => f.index < results@.len() && results@[f.index as int].0 != 0 && f.code
                == results@[f.index as int].0 && (forall|j: int| 0 <= j < f.index ==> (#[trigger] results@[j]).0 == 0)
                && final(points)@ == old(points)@,
        },
{
    let n = results.len();
    let mut i: usize = 0;
    while i < n
        invariant
            n == results@.len(),
            i <= n,
            forall|j: int| 0 <= j < i ==> (#[trigger] results@[j]).0 == 0,
        decreases n - i,
    {
        if results[i].0 != 0 {
            return Err(BatchFailure { index: i, code: results[i].0 });
        }
        i = i + 1;
    }
    let mut k: usize = 0;
    while k < n
        invariant
            n == results@.len(),
            n == points@.len(),
            k <= n,
            forall|j: int| 0 <= j < k ==> #[trigger] points@[j] == results@[j].1,
        decreases n - k,
    {
        points.set(k, results[k].1);
        k = k + 1;
    }
    assert(points@ =~= batch_output(results@));
    Ok(())
}

/// A batch succeeds exactly when each of its elements, run alone,
/// succeeds; and then each point of the batch is what its own call gives.
pub proof fn lemma_batch_matches_calls<P>(results: Seq<(i32, P)>)
    ensures
        batch_succeeds(results) <==> (forall|i: int| 0 <= i < results.len() ==> (#[trigger] call_result(results[i].0, results[i].1)) is Ok),
        batch_succeeds(results) ==> forall|i: int| 0 <= i < results.len() ==> #[trigger] call_result(results[i].0, results[i].1) == Ok::<P, i32>(batch_output(results)[i]),
{
    if !batch_succeeds(results) {
        let i = choose|i: int| 0 <= i < results.len() && results[i].0 != 0;
        assert(call_result(results[i].0, results[i].1) is Err);
    }
}

} // verus!
