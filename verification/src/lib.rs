use std::io::Write;
use vstd::prelude::*;

pub mod log_text;
pub mod logs_provider;
pub mod repeat;
pub mod request;
pub mod request_runner;
pub mod time_iter;

use crate::request::Request;
use crate::request_runner::{PrepareHttpRequest, RequestRunner};
use crate::time_iter::repeat_for;

verus! {

// ---------------------------------------------------------------------------
// The replay engine's verified core: one worker's whole loop, and the
// metrics accumulator that folds the workers' tallies into the run's total.
// The fan-out to operating-system threads is plumbing around these and
// stays outside the library; each thread owns one `run_worker` call and
// hands its tally back, and the tallies go through `total_attempts`.
// ---------------------------------------------------------------------------

/// Relies on write and flush on standard output: emits one short progress
/// marker so it shows at once. Output only; nothing is assumed of it.
#[verifier::external_body]
fn print_marker(s: &str) {
    let mut out = std::io::stdout();
    let _ = write!(out, "{}", s);
    let _ = out.flush();
}

/// The sum of the workers' attempt counts.
pub open spec fn sum_of(counts: Seq<usize>) -> int
    decreases counts.len(),
{
    if counts.len() == 0 {
        0int
    } else {
        sum_of(counts.drop_last()) + counts.last()
    }
}

proof fn lemma_sum_of_nonneg(counts: Seq<usize>)
    ensures
        sum_of(counts) >= 0,
    decreases counts.len(),
{
    if counts.len() > 0 {
        lemma_sum_of_nonneg(counts.drop_last());
    }
}

/// Law: workers that all tally zero — as every worker does over an empty
/// corpus — sum to a total of zero.
pub proof fn lemma_sum_of_zeros(counts: Seq<usize>)
    requires
        forall|i: int| 0 <= i < counts.len() ==> counts[i] == 0,
    ensures
        sum_of(counts) == 0,
    decreases counts.len(),
{
    if counts.len() > 0 {
        lemma_sum_of_zeros(counts.drop_last());
    }
}

/// Law: more workers never lose attempts: whatever tallies further workers
/// add, the sum over the longer list is at least the sum over the shorter.
/// How large each tally itself grows with the configured duration is the
/// clock's and the network's doing, outside this model.
pub proof fn lemma_more_workers_no_fewer_attempts(a: Seq<usize>, b: Seq<usize>)
    ensures
        sum_of(a + b) >= sum_of(a),
    decreases b.len(),
{
    if b.len() == 0 {
        assert(a + b =~= a);
    } else {
        assert((a + b).drop_last() =~= a + b.drop_last());
        assert((a + b).last() == b.last());
        lemma_more_workers_no_fewer_attempts(a, b.drop_last());
    }
}

/// The metrics accumulator: the total attempt count is the exact sum of the
/// per-worker counts — no update is lost — saturating only if the sum would
/// not fit the machine word.
pub fn total_attempts(counts: &Vec<usize>) -> (t: usize)
    ensures
        sum_of(counts@) <= usize::MAX ==> t == sum_of(counts@),
        sum_of(counts@) > usize::MAX ==> t == usize::MAX,
{
    let mut t: usize = 0;
    let mut i: usize = 0;
    proof {
        assert(counts@.take(0) =~= Seq::<usize>::empty());
    }
    while i < counts.len()
        invariant
            i <= counts@.len(),
            sum_of(counts@.take(i as int)) <= usize::MAX ==> t == sum_of(counts@.take(i as int)),
            sum_of(counts@.take(i as int)) > usize::MAX ==> t == usize::MAX,
        decreases counts@.len() - i,
    {
        proof {
            assert(counts@.take(i + 1).drop_last() =~= counts@.take(i as int));
            assert(counts@.take(i + 1).last() == counts@[i as int]);
            lemma_sum_of_nonneg(counts@.take(i as int));
        }
        let c = counts[i];
        if t <= usize::MAX - c {
            t = t + c;
        } else {
            t = usize::MAX;
        }
        i += 1;
    }
    proof {
        assert(counts@.take(counts@.len() as int) =~= counts@);
    }
    t
}

/// One worker's whole life: its own executor and its own deadline iterator,
/// a round-robin walk over the shared corpus, one marker and one tick of
/// its tally per attempt, success or failure alike. `None` exactly when no
/// runtime could be built for the worker's executor — a fatal condition the
/// caller must surface, not a tally. Otherwise the tally: zero over an
/// empty corpus, after a clean immediate exit; at least one attempt over a
/// non-empty one, since a fresh deadline iterator always yields once. The
/// caller gives each operating-system thread one call of this and sums what
/// the threads return through `total_attempts`.
pub fn run_worker<U: PrepareHttpRequest>(
    requests: &Vec<Request>,
    host: &String,
    duration_ms: u64,
    prepare_http_request: Option<U>,
) -> (r: Option<usize>)
    ensures
        match r {
            Some(count) => (requests@.len() == 0 ==> count == 0) && (requests@.len() > 0
                ==> count >= 1),
            None => true,
        },
{
    let mut runner = match RequestRunner::new(prepare_http_request) {
        Some(rr) => rr,
        None => {
            return None;
        },
    };
    if requests.len() == 0 {
        print_marker("No requests\n");
        return Some(0);
    }
    let mut iter = repeat_for(duration_ms);
    let mut idx: usize = 0;
    let mut count: usize = 0;
    // The deadline iterator is exhausted by the clock, which no proof here
    // can see advance; the fuel bounds the loop so it provably ends, at a
    // count no run can reach. The tally saturates rather than wrap.
    let mut fuel: u64 = u64::MAX;
    while fuel > 0
        invariant
            0 < requests@.len() <= usize::MAX,
            idx < requests@.len(),
            !iter.stopped() || count >= 1,
            fuel < u64::MAX ==> count >= 1,
        ensures
            count >= 1,
        decreases fuel,
    {
        let running = match iter.next() {
            Some(_) => true,
            None => false,
        };
        if !running {
            break ;
        }
        // The iteration counter is bumped before the index is taken, so a
        // worker's first pick is index 1 modulo the corpus length, never 0;
        // kept so a replayed run walks the corpus as the original traffic
        // ordering had it.
        idx = if idx + 1 == requests.len() {
            0
        } else {
            idx + 1
        };
        let request = &requests[idx];
        match runner.run_request(host, request) {
            Ok(_) => print_marker("."),
            Err(_) => print_marker("f"),
        };
        if count < usize::MAX {
            count = count + 1;
        }
        fuel = fuel - 1;
    }
    Some(count)
}

} // verus!
