use vstd::prelude::*;

verus! {

/// Declares the standard monotonic-clock timestamp so a field can hold one.
/// A value of it is opaque here.
#[verifier::external_type_specification]
#[verifier::external_body]
pub struct ExInstant(std::time::Instant);

/// Relies on std::time::Instant::now: an opaque timestamp of the moment of
/// the call.
#[verifier::external_body]
fn instant_now() -> (r: std::time::Instant) {
    std::time::Instant::now()
}

/// Relies on std::time::Instant::elapsed: the wall-clock time since `start`,
/// here taken in whole milliseconds. Nothing is assumed of the value: it
/// depends on the clock.
#[verifier::external_body]
fn elapsed_millis(start: &std::time::Instant) -> (ms: u128) {
    start.elapsed().as_millis()
}

/// The deadline iterator: a finite, non-restartable sequence of elapsed
/// times driving one worker's replay loop. While the elapsed time has not
/// passed the duration it keeps yielding; the first elapsed value observed
/// past the duration is still yielded once, and after that the iterator is
/// exhausted for good. That the clock eventually passes any finite duration
/// is the clock's monotonicity, which stays outside this model.
pub struct TimeIter {
    start_time: std::time::Instant,
    duration_ms: u64,
    stop: bool,
}

impl TimeIter {
    /// The duration this iterator was created with, in milliseconds.
    pub closed spec fn duration(self) -> u64 {
        self.duration_ms
    }

    /// Whether the iterator is exhausted: once true, it stays true.
    pub closed spec fn stopped(self) -> bool {
        self.stop
    }

    /// Yields the elapsed time since creation, in milliseconds (saturating),
    /// or `None` once exhausted. A fresh iterator always yields at least
    /// once, whatever the duration; a yielded value above the duration is
    /// the last one.
    pub fn next(&mut self) -> (r: Option<u64>)
        ensures
            old(self).stopped() ==> r is None && *final(self) == *old(self),
            !old(self).stopped() ==> r is Some && final(self).stopped() == (r->0
                > old(self).duration()),
            final(self).duration() == old(self).duration(),
    {
        if self.stop {
            return None;
        }
        let e128 = elapsed_millis(&self.start_time);
        let e: u64 = if e128 > u64::MAX as u128 {
            u64::MAX
        } else {
            e128 as u64
        };
        if e > self.duration_ms {
            self.stop = true;
        }
        Some(e)
    }
}

/// Starts a deadline iterator for `duration_ms` milliseconds from now. It
/// is not exhausted, so it will yield at least one value even for a zero
/// duration.
pub fn repeat_for(duration_ms: u64) -> (t: TimeIter)
    ensures
        !t.stopped(),
        t.duration() == duration_ms,
{
    TimeIter { start_time: instant_now(), duration_ms, stop: false }
}

} // verus!
