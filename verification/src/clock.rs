//! The clock that paces a stream: each sample goes out at its media timestamp.
use std::time::Instant;
use vstd::prelude::*;

verus! {

/// The standard library's reading of a monotonic clock.
#[verifier::external_type_specification]
#[verifier::external_body]
pub struct ExInstant(std::time::Instant);

/// Calls `Instant::now`, which reads the clock. Nothing is claimed of the reading.
#[verifier::external_body]
fn now() -> Instant {
    Instant::now()
}

/// Calls `Instant::elapsed`, which reads the clock and gives the time since `origin`, here in
/// nanoseconds. Nothing is claimed of the time.
#[verifier::external_body]
fn elapsed_nanos(origin: &Instant) -> u128 {
    origin.elapsed().as_nanos()
}

/// A time to wait.
#[derive(Debug, Clone, Copy, PartialEq, Eq, Structural)]
pub struct Delay {
    pub secs: u64,
    pub nanos: u32,
}

impl Delay {
    /// The time in nanoseconds.
    pub open spec fn total(self) -> int {
        self.secs * 1_000_000_000 + self.nanos
    }
}

/// What to wait, `elapsed` nanoseconds after the start, for a sample that is due `pts_us`
/// microseconds after the start: up to that moment, or not at all if it is past.
pub open spec fn is_pause(pts_us: i64, elapsed: u128, delay: Option<Delay>) -> bool {
    match delay {
        Some(d) => d.nanos < 1_000_000_000 && elapsed + d.total() == pts_us * 1000,
        None => elapsed > pts_us * 1000,
    }
}

/// What to wait for a sample that is due `pts_us` microseconds after the start.
pub fn delay_until(pts_us: i64, elapsed: u128) -> (delay: Option<Delay>)
    requires
        pts_us >= 0,
    ensures
        is_pause(pts_us, elapsed, delay),
        delay is None <==> elapsed > pts_us * 1000,
        delay matches Some(d) ==> d.nanos < 1_000_000_000 && elapsed + d.secs * 1_000_000_000
            + d.nanos == pts_us * 1000,
{
    let target: u128 = pts_us as u128 * 1000;
    if elapsed > target {
        return None;
    }
    let left: u128 = target - elapsed;
    Some(Delay { secs: (left / 1_000_000_000) as u64, nanos: (left % 1_000_000_000) as u32 })
}

/// The time from `start` to `now`; none where `now` is before `start`.
pub open spec fn since(start: u128, now: u128) -> u128 {
    if now < start {
        0
    } else {
        (now - start) as u128
    }
}

/// The start of a clock after it was asked, at `now`, for a sample: a clock that runs keeps
/// its start, and one that does not starts now if the sample has a positive timestamp.
pub open spec fn start_after(started_at: Option<u128>, pts_us: Option<i64>, now: u128) -> Option<
    u128,
> {
    match (started_at, pts_us) {
        (None, Some(pts_us)) if pts_us > 0 => Some(now),
        _ => started_at,
    }
}

/// What asking a clock at `now` for a sample gives: its start afterwards, and what to wait. A
/// sample without a timestamp, or with one that is not positive, does not wait; any other is
/// due at its timestamp, counted from the start.
pub open spec fn is_step(
    started_at: Option<u128>,
    pts_us: Option<i64>,
    now: u128,
    start: Option<u128>,
    delay: Option<Delay>,
) -> bool {
    &&& start == start_after(started_at, pts_us, now)
    &&& match pts_us {
        Some(pts_us) if pts_us > 0 => is_pause(pts_us, since(start->Some_0, now), delay),
        _ => delay is None,
    }
}

/// Asks a clock for a sample, with the times in nanoseconds on one scale: its start before,
/// and the time now. Gives its start afterwards, and what to wait.
pub fn paced(started_at: Option<u128>, pts_us: Option<i64>, now: u128) -> (r: (
    Option<u128>,
    Option<Delay>,
))
    ensures
        is_step(started_at, pts_us, now, r.0, r.1),
{
    let pts_us: i64 = match pts_us {
        Some(pts_us) => pts_us,
        None => {
            return (started_at, None);
        },
    };
    if pts_us <= 0 {
        return (started_at, None);
    }
    let start: u128 = match started_at {
        Some(start) => start,
        None => now,
    };
    let elapsed: u128 = if now < start {
        0
    } else {
        now - start
    };
    (Some(start), delay_until(pts_us, elapsed))
}

/// A clock that starts with the first sample that has to wait.
pub struct MediaClock {
    /// The moment from which the clock's times are counted.
    origin: Instant,
    /// When the clock was started.
    started_at: Option<u128>,
}

impl MediaClock {
    /// The moment from which the clock's times are counted.
    pub closed spec fn origin(&self) -> Instant {
        self.origin
    }

    /// When the clock was started, in nanoseconds after its origin, if it runs.
    pub closed spec fn started_at(&self) -> Option<u128> {
        self.started_at
    }

    /// A clock that does not run yet.
    pub fn new() -> (clock: MediaClock)
        ensures
            clock.started_at() is None,
    {
        MediaClock { origin: now(), started_at: None }
    }

    /// What to wait before a sample with this timestamp goes out. The time is read once. It
    /// is not known beforehand: the start and the delay are right for what was read. A sample
    /// that does not wait whatever the time does not touch the clock.
    pub fn wait_until(&mut self, pts_us: Option<i64>) -> (delay: Option<Delay>)
        ensures
            final(self).origin() == old(self).origin(),
            exists|now: u128|
                #[trigger] is_step(
                    old(self).started_at(),
                    pts_us,
                    now,
                    final(self).started_at(),
                    delay,
                ),
            !(pts_us matches Some(pts_us) && pts_us > 0) ==> *final(self) == *old(self) && delay
                is None,
            old(self).started_at() is Some ==> final(self).started_at() == old(self).started_at(),
            pts_us matches Some(p) && p > 0 ==> final(self).started_at() is Some,
    {
        let now: u128 = elapsed_nanos(&self.origin);
        let (start, delay) = paced(self.started_at, pts_us, now);
        self.started_at = start;
        delay
    }
}

// ---------------------------------------------------------------------------
// Laws
// ---------------------------------------------------------------------------

/// How long a pause lasts, in nanoseconds.
pub open spec fn pause_nanos(delay: Option<Delay>) -> int {
    match delay {
        Some(d) => d.total(),
        None => 0,
    }
}

/// A clock that runs is never started again, and one that does not run is started by the
/// first sample with a positive timestamp and by no other, at the time that was read. The
/// sample that starts it waits for the whole of its timestamp.
pub proof fn a_clock_starts_once(
    started_at: Option<u128>,
    pts_us: Option<i64>,
    now: u128,
    start: Option<u128>,
    delay: Option<Delay>,
)
    requires
        is_step(started_at, pts_us, now, start, delay),
    ensures
        started_at is Some ==> start == started_at,
        started_at is None ==> start == (if pts_us is Some && pts_us->Some_0 > 0 {
            Some(now)
        } else {
            None
        }),
        started_at is None && start is Some ==> pause_nanos(delay) == pts_us->Some_0 * 1000,
{
}

/// Samples go out at their timestamps: a sample that is asked for in time goes out at its
/// timestamp, counted from the start, and one that is late goes out at once.
pub proof fn samples_go_out_on_time(
    started_at: Option<u128>,
    pts_us: i64,
    now: u128,
    start: u128,
    delay: Option<Delay>,
)
    requires
        is_step(started_at, Some(pts_us), now, Some(start), delay),
        pts_us > 0,
        start <= now,
    ensures
        now + pause_nanos(delay) == (if now <= start + pts_us * 1000 {
            start + pts_us * 1000
        } else {
            now as int
        }),
{
}

/// Of two samples asked for at one moment, the one that is due later does not go out first.
pub proof fn order_is_kept(
    elapsed: u128,
    first_us: i64,
    first: Option<Delay>,
    second_us: i64,
    second: Option<Delay>,
)
    requires
        is_pause(first_us, elapsed, first),
        is_pause(second_us, elapsed, second),
        first_us <= second_us,
    ensures
        pause_nanos(first) <= pause_nanos(second),
{
}

/// After a pause that has ended, a sample that was due earlier does not wait.
pub proof fn earlier_samples_do_not_wait(
    first_us: i64,
    first_elapsed: u128,
    first: Option<Delay>,
    second_us: i64,
    second_elapsed: u128,
    second: Option<Delay>,
)
    requires
        is_pause(first_us, first_elapsed, first),
        is_pause(second_us, second_elapsed, second),
        0 < second_us < first_us,
        second_elapsed >= first_elapsed + pause_nanos(first),
    ensures
        second is None,
{
}

/// Asked twice, the second time after the first pause has ended, for a sample that was due
/// earlier than the first, a clock lets it go out at once and stays as it is.
pub proof fn a_late_sample_goes_out_at_once(
    started_at: Option<u128>,
    first_us: i64,
    first_now: u128,
    start: Option<u128>,
    first: Option<Delay>,
    second_us: i64,
    second_now: u128,
    start_after: Option<u128>,
    second: Option<Delay>,
)
    requires
        is_step(started_at, Some(first_us), first_now, start, first),
        is_step(start, Some(second_us), second_now, start_after, second),
        0 < second_us < first_us,
        started_at matches Some(s) ==> s <= first_now,
        second_now >= first_now + pause_nanos(first),
    ensures
        second is None,
        start_after == start,
{
    let s = start->Some_0;
    earlier_samples_do_not_wait(
        first_us,
        since(s, first_now),
        first,
        second_us,
        since(s, second_now),
        second,
    );
}

/// A sample without a timestamp, or with one that is not positive, waits for nothing and
/// leaves the clock as it is.
pub proof fn untimed_samples_do_not_wait(
    started_at: Option<u128>,
    pts_us: Option<i64>,
    now: u128,
    start: Option<u128>,
    delay: Option<Delay>,
)
    requires
        is_step(started_at, pts_us, now, start, delay),
        pts_us is None || pts_us->Some_0 <= 0,
    ensures
        delay is None,
        start == started_at,
{
}

/// When a sample goes out, in seconds and nanoseconds: counted from the start of the clock,
/// which is now if it was not started, a sample that is asked for in time waits up to its
/// timestamp, however far that is, and one that is late does not wait.
pub proof fn a_sample_waits_for_its_timestamp(
    started_at: Option<u128>,
    pts_us: i64,
    now: u128,
    start: Option<u128>,
    delay: Option<Delay>,
)
    requires
        is_step(started_at, Some(pts_us), now, start, delay),
        pts_us > 0,
        started_at matches Some(s) ==> s <= now,
    ensures
        ({
            let s = match started_at {
                Some(s) => s,
                None => now,
            };
            &&& start == Some(s)
            &&& delay is Some <==> now <= s + pts_us * 1000
            &&& delay matches Some(d) ==> {
                &&& d.nanos < 1_000_000_000
                &&& now + d.secs * 1_000_000_000 + d.nanos == s + pts_us * 1000
            }
        }),
{
}

/// What the operations of a clock give: a sample that is due at a positive timestamp waits up
/// to it, counted from the start, and one that is late, or has no such timestamp, does not
/// wait. The start is that of the clock, or else the time of the first sample that is due at a
/// positive timestamp.
pub proof fn a_clock_paces_samples(
    pts_us: i64,
    elapsed: u128,
    delay: Option<Delay>,
    started_at: Option<u128>,
    due: Option<i64>,
    now: u128,
    r: (Option<u128>, Option<Delay>),
)
    requires
        call_ensures(delay_until, (pts_us, elapsed), delay),
        call_ensures(paced, (started_at, due, now), r),
        started_at matches Some(s) ==> s <= now,
    ensures
        delay is None <==> elapsed > pts_us * 1000,
        delay matches Some(d) ==> d.nanos < 1_000_000_000 && elapsed + d.secs * 1_000_000_000
            + d.nanos == pts_us * 1000,
        due is None || due->Some_0 <= 0 ==> r.0 == started_at && r.1 is None,
        due is Some && due->Some_0 > 0 ==> {
            let p = due->Some_0;
            let s = match started_at {
                Some(s) => s,
                None => now,
            };
            &&& r.0 == Some(s)
            &&& r.1 is Some <==> now <= s + p * 1000
            &&& r.1 matches Some(d) ==> d.nanos < 1_000_000_000 && now + d.secs
                * 1_000_000_000 + d.nanos == s + p * 1000
        },
{
}

/// Whatever the time, a clock that runs keeps its start, one that does not is started by a
/// positive timestamp and by nothing else, and only a sample with such a timestamp waits, not
/// longer than its timestamp; the sample that starts a clock waits exactly that long.
pub proof fn a_clock_holds_whatever_the_time()
    ensures
        forall|c: MediaClock| #[trigger]
            call_ensures(MediaClock::new, (), c) ==> c.started_at() is None,
        forall|c: &mut MediaClock, pts_us: Option<i64>, delay: Option<Delay>| #[trigger]
            call_ensures(MediaClock::wait_until, (c, pts_us), delay) ==> {
                let timed = pts_us is Some && pts_us->Some_0 > 0;
                &&& final(c).origin() == c.origin()
                &&& c.started_at() is Some ==> final(c).started_at() == c.started_at()
                &&& c.started_at() is None ==> (final(c).started_at() is Some <==> timed)
                &&& !timed ==> delay is None
                &&& delay matches Some(d) ==> d.nanos < 1_000_000_000 && d.secs * 1_000_000_000
                    + d.nanos <= pts_us->Some_0 * 1000
                &&& c.started_at() is None && timed ==> (delay matches Some(d) && d.secs
                    * 1_000_000_000 + d.nanos == pts_us->Some_0 * 1000)
            },
{
}

} // verus!
