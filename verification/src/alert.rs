//! Alert throttling: at most one alert per cooldown window.

use vstd::prelude::*;

verus! {

#[verifier::external_type_specification]
#[verifier::external_body]
pub struct ExInstant(std::time::Instant);

/// Five minutes, in nanoseconds: the minimum distance between two alerts.
pub const ALERT_COOLDOWN_NANOS: u128 = 300_000_000_000;

/// Remembers when the last alert went out, so that alerts are not repeated
/// within the cooldown window.
pub struct AlertManager {
    /// The moment the manager was created; every time below is measured from it.
    pub started: std::time::Instant,
    /// When the last alert was dispatched, in nanoseconds since `started`.
    pub last_alert_time: Option<u128>,
    /// Minimum time between two alerts, in nanoseconds.
    pub cooldown: u128,
}

/// Time elapsed from `last` to `now`; a clock reading earlier than `last`
/// counts as no time at all.
pub open spec fn elapsed_since(last: u128, now: u128) -> int {
    if now >= last { now - last } else { 0 }
}

/// Whether an alert may go out at time `now`, given the time of the last one.
pub open spec fn alert_allowed(last: Option<u128>, cooldown: u128, now: u128) -> bool {
    match last {
        None => true,
        Some(l) => elapsed_since(l, now) >= cooldown,
    }
}

/// Reads the monotonic clock through `std::time::Instant::now`.
/// Nothing is promised about the instant that comes back.
#[verifier::external_body]
fn read_clock() -> std::time::Instant {
    std::time::Instant::now()
}

/// Calls `Instant::elapsed` on `origin`. The result depends on the clock:
/// nothing is promised.
#[verifier::external_body]
fn elapsed_since_start(origin: &std::time::Instant) -> core::time::Duration {
    origin.elapsed()
}

/// Calls `Duration::as_nanos`. Nothing is promised: the duration is opaque
/// here, so there is nothing to relate the number to.
#[verifier::external_body]
fn whole_nanos(d: &core::time::Duration) -> u128 {
    d.as_nanos()
}

impl AlertManager {
    /// A manager that has sent no alert yet, with a five minute cooldown.
    pub fn new() -> (m: AlertManager)
        ensures
            m.last_alert_time is None,
            m.cooldown == ALERT_COOLDOWN_NANOS,
    {
        AlertManager { started: read_clock(), last_alert_time: None, cooldown: ALERT_COOLDOWN_NANOS }
    }

    /// Decides whether an alert may go out at time `now` (nanoseconds since
    /// `started`), and records `now` when it may.
    pub fn should_alert_at(&mut self, now: u128) -> (fired: bool)
        ensures
            fired == alert_allowed(old(self).last_alert_time, old(self).cooldown, now),
            fired ==> final(self).last_alert_time == Some(now),
            !fired ==> final(self).last_alert_time == old(self).last_alert_time,
            final(self).cooldown == old(self).cooldown,
            final(self).started == old(self).started,
    {
        if let Some(last) = self.last_alert_time {
            let elapsed: u128 = if now >= last { now - last } else { 0 };
            if elapsed < self.cooldown {
                return false;
            }
        }
        self.last_alert_time = Some(now);
        true
    }

    /// Reads the clock and decides whether an alert may go out now; records
    /// the time when it may.
    pub fn should_alert(&mut self) -> (fired: bool)
        ensures
            exists|now: u128|
                #![trigger alert_allowed(old(self).last_alert_time, old(self).cooldown, now)]
                fired == alert_allowed(old(self).last_alert_time, old(self).cooldown, now)
                && final(self).last_alert_time == (if fired {
                    Some(now)
                } else {
                    old(self).last_alert_time
                }),
            old(self).last_alert_time is None ==> fired,
            final(self).cooldown == old(self).cooldown,
            final(self).started == old(self).started,
    {
        let elapsed = elapsed_since_start(&self.started);
        let now = whole_nanos(&elapsed);
        let fired = self.should_alert_at(now);
        assert(fired == alert_allowed(old(self).last_alert_time, old(self).cooldown, now));
        fired
    }
}

/// Law: a manager that has not alerted yet lets the first alert through,
/// whenever it comes.
pub proof fn law_first_alert_goes_out(cooldown: u128, now: u128)
    ensures
        alert_allowed(None, cooldown, now),
{
}

/// Law: after an alert at time `t`, every attempt before `t + cooldown` is
/// refused (and, by `should_alert_at`, leaves the manager as it was).
pub proof fn law_quiet_during_cooldown(t: u128, cooldown: u128, now: u128)
    requires
        cooldown > 0,
        now < t + cooldown,
    ensures
        !alert_allowed(Some(t), cooldown, now),
{
}

/// Law: after an alert at time `t`, an attempt at or after `t + cooldown`
/// goes out.
pub proof fn law_alert_after_cooldown(t: u128, cooldown: u128, now: u128)
    requires
        now >= t + cooldown,
    ensures
        alert_allowed(Some(t), cooldown, now),
{
}

/// Law: with a positive cooldown, two alerts that both go out are at least a
/// cooldown apart, even if the clock were to read an earlier time.
pub proof fn law_alerts_spaced(t: u128, cooldown: u128, now: u128)
    requires
        cooldown > 0,
        alert_allowed(Some(t), cooldown, now),
    ensures
        now >= t + cooldown,
{
}

/// The time of the last alert after the first `j` attempts of a run, made
/// at the times `times`, starting from `last`.
pub open spec fn last_after_run(last: Option<u128>, cooldown: u128, times: Seq<u128>, j: int) -> Option<
    u128,
>
    decreases j,
{
    if j <= 0 {
        last
    } else {
        let before = last_after_run(last, cooldown, times, j - 1);
        if alert_allowed(before, cooldown, times[j - 1]) {
            Some(times[j - 1])
        } else {
            before
        }
    }
}

/// Whether the attempt at index `j` of the run goes out.
pub open spec fn fires_in_run(last: Option<u128>, cooldown: u128, times: Seq<u128>, j: int) -> bool {
    alert_allowed(last_after_run(last, cooldown, times, j), cooldown, times[j])
}

/// The attempt times never go backwards.
pub open spec fn nondecreasing(times: Seq<u128>) -> bool {
    forall|i: int, j: int| 0 <= i <= j < times.len() ==> times[i] <= times[j]
}

proof fn lemma_last_after_fire(last: Option<u128>, cooldown: u128, times: Seq<u128>, i: int, j: int)
    requires
        0 <= i < j <= times.len(),
        fires_in_run(last, cooldown, times, i),
    ensures
        exists|k: int|
            i <= k < j && last_after_run(last, cooldown, times, j) == Some(#[trigger] times[k]),
    decreases j,
{
    if j == i + 1 {
        assert(last_after_run(last, cooldown, times, j) == Some(times[i]));
    } else {
        lemma_last_after_fire(last, cooldown, times, i, j - 1);
        if fires_in_run(last, cooldown, times, j - 1) {
            assert(last_after_run(last, cooldown, times, j) == Some(times[j - 1]));
        }
    }
}

/// Law: over any run of attempts at times that never go backwards, two
/// alerts that both go out are at least a cooldown apart. A run of calls of
/// `should_alert_at` is such a run: each call goes out exactly when
/// `alert_allowed` holds and records its time only then.
pub proof fn law_alerts_spaced_in_run(
    last: Option<u128>,
    cooldown: u128,
    times: Seq<u128>,
    i: int,
    j: int,
)
    requires
        nondecreasing(times),
        0 <= i < j < times.len(),
        fires_in_run(last, cooldown, times, i),
        fires_in_run(last, cooldown, times, j),
    ensures
        times[j] >= times[i] + cooldown,
{
    lemma_last_after_fire(last, cooldown, times, i, j);
    let k = choose|k: int|
        i <= k < j && last_after_run(last, cooldown, times, j) == Some(#[trigger] times[k]);
    assert(times[i] <= times[k] <= times[j]);
}

} // verus!
