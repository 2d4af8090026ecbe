//! In-memory sliding-window rate limiter: at most `max_requests` accepted
//! requests per IP within the last `window_secs` seconds.
use std::time::Instant;
use vstd::prelude::*;
use crate::keyed::{
    distinct_keys, entries_map, lemma_entries_absent, lemma_entries_lookup, lemma_entries_update,
};
use crate::text::{str_eq, to_owned_string};

verus! {

/// `std::time::Instant`, held opaquely: the moment the limiter was created.
#[verifier::external_type_specification]
#[verifier::external_body]
pub struct ExInstant(std::time::Instant);

/// `Instant::now()`: the current reading of the monotonic clock. It depends on
/// the time, so nothing is stated of it.
#[verifier::external_body]
fn instant_now() -> Instant {
    Instant::now()
}

/// `Instant::elapsed` as a count of nanoseconds (`Duration::as_nanos`). It
/// depends on the time, so nothing is stated of it.
#[verifier::external_body]
fn nanos_since(start: &Instant) -> u128 {
    start.elapsed().as_nanos()
}

/// The window length in nanoseconds.
pub open spec fn window_nanos(window_secs: u64) -> int {
    window_secs * 1_000_000_000
}

/// The timestamps of `times` that are still inside the window ending at `now`
/// (strictly later than `now - window`), in their order.
pub open spec fn recent(times: Seq<u128>, now: u128, window: int) -> Seq<u128>
    decreases times.len(),
{
    if times.len() == 0 {
        times
    } else {
        let r = recent(times.drop_last(), now, window);
        if times.last() > now - window {
            r.push(times.last())
        } else {
            r
        }
    }
}

/// The timestamps on record for `ip` (none when it has no entry).
pub open spec fn times_of(log: Map<Seq<char>, Seq<u128>>, ip: Seq<char>) -> Seq<u128> {
    if log.dom().contains(ip) {
        log[ip]
    } else {
        Seq::empty()
    }
}

/// One check of `ip` at `now`: its old timestamps are pruned to the window; the
/// request is accepted when fewer than `max` remain, and then `now` is recorded.
/// The entry for `ip` is kept either way.
pub open spec fn check_outcome(
    log: Map<Seq<char>, Seq<u128>>,
    max: nat,
    window: int,
    ip: Seq<char>,
    now: u128,
) -> (Map<Seq<char>, Seq<u128>>, bool) {
    let kept = recent(times_of(log, ip), now, window);
    if kept.len() < max {
        (log.insert(ip, kept.push(now)), true)
    } else {
        (log.insert(ip, kept), false)
    }
}

/// The log after a clean-up at `now`: every entry pruned to the window, and the
/// IPs left with no timestamp dropped.
pub open spec fn cleanup_outcome(log: Map<Seq<char>, Seq<u128>>, window: int, now: u128) -> Map<
    Seq<char>,
    Seq<u128>,
> {
    Map::new(
        |k: Seq<char>| log.dom().contains(k) && recent(log[k], now, window).len() > 0,
        |k: Seq<char>| recent(log[k], now, window),
    )
}

/// The timestamps of one IP.
pub struct IpLog {
    ip: String,
    times: Vec<u128>,
}

/// The entries of a list of logs, as plain values.
pub closed spec fn entries_of(logs: Seq<IpLog>) -> Seq<(Seq<char>, Seq<u128>)> {
    logs.map_values(|l: IpLog| (l.ip@, l.times@))
}

/// Sliding-window request counter per IP.
pub struct RateLimiter {
    max_requests: usize,
    window_secs: u64,
    logs: Vec<IpLog>,
    start: Instant,
    last: u128,
}

impl RateLimiter {
    /// The entries as plain values.
    pub closed spec fn entries(&self) -> Seq<(Seq<char>, Seq<u128>)> {
        entries_of(self.logs@)
    }

    /// The timestamps on record, per IP (nanoseconds since the limiter was made).
    pub closed spec fn log(&self) -> Map<Seq<char>, Seq<u128>> {
        entries_map(self.entries())
    }

    /// The most requests accepted per IP within one window.
    pub closed spec fn max(&self) -> nat {
        self.max_requests as nat
    }

    /// The window length, in nanoseconds.
    pub closed spec fn window(&self) -> int {
        window_nanos(self.window_secs)
    }

    /// The latest moment the limiter read from its clock (nanoseconds since it
    /// was made; 0 before the first reading).
    pub closed spec fn last_moment(&self) -> u128 {
        self.last
    }

    /// Well-formed: each IP has one entry, and none holds more than `max`
    /// timestamps.
    #[verifier::type_invariant]
    spec fn wf(&self) -> bool {
        &&& distinct_keys(self.entries())
        &&& forall|k: Seq<char>| #[trigger]
            entries_map(self.entries()).dom().contains(k) ==> entries_map(self.entries())[k].len()
                <= self.max_requests
    }

    /// A limiter that accepts `max_requests` requests per IP every
    /// `window_secs` seconds, with nothing on record yet.
    pub fn new(max_requests: usize, window_secs: u64) -> (r: Self)
        ensures
            r.log() == Map::<Seq<char>, Seq<u128>>::empty(),
            r.max() == max_requests,
            r.window() == window_nanos(window_secs),
            r.last_moment() == 0,
    {
        let r = RateLimiter { max_requests, window_secs, logs: Vec::new(), start: instant_now(), last: 0 };
        assert(r.entries() =~= Seq::<(Seq<char>, Seq<u128>)>::empty());
        r
    }

    /// Checks a request from `ip` at `now` (nanoseconds since the limiter was
    /// made): `true` when it is allowed, `false` when the IP already made
    /// `max_requests` requests within the window. See `check_outcome`.
    pub fn check_at(&mut self, ip: &str, now: u128) -> (allowed: bool)
        ensures
            final(self).max() == old(self).max(),
            final(self).window() == old(self).window(),
            final(self).last_moment() == old(self).last_moment(),
            (final(self).log(), allowed) == check_outcome(
                old(self).log(),
                old(self).max(),
                old(self).window(),
                ip@,
                now,
            ),
    {
        proof {
            use_type_invariant(&*self);
        }
        let mut logs: Vec<IpLog> = Vec::new();
        std::mem::swap(&mut logs, &mut self.logs);
        let ghost s = entries_of(logs@);
        let w: u128 = (self.window_secs as u128) * 1_000_000_000u128;
        assert(w == self.window());
        let mut i: usize = 0;
        let mut found = false;
        while i < logs.len()
            invariant_except_break
                i <= logs.len(),
                !found,
                forall|j: int| 0 <= j < i ==> (#[trigger] s[j]).0 != ip@,
            invariant
                s == entries_of(logs@),
                s.len() == logs.len(),
                distinct_keys(s),
                forall|x: Seq<char>| #[trigger]
                    entries_map(s).dom().contains(x) ==> entries_map(s)[x].len() <= self.max(),
            ensures
                found ==> i < logs.len() && s[i as int].0 == ip@,
                !found ==> forall|j: int| 0 <= j < s.len() ==> (#[trigger] s[j]).0 != ip@,
            decreases logs.len() - i,
        {
            assert(s[i as int].0 == logs@[i as int].ip@);
            if str_eq(logs[i].ip.as_str(), ip) {
                found = true;
                break;
            }
            i += 1;
        }
        if found {
            proof {
                lemma_entries_lookup(s, i as int);
            }
            let kept = recent_times(&logs[i].times, now, w);
            assert(s[i as int].1 == logs@[i as int].times@);
            let allowed = kept.len() < self.max_requests;
            let mut times = kept;
            if allowed {
                times.push(now);
            }
            let ghost v = times@;
            let ip_copy = logs[i].ip.clone();
            logs.set(i, IpLog { ip: ip_copy, times });
            proof {
                lemma_recent_len(s[i as int].1, now, w as int);
                assert(entries_of(logs@) =~= s.update(i as int, (s[i as int].0, v)));
                lemma_entries_update(s, i as int, v);
                lemma_insert_bounded(entries_map(s), ip@, v, self.max());
            }
            self.logs = logs;
            allowed
        } else {
            proof {
                lemma_entries_absent(s, ip@);
            }
            let empty: Vec<u128> = Vec::new();
            let kept = recent_times(&empty, now, w);
            let allowed = kept.len() < self.max_requests;
            let mut times = kept;
            if allowed {
                times.push(now);
            }
            let ghost v = times@;
            let ip_owned = to_owned_string(ip);
            logs.push(IpLog { ip: ip_owned, times });
            proof {
                assert(entries_of(logs@) =~= s.push((ip@, v)));
                assert(s.push((ip@, v)).drop_last() =~= s);
                lemma_insert_bounded(entries_map(s), ip@, v, self.max());
            }
            self.logs = logs;
            allowed
        }
    }

    /// Checks a request from `ip` now: `true` when it is allowed, `false` when
    /// the IP already made `max_requests` requests within the window. The
    /// moment is read from the clock, so the outcome is that of `check_at` for
    /// some moment, never earlier than the one the limiter used last (the
    /// clock never goes back, and the limiter holds to that), which becomes
    /// the last moment.
    pub fn check(&mut self, ip: &str) -> (allowed: bool)
        ensures
            final(self).max() == old(self).max(),
            final(self).window() == old(self).window(),
            final(self).last_moment() >= old(self).last_moment(),
            exists|now: u128|
                now == final(self).last_moment() && (final(self).log(), allowed) == #[trigger] check_outcome(
                    old(self).log(),
                    old(self).max(),
                    old(self).window(),
                    ip@,
                    now,
                ),
    {
        let t = nanos_since(&self.start);
        let now = if t < self.last {
            self.last
        } else {
            t
        };
        let allowed = self.check_at(ip, now);
        proof {
            use_type_invariant(&*self);
        }
        self.last = now;
        allowed
    }

    /// Prunes every IP's timestamps to the window ending at `now` and forgets
    /// the IPs left with none. See `cleanup_outcome`.
    pub fn cleanup_at(&mut self, now: u128)
        ensures
            final(self).max() == old(self).max(),
            final(self).window() == old(self).window(),
            final(self).last_moment() == old(self).last_moment(),
            final(self).log() == cleanup_outcome(old(self).log(), old(self).window(), now),
    {
        proof {
            use_type_invariant(&*self);
        }
        let ghost s = self.entries();
        let ghost max = self.max();
        let w: u128 = (self.window_secs as u128) * 1_000_000_000u128;
        assert(w == self.window());
        let mut out: Vec<IpLog> = Vec::new();
        let mut i: usize = 0;
        while i < self.logs.len()
            invariant
                i <= self.logs.len(),
                s == self.entries(),
                s.len() == self.logs.len(),
                distinct_keys(s),
                forall|x: Seq<char>| #[trigger]
                    entries_map(s).dom().contains(x) ==> entries_map(s)[x].len() <= self.max(),
                distinct_keys(out@.map_values(|l: IpLog| (l.ip@, l.times@))),
                entries_map(out@.map_values(|l: IpLog| (l.ip@, l.times@))) == cleanup_outcome(
                    entries_map(s.subrange(0, i as int)),
                    w as int,
                    now,
                ),
            decreases self.logs.len() - i,
        {
            let ghost o = out@.map_values(|l: IpLog| (l.ip@, l.times@));
            let ghost pre = s.subrange(0, i as int);
            let ghost k = s[i as int].0;
            assert(s[i as int] == (self.logs@[i as int].ip@, self.logs@[i as int].times@));
            let kept = recent_times(&self.logs[i].times, now, w);
            proof {
                assert(s.subrange(0, i + 1) =~= pre.push(s[i as int]));
                assert(pre.push(s[i as int]).drop_last() =~= pre);
                assert forall|j: int| 0 <= j < pre.len() implies (#[trigger] pre[j]).0 != k by {
                    assert(pre[j] == s[j]);
                }
                assert(distinct_keys(pre));
                lemma_entries_absent(pre, k);
                assert forall|j: int| 0 <= j < o.len() implies (#[trigger] o[j]).0 != k by {
                    lemma_entries_lookup(o, j);
                }
            }
            if kept.len() > 0 {
                let ghost v = kept@;
                let ip_copy = self.logs[i].ip.clone();
                out.push(IpLog { ip: ip_copy, times: kept });
                proof {
                    let o2 = out@.map_values(|l: IpLog| (l.ip@, l.times@));
                    assert(o2 =~= o.push((k, v)));
                    assert(o.push((k, v)).drop_last() =~= o);
                    assert(entries_map(o2) =~= cleanup_outcome(
                        entries_map(s.subrange(0, i + 1)),
                        w as int,
                        now,
                    ));
                }
            } else {
                proof {
                    assert(entries_map(o) =~= cleanup_outcome(
                        entries_map(s.subrange(0, i + 1)),
                        w as int,
                        now,
                    ));
                }
            }
            i += 1;
        }
        proof {
            assert(s.subrange(0, s.len() as int) =~= s);
        }
        proof {
            let m = entries_map(entries_of(out@));
            assert(entries_of(out@) == out@.map_values(|l: IpLog| (l.ip@, l.times@)));
            assert forall|k: Seq<char>| #[trigger] m.dom().contains(k) implies m[k].len()
                <= self.max() by {
                lemma_recent_len(entries_map(s)[k], now, w as int);
            }
        }
        self.logs = out;
    }

    /// Prunes every IP's timestamps to the current window and forgets the IPs
    /// left with none. The moment is read from the clock, so the outcome is
    /// that of `cleanup_at` for some moment, never earlier than the one the
    /// limiter used last, which becomes the last moment.
    pub fn cleanup(&mut self)
        ensures
            final(self).max() == old(self).max(),
            final(self).window() == old(self).window(),
            final(self).last_moment() >= old(self).last_moment(),
            exists|now: u128|
                now == final(self).last_moment() && final(self).log() == #[trigger] cleanup_outcome(
                    old(self).log(),
                    old(self).window(),
                    now,
                ),
    {
        let t = nanos_since(&self.start);
        let now = if t < self.last {
            self.last
        } else {
            t
        };
        self.cleanup_at(now);
        proof {
            use_type_invariant(&*self);
        }
        self.last = now;
    }
}

/// The timestamps of `times` inside the window of `w` nanoseconds ending at `now`.
fn recent_times(times: &Vec<u128>, now: u128, w: u128) -> (r: Vec<u128>)
    ensures
        r@ == recent(times@, now, w as int),
{
    let mut r: Vec<u128> = Vec::new();
    let mut i: usize = 0;
    while i < times.len()
        invariant
            i <= times.len(),
            r@ == recent(times@.subrange(0, i as int), now, w as int),
        decreases times.len() - i,
    {
        let t = times[i];
        proof {
            let p = times@.subrange(0, i + 1);
            assert(p.drop_last() =~= times@.subrange(0, i as int));
            assert(p.last() == t);
        }
        let inside = if now >= w {
            t > now - w
        } else {
            true
        };
        if inside {
            r.push(t);
        }
        i += 1;
    }
    proof {
        assert(times@.subrange(0, times@.len() as int) =~= times@);
    }
    r
}

proof fn lemma_recent_len(times: Seq<u128>, now: u128, window: int)
    ensures
        recent(times, now, window).len() <= times.len(),
    decreases times.len(),
{
    if times.len() > 0 {
        lemma_recent_len(times.drop_last(), now, window);
    }
}

proof fn lemma_insert_bounded(m: Map<Seq<char>, Seq<u128>>, k: Seq<char>, v: Seq<u128>, max: nat)
    requires
        forall|x: Seq<char>| #[trigger] m.dom().contains(x) ==> m[x].len() <= max,
        v.len() <= max,
    ensures
        forall|x: Seq<char>| #[trigger]
            m.insert(k, v).dom().contains(x) ==> m.insert(k, v)[x].len() <= max,
{
}

// ----------------------------------------------------------------------------
// Laws
// ----------------------------------------------------------------------------

/// The log after `n` checks of `ip`, all at the moment `now`, and their outcomes.
pub open spec fn checks_at(
    log: Map<Seq<char>, Seq<u128>>,
    max: nat,
    window: int,
    ip: Seq<char>,
    now: u128,
    n: nat,
) -> (Map<Seq<char>, Seq<u128>>, Seq<bool>)
    decreases n,
{
    if n == 0 {
        (log, Seq::empty())
    } else {
        let prev = checks_at(log, max, window, ip, now, (n - 1) as nat);
        let step = check_outcome(prev.0, max, window, ip, now);
        (step.0, prev.1.push(step.1))
    }
}

proof fn lemma_recent_all_inside(times: Seq<u128>, now: u128, window: int)
    requires
        forall|j: int| 0 <= j < times.len() ==> #[trigger] times[j] > now - window,
    ensures
        recent(times, now, window) == times,
    decreases times.len(),
{
    if times.len() > 0 {
        let t = times.drop_last();
        assert forall|j: int| 0 <= j < t.len() implies #[trigger] t[j] > now - window by {
            assert(t[j] == times[j]);
        }
        lemma_recent_all_inside(t, now, window);
        assert(times.last() == times[times.len() - 1]);
        assert(t.push(times.last()) =~= times);
    }
}

proof fn lemma_recent_none_inside(times: Seq<u128>, now: u128, window: int)
    requires
        forall|j: int| 0 <= j < times.len() ==> #[trigger] times[j] <= now - window,
    ensures
        recent(times, now, window).len() == 0,
    decreases times.len(),
{
    if times.len() > 0 {
        let t = times.drop_last();
        assert forall|j: int| 0 <= j < t.len() implies #[trigger] t[j] <= now - window by {
            assert(t[j] == times[j]);
        }
        lemma_recent_none_inside(t, now, window);
        assert(times.last() == times[times.len() - 1]);
    }
}

/// A burst from an IP with nothing inside the window: of `n` requests at one
/// moment, exactly the first `max` are accepted and the rest are refused.
pub proof fn lemma_burst(
    log: Map<Seq<char>, Seq<u128>>,
    max: nat,
    window: int,
    ip: Seq<char>,
    now: u128,
    n: nat,
)
    requires
        window > 0,
        recent(times_of(log, ip), now, window).len() == 0,
    ensures
        checks_at(log, max, window, ip, now, n).1 == Seq::new(n, |i: int| i < max),
    decreases n,
{
    lemma_burst_state(log, max, window, ip, now, n);
    if n > 0 {
        lemma_burst(log, max, window, ip, now, (n - 1) as nat);
        let prev = checks_at(log, max, window, ip, now, (n - 1) as nat);
        assert(prev.1.push(check_outcome(prev.0, max, window, ip, now).1) =~= Seq::new(
            n,
            |i: int| i < max,
        ));
    }
}

/// During such a burst, the IP's record holds `now` once per accepted request.
proof fn lemma_burst_state(
    log: Map<Seq<char>, Seq<u128>>,
    max: nat,
    window: int,
    ip: Seq<char>,
    now: u128,
    n: nat,
)
    requires
        window > 0,
        recent(times_of(log, ip), now, window).len() == 0,
    ensures
        n > 0 ==> times_of(checks_at(log, max, window, ip, now, n).0, ip) == Seq::new(
            if n < max {
                n
            } else {
                max
            },
            |i: int| now,
        ),
        n > 0 ==> (checks_at(log, max, window, ip, now, n).1.last() <==> n <= max),
    decreases n,
{
    if n > 0 {
        lemma_burst_state(log, max, window, ip, now, (n - 1) as nat);
        let prev = checks_at(log, max, window, ip, now, (n - 1) as nat);
        let before = times_of(prev.0, ip);
        let kept = recent(before, now, window);
        if n == 1 {
            assert(prev.0 == log);
            assert(kept.len() == 0);
            assert(kept.push(now) =~= Seq::new(1, |i: int| now));
            assert(kept =~= Seq::new(0, |i: int| now));
        } else {
            assert forall|j: int| 0 <= j < before.len() implies #[trigger] before[j] > now
                - window by {}
            lemma_recent_all_inside(before, now, window);
            assert(kept == before);
            assert(before.push(now) =~= Seq::new(before.len() + 1, |i: int| now));
        }
    }
}

/// Once every request of an IP lies outside the window, its next request is
/// accepted (for any positive limit).
pub proof fn lemma_allowed_after_window(
    log: Map<Seq<char>, Seq<u128>>,
    max: nat,
    window: int,
    ip: Seq<char>,
    now: u128,
)
    requires
        max > 0,
        forall|j: int|
            0 <= j < times_of(log, ip).len() ==> #[trigger] times_of(log, ip)[j] <= now - window,
    ensures
        check_outcome(log, max, window, ip, now).1,
{
    lemma_recent_none_inside(times_of(log, ip), now, window);
}

/// A check of one IP leaves every other IP's record as it was.
pub proof fn lemma_check_other_ips(
    log: Map<Seq<char>, Seq<u128>>,
    max: nat,
    window: int,
    ip: Seq<char>,
    other: Seq<char>,
    now: u128,
)
    requires
        other != ip,
    ensures
        times_of(check_outcome(log, max, window, ip, now).0, other) == times_of(log, other),
{
}

/// A refused check records nothing new: the IP's record only loses the
/// timestamps that fell out of the window.
pub proof fn lemma_refused_records_nothing(
    log: Map<Seq<char>, Seq<u128>>,
    max: nat,
    window: int,
    ip: Seq<char>,
    now: u128,
)
    requires
        !check_outcome(log, max, window, ip, now).1,
    ensures
        times_of(check_outcome(log, max, window, ip, now).0, ip) == recent(
            times_of(log, ip),
            now,
            window,
        ),
{
}


/// The log after checks of `ip` at the moments `times`, in order, and their
/// outcomes.
pub open spec fn run_checks(
    log: Map<Seq<char>, Seq<u128>>,
    max: nat,
    window: int,
    ip: Seq<char>,
    times: Seq<u128>,
) -> (Map<Seq<char>, Seq<u128>>, Seq<bool>)
    decreases times.len(),
{
    if times.len() == 0 {
        (log, Seq::empty())
    } else {
        let prev = run_checks(log, max, window, ip, times.drop_last());
        let step = check_outcome(prev.0, max, window, ip, times.last());
        (step.0, prev.1.push(step.1))
    }
}

/// How many of the checks at `times` with the outcomes `ok` were accepted at
/// a moment inside the window ending at `t`.
pub open spec fn accepted_in_window(times: Seq<u128>, ok: Seq<bool>, t: u128, window: int) -> nat
    decreases times.len(),
{
    if times.len() == 0 || ok.len() == 0 {
        0
    } else {
        accepted_in_window(times.drop_last(), ok.drop_last(), t, window) + if ok.last()
            && times.last() > t - window {
            1nat
        } else {
            0nat
        }
    }
}

/// The moments never go back.
pub open spec fn nondecreasing(times: Seq<u128>) -> bool {
    forall|i: int, j: int| 0 <= i <= j < times.len() ==> times[i] <= times[j]
}

/// Pruning to a later window after an earlier one is pruning to the later one.
proof fn lemma_recent_twice(s: Seq<u128>, a: u128, b: u128, window: int)
    requires
        a <= b,
    ensures
        recent(recent(s, a, window), b, window) == recent(s, b, window),
    decreases s.len(),
{
    if s.len() > 0 {
        lemma_recent_twice(s.drop_last(), a, b, window);
        let r = recent(s.drop_last(), a, window);
        if s.last() > a - window {
            assert(r.push(s.last()).drop_last() =~= r);
            assert(r.push(s.last()).last() == s.last());
        }
    }
}

/// After checks from no record of `ip`, what is on record inside any later
/// window is exactly the accepted checks inside it.
proof fn lemma_run_record(
    log: Map<Seq<char>, Seq<u128>>,
    max: nat,
    window: int,
    ip: Seq<char>,
    times: Seq<u128>,
)
    requires
        times_of(log, ip).len() == 0,
        nondecreasing(times),
    ensures
        run_checks(log, max, window, ip, times).1.len() == times.len(),
        forall|t: u128|
            (times.len() == 0 || t >= times.last()) ==> #[trigger] recent(
                times_of(run_checks(log, max, window, ip, times).0, ip),
                t,
                window,
            ).len() == accepted_in_window(times, run_checks(log, max, window, ip, times).1, t, window),
    decreases times.len(),
{
    if times.len() == 0 {
        assert forall|t: u128| #[trigger] recent(times_of(log, ip), t, window).len() == 0 by {
            lemma_recent_len(times_of(log, ip), t, window);
        }
    } else {
        let before = times.drop_last();
        assert forall|i: int, j: int| 0 <= i <= j < before.len() implies before[i] <= before[j] by {
            assert(before[i] == times[i] && before[j] == times[j]);
        }
        lemma_run_record(log, max, window, ip, before);
        let prev = run_checks(log, max, window, ip, before);
        let now = times.last();
        let old_times = times_of(prev.0, ip);
        let kept = recent(old_times, now, window);
        let step = check_outcome(prev.0, max, window, ip, now);
        let rs = prev.1.push(step.1);
        assert(run_checks(log, max, window, ip, times) == (step.0, rs));
        assert(rs.drop_last() =~= prev.1);
        if before.len() > 0 {
            assert(before.last() == times[times.len() - 2]);
            assert(now == times[times.len() - 1]);
        }
        assert forall|t: u128| (times.len() == 0 || t >= times.last()) implies #[trigger] recent(
            times_of(step.0, ip),
            t,
            window,
        ).len() == accepted_in_window(times, rs, t, window) by {
            lemma_recent_twice(old_times, now, t, window);
            assert(recent(old_times, t, window).len() == accepted_in_window(before, prev.1, t, window));
            if step.1 {
                assert(times_of(step.0, ip) == kept.push(now));
                assert(kept.push(now).drop_last() =~= kept);
            } else {
                assert(times_of(step.0, ip) == kept);
            }
        }
    }
}

/// The limit holds over any stretch of time: from no record of an IP, and with
/// a clock that never goes back, whenever a check is accepted, the accepted
/// checks inside the window that ends at its moment (itself included) number
/// at most `max`.
pub proof fn lemma_window_limit(
    log: Map<Seq<char>, Seq<u128>>,
    max: nat,
    window: int,
    ip: Seq<char>,
    times: Seq<u128>,
)
    requires
        times_of(log, ip).len() == 0,
        nondecreasing(times),
        times.len() > 0,
        run_checks(log, max, window, ip, times).1.last(),
    ensures
        accepted_in_window(times, run_checks(log, max, window, ip, times).1, times.last(), window)
            <= max,
{
    let before = times.drop_last();
    assert forall|i: int, j: int| 0 <= i <= j < before.len() implies before[i] <= before[j] by {
        assert(before[i] == times[i] && before[j] == times[j]);
    }
    lemma_run_record(log, max, window, ip, before);
    let prev = run_checks(log, max, window, ip, before);
    let now = times.last();
    let step = check_outcome(prev.0, max, window, ip, now);
    let rs = prev.1.push(step.1);
    assert(run_checks(log, max, window, ip, times) == (step.0, rs));
    assert(rs.drop_last() =~= prev.1);
    if before.len() > 0 {
        assert(before.last() == times[times.len() - 2]);
        assert(now == times[times.len() - 1]);
    }
    assert(recent(times_of(prev.0, ip), now, window).len() == accepted_in_window(
        before,
        prev.1,
        now,
        window,
    ));
}


/// The log after the checks `calls` (each an IP and a moment), in order, and
/// their outcomes.
pub open spec fn run_calls(
    log: Map<Seq<char>, Seq<u128>>,
    max: nat,
    window: int,
    calls: Seq<(Seq<char>, u128)>,
) -> (Map<Seq<char>, Seq<u128>>, Seq<bool>)
    decreases calls.len(),
{
    if calls.len() == 0 {
        (log, Seq::empty())
    } else {
        let prev = run_calls(log, max, window, calls.drop_last());
        let step = check_outcome(prev.0, max, window, calls.last().0, calls.last().1);
        (step.0, prev.1.push(step.1))
    }
}

/// How many of the checks `calls`, with the outcomes `ok`, were accepted checks
/// of `ip` at a moment inside the window ending at `t`.
pub open spec fn accepted_of(
    calls: Seq<(Seq<char>, u128)>,
    ok: Seq<bool>,
    ip: Seq<char>,
    t: u128,
    window: int,
) -> nat
    decreases calls.len(),
{
    if calls.len() == 0 || ok.len() == 0 {
        0
    } else {
        accepted_of(calls.drop_last(), ok.drop_last(), ip, t, window) + if ok.last() && calls.last().0
            == ip && calls.last().1 > t - window {
            1nat
        } else {
            0nat
        }
    }
}

/// The moments of the checks never go back.
pub open spec fn calls_in_time(calls: Seq<(Seq<char>, u128)>) -> bool {
    forall|i: int, j: int| 0 <= i <= j < calls.len() ==> calls[i].1 <= calls[j].1
}

/// From an empty record, what is on record for any IP inside any later window
/// is exactly the accepted checks of that IP inside it.
proof fn lemma_calls_record(max: nat, window: int, calls: Seq<(Seq<char>, u128)>)
    requires
        calls_in_time(calls),
    ensures
        run_calls(Map::empty(), max, window, calls).1.len() == calls.len(),
        forall|ip: Seq<char>, t: u128|
            (calls.len() == 0 || t >= calls.last().1) ==> #[trigger] recent(
                times_of(run_calls(Map::empty(), max, window, calls).0, ip),
                t,
                window,
            ).len() == accepted_of(calls, run_calls(Map::empty(), max, window, calls).1, ip, t, window),
    decreases calls.len(),
{
    if calls.len() == 0 {
        assert forall|ip: Seq<char>, t: u128|
            #[trigger] recent(times_of(Map::<Seq<char>, Seq<u128>>::empty(), ip), t, window).len()
                == 0 by {
            lemma_recent_len(times_of(Map::<Seq<char>, Seq<u128>>::empty(), ip), t, window);
        }
    } else {
        let before = calls.drop_last();
        assert forall|i: int, j: int| 0 <= i <= j < before.len() implies before[i].1 <= before[j].1 by {
            assert(before[i] == calls[i] && before[j] == calls[j]);
        }
        lemma_calls_record(max, window, before);
        let prev = run_calls(Map::empty(), max, window, before);
        let (ip0, now) = calls.last();
        let step = check_outcome(prev.0, max, window, ip0, now);
        let rs = prev.1.push(step.1);
        assert(rs.drop_last() =~= prev.1);
        if before.len() > 0 {
            assert(before.last() == calls[calls.len() - 2]);
            assert(calls.last() == calls[calls.len() - 1]);
        }
        assert forall|ip: Seq<char>, t: u128| (calls.len() == 0 || t >= calls.last().1) implies #[trigger] recent(
            times_of(step.0, ip),
            t,
            window,
        ).len() == accepted_of(calls, rs, ip, t, window) by {
            let old_times = times_of(prev.0, ip);
            assert(recent(old_times, t, window).len() == accepted_of(before, prev.1, ip, t, window));
            if ip == ip0 {
                let kept = recent(old_times, now, window);
                lemma_recent_twice(old_times, now, t, window);
                if step.1 {
                    assert(times_of(step.0, ip) == kept.push(now));
                    assert(kept.push(now).drop_last() =~= kept);
                } else {
                    assert(times_of(step.0, ip) == kept);
                }
            } else {
                assert(times_of(step.0, ip) == old_times);
            }
        }
    }
}

/// The limiter over any run of checks from a new limiter, with a clock that
/// never goes back: each check is accepted exactly when fewer than `max`
/// earlier checks of the same IP were accepted at a moment inside the window
/// that ends at this check's moment; checks of other IPs do not count.
pub proof fn lemma_check_sequence(max: nat, window: int, calls: Seq<(Seq<char>, u128)>)
    requires
        calls_in_time(calls),
        calls.len() > 0,
    ensures
        run_calls(Map::empty(), max, window, calls).1.last() == (accepted_of(
            calls.drop_last(),
            run_calls(Map::empty(), max, window, calls.drop_last()).1,
            calls.last().0,
            calls.last().1,
            window,
        ) < max),
{
    let before = calls.drop_last();
    assert forall|i: int, j: int| 0 <= i <= j < before.len() implies before[i].1 <= before[j].1 by {
        assert(before[i] == calls[i] && before[j] == calls[j]);
    }
    lemma_calls_record(max, window, before);
    if before.len() > 0 {
        assert(before.last() == calls[calls.len() - 2]);
        assert(calls.last() == calls[calls.len() - 1]);
    }
    let prev = run_calls(Map::empty(), max, window, before);
    assert(recent(times_of(prev.0, calls.last().0), calls.last().1, window).len() == accepted_of(
        before,
        prev.1,
        calls.last().0,
        calls.last().1,
        window,
    ));
}

} // verus!
