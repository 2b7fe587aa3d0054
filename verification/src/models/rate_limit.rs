//! Login rate limiting.
//!
//! `RateLimiter` tracks consecutive failed login attempts per email. After
//! `max_failures` failures the email is locked for `lockout_minutes`. A
//! successful login (`reset`) or the expiry of the lockout resets the counter.
//! Emails are compared after lowercasing.
//!
//! `IpRateLimiter` admits at most `max_per_minute` requests per client IP in
//! each one-minute window; the window starts at the first request after the
//! previous one ended.

use vstd::hash_map::StringHashMap;
use vstd::prelude::*;

use crate::utils::chars::{spec_to_lowercase, to_lowercase};
use crate::utils::clock::{representable, MAX_TIMESTAMP_MS};

verus! {

/// A single email's failure record.
#[derive(Debug, Clone, Copy, PartialEq, Eq, Structural)]
pub struct RateLimitEntry {
    pub fail_count: u32,
    pub first_fail_at: i64,
    pub locked_until: Option<i64>,
}

/// Outcome of a rate-limit check.
#[derive(Debug, Clone, Copy, PartialEq, Eq, Structural)]
pub enum RateLimitStatus {
    /// The email may attempt a login.
    Allowed,
    /// The email is locked until the given time (milliseconds).
    Locked(i64),
}

/// The failure records, keyed by lowercased email.
pub type FailureTable = Map<Seq<char>, RateLimitEntry>;

/// What `check` answers for `key` at `now`, and the table afterwards: a
/// lockout that has run out is dropped.
pub open spec fn check_step(t: FailureTable, key: Seq<char>, now: int) -> (RateLimitStatus, FailureTable) {
    if t.contains_key(key) && t[key].locked_until is Some {
        let until = t[key].locked_until.unwrap();
        if now < until {
            (RateLimitStatus::Locked(until), t)
        } else {
            (RateLimitStatus::Allowed, t.remove(key))
        }
    } else {
        (RateLimitStatus::Allowed, t)
    }
}

/// The record `record_fail` starts from: the existing one, or a fresh one.
pub open spec fn current_entry(t: FailureTable, key: Seq<char>, now: int) -> RateLimitEntry {
    if t.contains_key(key) {
        t[key]
    } else {
        RateLimitEntry { fail_count: 0, first_fail_at: now as i64, locked_until: None }
    }
}

/// Whether the record is locked at `now`.
pub open spec fn still_locked(e: RateLimitEntry, now: int) -> bool {
    e.locked_until matches Some(until) && now < until
}

/// The record after one more failure, when it is not locked at `now`; an
/// expired lockout starts a new count.
pub open spec fn failed_entry(e: RateLimitEntry, now: int, max_failures: u32, lockout_ms: int) -> RateLimitEntry {
    let base = if e.locked_until is Some {
        RateLimitEntry { fail_count: 0, first_fail_at: now as i64, locked_until: None }
    } else {
        e
    };
    let count = base.fail_count + 1;
    RateLimitEntry {
        fail_count: count as u32,
        first_fail_at: base.first_fail_at,
        locked_until: if count >= max_failures {
            Some((now + lockout_ms) as i64)
        } else {
            None
        },
    }
}

/// The table after `record_fail` for `key` at `now`.
pub open spec fn record_fail_step(
    t: FailureTable,
    key: Seq<char>,
    now: int,
    max_failures: u32,
    lockout_ms: int,
) -> FailureTable {
    let e = current_entry(t, key, now);
    if still_locked(e, now) {
        t
    } else {
        t.insert(key, failed_entry(e, now, max_failures, lockout_ms))
    }
}

/// Whether `record_fail` for `key` at `now` sets a lockout (it adds the
/// lockout duration to `now` exactly then).
pub open spec fn record_fail_locks(t: FailureTable, key: Seq<char>, now: int, max_failures: u32) -> bool {
    let e = current_entry(t, key, now);
    !still_locked(e, now) && failed_entry(e, now, max_failures, 0).locked_until is Some
}

/// In-memory rate limiter keyed by lowercased email.
pub struct RateLimiter {
    entries: StringHashMap<RateLimitEntry>,
    max_failures: u32,
    lockout_ms: i64,
}

impl RateLimiter {
    /// The failure records.
    pub closed spec fn table(&self) -> FailureTable {
        self.entries@
    }

    /// Failures that lock an email.
    pub closed spec fn max_failures(&self) -> u32 {
        self.max_failures
    }

    /// Lockout duration in milliseconds.
    pub closed spec fn lockout_ms(&self) -> int {
        self.lockout_ms as int
    }

    /// Internal consistency: an unlocked record has fewer failures than the
    /// threshold, and the lockout is a whole number of minutes below
    /// `u32::MAX` minutes.
    pub closed spec fn wf(&self) -> bool {
        &&& 0 <= self.lockout_ms <= 0xffff_ffff * 60_000
        &&& forall|k: Seq<char>|
            #[trigger] self.entries@.contains_key(k) && self.entries@[k].locked_until is None
                ==> self.entries@[k].fail_count < self.max_failures
    }

    /// What well-formedness guarantees: an unlocked record has fewer
    /// failures than the threshold, and the lockout is between zero and
    /// `u32::MAX` minutes.
    pub proof fn lemma_wf(&self)
        requires
            self.wf(),
        ensures
            0 <= self.lockout_ms() <= 0xffff_ffff * 60_000,
            forall|k: Seq<char>|
                #[trigger] self.table().contains_key(k) && self.table()[k].locked_until is None
                    ==> self.table()[k].fail_count < self.max_failures(),
    {
    }

    pub fn new(max_failures: u32, lockout_minutes: u32) -> (r: Self)
        ensures
            r.wf(),
            r.table() == Map::<Seq<char>, RateLimitEntry>::empty(),
            r.max_failures() == max_failures,
            r.lockout_ms() == lockout_minutes as int * 60_000,
    {
        RateLimiter {
            entries: StringHashMap::new(),
            max_failures,
            lockout_ms: lockout_minutes as i64 * 60_000,
        }
    }

    /// Whether a failure for the email at `now` would set a lockout: the
    /// email is not locked at `now`, and one more failure (counting afresh
    /// after an expired lockout) reaches the threshold.
    pub fn would_lock(&self, email: &str, now: i64) -> (r: bool)
        requires
            self.wf(),
        ensures
            r == record_fail_locks(self.table(), spec_to_lowercase(email@), now as int, self.max_failures()),
    {
        let key = to_lowercase(email);
        let entry = match self.entries.get(key.as_str()) {
            Some(e) => *e,
            None => RateLimitEntry { fail_count: 0, first_fail_at: now, locked_until: None },
        };
        let count: u64 = match entry.locked_until {
            Some(until) => {
                if now < until {
                    return false;
                }
                1
            },
            None => entry.fail_count as u64 + 1,
        };
        count >= self.max_failures as u64
    }

    /// The lockout duration in milliseconds.
    pub fn lockout(&self) -> (r: i64)
        requires
            self.wf(),
        ensures
            r == self.lockout_ms(),
            0 <= r <= 0xffff_ffff * 60_000,
    {
        self.lockout_ms
    }

    /// Check whether the email is currently locked. An expired lockout is
    /// dropped.
    pub fn check(&mut self, email: &str, now: i64) -> (r: RateLimitStatus)
        requires
            old(self).wf(),
        ensures
            final(self).wf(),
            (r, final(self).table()) == check_step(old(self).table(), spec_to_lowercase(email@), now as int),
            final(self).max_failures() == old(self).max_failures(),
            final(self).lockout_ms() == old(self).lockout_ms(),
    {
        let key = to_lowercase(email);
        let found = match self.entries.get(key.as_str()) {
            Some(e) => Some(*e),
            None => None,
        };
        if let Some(entry) = found {
            if let Some(until) = entry.locked_until {
                if now < until {
                    return RateLimitStatus::Locked(until);
                }
                self.entries.remove(key.as_str());
            }
        }
        RateLimitStatus::Allowed
    }

    /// Record a failed attempt. If the threshold is reached, set the lockout.
    /// A locked email is left as it is.
    pub fn record_fail(&mut self, email: &str, now: i64)
        requires
            old(self).wf(),
            representable(now as int),
            record_fail_locks(old(self).table(), spec_to_lowercase(email@), now as int, old(self).max_failures())
                ==> now + old(self).lockout_ms() <= MAX_TIMESTAMP_MS,
        ensures
            final(self).wf(),
            final(self).table() == record_fail_step(
                old(self).table(),
                spec_to_lowercase(email@),
                now as int,
                old(self).max_failures(),
                old(self).lockout_ms(),
            ),
            final(self).max_failures() == old(self).max_failures(),
            final(self).lockout_ms() == old(self).lockout_ms(),
    {
        let key = to_lowercase(email);
        let mut entry = match self.entries.get(key.as_str()) {
            Some(e) => *e,
            None => RateLimitEntry { fail_count: 0, first_fail_at: now, locked_until: None },
        };
        if let Some(until) = entry.locked_until {
            if now >= until {
                entry = RateLimitEntry { fail_count: 0, first_fail_at: now, locked_until: None };
            } else {
                return;
            }
        }
        entry.fail_count = entry.fail_count + 1;
        if entry.fail_count >= self.max_failures {
            entry.locked_until = Some(now + self.lockout_ms);
        }
        self.entries.insert(key, entry);
    }

    /// Reset the counter for an email (called on successful login).
    pub fn reset(&mut self, email: &str)
        requires
            old(self).wf(),
        ensures
            final(self).wf(),
            final(self).table() == old(self).table().remove(spec_to_lowercase(email@)),
            final(self).max_failures() == old(self).max_failures(),
            final(self).lockout_ms() == old(self).lockout_ms(),
    {
        let key = to_lowercase(email);
        self.entries.remove(key.as_str());
    }
}

/// The table after `k` failures for `key` at the same time `now`.
pub open spec fn repeated_fails(
    t: FailureTable,
    key: Seq<char>,
    now: int,
    k: nat,
    max_failures: u32,
    lockout_ms: int,
) -> FailureTable
    decreases k,
{
    if k == 0 {
        t
    } else {
        record_fail_step(repeated_fails(t, key, now, (k - 1) as nat, max_failures, lockout_ms), key, now, max_failures, lockout_ms)
    }
}

proof fn lemma_repeated_fails_entry(
    t: FailureTable,
    key: Seq<char>,
    now: int,
    k: nat,
    max_failures: u32,
    lockout_ms: int,
)
    requires
        !t.contains_key(key),
        max_failures >= 1,
        lockout_ms > 0,
        representable(now),
        now + lockout_ms <= MAX_TIMESTAMP_MS,
    ensures
        k == 0 ==> !repeated_fails(t, key, now, k, max_failures, lockout_ms).contains_key(key),
        0 < k < max_failures ==> repeated_fails(t, key, now, k, max_failures, lockout_ms).contains_key(key)
            && repeated_fails(t, key, now, k, max_failures, lockout_ms)[key] == (RateLimitEntry {
                fail_count: k as u32,
                first_fail_at: now as i64,
                locked_until: None,
            }),
        k >= max_failures ==> repeated_fails(t, key, now, k, max_failures, lockout_ms).contains_key(key)
            && repeated_fails(t, key, now, k, max_failures, lockout_ms)[key] == (RateLimitEntry {
                fail_count: max_failures,
                first_fail_at: now as i64,
                locked_until: Some((now + lockout_ms) as i64),
            }),
    decreases k,
{
    if k > 0 {
        lemma_repeated_fails_entry(t, key, now, (k - 1) as nat, max_failures, lockout_ms);
    }
}

/// From no record, fewer than `max_failures` failures at one time leave an
/// unlocked record counting them, and no other key's record changes.
pub proof fn lemma_fails_below_threshold(
    t: FailureTable,
    key: Seq<char>,
    now: int,
    k: nat,
    max_failures: u32,
    lockout_ms: int,
)
    requires
        !t.contains_key(key),
        k < max_failures,
    ensures
        k == 0 ==> !repeated_fails(t, key, now, k, max_failures, lockout_ms).contains_key(key),
        k > 0 ==> repeated_fails(t, key, now, k, max_failures, lockout_ms).contains_key(key)
            && repeated_fails(t, key, now, k, max_failures, lockout_ms)[key] == (RateLimitEntry {
                fail_count: k as u32,
                first_fail_at: now as i64,
                locked_until: None,
            }),
        forall|other: Seq<char>|
            other != key ==> #[trigger] repeated_fails(t, key, now, k, max_failures, lockout_ms).contains_key(other)
                == t.contains_key(other),
        forall|other: Seq<char>|
            other != key && t.contains_key(other) ==> #[trigger] repeated_fails(t, key, now, k, max_failures, lockout_ms)[other]
                == t[other],
    decreases k,
{
    if k > 0 {
        lemma_fails_below_threshold(t, key, now, (k - 1) as nat, max_failures, lockout_ms);
    }
}

/// After a reset the email is allowed at any time, and fewer than
/// `max_failures` new failures at one time keep it allowed; the other
/// emails' records are unchanged.
pub proof fn law_reset_then_fewer_fails_allowed(
    t: FailureTable,
    key: Seq<char>,
    now: int,
    later: int,
    k: nat,
    max_failures: u32,
    lockout_ms: int,
)
    requires
        k < max_failures,
    ensures
        check_step(t.remove(key), key, later).0 == RateLimitStatus::Allowed,
        check_step(repeated_fails(t.remove(key), key, now, k, max_failures, lockout_ms), key, now).0
            == RateLimitStatus::Allowed,
        forall|other: Seq<char>|
            other != key ==> #[trigger] repeated_fails(t.remove(key), key, now, k, max_failures, lockout_ms).contains_key(other)
                == t.contains_key(other),
        forall|other: Seq<char>|
            other != key && t.contains_key(other) ==> #[trigger] repeated_fails(t.remove(key), key, now, k, max_failures, lockout_ms)[other]
                == t[other],
{
    lemma_fails_below_threshold(t.remove(key), key, now, k, max_failures, lockout_ms);
}

/// The table after failures for `key` at the given times, in order.
pub open spec fn fails_at(
    t: FailureTable,
    key: Seq<char>,
    times: Seq<int>,
    max_failures: u32,
    lockout_ms: int,
) -> FailureTable
    decreases times.len(),
{
    if times.len() == 0 {
        t
    } else {
        record_fail_step(
            fails_at(t, key, times.drop_last(), max_failures, lockout_ms),
            key,
            times.last(),
            max_failures,
            lockout_ms,
        )
    }
}

/// An unlocked record counts one more failure whatever the time since its
/// first failure: the count grows by one, the first failure's time stays,
/// and the lock is set (until `now` plus the lockout) exactly when the count
/// reaches the threshold.
pub proof fn law_failure_counts_without_window(
    t: FailureTable,
    key: Seq<char>,
    now: int,
    max_failures: u32,
    lockout_ms: int,
)
    requires
        t.contains_key(key),
        t[key].locked_until is None,
        t[key].fail_count < max_failures,
    ensures
        record_fail_step(t, key, now, max_failures, lockout_ms).contains_key(key),
        record_fail_step(t, key, now, max_failures, lockout_ms)[key].fail_count == t[key].fail_count + 1,
        record_fail_step(t, key, now, max_failures, lockout_ms)[key].first_fail_at == t[key].first_fail_at,
        record_fail_step(t, key, now, max_failures, lockout_ms)[key].locked_until == (if t[key].fail_count + 1
            >= max_failures {
            Some((now + lockout_ms) as i64)
        } else {
            None
        }),
{
}

proof fn lemma_fails_at(t: FailureTable, key: Seq<char>, times: Seq<int>, max_failures: u32, lockout_ms: int)
    requires
        !t.contains_key(key),
        times.len() <= max_failures,
    ensures
        times.len() == 0 ==> !fails_at(t, key, times, max_failures, lockout_ms).contains_key(key),
        0 < times.len() < max_failures ==> fails_at(t, key, times, max_failures, lockout_ms).contains_key(key)
            && fails_at(t, key, times, max_failures, lockout_ms)[key] == (RateLimitEntry {
                fail_count: times.len() as u32,
                first_fail_at: times[0] as i64,
                locked_until: None,
            }),
        0 < times.len() == max_failures ==> fails_at(t, key, times, max_failures, lockout_ms).contains_key(key)
            && fails_at(t, key, times, max_failures, lockout_ms)[key].locked_until == Some(
            (times.last() + lockout_ms) as i64,
        ),
    decreases times.len(),
{
    if times.len() > 0 {
        let prev = times.drop_last();
        lemma_fails_at(t, key, prev, max_failures, lockout_ms);
        if prev.len() > 0 {
            assert(prev[0] == times[0]);
        }
    }
}

/// Consecutive failures lock however far apart they come: from no record,
/// fewer than `max_failures` failures at any times leave the email allowed,
/// and `max_failures` failures lock it until the last failure's time plus
/// the lockout.
pub proof fn law_consecutive_failures_lock(
    t: FailureTable,
    key: Seq<char>,
    times: Seq<int>,
    max_failures: u32,
    lockout_ms: int,
    later: int,
)
    requires
        !t.contains_key(key),
        times.len() <= max_failures,
    ensures
        times.len() < max_failures ==> check_step(fails_at(t, key, times, max_failures, lockout_ms), key, later).0
            == RateLimitStatus::Allowed,
        0 < times.len() == max_failures && later < ((times.last() + lockout_ms) as i64) ==> check_step(
            fails_at(t, key, times, max_failures, lockout_ms),
            key,
            later,
        ).0 == RateLimitStatus::Locked((times.last() + lockout_ms) as i64),
{
    lemma_fails_at(t, key, times, max_failures, lockout_ms);
}

/// Lockout threshold: starting from an email with no record, fewer than
/// `max_failures` failures at one time leave it allowed, and `max_failures`
/// or more lock it until `now` plus the lockout duration (for a threshold of
/// at least one and a positive lockout).
pub proof fn law_lockout_after_threshold(
    t: FailureTable,
    key: Seq<char>,
    now: int,
    k: nat,
    max_failures: u32,
    lockout_ms: int,
)
    requires
        !t.contains_key(key),
        max_failures >= 1,
        lockout_ms > 0,
        representable(now),
        now + lockout_ms <= MAX_TIMESTAMP_MS,
    ensures
        k < max_failures ==> check_step(repeated_fails(t, key, now, k, max_failures, lockout_ms), key, now).0
            == RateLimitStatus::Allowed,
        k >= max_failures ==> check_step(repeated_fails(t, key, now, k, max_failures, lockout_ms), key, now).0
            == RateLimitStatus::Locked((now + lockout_ms) as i64),
{
    lemma_repeated_fails_entry(t, key, now, k, max_failures, lockout_ms);
}

/// A lockout holds exactly until its end: `check` answers `Locked(u)`
/// exactly when the record is locked until `u` and `now` is before `u`, and
/// a locked answer leaves the record as it is.
pub proof fn law_locked_until_end(t: FailureTable, key: Seq<char>, now: int, u: i64)
    ensures
        check_step(t, key, now).0 == RateLimitStatus::Locked(u) <==> (t.contains_key(key) && t[key].locked_until
            == Some(u) && now < u),
        check_step(t, key, now).0 is Locked ==> check_step(t, key, now).1 == t,
{
}

/// After a reset, the email is allowed, whatever its record was.
pub proof fn law_reset_allows(t: FailureTable, key: Seq<char>, now: int)
    ensures
        check_step(t.remove(key), key, now).0 == RateLimitStatus::Allowed,
{
}

/// A lockout expires: once `now` reaches the lock's end, the email is allowed
/// and its record is dropped.
pub proof fn law_lockout_expires(t: FailureTable, key: Seq<char>, now: int)
    requires
        t.contains_key(key),
        t[key].locked_until matches Some(until) && until <= now,
    ensures
        check_step(t, key, now) == (RateLimitStatus::Allowed, t.remove(key)),
{
}

/// Records are per email: a failure for one key leaves every other key's
/// record as it was.
pub proof fn law_fail_is_per_email(
    t: FailureTable,
    key: Seq<char>,
    other: Seq<char>,
    now: int,
    max_failures: u32,
    lockout_ms: int,
)
    requires
        key != other,
    ensures
        record_fail_step(t, key, now, max_failures, lockout_ms).contains_key(other) == t.contains_key(other),
        t.contains_key(other) ==> record_fail_step(t, key, now, max_failures, lockout_ms)[other] == t[other],
{
}

/// Emails that lowercase alike share one record.
pub proof fn law_case_insensitive(t: FailureTable, e1: Seq<char>, e2: Seq<char>, now: int)
    requires
        spec_to_lowercase(e1) == spec_to_lowercase(e2),
    ensures
        check_step(t, spec_to_lowercase(e1), now) == check_step(t, spec_to_lowercase(e2), now),
{
}

/// Length of an IP rate-limit window in milliseconds.
pub const IP_WINDOW_MS: i64 = 60_000;

/// One IP's current window: when it started and how many requests it admitted.
#[derive(Debug, Clone, Copy, PartialEq, Eq, Structural)]
pub struct IpWindow {
    pub window_start: i64,
    pub count: u32,
}

/// The windows, keyed by IP.
pub type WindowTable = Map<Seq<char>, IpWindow>;

/// Whether `w` still covers `now`.
pub open spec fn window_open(w: IpWindow, now: int) -> bool {
    now < w.window_start + IP_WINDOW_MS
}

/// The window a request at `now` counts in: the open one, or a new empty one.
pub open spec fn window_at(t: WindowTable, ip: Seq<char>, now: int) -> IpWindow {
    if t.contains_key(ip) && window_open(t[ip], now) {
        t[ip]
    } else {
        IpWindow { window_start: now as i64, count: 0 }
    }
}

/// Whether a request from `ip` at `now` is admitted, and the table afterwards:
/// it is admitted while its window has admitted fewer than `max`, and then
/// counts in that window; a refused request changes nothing.
pub open spec fn ip_step(t: WindowTable, ip: Seq<char>, now: int, max: u32) -> (bool, WindowTable) {
    let w = window_at(t, ip, now);
    if w.count < max {
        (true, t.insert(ip, IpWindow { window_start: w.window_start, count: (w.count + 1) as u32 }))
    } else {
        (false, t)
    }
}

/// In-memory per-IP request limiter with one-minute windows.
pub struct IpRateLimiter {
    entries: StringHashMap<IpWindow>,
    max_per_minute: u32,
}

impl IpRateLimiter {
    /// The windows.
    pub closed spec fn table(&self) -> WindowTable {
        self.entries@
    }

    /// Requests admitted per IP per window.
    pub closed spec fn max_per_minute(&self) -> u32 {
        self.max_per_minute
    }

    /// Every window started at a representable time.
    pub closed spec fn wf(&self) -> bool {
        forall|k: Seq<char>| #[trigger] self.entries@.contains_key(k) ==> representable(self.entries@[k].window_start as int)
    }

    pub fn new(max_per_minute: u32) -> (r: Self)
        ensures
            r.wf(),
            r.table() == Map::<Seq<char>, IpWindow>::empty(),
            r.max_per_minute() == max_per_minute,
    {
        IpRateLimiter { entries: StringHashMap::new(), max_per_minute }
    }

    /// Admit or refuse a request from `ip` at `now`; an admitted request is
    /// counted.
    pub fn check(&mut self, ip: &str, now: i64) -> (allowed: bool)
        requires
            old(self).wf(),
            representable(now as int),
        ensures
            final(self).wf(),
            (allowed, final(self).table()) == ip_step(old(self).table(), ip@, now as int, old(self).max_per_minute()),
            final(self).max_per_minute() == old(self).max_per_minute(),
    {
        let current = match self.entries.get(ip) {
            Some(w) => {
                if now < w.window_start + IP_WINDOW_MS {
                    *w
                } else {
                    IpWindow { window_start: now, count: 0 }
                }
            },
            None => IpWindow { window_start: now, count: 0 },
        };
        if current.count < self.max_per_minute {
            self.entries.insert(
                String::from_str(ip),
                IpWindow { window_start: current.window_start, count: current.count + 1 },
            );
            true
        } else {
            false
        }
    }
}

/// The table after `k` admitted requests from `ip` at the same time `now`.
pub open spec fn repeated_requests(t: WindowTable, ip: Seq<char>, now: int, k: nat, max: u32) -> WindowTable
    decreases k,
{
    if k == 0 {
        t
    } else {
        ip_step(repeated_requests(t, ip, now, (k - 1) as nat, max), ip, now, max).1
    }
}

proof fn lemma_repeated_requests(t: WindowTable, ip: Seq<char>, now: int, k: nat, max: u32)
    requires
        !t.contains_key(ip),
        1 <= k <= max,
        representable(now),
    ensures
        repeated_requests(t, ip, now, k, max).contains_key(ip),
        repeated_requests(t, ip, now, k, max)[ip] == (IpWindow { window_start: now as i64, count: k as u32 }),
        forall|other: Seq<char>| other != ip ==> repeated_requests(t, ip, now, k, max).contains_key(other)
            == t.contains_key(other),
        forall|other: Seq<char>| other != ip && t.contains_key(other) ==> repeated_requests(t, ip, now, k, max)[other]
            == t[other],
    decreases k,
{
    assert(repeated_requests(t, ip, now, 0, max) == t);
    if k > 1 {
        lemma_repeated_requests(t, ip, now, (k - 1) as nat, max);
    }
}

/// Per-IP limit: from an IP with no window, `max` requests at one time are
/// all admitted and the next one is refused, while any other IP keeps its
/// window as it was.
pub proof fn law_ip_limit(t: WindowTable, ip: Seq<char>, now: int, max: u32)
    requires
        !t.contains_key(ip),
        representable(now),
    ensures
        forall|j: nat| j < max ==> #[trigger] ip_step(repeated_requests(t, ip, now, j, max), ip, now, max).0,
        !ip_step(repeated_requests(t, ip, now, max as nat, max), ip, now, max).0,
        forall|other: Seq<char>| other != ip ==> repeated_requests(t, ip, now, max as nat, max).contains_key(other)
            == t.contains_key(other),
{
    assert forall|j: nat| j < max implies #[trigger] ip_step(repeated_requests(t, ip, now, j, max), ip, now, max).0 by {
        if j >= 1 {
            lemma_repeated_requests(t, ip, now, j, max);
        }
    }
    if max >= 1 {
        lemma_repeated_requests(t, ip, now, max as nat, max);
    }
}

/// An admitted request counts in the window it falls in without moving the
/// window's start: while the window is open and below the limit, the start
/// stays and the count grows by one.
pub proof fn law_ip_window_start_kept(t: WindowTable, ip: Seq<char>, now: int, max: u32)
    requires
        t.contains_key(ip),
        now < t[ip].window_start + IP_WINDOW_MS,
        t[ip].count < max,
    ensures
        ip_step(t, ip, now, max).0,
        ip_step(t, ip, now, max).1[ip] == (IpWindow {
            window_start: t[ip].window_start,
            count: (t[ip].count + 1) as u32,
        }),
{
}

/// A window never admits more than the limit: a request is admitted exactly
/// when the window it falls in has admitted fewer than `max`, and then that
/// window's count stays at most `max`; other IPs' windows are untouched.
pub proof fn law_ip_count_bounded(t: WindowTable, ip: Seq<char>, now: int, max: u32)
    ensures
        ip_step(t, ip, now, max).0 <==> (if t.contains_key(ip) && now < t[ip].window_start + IP_WINDOW_MS {
            t[ip].count < max
        } else {
            0 < max
        }),
        ip_step(t, ip, now, max).0 ==> ip_step(t, ip, now, max).1[ip].count <= max,
        !ip_step(t, ip, now, max).0 ==> ip_step(t, ip, now, max).1 == t,
        forall|other: Seq<char>|
            other != ip ==> (#[trigger] ip_step(t, ip, now, max).1.contains_key(other) == t.contains_key(other)),
        forall|other: Seq<char>|
            other != ip && t.contains_key(other) ==> #[trigger] ip_step(t, ip, now, max).1[other] == t[other],
{
}

/// A window runs out: a request a minute or more after its window started
/// is admitted whenever the limit is at least one.
pub proof fn law_ip_window_resets(t: WindowTable, ip: Seq<char>, now: int, max: u32)
    requires
        t.contains_key(ip),
        now >= t[ip].window_start + IP_WINDOW_MS,
        max >= 1,
    ensures
        ip_step(t, ip, now, max).0,
        ip_step(t, ip, now, max).1[ip] == (IpWindow { window_start: now as i64, count: 1 }),
{
}

} // verus!
