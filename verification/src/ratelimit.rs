//! Rate limits by client address.

use vstd::prelude::*;

verus! {

/// A client address: its family, and its bits.
#[derive(Clone, Copy, Debug, PartialEq, Eq, Structural)]
pub struct ClientIp {
    pub v6: bool,
    pub bits: u128,
}

impl ClientIp {
    /// What the client is told apart by.
    pub open spec fn key(self) -> (u8, u128) {
        (
            if self.v6 {
                6u8
            } else {
                4u8
            },
            self.bits,
        )
    }

    fn bucket(&self) -> (r: (u8, u128))
        ensures
            r == self.key(),
    {
        if self.v6 {
            (6, self.bits)
        } else {
            (4, self.bits)
        }
    }
}

/// A rate limiter of the governor crate, with one bucket for each client.
#[verifier::external_body]
pub struct KeyedLimiter {
    inner: governor::DefaultKeyedRateLimiter<(u8, u128)>,
}

/// The buckets of a limiter: for each client that has one, when it is full again, in
/// nanoseconds since the limiter was made.
pub uninterp spec fn buckets(limiter: KeyedLimiter) -> Map<(u8, u128), nat>;

/// The quota that a limiter was made with: the seconds in which one request is refilled,
/// and how many requests a full bucket admits.
pub uninterp spec fn quota(limiter: KeyedLimiter) -> (u64, u32);

/// Whether a quota is one that a limiter can be made with: neither part is zero, and
/// refilling a whole bucket takes less than 292 years.
pub open spec fn valid_quota(seconds: u64, burst: u32) -> bool {
    &&& seconds > 0
    &&& burst > 0
    &&& seconds * burst * 1_000_000_000 <= 0x7fff_ffff_ffff_ffff
}

/// What a limiter holds before anybody has asked.
pub open spec fn no_buckets() -> Map<(u8, u128), nat> {
    Map::empty()
}

/// The nanoseconds in which one request is refilled.
pub open spec fn refill(quota: (u64, u32)) -> int {
    quota.0 * 1_000_000_000
}

/// How long before its bucket is full a client is admitted: while there is a request left in
/// it.
pub open spec fn slack(quota: (u64, u32)) -> int {
    refill(quota) * (quota.1 - 1)
}

/// When the bucket of a client is full. A client without a bucket has a full one.
pub open spec fn full_at(buckets: Map<(u8, u128), nat>, key: (u8, u128), now: nat) -> nat {
    if buckets.contains_key(key) {
        buckets[key]
    } else {
        now
    }
}

/// Whether a client is admitted at a point in time. One without a bucket always is.
pub open spec fn admits(
    buckets: Map<(u8, u128), nat>,
    quota: (u64, u32),
    key: (u8, u128),
    now: nat,
) -> bool {
    buckets.contains_key(key) ==> buckets[key] <= now + slack(quota)
}

/// The buckets once a client has asked at a point in time: one request is taken out of the
/// bucket of a client that is admitted, and none of one that is not.
pub open spec fn asked(
    buckets: Map<(u8, u128), nat>,
    quota: (u64, u32),
    key: (u8, u128),
    now: nat,
) -> Map<(u8, u128), nat> {
    if admits(buckets, quota, key, now) {
        let full = full_at(buckets, key, now);
        buckets.insert(
            key,
            (if full > now {
                full + refill(quota)
            } else {
                now + refill(quota)
            }) as nat,
        )
    } else {
        buckets
    }
}

/// Whether a bucket is kept when the limiter is pruned at a point in time: unless it has been
/// full for as long as one request takes to be refilled. Looking back stops at the time the
/// limiter was made.
pub open spec fn is_recent(full: nat, quota: (u64, u32), now: nat) -> bool {
    full > 0 && full > now - refill(quota)
}

/// The buckets that are kept when a limiter is pruned at a point in time, each as it was.
pub open spec fn recent(buckets: Map<(u8, u128), nat>, quota: (u64, u32), now: nat) -> Map<
    (u8, u128),
    nat,
> {
    buckets.restrict(
        Set::new(
            |key: (u8, u128)| buckets.contains_key(key) && is_recent(buckets[key], quota, now),
        ),
    )
}

/// What a limiter did when a client asked, at some point in time.
pub open spec fn decided(
    before: Map<(u8, u128), nat>,
    quota: (u64, u32),
    key: (u8, u128),
    admitted: bool,
    after: Map<(u8, u128), nat>,
) -> bool {
    exists|now: nat|
        after == #[trigger] asked(before, quota, key, now) && admitted == admits(
            before,
            quota,
            key,
            now,
        )
}

/// What a limiter did when it was pruned, at some point in time.
pub open spec fn pruned(
    before: Map<(u8, u128), nat>,
    quota: (u64, u32),
    after: Map<(u8, u128), nat>,
) -> bool {
    exists|now: nat| after == #[trigger] recent(before, quota, now)
}

/// `governor::RateLimiter::keyed` with `governor::Quota::with_period` and `allow_burst`: a
/// limiter with that quota and without buckets. A quota of zero, or one whose nanoseconds
/// overflow, makes it panic.
#[verifier::external_body]
fn keyed(seconds: u64, burst: u32) -> (r: KeyedLimiter)
    requires
        valid_quota(seconds, burst),
    ensures
        quota(r) == (seconds, burst),
        buckets(r) == no_buckets(),
{
    let burst = std::num::NonZeroU32::new(burst).expect("Non-zero ratelimit burst");
    let period = std::time::Duration::from_secs(seconds);
    let quota = governor::Quota::with_period(period).expect("Non-zero ratelimit seconds");
    KeyedLimiter { inner: governor::RateLimiter::keyed(quota.allow_burst(burst)) }
}

/// `governor::RateLimiter::check_key`: reads the clock, takes one request out of the client's
/// bucket, and says whether there was one. What the clock shows is not said.
#[verifier::external_body]
fn check_key(limiter: &mut KeyedLimiter, key: (u8, u128)) -> (r: bool)
    ensures
        quota(*final(limiter)) == quota(*old(limiter)),
        decided(
            buckets(*old(limiter)),
            quota(*old(limiter)),
            key,
            r,
            buckets(*final(limiter)),
        ),
{
    limiter.inner.check_key(&key).is_ok()
}

/// `governor::RateLimiter::retain_recent`: reads the clock, drops the buckets that have been
/// full for as long as one request takes to be refilled, and keeps the others as they are.
/// What the clock shows is not said.
#[verifier::external_body]
fn retain_recent(limiter: &mut KeyedLimiter)
    ensures
        quota(*final(limiter)) == quota(*old(limiter)),
        pruned(buckets(*old(limiter)), quota(*old(limiter)), buckets(*final(limiter))),
{
    limiter.inner.retain_recent();
}

/// `governor::RateLimiter::shrink_to_fit`: releases memory, and leaves the buckets alone.
#[verifier::external_body]
fn shrink_to_fit(limiter: &mut KeyedLimiter)
    ensures
        quota(*final(limiter)) == quota(*old(limiter)),
        buckets(*final(limiter)) == buckets(*old(limiter)),
{
    limiter.inner.shrink_to_fit();
}

/// A request that came too soon.
#[derive(Clone, Copy, Debug)]
pub struct RateLimited {
    pub message: &'static str,
    pub code: u16,
}

/// Turns what a limiter said into an answer.
pub fn limit_outcome(admitted: bool, message: &'static str) -> (r: Result<(), RateLimited>)
    ensures
        match r {
            Ok(_) => admitted,
            Err(e) => !admitted && e.message@ == message@ && e.code == 429,
        },
{
    if admitted {
        Ok(())
    } else {
        Err(RateLimited { message, code: 429 })
    }
}

/// The refill period, in seconds, and the bucket size of a limiter.
#[derive(Clone, Copy, Debug, PartialEq, Eq, Structural)]
pub struct LimitConfig {
    pub seconds: u64,
    pub burst: u32,
}

/// The server's limiters. All of them are asked before authentication.
pub struct Limiters {
    login: KeyedLimiter,
    admin: KeyedLimiter,
    scim: KeyedLimiter,
    unauthenticated: KeyedLimiter,
}

/// The mathematical counterpart of [`Limiters`]: the buckets of each limiter.
#[verifier::ext_equal]
pub ghost struct LimitersView {
    pub login: Map<(u8, u128), nat>,
    pub admin: Map<(u8, u128), nat>,
    pub scim: Map<(u8, u128), nat>,
    pub unauthenticated: Map<(u8, u128), nat>,
}

impl View for Limiters {
    type V = LimitersView;

    closed spec fn view(&self) -> LimitersView {
        LimitersView {
            login: buckets(self.login),
            admin: buckets(self.admin),
            scim: buckets(self.scim),
            unauthenticated: buckets(self.unauthenticated),
        }
    }
}

impl Limiters {
    /// The quotas of the limiters: for logins, for the admin panel, for SCIM, and for other
    /// requests without authentication.
    pub closed spec fn quotas(self) -> ((u64, u32), (u64, u32), (u64, u32), (u64, u32)) {
        (quota(self.login), quota(self.admin), quota(self.scim), quota(self.unauthenticated))
    }

    /// Limiters without buckets.
    pub fn new(
        login: LimitConfig,
        admin: LimitConfig,
        scim: LimitConfig,
        unauthenticated: LimitConfig,
    ) -> (r: Self)
        requires
            valid_quota(login.seconds, login.burst),
            valid_quota(admin.seconds, admin.burst),
            valid_quota(scim.seconds, scim.burst),
            valid_quota(unauthenticated.seconds, unauthenticated.burst),
        ensures
            r.quotas() == (
                (login.seconds, login.burst),
                (admin.seconds, admin.burst),
                (scim.seconds, scim.burst),
                (unauthenticated.seconds, unauthenticated.burst),
            ),
            r@ == (LimitersView {
                login: no_buckets(),
                admin: no_buckets(),
                scim: no_buckets(),
                unauthenticated: no_buckets(),
            }),
    {
        Limiters {
            login: keyed(login.seconds, login.burst),
            admin: keyed(admin.seconds, admin.burst),
            scim: keyed(scim.seconds, scim.burst),
            unauthenticated: keyed(unauthenticated.seconds, unauthenticated.burst),
        }
    }
}

/// The answer to a throttled request.
pub open spec fn throttled(r: Result<(), RateLimited>, message: Seq<char>) -> bool {
    r matches Err(e) ==> e.message@ == message && e.code == 429
}

pub fn check_limit_unauthenticated(limiters: &mut Limiters, ip: ClientIp) -> (r: Result<
    (),
    RateLimited,
>)
    ensures
        decided(
            old(limiters)@.unauthenticated,
            old(limiters).quotas().3,
            ip.key(),
            r is Ok,
            final(limiters)@.unauthenticated,
        ),
        !old(limiters)@.unauthenticated.contains_key(ip.key()) ==> r is Ok,
        final(limiters)@.unauthenticated.dom() == old(limiters)@.unauthenticated.dom().insert(ip.key()),
        throttled(r, "Too many requests"@),
        final(limiters)@ == (LimitersView {
            unauthenticated: final(limiters)@.unauthenticated,
            ..old(limiters)@
        }),
        final(limiters).quotas() == old(limiters).quotas(),
{
    let admitted = check_key(&mut limiters.unauthenticated, ip.bucket());
    limit_outcome(admitted, "Too many requests")
}

pub fn check_limit_login(limiters: &mut Limiters, ip: ClientIp) -> (r: Result<(), RateLimited>)
    ensures
        decided(
            old(limiters)@.login,
            old(limiters).quotas().0,
            ip.key(),
            r is Ok,
            final(limiters)@.login,
        ),
        !old(limiters)@.login.contains_key(ip.key()) ==> r is Ok,
        final(limiters)@.login.dom() == old(limiters)@.login.dom().insert(ip.key()),
        throttled(r, "Too many login requests"@),
        final(limiters)@ == (LimitersView {
            login: final(limiters)@.login,
            ..old(limiters)@
        }),
        final(limiters).quotas() == old(limiters).quotas(),
{
    let admitted = check_key(&mut limiters.login, ip.bucket());
    limit_outcome(admitted, "Too many login requests")
}

pub fn check_limit_admin(limiters: &mut Limiters, ip: ClientIp) -> (r: Result<(), RateLimited>)
    ensures
        decided(
            old(limiters)@.admin,
            old(limiters).quotas().1,
            ip.key(),
            r is Ok,
            final(limiters)@.admin,
        ),
        !old(limiters)@.admin.contains_key(ip.key()) ==> r is Ok,
        final(limiters)@.admin.dom() == old(limiters)@.admin.dom().insert(ip.key()),
        throttled(r, "Too many admin requests"@),
        final(limiters)@ == (LimitersView {
            admin: final(limiters)@.admin,
            ..old(limiters)@
        }),
        final(limiters).quotas() == old(limiters).quotas(),
{
    let admitted = check_key(&mut limiters.admin, ip.bucket());
    limit_outcome(admitted, "Too many admin requests")
}

pub fn check_limit_scim(limiters: &mut Limiters, ip: ClientIp) -> (r: Result<(), RateLimited>)
    ensures
        decided(
            old(limiters)@.scim,
            old(limiters).quotas().2,
            ip.key(),
            r is Ok,
            final(limiters)@.scim,
        ),
        !old(limiters)@.scim.contains_key(ip.key()) ==> r is Ok,
        final(limiters)@.scim.dom() == old(limiters)@.scim.dom().insert(ip.key()),
        throttled(r, "Too many SCIM requests"@),
        final(limiters)@ == (LimitersView {
            scim: final(limiters)@.scim,
            ..old(limiters)@
        }),
        final(limiters).quotas() == old(limiters).quotas(),
{
    let admitted = check_key(&mut limiters.scim, ip.bucket());
    limit_outcome(admitted, "Too many SCIM requests")
}

/// Drops the buckets that have been full for as long as one request takes to be refilled, and
/// returns their memory. The others stay as they are.
///
/// A limiter keeps a bucket for every client it has ever seen, and the clients are
/// unbounded. Dropping buckets does not release the map's capacity: that takes the second
/// call.
pub fn prune_limiters(limiters: &mut Limiters)
    ensures
        pruned(old(limiters)@.login, old(limiters).quotas().0, final(limiters)@.login),
        pruned(old(limiters)@.admin, old(limiters).quotas().1, final(limiters)@.admin),
        pruned(old(limiters)@.scim, old(limiters).quotas().2, final(limiters)@.scim),
        pruned(old(limiters)@.unauthenticated, old(limiters).quotas().3, final(limiters)@.unauthenticated),
        final(limiters).quotas() == old(limiters).quotas(),
{
    retain_recent(&mut limiters.login);
    shrink_to_fit(&mut limiters.login);
    retain_recent(&mut limiters.admin);
    shrink_to_fit(&mut limiters.admin);
    retain_recent(&mut limiters.scim);
    shrink_to_fit(&mut limiters.scim);
    retain_recent(&mut limiters.unauthenticated);
    shrink_to_fit(&mut limiters.unauthenticated);
}

/// The buckets once a list of clients have asked, one after the other, at one point in time.
pub open spec fn all_asked(
    buckets: Map<(u8, u128), nat>,
    quota: (u64, u32),
    keys: Seq<(u8, u128)>,
    now: nat,
) -> Map<(u8, u128), nat>
    decreases keys.len(),
{
    if keys.len() == 0 {
        buckets
    } else {
        asked(all_asked(buckets, quota, keys.drop_last(), now), quota, keys.last(), now)
    }
}

/// How often a client is in a list.
pub open spec fn times(keys: Seq<(u8, u128)>, key: (u8, u128)) -> nat
    decreases keys.len(),
{
    if keys.len() == 0 {
        0
    } else {
        times(keys.drop_last(), key) + (if keys.last() == key {
            1nat
        } else {
            0nat
        })
    }
}

proof fn lemma_room_left(period: int, burst: int, taken: int)
    requires
        period > 0,
    ensures
        taken * period <= period * (burst - 1) <==> taken < burst,
        (taken + 1) * period == taken * period + period,
{
    assert((taken + 1) * period == taken * period + period) by (nonlinear_arith);
    if taken < burst {
        assert(taken * period <= period * (burst - 1)) by (nonlinear_arith)
            requires
                period > 0,
                taken <= burst - 1,
        ;
    } else {
        assert(taken * period > period * (burst - 1)) by (nonlinear_arith)
            requires
                period > 0,
                taken > burst - 1,
        ;
    }
}

proof fn lemma_requests_add_up(
    buckets: Map<(u8, u128), nat>,
    quota: (u64, u32),
    keys: Seq<(u8, u128)>,
    key: (u8, u128),
    now: nat,
)
    requires
        valid_quota(quota.0, quota.1),
        full_at(buckets, key, now) <= now,
    ensures
        ({
            let after = all_asked(buckets, quota, keys, now);
            let n = times(keys, key);
            let taken: int = if n <= quota.1 {
                n as int
            } else {
                quota.1 as int
            };
            &&& n == 0 ==> full_at(after, key, now) <= now
            &&& n > 0 ==> after.contains_key(key) && after[key] == now + taken * refill(quota)
        }),
    decreases keys.len(),
{
    let period = refill(quota);
    lemma_room_left(period, quota.1 as int, 0);
    if keys.len() > 0 {
        let rest = keys.drop_last();
        lemma_requests_add_up(buckets, quota, rest, key, now);
        let n = times(rest, key);
        let taken: int = if n <= quota.1 {
            n as int
        } else {
            quota.1 as int
        };
        lemma_room_left(period, quota.1 as int, taken);
        assert(taken * period >= 0) by (nonlinear_arith)
            requires
                taken >= 0,
                period > 0,
        ;
    }
}

/// A full bucket admits its burst, once: at one point in time, the next request of a client
/// whose bucket was full is admitted exactly where fewer than the burst came before it,
/// whoever else asked in between.
pub proof fn law_full_buckets_admit_their_burst(
    buckets: Map<(u8, u128), nat>,
    seconds: u64,
    burst: u32,
    keys: Seq<(u8, u128)>,
    key: (u8, u128),
    now: nat,
)
    requires
        valid_quota(seconds, burst),
        full_at(buckets, key, now) <= now,
    ensures
        admits(all_asked(buckets, (seconds, burst), keys, now), (seconds, burst), key, now)
            <==> times(keys, key) < burst,
{
    let quota = (seconds, burst);
    lemma_requests_add_up(buckets, quota, keys, key, now);
    let n = times(keys, key);
    lemma_room_left(refill(quota), burst as int, 0);
    lemma_room_left(
        refill(quota),
        burst as int,
        if n <= burst {
            n as int
        } else {
            burst as int
        },
    );
}

/// A client that is throttled does not stay so: whoever was admitted is admitted again once
/// one request has been refilled, and whoever was refused is once its bucket has come so far.
pub proof fn law_throttled_clients_recover(
    buckets: Map<(u8, u128), nat>,
    seconds: u64,
    burst: u32,
    key: (u8, u128),
    now: nat,
    later: nat,
)
    requires
        valid_quota(seconds, burst),
    ensures
        ({
            let quota = (seconds, burst);
            let after = asked(buckets, quota, key, now);
            &&& admits(buckets, quota, key, now) && later >= now + refill(quota) ==> admits(
                after,
                quota,
                key,
                later,
            )
            &&& !admits(buckets, quota, key, now) && later >= buckets[key] - slack(quota) ==> admits(
                after,
                quota,
                key,
                later,
            )
        }),
{
    lemma_room_left(refill((seconds, burst)), burst as int, 0);
}

/// Pruning hands nobody a fresh burst: a bucket that is not full stays as it is, and no bucket
/// is made or changed.
pub proof fn law_pruning_keeps_throttled_clients(
    buckets: Map<(u8, u128), nat>,
    quota: (u64, u32),
    key: (u8, u128),
    now: nat,
)
    ensures
        buckets.contains_key(key) && buckets[key] > now ==> recent(buckets, quota, now).contains_key(
            key,
        ),
        recent(buckets, quota, now).contains_key(key) ==> buckets.contains_key(key) && recent(
            buckets,
            quota,
            now,
        )[key] == buckets[key],
{
}

/// Pruning cannot be told from not pruning: whoever asks later is admitted or refused as
/// before, and is left with the same bucket.
pub proof fn law_pruning_is_unobservable(
    buckets: Map<(u8, u128), nat>,
    seconds: u64,
    burst: u32,
    key: (u8, u128),
    pruned_at: nat,
    now: nat,
)
    requires
        valid_quota(seconds, burst),
        pruned_at <= now,
    ensures
        ({
            let quota = (seconds, burst);
            let kept = recent(buckets, quota, pruned_at);
            &&& admits(kept, quota, key, now) == admits(buckets, quota, key, now)
            &&& admits(buckets, quota, key, now) ==> asked(kept, quota, key, now)[key] == asked(
                buckets,
                quota,
                key,
                now,
            )[key]
        }),
{
    let quota = (seconds, burst);
    assert(slack(quota) >= 0) by (nonlinear_arith)
        requires
            quota.0 >= 0,
            quota.1 >= 1,
            slack(quota) == (quota.0 * 1_000_000_000) * (quota.1 - 1),
    ;
}

} // verus!
