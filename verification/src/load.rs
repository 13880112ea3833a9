//! Load tests: who requests what, and what is made of the answers.

use vstd::multiset::Multiset;
use vstd::prelude::*;

use crate::double::Double;
use crate::report::LoadTestResult;
use crate::text::{decimal, numeral};

verus! {

/// What a load test is asked to do.
#[derive(Debug)]
pub struct LoadConfig {
    /// The URLs to request; each user takes them in turn.
    pub urls: Vec<String>,
    pub users: u32,
    pub duration_secs: u64,
}

/// What is said where there is nothing to request.
pub const NO_URLS: &'static str = "No URLs provided for load test";

/// How many values share the slot of `v` in a histogram of three significant digits: below
/// 2048 each value has its own, and from there on the slots double with the values.
pub open spec fn slot_width(v: nat) -> nat
    decreases v,
{
    if v < 2048 {
        1
    } else {
        2 * slot_width(v / 2)
    }
}

/// The smallest value in the slot of `v`.
pub open spec fn slot(v: nat) -> nat {
    (v - v % slot_width(v)) as nat
}

/// Latencies in microseconds, counted in an `hdrhistogram::Histogram` of three significant
/// digits that grows as needed.
#[verifier::external_body]
pub struct Latencies {
    histogram: hdrhistogram::Histogram<u64>,
}

/// The slots of the latencies that were recorded, each by its smallest value.
pub uninterp spec fn recorded(h: Latencies) -> Multiset<u64>;

/// The latency at a percentile, as `hdrhistogram::Histogram::value_at_percentile` gives it.
pub uninterp spec fn percentile_of(slots: Multiset<u64>, percent: u32) -> u64;

/// The mean latency, as `hdrhistogram::Histogram::mean` gives it.
pub uninterp spec fn mean_of(slots: Multiset<u64>) -> Double;

/// No slot of `slots` is below that of `m`, which is one of them.
pub open spec fn is_least(slots: Multiset<u64>, m: u64) -> bool {
    slots.contains(m) && forall|n: u64| #[trigger] slots.contains(n) ==> m <= n
}

/// No slot of `slots` is above that of `m`, which is one of them.
pub open spec fn is_greatest(slots: Multiset<u64>, m: u64) -> bool {
    slots.contains(m) && forall|n: u64| #[trigger] slots.contains(n) ==> n <= m
}

/// The largest value in the slot that starts with `m`, as the histogram gives it: one below
/// the next slot, and one below the largest number there is where no slot follows.
pub open spec fn slot_top(m: u64) -> u64 {
    if m + slot_width(m as nat) <= u64::MAX {
        (m + slot_width(m as nat) - 1) as u64
    } else {
        (u64::MAX - 1) as u64
    }
}

/// `v` is the largest value in a slot of `slots`.
pub open spec fn is_slot_top(slots: Multiset<u64>, v: u64) -> bool {
    exists|m: u64| #[trigger] slots.contains(m) && v == slot_top(m)
}

/// No slot follows the one that starts with `m`.
pub open spec fn is_last_slot(m: u64) -> bool {
    m + slot_width(m as nat) > u64::MAX
}

/// How many values can be counted with doubles without an error.
pub const EXACT_COUNT: u64 = 0x20_0000_0000_0000;

/// `Histogram::new` for that number of significant digits: a histogram that holds nothing
/// and grows as needed. Of three digits it can always be made.
#[verifier::external_body]
fn new_histogram(digits: u8) -> (r: Option<Latencies>)
    requires
        digits == 3,
    ensures
        match r {
            Some(h) => recorded(h) == Multiset::<u64>::empty(),
            None => false,
        },
{
    hdrhistogram::Histogram::new(digits).ok().map(|histogram| Latencies { histogram })
}

/// `Histogram::record`: one more value in the slot of `value`. A histogram that grows as
/// needed takes every value.
#[verifier::external_body]
fn record(h: &mut Latencies, value: u64) -> (r: bool)
    requires
        recorded(*old(h)).len() < u64::MAX,
    ensures
        r,
        recorded(*final(h)) == recorded(*old(h)).insert(slot(value as nat) as u64),
{
    h.histogram.record(value).is_ok()
}

/// `Histogram::add`: the values of both. A histogram that grows as needed takes every value.
#[verifier::external_body]
fn add_all(h: &mut Latencies, other: &Latencies) -> (r: bool)
    requires
        recorded(*old(h)).len() + recorded(*other).len() <= u64::MAX,
    ensures
        r,
        recorded(*final(h)) == recorded(*old(h)).add(recorded(*other)),
{
    h.histogram.add(&other.histogram).is_ok()
}

/// `Histogram::len`: how many values were recorded.
#[verifier::external_body]
fn count(h: &Latencies) -> (r: u64)
    ensures
        r == recorded(*h).len(),
{
    h.histogram.len()
}

/// `Histogram::min`: the smallest value in the lowest slot that was recorded, and zero where
/// nothing was. Where that is the last slot there is, it may be the largest number instead.
#[verifier::external_body]
fn least(h: &Latencies) -> (r: u64)
    ensures
        recorded(*h).len() == 0 ==> r == 0,
        forall|m: u64| #[trigger]
            is_least(recorded(*h), m) ==> r == m || (is_last_slot(m) && r == u64::MAX),
{
    h.histogram.min()
}

/// `Histogram::max`: the largest value in the highest slot that was recorded, and zero where
/// nothing was. Where that is the last slot there is, it may be the largest number instead.
#[verifier::external_body]
fn greatest(h: &Latencies) -> (r: u64)
    ensures
        recorded(*h).len() == 0 ==> r == 0,
        forall|m: u64| #[trigger]
            is_greatest(recorded(*h), m) ==> r == slot_top(m) || (is_last_slot(m) && r
                == u64::MAX),
{
    h.histogram.max()
}

/// `Histogram::value_at_percentile`: the value that this share of what was recorded does not
/// exceed. It is reckoned with doubles, and named, not stated; where nothing was recorded it
/// is zero. As long as the values can be counted without an error, it is the largest value in
/// a slot that was recorded, except at zero percent, and no lower percentile exceeds it.
#[verifier::external_body]
fn at_percentile(h: &Latencies, percent: u32) -> (r: u64)
    ensures
        r == percentile_of(recorded(*h), percent),
        recorded(*h).len() == 0 ==> r == 0,
        recorded(*h).len() <= EXACT_COUNT ==> forall|p: u32|
            p <= percent ==> #[trigger] percentile_of(recorded(*h), p) <= r,
        percent > 0 && 0 < recorded(*h).len() <= EXACT_COUNT ==> is_slot_top(recorded(*h), r),
{
    h.histogram.value_at_percentile(percent.into())
}

/// `Histogram::mean`: the mean of what was recorded. It is reckoned with doubles, and named,
/// not stated; where nothing was recorded it is zero.
#[verifier::external_body]
fn mean(h: &Latencies) -> (r: Double)
    ensures
        r == mean_of(recorded(*h)),
        recorded(*h).len() == 0 ==> r.bits == 0,
{
    Double { bits: h.histogram.mean().to_bits() }
}

/// The latency that counts for a request: none is below one microsecond.
pub open spec fn counted_latency(elapsed_us: u64) -> nat {
    if elapsed_us == 0 {
        1
    } else {
        elapsed_us as nat
    }
}

/// The latencies that a load test reports.
#[derive(Debug, Clone, Copy, PartialEq, Eq, Structural)]
pub struct Spread {
    pub min: u64,
    pub p50: u64,
    pub p90: u64,
    pub p95: u64,
    pub p99: u64,
    pub max: u64,
}

/// What holds something holds at least one thing.
proof fn lemma_contained_counts(slots: Multiset<u64>, m: u64)
    requires
        slots.contains(m),
    ensures
        slots.len() > 0,
{
    broadcast use vstd::multiset::group_multiset_axioms;

    assert(slots.remove(m).insert(m) =~= slots);
}

/// Where something was recorded, something was that is not below anything else.
proof fn lemma_has_greatest(slots: Multiset<u64>, m: u64) -> (g: u64)
    requires
        slots.contains(m),
    ensures
        is_greatest(slots, g),
        m <= g,
    decreases u64::MAX - m,
{
    if exists|n: u64| #[trigger] slots.contains(n) && n > m {
        let n = choose|n: u64| #[trigger] slots.contains(n) && n > m;
        lemma_has_greatest(slots, n)
    } else {
        m
    }
}

impl Latencies {
    /// Nothing was measured yet.
    pub fn new() -> (r: Option<Latencies>)
        ensures
            r is Some,
            recorded(r->0) == Multiset::<u64>::empty(),
    {
        new_histogram(3)
    }

    /// Records the latency of a request.
    pub fn measure(&mut self, elapsed_us: u64)
        requires
            recorded(*old(self)).len() < u64::MAX,
        ensures
            recorded(*final(self)) == recorded(*old(self)).insert(
                slot(counted_latency(elapsed_us)) as u64,
            ),
    {
        record(
            self,
            if elapsed_us == 0 {
                1
            } else {
                elapsed_us
            },
        );
    }

    /// Takes over all latencies of another user.
    pub fn merge(&mut self, other: &Latencies)
        requires
            recorded(*old(self)).len() + recorded(*other).len() <= u64::MAX,
        ensures
            recorded(*final(self)) == recorded(*old(self)).add(recorded(*other)),
    {
        add_all(self, other);
    }

    /// How many latencies were recorded.
    pub fn len(&self) -> (r: u64)
        ensures
            r == recorded(*self).len(),
    {
        count(self)
    }

    /// The lowest latency.
    pub fn min(&self) -> (r: u64)
        ensures
            recorded(*self).len() == 0 ==> r == 0,
            forall|m: u64| #[trigger]
                is_least(recorded(*self), m) ==> r == m || (is_last_slot(m) && r == u64::MAX),
    {
        least(self)
    }

    /// The highest latency.
    pub fn max(&self) -> (r: u64)
        ensures
            recorded(*self).len() == 0 ==> r == 0,
            forall|m: u64| #[trigger]
                is_greatest(recorded(*self), m) ==> r == slot_top(m) || (is_last_slot(m) && r
                    == u64::MAX),
    {
        greatest(self)
    }

    /// The latency that `percent` of a hundred requests do not exceed.
    pub fn percentile(&self, percent: u32) -> (r: u64)
        ensures
            r == percentile_of(recorded(*self), percent),
            recorded(*self).len() == 0 ==> r == 0,
            recorded(*self).len() <= EXACT_COUNT ==> forall|p: u32|
                p <= percent ==> #[trigger] percentile_of(recorded(*self), p) <= r,
            percent > 0 && 0 < recorded(*self).len() <= EXACT_COUNT ==> is_slot_top(
                recorded(*self),
                r,
            ),
    {
        at_percentile(self, percent)
    }

    /// How the latencies are spread. They come in order, unless the lowest is in the last slot
    /// there is.
    pub fn spread(&self) -> (r: Spread)
        ensures
            recorded(*self).len() == 0 ==> r == (Spread {
                min: 0,
                p50: 0,
                p90: 0,
                p95: 0,
                p99: 0,
                max: 0,
            }),
            forall|m: u64| #[trigger]
                is_least(recorded(*self), m) ==> r.min == m || (is_last_slot(m) && r.min
                    == u64::MAX),
            r.p50 == percentile_of(recorded(*self), 50),
            r.p90 == percentile_of(recorded(*self), 90),
            r.p95 == percentile_of(recorded(*self), 95),
            r.p99 == percentile_of(recorded(*self), 99),
            forall|m: u64| #[trigger]
                is_greatest(recorded(*self), m) ==> r.max == slot_top(m) || (is_last_slot(m)
                    && r.max == u64::MAX),
            forall|m: u64| #[trigger]
                is_least(recorded(*self), m) && !is_last_slot(m) && recorded(*self).len()
                    <= EXACT_COUNT ==> r.min <= r.p50 <= r.p90 <= r.p95 <= r.p99 <= r.max,
    {
        let r = Spread {
            min: self.min(),
            p50: self.percentile(50),
            p90: self.percentile(90),
            p95: self.percentile(95),
            p99: self.percentile(99),
            max: self.max(),
        };
        proof {
            let slots = recorded(*self);
            assert forall|m: u64| #[trigger]
                is_least(slots, m) && !is_last_slot(m) && slots.len()
                    <= EXACT_COUNT implies r.min <= r.p50 <= r.p90 <= r.p95 <= r.p99 <= r.max by {
                lemma_contained_counts(slots, m);
                let a = choose|a: u64| #[trigger] slots.contains(a) && r.p50 == slot_top(a);
                let b = choose|b: u64| #[trigger] slots.contains(b) && r.p99 == slot_top(b);
                lemma_width(a as nat);
                let g = lemma_has_greatest(slots, b);
                lemma_widths_grow(b as nat, g as nat);
                assert(percentile_of(slots, 50) <= r.p90);
                assert(percentile_of(slots, 90) <= r.p95);
                assert(percentile_of(slots, 95) <= r.p99);
            }
        }
        r
    }

    /// The mean latency.
    pub fn average(&self) -> (r: Double)
        ensures
            r == mean_of(recorded(*self)),
            recorded(*self).len() == 0 ==> r.bits == 0,
    {
        mean(self)
    }
}

/// A slot is no wider than its values call for, and holds its value.
pub proof fn slot_is_near(v: nat)
    ensures
        1 <= slot_width(v),
        slot(v) <= v < slot(v) + slot_width(v),
        1000 * slot_width(v) <= v || slot_width(v) == 1,
    decreases v,
{
    lemma_width(v);
    assert(v % slot_width(v) < slot_width(v));
}

/// A slot has a positive width, at most a thousandth of its values or one.
proof fn lemma_width(v: nat)
    ensures
        1 <= slot_width(v),
        v >= 2048 ==> 1024 * slot_width(v) <= v,
    decreases v,
{
    if v >= 2048 {
        lemma_width(v / 2);
    }
}

/// A larger value has a slot at least as wide.
proof fn lemma_widths_grow(a: nat, b: nat)
    requires
        a <= b,
    ensures
        slot_width(a) <= slot_width(b),
    decreases b,
{
    lemma_width(b);
    if a >= 2048 {
        lemma_widths_grow(a / 2, b / 2);
    }
}

/// From 2048 on, the slot of a value is twice that of its half.
proof fn lemma_slot_halves(v: nat)
    requires
        v >= 2048,
    ensures
        slot(v) == 2 * slot(v / 2),
        slot(v) >= 2048,
    decreases v,
{
    let (h, w) = (v / 2, slot_width(v / 2));
    lemma_width(h);
    assert(v % (2 * w) == 2 * (h % w) + v % 2) by {
        let (q, r) = (h / w, h % w);
        vstd::arithmetic::div_mod::lemma_fundamental_div_mod(h as int, w as int);
        assert(v == (2 * w) * q + (2 * r + v % 2)) by (nonlinear_arith)
            requires
                h == w * q + r,
                v == 2 * h + v % 2,
        ;
        vstd::arithmetic::div_mod::lemma_fundamental_div_mod_converse(
            v as int,
            (2 * w) as int,
            q as int,
            (2 * r + v % 2) as int,
        );
    }
    if h >= 2048 {
        lemma_slot_halves(h);
    } else {
        assert(h % 1 == 0);
    }
}

/// A larger value has the same slot or a higher one.
proof fn lemma_slots_grow(a: nat, b: nat)
    requires
        a <= b,
    ensures
        slot(a) <= slot(b),
    decreases b,
{
    if a >= 2048 {
        lemma_slot_halves(a);
        lemma_slot_halves(b);
        lemma_slots_grow(a / 2, b / 2);
    } else if b >= 2048 {
        lemma_slot_halves(b);
        assert(a % 1 == 0);
    } else {
        assert(a % 1 == 0 && b % 1 == 0);
    }
}

/// The smallest value of a slot is in that slot.
proof fn lemma_slot_start(v: nat)
    ensures
        slot(slot(v)) == slot(v),
        slot_width(slot(v)) == slot_width(v),
    decreases v,
{
    if v >= 2048 {
        lemma_slot_halves(v);
        lemma_slot_start(v / 2);
        assert(slot(v) / 2 == slot(v / 2));
        lemma_slot_halves(slot(v));
    } else {
        assert(v % 1 == 0);
    }
}

/// Which URL a user requests next.
#[derive(Debug, Clone, Copy, PartialEq, Eq, Structural)]
pub struct Turn {
    pub at: usize,
}

/// The place of the `k`-th request of a user among `n` URLs: users start one URL apart and
/// take the URLs in turn.
pub open spec fn place(user: nat, k: nat, n: nat) -> nat {
    (user + k) % n
}

impl Turn {
    /// The turn of a user at the start.
    pub fn first(user: u32, n: usize) -> (r: Turn)
        requires
            n > 0,
        ensures
            r.at == place(user as nat, 0, n as nat),
    {
        Turn { at: user as usize % n }
    }

    /// The place of the URL to request now; the next turn is that of the URL after it.
    pub fn take(&mut self, n: usize) -> (r: usize)
        requires
            old(self).at < n,
        ensures
            r == old(self).at,
            final(self).at == (old(self).at + 1) % n as int,
            final(self).at < n,
    {
        let at: usize = self.at;
        self.at = if at + 1 < n {
            at + 1
        } else {
            0
        };
        proof {
            if at + 1 < n {
                vstd::arithmetic::div_mod::lemma_small_mod((at + 1) as nat, n as nat);
            } else {
                vstd::arithmetic::div_mod::lemma_mod_self_0(n as int);
            }
        }
        at
    }
}

/// A user whose turns follow one another requests the URL at `place` each time.
pub proof fn turns_follow(user: nat, k: nat, n: nat)
    requires
        n > 0,
    ensures
        place(user, k, n) < n,
        (place(user, k, n) + 1) % n == place(user, k + 1, n),
{
    vstd::arithmetic::div_mod::lemma_add_mod_noop_right(1, (user + k) as int, n as int);
    vstd::arithmetic::div_mod::lemma_mod_bound((user + k) as int, n as int);
}

/// Any `n` requests of a user in a row go to `n` different URLs, so that each is requested
/// once: the URL at place `i` is requested by one of them and by no other.
pub proof fn turns_are_fair(user: nat, k: nat, n: nat, i: nat)
    requires
        n > 0,
        i < n,
    ensures
        exists|j: nat| j < n && #[trigger] place(user, k + j, n) == i,
        forall|a: nat, b: nat|
            a < n && b < n && #[trigger] place(user, k + a, n) == #[trigger] place(user, k + b, n)
                ==> a == b,
{
    let start = place(user, k, n);
    vstd::arithmetic::div_mod::lemma_mod_bound((user + k) as int, n as int);
    let j: nat = if i >= start {
        (i - start) as nat
    } else {
        (i + n - start) as nat
    };
    lemma_place_from(user, k, n, j);
    assert(place(user, k + j, n) == i);
    assert forall|a: nat, b: nat|
        a < n && b < n && #[trigger] place(user, k + a, n) == #[trigger] place(
            user,
            k + b,
            n,
        ) implies a == b by {
        lemma_place_from(user, k, n, a);
        lemma_place_from(user, k, n, b);
    }
}

/// The place `j` turns after the `k`-th, in terms of that of the `k`-th.
proof fn lemma_place_from(user: nat, k: nat, n: nat, j: nat)
    requires
        n > 0,
        j < n,
    ensures
        place(user, k, n) < n,
        place(user, k + j, n) == if place(user, k, n) + j < n {
            place(user, k, n) + j
        } else {
            (place(user, k, n) + j - n) as nat
        },
{
    let start = place(user, k, n) as int;
    let m = n as int;
    vstd::arithmetic::div_mod::lemma_mod_bound((user + k) as int, m);
    vstd::arithmetic::div_mod::lemma_add_mod_noop_right(j as int, (user + k) as int, m);
    assert((j as int + start) % m == (j as int + (user + k) as int) % m);
    if start + j < m {
        vstd::arithmetic::div_mod::lemma_small_mod((start + j) as nat, n);
    } else {
        vstd::arithmetic::div_mod::lemma_small_mod((start + j - m) as nat, n);
        vstd::arithmetic::div_mod::lemma_mod_add_multiples_vanish(start + j - m, m);
    }
}

/// How many requests were made and how many of them failed.
pub struct Tally {
    total: u64,
    failed: u64,
}

/// How many requests were made and how many of them failed.
pub ghost struct TallyView {
    pub total: u64,
    pub failed: u64,
}

impl View for Tally {
    type V = TallyView;

    closed spec fn view(&self) -> TallyView {
        TallyView { total: self.total, failed: self.failed }
    }
}

impl Tally {
    #[verifier::type_invariant]
    spec fn is_consistent(self) -> bool {
        self.failed <= self.total
    }

    /// No request was made yet.
    pub fn new() -> (r: Tally)
        ensures
            r@ == (TallyView { total: 0, failed: 0 }),
    {
        Tally { total: 0, failed: 0 }
    }

    /// Counts a request. It succeeded if there was an answer with a status of success.
    pub fn count(&mut self, succeeded: bool)
        requires
            old(self)@.total < u64::MAX,
        ensures
            final(self)@.total == old(self)@.total + 1,
            final(self)@.failed == old(self)@.failed + if succeeded {
                0int
            } else {
                1
            },
    {
        proof {
            use_type_invariant(&*self);
        }
        self.total = self.total + 1;
        if !succeeded {
            self.failed = self.failed + 1;
        }
    }

    /// How many requests were made.
    pub fn total(&self) -> (r: u64)
        ensures
            r == self@.total,
    {
        self.total
    }

    /// How many requests failed.
    pub fn failed(&self) -> (r: u64)
        ensures
            r == self@.failed,
            r <= self@.total,
    {
        proof {
            use_type_invariant(self);
        }
        self.failed
    }

    /// How many requests succeeded.
    pub fn successful(&self) -> (r: u64)
        ensures
            r == self@.total - self@.failed,
    {
        proof {
            use_type_invariant(self);
        }
        self.total - self.failed
    }
}

impl Tally {
    /// Takes over all requests of another user.
    pub fn take_over(&mut self, other: &Tally)
        requires
            old(self)@.total + other@.total <= u64::MAX,
        ensures
            final(self)@.total == old(self)@.total + other@.total,
            final(self)@.failed == old(self)@.failed + other@.failed,
    {
        proof {
            use_type_invariant(&*self);
            use_type_invariant(other);
        }
        let mut sum = Tally {
            total: self.total + other.total,
            failed: self.failed + other.failed,
        };
        std::mem::swap(self, &mut sum);
    }
}

/// One user of a load test: the URL whose turn it is, and what came of the requests so far.
pub struct Worker {
    pub turn: Turn,
    /// How many URLs there are.
    pub urls: usize,
    pub tally: Tally,
    pub latencies: Latencies,
}

impl Worker {
    /// There is a URL to request, and every request was measured once.
    pub open spec fn is_consistent(self) -> bool {
        self.turn.at < self.urls && recorded(self.latencies).len() == self.tally@.total
    }

    /// A user that has requested nothing yet.
    pub fn new(user: u32, urls: usize) -> (r: Option<Worker>)
        requires
            urls > 0,
        ensures
            r is Some,
            r->0.is_consistent(),
            r->0.turn.at == place(user as nat, 0, urls as nat),
            r->0.urls == urls,
            r->0.tally@ == (TallyView { total: 0, failed: 0 }),
            recorded(r->0.latencies) == Multiset::<u64>::empty(),
    {
        match Latencies::new() {
            Some(latencies) => Some(
                Worker { turn: Turn::first(user, urls), urls, tally: Tally::new(), latencies },
            ),
            None => None,
        }
    }

    /// The place of the URL to request now.
    pub fn next_url(&mut self) -> (r: usize)
        requires
            old(self).is_consistent(),
        ensures
            final(self).is_consistent(),
            r == old(self).turn.at,
            r < old(self).urls,
            final(self).turn.at == (old(self).turn.at + 1) % old(self).urls as int,
            final(self).urls == old(self).urls,
            final(self).tally == old(self).tally,
            final(self).latencies == old(self).latencies,
    {
        self.turn.take(self.urls)
    }

    /// Takes in what came of a request: whether there was an answer with a status of success,
    /// and how long it took.
    pub fn answered(&mut self, succeeded: bool, elapsed_us: u64)
        requires
            old(self).is_consistent(),
            old(self).tally@.total < u64::MAX,
        ensures
            final(self).is_consistent(),
            final(self).turn == old(self).turn,
            final(self).urls == old(self).urls,
            final(self).tally@.total == old(self).tally@.total + 1,
            final(self).tally@.failed == old(self).tally@.failed + if succeeded {
                0int
            } else {
                1
            },
            recorded(final(self).latencies) == recorded(old(self).latencies).insert(
                slot(counted_latency(elapsed_us)) as u64,
            ),
    {
        self.tally.count(succeeded);
        self.latencies.measure(elapsed_us);
    }
}

/// How many requests users made.
pub open spec fn requests_of(workers: Seq<Worker>) -> nat
    decreases workers.len(),
{
    if workers.len() == 0 {
        0
    } else {
        requests_of(workers.drop_last()) + workers.last().tally@.total as nat
    }
}

/// How many requests of users failed.
pub open spec fn failures_of(workers: Seq<Worker>) -> nat
    decreases workers.len(),
{
    if workers.len() == 0 {
        0
    } else {
        failures_of(workers.drop_last()) + workers.last().tally@.failed as nat
    }
}

/// The slots of all latencies of users.
pub open spec fn slots_of(workers: Seq<Worker>) -> Multiset<u64>
    decreases workers.len(),
{
    if workers.len() == 0 {
        Multiset::empty()
    } else {
        slots_of(workers.drop_last()).add(recorded(workers.last().latencies))
    }
}

/// Fewer users make no more requests.
proof fn lemma_requests_grow(workers: Seq<Worker>, n: int)
    requires
        0 <= n <= workers.len(),
    ensures
        requests_of(workers.take(n)) <= requests_of(workers),
    decreases workers.len() - n,
{
    if n < workers.len() {
        assert(workers.take(n + 1).drop_last() =~= workers.take(n));
        lemma_requests_grow(workers, n + 1);
    } else {
        assert(workers.take(n) =~= workers);
    }
}

/// The requests and the latencies of all users together; every request is among the
/// latencies once.
pub fn gather(workers: &Vec<Worker>) -> (r: Option<(Tally, Latencies)>)
    requires
        forall|i: int| 0 <= i < workers.len() ==> (#[trigger] workers@[i]).is_consistent(),
        requests_of(workers@) <= u64::MAX,
    ensures
        match r {
            Some((tally, latencies)) => {
                &&& tally@.total == requests_of(workers@)
                &&& tally@.failed == failures_of(workers@)
                &&& recorded(latencies) == slots_of(workers@)
                &&& recorded(latencies).len() == tally@.total
                &&& forall|i: int|
                    0 <= i < workers.len() ==> (#[trigger] workers@[i]).tally@.failed
                        <= tally@.failed && workers@[i].tally@.total <= tally@.total
            },
            None => false,
        },
{
    let mut tally = Tally::new();
    let mut latencies = match Latencies::new() {
        Some(h) => h,
        None => {
            return None;
        },
    };
    let mut i: usize = 0;
    proof {
        assert(workers@.take(0) =~= Seq::<Worker>::empty());
    }
    while i < workers.len()
        invariant
            i <= workers.len(),
            forall|k: int| 0 <= k < workers.len() ==> (#[trigger] workers@[k]).is_consistent(),
            requests_of(workers@) <= u64::MAX,
            tally@.total == requests_of(workers@.take(i as int)),
            tally@.failed == failures_of(workers@.take(i as int)),
            recorded(latencies) == slots_of(workers@.take(i as int)),
            recorded(latencies).len() == tally@.total,
        decreases workers.len() - i,
    {
        proof {
            assert(workers@.take(i + 1).drop_last() =~= workers@.take(i as int));
            assert(workers@.take(i + 1).last() == workers@[i as int]);
            lemma_requests_grow(workers@, i + 1);
        }
        tally.take_over(&workers[i].tally);
        latencies.merge(&workers[i].latencies);
        i += 1;
    }
    proof {
        assert(workers@.take(i as int) =~= workers@);
        assert forall|k: int| 0 <= k < workers.len() implies (#[trigger] workers@[k]).tally@.failed
            <= tally@.failed && workers@[k].tally@.total <= tally@.total by {
            no_user_is_left_out(workers@, k);
        }
    }
    Some((tally, latencies))
}

/// The figures of a load test that are reckoned with doubles.
#[derive(Debug, Clone, Copy, PartialEq, Eq, Structural)]
pub struct Figures {
    pub error_rate_pct: Double,
    pub throughput_rps: Double,
    pub p50_ms: Double,
    pub p90_ms: Double,
    pub p95_ms: Double,
    pub p99_ms: Double,
    pub min_ms: Double,
    pub max_ms: Double,
    pub mean_ms: Double,
}

/// `r` is the result of a load test.
pub open spec fn is_load_result(
    config: LoadConfig,
    tally: TallyView,
    figures: Figures,
    r: LoadTestResult,
) -> bool {
    &&& r.url@ == config.urls@[0]@
    &&& r.users == config.users
    &&& r.duration_secs == config.duration_secs
    &&& r.total_requests == tally.total
    &&& r.successful_requests == tally.total - tally.failed
    &&& r.failed_requests == tally.failed
    &&& r.error_rate_pct == figures.error_rate_pct
    &&& r.throughput_rps == figures.throughput_rps
    &&& r.latency_p50_ms == figures.p50_ms
    &&& r.latency_p90_ms == figures.p90_ms
    &&& r.latency_p95_ms == figures.p95_ms
    &&& r.latency_p99_ms == figures.p99_ms
    &&& r.latency_min_ms == figures.min_ms
    &&& r.latency_max_ms == figures.max_ms
    &&& r.latency_mean_ms == figures.mean_ms
}

/// The result of a load test; nothing where there was nothing to request.
pub fn load_result(config: &LoadConfig, tally: &Tally, figures: &Figures) -> (r: Option<
    LoadTestResult,
>)
    ensures
        match r {
            Some(result) => config.urls.len() > 0 && is_load_result(
                *config,
                tally@,
                *figures,
                result,
            ),
            None => config.urls.len() == 0,
        },
{
    if config.urls.len() == 0 {
        return None;
    }
    Some(
        LoadTestResult {
            url: config.urls[0].clone(),
            users: config.users,
            duration_secs: config.duration_secs,
            total_requests: tally.total(),
            successful_requests: tally.successful(),
            failed_requests: tally.failed(),
            error_rate_pct: figures.error_rate_pct,
            throughput_rps: figures.throughput_rps,
            latency_p50_ms: figures.p50_ms,
            latency_p90_ms: figures.p90_ms,
            latency_p95_ms: figures.p95_ms,
            latency_p99_ms: figures.p99_ms,
            latency_min_ms: figures.min_ms,
            latency_max_ms: figures.max_ms,
            latency_mean_ms: figures.mean_ms,
        },
    )
}

/// What the progress of a load test is shown as: requests in the last second and in all,
/// and the error rate, which is given as it is to be written.
pub open spec fn progress_text(
    in_last_second: nat,
    total: nat,
    error_rate: Seq<char>,
    urls: nat,
) -> Seq<char> {
    "RPS: "@ + numeral(in_last_second) + "  total: "@ + numeral(total) + "  errors: "@ + error_rate
        + "%"@ + (if urls > 1 {
        "  urls:"@ + numeral(urls)
    } else {
        ""@
    })
}

/// What the progress of a load test is shown as; `before` is the number of requests a
/// second ago.
pub fn progress_message(before: u64, total: u64, error_rate: &str, urls: usize) -> (r: String)
    requires
        before <= total,
    ensures
        r@ == progress_text((total - before) as nat, total as nat, error_rate@, urls as nat),
{
    let mut s = "RPS: ".to_string();
    let rps = decimal(total - before);
    s.append(rps.as_str());
    s.append("  total: ");
    let all = decimal(total);
    s.append(all.as_str());
    s.append("  errors: ");
    s.append(error_rate);
    s.append("%");
    if urls > 1 {
        let mut tail = "  urls:".to_string();
        let n = decimal(urls as u64);
        tail.append(n.as_str());
        s.append(tail.as_str());
    } else {
        s.append("");
    }
    s
}

/// The lowest and the highest latency enclose every latency that was measured.
pub proof fn latencies_are_enclosed(slots: Multiset<u64>, least: u64, greatest: u64, elapsed_us: u64)
    requires
        forall|m: u64| #[trigger] slots.contains(m) ==> slot(m as nat) == m,
        is_least(slots, least),
        is_greatest(slots, greatest),
        slots.contains(slot(counted_latency(elapsed_us)) as u64),
    ensures
        least <= counted_latency(elapsed_us) <= greatest + slot_width(greatest as nat) - 1,
{
    let v = counted_latency(elapsed_us);
    slot_is_near(v);
    if v > greatest {
        lemma_slots_grow(greatest as nat, v);
        assert(slot(v) == greatest);
        lemma_slot_start(v);
    } else {
        lemma_width(greatest as nat);
    }
}

/// What is recorded of a latency is the start of a slot.
pub proof fn recorded_is_slot(elapsed_us: u64)
    ensures
        slot(slot(counted_latency(elapsed_us))) == slot(counted_latency(elapsed_us)),
        slot(counted_latency(elapsed_us)) <= u64::MAX,
{
    lemma_slot_start(counted_latency(elapsed_us));
    slot_is_near(counted_latency(elapsed_us));
}

/// What users did adds up: two groups of users made the requests of the one and those of the
/// other, in either order, and so with the failures and the latencies; a single user made those
/// that it counted.
pub proof fn users_add_up(a: Seq<Worker>, b: Seq<Worker>, user: Worker)
    ensures
        requests_of(a + b) == requests_of(a) + requests_of(b),
        failures_of(a + b) == failures_of(a) + failures_of(b),
        slots_of(a + b) == slots_of(a).add(slots_of(b)),
        requests_of(a + b) == requests_of(b + a),
        failures_of(a + b) == failures_of(b + a),
        slots_of(a + b) == slots_of(b + a),
        requests_of(seq![user]) == user.tally@.total,
        failures_of(seq![user]) == user.tally@.failed,
        slots_of(seq![user]) == recorded(user.latencies),
        requests_of(Seq::<Worker>::empty()) == 0,
        failures_of(Seq::<Worker>::empty()) == 0,
        slots_of(Seq::<Worker>::empty()).len() == 0,
{
    broadcast use vstd::multiset::group_multiset_axioms;

    lemma_users_join(a, b);
    lemma_users_join(b, a);
    assert(slots_of(a).add(slots_of(b)) =~= slots_of(b).add(slots_of(a)));
    assert(seq![user].drop_last() =~= Seq::<Worker>::empty());
    assert(slots_of(Seq::<Worker>::empty()) == Multiset::<u64>::empty());
    assert(Multiset::<u64>::empty().add(recorded(user.latencies)) =~= recorded(user.latencies));
    assert(requests_of(Seq::<Worker>::empty()) == 0);
    assert(failures_of(Seq::<Worker>::empty()) == 0);
}

/// What two groups of users did is what the one did and what the other did.
proof fn lemma_users_join(a: Seq<Worker>, b: Seq<Worker>)
    ensures
        requests_of(a + b) == requests_of(a) + requests_of(b),
        failures_of(a + b) == failures_of(a) + failures_of(b),
        slots_of(a + b) == slots_of(a).add(slots_of(b)),
    decreases b.len(),
{
    broadcast use vstd::multiset::group_multiset_axioms;

    if b.len() == 0 {
        assert(a + b =~= a);
        assert(slots_of(a).add(Multiset::<u64>::empty()) =~= slots_of(a));
    } else {
        lemma_users_join(a, b.drop_last());
        assert((a + b).drop_last() =~= a + b.drop_last());
        assert((a + b).last() == b.last());
        assert(slots_of(a).add(slots_of(b.drop_last())).add(recorded(b.last().latencies))
            =~= slots_of(a).add(slots_of(b.drop_last()).add(recorded(b.last().latencies))));
    }
}

/// No user made more requests, or had more failures, than all users together; each latency of
/// a user is among those of all.
pub proof fn no_user_is_left_out(workers: Seq<Worker>, i: int)
    requires
        0 <= i < workers.len(),
    ensures
        workers[i].tally@.total <= requests_of(workers),
        workers[i].tally@.failed <= failures_of(workers),
        forall|m: u64| #[trigger]
            recorded(workers[i].latencies).count(m) <= slots_of(workers).count(m),
    decreases workers.len(),
{
    broadcast use vstd::multiset::group_multiset_axioms;

    if i < workers.len() - 1 {
        no_user_is_left_out(workers.drop_last(), i);
        assert(workers.drop_last()[i] == workers[i]);
    }
}

/// A request counts with the time it took, and with one microsecond where it took less.
pub proof fn latencies_count_as_measured(elapsed_us: u64)
    ensures
        elapsed_us > 0 ==> counted_latency(elapsed_us) == elapsed_us,
        elapsed_us == 0 ==> counted_latency(elapsed_us) == 1,
{
}

/// Users start one URL apart and go on with the next URL each time.
pub proof fn users_start_apart(user: nat, k: nat, n: nat)
    requires
        n > 0,
    ensures
        user + k < n ==> place(user, k, n) == user + k,
        place(user + 1, k, n) == place(user, k + 1, n),
        place(user + n, k, n) == place(user, k, n),
{
    if user + k < n {
        vstd::arithmetic::div_mod::lemma_small_mod(user + k, n);
    }
    vstd::arithmetic::div_mod::lemma_mod_add_multiples_vanish((user + k) as int, n as int);
    assert((n as int + (user + k) as int) == (user + n + k) as int);
}

/// The result of a load test says what was asked for and what was counted, and has its figures
/// as they were reckoned.
pub proof fn load_result_says_what_was_counted(
    config: LoadConfig,
    tally: TallyView,
    figures: Figures,
    r: LoadTestResult,
)
    requires
        is_load_result(config, tally, figures, r),
    ensures
        r.url@ == config.urls@[0]@,
        r.users == config.users && r.duration_secs == config.duration_secs,
        r.total_requests == tally.total && r.failed_requests == tally.failed,
        r.successful_requests + r.failed_requests == r.total_requests,
        r.error_rate_pct == figures.error_rate_pct && r.throughput_rps == figures.throughput_rps,
        r.latency_p50_ms == figures.p50_ms && r.latency_p90_ms == figures.p90_ms,
        r.latency_p95_ms == figures.p95_ms && r.latency_p99_ms == figures.p99_ms,
        r.latency_min_ms == figures.min_ms && r.latency_max_ms == figures.max_ms,
        r.latency_mean_ms == figures.mean_ms,
{
}

/// The progress of a load test is told by its numbers; how many URLs there are is said where
/// there are several.
pub proof fn progress_is_told(in_last_second: nat, total: nat, error_rate: Seq<char>, urls: nat)
    ensures
        ({
            let front = "RPS: "@ + numeral(in_last_second) + "  total: "@ + numeral(total)
                + "  errors: "@ + error_rate + "%"@;
            &&& urls <= 1 ==> progress_text(in_last_second, total, error_rate, urls) == front
            &&& urls > 1 ==> progress_text(in_last_second, total, error_rate, urls) == front
                + "  urls:"@ + numeral(urls)
        }),
{
    reveal_strlit("");
    let front = "RPS: "@ + numeral(in_last_second) + "  total: "@ + numeral(total) + "  errors: "@
        + error_rate + "%"@;
    assert(front + ""@ =~= front);
    assert(front + ("  urls:"@ + numeral(urls)) =~= front + "  urls:"@ + numeral(urls));
}

/// The greatest value of a slot is the last before the next slot; small values have slots of their
/// own, and the last slot ends one short of the largest number.
pub proof fn slots_end_before_the_next(m: u64)
    ensures
        m < 2048 ==> slot(m as nat) == m && slot_top(m) == m,
        m + slot_width(m as nat) <= u64::MAX ==> slot_top(m) + 1 == m + slot_width(m as nat)
            && !is_last_slot(m),
        m + slot_width(m as nat) > u64::MAX ==> slot_top(m) == u64::MAX - 1 && is_last_slot(m),
{
}

} // verus!
