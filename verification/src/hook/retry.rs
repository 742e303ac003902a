//! Retrying requests that fail with transient errors.
//!
//! A retry strategy hands out the pause before each attempt until its limit
//! is reached. The retry hook sends a request, and as long as the answer is
//! a transient failure (500, 502, 503, 504 or 429) it sleeps for the pause
//! of the attempt and sends it again; once the strategy is spent it gives up.
//! The decisions of that loop stand here; the sending and the sleeping are
//! done by the caller.
use crate::delay::{max_delay_nanos, Delay};
use crate::errors::ClientError;
use crate::text::{ascii_chars, decimal, decimal_string};
use vstd::prelude::*;
use vstd::string::*;

verus! {

/// A retry strategy: how many attempts may be made, how many were made, and
/// the pause before each.
pub trait RetryStrategy: Copy + Sized {
    /// The maximum number of attempts.
    spec fn limit_spec(&self) -> nat;

    /// The number of attempts made so far.
    spec fn attempt_spec(&self) -> nat;

    /// The pause, in nanoseconds, before attempt `attempt` (counted from 1),
    /// or `None` where no pause can be given for it.
    spec fn delay_at(&self, attempt: nat) -> Option<nat>;

    /// The strategy after one more attempt.
    spec fn advanced(&self) -> Self;

    /// One more attempt changes the count of attempts and nothing else.
    proof fn lemma_advanced(&self)
        requires
            self.attempt_spec() < self.limit_spec(),
        ensures
            self.advanced().attempt_spec() == self.attempt_spec() + 1,
            self.advanced().limit_spec() == self.limit_spec(),
            forall|k: nat| #[trigger] self.advanced().delay_at(k) == self.delay_at(k),
    ;

    /// Returns the maximum number of retries.
    fn limit(&self) -> (r: usize)
        ensures
            r == self.limit_spec(),
    ;

    /// Returns the current attempt number.
    fn attempt(&self) -> (r: usize)
        ensures
            r == self.attempt_spec(),
    ;

    /// Does the next call of `next_retry` hand out a pause or find the limit
    /// reached? It does neither where the pause of the next attempt is too
    /// long to be held.
    fn next_retry_defined(&self) -> (r: bool)
        ensures
            r == (self.attempt_spec() < self.limit_spec() ==> self.delay_at(self.attempt_spec() + 1)
                is Some),
    ;

    /// Returns the next retry delay, or `None` if the limit has been reached.
    fn next_retry(&mut self) -> (r: Option<Delay>)
        requires
            old(self).attempt_spec() < old(self).limit_spec() ==> old(self).delay_at(
                old(self).attempt_spec() + 1,
            ) is Some,
        ensures
            old(self).attempt_spec() < old(self).limit_spec() ==> {
                &&& r matches Some(d) && Some(d@) == old(self).delay_at(old(self).attempt_spec() + 1)
                &&& *final(self) == old(self).advanced()
            },
            old(self).attempt_spec() >= old(self).limit_spec() ==> r is None && *final(self)
                == *old(self),
    ;
}

/// Is `status` a transient failure worth retrying: 500 (internal server
/// error), 502 (bad gateway), 503 (service unavailable), 504 (gateway
/// timeout) or 429 (too many requests)?
pub open spec fn transient(status: u16) -> bool {
    status == 503 || status == 504 || status == 502 || status == 429 || status == 500
}

/// Tells whether a response with `status` is retried.
pub fn is_transient_failure(status: u16) -> (r: bool)
    ensures
        r == transient(status),
        r <==> (status == 429 || status == 500 || status == 502 || status == 503 || status
            == 504),
{
    status == 503 || status == 504 || status == 502 || status == 429 || status == 500
}

/// The message the retry hook gives up with after `attempts` attempts.
pub open spec fn exhausted_message(attempts: nat) -> Seq<char> {
    "Could not complete request after "@ + ascii_chars(decimal(attempts)) + " retries"@
}

/// A hook that retries the requests of an inner hook.
pub struct RetryHook<H, S, Z> {
    inner: H,
    strategy: S,
    sleeper: Z,
}

impl<H, S: RetryStrategy, Z> RetryHook<H, S, Z> {
    /// The wrapped hook.
    pub closed spec fn inner_spec(&self) -> H {
        self.inner
    }

    /// The strategy each request starts from.
    pub closed spec fn strategy_spec(&self) -> S {
        self.strategy
    }

    /// The sleeper that waits between attempts.
    pub closed spec fn sleeper_spec(&self) -> Z {
        self.sleeper
    }

    /// Creates a new retry hook.
    pub fn new(inner: H, strategy: S, sleeper: Z) -> (h: Self)
        ensures
            h.inner_spec() == inner,
            h.strategy_spec() == strategy,
            h.sleeper_spec() == sleeper,
    {
        Self { inner, strategy, sleeper }
    }

    /// The wrapped hook.
    pub fn inner(&self) -> (r: &H)
        ensures
            *r == self.inner_spec(),
    {
        &self.inner
    }

    /// The sleeper that waits between attempts.
    pub fn sleeper(&self) -> (r: &Z)
        ensures
            *r == self.sleeper_spec(),
    {
        &self.sleeper
    }

    /// Starts the retries of one request, from a copy of the strategy.
    pub fn start(&self) -> (run: RetryRun<S>)
        ensures
            run.strategy_spec() == self.strategy_spec(),
    {
        RetryRun { strategy: self.strategy }
    }
}

/// What to do next with a request that is being retried.
pub enum RetryStep {
    /// Send the request; if the answer is a transient failure, sleep for
    /// `delay` before asking for the next step.
    Send { delay: Delay },
    /// The strategy is spent: fail with `error`.
    GiveUp { error: ClientError },
}

/// The retries of one request.
pub struct RetryRun<S> {
    strategy: S,
}

impl<S: RetryStrategy> RetryRun<S> {
    /// The strategy as it stands.
    pub closed spec fn strategy_spec(&self) -> S {
        self.strategy
    }

    /// Does the next step hand out a pause or give up? It does neither where
    /// the pause of the next attempt is too long to be held.
    pub fn next_attempt_defined(&self) -> (r: bool)
        ensures
            r == (self.strategy_spec().attempt_spec() < self.strategy_spec().limit_spec()
                ==> self.strategy_spec().delay_at(self.strategy_spec().attempt_spec() + 1) is Some),
    {
        self.strategy.next_retry_defined()
    }

    /// Asks the strategy for one more attempt.
    pub fn next_attempt(&mut self) -> (step: RetryStep)
        requires
            old(self).strategy_spec().attempt_spec() < old(self).strategy_spec().limit_spec()
                ==> old(self).strategy_spec().delay_at(
                old(self).strategy_spec().attempt_spec() + 1,
            ) is Some,
        ensures
            ({
                let s = old(self).strategy_spec();
                if s.attempt_spec() < s.limit_spec() {
                    &&& step matches RetryStep::Send { delay } && Some(delay@) == s.delay_at(
                        s.attempt_spec() + 1,
                    )
                    &&& final(self).strategy_spec() == s.advanced()
                } else {
                    &&& step matches RetryStep::GiveUp { error: ClientError::Send { message } }
                        && message@ == exhausted_message(s.attempt_spec())
                    &&& final(self).strategy_spec() == s
                }
            }),
    {
        match self.strategy.next_retry() {
            Some(delay) => RetryStep::Send { delay },
            None => {
                let attempts = self.strategy.attempt();
                let mut message = "Could not complete request after ".to_owned();
                let count = decimal_string(attempts as u64);
                message.append(count.as_str());
                message.append(" retries");
                RetryStep::GiveUp { error: ClientError::Send { message } }
            },
        }
    }
}

/// Retrying as a link of a chain of hooks: wraps any hook into a
/// [`RetryHook`] with this strategy and sleeper.
pub struct Retry<Z, S = FixedIntervalRetryStrategy> {
    strategy: S,
    sleeper: Z,
}

impl<Z, S> Retry<Z, S> {
    /// The strategy of the hooks this makes.
    pub closed spec fn strategy_spec(&self) -> S {
        self.strategy
    }

    /// The sleeper of the hooks this makes.
    pub closed spec fn sleeper_spec(&self) -> Z {
        self.sleeper
    }

    /// Creates a new retry link.
    pub fn new(strategy: S, sleeper: Z) -> (r: Self)
        ensures
            r.strategy_spec() == strategy,
            r.sleeper_spec() == sleeper,
    {
        Self { strategy, sleeper }
    }
}

impl<Z: Copy, S: RetryStrategy> Retry<Z, S> {
    /// Wraps `hook` into a retry hook with this strategy and sleeper.
    pub fn chain<H>(&self, hook: H) -> (h: RetryHook<H, S, Z>)
        ensures
            h.inner_spec() == hook,
            h.strategy_spec() == self.strategy_spec(),
            h.sleeper_spec() == self.sleeper_spec(),
    {
        RetryHook::new(hook, self.strategy, self.sleeper)
    }
}

impl<Z: Default + Copy> Default for Retry<Z> {
    /// Three attempts, three seconds apart, with the default sleeper.
    fn default() -> (r: Self)
        ensures
            r.strategy_spec().limit_spec() == 3,
            r.strategy_spec().attempt_spec() == 0,
            r.strategy_spec().base() == 3000000000,
            call_ensures(Z::default, (), r.sleeper_spec()),
    {
        Self {
            strategy: FixedIntervalRetryStrategy::new(3, Delay::from_secs(3)),
            sleeper: Z::default(),
        }
    }
}

/// The answers of `n` successive calls of `next_retry` on `s`: the pause
/// of each attempt, then `None` once the limit is reached.
pub open spec fn schedule<S: RetryStrategy>(s: S, n: nat) -> Seq<Option<nat>>
    decreases n,
{
    if n == 0 {
        seq![]
    } else if s.attempt_spec() < s.limit_spec() {
        seq![s.delay_at(s.attempt_spec() + 1)] + schedule(s.advanced(), (n - 1) as nat)
    } else {
        seq![None] + schedule(s, (n - 1) as nat)
    }
}

/// Law: a strategy that has made `a` of its `l` attempts hands out exactly
/// `l - a` more pauses, those of attempts `a + 1` to `l` in order, and
/// nothing after them.
pub proof fn law_strategy_schedule<S: RetryStrategy>(s: S, n: nat)
    ensures
        schedule(s, n).len() == n,
        forall|i: int|
            0 <= i < n ==> #[trigger] schedule(s, n)[i] == (if s.attempt_spec() + i
                < s.limit_spec() {
                s.delay_at((s.attempt_spec() + i + 1) as nat)
            } else {
                None
            }),
    decreases n,
{
    if n > 0 {
        if s.attempt_spec() < s.limit_spec() {
            s.lemma_advanced();
            law_strategy_schedule(s.advanced(), (n - 1) as nat);
            let t = schedule(s.advanced(), (n - 1) as nat);
            assert forall|i: int| 0 <= i < n implies #[trigger] schedule(s, n)[i] == (if s.attempt_spec()
                + i < s.limit_spec() {
                s.delay_at((s.attempt_spec() + i + 1) as nat)
            } else {
                None
            }) by {
                if i > 0 {
                    assert(schedule(s, n)[i] == t[i - 1]);
                }
            }
        } else {
            law_strategy_schedule(s, (n - 1) as nat);
            let t = schedule(s, (n - 1) as nat);
            assert forall|i: int| 0 <= i < n implies #[trigger] schedule(s, n)[i] == (if s.attempt_spec()
                + i < s.limit_spec() {
                s.delay_at((s.attempt_spec() + i + 1) as nat)
            } else {
                None
            }) by {
                if i > 0 {
                    assert(schedule(s, n)[i] == t[i - 1]);
                }
            }
        }
    }
}

/// How the retries of one request end.
pub enum RetryOutcome {
    /// The answer to send number `sends` was not a transient failure and is
    /// handed back.
    Answered { sends: nat },
    /// Every answer was a transient failure; the hook gave up after `sends`
    /// sends, reporting `attempts` attempts.
    GaveUp { sends: nat, attempts: nat },
    /// The answers ran out before the retries ended.
    Unfinished,
}

/// The retries of one request whose successive answers have the statuses
/// `statuses`, made of the steps [`RetryRun::next_attempt`] and
/// [`is_transient_failure`] decide.
pub open spec fn retry_outcome<S: RetryStrategy>(s: S, statuses: Seq<u16>) -> RetryOutcome
    decreases statuses.len(),
{
    if s.attempt_spec() >= s.limit_spec() {
        RetryOutcome::GaveUp { sends: 0, attempts: s.attempt_spec() }
    } else if statuses.len() == 0 {
        RetryOutcome::Unfinished
    } else if !transient(statuses[0]) {
        RetryOutcome::Answered { sends: 1 }
    } else {
        match retry_outcome(s.advanced(), statuses.drop_first()) {
            RetryOutcome::Answered { sends } => RetryOutcome::Answered { sends: sends + 1 },
            RetryOutcome::GaveUp { sends, attempts } => RetryOutcome::GaveUp {
                sends: sends + 1,
                attempts,
            },
            RetryOutcome::Unfinished => RetryOutcome::Unfinished,
        }
    }
}

/// Law: a request is sent at most `l - a` times by a strategy that has made
/// `a` of its `l` attempts. If its answers are all transient failures and
/// there are enough of them, the hook gives up after exactly `l - a` sends
/// and reports `l` attempts; if the first answer that is not a transient
/// failure comes at send `k <= l - a`, that answer is handed back.
pub proof fn law_retry_budget<S: RetryStrategy>(s: S, statuses: Seq<u16>)
    requires
        s.attempt_spec() <= s.limit_spec(),
    ensures
        retry_outcome(s, statuses) matches RetryOutcome::Answered { sends } ==> 1 <= sends
            <= s.limit_spec() - s.attempt_spec() && sends <= statuses.len() && !transient(statuses[sends - 1])
            && forall|j: int| 0 <= j < sends - 1 ==> transient(#[trigger] statuses[j]),
        retry_outcome(s, statuses) matches RetryOutcome::GaveUp { sends, attempts } ==> sends
            == s.limit_spec() - s.attempt_spec() && attempts == s.limit_spec() && sends
            <= statuses.len() && forall|j: int|
            0 <= j < sends ==> transient(#[trigger] statuses[j]),
        statuses.len() >= s.limit_spec() - s.attempt_spec() ==> !(retry_outcome(
            s,
            statuses,
        ) is Unfinished),
    decreases statuses.len(),
{
    if s.attempt_spec() < s.limit_spec() && statuses.len() > 0 && transient(statuses[0]) {
        s.lemma_advanced();
        let rest = statuses.drop_first();
        law_retry_budget(s.advanced(), rest);
        match retry_outcome(s.advanced(), rest) {
            RetryOutcome::Answered { sends: k } => {
                assert(statuses[k as int] == rest[k - 1]);
                assert forall|j: int| 0 <= j < k implies transient(#[trigger] statuses[j]) by {
                    if j > 0 {
                        assert(statuses[j] == rest[j - 1]);
                    }
                }
            },
            RetryOutcome::GaveUp { sends: k, attempts } => {
                assert forall|j: int| 0 <= j < k + 1 implies transient(#[trigger] statuses[j]) by {
                    if j > 0 {
                        assert(statuses[j] == rest[j - 1]);
                    }
                }
            },
            RetryOutcome::Unfinished => {},
        }
    }
}

/// Law: the statuses that are retried are exactly 429, 500, 502, 503 and
/// 504; every other answer (any other 4xx, 501, a success, a redirection)
/// is handed back at the first send while the strategy has attempts left.
pub proof fn law_retried_statuses<S: RetryStrategy>(s: S, status: u16, rest: Seq<u16>)
    ensures
        transient(status) <==> (status == 429 || status == 500 || status == 502 || status == 503
            || status == 504),
        (s.attempt_spec() < s.limit_spec() && !(status == 429 || status == 500 || status == 502
            || status == 503 || status == 504)) ==> retry_outcome(s, seq![status] + rest)
            == (RetryOutcome::Answered { sends: 1 }),
{
    assert((seq![status] + rest)[0] == status);
}

/// `2` to the power `e`.
pub open spec fn pow2(e: nat) -> nat
    decreases e,
{
    if e == 0 {
        1
    } else {
        2 * pow2((e - 1) as nat)
    }
}

/// The value of `k as u32`.
pub open spec fn as_u32(k: nat) -> nat {
    k % 4294967296
}

/// `Some(nanos)` when a delay can hold it.
pub open spec fn fitting(nanos: nat) -> Option<nat> {
    if nanos <= max_delay_nanos() {
        Some(nanos)
    } else {
        None
    }
}

/// Retries a fixed number of times with the same delay each time.
#[derive(Debug, Clone, Copy)]
pub struct FixedIntervalRetryStrategy {
    limit: usize,
    attempt: usize,
    delay: Delay,
}

impl FixedIntervalRetryStrategy {
    /// The pause given before every attempt.
    pub closed spec fn base(&self) -> nat {
        self.delay@
    }

    /// Creates a new fixed interval retry strategy.
    pub fn new(limit: usize, delay: Delay) -> (s: Self)
        ensures
            s.limit_spec() == limit,
            s.attempt_spec() == 0,
            s.base() == delay@,
    {
        Self { limit, attempt: 0, delay }
    }
}

impl RetryStrategy for FixedIntervalRetryStrategy {
    closed spec fn limit_spec(&self) -> nat {
        self.limit as nat
    }

    closed spec fn attempt_spec(&self) -> nat {
        self.attempt as nat
    }

    /// Every attempt waits the same delay.
    open spec fn delay_at(&self, attempt: nat) -> Option<nat> {
        Some(self.base())
    }

    closed spec fn advanced(&self) -> Self {
        FixedIntervalRetryStrategy { limit: self.limit, attempt: (self.attempt + 1) as usize, delay: self.delay }
    }

    proof fn lemma_advanced(&self) {
    }

    fn limit(&self) -> (r: usize) {
        self.limit
    }

    fn attempt(&self) -> (r: usize) {
        self.attempt
    }

    fn next_retry_defined(&self) -> (r: bool) {
        true
    }

    fn next_retry(&mut self) -> (r: Option<Delay>) {
        if self.attempt < self.limit {
            self.attempt += 1;
            Some(self.delay)
        } else {
            None
        }
    }
}

/// Retries a fixed number of times; the delay grows by the base delay with
/// each attempt.
#[derive(Debug, Clone, Copy)]
pub struct LinearRetryStrategy {
    limit: usize,
    attempt: usize,
    delay: Delay,
}

impl LinearRetryStrategy {
    /// The delay the pauses are multiples of.
    pub closed spec fn base(&self) -> nat {
        self.delay@
    }

    /// Creates a new linear retry strategy.
    pub fn new(limit: usize, delay: Delay) -> (s: Self)
        ensures
            s.limit_spec() == limit,
            s.attempt_spec() == 0,
            s.base() == delay@,
    {
        Self { limit, attempt: 0, delay }
    }
}

impl RetryStrategy for LinearRetryStrategy {
    closed spec fn limit_spec(&self) -> nat {
        self.limit as nat
    }

    closed spec fn attempt_spec(&self) -> nat {
        self.attempt as nat
    }

    /// Attempt `k` waits `k` times the base delay (`k` taken as a `u32`).
    open spec fn delay_at(&self, attempt: nat) -> Option<nat> {
        fitting(self.base() * as_u32(attempt))
    }

    closed spec fn advanced(&self) -> Self {
        LinearRetryStrategy { limit: self.limit, attempt: (self.attempt + 1) as usize, delay: self.delay }
    }

    proof fn lemma_advanced(&self) {
    }

    fn limit(&self) -> (r: usize) {
        self.limit
    }

    fn attempt(&self) -> (r: usize) {
        self.attempt
    }

    fn next_retry_defined(&self) -> (r: bool) {
        if self.attempt < self.limit {
            let a: usize = self.attempt + 1;
            let factor: u32 = a as u32;
            let wide: u64 = a as u64;
            assert(factor == wide % 4294967296) by (bit_vector)
                requires
                    factor == a as u32,
                    wide == a as u64,
            ;
            self.delay.checked_mul(factor).is_some()
        } else {
            true
        }
    }

    fn next_retry(&mut self) -> (r: Option<Delay>) {
        if self.attempt < self.limit {
            self.attempt += 1;
            let a: usize = self.attempt;
            let factor: u32 = a as u32;
            let wide: u64 = a as u64;
            assert(factor == wide % 4294967296) by (bit_vector)
                requires
                    factor == a as u32,
                    wide == a as u64,
            ;
            let d = self.delay.checked_mul(factor);
            match d {
                Some(d) => Some(d),
                None => {
                    assert(false);
                    None
                },
            }
        } else {
            None
        }
    }
}

/// Retries a fixed number of times; the delay doubles with each attempt.
#[derive(Debug, Clone, Copy)]
pub struct ExponentialBackoffRetryStrategy {
    limit: usize,
    attempt: usize,
    delay: Delay,
}

impl ExponentialBackoffRetryStrategy {
    /// The delay of the first attempt.
    pub closed spec fn base(&self) -> nat {
        self.delay@
    }

    /// Creates a new exponential backoff retry strategy.
    pub fn new(limit: usize, delay: Delay) -> (s: Self)
        ensures
            s.limit_spec() == limit,
            s.attempt_spec() == 0,
            s.base() == delay@,
    {
        Self { limit, attempt: 0, delay }
    }
}

impl RetryStrategy for ExponentialBackoffRetryStrategy {
    closed spec fn limit_spec(&self) -> nat {
        self.limit as nat
    }

    closed spec fn attempt_spec(&self) -> nat {
        self.attempt as nat
    }

    /// Attempt `k` waits the base delay times `2^(k - 1)`; there is no pause
    /// where `2^(k - 1)` does not fit a `u32` (`k` taken as a `u32`).
    open spec fn delay_at(&self, attempt: nat) -> Option<nat> {
        let k = as_u32(attempt);
        if 1 <= k <= 32 {
            fitting(self.base() * pow2((k - 1) as nat))
        } else {
            None
        }
    }

    closed spec fn advanced(&self) -> Self {
        ExponentialBackoffRetryStrategy {
            limit: self.limit,
            attempt: (self.attempt + 1) as usize,
            delay: self.delay,
        }
    }

    proof fn lemma_advanced(&self) {
    }

    fn limit(&self) -> (r: usize) {
        self.limit
    }

    fn attempt(&self) -> (r: usize) {
        self.attempt
    }

    fn next_retry_defined(&self) -> (r: bool) {
        if self.attempt < self.limit {
            let a: usize = self.attempt + 1;
            let k: u32 = a as u32;
            let wide: u64 = a as u64;
            assert(k == wide % 4294967296) by (bit_vector)
                requires
                    k == a as u32,
                    wide == a as u64,
            ;
            if k < 1 || k > 32 {
                false
            } else {
                self.delay.checked_mul(pow2_u32(k - 1)).is_some()
            }
        } else {
            true
        }
    }

    fn next_retry(&mut self) -> (r: Option<Delay>) {
        if self.attempt < self.limit {
            self.attempt += 1;
            let a: usize = self.attempt;
            let k: u32 = a as u32;
            let wide: u64 = a as u64;
            assert(k == wide % 4294967296) by (bit_vector)
                requires
                    k == a as u32,
                    wide == a as u64,
            ;
            let factor = pow2_u32(k - 1);
            let d = self.delay.checked_mul(factor);
            match d {
                Some(d) => Some(d),
                None => {
                    assert(false);
                    None
                },
            }
        } else {
            None
        }
    }
}

/// Law: a fixed-interval strategy pauses for its base delay before every
/// attempt.
pub proof fn law_fixed_pauses(f: FixedIntervalRetryStrategy, k: nat)
    ensures
        f.delay_at(k) == Some(f.base()),
{
}

/// Law: a linear strategy pauses for its base delay before the first attempt
/// (where a delay can hold it), and each pause that can be held is the one
/// before it plus the base delay.
pub proof fn law_linear_pauses(l: LinearRetryStrategy, k: nat)
    requires
        1 <= k < 4294967295,
    ensures
        l.delay_at(1) == (if l.base() <= max_delay_nanos() {
            Some(l.base())
        } else {
            None
        }),
        l.delay_at(k + 1) matches Some(next) ==> (l.delay_at(k) matches Some(prev) && next == prev
            + l.base()),
{
    let b = l.base();
    assert(as_u32(1) == 1);
    assert(as_u32(k) == k);
    assert(as_u32(k + 1) == k + 1);
    assert(b * (k + 1) == b * k + b) by (nonlinear_arith);
    assert(b * k <= b * k + b) by (nonlinear_arith);
}

/// Law: an exponential strategy pauses for its base delay before the first
/// attempt (where a delay can hold it), and each pause that can be held, up
/// to attempt 32, is twice the one before it.
pub proof fn law_exponential_pauses(e: ExponentialBackoffRetryStrategy, k: nat)
    requires
        1 <= k < 32,
    ensures
        e.delay_at(1) == (if e.base() <= max_delay_nanos() {
            Some(e.base())
        } else {
            None
        }),
        e.delay_at(k + 1) matches Some(next) ==> (e.delay_at(k) matches Some(prev) && next == 2
            * prev),
{
    let b = e.base();
    assert(as_u32(1) == 1);
    assert(as_u32(k) == k);
    assert(as_u32(k + 1) == k + 1);
    assert(pow2(0) == 1);
    assert(b * pow2(0) == b);
    let p = pow2((k - 1) as nat);
    assert(pow2(k) == 2 * p);
    assert(b * (2 * p) == 2 * (b * p)) by (nonlinear_arith);
    assert(b * p <= 2 * (b * p)) by (nonlinear_arith);
}

/// `2` to the power `e`, as a `u32`.
fn pow2_u32(e: u32) -> (r: u32)
    requires
        e <= 31,
    ensures
        r == pow2(e as nat),
{
    let mut factor: u32 = 1;
    let mut i: u32 = 0;
    proof {
        lemma_pow2_monotone(0, 31);
        lemma_pow2_31();
    }
    while i < e
        invariant
            e <= 31,
            i <= e,
            factor == pow2(i as nat),
            pow2(i as nat) <= pow2(31),
            pow2(31) == 2147483648,
        decreases e - i,
    {
        proof {
            lemma_pow2_monotone((i + 1) as nat, 31);
        }
        factor = factor * 2;
        i = i + 1;
    }
    factor
}

/// The value of `2^31`.
pub proof fn lemma_pow2_31()
    ensures
        pow2(31) == 2147483648,
{
    reveal_with_fuel(pow2, 32);
}

/// `2^a <= 2^b` when `a <= b`.
pub proof fn lemma_pow2_monotone(a: nat, b: nat)
    requires
        a <= b,
    ensures
        pow2(a) <= pow2(b),
    decreases b,
{
    if a < b {
        lemma_pow2_monotone(a, (b - 1) as nat);
    }
}

} // verus!
