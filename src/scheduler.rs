//! The controller's dispatch schedule: which tokens go to which fetcher, and
//! when, so that the fleet makes about `20 · N` fetches per second.
use vstd::prelude::*;
use vstd::arithmetic::div_mod::{lemma_add_mod_noop, lemma_small_mod, lemma_mod_self_0};

verus! {

/// Fetches per second that one fetcher is paced for.
pub const NODE_RATE: u64 = 20;

/// Nanoseconds in a second.
pub const SECOND_NS: u64 = 1000000000;

/// Delay from start to the first tick.
pub const START_DELAY_NS: u64 = 200000000;

/// Why a schedule cannot be built.
#[derive(Debug, Clone, Copy, PartialEq, Eq, Structural)]
pub enum SchedulerError {
    /// There is no fetcher to send to.
    NoFetchers,
}

/// The global tick interval for `n` fetchers, `1 / (20·n)` s rounded up to
/// whole nanoseconds.
pub open spec fn tick_interval(n: nat) -> nat
    recommends
        n > 0,
{
    ((SECOND_NS + NODE_RATE * n - 1) / (NODE_RATE * n)) as nat
}

/// The batch size for `t` tokens and `n` fetchers: `⌈t / (20·n)⌉ + 1`.
pub open spec fn batch_size(t: nat, n: nat) -> nat
    recommends
        n > 0,
{
    ((t + NODE_RATE * n - 1) / (NODE_RATE * n) + 1) as nat
}

/// The batch for fetcher `i` at epoch second `epoch`: `b` consecutive
/// tokens, wrapping around, from offset `(epoch + i) mod |tokens|`; none
/// when there are no tokens.
pub open spec fn batch_of(tokens: Seq<String>, b: nat, epoch: nat, i: nat) -> Seq<String> {
    if tokens.len() == 0 {
        Seq::empty()
    } else {
        Seq::new(b, |k: int| tokens[((epoch + i) % tokens.len() + k) % tokens.len() as int])
    }
}

/// The `k`-th tick after the first one.
pub open spec fn tick_at(first: nat, delta: nat, k: nat) -> nat {
    first + k * delta
}

/// The `k`-th tick of a schedule for `n` fetchers, held at the clock's end.
pub open spec fn scheduled_tick(first: nat, n: nat, k: nat) -> nat {
    if tick_at(first, tick_interval(n), k) > u64::MAX {
        u64::MAX as nat
    } else {
        tick_at(first, tick_interval(n), k)
    }
}

/// The earliest time at which the `k`-th command is sent: the first at
/// start, each later one once the tick before it has passed.
pub open spec fn release_at(start: nat, first: nat, delta: nat, k: nat) -> nat {
    if k == 0 {
        start
    } else {
        tick_at(first, delta, (k - 1) as nat)
    }
}

/// One command of the schedule: the fetcher it goes to, its tokens (none
/// when there are no tokens, and then nothing is sent), and the tick to wait
/// for before the next command.
pub struct Dispatch {
    pub fetcher: usize,
    pub tokens: Vec<String>,
    pub deadline_ns: u64,
}

/// The schedule's state: the token universe, the fleet size, and the next
/// tick.
pub struct Scheduler {
    tokens: Vec<String>,
    fetchers: usize,
    batch: usize,
    delta_ns: u64,
    next_tick_ns: u64,
    cursor: usize,
    first_tick: Ghost<nat>,
    issued: Ghost<nat>,
}

/// The tick interval for `fetchers` fetchers, in nanoseconds.
pub fn tick_interval_ns(fetchers: usize) -> (r: u64)
    requires
        fetchers > 0,
    ensures
        r == tick_interval(fetchers as nat),
        r as nat * (NODE_RATE * fetchers) >= SECOND_NS,
        r >= 1,
{
    let per: u128 = 20 * (fetchers as u128);
    let d: u128 = (1000000000 + per - 1) / per;
    proof {
        let p = per as int;
        assert(d * p >= 1000000000) by (nonlinear_arith)
            requires
                d == (1000000000 + p - 1) / p,
                p > 0,
        ;
        assert(d >= 1 && d <= 1000000000) by (nonlinear_arith)
            requires
                d == (1000000000 + p - 1) / p,
                p >= 20,
        ;
    }
    d as u64
}

/// The batch size for `token_count` tokens and `fetchers` fetchers.
pub fn batch_len(token_count: usize, fetchers: usize) -> (r: usize)
    requires
        fetchers > 0,
    ensures
        r == batch_size(token_count as nat, fetchers as nat),
{
    let per: u128 = 20 * (fetchers as u128);
    let q: u128 = ((token_count as u128) + per - 1) / per;
    proof {
        let p = per as int;
        let t = token_count as int;
        assert(q <= t / 2 + 1) by (nonlinear_arith)
            requires
                q == (t + p - 1) / p,
                p >= 20,
                t >= 0,
        ;
    }
    (q + 1) as usize
}

/// The batch for fetcher `fetcher` at epoch second `epoch_s`.
pub fn batch_for(tokens: &Vec<String>, b: usize, fetcher: usize, epoch_s: u64) -> (r: Vec<String>)
    ensures
        r@ == batch_of(tokens@, b as nat, epoch_s as nat, fetcher as nat),
{
    let len = tokens.len();
    let mut out: Vec<String> = Vec::new();
    if len == 0 {
        return out;
    }
    let a: usize = (epoch_s % (len as u64)) as usize;
    let c: usize = fetcher % len;
    let o: usize = if a >= len - c {
        a - (len - c)
    } else {
        a + c
    };
    proof {
        lemma_add_mod_noop(epoch_s as int, fetcher as int, len as int);
        if a >= len - c {
            vstd::arithmetic::div_mod::lemma_mod_add_multiples_vanish(a + c - len, len as int);
            lemma_small_mod((a + c - len) as nat, len as nat);
        } else {
            lemma_small_mod((a + c) as nat, len as nat);
        }
    }
    let ghost target = batch_of(tokens@, b as nat, epoch_s as nat, fetcher as nat);
    let mut idx: usize = o;
    let mut k: usize = 0;
    proof {
        lemma_small_mod(o as nat, len as nat);
    }
    while k < b
        invariant
            len == tokens@.len(),
            len > 0,
            o < len,
            o as int == (epoch_s as int + fetcher as int) % (len as int),
            k <= b,
            idx < len,
            idx as int == (o + k) % (len as int),
            target == batch_of(tokens@, b as nat, epoch_s as nat, fetcher as nat),
            target.len() == b,
            out@ == target.subrange(0, k as int),
        decreases b - k,
    {
        assert(target[k as int] == tokens@[idx as int]);
        out.push(tokens[idx].clone());
        proof {
            lemma_add_mod_noop(o + k, 1, len as int);
            if len == 1 {
                lemma_mod_self_0(1);
            } else {
                lemma_small_mod(1, len as nat);
            }
            if idx + 1 < len {
                lemma_small_mod((idx + 1) as nat, len as nat);
            } else {
                lemma_mod_self_0(len as int);
            }
            assert(target.subrange(0, k + 1) == target.subrange(0, k as int).push(target[k as int]));
        }
        idx = if idx + 1 == len {
            0
        } else {
            idx + 1
        };
        k = k + 1;
    }
    assert(target.subrange(0, b as int) == target);
    out
}

impl Scheduler {
    /// The schedule is consistent: at least one fetcher, the interval and
    /// batch size that the fleet size gives, and the next tick where the
    /// ticks issued so far put it (held at the clock's end, never past it).
    pub closed spec fn wf(&self) -> bool {
        &&& self.fetchers > 0
        &&& self.delta_ns == tick_interval(self.fetchers as nat)
        &&& self.batch == batch_size(self.tokens@.len(), self.fetchers as nat)
        &&& self.cursor < self.fetchers
        &&& self.cursor == self.issued@ % (self.fetchers as nat)
        &&& self.next_tick_ns == scheduled_tick(self.first_tick@, self.fetchers as nat, self.issued@)
    }

    /// The token universe.
    pub closed spec fn token_seq(&self) -> Seq<String> {
        self.tokens@
    }

    /// The number of fetchers.
    pub closed spec fn fetcher_count(&self) -> nat {
        self.fetchers as nat
    }

    /// The time of the first tick.
    pub closed spec fn first_tick_ns(&self) -> nat {
        self.first_tick@
    }

    /// The number of commands issued so far.
    pub closed spec fn issued_count(&self) -> nat {
        self.issued@
    }

    /// The tick that the next command waits for.
    pub closed spec fn next_tick(&self) -> nat {
        self.next_tick_ns as nat
    }

    /// A schedule over `tokens` for `fetchers` fetchers started at
    /// `now_ns`: the first tick comes 200 ms later. No fetcher is an error.
    pub fn new(tokens: Vec<String>, fetchers: usize, now_ns: u64) -> (r: Result<Scheduler, SchedulerError>)
        ensures
            fetchers == 0 <==> r is Err,
            r matches Err(e) ==> e == SchedulerError::NoFetchers,
            r matches Ok(s) ==> s.wf() && s.token_seq() == tokens@ && s.fetcher_count() == fetchers
                && s.issued_count() == 0 && s.first_tick_ns() == now_ns + START_DELAY_NS,
    {
        if fetchers == 0 {
            return Err(SchedulerError::NoFetchers);
        }
        let delta_ns = tick_interval_ns(fetchers);
        let batch = batch_len(tokens.len(), fetchers);
        let first = now_ns.saturating_add(START_DELAY_NS);
        let s = Scheduler {
            tokens,
            fetchers,
            batch,
            delta_ns,
            next_tick_ns: first,
            cursor: 0,
            first_tick: Ghost((now_ns + START_DELAY_NS) as nat),
            issued: Ghost(0),
        };
        proof {
            lemma_small_mod(0, fetchers as nat);
        }
        Ok(s)
    }

    /// The tick interval in nanoseconds.
    pub fn delta_ns(&self) -> (r: u64)
        requires
            self.wf(),
        ensures
            r == tick_interval(self.fetcher_count()),
    {
        self.delta_ns
    }

    /// The number of tokens in each batch.
    pub fn batch_len(&self) -> (r: usize)
        requires
            self.wf(),
        ensures
            r == batch_size(self.token_seq().len(), self.fetcher_count()),
    {
        self.batch
    }

    /// The next command: to the next fetcher in order, with its batch at
    /// epoch second `epoch_s`; then the next tick moves on by one interval.
    pub fn next_dispatch(&mut self, epoch_s: u64) -> (d: Dispatch)
        requires
            old(self).wf(),
        ensures
            final(self).wf(),
            final(self).token_seq() == old(self).token_seq(),
            final(self).fetcher_count() == old(self).fetcher_count(),
            final(self).first_tick_ns() == old(self).first_tick_ns(),
            final(self).issued_count() == old(self).issued_count() + 1,
            d.fetcher == old(self).issued_count() % old(self).fetcher_count(),
            d.fetcher < old(self).fetcher_count(),
            old(self).fetcher_count() > 0,
            d.tokens@ == batch_of(
                old(self).token_seq(),
                batch_size(old(self).token_seq().len(), old(self).fetcher_count()),
                epoch_s as nat,
                d.fetcher as nat,
            ),
            d.deadline_ns == old(self).next_tick(),
            d.deadline_ns == scheduled_tick(old(self).first_tick_ns(), old(self).fetcher_count(), old(self).issued_count()),
    {
        let fetcher = self.cursor;
        let tokens = batch_for(&self.tokens, self.batch, fetcher, epoch_s);
        let deadline_ns = self.next_tick_ns;
        self.next_tick_ns = self.next_tick_ns.saturating_add(self.delta_ns);
        self.cursor = if self.cursor + 1 == self.fetchers {
            0
        } else {
            self.cursor + 1
        };
        let ghost n = self.fetchers as int;
        let ghost k = self.issued@;
        proof {
            assert(tick_at(self.first_tick@, self.delta_ns as nat, k + 1) == tick_at(
                self.first_tick@,
                self.delta_ns as nat,
                k,
            ) + self.delta_ns) by (nonlinear_arith);
            lemma_add_mod_noop(k as int, 1, n);
            if n == 1 {
                lemma_mod_self_0(1);
            } else {
                lemma_small_mod(1, n as nat);
            }
            if fetcher + 1 < n {
                lemma_small_mod((fetcher + 1) as nat, n as nat);
            } else {
                lemma_mod_self_0(n);
            }
        }
        self.issued = Ghost(k + 1);
        Dispatch { fetcher, tokens, deadline_ns }
    }
}

/// Pacing: commands are released at the start and then one per tick, so any
/// two released less than a second apart are at most `20·N` commands apart;
/// a one-second window therefore holds at most `20·N + 1` of them.
pub proof fn lemma_pacing(start: nat, first: nat, n: nat, j: nat, k: nat)
    requires
        n > 0,
        start <= first,
        j < k,
        release_at(start, first, tick_interval(n), k) < release_at(start, first, tick_interval(n), j)
            + SECOND_NS,
    ensures
        k - j <= NODE_RATE * n,
{
    let d = tick_interval(n);
    let p = NODE_RATE * n;
    assert(d * p >= SECOND_NS) by (nonlinear_arith)
        requires
            d == (SECOND_NS + p - 1) / p,
            p > 0,
    ;
    if j == 0 {
        assert((k - 1) * d < SECOND_NS) by (nonlinear_arith)
            requires
                first + (k - 1) * d < start + SECOND_NS,
                start <= first,
        ;
        assert(k - 1 < p) by (nonlinear_arith)
            requires
                (k - 1) * d < SECOND_NS,
                d * p >= SECOND_NS,
                d >= 0,
        ;
    } else {
        assert((k - j) * d < SECOND_NS) by (nonlinear_arith)
            requires
                first + (k - 1) * d < first + (j - 1) * d + SECOND_NS,
                j >= 1,
                k > j,
        ;
        assert(k - j < p) by (nonlinear_arith)
            requires
                (k - j) * d < SECOND_NS,
                d * p >= SECOND_NS,
                d >= 0,
        ;
    }
}

/// Coverage, where a batch is at least as long as the universe: every token
/// is in every command's batch.
pub proof fn lemma_full_batch_covers(tokens: Seq<String>, b: nat, epoch: nat, i: nat, t: int)
    requires
        0 <= t < tokens.len(),
        b >= tokens.len(),
    ensures
        batch_of(tokens, b, epoch, i).contains(tokens[t]),
{
    let len = tokens.len() as int;
    let o = (epoch + i) as int % len;
    let k = (t - o + len) % len;
    assert(0 <= k < len);
    assert((o + k) % len == t) by {
        lemma_add_mod_noop(o, t - o + len, len);
        assert(o + (t - o + len) == t + len);
        vstd::arithmetic::div_mod::lemma_mod_add_multiples_vanish(t, len);
        lemma_small_mod(t as nat, len as nat);
        lemma_small_mod(o as nat, len as nat);
    }
    let s = batch_of(tokens, b, epoch, i);
    assert(s[k] == tokens[t]);
}

/// Eventual coverage: within any `|tokens|` consecutive epoch seconds, each
/// fetcher's batch starts at every token once, so every token is sent to it.
pub proof fn lemma_rotation_reaches_every_token(tokens: Seq<String>, b: nat, e0: nat, i: nat, t: int)
    requires
        0 <= t < tokens.len(),
        b >= 1,
    ensures
        exists|e: nat| e0 <= e < e0 + tokens.len() && #[trigger] batch_of(tokens, b, e, i).contains(tokens[t]),
{
    let len = tokens.len() as int;
    let x = (e0 + i) as int;
    let d = (t - x) % len;
    let e = (e0 + d) as nat;
    assert((e + i) as int % len == t) by {
        lemma_add_mod_noop(x, t - x, len);
        lemma_add_mod_noop(x, d, len);
        vstd::arithmetic::div_mod::lemma_mod_twice(t - x, len);
        assert(x + (t - x) == t);
        assert(e + i == x + d);
        lemma_small_mod(t as nat, len as nat);
    }
    let s = batch_of(tokens, b, e, i);
    assert((t + 0) % len == t) by {
        lemma_small_mod(t as nat, len as nat);
    }
    assert(s[0] == tokens[t]);
    assert(0 <= d < len);
    assert(s.contains(tokens[t]));
}

} // verus!
