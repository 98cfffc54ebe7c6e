//! The state store's compare-and-set update of a book record, on an
//! in-memory model of the keyed records.
use vstd::prelude::*;
use crate::types::{OrderBookSnapshot, RedisBookRecord};

verus! {

/// What one compare-and-set update did.
#[derive(Debug, Clone, Copy, PartialEq, Eq, Structural)]
pub enum CasOutcome {
    /// The record was written.
    Updated,
    /// The stored record already has this hash; nothing was written.
    SkipHash,
    /// The arrival is older than the stored record; nothing was written.
    SkipTs,
}

/// Why an update could not be decided.
#[derive(Debug, Clone, Copy, PartialEq, Eq, Structural)]
pub enum CasError {
    /// A timestamp is not a decimal number that fits 64 bits.
    InvalidTimestamp,
}

/// An ASCII decimal digit.
pub open spec fn is_digit(c: char) -> bool {
    '0' <= c && c <= '9'
}

/// The number written by a string of decimal digits.
pub open spec fn digits_value(s: Seq<char>) -> nat
    decreases s.len(),
{
    if s.len() == 0 {
        0
    } else {
        digits_value(s.drop_last()) * 10 + (s.last() as nat - '0' as nat) as nat
    }
}

/// The integer a timestamp string stands for: one or more decimal digits
/// whose value fits 64 bits.
pub open spec fn ts_value(s: Seq<char>) -> Option<nat> {
    if s.len() > 0 && (forall|i: int| 0 <= i < s.len() ==> is_digit(#[trigger] s[i]))
        && digits_value(s) <= u64::MAX {
        Some(digits_value(s))
    } else {
        None
    }
}

/// The decision of the update script for a stored record `cur` (if any) and
/// a candidate record: an equal hash wins over an older timestamp, and a
/// missing record counts as timestamp 0.
pub open spec fn cas_outcome(cur: Option<RedisBookRecord>, new: RedisBookRecord) -> Result<
    CasOutcome,
    CasError,
> {
    if cur is Some && cur->Some_0.hash@ == new.hash@ {
        Ok(CasOutcome::SkipHash)
    } else {
        let cur_ts = if cur is Some {
            ts_value(cur->Some_0.timestamp@)
        } else {
            Some(0nat)
        };
        match (ts_value(new.timestamp@), cur_ts) {
            (Some(n), Some(c)) => if n < c {
                Ok(CasOutcome::SkipTs)
            } else {
                Ok(CasOutcome::Updated)
            },
            _ => Err(CasError::InvalidTimestamp),
        }
    }
}

/// The record stored under `asset`, if any.
pub open spec fn stored(m: Map<Seq<char>, RedisBookRecord>, asset: Seq<char>) -> Option<
    RedisBookRecord,
> {
    if m.contains_key(asset) {
        Some(m[asset])
    } else {
        None
    }
}

proof fn lemma_digits_prefix_le(s: Seq<char>, i: int)
    requires
        0 <= i <= s.len(),
    ensures
        digits_value(s.subrange(0, i)) <= digits_value(s),
    decreases s.len() - i,
{
    if i < s.len() {
        lemma_digits_prefix_le(s, i + 1);
        let t = s.subrange(0, i + 1);
        assert(t.drop_last() == s.subrange(0, i));
    } else {
        assert(s.subrange(0, i) == s);
    }
}

/// Reads a timestamp string as an integer.
pub fn parse_timestamp(s: &str) -> (r: Option<u64>)
    ensures
        r matches Some(v) ==> ts_value(s@) == Some(v as nat),
        r is None ==> ts_value(s@) is None,
{
    let n = s.unicode_len();
    if n == 0 {
        return None;
    }
    let mut acc: u64 = 0;
    let mut i: usize = 0;
    while i < n
        invariant
            n == s@.len(),
            i <= n,
            acc as nat == digits_value(s@.subrange(0, i as int)),
            forall|j: int| 0 <= j < i ==> is_digit(#[trigger] s@[j]),
        decreases n - i,
    {
        let c = s.get_char(i);
        proof {
            let t = s@.subrange(0, i + 1);
            assert(t.drop_last() == s@.subrange(0, i as int));
        }
        if c < '0' || c > '9' {
            assert(!is_digit(s@[i as int]));
            return None;
        }
        let d = (c as u32 - '0' as u32) as u64;
        if acc > (u64::MAX - d) / 10 {
            proof {
                assert(acc * 10 + d > u64::MAX) by (nonlinear_arith)
                    requires
                        acc > (u64::MAX - d) / 10,
                        d <= 9,
                ;
                lemma_digits_prefix_le(s@, i + 1);
            }
            return None;
        }
        proof {
            assert(acc * 10 + d <= u64::MAX) by (nonlinear_arith)
                requires
                    acc <= (u64::MAX - d) / 10,
                    d <= 9,
            ;
        }
        acc = acc * 10 + d;
        i = i + 1;
    }
    assert(s@.subrange(0, n as int) == s@);
    Some(acc)
}

/// A copy of a record, field by field.
pub fn copy_record(r: &RedisBookRecord) -> (c: RedisBookRecord)
    ensures
        c == *r,
{
    RedisBookRecord {
        bids: r.bids.clone(),
        asks: r.asks.clone(),
        hash: r.hash.clone(),
        timestamp: r.timestamp.clone(),
        updated_at: r.updated_at,
        market: r.market.clone(),
    }
}

/// Decides an update of the stored record `cur` by the candidate `new`.
pub fn cas_decide(cur: Option<&RedisBookRecord>, new: &RedisBookRecord) -> (r: Result<
    CasOutcome,
    CasError,
>)
    ensures
        r == cas_outcome(
            match cur {
                Some(c) => Some(*c),
                None => None,
            },
            *new,
        ),
{
    let cur_ts: Option<u64> = match cur {
        Some(c) => {
            if c.hash == new.hash {
                return Ok(CasOutcome::SkipHash);
            }
            parse_timestamp(c.timestamp.as_str())
        },
        None => Some(0),
    };
    match (parse_timestamp(new.timestamp.as_str()), cur_ts) {
        (Some(n), Some(c)) => if n < c {
            Ok(CasOutcome::SkipTs)
        } else {
            Ok(CasOutcome::Updated)
        },
        _ => Err(CasError::InvalidTimestamp),
    }
}

/// Book records keyed by asset id, each key at most once.
pub struct BookStore {
    entries: Vec<(String, RedisBookRecord)>,
    model: Ghost<Map<Seq<char>, RedisBookRecord>>,
}

impl View for BookStore {
    type V = Map<Seq<char>, RedisBookRecord>;

    closed spec fn view(&self) -> Map<Seq<char>, RedisBookRecord> {
        self.model@
    }
}

impl BookStore {
    /// The entries hold exactly the records of the model, each key once.
    pub closed spec fn wf(&self) -> bool {
        &&& forall|i: int, j: int|
            0 <= i < j < self.entries@.len() ==> #[trigger] self.entries@[i].0@
                != #[trigger] self.entries@[j].0@
        &&& forall|i: int|
            0 <= i < self.entries@.len() ==> self.model@.contains_key(#[trigger] self.entries@[i].0@)
                && self.model@[self.entries@[i].0@] == self.entries@[i].1
        &&& forall|k: Seq<char>|
            #[trigger] self.model@.contains_key(k) ==> exists|i: int|
                0 <= i < self.entries@.len() && #[trigger] self.entries@[i].0@ == k
    }

    /// An empty store.
    pub fn new() -> (s: BookStore)
        ensures
            s.wf(),
            s@ == Map::<Seq<char>, RedisBookRecord>::empty(),
    {
        BookStore { entries: Vec::new(), model: Ghost(Map::empty()) }
    }

    /// The number of stored records.
    pub fn len(&self) -> (n: usize)
        requires
            self.wf(),
        ensures
            n == self@.dom().len(),
    {
        proof {
            self.lemma_dom_len();
        }
        self.entries.len()
    }

    proof fn lemma_dom_len(&self)
        requires
            self.wf(),
        ensures
            self.entries@.len() == self@.dom().len(),
    {
        let keys = self.entries@.map_values(|e: (String, RedisBookRecord)| e.0@);
        assert forall|i: int, j: int| 0 <= i < j < keys.len() implies keys[i] != keys[j] by {
            assert(self.entries@[i].0@ != self.entries@[j].0@);
        }
        keys.unique_seq_to_set();
        assert forall|k: Seq<char>| keys.to_set().contains(k) <==> self@.dom().contains(k) by {
            if self@.dom().contains(k) {
                let i = choose|i: int| 0 <= i < self.entries@.len() && #[trigger] self.entries@[i].0@ == k;
                assert(keys[i] == k);
            }
            if keys.to_set().contains(k) {
                let i = choose|i: int| 0 <= i < keys.len() && keys[i] == k;
                assert(self.entries@[i].0@ == k);
            }
        }
        assert(keys.to_set() == self@.dom());
    }

    fn find(&self, asset_id: &String) -> (r: Option<usize>)
        requires
            self.wf(),
        ensures
            r matches Some(i) ==> i < self.entries@.len() && self.entries@[i as int].0@ == asset_id@,
            r is None ==> !self@.contains_key(asset_id@),
    {
        let mut i: usize = 0;
        while i < self.entries.len()
            invariant
                self.wf(),
                i <= self.entries@.len(),
                forall|j: int| 0 <= j < i ==> #[trigger] self.entries@[j].0@ != asset_id@,
            decreases self.entries@.len() - i,
        {
            if self.entries[i].0 == *asset_id {
                return Some(i);
            }
            i = i + 1;
        }
        None
    }

    /// The record stored under `asset_id`, if any.
    pub fn get(&self, asset_id: &String) -> (r: Option<RedisBookRecord>)
        requires
            self.wf(),
        ensures
            r == stored(self@, asset_id@),
    {
        match self.find(asset_id) {
            Some(i) => Some(copy_record(&self.entries[i].1)),
            None => None,
        }
    }

    /// The atomic compare-and-set update of the record under `asset_id`:
    /// `rec` is written exactly when the decision is `Updated`.
    pub fn cas_upsert(&mut self, asset_id: &String, rec: RedisBookRecord) -> (r: Result<
        CasOutcome,
        CasError,
    >)
        requires
            old(self).wf(),
        ensures
            final(self).wf(),
            r == cas_outcome(stored(old(self)@, asset_id@), rec),
            final(self)@ == cas_step(old(self)@, asset_id@, rec),
    {
        let found = self.find(asset_id);
        let r = match found {
            Some(i) => cas_decide(Some(&self.entries[i].1), &rec),
            None => cas_decide(None, &rec),
        };
        if matches!(r, Ok(CasOutcome::Updated)) {
            let ghost m = self.model@.insert(asset_id@, rec);
            match found {
                Some(i) => {
                    let key = self.entries[i].0.clone();
                    self.entries.set(i, (key, rec));
                },
                None => {
                    self.entries.push((asset_id.clone(), rec));
                },
            }
            self.model = Ghost(m);
            proof {
                assert forall|k: Seq<char>| #[trigger] self.model@.contains_key(k) implies exists|i: int|
                    0 <= i < self.entries@.len() && #[trigger] self.entries@[i].0@ == k by {
                    if k == asset_id@ {
                        match found {
                            Some(j) => assert(self.entries@[j as int].0@ == k),
                            None => assert(self.entries@[self.entries@.len() - 1].0@ == k),
                        }
                    } else {
                        let j = choose|j: int| 0 <= j < old(self).entries@.len() && #[trigger] old(self).entries@[j].0@ == k;
                        assert(self.entries@[j].0@ == k);
                    }
                }
            }
        }
        r
    }
}

/// The store after one update of `asset` by `rec`.
pub open spec fn cas_step(m: Map<Seq<char>, RedisBookRecord>, asset: Seq<char>, rec: RedisBookRecord) -> Map<
    Seq<char>,
    RedisBookRecord,
> {
    if cas_outcome(stored(m, asset), rec) == Ok::<CasOutcome, CasError>(CasOutcome::Updated) {
        m.insert(asset, rec)
    } else {
        m
    }
}

/// Whether `rec` arriving for `asset` is written over the store `m`.
pub open spec fn updates(m: Map<Seq<char>, RedisBookRecord>, asset: Seq<char>, rec: RedisBookRecord) -> bool {
    cas_outcome(stored(m, asset), rec) == Ok::<CasOutcome, CasError>(CasOutcome::Updated)
}

/// The integer timestamp of a record, 0 where it has none.
pub open spec fn rec_ts(r: RedisBookRecord) -> nat {
    match ts_value(r.timestamp@) {
        Some(v) => v,
        None => 0,
    }
}

/// The store after a sequence of arrivals, each an asset id and a candidate
/// record, applied in order.
pub open spec fn run_store(m: Map<Seq<char>, RedisBookRecord>, xs: Seq<(Seq<char>, RedisBookRecord)>) -> Map<
    Seq<char>,
    RedisBookRecord,
>
    decreases xs.len(),
{
    if xs.len() == 0 {
        m
    } else {
        cas_step(run_store(m, xs.drop_last()), xs.last().0, xs.last().1)
    }
}

/// The arrivals that were written, in order: the ones a fetcher publishes.
pub open spec fn published(m: Map<Seq<char>, RedisBookRecord>, xs: Seq<(Seq<char>, RedisBookRecord)>) -> Seq<
    (Seq<char>, RedisBookRecord),
>
    decreases xs.len(),
{
    if xs.len() == 0 {
        Seq::empty()
    } else {
        let before = published(m, xs.drop_last());
        if updates(run_store(m, xs.drop_last()), xs.last().0, xs.last().1) {
            before.push(xs.last())
        } else {
            before
        }
    }
}

/// Arrivals in which, per asset, a hash names exactly one timestamp and a
/// timestamp exactly one hash.
pub open spec fn versioned(xs: Seq<(Seq<char>, RedisBookRecord)>) -> bool {
    forall|i: int, j: int|
        0 <= i < xs.len() && 0 <= j < xs.len() && #[trigger] xs[i].0 == #[trigger] xs[j].0
            && ts_value(xs[i].1.timestamp@) is Some && ts_value(xs[j].1.timestamp@) is Some ==> (
        xs[i].1.hash@ == xs[j].1.hash@ <==> rec_ts(xs[i].1) == rec_ts(xs[j].1))
}

/// Every published record is still covered by the stored one of its asset:
/// the stored timestamp is no older.
pub open spec fn covers(m: Map<Seq<char>, RedisBookRecord>, pubs: Seq<(Seq<char>, RedisBookRecord)>) -> bool {
    forall|i: int|
        0 <= i < pubs.len() ==> {
            &&& m.contains_key(#[trigger] pubs[i].0)
            &&& ts_value(m[pubs[i].0].timestamp@) is Some
            &&& ts_value(pubs[i].1.timestamp@) is Some
            &&& rec_ts(m[pubs[i].0]) >= rec_ts(pubs[i].1)
        }
}

/// A write never moves a stored timestamp back, and never rewrites a stored
/// record with the same hash.
pub proof fn lemma_update_moves_forward(m: Map<Seq<char>, RedisBookRecord>, asset: Seq<char>, rec: RedisBookRecord)
    requires
        updates(m, asset, rec),
    ensures
        ts_value(rec.timestamp@) is Some,
        m.contains_key(asset) ==> ts_value(m[asset].timestamp@) is Some && rec_ts(m[asset]) <= rec_ts(rec)
            && m[asset].hash@ != rec.hash@,
        cas_step(m, asset, rec) == m.insert(asset, rec),
{
}

/// A stored timestamp never decreases over a run of arrivals, and a stored
/// record is never removed.
pub proof fn lemma_stored_timestamp_monotone(
    m: Map<Seq<char>, RedisBookRecord>,
    xs: Seq<(Seq<char>, RedisBookRecord)>,
    asset: Seq<char>,
)
    requires
        m.contains_key(asset),
        ts_value(m[asset].timestamp@) is Some,
    ensures
        run_store(m, xs).contains_key(asset),
        ts_value(run_store(m, xs)[asset].timestamp@) is Some,
        rec_ts(run_store(m, xs)[asset]) >= rec_ts(m[asset]),
    decreases xs.len(),
{
    if xs.len() > 0 {
        lemma_stored_timestamp_monotone(m, xs.drop_last(), asset);
        let prev = run_store(m, xs.drop_last());
        if updates(prev, xs.last().0, xs.last().1) {
            lemma_update_moves_forward(prev, xs.last().0, xs.last().1);
        }
    }
}

proof fn lemma_published_covered(m: Map<Seq<char>, RedisBookRecord>, xs: Seq<(Seq<char>, RedisBookRecord)>)
    ensures
        covers(run_store(m, xs), published(m, xs)),
        forall|i: int| 0 <= i < published(m, xs).len() ==> xs.contains(#[trigger] published(m, xs)[i]),
    decreases xs.len(),
{
    if xs.len() > 0 {
        let ys = xs.drop_last();
        let x = xs.last();
        lemma_published_covered(m, ys);
        let prev = run_store(m, ys);
        let pubs = published(m, ys);
        assert forall|i: int| 0 <= i < pubs.len() implies xs.contains(#[trigger] pubs[i]) by {
            assert(ys.contains(pubs[i]));
            let k = choose|k: int| 0 <= k < ys.len() && ys[k] == pubs[i];
            assert(xs[k] == pubs[i]);
        }
        if updates(prev, x.0, x.1) {
            lemma_update_moves_forward(prev, x.0, x.1);
            let next = run_store(m, xs);
            let np = published(m, xs);
            assert(np == pubs.push(x));
            assert(xs[xs.len() - 1] == x);
            assert forall|i: int| 0 <= i < np.len() implies xs.contains(#[trigger] np[i]) by {
                if i < pubs.len() {
                    assert(np[i] == pubs[i]);
                }
            }
        } else {
            assert(run_store(m, xs) == prev);
        }
    }
}

/// Timestamps of the published records of one asset never go back: of any
/// two, the later one is no older.
pub proof fn lemma_published_timestamps_monotone(
    m: Map<Seq<char>, RedisBookRecord>,
    xs: Seq<(Seq<char>, RedisBookRecord)>,
)
    ensures
        forall|i: int, j: int|
            0 <= i < j < published(m, xs).len() && #[trigger] published(m, xs)[i].0 == #[trigger] published(
                m,
                xs,
            )[j].0 ==> rec_ts(published(m, xs)[i].1) <= rec_ts(published(m, xs)[j].1),
    decreases xs.len(),
{
    if xs.len() > 0 {
        let ys = xs.drop_last();
        let x = xs.last();
        lemma_published_timestamps_monotone(m, ys);
        lemma_published_covered(m, ys);
        let prev = run_store(m, ys);
        let pubs = published(m, ys);
        if updates(prev, x.0, x.1) {
            lemma_update_moves_forward(prev, x.0, x.1);
            let np = published(m, xs);
            assert(np == pubs.push(x));
            assert forall|i: int, j: int|
                0 <= i < j < np.len() && #[trigger] np[i].0 == #[trigger] np[j].0 implies rec_ts(np[i].1) <= rec_ts(
                np[j].1) by {
                if j == pubs.len() {
                    assert(np[i] == pubs[i]);
                    assert(pubs[i].0 == x.0);
                } else {
                    assert(np[i] == pubs[i] && np[j] == pubs[j]);
                }
            }
        }
    }
}

/// Where a stored record is as new as a published one of its asset, it is
/// that same version.
pub open spec fn same_version_kept(m: Map<Seq<char>, RedisBookRecord>, pubs: Seq<(Seq<char>, RedisBookRecord)>) -> bool {
    forall|i: int|
        0 <= i < pubs.len() && rec_ts(m[#[trigger] pubs[i].0]) == rec_ts(pubs[i].1) ==> m[pubs[i].0].hash@
            == pubs[i].1.hash@
}

proof fn lemma_versions_kept(m: Map<Seq<char>, RedisBookRecord>, xs: Seq<(Seq<char>, RedisBookRecord)>)
    requires
        versioned(xs),
    ensures
        same_version_kept(run_store(m, xs), published(m, xs)),
        forall|i: int, j: int|
            0 <= i < j < published(m, xs).len() && #[trigger] published(m, xs)[i].0 == #[trigger] published(
                m,
                xs,
            )[j].0 ==> published(m, xs)[i].1.hash@ != published(m, xs)[j].1.hash@,
    decreases xs.len(),
{
    if xs.len() > 0 {
        let ys = xs.drop_last();
        let x = xs.last();
        assert forall|i: int, j: int|
            0 <= i < ys.len() && 0 <= j < ys.len() && #[trigger] ys[i].0 == #[trigger] ys[j].0
                && ts_value(ys[i].1.timestamp@) is Some && ts_value(ys[j].1.timestamp@) is Some implies (
            ys[i].1.hash@ == ys[j].1.hash@ <==> rec_ts(ys[i].1) == rec_ts(ys[j].1)) by {
            assert(xs[i] == ys[i] && xs[j] == ys[j]);
        }
        lemma_versions_kept(m, ys);
        lemma_published_covered(m, ys);
        let prev = run_store(m, ys);
        let pubs = published(m, ys);
        let last = xs.len() - 1;
        assert(xs[last] == x);
        if updates(prev, x.0, x.1) {
            lemma_update_moves_forward(prev, x.0, x.1);
            let next = run_store(m, xs);
            let np = published(m, xs);
            assert(np == pubs.push(x));
            assert(next == prev.insert(x.0, x.1));
            assert forall|i: int| 0 <= i < pubs.len() && pubs[i].0 == x.0 implies pubs[i].1.hash@ != x.1.hash@ by {
                assert(xs.contains(pubs[i]));
                let k = choose|k: int| 0 <= k < xs.len() && xs[k] == pubs[i];
                assert(xs[k].0 == xs[last].0);
                if pubs[i].1.hash@ == x.1.hash@ {
                    assert(rec_ts(pubs[i].1) == rec_ts(x.1));
                    assert(rec_ts(prev[x.0]) >= rec_ts(pubs[i].1));
                    assert(prev[pubs[i].0].hash@ == pubs[i].1.hash@);
                }
            }
            assert forall|i: int|
                0 <= i < np.len() && rec_ts(next[#[trigger] np[i].0]) == rec_ts(np[i].1) implies next[np[i].0].hash@
                == np[i].1.hash@ by {
                if i < pubs.len() {
                    assert(np[i] == pubs[i]);
                    if pubs[i].0 == x.0 {
                        assert(xs.contains(pubs[i]));
                        let k = choose|k: int| 0 <= k < xs.len() && xs[k] == pubs[i];
                        assert(xs[k].0 == xs[last].0);
                    }
                }
            }
            assert forall|i: int, j: int|
                0 <= i < j < np.len() && #[trigger] np[i].0 == #[trigger] np[j].0 implies np[i].1.hash@ != np[j].1.hash@ by {
                if j == pubs.len() {
                    assert(np[i] == pubs[i]);
                } else {
                    assert(np[i] == pubs[i] && np[j] == pubs[j]);
                }
            }
        } else {
            assert(run_store(m, xs) == prev);
        }
    }
}

/// At most one publish per change: where, for each asset, a hash and a
/// timestamp name the same version, no two published records share both
/// asset id and hash.
pub proof fn lemma_publish_at_most_once(m: Map<Seq<char>, RedisBookRecord>, xs: Seq<(Seq<char>, RedisBookRecord)>)
    requires
        versioned(xs),
    ensures
        forall|i: int, j: int|
            0 <= i < j < published(m, xs).len() && #[trigger] published(m, xs)[i].0 == #[trigger] published(
                m,
                xs,
            )[j].0 ==> published(m, xs)[i].1.hash@ != published(m, xs)[j].1.hash@,
{
    lemma_versions_kept(m, xs);
}

/// The pub/sub channel on which written snapshots are announced.
pub const UPDATES_CHANNEL: &'static str = "ob_updates";

/// The word the update script answers with.
pub open spec fn reply_word(o: CasOutcome) -> Seq<char> {
    match o {
        CasOutcome::Updated => "updated"@,
        CasOutcome::SkipHash => "skip_hash"@,
        CasOutcome::SkipTs => "skip_ts"@,
    }
}

impl CasOutcome {
    /// The script's answer for this outcome.
    pub fn as_str(&self) -> (r: &'static str)
        ensures
            r@ == reply_word(*self),
    {
        match self {
            CasOutcome::Updated => "updated",
            CasOutcome::SkipHash => "skip_hash",
            CasOutcome::SkipTs => "skip_ts",
        }
    }

    /// The outcome that the script's answer names, if it names one.
    pub fn from_reply(reply: &String) -> (r: Option<CasOutcome>)
        ensures
            r matches Some(o) ==> reply@ == reply_word(o),
            r is None ==> forall|o: CasOutcome| reply@ != #[trigger] reply_word(o),
    {
        proof {
            reveal_strlit("updated");
            reveal_strlit("skip_hash");
            reveal_strlit("skip_ts");
        }
        if *reply == String::from_str("updated") {
            Some(CasOutcome::Updated)
        } else if *reply == String::from_str("skip_hash") {
            Some(CasOutcome::SkipHash)
        } else if *reply == String::from_str("skip_ts") {
            Some(CasOutcome::SkipTs)
        } else {
            None
        }
    }

    /// Whether the snapshot behind this outcome is announced: only a write
    /// is.
    pub fn should_publish(&self) -> (r: bool)
        ensures
            r == (*self == CasOutcome::Updated),
    {
        match self {
            CasOutcome::Updated => true,
            _ => false,
        }
    }
}

/// The store key of an asset's record.
pub fn record_key(asset_id: &String) -> (r: String)
    ensures
        r@ == "ob:"@ + asset_id@,
{
    let key = String::from_str("ob:");
    key.concat(asset_id.as_str())
}

/// The record that an update with snapshot `ob` writes: its serialized
/// levels, its hash, timestamp and market, and the ingest time.
pub fn candidate_record(ob: &OrderBookSnapshot, bids_json: String, asks_json: String, now_ms: i64) -> (r:
    RedisBookRecord)
    ensures
        r.bids == bids_json,
        r.asks == asks_json,
        r.hash == ob.hash,
        r.timestamp == ob.timestamp,
        r.updated_at == now_ms,
        r.market == ob.market,
{
    RedisBookRecord {
        bids: bids_json,
        asks: asks_json,
        hash: ob.hash.clone(),
        timestamp: ob.timestamp.clone(),
        updated_at: now_ms,
        market: ob.market.clone(),
    }
}

/// A record read back field by field: complete only when every field is
/// present.
pub fn assemble_record(
    bids: Option<String>,
    asks: Option<String>,
    hash: Option<String>,
    timestamp: Option<String>,
    updated_at: Option<i64>,
    market: Option<String>,
) -> (r: Option<RedisBookRecord>)
    ensures
        r is Some <==> (bids is Some && asks is Some && hash is Some && timestamp is Some && updated_at is Some
            && market is Some),
        r matches Some(rec) ==> rec.bids == bids->Some_0 && rec.asks == asks->Some_0 && rec.hash == hash->Some_0
            && rec.timestamp == timestamp->Some_0 && rec.updated_at == updated_at->Some_0 && rec.market
            == market->Some_0,
{
    match (bids, asks, hash, timestamp, updated_at, market) {
        (Some(bids), Some(asks), Some(hash), Some(timestamp), Some(updated_at), Some(market)) => Some(
            RedisBookRecord { bids, asks, hash, timestamp, updated_at, market },
        ),
        _ => None,
    }
}

} // verus!
