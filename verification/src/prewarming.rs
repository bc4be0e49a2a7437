//! Strategies prepared ahead of use: each entry lives for a time-to-live
//! after it was made, and the manager keeps at most one entry per strategy.
use vstd::prelude::*;
use std::time::{Duration, Instant};
use crate::error::{ErrorKind, IsolateError};
use crate::models::Strategy;
use crate::keyed::{
    find_by, keys_distinct, lemma_find_after_write, lemma_find_at, lemma_remove_push, lemma_upsert_at,
    lemma_writes_keep_keys_distinct, remove_by, upsert_by,
};
use crate::text::owned;

verus! {

#[verifier::external_type_specification]
#[verifier::external_body]
pub struct ExInstant(Instant);

/// Calls `Instant::now`: a reading of the monotonic clock (nothing is
/// stated of it).
#[verifier::external_body]
fn instant_now() -> (r: Instant) {
    Instant::now()
}

/// Calls `Instant::elapsed`: the time since the reading (it depends on the
/// clock; nothing is stated of it).
#[verifier::external_body]
fn elapsed_since(at: &Instant) -> (r: Duration) {
    at.elapsed()
}

/// Calls `Duration::as_nanos`; nothing is stated of the value, which
/// depends on an opaque `Duration`.
#[verifier::external_body]
fn duration_nanos(d: &Duration) -> (r: u128) {
    d.as_nanos()
}

/// The longest time-to-live a `Duration` holds: `u64::MAX` seconds and
/// 999,999,999 nanoseconds.
pub open spec fn max_ttl_nanos() -> int {
    18446744073709551615int * 1_000_000_000 + 999_999_999
}

/// Whether an entry is expired after `elapsed` nanoseconds: strictly more
/// than its time-to-live has passed.
pub open spec fn expired_after(elapsed: u128, ttl_nanos: u128) -> bool {
    elapsed > ttl_nanos
}

/// Nanoseconds left of the time-to-live after `elapsed`, none when it has
/// run out.
pub open spec fn remaining_after(elapsed: u128, ttl_nanos: u128) -> int {
    if elapsed >= ttl_nanos {
        0
    } else {
        ttl_nanos - elapsed
    }
}

/// A strategy prepared ahead of use.
pub struct PrewarmedStrategy {
    /// The strategy.
    pub strategy: Strategy,
    /// When the entry was made.
    pub created_at: Instant,
    /// Time-to-live, in nanoseconds.
    pub ttl_nanos: u128,
    /// Whether the strategy is ready to start.
    pub ready: bool,
    /// Why preparing it failed, if it did.
    pub error: Option<String>,
}

/// What is shown of a prepared strategy.
pub struct PrewarmedStrategyInfo {
    pub strategy_id: String,
    pub strategy_name: String,
    pub ready: bool,
    pub error: Option<String>,
    pub remaining_ttl_secs: u64,
}

impl PrewarmedStrategy {
    /// A ready entry made now.
    pub fn new(strategy: Strategy, ttl_nanos: u128) -> (r: Self)
        requires
            ttl_nanos <= max_ttl_nanos(),
        ensures
            r.strategy == strategy,
            r.ttl_nanos == ttl_nanos,
            r.ready,
            r.error is None,
    {
        PrewarmedStrategy { strategy, created_at: instant_now(), ttl_nanos, ready: true, error: None }
    }

    /// An entry made now for a strategy that failed to prepare.
    pub fn with_error(strategy: Strategy, error: String, ttl_nanos: u128) -> (r: Self)
        requires
            ttl_nanos <= max_ttl_nanos(),
        ensures
            r.strategy == strategy,
            r.ttl_nanos == ttl_nanos,
            !r.ready,
            r.error == Some(error),
    {
        PrewarmedStrategy { strategy, created_at: instant_now(), ttl_nanos, ready: false, error: Some(error) }
    }

    /// Whether the entry is expired after `elapsed` nanoseconds.
    pub fn is_expired_after(&self, elapsed: u128) -> (r: bool)
        ensures
            r == expired_after(elapsed, self.ttl_nanos),
    {
        elapsed > self.ttl_nanos
    }

    /// Nanoseconds left after `elapsed` nanoseconds.
    pub fn remaining_ttl_after(&self, elapsed: u128) -> (r: u128)
        ensures
            r == remaining_after(elapsed, self.ttl_nanos),
    {
        let ttl = self.ttl_nanos;
        if elapsed >= ttl {
            0
        } else {
            ttl - elapsed
        }
    }

    /// Whether the entry is expired now (see [`expired_after`]; the time
    /// since it was made is read from the clock).
    pub fn is_expired(&self) -> (r: bool) {
        let e = duration_nanos(&elapsed_since(&self.created_at));
        self.is_expired_after(e)
    }

    /// Nanoseconds left now (see [`remaining_after`]; the time since it was
    /// made is read from the clock).
    pub fn remaining_ttl(&self) -> (r: u128)
        ensures
            r <= self.ttl_nanos,
    {
        let e = duration_nanos(&elapsed_since(&self.created_at));
        self.remaining_ttl_after(e)
    }

    /// What is shown of the entry when `remaining` nanoseconds are left: the
    /// remaining time in whole seconds.
    pub fn info_with_remaining(&self, remaining: u128) -> (r: PrewarmedStrategyInfo)
        requires
            remaining / 1_000_000_000 <= u64::MAX,
        ensures
            r.strategy_id == self.strategy.id,
            r.strategy_name == self.strategy.name,
            r.ready == self.ready,
            r.error == self.error,
            r.remaining_ttl_secs == remaining / 1_000_000_000,
    {
        PrewarmedStrategyInfo {
            strategy_id: self.strategy.id.clone(),
            strategy_name: self.strategy.name.clone(),
            ready: self.ready,
            error: match &self.error {
                Some(e) => Some(e.clone()),
                None => None,
            },
            remaining_ttl_secs: (remaining / 1_000_000_000) as u64,
        }
    }
}

/// Why a strategy cannot be prepared: it has no launch template, or its id
/// or name is empty.
pub open spec fn prewarm_problem(s: Strategy) -> Option<Seq<char>> {
    if s.socks_template is None && s.global_template is None {
        Some("Strategy has no launch templates"@)
    } else if s.id@.len() == 0 {
        Some("Strategy ID cannot be empty"@)
    } else if s.name@.len() == 0 {
        Some("Strategy name cannot be empty"@)
    } else {
        None
    }
}

/// Checks that a strategy can be prepared (see [`prewarm_problem`]).
pub fn validate_for_prewarm(strategy: &Strategy) -> (r: Result<(), IsolateError>)
    ensures
        match prewarm_problem(*strategy) {
            Some(m) => r matches Err(e) && e@ == (ErrorKind::Validation, m),
            None => r is Ok,
        },
{
    if strategy.socks_template.is_none() && strategy.global_template.is_none() {
        return Err(IsolateError::Validation(owned("Strategy has no launch templates")));
    }
    if crate::text::chars_of(strategy.id.as_str()).len() == 0 {
        return Err(IsolateError::Validation(owned("Strategy ID cannot be empty")));
    }
    if crate::text::chars_of(strategy.name.as_str()).len() == 0 {
        return Err(IsolateError::Validation(owned("Strategy name cannot be empty")));
    }
    Ok(())
}


/// Default time-to-live of a prepared strategy, in seconds.
pub const DEFAULT_TTL_SECS: u64 = 300;

/// The key of an entry: its strategy's id.
pub open spec fn entry_key() -> spec_fn(PrewarmedStrategy) -> Seq<char> {
    |e: PrewarmedStrategy| e.strategy.id@
}

/// The entry for the strategy `id`.
pub open spec fn lookup(s: Seq<PrewarmedStrategy>, id: Seq<char>) -> Option<PrewarmedStrategy> {
    find_by(s, entry_key(), id)
}

/// The entries with `e` stored for its strategy: in place of the entry
/// for it, or at the end when there is none.
pub open spec fn upsert(s: Seq<PrewarmedStrategy>, e: PrewarmedStrategy) -> Seq<PrewarmedStrategy> {
    upsert_by(s, entry_key(), e)
}

/// At most one entry per strategy.
pub open spec fn one_per_strategy(s: Seq<PrewarmedStrategy>) -> bool {
    keys_distinct(s, entry_key())
}

/// The entries of strategies other than `id`.
pub open spec fn without_entry(s: Seq<PrewarmedStrategy>, id: Seq<char>) -> Seq<PrewarmedStrategy> {
    remove_by(s, entry_key(), id)
}

/// `idx` picks, in increasing order, the positions in `s` of the `n` items
/// of a subsequence.
pub open spec fn picks(idx: Seq<int>, n: int, s_len: int) -> bool {
    &&& idx.len() == n
    &&& forall|k: int| 0 <= k < n ==> 0 <= #[trigger] idx[k] < s_len
    &&& forall|a: int, b: int| 0 <= a < b < n ==> #[trigger] idx[a] < #[trigger] idx[b]
}

/// Whether `info` shows the entry `e`.
pub open spec fn shows(info: PrewarmedStrategyInfo, e: PrewarmedStrategy) -> bool {
    &&& info.strategy_id@ == e.strategy.id@
    &&& info.strategy_name@ == e.strategy.name@
    &&& info.ready == e.ready
    &&& info.error == e.error
    &&& info.remaining_ttl_secs <= e.ttl_nanos / 1_000_000_000
}

/// An entry freshly made for `s` with the time-to-live `ttl_nanos`: ready
/// when the strategy can be prepared, otherwise holding why not.
pub open spec fn fresh_entry(e: PrewarmedStrategy, s: Strategy, ttl_nanos: u128) -> bool {
    &&& e.strategy == s
    &&& e.ttl_nanos == ttl_nanos
    &&& match prewarm_problem(s) {
        None => e.ready && e.error is None,
        Some(m) => !e.ready && (e.error matches Some(x) && x@ == m),
    }
}

/// The prepared strategies, at most one per strategy.
pub struct PrewarmingManager {
    prewarmed: Vec<PrewarmedStrategy>,
    default_ttl_nanos: u128,
}

/// The manager's state as values.
pub struct PrewarmView {
    /// The entries, in the order they were first made.
    pub entries: Seq<PrewarmedStrategy>,
    /// Time-to-live of new entries, in nanoseconds.
    pub ttl_nanos: u128,
}

impl PrewarmingManager {
    /// Every time-to-live fits a `Duration`.
    #[verifier::type_invariant]
    spec fn ttls_bounded(self) -> bool {
        &&& self.default_ttl_nanos <= max_ttl_nanos()
        &&& forall|k: int| 0 <= k < self.prewarmed@.len() ==> #[trigger] self.prewarmed@[k].ttl_nanos <= max_ttl_nanos()
    }
}

impl View for PrewarmingManager {
    type V = PrewarmView;

    closed spec fn view(&self) -> PrewarmView {
        PrewarmView { entries: self.prewarmed@, ttl_nanos: self.default_ttl_nanos }
    }
}

impl Default for PrewarmingManager {
    fn default() -> (r: Self)
        ensures
            r@.entries.len() == 0,
            r@.ttl_nanos == DEFAULT_TTL_SECS * 1_000_000_000,
    {
        PrewarmingManager::new()
    }
}

impl PrewarmingManager {
    /// A manager whose entries live five minutes.
    pub fn new() -> (r: Self)
        ensures
            r@.entries.len() == 0,
            r@.ttl_nanos == DEFAULT_TTL_SECS * 1_000_000_000,
    {
        PrewarmingManager { prewarmed: Vec::new(), default_ttl_nanos: 300_000_000_000 }
    }

    /// A manager whose entries live `ttl_secs` seconds.
    pub fn with_ttl(ttl_secs: u64) -> (r: Self)
        ensures
            r@.entries.len() == 0,
            r@.ttl_nanos == ttl_secs * 1_000_000_000,
    {
        PrewarmingManager { prewarmed: Vec::new(), default_ttl_nanos: (ttl_secs as u128) * 1_000_000_000 }
    }

    fn find_index(&self, strategy_id: &str) -> (r: Option<usize>)
        ensures
            match r {
                Some(k) => k < self@.entries.len() && self@.entries[k as int].strategy.id@ == strategy_id@
                    && forall|j: int| 0 <= j < k ==> #[trigger] self@.entries[j].strategy.id@ != strategy_id@,
                None => forall|j: int|
                    0 <= j < self@.entries.len() ==> #[trigger] self@.entries[j].strategy.id@ != strategy_id@,
            },
            match r {
                Some(k) => lookup(self@.entries, strategy_id@) == Some(self@.entries[k as int]),
                None => lookup(self@.entries, strategy_id@) is None,
            },
    {
        let ghost s = self@.entries;
        let mut i: usize = 0;
        while i < self.prewarmed.len()
            invariant
                s == self@.entries,
                i <= s.len(),
                forall|j: int| 0 <= j < i ==> #[trigger] s[j].strategy.id@ != strategy_id@,
            decreases s.len() - i,
        {
            if crate::text::str_eq(self.prewarmed[i].strategy.id.as_str(), strategy_id) {
                proof {
                    lemma_find_at(s, entry_key(), strategy_id@, i as int);
                }
                return Some(i);
            }
            i = i + 1;
        }
        proof {
            lemma_find_at(s, entry_key(), strategy_id@, i as int);
        }
        None
    }

    /// Prepares a strategy for a quick start (see [`fresh_entry`]) and
    /// describes it; an entry that is still alive is reused. Whether an
    /// existing entry is alive is read from the clock.
    pub fn prewarm_strategy(&mut self, strategy: Strategy) -> (r: Result<PrewarmedStrategyInfo, IsolateError>)
        ensures
            r is Ok,
            r->Ok_0.strategy_id@ == strategy.id@,
            r->Ok_0.strategy_name@ == strategy.name@,
            final(self)@.ttl_nanos == old(self)@.ttl_nanos,
            one_per_strategy(old(self)@.entries) ==> one_per_strategy(final(self)@.entries),
            ({
                let info = r->Ok_0;
                let reused = (lookup(old(self)@.entries, strategy.id@) matches Some(e) && final(self)@.entries
                    == old(self)@.entries && info.ready == e.ready && info.error == e.error
                    && info.remaining_ttl_secs <= e.ttl_nanos / 1_000_000_000);
                let fresh = exists|e: PrewarmedStrategy|
                    fresh_entry(e, strategy, old(self)@.ttl_nanos) && final(self)@.entries == upsert(
                        old(self)@.entries,
                        e,
                    ) && #[trigger] shows(info, e);
                &&& reused || fresh
                &&& lookup(old(self)@.entries, strategy.id@) is None ==> fresh
            }),
    {
        proof {
            use_type_invariant(&*self);
        }
        let strategy_id = strategy.id.clone();
        let strategy_name = strategy.name.clone();
        let found = self.find_index(strategy_id.as_str());
        if let Some(k) = found {
            let existing = &self.prewarmed[k];
            if !existing.is_expired() {
                let remaining = existing.remaining_ttl();
                let error = match &existing.error {
                    Some(e) => Some(e.clone()),
                    None => None,
                };
                proof {
                    assert(remaining / 1_000_000_000 <= existing.ttl_nanos / 1_000_000_000) by (nonlinear_arith)
                        requires
                            remaining <= existing.ttl_nanos,
                    ;
                }
                return Ok(PrewarmedStrategyInfo {
                    strategy_id,
                    strategy_name,
                    ready: existing.ready,
                    error,
                    remaining_ttl_secs: (remaining / 1_000_000_000) as u64,
                });
            }
        }
        let ttl = self.default_ttl_nanos;
        let prewarmed = match validate_for_prewarm(&strategy) {
            Ok(()) => PrewarmedStrategy::new(strategy, ttl),
            Err(e) => {
                let msg = e.to_string();
                PrewarmedStrategy::with_error(strategy, msg, ttl)
            },
        };
        let remaining = prewarmed.remaining_ttl();
        proof {
            assert(remaining / 1_000_000_000 <= prewarmed.ttl_nanos / 1_000_000_000) by (nonlinear_arith)
                requires
                    remaining <= prewarmed.ttl_nanos,
            ;
        }
        let info = prewarmed.info_with_remaining(remaining);
        let ghost e = prewarmed;
        let ghost old_entries = self@.entries;
        let mut entries: Vec<PrewarmedStrategy> = Vec::new();
        std::mem::swap(&mut entries, &mut self.prewarmed);
        match found {
            Some(k) => {
                entries.set(k, prewarmed);
                proof {
                    lemma_upsert_at(old_entries, entry_key(), e, k as int);
                }
            },
            None => {
                entries.push(prewarmed);
                proof {
                    lemma_upsert_at(old_entries, entry_key(), e, old_entries.len() as int);
                }
            },
        }
        proof {
            assert forall|j: int| 0 <= j < entries@.len() implies #[trigger] entries@[j].ttl_nanos <= max_ttl_nanos() by {
                if entries@[j] != e {
                    assert(old_entries[j] == entries@[j]);
                }
            }
        }
        self.prewarmed = entries;
        proof {
            assert(shows(info, e));
            if one_per_strategy(old_entries) {
                lemma_writes_keep_keys_distinct(old_entries, entry_key(), e, e.strategy.id@);
            }
        }
        Ok(info)
    }

    /// The entry for the strategy; none when there is none or it has
    /// expired (read from the clock).
    pub fn get_prewarmed(&self, strategy_id: &str) -> (r: Option<&PrewarmedStrategy>)
        ensures
            match r {
                Some(e) => lookup(self@.entries, strategy_id@) == Some(*e),
                None => true,
            },
            lookup(self@.entries, strategy_id@) is None ==> r is None,
    {
        match self.find_index(strategy_id) {
            Some(k) => {
                let e = &self.prewarmed[k];
                if !e.is_expired() {
                    Some(e)
                } else {
                    None
                }
            },
            None => None,
        }
    }

    /// Descriptions of the entries that have not expired (read from the
    /// clock), in the order of the entries.
    pub fn get_all_prewarmed(&self) -> (r: Vec<PrewarmedStrategyInfo>)
        ensures
            exists|idx: Seq<int>|
                picks(idx, r@.len() as int, self@.entries.len() as int) && forall|k: int|
                    0 <= k < r@.len() ==> shows(#[trigger] r@[k], self@.entries[idx[k]]),
    {
        proof {
            use_type_invariant(self);
        }
        let ghost s = self@.entries;
        let mut out: Vec<PrewarmedStrategyInfo> = Vec::new();
        let ghost mut idx: Seq<int> = Seq::empty();
        let mut i: usize = 0;
        while i < self.prewarmed.len()
            invariant
                s == self@.entries,
                i <= s.len(),
                forall|j: int| 0 <= j < s.len() ==> #[trigger] s[j].ttl_nanos <= max_ttl_nanos(),
                picks(idx, out@.len() as int, i as int),
                forall|k: int| 0 <= k < out@.len() ==> shows(#[trigger] out@[k], s[idx[k]]),
            decreases s.len() - i,
        {
            let e = &self.prewarmed[i];
            if !e.is_expired() {
                let remaining = e.remaining_ttl();
                proof {
                    assert(remaining / 1_000_000_000 <= e.ttl_nanos / 1_000_000_000) by (nonlinear_arith)
                        requires
                            remaining <= e.ttl_nanos,
                    ;
                }
                let info = e.info_with_remaining(remaining);
                out.push(info);
                proof {
                    idx = idx.push(i as int);
                }
            }
            i = i + 1;
        }
        out
    }

    /// Drops every entry.
    pub fn clear_all(&mut self)
        ensures
            final(self)@.entries.len() == 0,
            final(self)@.ttl_nanos == old(self)@.ttl_nanos,
    {
        proof {
            use_type_invariant(&*self);
        }
        self.prewarmed = Vec::new();
    }

    /// Drops the entries that have expired (read from the clock) and
    /// returns how many were dropped; the others stay in their order.
    pub fn cleanup_expired(&mut self) -> (r: usize)
        ensures
            final(self)@.ttl_nanos == old(self)@.ttl_nanos,
            r == old(self)@.entries.len() - final(self)@.entries.len(),
            one_per_strategy(old(self)@.entries) ==> one_per_strategy(final(self)@.entries),
            exists|idx: Seq<int>|
                picks(idx, final(self)@.entries.len() as int, old(self)@.entries.len() as int) && forall|k: int|
                    0 <= k < final(self)@.entries.len() ==> #[trigger] final(self)@.entries[k] == old(
                        self,
                    )@.entries[idx[k]],
    {
        proof {
            use_type_invariant(&*self);
        }
        let ghost s = self@.entries;
        let before = self.prewarmed.len();
        let mut rest: Vec<PrewarmedStrategy> = Vec::new();
        std::mem::swap(&mut rest, &mut self.prewarmed);
        let mut kept: Vec<PrewarmedStrategy> = Vec::new();
        let ghost mut idx: Seq<int> = Seq::empty();
        let mut i: usize = 0;
        while rest.len() > 0
            invariant
                s.len() == before,
                i + rest@.len() == s.len(),
                rest@ == s.skip(i as int),
                kept@.len() <= i,
                forall|j: int| 0 <= j < s.len() ==> #[trigger] s[j].ttl_nanos <= max_ttl_nanos(),
                picks(idx, kept@.len() as int, i as int),
                forall|k: int| 0 <= k < kept@.len() ==> #[trigger] kept@[k] == s[idx[k]],
            decreases rest@.len(),
        {
            let e = rest.remove(0);
            proof {
                assert(e == s[i as int]);
                assert(rest@ =~= s.skip(i as int + 1));
            }
            if !e.is_expired() {
                kept.push(e);
                proof {
                    idx = idx.push(i as int);
                }
            }
            i = i + 1;
        }
        proof {
            assert forall|k: int| 0 <= k < kept@.len() implies #[trigger] kept@[k].ttl_nanos <= max_ttl_nanos() by {
                assert(kept@[k] == s[idx[k]]);
            }
        }
        self.prewarmed = kept;
        proof {
            assert(picks(idx, self@.entries.len() as int, s.len() as int));
            assert forall|k: int| 0 <= k < self@.entries.len() implies #[trigger] self@.entries[k] == s[idx[k]] by {}
            if one_per_strategy(s) {
                let t = self@.entries;
                assert forall|a: int, b: int| 0 <= a < b < t.len() implies (entry_key())(#[trigger] t[a]) != (
                entry_key())(#[trigger] t[b]) by {
                    assert(t[a] == s[idx[a]] && t[b] == s[idx[b]]);
                    assert(idx[a] < idx[b]);
                }
            }
        }
        before - self.prewarmed.len()
    }

    /// Drops the entry for the strategy; whether there was one.
    pub fn remove(&mut self, strategy_id: &str) -> (r: bool)
        ensures
            r == (lookup(old(self)@.entries, strategy_id@) is Some),
            final(self)@.entries == without_entry(old(self)@.entries, strategy_id@),
            final(self)@.ttl_nanos == old(self)@.ttl_nanos,
            one_per_strategy(old(self)@.entries) ==> one_per_strategy(final(self)@.entries),
    {
        proof {
            use_type_invariant(&*self);
        }
        let ghost s = self@.entries;
        let before = self.prewarmed.len();
        let had = self.find_index(strategy_id).is_some();
        let mut rest: Vec<PrewarmedStrategy> = Vec::new();
        std::mem::swap(&mut rest, &mut self.prewarmed);
        let mut kept: Vec<PrewarmedStrategy> = Vec::new();
        let mut i: usize = 0;
        proof {
            assert(s.take(0) =~= Seq::<PrewarmedStrategy>::empty());
        }
        while rest.len() > 0
            invariant
                s.len() == before,
                i + rest@.len() == s.len(),
                rest@ == s.skip(i as int),
                kept@ == without_entry(s.take(i as int), strategy_id@),
                forall|j: int| 0 <= j < s.len() ==> #[trigger] s[j].ttl_nanos <= max_ttl_nanos(),
                forall|j: int| 0 <= j < kept@.len() ==> #[trigger] kept@[j].ttl_nanos <= max_ttl_nanos(),
            decreases rest@.len(),
        {
            let e = rest.remove(0);
            proof {
                assert(e == s[i as int]);
                assert(rest@ =~= s.skip(i as int + 1));
                assert(s.take(i as int + 1) =~= s.take(i as int).push(e));
                lemma_remove_push(s.take(i as int), entry_key(), e, strategy_id@);
            }
            if !crate::text::str_eq(e.strategy.id.as_str(), strategy_id) {
                kept.push(e);
            }
            i = i + 1;
        }
        proof {
            assert(s.take(i as int) =~= s);
            if one_per_strategy(s) {
                lemma_writes_keep_keys_distinct(s, entry_key(), s[0], strategy_id@);
            }
        }
        self.prewarmed = kept;
        had
    }

    /// Whether the strategy has an entry that is ready and has not expired
    /// (read from the clock).
    pub fn is_prewarmed(&self, strategy_id: &str) -> (r: bool)
        ensures
            r ==> (lookup(self@.entries, strategy_id@) matches Some(e) && e.ready),
    {
        match self.find_index(strategy_id) {
            Some(k) => {
                let e = &self.prewarmed[k];
                !e.is_expired() && e.ready
            },
            None => false,
        }
    }

    /// The number of entries that have not expired (read from the clock).
    pub fn count(&self) -> (r: usize)
        ensures
            r <= self@.entries.len(),
    {
        let mut n: usize = 0;
        let mut i: usize = 0;
        while i < self.prewarmed.len()
            invariant
                n <= i <= self.prewarmed@.len(),
            decreases self.prewarmed@.len() - i,
        {
            if !self.prewarmed[i].is_expired() {
                n = n + 1;
            }
            i = i + 1;
        }
        n
    }
}

/// What a read gives back of a write: after a strategy is stored, its
/// entry is the stored one and the entries of the other strategies are as
/// they were; after it is removed it has none, and the others are as they
/// were.
pub proof fn lemma_store_then_lookup(s: Seq<PrewarmedStrategy>, e: PrewarmedStrategy, x: Seq<char>)
    ensures
        lookup(upsert(s, e), e.strategy.id@) == Some(e),
        x != e.strategy.id@ ==> lookup(upsert(s, e), x) == lookup(s, x),
        lookup(without_entry(s, e.strategy.id@), e.strategy.id@) is None,
        x != e.strategy.id@ ==> lookup(without_entry(s, e.strategy.id@), x) == lookup(s, x),
{
    lemma_find_after_write(s, entry_key(), e, e.strategy.id@, e.strategy.id@);
    lemma_find_after_write(s, entry_key(), e, e.strategy.id@, x);
}

} // verus!
