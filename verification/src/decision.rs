//! The pure half of the decision pipeline.
//!
//! Incrementing counters goes through the store and its outcome depends on
//! shared state; everything around that outcome is a function of plain values
//! and is verified here: which keys are incremented and by how much, when a
//! freshly created counter gets its time-to-live, and how per-key results are
//! aggregated into the admit/deny decision.

use vstd::prelude::*;

use crate::evaluation::EvalSet;
use crate::rate_limits::{interval_seconds, spec_interval_seconds, RateLimit};

verus! {

/// One planned increment: the counter key and the TTL its counter receives
/// if this increment creates it.
#[derive(Clone, Debug)]
pub struct IncrementTask {
    pub key: String,
    pub interval: u32,
}

/// Smallest admissible hit count: a request that asks for zero hits still
/// counts as one, so every evaluated key is incremented by at least 1.
pub fn effective_hits(hits_addend: u32) -> (d: u32)
    ensures
        d >= 1,
        d == if hits_addend == 0 {
            1u32
        } else {
            hits_addend
        },
{
    if hits_addend == 0 {
        1
    } else {
        hits_addend
    }
}

/// The interval an increment's TTL decision uses: the caller's choice when
/// one is given, else the configured default TTL.
pub open spec fn spec_effective_interval(interval: Option<u32>, default_ttl: u32) -> u32 {
    match interval {
        Option::Some(i) => i,
        Option::None => default_ttl,
    }
}

/// Selects the interval an increment's TTL decision uses.
pub fn effective_interval(interval: Option<u32>, default_ttl: u32) -> (r: u32)
    ensures
        r == spec_effective_interval(interval, default_ttl),
{
    match interval {
        Option::Some(i) => i,
        Option::None => default_ttl,
    }
}

/// The TTL a counter is given after an increment: a counter whose increment
/// returned 1 was created by it (the store treats an absent key as 0), so it
/// receives the interval of its limit's unit; any other value means the
/// counter already existed and its TTL is left untouched.
pub open spec fn spec_expire_plan(rate: i64, interval: u32) -> Option<u32> {
    if rate == 1 {
        Option::Some(interval)
    } else {
        Option::None
    }
}

/// Decides whether an increment result calls for setting a TTL, and which.
pub fn expire_action(rate: i64, interval: u32) -> (r: Option<u32>)
    ensures
        r == spec_expire_plan(rate, interval),
        rate == 1 ==> r == Option::Some(interval),
        rate != 1 ==> r is None,
{
    if rate == 1 {
        Option::Some(interval)
    } else {
        Option::None
    }
}

/// Plans the increments of an evaluation set: one task per entry, under the
/// entry's own key, with the interval of its limit (or the default TTL where
/// the unit is unresolved).
pub fn build_increment_tasks(entries: &EvalSet, default_ttl: u32) -> (tasks: Vec<IncrementTask>)
    ensures
        tasks@.len() == entries@.len(),
        forall|i: int|
            0 <= i < tasks@.len() ==> (#[trigger] tasks@[i]).key@ == entries@[i].0
                && tasks@[i].interval == spec_interval_seconds(entries@[i].1, default_ttl),
{
    let n = entries.len();
    let mut tasks: Vec<IncrementTask> = Vec::new();
    let mut i: usize = 0;
    while i < n
        invariant
            i <= n,
            n == entries@.len(),
            tasks@.len() == i,
            forall|j: int|
                0 <= j < i ==> (#[trigger] tasks@[j]).key@ == entries@[j].0 && tasks@[j].interval
                    == spec_interval_seconds(entries@[j].1, default_ttl),
        decreases n - i,
    {
        let e = entries.get(i);
        let interval = interval_seconds(&e.limit, default_ttl);
        tasks.push(IncrementTask { key: e.key.clone(), interval });
        i += 1;
    }
    tasks
}

/// The rate recorded for a key: the first result under that key, or 0 when
/// the store returned none (a failed increment is permissive).
pub open spec fn spec_rate_of(results: Seq<(String, i64)>, key: Seq<char>) -> i64
    decreases results.len(),
{
    if results.len() == 0 {
        0
    } else if results[0].0@ == key {
        results[0].1
    } else {
        spec_rate_of(results.subrange(1, results.len() as int), key)
    }
}

/// Looks a key's rate up in the collected results; a key without a result
/// counts as 0.
pub fn rate_of(results: &Vec<(String, i64)>, key: &String) -> (rate: i64)
    ensures
        rate == spec_rate_of(results@, key@),
{
    let n = results.len();
    proof {
        assert(results@.subrange(0, n as int) =~= results@);
    }
    let mut i: usize = 0;
    while i < n
        invariant
            i <= n,
            n == results@.len(),
            spec_rate_of(results@, key@) == spec_rate_of(
                results@.subrange(i as int, n as int),
                key@,
            ),
        decreases n - i,
    {
        let hit = results[i].0 == *key;
        proof {
            let sub = results@.subrange(i as int, n as int);
            assert(sub[0] == results@[i as int]);
            assert(sub.subrange(1, sub.len() as int) =~= results@.subrange(i as int + 1, n as int));
        }
        if hit {
            return results[i].1;
        }
        i += 1;
    }
    proof {
        assert(results@.subrange(n as int, n as int) =~= Seq::<(String, i64)>::empty());
    }
    0
}

/// The decision over one evaluation set and one set of results: over the
/// limit exactly when some evaluated key's recorded rate has reached its
/// effective limit.
pub open spec fn spec_over_limit(
    entries: Seq<(Seq<char>, RateLimit)>,
    results: Seq<(String, i64)>,
) -> bool {
    exists|i: int|
        0 <= i < entries.len() && spec_rate_of(results, (#[trigger] entries[i]).0)
            >= entries[i].1.requests_per_unit
}

/// Aggregates per-key results: deny as soon as one evaluated key's rate has
/// reached its limit, admit otherwise. The key looked up for the comparison
/// is the evaluation entry's own key, character for character.
pub fn over_limit(entries: &EvalSet, results: &Vec<(String, i64)>) -> (over: bool)
    ensures
        over == spec_over_limit(entries@, results@),
{
    let n = entries.len();
    let mut i: usize = 0;
    while i < n
        invariant
            i <= n,
            n == entries@.len(),
            forall|j: int|
                0 <= j < i ==> spec_rate_of(results@, (#[trigger] entries@[j]).0)
                    < entries@[j].1.requests_per_unit,
        decreases n - i,
    {
        let e = entries.get(i);
        let rate = rate_of(results, &e.key);
        if rate >= e.limit.requests_per_unit {
            return true;
        }
        i += 1;
    }
    false
}

/// The key under which a counter is incremented is, character for character,
/// the key whose rate the limit comparison reads: tasks carry the evaluation
/// entries' own keys, the collected results carry the tasks' keys, and the
/// aggregation looks rates up under the evaluation entries' keys again.
pub proof fn lemma_key_equality(
    entries: Seq<(Seq<char>, RateLimit)>,
    tasks: Seq<IncrementTask>,
    results: Seq<(String, i64)>,
)
    requires
        tasks.len() == entries.len(),
        forall|i: int| 0 <= i < tasks.len() ==> (#[trigger] tasks[i]).key@ == entries[i].0,
        results.len() == tasks.len(),
        forall|i: int| 0 <= i < results.len() ==> (#[trigger] results[i]).0@ == tasks[i].key@,
    ensures
        forall|i: int| 0 <= i < entries.len() ==> (#[trigger] results[i]).0@ == entries[i].0,
{
}

/// Once a key is over its limit, it stays over: if one request found `key`
/// at or above its limit, any later evaluation of the same key under the
/// same limit, whose recorded rate is no smaller (counters only grow while
/// no TTL expires), is over the limit as well.
pub proof fn lemma_decision_monotonic(
    entries1: Seq<(Seq<char>, RateLimit)>,
    results1: Seq<(String, i64)>,
    entries2: Seq<(Seq<char>, RateLimit)>,
    results2: Seq<(String, i64)>,
    key: Seq<char>,
    limit: RateLimit,
)
    requires
        exists|i: int|
            0 <= i < entries1.len() && #[trigger] entries1[i] == (key, limit) && spec_rate_of(
                results1,
                key,
            ) >= limit.requests_per_unit,
        exists|i: int| 0 <= i < entries2.len() && #[trigger] entries2[i] == (key, limit),
        spec_rate_of(results2, key) >= spec_rate_of(results1, key),
    ensures
        spec_over_limit(entries2, results2),
{
    let i2 = choose|i: int| 0 <= i < entries2.len() && #[trigger] entries2[i] == (key, limit);
    assert(spec_rate_of(results2, entries2[i2].0) >= entries2[i2].1.requests_per_unit);
}

} // verus!
