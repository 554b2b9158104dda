//! The decision pipeline: one request in, one admit/deny response out.
//!
//! A handler reads the current snapshot once, asks the matching engine for
//! the evaluation set, fans the increments out across a worker pool bounded
//! by the connection pool, and aggregates the per-key results. The response
//! is computed from that single snapshot value; a snapshot published
//! meanwhile is observed only by later requests.

use vstd::prelude::*;
use vstd::string::StringExecFns;

use rayon::iter::IntoParallelRefIterator;
use rayon::iter::ParallelIterator;

use crate::configs::{spec_domain_rules, RateLimitConfigs};
use crate::db::{build_pool, open_redis_client, pool_get, pooled_connection, redis_expire, redis_incr, ConnectionPool};
use crate::decision::{build_increment_tasks, effective_hits, effective_interval, expire_action, lemma_key_equality, over_limit, spec_effective_interval, spec_expire_plan, spec_over_limit, IncrementTask};
use crate::evaluation::{collect_rate_limit_entries, spec_collect, EvalSet};
use crate::rate_limits::RateLimit;
use crate::request::RateLimitRequest;
use crate::response::{limit_response, RateLimitResponse, CODE_OK, CODE_OVER_LIMIT};

verus! {

#[verifier::external_type_specification]
#[verifier::external_body]
#[verifier::reject_recursive_types(T)]
pub struct ExWatchReceiver<T>(tokio::sync::watch::Receiver<T>);

/// The decision service: the snapshot holder's read side, the store
/// connection pool, and the default counter TTL for rules whose unit is
/// unresolved.
pub struct Steward {
    rx: tokio::sync::watch::Receiver<RateLimitConfigs>,
    pool: ConnectionPool,
    ttl: u32,
}

/// Relies on tokio's watch channel: `borrow` yields the value most recently
/// sent (or the channel's initial value) and never a partial one, so a
/// handler observes exactly one snapshot. Which snapshot that is depends on
/// what the refresher has published, so nothing is promised of the value.
#[verifier::external_body]
fn current_configs(rx: &tokio::sync::watch::Receiver<RateLimitConfigs>) -> (c: RateLimitConfigs) {
    rx.borrow().clone()
}

/// Relies on rayon's parallel iterators (par_iter, map, collect): runs the
/// per-key increment concurrently across the worker pool and collects one
/// result per task, in task order. The closure only calls the verified
/// `Steward::increment_entry` and copies the task's own key, so each store
/// increment happens under exactly the planned key; the returned rates come
/// from the store and nothing is promised of them.
#[verifier::external_body]
fn fan_out_increments(steward: &Steward, tasks: &Vec<IncrementTask>, hits: u32) -> (r: Vec<
    (String, i64),
>)
    ensures
        r@.len() == tasks@.len(),
        forall|i: int| 0 <= i < r@.len() ==> (#[trigger] r@[i]).0@ == tasks@[i].key@,
{
    tasks.par_iter().map(
        |t: &IncrementTask|
            (t.key.clone(), steward.increment_entry(t.key.as_str(), &hits, Some(t.interval)).0),
    ).collect()
}

/// The evaluation view a request yields under a snapshot: empty when the
/// snapshot does not hold the request's domain.
pub open spec fn spec_evaluation(configs: RateLimitConfigs, request: RateLimitRequest) -> Seq<
    (Seq<char>, RateLimit),
> {
    match spec_domain_rules(configs@, request.domain@) {
        Option::Some(rules) => spec_collect(
            request.domain@,
            request.descriptors@,
            rules,
            Seq::<(Seq<char>, RateLimit)>::empty(),
        ),
        Option::None => Seq::<(Seq<char>, RateLimit)>::empty(),
    }
}

impl Steward {
    /// The default counter TTL this service was built with.
    pub closed spec fn spec_ttl(&self) -> u32 {
        self.ttl
    }

    /// Builds the service against the store at `redis://<redis_host>` with a
    /// connection pool of `pool_size` connections. A store that cannot be
    /// reached is an error, not a panic; the pool crate panics on a pool of
    /// size 0, so that size is excluded.
    pub fn new(
        redis_host: &str,
        default_rate_ttl: u32,
        rx: tokio::sync::watch::Receiver<RateLimitConfigs>,
        pool_size: u32,
    ) -> (r: Option<Steward>)
        requires
            pool_size >= 1,
        ensures
            r matches Some(s) ==> s.spec_ttl() == default_rate_ttl,
    {
        proof {
            reveal_strlit("redis://");
        }
        let mut url = String::from_str("redis://");
        url.append(redis_host);
        match open_redis_client(url.as_str()) {
            Option::Some(client) => {
                match build_pool(client, pool_size) {
                    Option::Some(pool) => Option::Some(
                        Steward { rx, pool, ttl: default_rate_ttl },
                    ),
                    Option::None => Option::None,
                }
            },
            Option::None => Option::None,
        }
    }

    /// Adds `hits` to the counter under `key` and returns the counter's new
    /// value, or 0 when no pooled connection could be acquired or the store
    /// failed (a failure is permissive: the caller sees a rate of 0).
    ///
    /// The second component is the TTL action taken for the key: a returned
    /// value of 1 means this increment created the counter, so exactly then
    /// its TTL is set — to `interval` when one is given, else to the
    /// service's default. A rate of 0 carries no TTL action, so the branch
    /// that could not reach the store issues none.
    pub fn increment_entry(&self, key: &str, hits: &u32, interval: Option<u32>) -> (r: (
        i64,
        Ghost<Option<u32>>,
    ))
        ensures
            r.1@ == spec_expire_plan(r.0, spec_effective_interval(interval, self.spec_ttl())),
    {
        let mut current_rate: i64 = 0;
        let interval_seconds = effective_interval(interval, self.ttl);
        match pool_get(&self.pool) {
            Option::Some(mut pooled) => {
                let conn = pooled_connection(&mut pooled);
                match redis_incr(conn, key, *hits) {
                    Option::Some(n) => {
                        current_rate = n;
                    },
                    Option::None => {},
                }
                match expire_action(current_rate, interval_seconds) {
                    Option::Some(seconds) => {
                        let conn = pooled_connection(&mut pooled);
                        let _set = redis_expire(conn, key, seconds);
                    },
                    Option::None => {},
                }
            },
            Option::None => {},
        }
        (
            current_rate,
            Ghost(spec_expire_plan(current_rate, spec_effective_interval(interval, self.ttl))),
        )
    }

    /// Computes the decision for `request` against one snapshot value.
    ///
    /// A domain the snapshot does not hold, and a request whose evaluation
    /// set comes out empty, are answered permissively with no counter
    /// incremented (the task list is as long as the evaluation set). An
    /// over-limit answer is given exactly when some evaluated key's rate,
    /// as the store returned it, has reached that key's effective limit.
    pub fn rate_limit_decision(&self, configs: &RateLimitConfigs, request: &RateLimitRequest) -> (
        resp: RateLimitResponse)
        ensures
            resp.overall_code == CODE_OK || resp.overall_code == CODE_OVER_LIMIT,
            spec_domain_rules(configs@, request.domain@) is None ==> resp.overall_code == CODE_OK,
            spec_evaluation(*configs, *request).len() == 0 ==> resp.overall_code == CODE_OK,
            resp.raw_body@ == Seq::<u8>::empty(),
    {
        match configs.get(&request.domain) {
            Option::Some(rate_limits) => {
                let mut entries = EvalSet::new();
                collect_rate_limit_entries(request, rate_limits, &mut entries);
                assert(entries@ == spec_evaluation(*configs, *request));
                let hits = effective_hits(request.hits_addend);
                let tasks = build_increment_tasks(&entries, self.ttl);
                let results = fan_out_increments(self, &tasks, hits);
                proof {
                    lemma_key_equality(entries@, tasks@, results@);
                }
                // Each collected rate sits under the very key it was
                // incremented with, which is the evaluation entry's own key:
                // the comparison below reads the same characters the store saw.
                assert(forall|i: int|
                    0 <= i < entries@.len() ==> (#[trigger] results@[i]).0@ == entries@[i].0);
                let over = over_limit(&entries, &results);
                assert(entries@.len() == 0 ==> !spec_over_limit(entries@, results@));
                limit_response(over)
            },
            Option::None => limit_response(false),
        }
    }

    /// Serves one decision request: reads the current snapshot once and
    /// decides against that value alone.
    pub fn should_rate_limit(&self, request: &RateLimitRequest) -> (resp: RateLimitResponse)
        ensures
            resp.overall_code == CODE_OK || resp.overall_code == CODE_OVER_LIMIT,
            resp.raw_body@ == Seq::<u8>::empty(),
    {
        let configs = current_configs(&self.rx);
        self.rate_limit_decision(&configs, request)
    }
}

/// A snapshot that maps no domain answers every request permissively: its
/// lookup fails for every domain, so no rule matches, nothing is incremented
/// and the response is OK.
pub proof fn lemma_empty_snapshot_permissive(configs: RateLimitConfigs, request: RateLimitRequest)
    requires
        configs@.len() == 0,
    ensures
        spec_domain_rules(configs@, request.domain@) is None,
        spec_evaluation(configs, request).len() == 0,
{
}

/// The decision is a function of the one snapshot a handler observed: two
/// snapshots that agree on the request's domain yield the same evaluation
/// view, so the response reflects exactly one snapshot, never a mixture.
pub proof fn lemma_decision_of_one_snapshot(
    c1: RateLimitConfigs,
    c2: RateLimitConfigs,
    request: RateLimitRequest,
)
    requires
        spec_domain_rules(c1@, request.domain@) == spec_domain_rules(c2@, request.domain@),
    ensures
        spec_evaluation(c1, request) == spec_evaluation(c2, request),
{
}

} // verus!
