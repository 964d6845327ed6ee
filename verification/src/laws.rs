//! What holds of the pool whatever is done to it.
//!
//! Each function here is a theorem about the model of the pool, proved from
//! the definitions that the contracts of the executable functions use.

use vstd::prelude::*;
use crate::checker::{stable_outcome, stable_step, unstable_outcome, unstable_step, Probe};
use crate::config::CheckerConfig;
use crate::filter::Filter;
use crate::model::{
    has_key, lemma_extend_unstable_wf, lemma_has_key_push, lemma_insert_unstable_wf,
    lemma_move_to_stable_wf, lemma_move_to_unstable_wf, lemma_position, lemma_record_wf,
    lemma_remove_stable_wf, lemma_remove_unstable_wf, lemma_without, position, unique_keys,
    PoolView,
};
use crate::persist::lemma_tiers_unique;
use crate::proxy::{Proxy, SslType};
use crate::stats::_ProxyInfo;

verus! {

/// A key names one endpoint: two proxies have the same key exactly when they
/// have the same address and the same port.
pub proof fn law_key_names_one_endpoint(p: Proxy, q: Proxy)
    ensures
        p.key() == q.key() <==> p.ip == q.ip && p.port == q.port,
{
}

/// Whatever proxies are offered to a pool, in whatever order and however
/// often the same endpoint comes, the two tiers together list each endpoint
/// at most once.
pub proof fn law_offers_keep_endpoints_unique(pool: PoolView, batch: Seq<Proxy>)
    requires
        pool.wf(),
    ensures
        unique_keys(pool.extend_unstable(batch).unstable + pool.extend_unstable(batch).stable),
{
    lemma_extend_unstable_wf(pool, batch);
    lemma_tiers_unique(pool.extend_unstable(batch));
}

/// One call of a method that changes the pool.
pub enum PoolOp {
    /// `insert_unstable` with this proxy.
    InsertUnstable(Proxy),
    /// `move_to_stable` of the endpoint with this key.
    MoveToStable(u64),
    /// `move_to_unstable` of the endpoint with this key.
    MoveToUnstable(u64),
    /// `remove_unstable` of the endpoint with this key.
    RemoveUnstable(u64),
    /// `remove_stable` of the endpoint with this key.
    RemoveStable(u64),
    /// `inc_success_cnt` of the endpoint with this key.
    IncSuccess(u64),
    /// `inc_failed_cnt` of the endpoint with this key.
    IncFailure(u64),
}

impl PoolOp {
    /// The call meets what its method requires of the pool.
    pub open spec fn allowed(self, pool: PoolView) -> bool {
        match self {
            PoolOp::InsertUnstable(_) => true,
            PoolOp::MoveToStable(key) => has_key(pool.unstable, key),
            PoolOp::MoveToUnstable(key) => has_key(pool.stable, key),
            PoolOp::RemoveUnstable(key) => has_key(pool.unstable, key),
            PoolOp::RemoveStable(key) => has_key(pool.stable, key),
            PoolOp::IncSuccess(key) => pool.contains(key) && pool.info[key].has_room(),
            PoolOp::IncFailure(key) => pool.contains(key) && pool.info[key].has_room(),
        }
    }

    /// The pool after the call.
    pub open spec fn apply(self, pool: PoolView) -> PoolView {
        match self {
            PoolOp::InsertUnstable(p) => pool.insert_unstable(p),
            PoolOp::MoveToStable(key) => pool.move_to_stable(key),
            PoolOp::MoveToUnstable(key) => pool.move_to_unstable(key),
            PoolOp::RemoveUnstable(key) => pool.remove_unstable(key),
            PoolOp::RemoveStable(key) => pool.remove_stable(key),
            PoolOp::IncSuccess(key) => pool.record(key, true),
            PoolOp::IncFailure(key) => pool.record(key, false),
        }
    }
}

/// The pool after the calls `ops` in order, or nothing if one of them does
/// not meet what its method requires.
pub open spec fn run(pool: PoolView, ops: Seq<PoolOp>) -> Option<PoolView>
    decreases ops.len(),
{
    if ops.len() == 0 {
        Some(pool)
    } else {
        match run(pool, ops.drop_last()) {
            Some(before) => if ops.last().allowed(before) {
                Some(ops.last().apply(before))
            } else {
                None
            },
            None => None,
        }
    }
}

/// One call keeps the pool's invariant.
pub proof fn law_call_keeps_invariant(pool: PoolView, op: PoolOp)
    requires
        pool.wf(),
        op.allowed(pool),
    ensures
        op.apply(pool).wf(),
{
    match op {
        PoolOp::InsertUnstable(p) => lemma_insert_unstable_wf(pool, p),
        PoolOp::MoveToStable(key) => lemma_move_to_stable_wf(pool, key),
        PoolOp::MoveToUnstable(key) => lemma_move_to_unstable_wf(pool, key),
        PoolOp::RemoveUnstable(key) => lemma_remove_unstable_wf(pool, key),
        PoolOp::RemoveStable(key) => lemma_remove_stable_wf(pool, key),
        PoolOp::IncSuccess(key) => lemma_record_wf(pool, key, true),
        PoolOp::IncFailure(key) => lemma_record_wf(pool, key, false),
    }
}

/// After any calls of the pool's methods, no endpoint is in both tiers, and
/// the endpoints with counters are exactly those that a tier lists.
pub proof fn law_tiers_stay_disjoint(pool: PoolView, ops: Seq<PoolOp>)
    requires
        pool.wf(),
        run(pool, ops) is Some,
    ensures
        run(pool, ops)->0.wf(),
        forall|k: u64|
            !(#[trigger] has_key(run(pool, ops)->0.unstable, k) && has_key(
                run(pool, ops)->0.stable,
                k,
            )),
        forall|k: u64| #[trigger]
            run(pool, ops)->0.info.contains_key(k) <==> has_key(run(pool, ops)->0.unstable, k)
                || has_key(run(pool, ops)->0.stable, k),
    decreases ops.len(),
{
    if ops.len() > 0 {
        law_tiers_stay_disjoint(pool, ops.drop_last());
        law_call_keeps_invariant(run(pool, ops.drop_last())->0, ops.last());
    }
}

/// A move between the tiers keeps the proxy as the pool held it, and its
/// counters.
pub proof fn law_moves_keep_proxy_and_counters(pool: PoolView, key: u64)
    requires
        pool.wf(),
    ensures
        has_key(pool.unstable, key) ==> {
            &&& pool.move_to_stable(key).stable.last() == pool.unstable[position(
                pool.unstable,
                key,
            )]
            &&& pool.move_to_stable(key).stable.last().key() == key
            &&& !has_key(pool.move_to_stable(key).unstable, key)
            &&& pool.move_to_stable(key).info == pool.info
        },
        has_key(pool.stable, key) ==> {
            &&& pool.move_to_unstable(key).unstable.last() == pool.stable[position(
                pool.stable,
                key,
            )]
            &&& pool.move_to_unstable(key).unstable.last().key() == key
            &&& !has_key(pool.move_to_unstable(key).stable, key)
            &&& pool.move_to_unstable(key).info == pool.info
        },
{
    lemma_position(pool.unstable, key);
    lemma_position(pool.stable, key);
    lemma_without(pool.unstable, key, key);
    lemma_without(pool.stable, key, key);
}

/// A removal takes the endpoint out of the pool, counters and all, and
/// leaves every other endpoint as it was.
pub proof fn law_removal_forgets_the_endpoint(pool: PoolView, key: u64, other: u64)
    requires
        pool.wf(),
        other != key,
    ensures
        has_key(pool.unstable, key) ==> {
            &&& !pool.remove_unstable(key).contains(key)
            &&& !has_key(pool.remove_unstable(key).unstable, key)
            &&& !has_key(pool.remove_unstable(key).stable, key)
            &&& has_key(pool.remove_unstable(key).unstable, other) == has_key(
                pool.unstable,
                other,
            )
            &&& pool.remove_unstable(key).contains(other) == pool.contains(other)
            &&& pool.contains(other) ==> pool.remove_unstable(key).info[other] == pool.info[other]
        },
        has_key(pool.stable, key) ==> {
            &&& !pool.remove_stable(key).contains(key)
            &&& !has_key(pool.remove_stable(key).unstable, key)
            &&& !has_key(pool.remove_stable(key).stable, key)
            &&& has_key(pool.remove_stable(key).stable, other) == has_key(pool.stable, other)
            &&& pool.remove_stable(key).contains(other) == pool.contains(other)
            &&& pool.contains(other) ==> pool.remove_stable(key).info[other] == pool.info[other]
        },
{
    lemma_without(pool.unstable, key, key);
    lemma_without(pool.unstable, key, other);
    lemma_without(pool.stable, key, key);
    lemma_without(pool.stable, key, other);
    assert(!(has_key(pool.unstable, key) && has_key(pool.stable, key)));
}

/// The count of failures in a row is zero right after a success; a failure
/// raises it by one until it has reached 255, where it stays.
pub proof fn law_failures_in_a_row(info: _ProxyInfo)
    ensures
        info.after_success().fail_times == 0,
        info.fail_times < 255 ==> info.after_failure().fail_times == info.fail_times + 1,
        info.fail_times == 255 ==> info.after_failure().fail_times == 255,
{
}

/// The same of an endpoint's counters in a pool: counting a probe changes the
/// counters of that endpoint as the law of failures in a row says, and those
/// of no other.
pub proof fn law_counting_in_a_pool(pool: PoolView, key: u64, alive: bool, other: u64)
    requires
        pool.wf(),
        pool.contains(key),
        other != key,
    ensures
        pool.record(key, alive).info[key] == pool.info[key].after_probe(alive),
        alive ==> pool.record(key, alive).info[key].fail_times == 0,
        pool.record(key, alive).contains(other) == pool.contains(other),
        pool.record(key, alive).info[other] == pool.info[other],
        pool.record(key, alive).unstable == pool.unstable,
        pool.record(key, alive).stable == pool.stable,
{
}

/// The counters after the probes `outcomes`, counted in order.
pub open spec fn after_probes(info: _ProxyInfo, outcomes: Seq<bool>) -> _ProxyInfo
    decreases outcomes.len(),
{
    if outcomes.len() == 0 {
        info
    } else {
        after_probes(info, outcomes.drop_last()).after_probe(outcomes.last())
    }
}

/// Every probe is counted once: after any probes, as long as the counters
/// have room for them, successes and failures together have grown by the
/// number of probes, whatever their outcomes and their order.
pub proof fn law_every_probe_counts(info: _ProxyInfo, outcomes: Seq<bool>)
    requires
        info.checks() + outcomes.len() <= u32::MAX,
    ensures
        after_probes(info, outcomes).checks() == info.checks() + outcomes.len(),
        after_probes(info, outcomes).success >= info.success,
        after_probes(info, outcomes).failed >= info.failed,
    decreases outcomes.len(),
{
    if outcomes.len() > 0 {
        law_every_probe_counts(info, outcomes.drop_last());
    }
}

/// A query for a scheme finds exactly the stable proxies of that scheme, in
/// their order, whatever their counters.
pub proof fn law_select_by_scheme(pool: PoolView, ssl_type: SslType)
    ensures
        pool.select(Filter { ssl_type: Some(ssl_type), anonymity: None, stability: None })
            == pool.stable.filter(|p: Proxy| p.ssl_type == ssl_type),
{
    let filter = Filter { ssl_type: Some(ssl_type), anonymity: None, stability: None };
    let by_filter = pool.admitted_by(filter);
    let by_scheme = |p: Proxy| p.ssl_type == ssl_type;
    lemma_filter_agrees(pool.stable, by_filter, by_scheme);
}

/// A query without options finds every stable proxy; a query of a pool
/// without stable proxies finds nothing.
pub proof fn law_select_all_and_none(pool: PoolView, filter: Filter)
    ensures
        filter.spec_is_empty() ==> pool.select(filter) == pool.stable,
        pool.stable.len() == 0 ==> pool.select(filter).len() == 0,
{
    let by_filter = pool.admitted_by(filter);
    if filter.spec_is_empty() {
        lemma_filter_agrees(pool.stable, by_filter, |p: Proxy| true);
        lemma_filter_all(pool.stable);
    }
    pool.stable.lemma_filter_len(by_filter);
}

/// Two tests that agree on every proxy pick the same proxies.
pub proof fn lemma_filter_agrees(
    s: Seq<Proxy>,
    f: spec_fn(Proxy) -> bool,
    g: spec_fn(Proxy) -> bool,
)
    requires
        forall|p: Proxy| #[trigger] f(p) == g(p),
    ensures
        s.filter(f) == s.filter(g),
    decreases s.len(),
{
    reveal(Seq::filter);
    if s.len() > 0 {
        lemma_filter_agrees(s.drop_last(), f, g);
    }
}

/// The test that every proxy meets picks every proxy.
pub proof fn lemma_filter_all(s: Seq<Proxy>)
    ensures
        s.filter(|p: Proxy| true) == s,
    decreases s.len(),
{
    reveal(Seq::filter);
    if s.len() > 0 {
        lemma_filter_all(s.drop_last());
        assert(s.drop_last().push(s.last()) =~= s);
    }
}

/// The promotion rule: after a probe of an unstable proxy, the proxy is
/// stable exactly if, the probe counted, it was probed often enough and its
/// stability reaches the limit. It then has the counters with the probe
/// counted.
pub proof fn law_promotion(pool: PoolView, probe: Probe, config: CheckerConfig)
    requires
        pool.wf(),
        has_key(pool.unstable, probe.proxy.key()),
        pool.info[probe.proxy.key()].has_room(),
    ensures
        ({
            let key = probe.proxy.key();
            let counted = pool.info[key].after_probe(probe.alive);
            let next = unstable_step(pool, probe, config);
            &&& has_key(next.stable, key) <==> counted.checks() >= config.min_cnt_level_up
                && counted.spec_stability().at_least(&config.stability.level_up)
            &&& has_key(next.stable, key) ==> !has_key(next.unstable, key) && next.info[key]
                == counted
        }),
{
    let key = probe.proxy.key();
    let counted = pool.record(key, probe.alive);
    assert(pool.info.contains_key(key));
    lemma_record_wf(pool, key, probe.alive);
    assert(!has_key(pool.stable, key)) by {
        assert(!(has_key(pool.unstable, key) && has_key(pool.stable, key)));
    }
    let verdict = unstable_outcome(pool, probe, config)->0;
    lemma_position(counted.unstable, key);
    lemma_without(counted.unstable, key, key);
    if verdict.spec_promotes() {
        lemma_has_key_push(counted.stable, counted.unstable[position(counted.unstable, key)], key);
    }
}

/// The demotion rule: after a probe of a stable proxy, the proxy is unstable
/// exactly if, the probe counted, its stability is below the limit or it
/// failed too often in a row. It keeps the counters with the probe counted.
pub proof fn law_demotion(pool: PoolView, probe: Probe, config: CheckerConfig)
    requires
        pool.wf(),
        has_key(pool.stable, probe.proxy.key()),
        pool.info[probe.proxy.key()].has_room(),
    ensures
        ({
            let key = probe.proxy.key();
            let counted = pool.info[key].after_probe(probe.alive);
            let next = stable_step(pool, probe, config);
            &&& has_key(next.unstable, key) <==> !counted.spec_stability().at_least(
                &config.stability.level_down,
            ) || counted.fail_times >= config.fail_times.level_down
            &&& has_key(next.unstable, key) <==> !has_key(next.stable, key)
            &&& next.info[key] == counted
        }),
{
    let key = probe.proxy.key();
    let counted = pool.record(key, probe.alive);
    assert(pool.info.contains_key(key));
    lemma_record_wf(pool, key, probe.alive);
    assert(!has_key(pool.unstable, key)) by {
        assert(!(has_key(pool.unstable, key) && has_key(pool.stable, key)));
    }
    let verdict = stable_outcome(pool, probe, config)->0;
    lemma_position(counted.stable, key);
    lemma_without(counted.stable, key, key);
    if verdict.spec_demotes() {
        lemma_has_key_push(counted.unstable, counted.stable[position(counted.stable, key)], key);
    }
}

/// The eviction rules: after a probe of an unstable proxy that is not
/// promoted, the proxy is gone from the pool exactly if, the probe counted,
/// one of the three removal rules applies; the cap on the number of probes
/// alone is enough.
pub proof fn law_eviction(pool: PoolView, probe: Probe, config: CheckerConfig)
    requires
        pool.wf(),
        has_key(pool.unstable, probe.proxy.key()),
        pool.info[probe.proxy.key()].has_room(),
    ensures
        ({
            let key = probe.proxy.key();
            let counted = pool.info[key].after_probe(probe.alive);
            let next = unstable_step(pool, probe, config);
            let promoted = counted.checks() >= config.min_cnt_level_up
                && counted.spec_stability().at_least(&config.stability.level_up);
            let low = counted.checks() >= config.min_cnt_remove
                && !counted.spec_stability().at_least(&config.stability.remove);
            let failing = counted.fail_times >= config.fail_times.remove;
            let capped = counted.checks() >= config.max_cnt_remove;
            &&& !next.contains(key) <==> !promoted && (low || failing || capped)
            &&& !next.contains(key) ==> !has_key(next.unstable, key) && !has_key(next.stable, key)
        }),
{
    let key = probe.proxy.key();
    let counted = pool.record(key, probe.alive);
    assert(pool.info.contains_key(key));
    lemma_record_wf(pool, key, probe.alive);
    assert(!has_key(pool.stable, key)) by {
        assert(!(has_key(pool.unstable, key) && has_key(pool.stable, key)));
    }
    let verdict = unstable_outcome(pool, probe, config)->0;
    lemma_without(counted.unstable, key, key);
}

} // verus!
