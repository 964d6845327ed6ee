//! The checker's rules: what a probe's outcome does to a proxy.
//!
//! A probe is made outside this crate. Its outcome comes in as a `Probe`; the
//! functions here count it and then promote, demote or drop the proxy as the
//! rule table of its tier says. The first rule that applies decides.

use vstd::prelude::*;
use crate::config::CheckerConfig;
use crate::model::{
    has_key, lemma_move_to_stable_wf, lemma_move_to_unstable_wf, lemma_record_wf,
    lemma_remove_unstable_wf, PoolView,
};
use crate::proxy::Proxy;
use crate::proxy_pool::{copy_proxies, ProxyPool};
use crate::stats::_ProxyInfo;

verus! {

/// The outcome of one probe.
#[derive(Debug, Clone, Copy)]
pub struct Probe {
    /// The proxy that was probed.
    pub proxy: Proxy,
    /// Whether the probe's request came back in time with a status of
    /// success.
    pub alive: bool,
}

/// What the rules say of a stable proxy.
#[derive(Debug, Clone, Copy, PartialEq, Eq, Structural)]
pub enum StableVerdict {
    /// It stays stable.
    Keep,
    /// It is demoted: its stability is below the limit.
    LowStability,
    /// It is demoted: it failed too often in a row.
    TooManyFailures,
}

/// What the rules say of an unstable proxy.
#[derive(Debug, Clone, Copy, PartialEq, Eq, Structural)]
pub enum UnstableVerdict {
    /// It stays unstable.
    Keep,
    /// It is promoted: it was probed often enough and is stable enough.
    Promote,
    /// It is dropped: it was probed often enough and its stability is below
    /// the limit.
    LowStability,
    /// It is dropped: it failed too often in a row.
    TooManyFailures,
    /// It is dropped: it was probed too often without being promoted.
    TooManyChecks,
}

impl StableVerdict {
    /// The verdict demotes the proxy.
    pub open spec fn spec_demotes(&self) -> bool {
        !(*self is Keep)
    }

    /// Whether the verdict demotes the proxy.
    #[verifier::when_used_as_spec(spec_demotes)]
    pub fn demotes(&self) -> (yes: bool)
        ensures
            yes == self.spec_demotes(),
    {
        match self {
            StableVerdict::Keep => false,
            _ => true,
        }
    }
}

impl UnstableVerdict {
    /// The verdict promotes the proxy.
    pub open spec fn spec_promotes(&self) -> bool {
        *self is Promote
    }

    /// The verdict drops the proxy.
    pub open spec fn spec_removes(&self) -> bool {
        !(*self is Keep) && !(*self is Promote)
    }

    /// Whether the verdict promotes the proxy.
    #[verifier::when_used_as_spec(spec_promotes)]
    pub fn promotes(&self) -> (yes: bool)
        ensures
            yes == self.spec_promotes(),
    {
        match self {
            UnstableVerdict::Promote => true,
            _ => false,
        }
    }

    /// Whether the verdict drops the proxy.
    #[verifier::when_used_as_spec(spec_removes)]
    pub fn removes(&self) -> (yes: bool)
        ensures
            yes == self.spec_removes(),
    {
        match self {
            UnstableVerdict::Keep => false,
            UnstableVerdict::Promote => false,
            _ => true,
        }
    }
}

impl CheckerConfig {
    /// The rule table of the stable tier, read from the top.
    pub open spec fn stable_verdict(&self, info: _ProxyInfo) -> StableVerdict {
        if !info.spec_stability().at_least(&self.stability.level_down) {
            StableVerdict::LowStability
        } else if info.fail_times >= self.fail_times.level_down {
            StableVerdict::TooManyFailures
        } else {
            StableVerdict::Keep
        }
    }

    /// The rule table of the unstable tier, read from the top: promotion
    /// comes before any removal.
    pub open spec fn unstable_verdict(&self, info: _ProxyInfo) -> UnstableVerdict {
        if info.checks() >= self.min_cnt_level_up && info.spec_stability().at_least(
            &self.stability.level_up,
        ) {
            UnstableVerdict::Promote
        } else if info.checks() >= self.min_cnt_remove && !info.spec_stability().at_least(
            &self.stability.remove,
        ) {
            UnstableVerdict::LowStability
        } else if info.fail_times >= self.fail_times.remove {
            UnstableVerdict::TooManyFailures
        } else if info.checks() >= self.max_cnt_remove {
            UnstableVerdict::TooManyChecks
        } else {
            UnstableVerdict::Keep
        }
    }

    /// Applies the rule table of the stable tier to a proxy's counters.
    pub fn judge_stable(&self, info: &_ProxyInfo) -> (verdict: StableVerdict)
        requires
            info.wf(),
        ensures
            verdict == self.stable_verdict(*info),
    {
        let stability = info.stability();
        if stability.is_below(&self.stability.level_down) {
            StableVerdict::LowStability
        } else if info.fail_times >= self.fail_times.level_down {
            StableVerdict::TooManyFailures
        } else {
            StableVerdict::Keep
        }
    }

    /// Applies the rule table of the unstable tier to a proxy's counters.
    pub fn judge_unstable(&self, info: &_ProxyInfo) -> (verdict: UnstableVerdict)
        requires
            info.wf(),
        ensures
            verdict == self.unstable_verdict(*info),
    {
        let stability = info.stability();
        let checks = info.check_cnt();
        if checks >= self.min_cnt_level_up && stability.reaches(&self.stability.level_up) {
            UnstableVerdict::Promote
        } else if checks >= self.min_cnt_remove && stability.is_below(&self.stability.remove) {
            UnstableVerdict::LowStability
        } else if info.fail_times >= self.fail_times.remove {
            UnstableVerdict::TooManyFailures
        } else if checks >= self.max_cnt_remove {
            UnstableVerdict::TooManyChecks
        } else {
            UnstableVerdict::Keep
        }
    }
}

/// What the rules say after `probe` of a proxy that should be stable:
/// nothing if the pool does not hold it as stable, else the verdict on its
/// counters with the probe counted.
pub open spec fn stable_outcome(pool: PoolView, probe: Probe, config: CheckerConfig) -> Option<
    StableVerdict,
> {
    let key = probe.proxy.key();
    if has_key(pool.stable, key) {
        Some(config.stable_verdict(pool.info[key].after_probe(probe.alive)))
    } else {
        None
    }
}

/// The pool after `probe` of a proxy that should be stable: unchanged if the
/// pool does not hold it as stable; else the probe is counted and the proxy
/// is demoted where the verdict says so.
pub open spec fn stable_step(pool: PoolView, probe: Probe, config: CheckerConfig) -> PoolView {
    let key = probe.proxy.key();
    match stable_outcome(pool, probe, config) {
        None => pool,
        Some(verdict) => if verdict.spec_demotes() {
            pool.record(key, probe.alive).move_to_unstable(key)
        } else {
            pool.record(key, probe.alive)
        },
    }
}

/// What the rules say after `probe` of a proxy that should be unstable:
/// nothing if the pool does not hold it as unstable, else the verdict on its
/// counters with the probe counted.
pub open spec fn unstable_outcome(pool: PoolView, probe: Probe, config: CheckerConfig) -> Option<
    UnstableVerdict,
> {
    let key = probe.proxy.key();
    if has_key(pool.unstable, key) {
        Some(config.unstable_verdict(pool.info[key].after_probe(probe.alive)))
    } else {
        None
    }
}

/// The pool after `probe` of a proxy that should be unstable: unchanged if
/// the pool does not hold it as unstable; else the probe is counted and the
/// proxy is promoted or dropped where the verdict says so.
pub open spec fn unstable_step(pool: PoolView, probe: Probe, config: CheckerConfig) -> PoolView {
    let key = probe.proxy.key();
    match unstable_outcome(pool, probe, config) {
        None => pool,
        Some(verdict) => if verdict.spec_promotes() {
            pool.record(key, probe.alive).move_to_stable(key)
        } else if verdict.spec_removes() {
            pool.record(key, probe.alive).remove_unstable(key)
        } else {
            pool.record(key, probe.alive)
        },
    }
}

/// The pool after the probes of one pass over the stable tier, applied in
/// order.
pub open spec fn stable_phase(pool: PoolView, probes: Seq<Probe>, config: CheckerConfig) -> PoolView
    decreases probes.len(),
{
    if probes.len() == 0 {
        pool
    } else {
        stable_step(stable_phase(pool, probes.drop_last(), config), probes.last(), config)
    }
}

/// The pool after the probes of one pass over the unstable tier, applied in
/// order.
pub open spec fn unstable_phase(
    pool: PoolView,
    probes: Seq<Probe>,
    config: CheckerConfig,
) -> PoolView
    decreases probes.len(),
{
    if probes.len() == 0 {
        pool
    } else {
        unstable_step(unstable_phase(pool, probes.drop_last(), config), probes.last(), config)
    }
}

/// The pool after one round: the pass over the stable tier, then the pass
/// over the unstable tier.
pub open spec fn round(
    pool: PoolView,
    stable_probes: Seq<Probe>,
    unstable_probes: Seq<Probe>,
    config: CheckerConfig,
) -> PoolView {
    unstable_phase(stable_phase(pool, stable_probes, config), unstable_probes, config)
}

/// A step of the stable pass keeps the invariant and uses up room for at
/// most one probe.
pub proof fn lemma_stable_step(pool: PoolView, probe: Probe, config: CheckerConfig, spare: nat)
    requires
        pool.wf(),
        pool.room_for(spare + 1),
    ensures
        stable_step(pool, probe, config).wf(),
        stable_step(pool, probe, config).room_for(spare),
{
    let key = probe.proxy.key();
    let next = stable_step(pool, probe, config);
    if has_key(pool.stable, key) {
        assert(pool.info.contains_key(key));
        let counted = pool.record(key, probe.alive);
        lemma_record_wf(pool, key, probe.alive);
        assert forall|k: u64| #[trigger] counted.info.contains_key(k) implies counted.info[k].checks()
            + spare <= u32::MAX by {
            assert(pool.info.contains_key(k));
        }
        if stable_outcome(pool, probe, config)->0.spec_demotes() {
            lemma_move_to_unstable_wf(counted, key);
        }
    } else {
        assert forall|k: u64| #[trigger] next.info.contains_key(k) implies next.info[k].checks()
            + spare <= u32::MAX by {
            assert(pool.info.contains_key(k));
        }
    }
}

/// A step of the unstable pass keeps the invariant and uses up room for at
/// most one probe.
pub proof fn lemma_unstable_step(pool: PoolView, probe: Probe, config: CheckerConfig, spare: nat)
    requires
        pool.wf(),
        pool.room_for(spare + 1),
    ensures
        unstable_step(pool, probe, config).wf(),
        unstable_step(pool, probe, config).room_for(spare),
{
    let key = probe.proxy.key();
    let next = unstable_step(pool, probe, config);
    if has_key(pool.unstable, key) {
        assert(pool.info.contains_key(key));
        let counted = pool.record(key, probe.alive);
        lemma_record_wf(pool, key, probe.alive);
        assert forall|k: u64| #[trigger] counted.info.contains_key(k) implies counted.info[k].checks()
            + spare <= u32::MAX by {
            assert(pool.info.contains_key(k));
        }
        let verdict = unstable_outcome(pool, probe, config)->0;
        if verdict.spec_promotes() {
            lemma_move_to_stable_wf(counted, key);
        } else if verdict.spec_removes() {
            lemma_remove_unstable_wf(counted, key);
            assert forall|k: u64| #[trigger] next.info.contains_key(k) implies next.info[k].checks()
                + spare <= u32::MAX by {
                assert(counted.info.contains_key(k));
            }
        }
    } else {
        assert forall|k: u64| #[trigger] next.info.contains_key(k) implies next.info[k].checks()
            + spare <= u32::MAX by {
            assert(pool.info.contains_key(k));
        }
    }
}

/// Counts the outcome of a probe of a pool's proxy.
fn count(pool: &mut ProxyPool, probe: &Probe)
    requires
        old(pool).wf(),
        old(pool)@.contains(probe.proxy.key()),
        old(pool)@.info[probe.proxy.key()].has_room(),
    ensures
        final(pool).wf(),
        final(pool)@ == old(pool)@.record(probe.proxy.key(), probe.alive),
{
    if probe.alive {
        pool.inc_success_cnt(&probe.proxy);
    } else {
        pool.inc_failed_cnt(&probe.proxy);
    }
}

/// Takes in the outcome of a probe of a stable proxy: counts it, and demotes
/// the proxy if the rules say so. A proxy that the pool does not hold as
/// stable, because it was moved or dropped since the probe began, is left
/// alone.
pub fn apply_stable(pool: &mut ProxyPool, probe: &Probe, config: &CheckerConfig) -> (verdict:
    Option<StableVerdict>)
    requires
        old(pool).wf(),
        has_key(old(pool)@.stable, probe.proxy.key()) ==> old(pool)@.info[probe.proxy.key()].has_room(),
    ensures
        final(pool).wf(),
        final(pool)@ == stable_step(old(pool)@, *probe, *config),
        verdict == stable_outcome(old(pool)@, *probe, *config),
{
    if !pool.is_stable(&probe.proxy) {
        return None;
    }
    assert(pool@.contains(probe.proxy.key()));
    count(pool, probe);
    let info = match pool.stats(&probe.proxy) {
        Some(info) => info,
        None => _ProxyInfo::new(),
    };
    let verdict = config.judge_stable(&info);
    if verdict.demotes() {
        pool.move_to_unstable(&probe.proxy);
    }
    Some(verdict)
}

/// Takes in the outcome of a probe of an unstable proxy: counts it, and
/// promotes or drops the proxy if the rules say so. A proxy that the pool
/// does not hold as unstable, because it was moved or dropped since the probe
/// began, is left alone.
pub fn apply_unstable(pool: &mut ProxyPool, probe: &Probe, config: &CheckerConfig) -> (verdict:
    Option<UnstableVerdict>)
    requires
        old(pool).wf(),
        has_key(old(pool)@.unstable, probe.proxy.key()) ==> old(pool)@.info[probe.proxy.key()].has_room(),
    ensures
        final(pool).wf(),
        final(pool)@ == unstable_step(old(pool)@, *probe, *config),
        verdict == unstable_outcome(old(pool)@, *probe, *config),
{
    if !pool.is_unstable(&probe.proxy) {
        return None;
    }
    assert(pool@.contains(probe.proxy.key()));
    count(pool, probe);
    let info = match pool.stats(&probe.proxy) {
        Some(info) => info,
        None => _ProxyInfo::new(),
    };
    let verdict = config.judge_unstable(&info);
    if verdict.promotes() {
        pool.move_to_stable(&probe.proxy);
    } else if verdict.removes() {
        pool.remove_unstable(&probe.proxy);
    }
    Some(verdict)
}

/// The pass over the stable tier, with room left for `spare` more probes.
fn run_stable(
    pool: &mut ProxyPool,
    probes: &Vec<Probe>,
    config: &CheckerConfig,
    Ghost(spare): Ghost<nat>,
)
    requires
        old(pool).wf(),
        old(pool)@.room_for(probes@.len() + spare),
    ensures
        final(pool).wf(),
        final(pool)@ == stable_phase(old(pool)@, probes@, *config),
        final(pool)@.room_for(spare),
{
    let mut i: usize = 0;
    while i < probes.len()
        invariant
            i <= probes.len(),
            pool.wf(),
            pool@ == stable_phase(old(pool)@, probes@.take(i as int), *config),
            pool@.room_for((probes@.len() - i + spare) as nat),
        decreases probes.len() - i,
    {
        proof {
            assert(probes@.take(i + 1).drop_last() =~= probes@.take(i as int));
            lemma_stable_step(pool@, probes@[i as int], *config, (probes@.len() - i - 1 + spare) as nat);
            if has_key(pool@.stable, probes@[i as int].proxy.key()) {
                assert(pool@.info.contains_key(probes@[i as int].proxy.key()));
            }
        }
        apply_stable(pool, &probes[i], config);
        i += 1;
    }
    assert(probes@.take(probes.len() as int) =~= probes@);
}

/// The pass over the unstable tier, with room left for `spare` more probes.
fn run_unstable(
    pool: &mut ProxyPool,
    probes: &Vec<Probe>,
    config: &CheckerConfig,
    Ghost(spare): Ghost<nat>,
)
    requires
        old(pool).wf(),
        old(pool)@.room_for(probes@.len() + spare),
    ensures
        final(pool).wf(),
        final(pool)@ == unstable_phase(old(pool)@, probes@, *config),
        final(pool)@.room_for(spare),
{
    let mut i: usize = 0;
    while i < probes.len()
        invariant
            i <= probes.len(),
            pool.wf(),
            pool@ == unstable_phase(old(pool)@, probes@.take(i as int), *config),
            pool@.room_for((probes@.len() - i + spare) as nat),
        decreases probes.len() - i,
    {
        proof {
            assert(probes@.take(i + 1).drop_last() =~= probes@.take(i as int));
            lemma_unstable_step(
                pool@,
                probes@[i as int],
                *config,
                (probes@.len() - i - 1 + spare) as nat,
            );
            if has_key(pool@.unstable, probes@[i as int].proxy.key()) {
                assert(pool@.info.contains_key(probes@[i as int].proxy.key()));
            }
        }
        apply_unstable(pool, &probes[i], config);
        i += 1;
    }
    assert(probes@.take(probes.len() as int) =~= probes@);
}

/// The proxies to probe in one round.
#[derive(Debug)]
pub struct RoundPlan {
    /// The proxies of the first pass: the stable tier as the round begins.
    pub stable: Vec<Proxy>,
    /// The proxies of the second pass: the unstable tier as the round
    /// begins, so that a proxy demoted in the first pass waits for the next
    /// round.
    pub unstable: Vec<Proxy>,
}

/// The proxies to probe in a round that begins now.
pub fn plan_round(pool: &ProxyPool) -> (plan: RoundPlan)
    ensures
        plan.stable@ == pool@.stable,
        plan.unstable@ == pool@.unstable,
{
    RoundPlan {
        stable: copy_proxies(pool.get_stable()),
        unstable: copy_proxies(pool.get_unstable()),
    }
}

/// One pass over the stable tier: takes in the probes in order.
pub fn check_stable(pool: &mut ProxyPool, probes: &Vec<Probe>, config: &CheckerConfig)
    requires
        old(pool).wf(),
        old(pool)@.room_for(probes@.len()),
    ensures
        final(pool).wf(),
        final(pool)@ == stable_phase(old(pool)@, probes@, *config),
{
    run_stable(pool, probes, config, Ghost(0));
}

/// One pass over the unstable tier: takes in the probes in order.
pub fn check_unstable(pool: &mut ProxyPool, probes: &Vec<Probe>, config: &CheckerConfig)
    requires
        old(pool).wf(),
        old(pool)@.room_for(probes@.len()),
    ensures
        final(pool).wf(),
        final(pool)@ == unstable_phase(old(pool)@, probes@, *config),
{
    run_unstable(pool, probes, config, Ghost(0));
}

/// One round of the checker: the pass over the stable tier, then the pass
/// over the unstable tier. The probes of both passes are those of the
/// proxies that were listed when the round began, so that a proxy demoted in
/// the first pass is not judged again in the second.
pub fn checker_thread(
    pool: &mut ProxyPool,
    stable_probes: &Vec<Probe>,
    unstable_probes: &Vec<Probe>,
    config: &CheckerConfig,
)
    requires
        old(pool).wf(),
        old(pool)@.room_for(stable_probes@.len() + unstable_probes@.len()),
    ensures
        final(pool).wf(),
        final(pool)@ == round(old(pool)@, stable_probes@, unstable_probes@, *config),
{
    run_stable(pool, stable_probes, config, Ghost(unstable_probes@.len()));
    run_unstable(pool, unstable_probes, config, Ghost(0));
}

} // verus!
