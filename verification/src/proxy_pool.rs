//! The pool: two tiers of proxies and the counters of each endpoint.
//!
//! Every change goes through a method of `ProxyPool`, and every method keeps
//! the invariant `PoolView::wf`. The pool is one plain value: a caller that
//! shares it between threads puts a lock around the whole of it.

use std::collections::HashMap;
use rand::seq::SliceRandom;
use rand::thread_rng;
use vstd::prelude::*;
use vstd::seq_lib::*;
use crate::filter::Filter;
use crate::model::{
    has_key, lemma_insert_unstable_wf, lemma_move_to_stable_wf, lemma_move_to_unstable_wf,
    lemma_position, lemma_record_wf, lemma_remove_stable_wf, lemma_remove_unstable_wf, position,
    position_from, PoolView,
};
use crate::proxy::Proxy;
use crate::rate::Rate;
use crate::stats::_ProxyInfo;

verus! {

/// The two tiers.
#[derive(Debug)]
pub struct ProxyListInner {
    /// Proxies that were found or demoted.
    unstable: Vec<Proxy>,
    /// Proxies that were promoted.
    stable: Vec<Proxy>,
}

/// The pool of proxies.
#[derive(Debug)]
pub struct ProxyPool {
    list: ProxyListInner,
    info: HashMap<u64, _ProxyInfo>,
}

/// How many proxies a pool holds.
#[derive(Debug, Clone, Copy, PartialEq, Eq, Structural)]
pub struct Status {
    /// In both tiers together.
    pub total: u128,
    /// In the stable tier.
    pub stable: usize,
    /// In the unstable tier.
    pub unstable: usize,
}

impl PoolView {
    /// The test by which `filter` picks among the stable proxies of this
    /// pool.
    pub open spec fn admitted_by(self, filter: Filter) -> spec_fn(Proxy) -> bool {
        |p: Proxy| filter.admits(p, self.info[p.key()])
    }

    /// The stable proxies that `filter` admits, in their order.
    pub open spec fn select(self, filter: Filter) -> Seq<Proxy> {
        self.stable.filter(self.admitted_by(filter))
    }
}

impl View for ProxyPool {
    type V = PoolView;

    closed spec fn view(&self) -> PoolView {
        PoolView { unstable: self.list.unstable@, stable: self.list.stable@, info: self.info@ }
    }
}

/// `rand::seq::SliceRandom::choose` on the slice of `list`, with the
/// generator that `rand::thread_rng` hands out: nothing for an empty list,
/// else the proxy at an index that the generator drew below the length. Which
/// index is drawn is not stated. The generator is seeded from the operating
/// system when a thread first asks for it, and gives up the thread if the
/// system has no randomness to give.
#[verifier::external_body]
fn pick_one(list: &Vec<Proxy>) -> (picked: Option<Proxy>)
    ensures
        list@.len() == 0 ==> picked is None,
        list@.len() > 0 ==> picked is Some && list@.contains(picked->0),
{
    list.choose(&mut thread_rng()).copied()
}

/// A copy of `list`.
pub fn copy_proxies(list: &Vec<Proxy>) -> (copy: Vec<Proxy>)
    ensures
        copy@ == list@,
{
    let mut copy: Vec<Proxy> = Vec::new();
    let mut i: usize = 0;
    while i < list.len()
        invariant
            i <= list.len(),
            copy@ == list@.take(i as int),
        decreases list.len() - i,
    {
        copy.push(list[i]);
        assert(copy@ =~= list@.take(i + 1));
        i += 1;
    }
    assert(list@.take(list.len() as int) =~= list@);
    copy
}

/// The first position of `list` with a proxy of the key `key`.
fn find(list: &Vec<Proxy>, key: u64) -> (at: usize)
    ensures
        at == position(list@, key),
        at <= list.len(),
        at < list.len() <==> has_key(list@, key),
{
    let mut at: usize = 0;
    while at < list.len() && list[at].get_key() != key
        invariant
            at <= list.len(),
            position_from(list@, key, at as int) == position(list@, key),
        decreases list.len() - at,
    {
        at += 1;
    }
    proof {
        lemma_position(list@, key);
    }
    at
}

impl ProxyPool {
    /// The pool's invariant holds.
    pub open spec fn wf(&self) -> bool {
        self@.wf()
    }

    /// An empty pool.
    pub fn new() -> (pool: ProxyPool)
        ensures
            pool@ == PoolView::empty(),
            pool.wf(),
    {
        let pool = ProxyPool {
            list: ProxyListInner { unstable: Vec::new(), stable: Vec::new() },
            info: HashMap::new(),
        };
        assert(pool@ =~= PoolView::empty());
        pool
    }

    /// A pool from its parts, as they stand.
    pub(crate) fn assemble(
        unstable: Vec<Proxy>,
        stable: Vec<Proxy>,
        info: HashMap<u64, _ProxyInfo>,
    ) -> (pool: ProxyPool)
        ensures
            pool@ == (PoolView { unstable: unstable@, stable: stable@, info: info@ }),
    {
        ProxyPool { list: ProxyListInner { unstable, stable }, info }
    }

    /// Offers a proxy to the pool. An endpoint that the pool does not know
    /// joins the unstable tier with fresh counters; one that it knows, in
    /// either tier, changes nothing. Returns whether the proxy was new.
    pub fn insert_unstable(&mut self, proxy: Proxy) -> (inserted: bool)
        requires
            old(self).wf(),
        ensures
            final(self).wf(),
            final(self)@ == old(self)@.insert_unstable(proxy),
            inserted == !old(self)@.contains(proxy.key()),
    {
        let key = proxy.get_key();
        proof {
            lemma_insert_unstable_wf(self@, proxy);
        }
        if self.info.contains_key(&key) {
            false
        } else {
            self.info.insert(key, _ProxyInfo::new());
            self.list.unstable.push(proxy);
            true
        }
    }

    /// Offers each proxy of `batch` to the pool, in order.
    pub fn extend_unstable(&mut self, batch: Vec<Proxy>)
        requires
            old(self).wf(),
        ensures
            final(self).wf(),
            final(self)@ == old(self)@.extend_unstable(batch@),
    {
        self.extend_from(&batch);
    }

    /// Offers each proxy of `batch` to the pool, in order, and leaves the
    /// batch with the caller.
    pub fn extend_from(&mut self, batch: &Vec<Proxy>)
        requires
            old(self).wf(),
        ensures
            final(self).wf(),
            final(self)@ == old(self)@.extend_unstable(batch@),
    {
        let mut i: usize = 0;
        while i < batch.len()
            invariant
                i <= batch.len(),
                self.wf(),
                self@ == old(self)@.extend_unstable(batch@.take(i as int)),
            decreases batch.len() - i,
        {
            assert(batch@.take(i + 1).drop_last() =~= batch@.take(i as int));
            self.insert_unstable(batch[i]);
            i += 1;
        }
        assert(batch@.take(batch.len() as int) =~= batch@);
    }

    /// Promotes an unstable proxy: it leaves the unstable tier and joins the
    /// end of the stable one, as the pool holds it and with its counters.
    pub fn move_to_stable(&mut self, proxy: &Proxy)
        requires
            old(self).wf(),
            has_key(old(self)@.unstable, proxy.key()),
        ensures
            final(self).wf(),
            final(self)@ == old(self)@.move_to_stable(proxy.key()),
    {
        proof {
            lemma_move_to_stable_wf(self@, proxy.key());
        }
        let at = find(&self.list.unstable, proxy.get_key());
        let moved = self.list.unstable.remove(at);
        self.list.stable.push(moved);
    }

    /// Demotes a stable proxy: it leaves the stable tier and joins the end of
    /// the unstable one, as the pool holds it and with its counters.
    pub fn move_to_unstable(&mut self, proxy: &Proxy)
        requires
            old(self).wf(),
            has_key(old(self)@.stable, proxy.key()),
        ensures
            final(self).wf(),
            final(self)@ == old(self)@.move_to_unstable(proxy.key()),
    {
        proof {
            lemma_move_to_unstable_wf(self@, proxy.key());
        }
        let at = find(&self.list.stable, proxy.get_key());
        let moved = self.list.stable.remove(at);
        self.list.unstable.push(moved);
    }

    /// Drops an unstable proxy and its counters.
    pub fn remove_unstable(&mut self, proxy: &Proxy)
        requires
            old(self).wf(),
            has_key(old(self)@.unstable, proxy.key()),
        ensures
            final(self).wf(),
            final(self)@ == old(self)@.remove_unstable(proxy.key()),
    {
        proof {
            lemma_remove_unstable_wf(self@, proxy.key());
        }
        let key = proxy.get_key();
        let at = find(&self.list.unstable, key);
        self.list.unstable.remove(at);
        self.info.remove(&key);
    }

    /// Drops a stable proxy and its counters.
    pub fn remove_stable(&mut self, proxy: &Proxy)
        requires
            old(self).wf(),
            has_key(old(self)@.stable, proxy.key()),
        ensures
            final(self).wf(),
            final(self)@ == old(self)@.remove_stable(proxy.key()),
    {
        proof {
            lemma_remove_stable_wf(self@, proxy.key());
        }
        let key = proxy.get_key();
        let at = find(&self.list.stable, key);
        self.list.stable.remove(at);
        self.info.remove(&key);
    }

    /// Whether the pool knows the endpoint of `proxy`.
    pub fn contains(&self, proxy: &Proxy) -> (known: bool)
        ensures
            known == self@.contains(proxy.key()),
    {
        self.info.contains_key(&proxy.get_key())
    }

    /// Whether the endpoint of `proxy` is in the stable tier.
    pub fn is_stable(&self, proxy: &Proxy) -> (yes: bool)
        ensures
            yes == has_key(self@.stable, proxy.key()),
    {
        find(&self.list.stable, proxy.get_key()) < self.list.stable.len()
    }

    /// Whether the endpoint of `proxy` is in the unstable tier.
    pub fn is_unstable(&self, proxy: &Proxy) -> (yes: bool)
        ensures
            yes == has_key(self@.unstable, proxy.key()),
    {
        find(&self.list.unstable, proxy.get_key()) < self.list.unstable.len()
    }

    /// The counters of the endpoint of `proxy`, if the pool knows it.
    pub fn stats(&self, proxy: &Proxy) -> (info: Option<_ProxyInfo>)
        ensures
            match info {
                Some(info) => self@.contains(proxy.key()) && info == self@.info[proxy.key()],
                None => !self@.contains(proxy.key()),
            },
    {
        match self.info.get(&proxy.get_key()) {
            Some(info) => Some(*info),
            None => None,
        }
    }

    /// Whether a probe of `proxy` can be counted: the pool knows its
    /// endpoint, and the endpoint's counters have room for one more probe.
    pub fn can_count(&self, proxy: &Proxy) -> (yes: bool)
        ensures
            yes == (self@.contains(proxy.key()) && self@.info[proxy.key()].has_room()),
    {
        match self.info.get(&proxy.get_key()) {
            Some(info) => (info.success as u64) + (info.failed as u64) < (u32::MAX as u64),
            None => false,
        }
    }

    /// Counts a failed probe of a proxy of the pool: one more failure, and
    /// one more failure in a row unless 255 were counted already.
    pub fn inc_failed_cnt(&mut self, proxy: &Proxy)
        requires
            old(self).wf(),
            old(self)@.contains(proxy.key()),
            old(self)@.info[proxy.key()].has_room(),
        ensures
            final(self).wf(),
            final(self)@ == old(self)@.record(proxy.key(), false),
    {
        proof {
            lemma_record_wf(self@, proxy.key(), false);
        }
        let key = proxy.get_key();
        let mut info = match self.info.get(&key) {
            Some(info) => *info,
            None => _ProxyInfo::new(),
        };
        info.record_failure();
        self.info.insert(key, info);
    }

    /// Counts a successful probe of a proxy of the pool: one more success,
    /// and no failure in a row any more.
    pub fn inc_success_cnt(&mut self, proxy: &Proxy)
        requires
            old(self).wf(),
            old(self)@.contains(proxy.key()),
            old(self)@.info[proxy.key()].has_room(),
        ensures
            final(self).wf(),
            final(self)@ == old(self)@.record(proxy.key(), true),
    {
        proof {
            lemma_record_wf(self@, proxy.key(), true);
        }
        let key = proxy.get_key();
        let mut info = match self.info.get(&key) {
            Some(info) => *info,
            None => _ProxyInfo::new(),
        };
        info.record_success();
        self.info.insert(key, info);
    }

    /// What the checker's rules read of a proxy of the pool: its stability,
    /// the number of probes made, and the number of failures in a row.
    pub fn get_info(&self, proxy: &Proxy) -> (r: (Rate, u32, u8))
        requires
            self.wf(),
            self@.contains(proxy.key()),
        ensures
            r.0 == self@.info[proxy.key()].spec_stability(),
            r.1 == self@.info[proxy.key()].checks(),
            r.2 == self@.info[proxy.key()].fail_times,
    {
        let info = match self.info.get(&proxy.get_key()) {
            Some(info) => *info,
            None => _ProxyInfo::new(),
        };
        (info.stability(), info.check_cnt(), info.fail_times)
    }

    /// The unstable tier.
    pub fn get_unstable(&self) -> (list: &Vec<Proxy>)
        ensures
            list@ == self@.unstable,
    {
        &self.list.unstable
    }

    /// The stable tier.
    pub fn get_stable(&self) -> (list: &Vec<Proxy>)
        ensures
            list@ == self@.stable,
    {
        &self.list.stable
    }

    /// The number of proxies in each tier and in both.
    pub fn status(&self) -> (status: Status)
        ensures
            status.stable == self@.stable.len(),
            status.unstable == self@.unstable.len(),
            status.total == self@.stable.len() + self@.unstable.len(),
    {
        let stable = self.list.stable.len();
        let unstable = self.list.unstable.len();
        Status { total: stable as u128 + unstable as u128, stable, unstable }
    }

    /// One stable proxy, drawn at random, or nothing if there is none.
    pub fn get_random(&self) -> (picked: Option<Proxy>)
        ensures
            match picked {
                Some(p) => self@.stable.contains(p),
                None => self@.stable.len() == 0,
            },
    {
        pick_one(&self.list.stable)
    }

    /// The stable proxies that `filter` admits, in their order.
    pub fn select_by(&self, filter: &Filter) -> (found: Vec<Proxy>)
        requires
            self.wf(),
        ensures
            found@ == self@.select(*filter),
    {
        let ghost admitted = self@.admitted_by(*filter);
        let mut found: Vec<Proxy> = Vec::new();
        let mut i: usize = 0;
        assert(self@.stable.take(0) =~= Seq::<Proxy>::empty());
        while i < self.list.stable.len()
            invariant
                i <= self.list.stable.len(),
                self.wf(),
                admitted == self@.admitted_by(*filter),
                found@ == self@.stable.take(i as int).filter(admitted),
            decreases self.list.stable.len() - i,
        {
            let p = self.list.stable[i];
            proof {
                assert(self@.stable.take(i + 1) =~= self@.stable.take(i as int).push(p));
                self@.stable.take(i as int).lemma_filter_push(p, admitted);
                assert(has_key(self@.stable, p.key())) by {
                    assert(self@.stable[i as int].key() == p.key());
                }
            }
            let admits = match self.info.get(&p.get_key()) {
                Some(info) => filter.accepts(&p, info),
                None => false,
            };
            if admits {
                found.push(p);
            }
            i += 1;
        }
        assert(self@.stable.take(self@.stable.len() as int) =~= self@.stable);
        found
    }

    /// The stable proxies that meet the options given, in their order.
    /// Scheme and anonymity are read as a listing's texts are.
    pub fn select(
        &self,
        ssl_type: Option<String>,
        anonymity: Option<String>,
        stability: Option<Rate>,
    ) -> (found: Vec<Proxy>)
        requires
            self.wf(),
        ensures
            found@ == self@.select(
                Filter::of_texts(
                    match ssl_type {
                        Some(s) => Some(s@),
                        None => None,
                    },
                    match anonymity {
                        Some(s) => Some(s@),
                        None => None,
                    },
                    stability,
                ),
            ),
    {
        let filter = Filter::parse(
            match &ssl_type {
                Some(s) => Some(s.as_str()),
                None => None,
            },
            match &anonymity {
                Some(s) => Some(s.as_str()),
                None => None,
            },
            stability,
        );
        self.select_by(&filter)
    }

    /// One of the stable proxies that `filter` admits, drawn at random, or
    /// nothing if there is none.
    pub fn select_random_by(&self, filter: &Filter) -> (picked: Option<Proxy>)
        requires
            self.wf(),
        ensures
            match picked {
                Some(p) => self@.select(*filter).contains(p),
                None => self@.select(*filter).len() == 0,
            },
    {
        let found = self.select_by(filter);
        pick_one(&found)
    }

    /// One of the stable proxies that meet the options given, drawn at
    /// random, or nothing if there is none.
    pub fn select_random(
        &self,
        ssl_type: Option<String>,
        anonymity: Option<String>,
        stability: Option<Rate>,
    ) -> (picked: Option<Proxy>)
        requires
            self.wf(),
        ensures
            ({
                let found = self@.select(
                    Filter::of_texts(
                        match ssl_type {
                            Some(s) => Some(s@),
                            None => None,
                        },
                        match anonymity {
                            Some(s) => Some(s@),
                            None => None,
                        },
                        stability,
                    ),
                );
                match picked {
                    Some(p) => found.contains(p),
                    None => found.len() == 0,
                }
            }),
    {
        let found = self.select(ssl_type, anonymity, stability);
        pick_one(&found)
    }
}

impl Default for ProxyPool {
    fn default() -> (pool: ProxyPool)
        ensures
            pool@ == PoolView::empty(),
            pool.wf(),
    {
        ProxyPool::new()
    }
}

} // verus!
