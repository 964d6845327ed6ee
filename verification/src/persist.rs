//! The pool as plain data, for the file that outlives the process.
//!
//! A snapshot lists the two tiers and, for each endpoint, its counters under
//! the endpoint's text `address:port`. Restoring checks everything that the
//! pool relies on: a snapshot that names an endpoint twice, lacks counters
//! for a proxy, or holds counters for none is refused as a whole.

use std::collections::HashMap;
use std::collections::HashSet;
use vstd::prelude::*;
use vstd::set_lib::lemma_subset_equality;
use crate::endpoint::{endpoint_text, lemma_endpoint_round_trip, parse_endpoint, read_endpoint};
use crate::model::{has_key, lemma_has_key_push, lemma_unique_push, unique_keys, PoolView};
use crate::proxy::Proxy;
use crate::proxy_pool::{copy_proxies, ProxyPool};
use crate::stats::_ProxyInfo;
use crate::text::to_chars;

verus! {

/// A pool as plain data.
#[derive(Debug)]
pub struct PoolSnapshot {
    /// The unstable tier, in order.
    pub unstable: Vec<Proxy>,
    /// The stable tier, in order.
    pub stable: Vec<Proxy>,
    /// The counters of each endpoint, under the endpoint's text.
    pub info: Vec<(String, _ProxyInfo)>,
}

/// A snapshot as a value.
pub struct SnapshotView {
    pub unstable: Seq<Proxy>,
    pub stable: Seq<Proxy>,
    pub info: Seq<(Seq<char>, _ProxyInfo)>,
}

/// The entries of a snapshot, each text as its characters.
pub open spec fn entries_view(entries: Seq<(String, _ProxyInfo)>) -> Seq<(Seq<char>, _ProxyInfo)> {
    Seq::new(entries.len(), |i: int| (entries[i].0@, entries[i].1))
}

impl View for PoolSnapshot {
    type V = SnapshotView;

    open spec fn view(&self) -> SnapshotView {
        SnapshotView {
            unstable: self.unstable@,
            stable: self.stable@,
            info: entries_view(self.info@),
        }
    }
}

/// The counters that `entries` give, by endpoint key; nothing if a text is
/// no endpoint or if two entries name the same endpoint.
pub open spec fn counters_of(entries: Seq<(Seq<char>, _ProxyInfo)>) -> Option<
    Map<u64, _ProxyInfo>,
>
    decreases entries.len(),
{
    if entries.len() == 0 {
        Some(Map::empty())
    } else {
        let before = counters_of(entries.drop_last());
        let key = parse_endpoint(entries.last().0);
        if before is Some && key is Some && !before->0.contains_key(key->0) {
            Some(before->0.insert(key->0, entries.last().1))
        } else {
            None
        }
    }
}

/// The pool that a snapshot stands for, if it stands for one: its entries
/// give counters, and tiers and counters together keep the pool's invariant.
pub open spec fn restored(snap: SnapshotView) -> Option<PoolView> {
    match counters_of(snap.info) {
        Some(info) => {
            let pool = PoolView { unstable: snap.unstable, stable: snap.stable, info };
            if pool.wf() {
                Some(pool)
            } else {
                None
            }
        },
        None => None,
    }
}

/// The entry that a snapshot of `pool` holds for the proxy `p`.
pub open spec fn entry_of(pool: PoolView, p: Proxy) -> (Seq<char>, _ProxyInfo) {
    (endpoint_text(p.ip, p.port), pool.info[p.key()])
}

/// The entries that a snapshot of `pool` holds for the proxies `list`.
pub open spec fn entries_of(pool: PoolView, list: Seq<Proxy>) -> Seq<(Seq<char>, _ProxyInfo)> {
    Seq::new(list.len(), |i: int| entry_of(pool, list[i]))
}

/// The snapshot of a pool: its tiers, and one entry for each proxy, the
/// unstable ones first.
pub open spec fn snapshot_of(pool: PoolView) -> SnapshotView {
    SnapshotView {
        unstable: pool.unstable,
        stable: pool.stable,
        info: entries_of(pool, pool.unstable + pool.stable),
    }
}

/// Entries of which a first part gives no counters give none.
pub proof fn lemma_counters_prefix(entries: Seq<(Seq<char>, _ProxyInfo)>, n: int)
    requires
        0 <= n <= entries.len(),
        counters_of(entries.take(n)) is None,
    ensures
        counters_of(entries) is None,
    decreases entries.len() - n,
{
    if n == entries.len() {
        assert(entries.take(n) =~= entries);
    } else {
        assert(entries.take(n + 1).drop_last() =~= entries.take(n));
        lemma_counters_prefix(entries, n + 1);
    }
}

/// The keys of two sequences joined are the keys of either.
pub proof fn lemma_has_key_add(a: Seq<Proxy>, b: Seq<Proxy>, key: u64)
    ensures
        has_key(a + b, key) <==> has_key(a, key) || has_key(b, key),
{
    if has_key(a, key) {
        let i = choose|i: int| 0 <= i < a.len() && #[trigger] a[i].key() == key;
        assert((a + b)[i].key() == key);
    }
    if has_key(b, key) {
        let i = choose|i: int| 0 <= i < b.len() && #[trigger] b[i].key() == key;
        assert((a + b)[a.len() + i].key() == key);
    }
    if has_key(a + b, key) {
        let i = choose|i: int| 0 <= i < (a + b).len() && #[trigger] (a + b)[i].key() == key;
        if i < a.len() {
            assert(a[i].key() == key);
        } else {
            assert(b[i - a.len()].key() == key);
        }
    }
}

/// In a pool that keeps its invariant, the two tiers joined name no endpoint
/// twice.
pub proof fn lemma_tiers_unique(pool: PoolView)
    requires
        pool.wf(),
    ensures
        unique_keys(pool.unstable + pool.stable),
{
    let t = pool.unstable + pool.stable;
    let n = pool.unstable.len() as int;
    assert forall|i: int, j: int| 0 <= i < j < t.len() implies #[trigger] t[i].key()
        != #[trigger] t[j].key() by {
        if j < n {
            assert(pool.unstable[i].key() != pool.unstable[j].key());
        } else if i >= n {
            assert(pool.stable[i - n].key() != pool.stable[j - n].key());
        } else {
            let k = t[i].key();
            assert(pool.unstable[i].key() == k);
            assert(has_key(pool.unstable, k));
            if t[j].key() == k {
                assert(pool.stable[j - n].key() == k);
                assert(has_key(pool.stable, k));
            }
        }
    }
}

/// The counters that the first `n` entries of a pool's snapshot give: those
/// of the pool, for the endpoints of the first `n` proxies.
pub proof fn lemma_snapshot_counters(pool: PoolView, n: int)
    requires
        pool.wf(),
        0 <= n <= pool.unstable.len() + pool.stable.len(),
    ensures
        counters_of(entries_of(pool, pool.unstable + pool.stable).take(n)) == Some(
            Map::new(
                |k: u64| has_key((pool.unstable + pool.stable).take(n), k),
                |k: u64| pool.info[k],
            ),
        ),
    decreases n,
{
    let t = pool.unstable + pool.stable;
    let e = entries_of(pool, t);
    let now = Map::new(|k: u64| has_key(t.take(n), k), |k: u64| pool.info[k]);
    if n == 0 {
        assert(e.take(0) =~= Seq::empty());
        assert forall|k: u64| !has_key(t.take(0), k) by {
            if has_key(t.take(0), k) {
                let i = choose|i: int| 0 <= i < t.take(0).len() && #[trigger] t.take(0)[i].key() == k;
            }
        }
        assert(now =~= Map::empty());
    } else {
        lemma_snapshot_counters(pool, n - 1);
        lemma_tiers_unique(pool);
        let before = Map::new(|k: u64| has_key(t.take(n - 1), k), |k: u64| pool.info[k]);
        let p = t[n - 1];
        assert(e.take(n).drop_last() =~= e.take(n - 1));
        assert(e.take(n).last() == entry_of(pool, p));
        lemma_endpoint_round_trip(p.ip, p.port);
        assert(parse_endpoint(e.take(n).last().0) == Some(p.key()));
        assert(t.take(n) =~= t.take(n - 1).push(p));
        if has_key(t.take(n - 1), p.key()) {
            let i = choose|i: int|
                0 <= i < t.take(n - 1).len() && #[trigger] t.take(n - 1)[i].key() == p.key();
            assert(t[i].key() != t[n - 1].key());
        }
        assert forall|k: u64| has_key(t.take(n), k) <==> has_key(t.take(n - 1), k) || k
            == p.key() by {
            lemma_has_key_push(t.take(n - 1), p, k);
        }
        assert(now =~= before.insert(p.key(), pool.info[p.key()]));
    }
}

/// A pool that was written to a snapshot and read back is the same pool:
/// the same proxies in the same order in each tier, and the same counters for
/// every endpoint.
pub proof fn lemma_persist_round_trip(pool: PoolView)
    requires
        pool.wf(),
    ensures
        restored(snapshot_of(pool)) == Some(pool),
{
    let t = pool.unstable + pool.stable;
    let e = entries_of(pool, t);
    lemma_snapshot_counters(pool, t.len() as int);
    assert(e.take(t.len() as int) =~= e);
    assert(t.take(t.len() as int) =~= t);
    let info = Map::new(|k: u64| has_key(t, k), |k: u64| pool.info[k]);
    assert forall|k: u64| has_key(t, k) <==> pool.info.contains_key(k) by {
        lemma_has_key_add(pool.unstable, pool.stable, k);
    }
    assert(info =~= pool.info);
}

impl _ProxyInfo {
    /// Whether the number of probes made fits the counter's type.
    pub fn fits(&self) -> (yes: bool)
        ensures
            yes == self.wf(),
    {
        self.success as u64 + self.failed as u64 <= u32::MAX as u64
    }
}

/// Adds to `out` the entries of the proxies `list` of `pool`.
fn push_entries(pool: &ProxyPool, list: &Vec<Proxy>, out: &mut Vec<(String, _ProxyInfo)>)
    requires
        forall|i: int| 0 <= i < list@.len() ==> pool@.contains(#[trigger] list@[i].key()),
    ensures
        entries_view(final(out)@) == entries_view(old(out)@) + entries_of(pool@, list@),
{
    let mut i: usize = 0;
    while i < list.len()
        invariant
            i <= list.len(),
            forall|i: int| 0 <= i < list@.len() ==> pool@.contains(#[trigger] list@[i].key()),
            entries_view(out@) == entries_view(old(out)@) + entries_of(pool@, list@.take(i as int)),
        decreases list.len() - i,
    {
        let p = list[i];
        assert(pool@.contains(list@[i as int].key()));
        let info = match pool.stats(&p) {
            Some(info) => info,
            None => _ProxyInfo::new(),
        };
        let ghost before = out@;
        out.push((p.key_text(), info));
        assert(entries_view(out@) =~= entries_view(before).push(entry_of(pool@, p)));
        assert(entries_of(pool@, list@.take(i + 1)) =~= entries_of(pool@, list@.take(i as int)).push(
            entry_of(pool@, p),
        ));
        i += 1;
    }
    assert(list@.take(list.len() as int) =~= list@);
}

/// Reads the entries of a snapshot into a map by endpoint key.
fn read_counters(entries: &Vec<(String, _ProxyInfo)>) -> (r: Option<HashMap<u64, _ProxyInfo>>)
    ensures
        match r {
            Some(map) => counters_of(entries_view(entries@)) == Some(map@),
            None => counters_of(entries_view(entries@)) is None,
        },
{
    let ghost e = entries_view(entries@);
    let mut map: HashMap<u64, _ProxyInfo> = HashMap::new();
    let mut i: usize = 0;
    assert(e.take(0) =~= Seq::empty());
    while i < entries.len()
        invariant
            i <= entries.len(),
            e == entries_view(entries@),
            counters_of(e.take(i as int)) == Some(map@),
        decreases entries.len() - i,
    {
        let chars = to_chars(entries[i].0.as_str());
        proof {
            assert(e.take(i + 1).drop_last() =~= e.take(i as int));
            assert(e.take(i + 1).last() == (entries@[i as int].0@, entries@[i as int].1));
        }
        match read_endpoint(&chars) {
            None => {
                proof {
                    lemma_counters_prefix(e, i + 1);
                }
                return None;
            },
            Some(key) => {
                if map.contains_key(&key) {
                    proof {
                        lemma_counters_prefix(e, i + 1);
                    }
                    return None;
                }
                map.insert(key, entries[i].1);
            },
        }
        i += 1;
    }
    assert(e.take(entries.len() as int) =~= e);
    Some(map)
}

/// The endpoint `k` of `list` cannot be taken in: it has no counters in
/// `given`, or counters that do not fit, or it was seen before.
pub open spec fn unfit(
    list: Seq<Proxy>,
    given: Map<u64, _ProxyInfo>,
    seen: Set<u64>,
    k: u64,
) -> bool {
    has_key(list, k) && (!given.contains_key(k) || !given[k].wf() || seen.contains(k))
}

/// A pool that lists an endpoint without counters that fit does not keep
/// the invariant.
pub proof fn lemma_listed_needs_counters(pool: PoolView, k: u64)
    requires
        has_key(pool.unstable, k) || has_key(pool.stable, k),
        !pool.info.contains_key(k) || !pool.info[k].wf(),
    ensures
        !pool.wf(),
{
    if pool.wf() {
        assert(pool.info.contains_key(k) <==> has_key(pool.unstable, k) || has_key(
            pool.stable,
            k,
        ));
        assert(pool.info.contains_key(k) ==> pool.info[k].wf());
    }
}

/// A pool that lists an endpoint in both tiers does not keep the invariant.
pub proof fn lemma_listed_twice(pool: PoolView, k: u64)
    requires
        has_key(pool.unstable, k),
        has_key(pool.stable, k),
    ensures
        !pool.wf(),
{
    if pool.wf() {
        assert(!(has_key(pool.unstable, k) && has_key(pool.stable, k)));
    }
}

/// Goes through the proxies of one tier: each must have counters that fit
/// in `given` and an endpoint that was not seen before. Notes the endpoints
/// in `seen`.
fn mark(list: &Vec<Proxy>, given: &HashMap<u64, _ProxyInfo>, seen: &mut HashSet<u64>) -> (ok: bool)
    ensures
        ok ==> {
            &&& unique_keys(list@)
            &&& forall|k: u64|
                #![trigger final(seen)@.contains(k)]
                #![trigger has_key(list@, k)]
                final(seen)@.contains(k) <==> old(seen)@.contains(k) || has_key(list@, k)
            &&& forall|k: u64| !unfit(list@, given@, old(seen)@, k)
        },
        !ok ==> !unique_keys(list@) || exists|k: u64| unfit(list@, given@, old(seen)@, k),
{
    let mut i: usize = 0;
    proof {
        assert forall|k: u64| !has_key(list@.take(0), k) by {
            if has_key(list@.take(0), k) {
                let j = choose|j: int|
                    0 <= j < list@.take(0).len() && #[trigger] list@.take(0)[j].key() == k;
            }
        }
    }
    while i < list.len()
        invariant
            i <= list.len(),
            unique_keys(list@.take(i as int)),
            forall|k: u64|
                seen@.contains(k) <==> old(seen)@.contains(k) || has_key(list@.take(i as int), k),
            forall|k: u64| !unfit(list@.take(i as int), given@, old(seen)@, k),
        decreases list.len() - i,
    {
        let p = list[i];
        let key = p.get_key();
        proof {
            assert(list@[i as int].key() == key);
            assert(has_key(list@, key));
            assert(list@.take(i + 1) =~= list@.take(i as int).push(p));
        }
        let fits = match given.get(&key) {
            Some(info) => info.fits(),
            None => false,
        };
        if !fits {
            assert(unfit(list@, given@, old(seen)@, key));
            return false;
        }
        if seen.contains(&key) {
            proof {
                if has_key(list@.take(i as int), key) {
                    let j = choose|j: int|
                        0 <= j < list@.take(i as int).len() && #[trigger] list@.take(
                            i as int,
                        )[j].key() == key;
                    assert(list@[j].key() == list@[i as int].key());
                } else {
                    assert(unfit(list@, given@, old(seen)@, key));
                }
            }
            return false;
        }
        seen.insert(key);
        proof {
            lemma_unique_push(list@.take(i as int), p);
            assert forall|k: u64|
                seen@.contains(k) <==> old(seen)@.contains(k) || has_key(
                    list@.take(i + 1),
                    k,
                ) by {
                lemma_has_key_push(list@.take(i as int), p, k);
            }
            let longer = list@.take(i + 1);
            assert forall|k: u64| !unfit(longer, given@, old(seen)@, k) by {
                lemma_has_key_push(list@.take(i as int), p, k);
                assert(!unfit(list@.take(i as int), given@, old(seen)@, k));
            }
        }
        i += 1;
    }
    assert(list@.take(list.len() as int) =~= list@);
    true
}

impl ProxyPool {
    /// The pool as plain data: the tiers as they stand, and one entry of
    /// counters for each proxy, the unstable ones first.
    pub fn snapshot(&self) -> (snap: PoolSnapshot)
        requires
            self.wf(),
        ensures
            snap@ == snapshot_of(self@),
    {
        let unstable = copy_proxies(self.get_unstable());
        let stable = copy_proxies(self.get_stable());
        let mut info: Vec<(String, _ProxyInfo)> = Vec::new();
        proof {
            assert forall|i: int| 0 <= i < self@.unstable.len() implies self@.contains(
                #[trigger] self@.unstable[i].key(),
            ) by {
                assert(has_key(self@.unstable, self@.unstable[i].key()));
            }
            assert forall|i: int| 0 <= i < self@.stable.len() implies self@.contains(
                #[trigger] self@.stable[i].key(),
            ) by {
                assert(has_key(self@.stable, self@.stable[i].key()));
            }
        }
        push_entries(self, self.get_unstable(), &mut info);
        push_entries(self, self.get_stable(), &mut info);
        let snap = PoolSnapshot { unstable, stable, info };
        assert(entries_view(snap.info@) =~= entries_of(self@, self@.unstable + self@.stable));
        snap
    }

    /// The pool that a snapshot stands for, or nothing if it stands for
    /// none.
    pub fn restore(snap: &PoolSnapshot) -> (r: Option<ProxyPool>)
        ensures
            match r {
                Some(pool) => pool.wf() && restored(snap@) == Some(pool@),
                None => restored(snap@) is None,
            },
    {
        let given = match read_counters(&snap.info) {
            Some(given) => given,
            None => {
                return None;
            },
        };
        let ghost pool = PoolView { unstable: snap.unstable@, stable: snap.stable@, info: given@ };
        let mut seen: HashSet<u64> = HashSet::new();
        if !mark(&snap.unstable, &given, &mut seen) {
            proof {
                if unique_keys(pool.unstable) {
                    let k = choose|k: u64| unfit(pool.unstable, given@, Set::<u64>::empty(), k);
                    lemma_listed_needs_counters(pool, k);
                }
            }
            return None;
        }
        let ghost seen_unstable = seen@;
        if !mark(&snap.stable, &given, &mut seen) {
            proof {
                if unique_keys(pool.stable) {
                    let k = choose|k: u64| unfit(pool.stable, given@, seen_unstable, k);
                    if seen_unstable.contains(k) {
                        lemma_listed_twice(pool, k);
                    } else {
                        lemma_listed_needs_counters(pool, k);
                    }
                }
            }
            return None;
        }
        // Every endpoint that a tier lists has counters that fit, and no
        // endpoint is listed twice. What is left to see is that no counters
        // are without a proxy.
        proof {
            assert forall|k: u64| seen@.contains(k) implies given@.dom().contains(k) by {
                assert(!unfit(pool.unstable, given@, Set::<u64>::empty(), k));
                assert(!unfit(pool.stable, given@, seen_unstable, k));
            }
            assert(seen@.subset_of(given@.dom()));
        }
        if seen.len() != given.len() {
            proof {
                if pool.wf() {
                    assert forall|k: u64| seen@.contains(k) <==> given@.dom().contains(k) by {
                        assert(pool.info.contains_key(k) <==> has_key(pool.unstable, k) || has_key(
                            pool.stable,
                            k,
                        ));
                    }
                    assert(seen@ =~= given@.dom());
                }
            }
            return None;
        }
        proof {
            lemma_subset_equality(seen@, given@.dom());
            assert forall|k: u64| #[trigger]
                pool.info.contains_key(k) <==> has_key(pool.unstable, k) || has_key(
                    pool.stable,
                    k,
                ) by {
                assert(seen@.contains(k) <==> given@.dom().contains(k));
                assert(seen@.contains(k) <==> seen_unstable.contains(k) || has_key(pool.stable, k));
                assert(seen_unstable.contains(k) <==> has_key(pool.unstable, k));
            }
            assert forall|k: u64| #[trigger] pool.info.contains_key(k) implies pool.info[k].wf() by {
                assert(seen@.contains(k) <==> given@.dom().contains(k));
                assert(seen@.contains(k) <==> seen_unstable.contains(k) || has_key(pool.stable, k));
                assert(seen_unstable.contains(k) <==> has_key(pool.unstable, k));
                assert(!unfit(pool.unstable, given@, Set::<u64>::empty(), k));
                assert(!unfit(pool.stable, given@, seen_unstable, k));
            }
            assert forall|k: u64|
                !(#[trigger] has_key(pool.unstable, k) && has_key(pool.stable, k)) by {
                assert(!unfit(pool.stable, given@, seen_unstable, k));
            }
        }
        Some(ProxyPool::assemble(copy_proxies(&snap.unstable), copy_proxies(&snap.stable), given))
    }
}

} // verus!
