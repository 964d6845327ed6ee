//! The pool as a mathematical value: two sequences of proxies and a map from
//! endpoint key to counters, with the operations on it and the proof that
//! each keeps the pool's invariant.

use vstd::prelude::*;
use crate::proxy::Proxy;
use crate::stats::_ProxyInfo;

verus! {

/// Some proxy of `s` has the key `key`.
pub open spec fn has_key(s: Seq<Proxy>, key: u64) -> bool {
    exists|i: int| 0 <= i < s.len() && #[trigger] s[i].key() == key
}

/// No two proxies of `s` have the same key.
pub open spec fn unique_keys(s: Seq<Proxy>) -> bool {
    forall|i: int, j: int| 0 <= i < j < s.len() ==> #[trigger] s[i].key() != #[trigger] s[j].key()
}

/// The first position at or after `from` at which `s` holds a proxy with
/// the key `key`, or the length of `s` if there is none.
pub open spec fn position_from(s: Seq<Proxy>, key: u64, from: int) -> int
    decreases s.len() - from,
{
    if from >= s.len() {
        s.len() as int
    } else if s[from].key() == key {
        from
    } else {
        position_from(s, key, from + 1)
    }
}

/// The first position at which `s` holds a proxy with the key `key`, or the
/// length of `s` if there is none.
pub open spec fn position(s: Seq<Proxy>, key: u64) -> int {
    position_from(s, key, 0)
}

/// `s` without its first proxy with the key `key`, the others in their order.
pub open spec fn without(s: Seq<Proxy>, key: u64) -> Seq<Proxy> {
    let at = position(s, key);
    if at < s.len() {
        s.remove(at)
    } else {
        s
    }
}

/// What `position_from` finds is the first proxy with that key.
pub proof fn lemma_position_from(s: Seq<Proxy>, key: u64, from: int)
    requires
        0 <= from <= s.len(),
    ensures
        from <= position_from(s, key, from) <= s.len(),
        position_from(s, key, from) < s.len() ==> s[position_from(s, key, from)].key() == key,
        forall|j: int| from <= j < position_from(s, key, from) ==> #[trigger] s[j].key() != key,
    decreases s.len() - from,
{
    if from < s.len() && s[from].key() != key {
        lemma_position_from(s, key, from + 1);
    }
}

/// What `position` finds is the first proxy with that key, and it finds one
/// exactly when there is one.
pub proof fn lemma_position(s: Seq<Proxy>, key: u64)
    ensures
        0 <= position(s, key) <= s.len(),
        position(s, key) < s.len() <==> has_key(s, key),
        position(s, key) < s.len() ==> s[position(s, key)].key() == key,
        forall|j: int| 0 <= j < position(s, key) ==> #[trigger] s[j].key() != key,
{
    lemma_position_from(s, key, 0);
}

/// Appending a proxy adds its key to those present.
pub proof fn lemma_has_key_push(s: Seq<Proxy>, p: Proxy, key: u64)
    ensures
        has_key(s.push(p), key) <==> has_key(s, key) || p.key() == key,
{
    if has_key(s, key) {
        let i = choose|i: int| 0 <= i < s.len() && #[trigger] s[i].key() == key;
        assert(s.push(p)[i].key() == key);
    }
    if p.key() == key {
        assert(s.push(p)[s.len() as int].key() == key);
    }
    if has_key(s.push(p), key) {
        let i = choose|i: int| 0 <= i < s.push(p).len() && #[trigger] s.push(p)[i].key() == key;
        if i < s.len() {
            assert(s[i].key() == key);
        }
    }
}

/// Appending a proxy with a new key keeps the keys unique.
pub proof fn lemma_unique_push(s: Seq<Proxy>, p: Proxy)
    requires
        unique_keys(s),
        !has_key(s, p.key()),
    ensures
        unique_keys(s.push(p)),
{
    let t = s.push(p);
    assert forall|i: int, j: int| 0 <= i < j < t.len() implies #[trigger] t[i].key()
        != #[trigger] t[j].key() by {
        if j < s.len() {
            assert(s[i].key() != s[j].key());
        } else {
            assert(s[i].key() != p.key());
        }
    }
}

/// Taking a key out of a sequence with unique keys removes exactly that key.
pub proof fn lemma_without(s: Seq<Proxy>, key: u64, k: u64)
    requires
        unique_keys(s),
    ensures
        unique_keys(without(s, key)),
        has_key(without(s, key), k) <==> has_key(s, k) && k != key,
        has_key(s, key) ==> without(s, key).len() == s.len() - 1,
        !has_key(s, key) ==> without(s, key) == s,
{
    lemma_position(s, key);
    let at = position(s, key);
    let t = without(s, key);
    if at < s.len() {
        assert forall|i: int, j: int| 0 <= i < j < t.len() implies #[trigger] t[i].key()
            != #[trigger] t[j].key() by {
            let si = if i < at {
                i
            } else {
                i + 1
            };
            let sj = if j < at {
                j
            } else {
                j + 1
            };
            assert(t[i] == s[si] && t[j] == s[sj]);
            assert(s[si].key() != s[sj].key());
        }
        if has_key(t, k) {
            let i = choose|i: int| 0 <= i < t.len() && #[trigger] t[i].key() == k;
            let si = if i < at {
                i
            } else {
                i + 1
            };
            assert(t[i] == s[si]);
            assert(s[si].key() == k);
            if si < at {
                assert(s[si].key() != s[at].key());
            } else {
                assert(s[at].key() != s[si].key());
            }
        }
        if has_key(s, k) && k != key {
            let i = choose|i: int| 0 <= i < s.len() && #[trigger] s[i].key() == k;
            let ti = if i < at {
                i
            } else {
                i - 1
            };
            assert(t[ti] == s[i]);
            assert(t[ti].key() == k);
        }
    }
}

/// The pool as a value.
pub struct PoolView {
    /// The proxies that were found or demoted, in the order in which they
    /// came.
    pub unstable: Seq<Proxy>,
    /// The proxies that were promoted, in the order in which they came.
    pub stable: Seq<Proxy>,
    /// The counters of each endpoint, by key.
    pub info: Map<u64, _ProxyInfo>,
}

impl PoolView {
    /// The pool's invariant: no endpoint is listed twice, whether in one tier
    /// or across the two; the endpoints with counters are exactly those that
    /// are listed; and every counter fits its type.
    pub open spec fn wf(self) -> bool {
        &&& unique_keys(self.unstable)
        &&& unique_keys(self.stable)
        &&& forall|k: u64| !(#[trigger] has_key(self.unstable, k) && has_key(self.stable, k))
        &&& forall|k: u64| #[trigger]
            self.info.contains_key(k) <==> has_key(self.unstable, k) || has_key(self.stable, k)
        &&& forall|k: u64| #[trigger] self.info.contains_key(k) ==> self.info[k].wf()
    }

    /// The pool with nothing in it.
    pub open spec fn empty() -> PoolView {
        PoolView { unstable: Seq::empty(), stable: Seq::empty(), info: Map::empty() }
    }

    /// The endpoint `key` is in the pool.
    pub open spec fn contains(self, key: u64) -> bool {
        self.info.contains_key(key)
    }

    /// The pool after `p` was offered to it: a new endpoint joins the
    /// unstable tier with fresh counters, a known one changes nothing.
    pub open spec fn insert_unstable(self, p: Proxy) -> PoolView {
        if self.info.contains_key(p.key()) {
            self
        } else {
            PoolView {
                unstable: self.unstable.push(p),
                stable: self.stable,
                info: self.info.insert(
                    p.key(),
                    _ProxyInfo { success: 0, failed: 0, fail_times: 0 },
                ),
            }
        }
    }

    /// The pool after each proxy of `batch` was offered to it in turn.
    pub open spec fn extend_unstable(self, batch: Seq<Proxy>) -> PoolView
        decreases batch.len(),
    {
        if batch.len() == 0 {
            self
        } else {
            self.extend_unstable(batch.drop_last()).insert_unstable(batch.last())
        }
    }

    /// The pool after the unstable proxy with the key `key` was promoted: it
    /// leaves the unstable tier and joins the end of the stable one.
    pub open spec fn move_to_stable(self, key: u64) -> PoolView {
        PoolView {
            unstable: without(self.unstable, key),
            stable: self.stable.push(self.unstable[position(self.unstable, key)]),
            info: self.info,
        }
    }

    /// The pool after the stable proxy with the key `key` was demoted: it
    /// leaves the stable tier and joins the end of the unstable one.
    pub open spec fn move_to_unstable(self, key: u64) -> PoolView {
        PoolView {
            unstable: self.unstable.push(self.stable[position(self.stable, key)]),
            stable: without(self.stable, key),
            info: self.info,
        }
    }

    /// The pool after the unstable proxy with the key `key` was dropped,
    /// with its counters.
    pub open spec fn remove_unstable(self, key: u64) -> PoolView {
        PoolView {
            unstable: without(self.unstable, key),
            stable: self.stable,
            info: self.info.remove(key),
        }
    }

    /// The pool after the stable proxy with the key `key` was dropped, with
    /// its counters.
    pub open spec fn remove_stable(self, key: u64) -> PoolView {
        PoolView {
            unstable: self.unstable,
            stable: without(self.stable, key),
            info: self.info.remove(key),
        }
    }

    /// The pool after a probe of the endpoint `key` was counted.
    pub open spec fn record(self, key: u64, alive: bool) -> PoolView {
        PoolView {
            unstable: self.unstable,
            stable: self.stable,
            info: self.info.insert(key, self.info[key].after_probe(alive)),
        }
    }

    /// Every endpoint's counters can take `n` more probes.
    pub open spec fn room_for(self, n: nat) -> bool {
        forall|k: u64| #[trigger] self.info.contains_key(k) ==> self.info[k].checks() + n <= u32::MAX
    }
}

/// Offering a proxy keeps the invariant.
pub proof fn lemma_insert_unstable_wf(pool: PoolView, p: Proxy)
    requires
        pool.wf(),
    ensures
        pool.insert_unstable(p).wf(),
{
    let next = pool.insert_unstable(p);
    if !pool.info.contains_key(p.key()) {
        lemma_unique_push(pool.unstable, p);
        assert forall|k: u64| !(#[trigger] has_key(next.unstable, k) && has_key(next.stable, k)) by {
            lemma_has_key_push(pool.unstable, p, k);
            assert(pool.info.contains_key(k) <==> has_key(pool.unstable, k) || has_key(
                pool.stable,
                k,
            ));
        }
        assert forall|k: u64| #[trigger]
            next.info.contains_key(k) <==> has_key(next.unstable, k) || has_key(
                next.stable,
                k,
            ) by {
            lemma_has_key_push(pool.unstable, p, k);
            assert(pool.info.contains_key(k) <==> has_key(pool.unstable, k) || has_key(
                pool.stable,
                k,
            ));
        }
        assert forall|k: u64| #[trigger] next.info.contains_key(k) implies next.info[k].wf() by {
            if k != p.key() {
                assert(pool.info.contains_key(k));
            }
        }
    }
}

/// Offering a batch keeps the invariant.
pub proof fn lemma_extend_unstable_wf(pool: PoolView, batch: Seq<Proxy>)
    requires
        pool.wf(),
    ensures
        pool.extend_unstable(batch).wf(),
    decreases batch.len(),
{
    if batch.len() > 0 {
        lemma_extend_unstable_wf(pool, batch.drop_last());
        lemma_insert_unstable_wf(pool.extend_unstable(batch.drop_last()), batch.last());
    }
}

/// Promoting an unstable proxy keeps the invariant.
pub proof fn lemma_move_to_stable_wf(pool: PoolView, key: u64)
    requires
        pool.wf(),
        has_key(pool.unstable, key),
    ensures
        pool.move_to_stable(key).wf(),
{
    let next = pool.move_to_stable(key);
    lemma_position(pool.unstable, key);
    let moved = pool.unstable[position(pool.unstable, key)];
    lemma_without(pool.unstable, key, key);
    assert(!has_key(pool.stable, key)) by {
        assert(!(has_key(pool.unstable, key) && has_key(pool.stable, key)));
    }
    lemma_unique_push(pool.stable, moved);
    assert forall|k: u64| !(#[trigger] has_key(next.unstable, k) && has_key(next.stable, k)) by {
        lemma_without(pool.unstable, key, k);
        lemma_has_key_push(pool.stable, moved, k);
        assert(!(has_key(pool.unstable, k) && has_key(pool.stable, k)));
    }
    assert forall|k: u64| #[trigger]
        next.info.contains_key(k) <==> has_key(next.unstable, k) || has_key(next.stable, k) by {
        lemma_without(pool.unstable, key, k);
        lemma_has_key_push(pool.stable, moved, k);
        assert(pool.info.contains_key(k) <==> has_key(pool.unstable, k) || has_key(
            pool.stable,
            k,
        ));
    }
}

/// Demoting a stable proxy keeps the invariant.
pub proof fn lemma_move_to_unstable_wf(pool: PoolView, key: u64)
    requires
        pool.wf(),
        has_key(pool.stable, key),
    ensures
        pool.move_to_unstable(key).wf(),
{
    let next = pool.move_to_unstable(key);
    lemma_position(pool.stable, key);
    let moved = pool.stable[position(pool.stable, key)];
    lemma_without(pool.stable, key, key);
    assert(!has_key(pool.unstable, key)) by {
        assert(!(has_key(pool.unstable, key) && has_key(pool.stable, key)));
    }
    lemma_unique_push(pool.unstable, moved);
    assert forall|k: u64| !(#[trigger] has_key(next.unstable, k) && has_key(next.stable, k)) by {
        lemma_without(pool.stable, key, k);
        lemma_has_key_push(pool.unstable, moved, k);
        assert(!(has_key(pool.unstable, k) && has_key(pool.stable, k)));
    }
    assert forall|k: u64| #[trigger]
        next.info.contains_key(k) <==> has_key(next.unstable, k) || has_key(next.stable, k) by {
        lemma_without(pool.stable, key, k);
        lemma_has_key_push(pool.unstable, moved, k);
        assert(pool.info.contains_key(k) <==> has_key(pool.unstable, k) || has_key(
            pool.stable,
            k,
        ));
    }
}

/// Dropping an unstable proxy keeps the invariant.
pub proof fn lemma_remove_unstable_wf(pool: PoolView, key: u64)
    requires
        pool.wf(),
        has_key(pool.unstable, key),
    ensures
        pool.remove_unstable(key).wf(),
{
    let next = pool.remove_unstable(key);
    lemma_without(pool.unstable, key, key);
    assert(!has_key(pool.stable, key)) by {
        assert(!(has_key(pool.unstable, key) && has_key(pool.stable, key)));
    }
    assert forall|k: u64| !(#[trigger] has_key(next.unstable, k) && has_key(next.stable, k)) by {
        lemma_without(pool.unstable, key, k);
        assert(!(has_key(pool.unstable, k) && has_key(pool.stable, k)));
    }
    assert forall|k: u64| #[trigger]
        next.info.contains_key(k) <==> has_key(next.unstable, k) || has_key(next.stable, k) by {
        lemma_without(pool.unstable, key, k);
        assert(pool.info.contains_key(k) <==> has_key(pool.unstable, k) || has_key(
            pool.stable,
            k,
        ));
    }
    assert forall|k: u64| #[trigger] next.info.contains_key(k) implies next.info[k].wf() by {
        assert(pool.info.contains_key(k));
    }
}

/// Dropping a stable proxy keeps the invariant.
pub proof fn lemma_remove_stable_wf(pool: PoolView, key: u64)
    requires
        pool.wf(),
        has_key(pool.stable, key),
    ensures
        pool.remove_stable(key).wf(),
{
    let next = pool.remove_stable(key);
    lemma_without(pool.stable, key, key);
    assert(!has_key(pool.unstable, key)) by {
        assert(!(has_key(pool.unstable, key) && has_key(pool.stable, key)));
    }
    assert forall|k: u64| !(#[trigger] has_key(next.unstable, k) && has_key(next.stable, k)) by {
        lemma_without(pool.stable, key, k);
        assert(!(has_key(pool.unstable, k) && has_key(pool.stable, k)));
    }
    assert forall|k: u64| #[trigger]
        next.info.contains_key(k) <==> has_key(next.unstable, k) || has_key(next.stable, k) by {
        lemma_without(pool.stable, key, k);
        assert(pool.info.contains_key(k) <==> has_key(pool.unstable, k) || has_key(
            pool.stable,
            k,
        ));
    }
    assert forall|k: u64| #[trigger] next.info.contains_key(k) implies next.info[k].wf() by {
        assert(pool.info.contains_key(k));
    }
}

/// Counting a probe of a listed endpoint whose counters have room keeps the
/// invariant.
pub proof fn lemma_record_wf(pool: PoolView, key: u64, alive: bool)
    requires
        pool.wf(),
        pool.info.contains_key(key),
        pool.info[key].has_room(),
    ensures
        pool.record(key, alive).wf(),
{
    let next = pool.record(key, alive);
    assert forall|k: u64| #[trigger]
        next.info.contains_key(k) <==> has_key(next.unstable, k) || has_key(next.stable, k) by {
        assert(pool.info.contains_key(k) <==> has_key(pool.unstable, k) || has_key(
            pool.stable,
            k,
        ));
    }
    assert forall|k: u64| #[trigger] next.info.contains_key(k) implies next.info[k].wf() by {
        if k != key {
            assert(pool.info.contains_key(k));
        }
    }
}

} // verus!
