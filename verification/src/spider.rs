//! The spider's round: which sites are read, how a page is asked for, and
//! what is done with the proxies found.
//!
//! Reading a site is done outside this crate. The functions here say which
//! sites to read and in what order, by which route a page is asked for at
//! each attempt, and they take what was found into the pool.

use vstd::prelude::*;
use crate::config::{CommonRegex, CommonTable, SpiderConfig};
use crate::filter::Filter;
use crate::model::PoolView;
use crate::proxy::{https_lower, AnonymityLevel, Proxy, SslType};
use crate::proxy_pool::ProxyPool;
use crate::text::{contains_text, has_substring, same_text, to_chars};

verus! {

/// A site to read in this round, by its place in the settings.
#[derive(Debug, Clone, Copy, PartialEq, Eq, Structural)]
pub enum Planned {
    /// The table site at this index of `common_table`.
    Table(usize),
    /// The regular-expression site at this index of `common_regex`.
    Regex(usize),
}

/// The enabled ones among the first `n` table sites, in order.
pub open spec fn planned_tables(tables: Seq<CommonTable>, n: nat) -> Seq<Planned>
    decreases n,
{
    if n == 0 {
        Seq::empty()
    } else if tables[n - 1].enable {
        planned_tables(tables, (n - 1) as nat).push(Planned::Table((n - 1) as usize))
    } else {
        planned_tables(tables, (n - 1) as nat)
    }
}

/// The enabled ones among the first `n` regular-expression sites, in order.
pub open spec fn planned_regexes(sites: Seq<CommonRegex>, n: nat) -> Seq<Planned>
    decreases n,
{
    if n == 0 {
        Seq::empty()
    } else if sites[n - 1].enable {
        planned_regexes(sites, (n - 1) as nat).push(Planned::Regex((n - 1) as usize))
    } else {
        planned_regexes(sites, (n - 1) as nat)
    }
}

/// The sites of one round: every enabled table site, then every enabled
/// regular-expression site, each group in the order of the settings.
pub open spec fn plan_of(config: SpiderConfig) -> Seq<Planned> {
    planned_tables(config.common_table@, config.common_table@.len()) + planned_regexes(
        config.common_regex@,
        config.common_regex@.len(),
    )
}

impl SpiderConfig {
    /// The sites to read in one round.
    pub fn plan(&self) -> (plan: Vec<Planned>)
        ensures
            plan@ == plan_of(*self),
    {
        let mut plan: Vec<Planned> = Vec::new();
        let mut i: usize = 0;
        while i < self.common_table.len()
            invariant
                i <= self.common_table.len(),
                plan@ == planned_tables(self.common_table@, i as nat),
            decreases self.common_table.len() - i,
        {
            if self.common_table[i].enable {
                plan.push(Planned::Table(i));
            }
            i += 1;
        }
        let ghost tables = plan@;
        let mut j: usize = 0;
        while j < self.common_regex.len()
            invariant
                j <= self.common_regex.len(),
                plan@ == tables + planned_regexes(self.common_regex@, j as nat),
            decreases self.common_regex.len() - j,
        {
            if self.common_regex[j].enable {
                plan.push(Planned::Regex(j));
                assert(plan@ =~= tables + planned_regexes(self.common_regex@, (j + 1) as nat));
            }
            j += 1;
        }
        plan
    }
}

/// Those of the first `n` table sites that have the name `name`, in order.
pub open spec fn named_tables(tables: Seq<CommonTable>, name: Seq<char>, n: nat) -> Seq<Planned>
    decreases n,
{
    if n == 0 {
        Seq::empty()
    } else if tables[n - 1].name@ == name {
        named_tables(tables, name, (n - 1) as nat).push(Planned::Table((n - 1) as usize))
    } else {
        named_tables(tables, name, (n - 1) as nat)
    }
}

/// Those of the first `n` regular-expression sites that have the name
/// `name`, in order.
pub open spec fn named_regexes(sites: Seq<CommonRegex>, name: Seq<char>, n: nat) -> Seq<Planned>
    decreases n,
{
    if n == 0 {
        Seq::empty()
    } else if sites[n - 1].name@ == name {
        named_regexes(sites, name, (n - 1) as nat).push(Planned::Regex((n - 1) as usize))
    } else {
        named_regexes(sites, name, (n - 1) as nat)
    }
}

/// The sites with the name `name`, enabled or not: the table sites, then the
/// regular-expression sites, each group in the order of the settings.
pub open spec fn named_of(config: SpiderConfig, name: Seq<char>) -> Seq<Planned> {
    named_tables(config.common_table@, name, config.common_table@.len()) + named_regexes(
        config.common_regex@,
        name,
        config.common_regex@.len(),
    )
}

impl SpiderConfig {
    /// The sites with the name `name`, for a trial run of one site.
    pub fn named(&self, name: &str) -> (sites: Vec<Planned>)
        ensures
            sites@ == named_of(*self, name@),
    {
        let mut sites: Vec<Planned> = Vec::new();
        let mut i: usize = 0;
        while i < self.common_table.len()
            invariant
                i <= self.common_table.len(),
                sites@ == named_tables(self.common_table@, name@, i as nat),
            decreases self.common_table.len() - i,
        {
            if same_text(self.common_table[i].name.as_str(), name) {
                sites.push(Planned::Table(i));
            }
            i += 1;
        }
        let ghost tables = sites@;
        let mut j: usize = 0;
        while j < self.common_regex.len()
            invariant
                j <= self.common_regex.len(),
                sites@ == tables + named_regexes(self.common_regex@, name@, j as nat),
            decreases self.common_regex.len() - j,
        {
            if same_text(self.common_regex[j].name.as_str(), name) {
                sites.push(Planned::Regex(j));
                assert(sites@ =~= tables + named_regexes(
                    self.common_regex@,
                    name@,
                    (j + 1) as nat,
                ));
            }
            j += 1;
        }
        sites
    }
}

/// How often a page is asked for before it is given up.
pub const FETCH_TRIES: u32 = 5;

/// The route by which a page is asked for.
#[derive(Debug, Clone, Copy, PartialEq, Eq, Structural)]
pub enum Route {
    /// Straight from this machine.
    Direct,
    /// Through an elite proxy of the pool that serves this scheme, or
    /// straight from this machine if the pool has none.
    Pooled(SslType),
}

/// The scheme of the proxy that a page is asked through: HTTPS where the
/// page's address holds `https`, HTTP otherwise.
pub open spec fn scheme_for(url: Seq<char>) -> SslType {
    if has_substring(url, https_lower()) {
        SslType::HTTPS
    } else {
        SslType::HTTP
    }
}

/// The route of the attempt with the number `attempt`, counted from zero:
/// the first attempt goes straight, the next ones through the pool, and
/// after `FETCH_TRIES` attempts there is no further one.
pub open spec fn route_of(attempt: u32, url: Seq<char>) -> Option<Route> {
    if attempt >= FETCH_TRIES {
        None
    } else if attempt == 0 {
        Some(Route::Direct)
    } else {
        Some(Route::Pooled(scheme_for(url)))
    }
}

/// The route by which the page at `url` is asked for at the attempt with the
/// number `attempt`, or nothing if the page is given up.
pub fn route(attempt: u32, url: &str) -> (r: Option<Route>)
    ensures
        r == route_of(attempt, url@),
{
    if attempt >= FETCH_TRIES {
        None
    } else if attempt == 0 {
        Some(Route::Direct)
    } else {
        let chars = to_chars(url);
        let https: Vec<char> = vec!['h', 't', 't', 'p', 's'];
        assert(https@ =~= https_lower());
        if contains_text(&chars, &https) {
            Some(Route::Pooled(SslType::HTTPS))
        } else {
            Some(Route::Pooled(SslType::HTTP))
        }
    }
}

/// The filter by which the spider asks the pool for a proxy of its own: an
/// elite proxy of the scheme `ssl_type`.
pub open spec fn own_filter(ssl_type: SslType) -> Filter {
    Filter { ssl_type: Some(ssl_type), anonymity: Some(AnonymityLevel::Elite), stability: None }
}

/// An elite stable proxy of the scheme `ssl_type`, drawn at random, for the
/// spider's own requests; nothing if the pool has none.
pub fn proxy_for(pool: &ProxyPool, ssl_type: SslType) -> (picked: Option<Proxy>)
    requires
        pool.wf(),
    ensures
        match picked {
            Some(p) => pool@.select(own_filter(ssl_type)).contains(p),
            None => pool@.select(own_filter(ssl_type)).len() == 0,
        },
{
    let filter = Filter {
        ssl_type: Some(ssl_type),
        anonymity: Some(AnonymityLevel::Elite),
        stability: None,
    };
    pool.select_random_by(&filter)
}

/// The proxies that the sites of a round gave, site after site. A site that
/// could not be read gave none.
pub open spec fn gathered<E>(harvest: Seq<Result<Vec<Proxy>, E>>) -> Seq<Proxy>
    decreases harvest.len(),
{
    if harvest.len() == 0 {
        Seq::empty()
    } else {
        gathered(harvest.drop_last()) + match harvest.last() {
            Ok(found) => found@,
            Err(_) => Seq::empty(),
        }
    }
}

/// The number of sites that could not be read.
pub open spec fn failures<E>(harvest: Seq<Result<Vec<Proxy>, E>>) -> nat
    decreases harvest.len(),
{
    if harvest.len() == 0 {
        0
    } else if harvest.last() is Err {
        failures(harvest.drop_last()) + 1
    } else {
        failures(harvest.drop_last())
    }
}

/// Offering two batches one after the other is offering them joined.
pub proof fn lemma_extend_add(pool: PoolView, a: Seq<Proxy>, b: Seq<Proxy>)
    ensures
        pool.extend_unstable(a + b) == pool.extend_unstable(a).extend_unstable(b),
    decreases b.len(),
{
    if b.len() == 0 {
        assert(a + b =~= a);
    } else {
        lemma_extend_add(pool, a, b.drop_last());
        assert((a + b).drop_last() =~= a + b.drop_last());
    }
}

/// No more sites failed than there are.
pub proof fn lemma_failures_bound<E>(harvest: Seq<Result<Vec<Proxy>, E>>)
    ensures
        failures(harvest) <= harvest.len(),
    decreases harvest.len(),
{
    if harvest.len() > 0 {
        lemma_failures_bound(harvest.drop_last());
    }
}

/// One round of the spider, the sites having been read: what each site gave
/// is offered to the pool, site after site; a site that could not be read is
/// passed over. Returns how many sites could not be read.
pub fn spider_thread<E>(pool: &mut ProxyPool, harvest: &Vec<Result<Vec<Proxy>, E>>) -> (failed:
    usize)
    requires
        old(pool).wf(),
    ensures
        final(pool).wf(),
        final(pool)@ == old(pool)@.extend_unstable(gathered(harvest@)),
        failed == failures(harvest@),
{
    let mut failed: usize = 0;
    let mut i: usize = 0;
    assert(harvest@.take(0) =~= Seq::empty());
    while i < harvest.len()
        invariant
            i <= harvest.len(),
            pool.wf(),
            pool@ == old(pool)@.extend_unstable(gathered(harvest@.take(i as int))),
            failed == failures(harvest@.take(i as int)),
        decreases harvest.len() - i,
    {
        proof {
            assert(harvest@.take(i + 1).drop_last() =~= harvest@.take(i as int));
            lemma_failures_bound(harvest@.take(i as int));
        }
        match &harvest[i] {
            Ok(found) => {
                proof {
                    lemma_extend_add(old(pool)@, gathered(harvest@.take(i as int)), found@);
                }
                pool.extend_from(found);
            },
            Err(_) => {
                assert(gathered(harvest@.take(i + 1)) =~= gathered(harvest@.take(i as int)));
                failed += 1;
            },
        }
        i += 1;
    }
    assert(harvest@.take(harvest.len() as int) =~= harvest@);
    failed
}

} // verus!
