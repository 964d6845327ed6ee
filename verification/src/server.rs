//! What the query frontend answers, and what guards a reload request.
//!
//! The frontend itself, with its sockets and its framing, is outside this
//! crate. The functions here take a request's parameters as plain values and
//! give the answer as plain values.

use vstd::prelude::*;
use crate::filter::Filter;
use crate::laws::law_select_all_and_none;
use crate::proxy::Proxy;
use crate::proxy_pool::{ProxyPool, Status};
use crate::rate::Rate;
use crate::text::same_text;

verus! {

/// The state that a reload request acts on.
#[derive(Debug)]
pub struct MyState {
    /// Whether a reload was asked for and not yet begun.
    pub reload_flag: bool,
    /// The password that guards a reload; none before the first settings
    /// were read.
    pub password: Option<String>,
}

/// A password, or its absence, as characters.
pub open spec fn secret_of(password: Option<String>) -> Option<Seq<char>> {
    match password {
        Some(p) => Some(p@),
        None => None,
    }
}

/// The filter that a query's three parameters stand for.
pub open spec fn query_filter(
    ssl_type: Option<String>,
    anonymity: Option<String>,
    stability: Option<Rate>,
) -> Filter {
    Filter::of_texts(secret_of(ssl_type), secret_of(anonymity), stability)
}

impl MyState {
    /// The state with this flag and this password.
    pub fn new(reload_flag: bool, password: Option<String>) -> (state: MyState)
        ensures
            state.reload_flag == reload_flag,
            state.password == password,
    {
        MyState { reload_flag, password }
    }

    /// Begins a cycle of the workers with freshly read settings: the
    /// password of the settings guards the next reload, and no reload is
    /// asked for.
    pub fn publish(&mut self, password: String)
        ensures
            final(self).password == Some(password),
            !final(self).reload_flag,
    {
        self.password = Some(password);
        self.reload_flag = false;
    }

    /// Takes a reload request. The request succeeds if what it supplies is
    /// the password in force: the same text, or nothing where no password
    /// is in force yet. A request that succeeds raises the flag; one that
    /// fails changes nothing.
    pub fn reload(&mut self, password: &Option<String>) -> (success: bool)
        ensures
            success == (secret_of(old(self).password) == secret_of(*password)),
            final(self).reload_flag == (old(self).reload_flag || success),
            final(self).password == old(self).password,
    {
        let success = match (&self.password, password) {
            (Some(held), Some(supplied)) => same_text(held.as_str(), supplied.as_str()),
            (None, None) => true,
            _ => false,
        };
        if success {
            self.reload_flag = true;
        }
        success
    }

    /// Whether a reload was asked for.
    pub fn reload_requested(&self) -> (yes: bool)
        ensures
            yes == self.reload_flag,
    {
        self.reload_flag
    }
}

/// The answer to a status query: how many proxies the pool holds.
pub fn get_status(pool: &ProxyPool) -> (status: Status)
    ensures
        status.stable == pool@.stable.len(),
        status.unstable == pool@.unstable.len(),
        status.total == pool@.stable.len() + pool@.unstable.len(),
{
    pool.status()
}

/// The answer to a query for one proxy: without parameters a stable proxy
/// drawn at random, with parameters one drawn among those that meet them;
/// nothing if there is none to draw from.
pub fn get_single(
    pool: &ProxyPool,
    ssl_type: Option<String>,
    anonymity: Option<String>,
    stability: Option<Rate>,
) -> (picked: Option<Proxy>)
    requires
        pool.wf(),
    ensures
        ({
            let found = if ssl_type is None && anonymity is None && stability is None {
                pool@.stable
            } else {
                pool@.select(query_filter(ssl_type, anonymity, stability))
            };
            match picked {
                Some(p) => found.contains(p),
                None => found.len() == 0,
            }
        }),
{
    if ssl_type.is_none() && anonymity.is_none() && stability.is_none() {
        pool.get_random()
    } else {
        pool.select_random(ssl_type, anonymity, stability)
    }
}

/// The answer to a query for all proxies: without parameters the stable
/// tier, with parameters those of it that meet them, in their order.
pub fn get_all(
    pool: &ProxyPool,
    ssl_type: Option<String>,
    anonymity: Option<String>,
    stability: Option<Rate>,
) -> (found: Vec<Proxy>)
    requires
        pool.wf(),
    ensures
        found@ == if ssl_type is None && anonymity is None && stability is None {
            pool@.stable
        } else {
            pool@.select(query_filter(ssl_type, anonymity, stability))
        },
{
    proof {
        law_select_all_and_none(pool@, query_filter(ssl_type, anonymity, stability));
    }
    pool.select(ssl_type, anonymity, stability)
}

} // verus!
