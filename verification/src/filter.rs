//! What a query may ask of the proxies it is given.

use vstd::prelude::*;
use crate::proxy::{anonymity_of, ssl_type_of, AnonymityLevel, Proxy, SslType};
use crate::rate::Rate;
use crate::stats::_ProxyInfo;

verus! {

/// The options of a query. An option that is not given admits every proxy.
#[derive(Debug, Clone, Copy)]
pub struct Filter {
    /// The scheme that the proxy must serve.
    pub ssl_type: Option<SslType>,
    /// The anonymity that the proxy must have.
    pub anonymity: Option<AnonymityLevel>,
    /// The least share of successful probes that the proxy must have shown.
    pub stability: Option<Rate>,
}

impl Filter {
    /// The proxy `p` with the counters `info` meets every option given. A
    /// proxy that was never probed has shown no stability.
    pub open spec fn admits(&self, p: Proxy, info: _ProxyInfo) -> bool {
        &&& (self.ssl_type matches Some(t) ==> p.ssl_type == t)
        &&& (self.anonymity matches Some(a) ==> p.anonymity == a)
        &&& (self.stability matches Some(min) ==> info.proven_stability().at_least(&min))
    }

    /// No option is given.
    pub open spec fn spec_is_empty(&self) -> bool {
        self.ssl_type is None && self.anonymity is None && self.stability is None
    }

    /// The filter that a query's parameters stand for: scheme and anonymity
    /// are read as a listing's texts are.
    pub open spec fn of_texts(
        ssl_type: Option<Seq<char>>,
        anonymity: Option<Seq<char>>,
        stability: Option<Rate>,
    ) -> Filter {
        Filter {
            ssl_type: match ssl_type {
                Some(s) => Some(ssl_type_of(s)),
                None => None,
            },
            anonymity: match anonymity {
                Some(s) => Some(anonymity_of(s)),
                None => None,
            },
            stability,
        }
    }

    /// The filter that admits every proxy.
    pub fn any() -> (filter: Filter)
        ensures
            filter.spec_is_empty(),
    {
        Filter { ssl_type: None, anonymity: None, stability: None }
    }

    /// Reads a query's parameters.
    pub fn parse(ssl_type: Option<&str>, anonymity: Option<&str>, stability: Option<Rate>) -> (filter:
        Filter)
        ensures
            filter == Filter::of_texts(
                match ssl_type {
                    Some(s) => Some(s@),
                    None => None,
                },
                match anonymity {
                    Some(s) => Some(s@),
                    None => None,
                },
                stability,
            ),
    {
        Filter {
            ssl_type: match ssl_type {
                Some(s) => Some(SslType::from_str(s)),
                None => None,
            },
            anonymity: match anonymity {
                Some(s) => Some(AnonymityLevel::from_str(s)),
                None => None,
            },
            stability,
        }
    }

    /// Whether no option is given.
    #[verifier::when_used_as_spec(spec_is_empty)]
    pub fn is_empty(&self) -> (empty: bool)
        ensures
            empty == self.spec_is_empty(),
    {
        self.ssl_type.is_none() && self.anonymity.is_none() && self.stability.is_none()
    }

    /// Whether the proxy `p` with the counters `info` meets every option.
    pub fn accepts(&self, p: &Proxy, info: &_ProxyInfo) -> (yes: bool)
        requires
            info.wf(),
        ensures
            yes == self.admits(*p, *info),
    {
        let scheme_ok = match self.ssl_type {
            Some(t) => p.ssl_type() == t,
            None => true,
        };
        let anonymity_ok = match self.anonymity {
            Some(a) => p.anonymity() == a,
            None => true,
        };
        let stability_ok = match self.stability {
            Some(min) => info.proven_at_least(&min),
            None => true,
        };
        scheme_ok && anonymity_ok && stability_ok
    }
}

} // verus!
