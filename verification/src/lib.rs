//! A self-refreshing pool of HTTP and HTTPS proxies.
//!
//! The crate holds the rules of the pool: the candidate model, the two-tier
//! pool with its per-endpoint counters, the promotion, demotion and eviction
//! rules of the checker, and the plain-value parts of the spider and of the
//! query frontend. Fetching pages, probing proxies, serving queries and
//! keeping the pool's file are left to the program around it.

pub mod addr;
pub mod cell;
pub mod checker;
pub mod config;
pub mod endpoint;
pub mod error;
pub mod filter;
pub mod getter;
pub mod laws;
pub mod model;
pub mod options;
pub mod persist;
pub mod proxy;
pub mod proxy_pool;
pub mod rate;
pub mod schedule;
pub mod server;
pub mod spider;
pub mod stats;
pub mod table;
pub mod text;

pub use crate::checker::checker_thread;
pub use crate::config::{
    CheckerConfig, CommonRegex, CommonTable, Config, FailTimes, SpiderConfig, SpiderRule, Stability,
};
pub use crate::error::MyError;
pub use crate::options::Opt;
pub use crate::proxy::{AnonymityLevel, Proxy, SslType};
pub use crate::proxy_pool::{ProxyListInner, ProxyPool};
pub use crate::server::MyState;
pub use crate::spider::spider_thread;
pub use crate::stats::{Info, _ProxyInfo};
