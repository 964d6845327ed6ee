//! The settings that the pool's workers read.

use vstd::prelude::*;
use crate::proxy::SslType;
use crate::rate::Rate;

verus! {

/// All settings.
#[derive(Debug)]
pub struct Config {
    /// The password that guards a reload.
    pub password: String,
    /// The checker's settings.
    pub checker: CheckerConfig,
    /// The spider's settings.
    pub spider: SpiderConfig,
}

/// The checker's settings.
#[derive(Debug)]
pub struct CheckerConfig {
    /// How many probes run at once.
    pub max_workers: usize,
    /// Seconds between two rounds.
    pub interval: u64,
    /// The address that an HTTP proxy is probed with.
    pub url_http: String,
    /// The address that an HTTPS proxy is probed with.
    pub url_https: String,
    /// Seconds after which a probe has failed.
    pub timeout: u64,
    /// The least number of probes before a proxy can be promoted.
    pub min_cnt_level_up: u32,
    /// The least number of probes before a proxy is dropped for its
    /// stability.
    pub min_cnt_remove: u32,
    /// The number of probes after which a proxy that is still unstable is
    /// dropped.
    pub max_cnt_remove: u32,
    /// The limits on failures in a row.
    pub fail_times: FailTimes,
    /// The limits on stability.
    pub stability: Stability,
}

/// The limits on failures in a row.
#[derive(Debug, Clone, Copy, PartialEq, Eq, Structural)]
pub struct FailTimes {
    /// A stable proxy with this many is demoted.
    pub level_down: u8,
    /// An unstable proxy with this many is dropped.
    pub remove: u8,
}

/// The limits on stability.
#[derive(Debug, Clone, Copy, PartialEq, Eq, Structural)]
pub struct Stability {
    /// An unstable proxy with at least this much can be promoted.
    pub level_up: Rate,
    /// A stable proxy with less than this is demoted.
    pub level_down: Rate,
    /// An unstable proxy with less than this can be dropped.
    pub remove: Rate,
}

impl Stability {
    /// Each limit is a fraction with a positive denominator.
    pub open spec fn wf(&self) -> bool {
        self.level_up.wf() && self.level_down.wf() && self.remove.wf()
    }
}

impl CheckerConfig {
    /// The limits on stability are fractions.
    pub open spec fn wf(&self) -> bool {
        self.stability.wf()
    }

    /// The address that a proxy of the scheme `ssl_type` is probed with.
    pub fn probe_url(&self, ssl_type: SslType) -> (url: &String)
        ensures
            url == match ssl_type {
                SslType::HTTPS => self.url_https,
                SslType::HTTP => self.url_http,
            },
    {
        match ssl_type {
            SslType::HTTPS => &self.url_https,
            SslType::HTTP => &self.url_http,
        }
    }
}

/// The spider's settings.
#[derive(Debug)]
pub struct SpiderConfig {
    /// Seconds between two rounds.
    pub interval: u64,
    /// The sites that list proxies in a table.
    pub common_table: Vec<CommonTable>,
    /// The sites that are read with regular expressions.
    pub common_regex: Vec<CommonRegex>,
}

/// A site that lists its proxies in a table, read with XPath.
#[derive(Debug)]
pub struct CommonTable {
    /// Whether the site is read at all.
    pub enable: bool,
    /// The site's name.
    pub name: String,
    /// The pages to read.
    pub urls: Vec<String>,
    /// The path that finds the rows.
    pub xpath_line: String,
    /// The path that finds the cells of a row.
    pub xpath_col: String,
    /// The cells that hold address, port, anonymity and scheme.
    pub info_index: [usize; 4],
}

/// A site that is read with four regular expressions.
#[derive(Debug)]
pub struct CommonRegex {
    /// Whether the site is read at all.
    pub enable: bool,
    /// The site's name.
    pub name: String,
    /// The pages to read.
    pub urls: Vec<String>,
    /// The expression that finds the addresses.
    pub ip: String,
    /// The expression that finds the ports.
    pub port: String,
    /// The expression that finds the anonymity.
    pub anonymity: String,
    /// The expression that finds the scheme.
    pub ssl_type: String,
}

/// How a site's pages are read.
#[derive(Debug)]
pub enum SpiderRule {
    /// A table, read with XPath.
    CommonTable {
        /// The path that finds the rows.
        xpath_line: String,
        /// The path that finds the cells of a row.
        xpath_col: String,
        /// The cells that hold address, port, anonymity and scheme.
        info_index: [usize; 4],
    },
    /// Four regular expressions.
    CommonRegex {
        /// The expression that finds the addresses.
        ip: String,
        /// The expression that finds the ports.
        port: String,
        /// The expression that finds the anonymity.
        anonymity: String,
        /// The expression that finds the scheme.
        ssl_type: String,
    },
}

} // verus!
