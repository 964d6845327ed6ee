//! Reading proxies out of a listing.
//!
//! A page is fetched outside this crate. What is found on it comes in as
//! texts: the columns that four regular expressions match, or the cells of a
//! table's rows. An entry that reads as no proxy is left out.

use regex::Regex;
use vstd::prelude::*;
use crate::cell::{clean_cell, cleaned};
use crate::proxy::{parse_entry, Proxy};

verus! {

/// `regex::Regex`, a compiled regular expression. Nothing is known of what
/// is inside.
#[verifier::external_type_specification]
#[verifier::external_body]
pub struct ExRegex(regex::Regex);

/// `regex::Error`, the reason why a pattern was refused. Nothing is known of
/// what is inside.
#[verifier::external_type_specification]
#[verifier::external_body]
pub struct ExRegexError(regex::Error);

/// The texts of the successive matches of the regular expression `pattern`
/// in `text`, from left to right and without overlap, as
/// `regex::Regex::captures_iter` finds them. It has a meaning for the
/// patterns that `regex::Regex::new` accepts.
pub uninterp spec fn regex_matches(pattern: Seq<char>, text: Seq<char>) -> Seq<Seq<char>>;

/// A compiled regular expression, with the pattern that it was compiled
/// from. Only `compile` makes one.
pub struct Matcher {
    re: Regex,
    pattern: String,
}

impl Matcher {
    /// The pattern that the expression was compiled from.
    pub closed spec fn pattern(&self) -> Seq<char> {
        self.pattern@
    }
}

/// The texts of `list`, each as its characters.
pub open spec fn texts(list: Seq<String>) -> Seq<Seq<char>> {
    Seq::new(list.len(), |i: int| list[i]@)
}

/// The cells of `rows`, each as its characters.
pub open spec fn cells(rows: Seq<Vec<String>>) -> Seq<Seq<Seq<char>>> {
    Seq::new(rows.len(), |i: int| texts(rows[i]@))
}

/// `regex::Regex::new` on `pattern`. The expression that comes back is kept
/// together with a copy of the pattern. Which patterns are accepted is not
/// stated: the crate refuses a pattern that is no expression and one whose
/// program grows over its size limit.
#[verifier::external_body]
fn compile(pattern: &str) -> (r: Result<Matcher, regex::Error>)
    ensures
        r matches Ok(matcher) ==> matcher.pattern() == pattern@,
{
    Regex::new(pattern).map(|re| Matcher { re, pattern: pattern.to_owned() })
}

/// `regex::Regex::captures_iter` on `text`, each match handed out as the
/// text of its group 0, which is the whole match and stands in every match.
/// The result is a function of the pattern and the text alone.
#[verifier::external_body]
fn find_all(matcher: &Matcher, text: &str) -> (found: Vec<String>)
    ensures
        texts(found@) == regex_matches(matcher.pattern(), text@),
{
    matcher.re.captures_iter(text).map(|found| found[0].to_owned()).collect()
}

/// One of the four texts of an entry.
#[derive(Debug, Clone, Copy, PartialEq, Eq, Structural)]
pub enum Field {
    Ip,
    Port,
    Anonymity,
    SslType,
}

/// Why a listing could not be read.
#[derive(Debug, Clone, Copy, PartialEq, Eq, Structural)]
pub enum GetterError {
    /// The regular expression for this field was refused.
    BadPattern(Field),
}

/// The proxies that the first `n` entries of four columns read as, in order.
/// An entry that reads as no proxy is left out.
pub open spec fn entries_upto(
    ips: Seq<Seq<char>>,
    ports: Seq<Seq<char>>,
    anonymities: Seq<Seq<char>>,
    ssl_types: Seq<Seq<char>>,
    n: nat,
) -> Seq<Proxy>
    decreases n,
{
    if n == 0 {
        Seq::empty()
    } else {
        let before = entries_upto(ips, ports, anonymities, ssl_types, (n - 1) as nat);
        match parse_entry(ips[n - 1], ports[n - 1], anonymities[n - 1], ssl_types[n - 1]) {
            Ok(p) => before.push(p),
            Err(_) => before,
        }
    }
}

/// The least of four lengths.
pub open spec fn shortest(a: nat, b: nat, c: nat, d: nat) -> nat {
    let ab = if a <= b {
        a
    } else {
        b
    };
    let cd = if c <= d {
        c
    } else {
        d
    };
    if ab <= cd {
        ab
    } else {
        cd
    }
}

/// The proxies that four columns read as: the entries are taken side by
/// side, as many as the shortest column has.
pub open spec fn read_columns(
    ips: Seq<Seq<char>>,
    ports: Seq<Seq<char>>,
    anonymities: Seq<Seq<char>>,
    ssl_types: Seq<Seq<char>>,
) -> Seq<Proxy> {
    entries_upto(
        ips,
        ports,
        anonymities,
        ssl_types,
        shortest(ips.len(), ports.len(), anonymities.len(), ssl_types.len()),
    )
}

/// The proxy that a table's row reads as, its four texts standing in the
/// cells `at` as the page holds them; nothing if the row lacks one of the
/// cells or if the texts, made ready for reading, read as no proxy.
pub open spec fn row_entry(row: Seq<Seq<char>>, at: Seq<usize>) -> Option<Proxy> {
    if at[0] < row.len() && at[1] < row.len() && at[2] < row.len() && at[3] < row.len() {
        match parse_entry(
            cleaned(row[at[0] as int]),
            cleaned(row[at[1] as int]),
            cleaned(row[at[2] as int]),
            cleaned(row[at[3] as int]),
        ) {
            Ok(p) => Some(p),
            Err(_) => None,
        }
    } else {
        None
    }
}

/// The proxies that the rows of a table read as, in order.
pub open spec fn read_rows(rows: Seq<Seq<Seq<char>>>, at: Seq<usize>) -> Seq<Proxy>
    decreases rows.len(),
{
    if rows.len() == 0 {
        Seq::empty()
    } else {
        match row_entry(rows.last(), at) {
            Some(p) => read_rows(rows.drop_last(), at).push(p),
            None => read_rows(rows.drop_last(), at),
        }
    }
}

/// The proxies that the pages read as with the four patterns, page after
/// page.
pub open spec fn read_pages(
    pages: Seq<Seq<char>>,
    re_ip: Seq<char>,
    re_port: Seq<char>,
    re_anonymity: Seq<char>,
    re_ssl_type: Seq<char>,
) -> Seq<Proxy>
    decreases pages.len(),
{
    if pages.len() == 0 {
        Seq::empty()
    } else {
        read_pages(pages.drop_last(), re_ip, re_port, re_anonymity, re_ssl_type) + read_columns(
            regex_matches(re_ip, pages.last()),
            regex_matches(re_port, pages.last()),
            regex_matches(re_anonymity, pages.last()),
            regex_matches(re_ssl_type, pages.last()),
        )
    }
}

/// Reads the proxies of four columns of texts, taken side by side.
pub fn collect_columns(
    ips: &Vec<String>,
    ports: &Vec<String>,
    anonymities: &Vec<String>,
    ssl_types: &Vec<String>,
) -> (found: Vec<Proxy>)
    ensures
        found@ == read_columns(texts(ips@), texts(ports@), texts(anonymities@), texts(ssl_types@)),
{
    let mut n: usize = ips.len();
    if ports.len() < n {
        n = ports.len();
    }
    if anonymities.len() < n {
        n = anonymities.len();
    }
    if ssl_types.len() < n {
        n = ssl_types.len();
    }
    let mut found: Vec<Proxy> = Vec::new();
    let mut i: usize = 0;
    while i < n
        invariant
            i <= n,
            n <= ips.len(),
            n <= ports.len(),
            n <= anonymities.len(),
            n <= ssl_types.len(),
            found@ == entries_upto(
                texts(ips@),
                texts(ports@),
                texts(anonymities@),
                texts(ssl_types@),
                i as nat,
            ),
        decreases n - i,
    {
        let entry = Proxy::new(
            ips[i].as_str(),
            ports[i].as_str(),
            anonymities[i].as_str(),
            ssl_types[i].as_str(),
        );
        if let Ok(p) = entry {
            found.push(p);
        }
        i += 1;
    }
    found
}

/// Reads the proxies of a table's rows, the cells as the page holds them.
/// `info_pos` names the cells that hold address, port, anonymity and scheme;
/// a row that lacks one of them is left out.
pub fn table_getter(rows: &Vec<Vec<String>>, info_pos: &[usize; 4]) -> (found: Vec<Proxy>)
    ensures
        found@ == read_rows(cells(rows@), info_pos@),
{
    let mut found: Vec<Proxy> = Vec::new();
    let mut i: usize = 0;
    assert(cells(rows@).take(0) =~= Seq::empty());
    while i < rows.len()
        invariant
            i <= rows.len(),
            found@ == read_rows(cells(rows@).take(i as int), info_pos@),
        decreases rows.len() - i,
    {
        let row = &rows[i];
        proof {
            assert(cells(rows@).take(i + 1).drop_last() =~= cells(rows@).take(i as int));
            assert(cells(rows@).take(i + 1).last() == texts(row@));
        }
        let n = row.len();
        if info_pos[0] < n && info_pos[1] < n && info_pos[2] < n && info_pos[3] < n {
            let ip = clean_cell(row[info_pos[0]].as_str());
            let port = clean_cell(row[info_pos[1]].as_str());
            let anonymity = clean_cell(row[info_pos[2]].as_str());
            let ssl_type = clean_cell(row[info_pos[3]].as_str());
            let entry = Proxy::new(
                ip.as_str(),
                port.as_str(),
                anonymity.as_str(),
                ssl_type.as_str(),
            );
            if let Ok(p) = entry {
                found.push(p);
            }
        }
        i += 1;
    }
    assert(cells(rows@).take(rows.len() as int) =~= cells(rows@));
    found
}

/// What becomes of the regex crate's answer to the pattern for `field`: an
/// expression that was compiled is handed on as it is, and a refusal, for
/// whatever reason, is reported as a bad pattern for that field.
pub fn accept(outcome: Result<Matcher, regex::Error>, field: Field) -> (r: Result<
    Matcher,
    GetterError,
>)
    ensures
        match outcome {
            Ok(matcher) => r == Ok::<Matcher, GetterError>(matcher),
            Err(_) => r == Err::<Matcher, GetterError>(GetterError::BadPattern(field)),
        },
{
    match outcome {
        Ok(matcher) => Ok(matcher),
        Err(_) => Err(GetterError::BadPattern(field)),
    }
}

/// The four regular expressions of a site, compiled.
pub struct RegexRules {
    ip: Matcher,
    port: Matcher,
    anonymity: Matcher,
    ssl_type: Matcher,
}

impl RegexRules {
    /// The pattern that finds the addresses.
    pub closed spec fn ip(&self) -> Seq<char> {
        self.ip.pattern()
    }

    /// The pattern that finds the ports.
    pub closed spec fn port(&self) -> Seq<char> {
        self.port.pattern()
    }

    /// The pattern that finds the anonymity.
    pub closed spec fn anonymity(&self) -> Seq<char> {
        self.anonymity.pattern()
    }

    /// The pattern that finds the scheme.
    pub closed spec fn ssl_type(&self) -> Seq<char> {
        self.ssl_type.pattern()
    }

    /// Compiles the four patterns, in the order address, port, anonymity,
    /// scheme. The first pattern that is refused is reported, and the
    /// patterns after it are not looked at. Whether a pattern is refused is
    /// the regex crate's matter; what becomes of its answer is said by
    /// `accept`.
    pub fn compile(re_ip: &str, re_port: &str, re_anonymity: &str, re_ssl_type: &str) -> (r:
        Result<RegexRules, GetterError>)
        ensures
            r matches Ok(rules) ==> {
                &&& rules.ip() == re_ip@
                &&& rules.port() == re_port@
                &&& rules.anonymity() == re_anonymity@
                &&& rules.ssl_type() == re_ssl_type@
            },
    {
        let ip = match accept(compile(re_ip), Field::Ip) {
            Ok(matcher) => matcher,
            Err(e) => {
                return Err(e);
            },
        };
        let port = match accept(compile(re_port), Field::Port) {
            Ok(matcher) => matcher,
            Err(e) => {
                return Err(e);
            },
        };
        let anonymity = match accept(compile(re_anonymity), Field::Anonymity) {
            Ok(matcher) => matcher,
            Err(e) => {
                return Err(e);
            },
        };
        let ssl_type = match accept(compile(re_ssl_type), Field::SslType) {
            Ok(matcher) => matcher,
            Err(e) => {
                return Err(e);
            },
        };
        Ok(RegexRules { ip, port, anonymity, ssl_type })
    }

    /// Reads the proxies of a site's pages, page after page.
    pub fn extract_all(&self, pages: &Vec<String>) -> (found: Vec<Proxy>)
        ensures
            found@ == read_pages(
                texts(pages@),
                self.ip(),
                self.port(),
                self.anonymity(),
                self.ssl_type(),
            ),
    {
        let mut found: Vec<Proxy> = Vec::new();
        let mut i: usize = 0;
        assert(texts(pages@).take(0) =~= Seq::empty());
        while i < pages.len()
            invariant
                i <= pages.len(),
                found@ == read_pages(
                    texts(pages@).take(i as int),
                    self.ip(),
                    self.port(),
                    self.anonymity(),
                    self.ssl_type(),
                ),
            decreases pages.len() - i,
        {
            proof {
                assert(texts(pages@).take(i + 1).drop_last() =~= texts(pages@).take(i as int));
                assert(texts(pages@).take(i + 1).last() == pages@[i as int]@);
            }
            let mut more = self.extract(pages[i].as_str());
            found.append(&mut more);
            i += 1;
        }
        assert(texts(pages@).take(pages.len() as int) =~= texts(pages@));
        found
    }

    /// Reads the proxies of one page: each pattern gives a column of
    /// matches, and the columns are read side by side.
    pub fn extract(&self, page: &str) -> (found: Vec<Proxy>)
        ensures
            found@ == read_columns(
                regex_matches(self.ip(), page@),
                regex_matches(self.port(), page@),
                regex_matches(self.anonymity(), page@),
                regex_matches(self.ssl_type(), page@),
            ),
    {
        let ips = find_all(&self.ip, page);
        let ports = find_all(&self.port, page);
        let anonymities = find_all(&self.anonymity, page);
        let ssl_types = find_all(&self.ssl_type, page);
        collect_columns(&ips, &ports, &anonymities, &ssl_types)
    }
}

/// Reads the proxies of a site's pages with four regular expressions. The
/// patterns are compiled before any page is read; if one is refused, no page
/// is read.
pub fn regex_getter(
    pages: &Vec<String>,
    re_ip: &str,
    re_port: &str,
    re_anonymity: &str,
    re_ssl_type: &str,
) -> (r: Result<Vec<Proxy>, GetterError>)
    ensures
        r matches Ok(found) ==> found@ == read_pages(
            texts(pages@),
            re_ip@,
            re_port@,
            re_anonymity@,
            re_ssl_type@,
        ),
{
    match RegexRules::compile(re_ip, re_port, re_anonymity, re_ssl_type) {
        Ok(rules) => Ok(rules.extract_all(pages)),
        Err(e) => Err(e),
    }
}

} // verus!
