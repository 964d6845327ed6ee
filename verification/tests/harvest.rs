use ppool::config::{CommonRegex, CommonTable, SpiderConfig};
use ppool::error::MyError;
use ppool::getter::{collect_columns, regex_getter, table_getter, Field, GetterError, RegexRules};
use ppool::options::{Mode, Opt};
use ppool::proxy::{AnonymityLevel, Proxy, SslType};
use ppool::proxy_pool::ProxyPool;
use ppool::schedule::{Pause, Tick};
use ppool::spider::{proxy_for, route, spider_thread, Planned, Route, FETCH_TRIES};

fn harvest_strings(list: &[&str]) -> Vec<String> {
    list.iter().map(|s| s.to_string()).collect()
}

fn harvest_keys(list: &Vec<Proxy>) -> Vec<String> {
    list.iter().map(|p| p.key_text()).collect()
}

fn harvest_table(name: &str, enable: bool) -> CommonTable {
    CommonTable {
        enable,
        name: name.to_string(),
        urls: vec![],
        xpath_line: String::new(),
        xpath_col: String::new(),
        info_index: [0, 1, 2, 3],
    }
}

fn harvest_regex(name: &str, enable: bool) -> CommonRegex {
    CommonRegex {
        enable,
        name: name.to_string(),
        urls: vec![],
        ip: String::new(),
        port: String::new(),
        anonymity: String::new(),
        ssl_type: String::new(),
    }
}

const HARVEST_PAGE: &str = "<tr><td>1.2.3.4</td><td>80</td><td>高匿</td><td>HTTPS</td></tr>\n\
    <tr><td>5.6.7.8</td><td>8080</td><td>透明</td><td>HTTP</td></tr>\n\
    <tr><td>9.9.9.999</td><td>3128</td><td>普匿</td><td>HTTP</td></tr>\n\
    <tr><td>10.0.0.1</td><td>3128</td><td>普匿</td><td>HTTPS</td></tr>";

#[test]
fn regex_getter_reads_the_columns_side_by_side() {
    let pages = vec![HARVEST_PAGE.to_string()];
    let found = regex_getter(
        &pages,
        r"\d+\.\d+\.\d+\.\d+",
        r"<td>\d+</td>",
        r"高匿|普匿|透明",
        r"HTTPS?",
    )
    .unwrap();
    assert!(found.is_empty());
    let found = regex_getter(
        &pages,
        r"\d+\.\d+\.\d+\.\d+",
        r"\b\d{2,5}\b",
        r"高匿|普匿|透明",
        r"HTTPS?",
    )
    .unwrap();
    assert_eq!(harvest_keys(&found), vec!["1.2.3.4:80", "5.6.7.8:8080", "10.0.0.1:3128"]);
    assert_eq!(found[0].anonymity(), AnonymityLevel::Elite);
    assert_eq!(found[0].ssl_type(), SslType::HTTPS);
    assert_eq!(found[1].anonymity(), AnonymityLevel::Transparent);
    assert_eq!(found[1].ssl_type(), SslType::HTTP);
    assert_eq!(found[2].anonymity(), AnonymityLevel::Anonymous);
    assert_eq!(found[2].ssl_type(), SslType::HTTPS);
}

#[test]
fn regex_getter_reads_page_after_page() {
    let pages = vec![
        "1.1.1.1:11 2.2.2.2:22".to_string(),
        "nothing here".to_string(),
        "3.3.3.3:33".to_string(),
    ];
    let found = regex_getter(&pages, r"\d+\.\d+\.\d+\.\d+", r"\b\d\d\b", r":", r":").unwrap();
    assert_eq!(harvest_keys(&found), vec!["1.1.1.1:11", "2.2.2.2:22", "3.3.3.3:33"]);
    assert!(regex_getter(&Vec::new(), r"a", r"b", r"c", r"d").unwrap().is_empty());
}

#[test]
fn regex_getter_stops_at_the_shortest_column() {
    let pages = vec!["1.1.1.1 2.2.2.2 3.3.3.3 p11 p22 elite".to_string()];
    let found = regex_getter(&pages, r"\d\.\d\.\d\.\d", r"\d\d", r"[a-z]", r"e").unwrap();
    assert_eq!(harvest_keys(&found), vec!["1.1.1.1:11", "2.2.2.2:22"]);
}

#[test]
fn a_pattern_that_is_refused_is_named() {
    let pages = vec!["1.1.1.1".to_string()];
    assert_eq!(
        regex_getter(&pages, r"(", r"\d", r"\d", r"\d").unwrap_err(),
        GetterError::BadPattern(Field::Ip)
    );
    assert_eq!(
        regex_getter(&pages, r"\d", r"[", r"(", r"\d").unwrap_err(),
        GetterError::BadPattern(Field::Port)
    );
    assert_eq!(
        regex_getter(&pages, r"\d", r"\d", r"a{2,1}", r"\d").unwrap_err(),
        GetterError::BadPattern(Field::Anonymity)
    );
    assert_eq!(
        regex_getter(&pages, r"\d", r"\d", r"\d", r"\w{1000}{1000}").unwrap_err(),
        GetterError::BadPattern(Field::SslType)
    );
    assert!(RegexRules::compile(r"\d", r"\d", r"\d", r"*").is_err());
    assert!(RegexRules::compile(r"\d", r"\d", r"\d", r"\d").is_ok());
}

#[test]
fn extract_reads_one_page() {
    let rules = RegexRules::compile(r"\d+\.\d+\.\d+\.\d+", r":(\d+)", r"elite|plain", r"https?").unwrap();
    let found = rules.extract("https 7.7.7.7 :77 elite, http 8.8.8.8 :88 plain");
    assert!(found.is_empty());
    let rules = RegexRules::compile(r"\d+\.\d+\.\d+\.\d+", r"\b\d\d\b", r"elite|plain", r"https?").unwrap();
    let found = rules.extract("https 7.7.7.7 :77 elite, http 8.8.8.8 :88 plain");
    assert_eq!(harvest_keys(&found), vec!["7.7.7.7:77", "8.8.8.8:88"]);
    assert_eq!(found[0].ssl_type(), SslType::HTTPS);
    assert_eq!(found[1].ssl_type(), SslType::HTTP);
    assert!(rules.extract("").is_empty());
}

#[test]
fn collect_columns_leaves_out_what_is_no_proxy() {
    let found = collect_columns(
        &harvest_strings(&["1.1.1.1", "bad", "3.3.3.3", "4.4.4.4"]),
        &harvest_strings(&["1", "2", "0", "4", "5"]),
        &harvest_strings(&["高", "高", "高", "普", "普"]),
        &harvest_strings(&["https", "", "", "", "", ""]),
    );
    assert_eq!(harvest_keys(&found), vec!["1.1.1.1:1", "4.4.4.4:4"]);
    assert_eq!(found[0].ssl_type(), SslType::HTTPS);
    assert_eq!(found[1].anonymity(), AnonymityLevel::Anonymous);
    assert!(collect_columns(&vec![], &harvest_strings(&["1"]), &vec![], &vec![]).is_empty());
}

#[test]
fn table_getter_reads_the_cells_that_it_is_told() {
    let rows = vec![
        harvest_strings(&["x", " 1.2.3.4 ", "\n80&#13;\n", "高匿", "HTTPS"]),
        harvest_strings(&["x", "5.6.7.8", "8080", "透明"]),
        harvest_strings(&[]),
        harvest_strings(&["x", "not an address", "8080", "透明", "HTTP"]),
        harvest_strings(&["x", "\t9.9.9.9", "99 ", "普匿", "HTTP", "more"]),
    ];
    let found = table_getter(&rows, &[1, 2, 3, 4]);
    assert_eq!(harvest_keys(&found), vec!["1.2.3.4:80", "9.9.9.9:99"]);
    assert_eq!(found[0].anonymity(), AnonymityLevel::Elite);
    assert_eq!(found[0].ssl_type(), SslType::HTTPS);
    assert_eq!(found[1].anonymity(), AnonymityLevel::Anonymous);
    assert_eq!(found[1].ssl_type(), SslType::HTTP);
    let swapped = table_getter(&rows, &[1, 2, 4, 3]);
    assert_eq!(swapped[0].anonymity(), AnonymityLevel::Transparent);
    assert_eq!(swapped[0].ssl_type(), SslType::HTTP);
    assert!(table_getter(&rows, &[1, 2, 3, 6]).is_empty());
    assert_eq!(table_getter(&rows, &[1, 2, 3, 5]).len(), 1);
    assert!(table_getter(&Vec::new(), &[0, 1, 2, 3]).is_empty());
}

#[test]
fn the_plan_lists_the_enabled_sites() {
    let config = SpiderConfig {
        interval: 60,
        common_table: vec![
            harvest_table("a", true),
            harvest_table("b", false),
            harvest_table("c", true),
        ],
        common_regex: vec![
            harvest_regex("d", false),
            harvest_regex("a", true),
        ],
    };
    assert_eq!(config.plan(), vec![Planned::Table(0), Planned::Table(2), Planned::Regex(1)]);
    assert_eq!(config.named("a"), vec![Planned::Table(0), Planned::Regex(1)]);
    assert_eq!(config.named("b"), vec![Planned::Table(1)]);
    assert_eq!(config.named("d"), vec![Planned::Regex(0)]);
    assert!(config.named("e").is_empty());
    assert!(config.named("").is_empty());
    let nothing = SpiderConfig { interval: 1, common_table: vec![], common_regex: vec![] };
    assert!(nothing.plan().is_empty());
}

#[test]
fn the_first_attempt_is_direct_and_the_fifth_is_the_last() {
    assert_eq!(FETCH_TRIES, 5);
    assert_eq!(route(0, "https://example.org/"), Some(Route::Direct));
    assert_eq!(route(0, "http://example.org/"), Some(Route::Direct));
    for attempt in 1..5 {
        assert_eq!(route(attempt, "https://example.org/"), Some(Route::Pooled(SslType::HTTPS)));
        assert_eq!(route(attempt, "http://example.org/"), Some(Route::Pooled(SslType::HTTP)));
        assert_eq!(route(attempt, "HTTPS://EXAMPLE.ORG/"), Some(Route::Pooled(SslType::HTTP)));
        assert_eq!(route(attempt, "http://a/?next=https"), Some(Route::Pooled(SslType::HTTPS)));
    }
    assert_eq!(route(5, "https://example.org/"), None);
    assert_eq!(route(u32::MAX, "https://example.org/"), None);
}

#[test]
fn the_spider_asks_the_pool_for_an_elite_proxy_of_the_scheme() {
    let mut pool = ProxyPool::new();
    assert!(proxy_for(&pool, SslType::HTTPS).is_none());
    let elite_https = Proxy::new("1.1.1.1", "1", "高匿", "HTTPS").unwrap();
    let elite_http = Proxy::new("2.2.2.2", "2", "高匿", "HTTP").unwrap();
    let plain_https = Proxy::new("3.3.3.3", "3", "普匿", "HTTPS").unwrap();
    let waiting = Proxy::new("4.4.4.4", "4", "高匿", "HTTPS").unwrap();
    pool.extend_unstable(vec![elite_https, elite_http, plain_https, waiting]);
    assert!(proxy_for(&pool, SslType::HTTPS).is_none());
    pool.move_to_stable(&plain_https);
    pool.move_to_stable(&elite_http);
    assert!(proxy_for(&pool, SslType::HTTPS).is_none());
    pool.move_to_stable(&elite_https);
    for _ in 0..50 {
        assert_eq!(proxy_for(&pool, SslType::HTTPS).unwrap().get_key(), elite_https.get_key());
        assert_eq!(proxy_for(&pool, SslType::HTTP).unwrap().get_key(), elite_http.get_key());
    }
}

#[test]
fn a_round_of_the_spider_takes_in_what_the_sites_gave() {
    let mut pool = ProxyPool::new();
    let a = Proxy::new("1.2.3.4", "80", "高匿", "HTTP").unwrap();
    let again = Proxy::new("1.2.3.4", "80", "普匿", "HTTP").unwrap();
    let b = Proxy::new("2.2.2.2", "2", "", "").unwrap();
    let c = Proxy::new("3.3.3.3", "3", "", "").unwrap();
    let harvest: Vec<Result<Vec<Proxy>, MyError>> = vec![
        Ok(vec![a, b]),
        Err(MyError::HttpError),
        Ok(vec![]),
        Err(MyError::XPathEval),
        Ok(vec![again, c, b]),
    ];
    let failed = spider_thread(&mut pool, &harvest);
    assert_eq!(failed, 2);
    assert_eq!(harvest_keys(pool.get_unstable()), vec!["1.2.3.4:80", "2.2.2.2:2", "3.3.3.3:3"]);
    assert_eq!(pool.get_unstable()[0].anonymity(), AnonymityLevel::Elite);
    assert!(pool.get_stable().is_empty());
    let nothing: Vec<Result<Vec<Proxy>, MyError>> = vec![];
    assert_eq!(spider_thread(&mut pool, &nothing), 0);
    assert_eq!(pool.get_unstable().len(), 3);
}

#[test]
fn an_empty_pool_after_one_round_of_the_spider() {
    let mut pool = ProxyPool::new();
    let harvest: Vec<Result<Vec<Proxy>, GetterError>> = vec![Ok(vec![
        Proxy::new("1.2.3.4", "80", "高匿", "HTTP").unwrap(),
        Proxy::new("1.2.3.4", "80", "普匿", "HTTP").unwrap(),
    ])];
    assert_eq!(spider_thread(&mut pool, &harvest), 0);
    assert_eq!(pool.get_unstable().len(), 1);
    assert_eq!(pool.get_stable().len(), 0);
    let snap = pool.snapshot();
    assert_eq!(snap.info.len(), 1);
    assert_eq!(snap.info[0].0, "1.2.3.4:80");
    assert_eq!(snap.info[0].1.success, 0);
    assert_eq!(snap.info[0].1.failed, 0);
    assert_eq!(snap.info[0].1.fail_times, 0);
}

#[test]
fn the_errors_of_a_table_site_have_their_texts() {
    assert_eq!(MyError::XmlParse.message(), "XML parse error: got null pointer");
    assert_eq!(MyError::ContextInit.message(), "failed to create xpath context");
    assert_eq!(MyError::XPathEval.message(), "failed to evaluate xpath");
    assert_eq!(MyError::HttpError.message(), "http error");
}

#[test]
fn a_pause_lasts_its_interval() {
    let mut pause = Pause::new(3);
    assert_eq!(pause.tick(false), Tick::Sleep);
    assert_eq!(pause.tick(false), Tick::Sleep);
    assert_eq!(pause.tick(false), Tick::Sleep);
    assert_eq!(pause.left, 0);
    assert_eq!(pause.tick(false), Tick::Round);
    assert_eq!(pause.tick(false), Tick::Round);
    let mut none = Pause::new(0);
    assert_eq!(none.tick(false), Tick::Round);
}

#[test]
fn a_reload_ends_the_pause_at_the_next_tick() {
    let mut pause = Pause::new(1000);
    assert_eq!(pause.tick(false), Tick::Sleep);
    assert_eq!(pause.tick(true), Tick::Stop);
    assert_eq!(pause.left, 999);
    assert_eq!(pause.tick(true), Tick::Stop);
    let mut due = Pause::new(0);
    assert_eq!(due.tick(true), Tick::Stop);
    let mut long = Pause::new(u64::MAX);
    assert_eq!(long.tick(false), Tick::Sleep);
    assert_eq!(long.left, u64::MAX - 1);
}

#[test]
fn the_options_say_what_to_do() {
    let serve = Opt { config: None, print_config: false, test: None };
    assert_eq!(serve.mode(), Mode::Serve);
    let with_file = Opt { config: Some("pool.toml".to_string()), print_config: false, test: None };
    assert_eq!(with_file.mode(), Mode::Serve);
    let print = Opt { config: None, print_config: true, test: Some("site".to_string()) };
    assert_eq!(print.mode(), Mode::PrintConfig);
    let test = Opt { config: None, print_config: false, test: Some("site".to_string()) };
    assert_eq!(test.mode(), Mode::Test);
}

const HARVEST_TABLE: &str = "<html><body><table id=\"ip_list\">\
    <tr><th>ip</th><th>port</th><th>kind</th><th>scheme</th></tr>\
    <tr><td>1.2.3.4</td><td> 80\r\n</td><td>高匿</td><td>HTTPS</td></tr>\
    <tr><td>5.6.7.8</td><td>8080</td><td>透明</td></tr>\
    <tr><td>not an address</td><td>8080</td><td>透明</td><td>HTTP</td></tr>\
    <tr><td>\n  9.9.9.9  \n</td><td>99</td><td>普匿</td><td>HTTP</td></tr>\
    </table></body></html>";

#[test]
fn table_page_reads_the_rows_of_a_table() {
    let found = ppool::table::table_page(
        HARVEST_TABLE,
        ".//table[@id=\"ip_list\"]//tr[position()>1]",
        "./td/text()",
        &[0, 1, 2, 3],
    )
    .unwrap();
    assert_eq!(harvest_keys(&found), vec!["1.2.3.4:80", "9.9.9.9:99"]);
    assert_eq!(found[0].anonymity(), AnonymityLevel::Elite);
    assert_eq!(found[0].ssl_type(), SslType::HTTPS);
    assert_eq!(found[1].anonymity(), AnonymityLevel::Anonymous);
    assert_eq!(found[1].ssl_type(), SslType::HTTP);
    let none = ppool::table::table_page(HARVEST_TABLE, ".//ul", "./li/text()", &[0, 1, 2, 3]).unwrap();
    assert!(none.is_empty());
    let few = ppool::table::table_page(HARVEST_TABLE, ".//tr", "./td/text()", &[0, 1, 2, 4]).unwrap();
    assert!(few.is_empty());
}

#[test]
fn table_page_says_what_went_wrong() {
    assert_eq!(
        ppool::table::table_page(HARVEST_TABLE, ".//tr[", "./td", &[0, 1, 2, 3]).unwrap_err(),
        MyError::XPathEval
    );
    assert_eq!(
        ppool::table::table_page(HARVEST_TABLE, ".//tr", "./td[", &[0, 1, 2, 3]).unwrap_err(),
        MyError::XPathEval
    );
    assert_eq!(
        ppool::table::table_page(HARVEST_TABLE, ".//tr\0", "./td", &[0, 1, 2, 3]).unwrap_err(),
        MyError::XPathEval
    );
    assert_eq!(
        ppool::table::table_page(HARVEST_TABLE, ".//tr", "./td\0/text()", &[0, 1, 2, 3]).unwrap_err(),
        MyError::XPathEval
    );
    assert_eq!(
        ppool::table::table_page("", ".//tr", "./td", &[0, 1, 2, 3]).unwrap_err(),
        MyError::XmlParse
    );
}

#[test]
fn table_page_finds_no_rows_where_the_expression_gives_no_nodes() {
    let counted = ppool::table::table_page(HARVEST_TABLE, "count(.//tr)", "./td", &[0, 1, 2, 3]);
    assert_eq!(counted.map(|found| found.len()), Ok(0));
    let text = ppool::table::table_page(HARVEST_TABLE, "string(.//td)", "./td", &[0, 1, 2, 3]);
    assert_eq!(text.map(|found| found.len()), Ok(0));
    let cells = ppool::table::table_page(HARVEST_TABLE, ".//tr", "count(./td)", &[0, 1, 2, 3]);
    assert_eq!(cells.map(|found| found.len()), Ok(0));
}

#[test]
fn a_refusal_is_reported_for_its_field() {
    for field in [Field::Ip, Field::Port, Field::Anonymity, Field::SslType] {
        let refused = regex::Regex::new("(").unwrap_err();
        let answer = ppool::getter::accept(Err(refused), field);
        assert!(matches!(answer, Err(GetterError::BadPattern(named)) if named == field));
    }
    let too_big = regex::Regex::new(r"\w{1000}{1000}").unwrap_err();
    assert!(matches!(
        ppool::getter::accept(Err(too_big), Field::Ip),
        Err(GetterError::BadPattern(Field::Ip))
    ));
}

#[test]
fn extract_all_reads_page_after_page() {
    let rules = RegexRules::compile(r"\d+\.\d+\.\d+\.\d+", r"\b\d\d\b", r":", r":").unwrap();
    let pages = vec![
        "1.1.1.1:11 2.2.2.2:22".to_string(),
        "nothing here".to_string(),
        "3.3.3.3:33".to_string(),
    ];
    assert_eq!(harvest_keys(&rules.extract_all(&pages)), vec!["1.1.1.1:11", "2.2.2.2:22", "3.3.3.3:33"]);
    assert!(rules.extract_all(&Vec::new()).is_empty());
    let one = vec![pages[2].clone()];
    assert_eq!(harvest_keys(&rules.extract_all(&one)), harvest_keys(&rules.extract(&pages[2])));
}
