use ppool::persist::PoolSnapshot;
use ppool::proxy::{AnonymityLevel, Proxy, SslType};
use ppool::proxy_pool::ProxyPool;
use ppool::stats::_ProxyInfo;

fn persist_proxy(ip: &str, port: &str) -> Proxy {
    Proxy::new(ip, port, "普匿", "HTTPS").unwrap()
}

fn persist_pool() -> (ProxyPool, Vec<Proxy>) {
    let all = vec![
        persist_proxy("1.1.1.1", "1"),
        persist_proxy("2.2.2.2", "2"),
        persist_proxy("3.3.3.3", "3"),
        persist_proxy("255.255.255.255", "65535"),
    ];
    let mut pool = ProxyPool::new();
    pool.extend_unstable(all.clone());
    pool.move_to_stable(&all[2]);
    pool.move_to_stable(&all[0]);
    pool.inc_success_cnt(&all[0]);
    pool.inc_success_cnt(&all[0]);
    pool.inc_failed_cnt(&all[1]);
    pool.inc_failed_cnt(&all[1]);
    pool.inc_success_cnt(&all[2]);
    pool.inc_failed_cnt(&all[2]);
    (pool, all)
}

fn persist_entry(key: &str, success: u32, failed: u32, fail_times: u8) -> (String, _ProxyInfo) {
    (key.to_string(), _ProxyInfo { success, failed, fail_times })
}

#[test]
fn a_snapshot_lists_tiers_and_counters() {
    let (pool, all) = persist_pool();
    let snap = pool.snapshot();
    let unstable: Vec<u64> = snap.unstable.iter().map(|p| p.get_key()).collect();
    let stable: Vec<u64> = snap.stable.iter().map(|p| p.get_key()).collect();
    assert_eq!(unstable, vec![all[1].get_key(), all[3].get_key()]);
    assert_eq!(stable, vec![all[2].get_key(), all[0].get_key()]);
    assert_eq!(
        snap.info,
        vec![
            persist_entry("2.2.2.2:2", 0, 2, 2),
            persist_entry("255.255.255.255:65535", 0, 0, 0),
            persist_entry("3.3.3.3:3", 1, 1, 1),
            persist_entry("1.1.1.1:1", 2, 0, 0),
        ]
    );
}

#[test]
fn a_pool_read_back_from_its_snapshot_is_the_same_pool() {
    let (pool, all) = persist_pool();
    let back = ProxyPool::restore(&pool.snapshot()).unwrap();
    let keys = |list: &Vec<Proxy>| list.iter().map(|p| p.get_key()).collect::<Vec<u64>>();
    assert_eq!(keys(back.get_unstable()), keys(pool.get_unstable()));
    assert_eq!(keys(back.get_stable()), keys(pool.get_stable()));
    for p in &all {
        assert_eq!(back.stats(p), pool.stats(p));
        assert_eq!(back.is_stable(p), pool.is_stable(p));
    }
    assert_eq!(back.get_stable()[0].anonymity(), AnonymityLevel::Anonymous);
    assert_eq!(back.get_stable()[0].ssl_type(), SslType::HTTPS);
    assert_eq!(back.snapshot().info, pool.snapshot().info);
    let empty = ProxyPool::restore(&ProxyPool::new().snapshot()).unwrap();
    assert_eq!(empty.status().total, 0);
}

#[test]
fn a_snapshot_written_by_hand_is_read() {
    let snap = PoolSnapshot {
        unstable: vec![persist_proxy("1.1.1.1", "1")],
        stable: vec![persist_proxy("2.2.2.2", "2")],
        info: vec![persist_entry("2.2.2.2:0002", 9, 1, 0), persist_entry("1.1.1.1:1", 0, 3, 3)],
    };
    let pool = ProxyPool::restore(&snap).unwrap();
    assert_eq!(
        pool.stats(&persist_proxy("1.1.1.1", "1")),
        Some(_ProxyInfo { success: 0, failed: 3, fail_times: 3 })
    );
    assert_eq!(
        pool.stats(&persist_proxy("2.2.2.2", "2")),
        Some(_ProxyInfo { success: 9, failed: 1, fail_times: 0 })
    );
    assert!(pool.is_stable(&persist_proxy("2.2.2.2", "2")));
    assert!(pool.is_unstable(&persist_proxy("1.1.1.1", "1")));
}

#[test]
fn a_snapshot_that_stands_for_no_pool_is_refused() {
    let a = persist_proxy("1.1.1.1", "1");
    let b = persist_proxy("2.2.2.2", "2");
    let twice_in_a_tier = PoolSnapshot {
        unstable: vec![a, a],
        stable: vec![],
        info: vec![persist_entry("1.1.1.1:1", 0, 0, 0)],
    };
    assert!(ProxyPool::restore(&twice_in_a_tier).is_none());
    let in_both_tiers = PoolSnapshot {
        unstable: vec![a],
        stable: vec![b, a],
        info: vec![persist_entry("1.1.1.1:1", 0, 0, 0), persist_entry("2.2.2.2:2", 0, 0, 0)],
    };
    assert!(ProxyPool::restore(&in_both_tiers).is_none());
    let no_counters = PoolSnapshot {
        unstable: vec![a],
        stable: vec![b],
        info: vec![persist_entry("1.1.1.1:1", 0, 0, 0)],
    };
    assert!(ProxyPool::restore(&no_counters).is_none());
    let counters_of_nobody = PoolSnapshot {
        unstable: vec![a],
        stable: vec![],
        info: vec![persist_entry("1.1.1.1:1", 0, 0, 0), persist_entry("2.2.2.2:2", 0, 0, 0)],
    };
    assert!(ProxyPool::restore(&counters_of_nobody).is_none());
    let counters_twice = PoolSnapshot {
        unstable: vec![a],
        stable: vec![],
        info: vec![persist_entry("1.1.1.1:1", 0, 0, 0), persist_entry("1.1.1.1:01", 1, 0, 0)],
    };
    assert!(ProxyPool::restore(&counters_twice).is_none());
    let no_endpoint = PoolSnapshot {
        unstable: vec![a],
        stable: vec![],
        info: vec![persist_entry("1.1.1.1", 0, 0, 0)],
    };
    assert!(ProxyPool::restore(&no_endpoint).is_none());
    let too_many_checks = PoolSnapshot {
        unstable: vec![a],
        stable: vec![],
        info: vec![persist_entry("1.1.1.1:1", u32::MAX, 1, 0)],
    };
    assert!(ProxyPool::restore(&too_many_checks).is_none());
    let full = PoolSnapshot {
        unstable: vec![a],
        stable: vec![],
        info: vec![persist_entry("1.1.1.1:1", u32::MAX, 0, 0)],
    };
    assert!(ProxyPool::restore(&full).is_some());
}
