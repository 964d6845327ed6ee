use ppool::proxy::{AnonymityLevel, Proxy, SslType};
use ppool::proxy_pool::{copy_proxies, ProxyPool, Status};
use ppool::rate::Rate;
use ppool::stats::_ProxyInfo;
use rand::Rng;
use std::sync::{Arc, Mutex};
use threadpool::ThreadPool;

fn pool_proxy(ip: &str, port: &str) -> Proxy {
    Proxy::new(ip, port, "高匿", "HTTP").unwrap()
}

fn pool_keys(list: &Vec<Proxy>) -> Vec<u64> {
    list.iter().map(|p| p.get_key()).collect()
}

fn pool_is_sound(pool: &ProxyPool) {
    let mut keys = pool_keys(pool.get_unstable());
    keys.extend(pool_keys(pool.get_stable()));
    let listed = keys.len();
    keys.sort();
    keys.dedup();
    assert_eq!(keys.len(), listed, "an endpoint is listed twice");
    for p in pool.get_unstable().iter().chain(pool.get_stable().iter()) {
        assert!(pool.contains(p));
        assert!(pool.stats(p).is_some());
        assert_eq!(pool.is_stable(p), !pool.is_unstable(p));
    }
    assert_eq!(pool.status().total, listed as u128);
    assert_eq!(pool.snapshot().info.len(), listed);
}

#[test]
fn a_new_pool_is_empty() {
    let pool = ProxyPool::new();
    assert!(pool.get_stable().is_empty());
    assert!(pool.get_unstable().is_empty());
    assert_eq!(pool.status(), Status { total: 0, stable: 0, unstable: 0 });
    assert!(pool.get_random().is_none());
    let other = ProxyPool::default();
    assert_eq!(other.status(), Status { total: 0, stable: 0, unstable: 0 });
}

#[test]
fn a_proxy_seen_twice_is_kept_once() {
    let mut pool = ProxyPool::new();
    let elite = Proxy::new("1.2.3.4", "80", "高匿", "HTTP").unwrap();
    let anonymous = Proxy::new("1.2.3.4", "80", "普匿", "HTTP").unwrap();
    pool.extend_unstable(vec![elite, anonymous]);
    assert_eq!(pool.get_unstable().len(), 1);
    assert_eq!(pool.get_stable().len(), 0);
    assert_eq!(pool.get_unstable()[0].anonymity(), AnonymityLevel::Elite);
    assert_eq!(
        pool.stats(&elite),
        Some(_ProxyInfo { success: 0, failed: 0, fail_times: 0 })
    );
    assert_eq!(pool.snapshot().info[0].0, "1.2.3.4:80");
    pool_is_sound(&pool);
}

#[test]
fn insert_unstable_says_whether_the_proxy_was_new() {
    let mut pool = ProxyPool::new();
    let a = pool_proxy("1.1.1.1", "1");
    let b = pool_proxy("1.1.1.1", "2");
    assert!(pool.insert_unstable(a));
    assert!(!pool.insert_unstable(a));
    assert!(pool.insert_unstable(b));
    pool.move_to_stable(&a);
    assert!(!pool.insert_unstable(a));
    assert_eq!(pool_keys(pool.get_unstable()), vec![b.get_key()]);
    assert_eq!(pool_keys(pool.get_stable()), vec![a.get_key()]);
    pool_is_sound(&pool);
}

#[test]
fn colliding_offers_leave_each_endpoint_once() {
    let mut pool = ProxyPool::new();
    let mut rng = rand::thread_rng();
    for _ in 0..2000 {
        let ip = format!("10.0.0.{}", rng.gen_range(0..8));
        let port = format!("{}", rng.gen_range(1..5));
        pool.insert_unstable(pool_proxy(&ip, &port));
    }
    assert!(pool.get_unstable().len() <= 32);
    pool_is_sound(&pool);
}

#[test]
fn moves_keep_the_order_and_the_counters() {
    let mut pool = ProxyPool::new();
    let a = pool_proxy("1.1.1.1", "1");
    let b = pool_proxy("2.2.2.2", "2");
    let c = pool_proxy("3.3.3.3", "3");
    pool.extend_unstable(vec![a, b, c]);
    pool.inc_success_cnt(&b);
    pool.inc_failed_cnt(&b);
    let before = pool.stats(&b);
    pool.move_to_stable(&b);
    assert_eq!(pool_keys(pool.get_unstable()), vec![a.get_key(), c.get_key()]);
    assert_eq!(pool_keys(pool.get_stable()), vec![b.get_key()]);
    assert_eq!(pool.stats(&b), before);
    pool.move_to_stable(&a);
    assert_eq!(pool_keys(pool.get_stable()), vec![b.get_key(), a.get_key()]);
    pool.move_to_unstable(&b);
    assert_eq!(pool_keys(pool.get_unstable()), vec![c.get_key(), b.get_key()]);
    assert_eq!(pool_keys(pool.get_stable()), vec![a.get_key()]);
    assert_eq!(pool.stats(&b), before);
    pool_is_sound(&pool);
}

#[test]
fn a_move_keeps_the_proxy_as_the_pool_holds_it() {
    let mut pool = ProxyPool::new();
    let held = Proxy::new("1.2.3.4", "80", "高匿", "HTTPS").unwrap();
    let asked = Proxy::new("1.2.3.4", "80", "透明", "HTTP").unwrap();
    pool.insert_unstable(held);
    pool.move_to_stable(&asked);
    assert_eq!(pool.get_stable()[0].anonymity(), AnonymityLevel::Elite);
    assert_eq!(pool.get_stable()[0].ssl_type(), SslType::HTTPS);
    pool.move_to_unstable(&asked);
    assert_eq!(pool.get_unstable()[0].anonymity(), AnonymityLevel::Elite);
}

#[test]
fn removal_drops_the_counters() {
    let mut pool = ProxyPool::new();
    let a = pool_proxy("1.1.1.1", "1");
    let b = pool_proxy("2.2.2.2", "2");
    pool.extend_unstable(vec![a, b]);
    pool.inc_success_cnt(&a);
    pool.remove_unstable(&a);
    assert!(!pool.contains(&a));
    assert_eq!(pool.stats(&a), None);
    assert!(pool.contains(&b));
    assert!(pool.insert_unstable(a));
    assert_eq!(pool.stats(&a), Some(_ProxyInfo::new()));
    pool.move_to_stable(&b);
    pool.remove_stable(&b);
    assert!(!pool.contains(&b));
    assert!(pool.get_stable().is_empty());
    assert_eq!(pool_keys(pool.get_unstable()), vec![a.get_key()]);
    pool_is_sound(&pool);
}

#[test]
fn a_success_clears_the_failures_in_a_row() {
    let mut pool = ProxyPool::new();
    let a = pool_proxy("1.1.1.1", "1");
    pool.insert_unstable(a);
    for n in 1..=4u8 {
        pool.inc_failed_cnt(&a);
        assert_eq!(pool.stats(&a).unwrap().fail_times, n);
    }
    pool.inc_success_cnt(&a);
    assert_eq!(
        pool.stats(&a),
        Some(_ProxyInfo { success: 1, failed: 4, fail_times: 0 })
    );
    pool.inc_failed_cnt(&a);
    assert_eq!(
        pool.stats(&a),
        Some(_ProxyInfo { success: 1, failed: 5, fail_times: 1 })
    );
}

#[test]
fn failures_in_a_row_stop_at_255() {
    let mut pool = ProxyPool::new();
    let a = pool_proxy("1.1.1.1", "1");
    pool.insert_unstable(a);
    for _ in 0..300 {
        pool.inc_failed_cnt(&a);
    }
    assert_eq!(
        pool.stats(&a),
        Some(_ProxyInfo { success: 0, failed: 300, fail_times: 255 })
    );
    let mut info = _ProxyInfo { success: 0, failed: 7, fail_times: 255 };
    info.record_failure();
    assert_eq!(info, _ProxyInfo { success: 0, failed: 8, fail_times: 255 });
    info.record_success();
    assert_eq!(info, _ProxyInfo { success: 1, failed: 8, fail_times: 0 });
}

#[test]
fn counters_know_when_they_are_full() {
    let mut pool = ProxyPool::new();
    let a = pool_proxy("1.1.1.1", "1");
    let b = pool_proxy("1.1.1.1", "2");
    pool.insert_unstable(a);
    assert!(pool.can_count(&a));
    assert!(!pool.can_count(&b));
    let full = _ProxyInfo { success: u32::MAX - 5, failed: 5, fail_times: 0 };
    assert!(full.fits());
    assert_eq!(full.check_cnt(), u32::MAX);
    let over = _ProxyInfo { success: u32::MAX, failed: 1, fail_times: 0 };
    assert!(!over.fits());
}

#[test]
fn get_info_gives_stability_checks_and_failures() {
    let mut pool = ProxyPool::new();
    let a = pool_proxy("1.1.1.1", "1");
    pool.insert_unstable(a);
    assert_eq!(pool.get_info(&a), (Rate { num: 1, den: 1 }, 0, 0));
    pool.inc_success_cnt(&a);
    pool.inc_success_cnt(&a);
    pool.inc_failed_cnt(&a);
    assert_eq!(pool.get_info(&a), (Rate { num: 2, den: 3 }, 3, 1));
    let info = pool.stats(&a).unwrap();
    assert_eq!(info.check_cnt(), 3);
    assert_eq!(info.stability(), Rate { num: 2, den: 3 });
    assert_eq!(_ProxyInfo::default().stability(), Rate::one());
}

#[test]
fn any_run_of_calls_keeps_the_tiers_apart() {
    let mut rng = rand::thread_rng();
    let mut pool = ProxyPool::new();
    let all: Vec<Proxy> = (0..12).map(|n| pool_proxy(&format!("10.0.0.{}", n), "80")).collect();
    for _ in 0..5000 {
        let p = all[rng.gen_range(0..all.len())];
        match rng.gen_range(0..7) {
            0 => {
                pool.insert_unstable(p);
            }
            1 => {
                if pool.is_unstable(&p) {
                    pool.move_to_stable(&p);
                }
            }
            2 => {
                if pool.is_stable(&p) {
                    pool.move_to_unstable(&p);
                }
            }
            3 => {
                if pool.is_unstable(&p) {
                    pool.remove_unstable(&p);
                }
            }
            4 => {
                if pool.is_stable(&p) {
                    pool.remove_stable(&p);
                }
            }
            5 => {
                if pool.can_count(&p) {
                    pool.inc_success_cnt(&p);
                }
            }
            _ => {
                if pool.can_count(&p) {
                    pool.inc_failed_cnt(&p);
                }
            }
        }
    }
    pool_is_sound(&pool);
    for p in &all {
        assert_eq!(pool.contains(p), pool.is_stable(p) || pool.is_unstable(p));
        assert!(!(pool.is_stable(p) && pool.is_unstable(p)));
    }
}

#[test]
fn get_random_draws_each_stable_proxy_about_as_often() {
    let mut pool = ProxyPool::new();
    let a = pool_proxy("1.1.1.1", "1");
    let b = pool_proxy("2.2.2.2", "2");
    let c = pool_proxy("3.3.3.3", "3");
    pool.extend_unstable(vec![a, b, c]);
    pool.move_to_stable(&a);
    pool.move_to_stable(&b);
    let mut fair = false;
    for _ in 0..3 {
        let mut of_a = 0;
        for _ in 0..10_000 {
            let picked = pool.get_random().unwrap();
            assert!(picked == a || picked == b);
            if picked == a {
                of_a += 1;
            }
        }
        if (4850..=5150).contains(&of_a) {
            fair = true;
            break;
        }
    }
    assert!(fair);
}

#[test]
fn get_random_hands_out_a_proxy_of_the_list() {
    let mut pool = ProxyPool::new();
    let a = Proxy::new("1.1.1.1", "1", "普匿", "HTTPS").unwrap();
    pool.insert_unstable(a);
    assert!(pool.get_random().is_none());
    pool.move_to_stable(&a);
    let picked = pool.get_random().unwrap();
    assert_eq!(picked.get_key(), a.get_key());
    assert_eq!(picked.anonymity(), AnonymityLevel::Anonymous);
    assert_eq!(picked.ssl_type(), SslType::HTTPS);
}

#[test]
fn parallel_counts_add_up() {
    let workers = 8;
    let each = 500;
    let a = pool_proxy("1.1.1.1", "1");
    let mut pool = ProxyPool::new();
    pool.insert_unstable(a);
    let shared = Arc::new(Mutex::new(pool));
    let threads = ThreadPool::new(workers);
    for _ in 0..workers {
        let shared = shared.clone();
        threads.execute(move || {
            let mut rng = rand::thread_rng();
            for _ in 0..each {
                let alive: bool = rng.gen();
                let mut pool = shared.lock().unwrap();
                if alive {
                    pool.inc_success_cnt(&a);
                } else {
                    pool.inc_failed_cnt(&a);
                }
            }
        });
    }
    threads.join();
    assert_eq!(threads.panic_count(), 0);
    let pool = shared.lock().unwrap();
    let info = pool.stats(&a).unwrap();
    assert_eq!(info.success as usize + info.failed as usize, workers * each);
    assert_eq!(info.check_cnt() as usize, workers * each);
}

#[test]
fn copy_proxies_copies_in_order() {
    let list = vec![pool_proxy("1.1.1.1", "1"), pool_proxy("2.2.2.2", "2")];
    let copy = copy_proxies(&list);
    assert_eq!(pool_keys(&copy), pool_keys(&list));
    assert!(copy_proxies(&Vec::new()).is_empty());
}
