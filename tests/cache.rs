use compile_server::cache::Cache;

const SECOND: u64 = 1_000_000_000;

fn s(x: &str) -> String {
    x.to_string()
}

#[test]
fn cache_insert() {
    let mut c = Cache::new(SECOND);
    c.insert(s("root"), s("/"), 0);

    println!("Accessing!");
    let r = c.get(&s("root"), 0);
    assert_eq!(r, Some(s("/")));
}

#[test]
fn cache_timeout1() {
    let mut c = Cache::new(1);
    c.insert(s("root"), s("/"), 0);

    let r = c.get(&s("root"), 0);
    assert_eq!(r, Some(s("/")));

    let now = SECOND;
    c.evict_expired(now);

    let r = c.get(&s("root"), now);
    assert_eq!(r, None);
}

#[test]
fn cache_timeout2() {
    let mut c = Cache::new(3);
    c.insert(s("root"), s("/"), 0);

    let r = c.get(&s("root"), 0);
    assert_eq!(r, Some(s("/")));
    c.insert(s("home"), s("/home/epos/"), 0);

    let now = SECOND;
    c.evict_expired(now);

    let r = c.get(&s("root"), now);
    assert_eq!(r, None);
    let r = c.get(&s("home"), now);
    assert_eq!(r, None);
}

#[test]
fn cache_timeout3() {
    let mut c = Cache::new(3);
    c.insert(s("root"), s("/"), 0);

    let r = c.get(&s("root"), 0);
    assert_eq!(r, Some(s("/")));
    c.insert(s("home"), s("/home/epos/"), 0);

    let now = SECOND;
    c.evict_expired(now);

    let r = c.get(&s("root"), now);
    assert_eq!(r, None);
    let r = c.get(&s("home"), now);
    assert_eq!(r, None);

    c.insert(s("home"), s("/home/epos/"), now);
    let r = c.get(&s("home"), now);
    assert_eq!(r, Some(s("/home/epos/")));
}

#[test]
fn cache_keepalive() {
    let mut c = Cache::new(3 * SECOND);
    c.insert(s("root"), s("/"), 0);

    let r = c.get(&s("root"), 0);
    assert_eq!(r, Some(s("/")));

    for step in 1..5u64 {
        let now = step * SECOND;
        c.evict_expired(now);
        let r = c.get(&s("root"), now);
        assert_eq!(r, Some(s("/")));
    }
}

#[test]
fn cache_keepalive2() {
    let mut c = Cache::new(5 * SECOND);
    c.insert(s("root"), s("/"), 0);

    let r = c.get(&s("root"), 0);
    assert_eq!(r, Some(s("/")));

    for step in 1..5u64 {
        let now = step * 3 * SECOND;
        c.evict_expired(now);
        let r = c.get(&s("root"), now);
        assert_eq!(r, Some(s("/")));
    }
}

#[test]
fn cache_callback() {
    let mut c = Cache::new(SECOND);
    c.insert(s("root"), s("/"), 0);

    let evicted = c.evict_expired(SECOND + 1);
    let reported: Vec<String> = evicted.iter().map(|x| format!("{x} just went out cache!")).collect();
    assert_eq!(reported.len(), 1);
    assert!(reported[0].contains("root"));
}

#[test]
fn cache_callback2() {
    let mut c = Cache::new(5 * SECOND);
    c.insert(s("root"), s("/"), 0);

    let r = c.get(&s("root"), 0);
    assert_eq!(r, Some(s("/")));

    let mut reported: Vec<String> = Vec::new();
    for step in 1..5u64 {
        let now = step * 3 * SECOND;
        for x in c.evict_expired(now) {
            reported.push(format!("{x} just went out cache!"));
        }
        let r = c.get(&s("root"), now);
        assert_eq!(r, Some(s("/")));
    }

    assert!(!reported.iter().any(|line| line.contains("root")));
}

#[test]
fn cache_crash() {
    let mut c = Cache::new(3 * SECOND);

    for i in 0..2000 {
        c.insert(format!("root{i}").to_string(), s("/"), 0);
    }

    let evicted = c.evict_expired(5 * SECOND);
    assert_eq!(evicted.len(), 2000);
    assert_eq!(c.get(&s("root7"), 5 * SECOND), None);
}

#[test]
fn scenario_idle_entry_expires() {
    let mut c = Cache::new(SECOND);
    c.insert(s("root"), s("/bin/a"), 0);
    assert_eq!(c.get(&s("root"), 0), Some(s("/bin/a")));
    let now = 3 * SECOND / 2;
    assert_eq!(c.evict_expired(now), vec![s("root")]);
    assert_eq!(c.get(&s("root"), now), None);
}

#[test]
fn scenario_reads_keep_entry_alive() {
    let mut c = Cache::new(SECOND);
    c.insert(s("root"), s("/bin/a"), 0);
    for step in 1..=4u64 {
        let now = step * SECOND / 2;
        assert!(c.evict_expired(now).is_empty());
        assert_eq!(c.get(&s("root"), now), Some(s("/bin/a")));
    }
}

#[test]
fn zero_timeout_never_expires() {
    let mut c = Cache::new(0);
    c.insert(s("root"), s("/bin/a"), 0);
    assert!(c.evict_expired(u64::MAX).is_empty());
    assert_eq!(c.get(&s("root"), u64::MAX), Some(s("/bin/a")));
    assert_eq!(c.data_timeout(), 0);
}

#[test]
fn overwrite_is_not_an_eviction() {
    let mut c = Cache::new(SECOND);
    c.insert(s("root"), s("/bin/a"), 0);
    c.insert(s("root"), s("/bin/b"), 10);
    assert!(c.evict_expired(10).is_empty());
    assert_eq!(c.get(&s("root"), 10), Some(s("/bin/b")));
}

#[test]
fn expiry_needs_more_than_the_timeout() {
    let mut c = Cache::new(SECOND);
    c.insert(s("root"), s("/bin/a"), 0);
    assert!(c.evict_expired(SECOND).is_empty());
    assert_eq!(c.evict_expired(SECOND + 1), vec![s("root")]);
    assert!(c.evict_expired(SECOND + 2).is_empty());
}

#[test]
fn read_of_absent_key_changes_nothing() {
    let mut c = Cache::new(SECOND);
    assert_eq!(c.get(&s("root"), 0), None);
    c.insert(s("home"), s("/home"), 0);
    assert_eq!(c.get(&s("root"), 5), None);
    assert_eq!(c.evict_expired(SECOND + 1), vec![s("home")]);
}

#[test]
fn read_moves_the_clock_but_never_back() {
    let mut c = Cache::new(SECOND);
    c.insert(s("root"), s("/bin/a"), 10);
    assert_eq!(c.get(&s("root"), 5), Some(s("/bin/a")));
    assert!(c.evict_expired(SECOND + 10).is_empty());
    assert_eq!(c.evict_expired(SECOND + 11), vec![s("root")]);
}
