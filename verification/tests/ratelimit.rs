use vaultwarden_scim::ratelimit::{
    check_limit_admin, check_limit_login, check_limit_scim, check_limit_unauthenticated, limit_outcome,
    prune_limiters, ClientIp, LimitConfig, Limiters,
};

fn v4(a: u8, b: u8, c: u8, d: u8) -> ClientIp {
    ClientIp { v6: false, bits: u32::from_be_bytes([a, b, c, d]) as u128 }
}

fn limiters(burst: u32) -> Limiters {
    let config = LimitConfig { seconds: 3600, burst };
    Limiters::new(config, config, config, config)
}

#[test]
fn rate_limiter_returns_429_when_drained() {
    let ip = v4(10, 99, 99, 99);
    let burst = 10_000;
    let mut limiters = limiters(burst);
    let mut limited = false;
    for _ in 0..=burst {
        if let Err(e) = check_limit_scim(&mut limiters, ip) {
            assert_eq!((e.code, e.message), (429, "Too many SCIM requests"));
            limited = true;
            break;
        }
    }
    assert!(limited, "limiter never tripped after {burst} + 1 requests");
}

#[test]
fn pruning_does_not_release_a_bucket_that_is_still_throttling() {
    let ip = v4(198, 51, 100, 7);
    let mut limiters = limiters(10_000);

    let mut refused = false;
    for _ in 0..30_000 {
        if check_limit_scim(&mut limiters, ip).is_err() {
            refused = true;
            break;
        }
    }
    assert!(refused, "the SCIM limiter must refuse eventually, or this test proves nothing");

    prune_limiters(&mut limiters);

    assert!(
        check_limit_scim(&mut limiters, ip).is_err(),
        "pruning must not hand a throttled caller a fresh burst - retain_recent keeps live entries"
    );
}

#[test]
fn buckets_are_per_limiter_and_per_client() {
    let mut limiters = limiters(1);
    let ip = v4(192, 0, 2, 1);
    let same_bits = ClientIp { v6: true, bits: ip.bits };
    assert!(check_limit_scim(&mut limiters, ip).is_ok());
    assert!(check_limit_scim(&mut limiters, ip).is_err());
    // Another family with the same bits is another client.
    assert!(check_limit_scim(&mut limiters, same_bits).is_ok());

    assert!(check_limit_login(&mut limiters, ip).is_ok());
    assert_eq!(
        check_limit_login(&mut limiters, ip).map_err(|e| e.message),
        Err("Too many login requests")
    );
    assert!(check_limit_admin(&mut limiters, ip).is_ok());
    assert_eq!(
        check_limit_admin(&mut limiters, ip).map_err(|e| e.message),
        Err("Too many admin requests")
    );
    assert!(check_limit_unauthenticated(&mut limiters, ip).is_ok());
    assert_eq!(
        check_limit_unauthenticated(&mut limiters, ip).map_err(|e| (e.message, e.code)),
        Err(("Too many requests", 429))
    );
}

#[test]
fn a_full_bucket_admits_its_burst() {
    let mut limiters = limiters(3);
    let ip = v4(192, 0, 2, 2);
    for _ in 0..3 {
        assert!(check_limit_scim(&mut limiters, ip).is_ok());
    }
    assert!(check_limit_scim(&mut limiters, ip).is_err());
}

#[test]
fn a_refusal_is_a_429() {
    assert!(limit_outcome(true, "m").is_ok());
    assert_eq!(limit_outcome(false, "m").map_err(|e| (e.message, e.code)), Err(("m", 429)));
}

#[test]
fn pruning_between_requests_changes_no_answer() {
    let (mut pruned, mut plain) = (limiters(3), limiters(3));
    let clients = [v4(192, 0, 2, 3), v4(192, 0, 2, 4), v4(192, 0, 2, 3)];
    let mut answers = vec![];
    for ip in clients.into_iter().cycle().take(12) {
        prune_limiters(&mut pruned);
        let answer = check_limit_scim(&mut pruned, ip).is_ok();
        assert_eq!(answer, check_limit_scim(&mut plain, ip).is_ok());
        answers.push(answer);
    }
    assert_eq!(answers.iter().filter(|admitted| **admitted).count(), 6, "each client gets its burst, once");
}

#[test]
fn a_burst_is_per_client_whoever_asks_in_between() {
    let mut limiters = limiters(3);
    let (one, other) = (v4(192, 0, 2, 5), v4(192, 0, 2, 6));
    for k in 1..=6 {
        assert_eq!(check_limit_scim(&mut limiters, one).is_ok(), k <= 3, "request {k}");
        assert_eq!(check_limit_scim(&mut limiters, other).is_ok(), k <= 3, "request {k} of the other");
    }
}

#[test]
fn a_throttled_client_recovers() {
    let config = LimitConfig { seconds: 1, burst: 1 };
    let mut limiters = Limiters::new(config, config, config, config);
    let ip = v4(192, 0, 2, 7);
    let started = std::time::Instant::now();
    assert!(check_limit_scim(&mut limiters, ip).is_ok());
    while check_limit_scim(&mut limiters, ip).is_err() {
        assert!(started.elapsed().as_secs() < 10, "the limiter must recover");
    }
    assert!(started.elapsed().as_millis() >= 900, "but not before its time");
}
