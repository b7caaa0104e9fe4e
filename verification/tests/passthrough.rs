use smg::passthrough::PassthroughPolicy;

#[test]
fn test_selects_only_worker() {
    let mut policy = PassthroughPolicy::new();
    let workers = vec![true];
    for _ in 0..10 {
        assert_eq!(policy.select_worker(&workers), Some(0));
    }
    assert!(!policy.warned());
}

#[test]
fn test_selects_first_healthy_with_two_workers() {
    let mut policy = PassthroughPolicy::new();
    let workers = vec![true, true];
    // Deterministic: always the first healthy index.
    for _ in 0..10 {
        assert_eq!(policy.select_worker(&workers), Some(0));
    }
    assert!(policy.warned());
}

#[test]
fn test_skips_unhealthy_first_worker() {
    let mut policy = PassthroughPolicy::default();
    let workers = vec![false, true];
    for _ in 0..10 {
        assert_eq!(policy.select_worker(&workers), Some(1));
    }
}

#[test]
fn test_none_when_empty() {
    let mut policy = PassthroughPolicy::new();
    let workers: Vec<bool> = vec![];
    assert_eq!(policy.select_worker(&workers), None);
}

#[test]
fn test_none_when_all_unhealthy() {
    let mut policy = PassthroughPolicy::new();
    let workers = vec![false, false];
    assert_eq!(policy.select_worker(&workers), None);
}

#[test]
fn test_name() {
    assert_eq!(PassthroughPolicy::new().name(), "passthrough");
}
