use smg::observability::audit::{
    batch_accepted, bytes_as_str, is_audited_path, AuditConfig, AuditEnv, AuditLog, AuditSink,
    AuditStats, AuditedBody, FlushBuffer, SendOutcome,
};
use smg::observability::collectors::{
    collect_loads, collect_workers, drain_pending, is_membership_change, publish_if_subscribed,
    worker_collector_step, CollectorConfig, CollectorStep, Received, Topic, Wake, WorkerCounts,
    WorkerEvent,
};
use smg::observability::gauge_histogram::{request_count_bounds, BucketBounds, GaugeHistogramVec};
use smg::observability::registry::WatchRegistry;
use smg::observability::runtime_metrics::{
    canary_tick, next_sample, RuntimeSampler, WorkerReport, WorkerTotals,
};
use tokio::sync::mpsc;

#[test]
fn path_allow_list_only_chat() {
    assert!(is_audited_path("/v1/chat/completions"));
    assert!(!is_audited_path("/v1/completions"));
    assert!(!is_audited_path("/health"));
    assert!(!is_audited_path("/metrics"));
    assert!(!is_audited_path("/v1/models"));
}

#[test]
fn other_business_paths_are_not_audited() {
    assert!(!is_audited_path("/v1/rerank"));
    assert!(!is_audited_path("/v1/embeddings"));
    let mut sink = AuditSink::new(&config(1.0));
    assert!(sink
        .prepare_rerank("/v1/rerank", Some("id"), None, None, "m", vec![1], 0, 5)
        .is_none());
    assert!(sink
        .prepare_embeddings("/v1/embeddings", Some("id"), None, None, "m", vec![1], 0, 5)
        .is_none());
    assert_eq!(sink.stats().path_filtered, 2);
}

#[test]
fn a_forgotten_record_is_turned_in_whatever_its_id() {
    let mut sink = AuditSink::new(&config(1.0));
    for id in ["", "id-3"] {
        let mut pending = sink
            .prepare_chat(
                "/v1/chat/completions",
                Some(id),
                None,
                None,
                "m",
                true,
                b"{}".to_vec(),
                0,
                100,
            )
            .unwrap();
        pending.append_response_chunk(&b"par".to_vec());
        let log = pending.abandon(120).unwrap();
        assert_eq!(log.request_id, id);
        assert_eq!(log.raw_response, b"par".to_vec());
        assert_eq!(log.error.as_deref(), Some("dropped_without_finalize"));
        assert_eq!(log.response_end_ms, 120);
        assert!(pending.abandon(130).is_none());
    }
}

fn log(id: &str) -> AuditLog {
    AuditLog {
        request_id: id.to_string(),
        api_key: String::new(),
        user_id: String::new(),
        model: "m".to_string(),
        endpoint: "/v1/chat/completions".to_string(),
        is_streaming: false,
        raw_request: b"{}".to_vec(),
        raw_response: Vec::new(),
        status_code: 200,
        request_start_ms: 0,
        response_end_ms: 0,
        time_to_first_byte_ms: None,
        error: None,
    }
}

fn config(sample_rate: f32) -> AuditConfig {
    let mut cfg = AuditConfig::default();
    cfg.endpoint = "http://x".to_string();
    cfg.sample_rate = sample_rate.to_bits();
    cfg
}

#[test]
fn drop_when_queue_full() {
    let mut cfg = config(1.0);
    cfg.endpoint = "http://127.0.0.1:1/never".to_string();
    cfg.queue_capacity = 1;
    cfg.batch_size = 1024;
    cfg.flush_interval_ms = 3600 * 1000;
    cfg.request_timeout_ms = 100;
    let mut sink = AuditSink::new(&cfg);
    let (tx, mut rx) = mpsc::channel::<AuditLog>(cfg.queue_capacity);
    // Fill the queue + overflow several times.
    for _ in 0..10 {
        sink.count_send(match tx.try_send(log("r")) {
            Ok(()) => SendOutcome::Accepted,
            Err(mpsc::error::TrySendError::Full(_)) => SendOutcome::Full,
            Err(mpsc::error::TrySendError::Closed(_)) => SendOutcome::Closed,
        });
    }
    let s = sink.stats();
    assert!(s.dropped_full > 0, "expected drops, got {s:?}");
    assert_eq!(s.accepted, 1);
    assert_eq!(s.dropped_full, 9);
    assert_eq!(rx.try_recv().unwrap().request_id, "r");
    assert!(rx.try_recv().is_err());
}

#[test]
fn sample_zero_rejects_all() {
    let mut sink = AuditSink::new(&config(0.0));
    for i in 0..50 {
        let draw = (i as f32 / 50.0).to_bits();
        assert!(!sink.should_audit("/v1/chat/completions", draw));
    }
    assert_eq!(sink.stats().sampled_out, 50);
}

#[test]
fn sample_one_accepts_all_for_audited_path() {
    let mut sink = AuditSink::new(&config(1.0));
    for i in 0..50 {
        let draw = (i as f32 / 50.0).to_bits();
        assert!(sink.should_audit("/v1/chat/completions", draw));
    }
    // A rate below zero audits nothing either.
    let mut none = AuditSink::new(&config(-0.5));
    assert!(!none.should_audit("/v1/chat/completions", 0.5f32.to_bits()));
    assert!(!none.should_audit("/v1/chat/completions", 0f32.to_bits()));
    // Non-audited paths still rejected.
    assert!(!sink.should_audit("/health", 0f32.to_bits()));
    assert_eq!(
        sink.stats(),
        AuditStats { accepted: 0, sampled_out: 0, path_filtered: 1, dropped_full: 0 }
    );
}

#[test]
fn sampling_compares_the_draw_with_the_rate() {
    let mut sink = AuditSink::new(&config(0.25));
    assert!(sink.should_audit("/v1/chat/completions", 0.2499f32.to_bits()));
    assert!(!sink.should_audit("/v1/chat/completions", 0.25f32.to_bits()));
    assert!(!sink.should_audit("/v1/chat/completions", 0.9f32.to_bits()));
}

#[test]
fn audit_settings_come_from_the_environment() {
    let nothing = AuditEnv {
        endpoint: None,
        sample_rate: None,
        queue_capacity: None,
        batch_size: None,
        flush_ms: None,
        timeout_ms: None,
    };
    let cfg = AuditConfig::from_env(&nothing).unwrap();
    assert_eq!(cfg.sample_rate, 0.1f32.to_bits());
    assert_eq!(cfg.queue_capacity, 10_000);
    assert_eq!(cfg.batch_size, 64);
    assert_eq!(cfg.flush_interval_ms, 1_000);
    assert_eq!(cfg.request_timeout_ms, 3_000);

    let off = AuditEnv { endpoint: Some("Disabled"), ..nothing };
    assert!(AuditConfig::from_env(&off).is_none());

    let some = AuditEnv {
        endpoint: Some("http://audit"),
        sample_rate: Some(7f32.to_bits()),
        queue_capacity: Some("0"),
        batch_size: Some("eight"),
        flush_ms: Some("10"),
        timeout_ms: Some("250"),
    };
    let cfg = AuditConfig::from_env(&some).unwrap();
    assert_eq!(cfg.endpoint, "http://audit");
    assert_eq!(cfg.sample_rate, 1f32.to_bits());
    assert_eq!(cfg.queue_capacity, 1);
    assert_eq!(cfg.batch_size, 64);
    assert_eq!(cfg.flush_interval_ms, 50);
    assert_eq!(cfg.request_timeout_ms, 250);
}

#[test]
fn an_audited_stream_is_recorded_once() {
    let mut sink = AuditSink::new(&config(1.0));
    let pending = sink
        .prepare_chat(
            "/v1/chat/completions",
            None,
            Some("Bearer sk"),
            None,
            "m",
            true,
            b"{}".to_vec(),
            0,
            100,
        )
        .unwrap();
    // A fresh id is a UUID.
    assert_eq!(pending.request_id().len(), 36);
    let mut body = AuditedBody::new(pending, 200);
    body.on_chunk(&b"da".to_vec(), 130);
    body.on_chunk(&b"ta".to_vec(), 150);
    let done = body.on_end(170).unwrap();
    assert_eq!(done.api_key, "sk");
    assert_eq!(done.raw_response, b"data".to_vec());
    assert_eq!(done.time_to_first_byte_ms, Some(30));
    assert_eq!(done.response_end_ms, 170);
    assert_eq!(done.status_code, 200);
    assert_eq!(done.error, None);
    assert!(body.on_drop(180).is_none());
}

#[test]
fn a_broken_stream_says_why() {
    let mut sink = AuditSink::new(&config(1.0));
    let pending = sink
        .prepare_rerank("/v1/chat/completions", Some("id-1"), None, Some("u"), "m", vec![1], 0, 5)
        .unwrap();
    assert_eq!(pending.request_id(), "id-1");
    let mut body = AuditedBody::new(pending, 502);
    let log = body.on_error("reset", 9).unwrap();
    assert_eq!(log.error.as_deref(), Some("stream_error: reset"));
    assert_eq!(log.user_id, "u");

    let pending = sink
        .prepare_embeddings("/v1/chat/completions", Some("id-2"), None, None, "m", vec![1], 0, 5)
        .unwrap();
    let mut body = AuditedBody::new(pending, 200);
    let log = body.on_drop(9).unwrap();
    assert_eq!(log.error.as_deref(), Some("client_disconnected"));
}

#[test]
fn bytes_that_are_no_text_are_encoded() {
    assert_eq!(bytes_as_str(&b"plain".to_vec()), "plain");
    assert_eq!(bytes_as_str(&vec![0xff, 0xfe, 0xfd, 0xfc]), "//79/A==");
}

#[test]
fn batches_go_out_when_full_or_at_a_tick() {
    let mut buffer = FlushBuffer::new(2);
    assert!(buffer.on_tick().is_none());
    assert!(buffer.on_log(log("a")).is_none());
    let batch = buffer.on_log(log("b")).unwrap();
    assert_eq!(batch.len(), 2);
    assert_eq!(batch[1].request_id, "b");
    assert!(buffer.on_log(log("c")).is_none());
    assert_eq!(buffer.on_tick().unwrap().len(), 1);
    assert!(buffer.on_tick().is_none());
    assert!(batch_accepted(Some(204)));
    assert!(!batch_accepted(Some(500)));
    assert!(!batch_accepted(None));
}

#[test]
fn test_bucket_bounds_creation() {
    let bounds = BucketBounds::new([10, 30, 60]);
    assert_eq!(bounds.bucket_count(), 4);
    assert_eq!(bounds.bound_count(), 3);
}

#[test]
fn test_bucket_bounds_const_creation() {
    let bounds: BucketBounds<3> = BucketBounds::new([10, 30, 60]);
    assert_eq!(bounds.bucket_count(), 4);
}

#[test]
fn test_bucket_index() {
    let bounds = BucketBounds::new([10, 30, 60]);
    assert_eq!(bounds.bucket_index(0), 0);
    assert_eq!(bounds.bucket_index(10), 0);
    assert_eq!(bounds.bucket_index(11), 1);
    assert_eq!(bounds.bucket_index(30), 1);
    assert_eq!(bounds.bucket_index(31), 2);
    assert_eq!(bounds.bucket_index(60), 2);
    assert_eq!(bounds.bucket_index(61), 3);
}

#[test]
fn test_compute_counts() {
    let bounds = BucketBounds::new([10, 30, 60]);
    assert_eq!(bounds.compute_counts(&[5, 10, 15, 40, 100]), vec![2, 1, 1, 1]);
}

#[test]
fn test_compute_counts_into() {
    let bounds = BucketBounds::new([10, 30, 60]);
    let mut counts = [0usize; 4];
    bounds.compute_counts_into(&mut counts, &[5, 10, 15, 40, 100]);
    assert_eq!(counts, [2, 1, 1, 1]);
}

#[test]
fn test_gauge_histogram_vec_creation() {
    let bounds: &'static BucketBounds<3> = Box::leak(Box::new(BucketBounds::new([10, 30, 60])));
    let histogram: GaugeHistogramVec<3> = GaugeHistogramVec::new("test_metric", bounds);

    assert_eq!(histogram.name(), "test_metric");
    assert_eq!(histogram.bounds().bucket_count(), 4);
}

#[test]
fn test_request_count_bounds() {
    let bounds = request_count_bounds();
    assert_eq!(bounds.bucket_count(), 11);
    assert_eq!(bounds.bucket_index(1), 0);
    assert_eq!(bounds.bucket_index(2), 1);
    assert_eq!(bounds.bucket_index(201), 10);
}

#[test]
fn bucket_limits_and_labels() {
    let bounds = BucketBounds::new([10, 30, 60]);
    assert_eq!(bounds.lower_bound(0), 0);
    assert_eq!(bounds.lower_bound(2), 30);
    assert_eq!(bounds.upper_bound(2), Some(60));
    assert_eq!(bounds.upper_bound(3), None);
    assert_eq!(bounds.range_labels(0), ("0".to_string(), "10".to_string()));
    assert_eq!(bounds.range_labels(3), ("60".to_string(), "+Inf".to_string()));
    assert_eq!(bounds.bounds(), &[10, 30, 60]);
}

#[test]
fn default_config_has_sensible_intervals() {
    let config = CollectorConfig::default();
    assert_eq!(config.loads_interval, 3);
    assert_eq!(config.rate_limits_interval, 5);
    assert_eq!(config.metrics_interval, 3);
    assert_eq!(config.worker_checkpoint_interval, 3);
}

#[test]
fn publish_skipped_without_receivers() {
    let mut registry = WatchRegistry::new();
    let mut collected = 0;
    if registry.has_receivers(Topic::Workers) {
        collected += 1;
        registry.publish(Topic::Workers, "{\"workers\":[]}".to_string());
    }
    assert_eq!(collected, 0, "must not collect when no client is subscribed");
    // A fresh subscriber sees the initial None: nothing was published.
    assert!(registry.subscribe(Topic::Workers).borrow().is_none());
    assert!(!publish_if_subscribed(0));
}

#[test]
fn publish_runs_with_receiver() {
    let mut registry = WatchRegistry::new();
    let rx = registry.subscribe(Topic::Workers);
    let mut collected = 0;
    if registry.has_receivers(Topic::Workers) {
        collected += 1;
        registry.publish(Topic::Workers, "{\"workers\":[]}".to_string());
    }
    assert_eq!(collected, 1, "must collect when a client is subscribed");
    assert!(rx.borrow().is_some());
    assert!(publish_if_subscribed(1));
}

#[test]
fn drain_pending_coalesces_burst_and_flags_membership() {
    let first = WorkerEvent::StatusChanged;
    let queued = vec![
        Received::Event(WorkerEvent::StatusChanged),
        Received::Event(WorkerEvent::Registered),
        Received::Event(WorkerEvent::StatusChanged),
    ];
    let models_changed = drain_pending(&first, &queued);
    assert!(models_changed, "a Registered event in the burst must flag a models rebuild");
}

#[test]
fn drain_pending_status_only_keeps_models_untouched() {
    let first = WorkerEvent::StatusChanged;
    let queued = vec![
        Received::Event(WorkerEvent::StatusChanged),
        Received::Event(WorkerEvent::StatusChanged),
    ];
    let models_changed = drain_pending(&first, &queued);
    assert!(!models_changed, "a status-only burst must not rebuild models");
}

#[test]
fn a_lag_rebuilds_the_models() {
    assert!(drain_pending(&WorkerEvent::StatusChanged, &vec![Received::Lagged]));
    assert!(is_membership_change(&WorkerEvent::Removed));
    assert_eq!(
        worker_collector_step(&Wake::Burst(WorkerEvent::StatusChanged, vec![])),
        CollectorStep::Publish { models: false }
    );
    assert_eq!(worker_collector_step(&Wake::Lagged), CollectorStep::Publish { models: true });
    assert_eq!(worker_collector_step(&Wake::Checkpoint), CollectorStep::Publish { models: true });
    assert_eq!(worker_collector_step(&Wake::Closed), CollectorStep::Stop);
}

#[test]
fn snapshots_count_workers_and_loads() {
    assert_eq!(
        collect_workers(&vec![true, false, true]),
        WorkerCounts { total: 3, healthy: 2, unhealthy: 1 }
    );
    assert_eq!(collect_loads(&vec![3, 0, 4]), 7);
}

#[test]
fn initial_value_is_none() {
    let registry = WatchRegistry::new();
    let rx = registry.subscribe(Topic::Workers);
    assert!(rx.borrow().is_none());
    assert_eq!(registry.snapshot(Topic::Workers), None);
}

#[test]
fn subscribe_receives_updates() {
    let mut registry = WatchRegistry::new();
    let mut rx = registry.subscribe(Topic::Workers);

    let data = "{\"workers\":[{\"id\":\"w1\"}],\"total\":1}".to_string();
    registry.publish(Topic::Workers, data.clone());

    assert!(rx.has_changed().unwrap());
    let value = rx.borrow_and_update();
    assert_eq!(value.as_ref().unwrap(), &data);
}

#[test]
fn separate_topics_are_independent() {
    let mut registry = WatchRegistry::new();
    let rx_workers = registry.subscribe(Topic::Workers);
    let rx_loads = registry.subscribe(Topic::Loads);

    registry.publish(Topic::Workers, "{\"updated\":true}".to_string());

    assert!(rx_workers.has_changed().unwrap());
    assert!(!rx_loads.has_changed().unwrap());
    assert_eq!(registry.snapshot(Topic::Workers).as_deref(), Some("{\"updated\":true}"));
    assert_eq!(registry.snapshot(Topic::Loads), None);
}

#[test]
fn multiple_subscribers_receive_same_data() {
    let mut registry = WatchRegistry::new();
    let mut rx1 = registry.subscribe(Topic::Metrics);
    let mut rx2 = registry.subscribe(Topic::Metrics);

    let data = "{\"raw\":\"test_counter 42\"}".to_string();
    registry.publish(Topic::Metrics, data.clone());

    assert_eq!(rx1.borrow_and_update().as_ref().unwrap(), &data);
    assert_eq!(rx2.borrow_and_update().as_ref().unwrap(), &data);
}

#[test]
fn late_subscriber_sees_latest_value() {
    let mut registry = WatchRegistry::new();
    let data = "{\"workers\":[{\"id\":\"w1\"}],\"total\":1}".to_string();
    registry.publish(Topic::Workers, data.clone());

    // Subscribe after publish — should immediately see the latest value
    let rx = registry.subscribe(Topic::Workers);
    assert_eq!(rx.borrow().as_ref().unwrap(), &data);
}

#[test]
fn all_topics_have_senders() {
    let registry = WatchRegistry::new();
    for topic in [
        Topic::Workers,
        Topic::Loads,
        Topic::Cluster,
        Topic::Mesh,
        Topic::RateLimits,
        Topic::Models,
        Topic::Metrics,
    ] {
        assert!(registry.snapshot(topic).is_none());
        assert!(!registry.has_receivers(topic));
        let _receiver = registry.subscribe(topic);
        assert!(registry.has_receivers(topic));
    }
}

#[test]
fn the_runtime_is_sampled_every_second() {
    assert_eq!(next_sample(999_999_999, 1_000_000_000), None);
    assert_eq!(next_sample(1_000_000_007, 1_000_000_000), Some(2_000_000_007));
}

#[test]
fn canary_measures_drift_and_counts_stall_on_blocked_runtime() {
    // A timer of 10ms that fires after 110ms.
    let tick = canary_tick(110_000_000);
    assert_eq!(tick.drift_ns, 100_000_000);
    assert!(tick.stalled);
    let tick = canary_tick(15_000_000);
    assert_eq!(tick.drift_ns, 5_000_000);
    assert!(!tick.stalled);
    let tick = canary_tick(9_000_000);
    assert_eq!(tick.drift_ns, 0);
}

#[test]
fn sampler_registration_and_sampling_does_not_panic() {
    let mut sampler = RuntimeSampler::new(0);
    let idle = WorkerTotals { busy_ns: 0, parks: 0 };
    assert_eq!(sampler.sample(&vec![idle, idle], 10).len(), 2);
    let reports = sampler.sample(
        &vec![WorkerTotals { busy_ns: 5, parks: 1 }, WorkerTotals { busy_ns: 0, parks: 3 }],
        30,
    );
    assert_eq!(reports[0], WorkerReport { busy_ns: 5, of_ns: 20, parks: 1 });
    assert_eq!(reports[1].parks, 3);
    assert_eq!(sampler.label(0).map(|s| s.as_str()), Some("0"));
    assert_eq!(sampler.label(1).map(|s| s.as_str()), Some("1"));
}

#[test]
fn busy_ratio_renders_within_bounds_under_load() {
    let mut sampler = RuntimeSampler::new(100);
    // The first sample's busy time covers more than the interval.
    let reports = sampler.sample(&vec![WorkerTotals { busy_ns: 1_000, parks: 0 }], 150);
    let ratio = reports[0].busy_ns as f64 / reports[0].of_ns as f64;
    assert!((0.0..=1.0).contains(&ratio), "busy ratio out of bounds: {ratio}");
}
