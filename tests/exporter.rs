use validator_exporter::cache::MetricsCache;
use validator_exporter::decimal::push_decimal;
use validator_exporter::endpoint::{is_metrics_path, serve_metrics, STATUS_NOT_FOUND, STATUS_OK};
use validator_exporter::exposition::export_prometheus_metrics;
use validator_exporter::metrics::{calculate_metrics, ValidatorMetrics, ValidatorVoteState};
use validator_exporter::refresh::{exposition_for, next_delay_millis, RefreshOutcome, PACING_MILLIS};

fn account(key: &str, root: u64, vote: u64, credits: &[u64]) -> ValidatorVoteState {
    ValidatorVoteState {
        vote_pubkey: key.to_string(),
        root_slot: root,
        last_vote: vote,
        epoch_credits: credits
            .iter()
            .enumerate()
            .map(|(e, c)| (e as u64, *c, c.saturating_sub(10)))
            .collect(),
    }
}

fn metric(key: &str, root: u64, vote: u64, credits: u64, rank: usize) -> ValidatorMetrics {
    ValidatorMetrics {
        vote_pubkey: key.to_string(),
        root_distance: root,
        vote_distance: vote,
        credits_earned: credits,
        rank,
    }
}

fn summary(ms: &[ValidatorMetrics]) -> Vec<(String, u64, u64, u64, usize)> {
    ms.iter()
        .map(|m| (m.vote_pubkey.clone(), m.root_distance, m.vote_distance, m.credits_earned, m.rank))
        .collect()
}

const EMPTY_TEXT_HEAD: &str = "# HELP solana_validator Metrics for each validator\n\
# TYPE solana_validator gauge\n";

fn top_and_health(top1: Option<u64>, active: usize, status: u8, timeout: u8, duration: &str) -> String {
    let mut s = String::new();
    s.push_str("# HELP solana_validator_top_1 Credits earned by the top 1 validator\n");
    s.push_str("# TYPE solana_validator_top_1 gauge\n");
    if let Some(c) = top1 {
        s.push_str(&format!("solana_validator_top_1 {}\n", c));
    }
    s.push_str("# HELP solana_validator_top_100 Credits earned by the top 100 validator\n");
    s.push_str("# TYPE solana_validator_top_100 gauge\n");
    s.push_str("# HELP solana_validator_top_200 Credits earned by the top 200 validator\n");
    s.push_str("# TYPE solana_validator_top_200 gauge\n");
    s.push_str("# HELP solana_validator_active Total number of active validators\n");
    s.push_str("# TYPE solana_validator_active gauge\n");
    s.push_str(&format!("solana_validator_active {}\n", active));
    s.push_str("# HELP solana_validator_exporter_last_rpc_status RPC response status (1=success, 0=failure)\n");
    s.push_str("# TYPE solana_validator_exporter_last_rpc_status gauge\n");
    s.push_str(&format!("solana_validator_exporter_last_rpc_status {}\n", status));
    s.push_str("# HELP solana_validator_exporter_rpc_response_timeout RPC response timeout (1=timeout, 0=no timeout)\n");
    s.push_str("# TYPE solana_validator_exporter_rpc_response_timeout gauge\n");
    s.push_str(&format!("solana_validator_exporter_rpc_response_timeout {}\n", timeout));
    s.push_str("# HELP solana_validator_exporter_rpc_duration_seconds RPC response time in seconds\n");
    s.push_str("# TYPE solana_validator_exporter_rpc_duration_seconds gauge\n");
    s.push_str(&format!("solana_validator_exporter_rpc_duration_seconds {}\n", duration));
    s
}

#[test]
fn three_validators_with_a_tie_keep_input_order() {
    let accounts = vec![
        account("A", 100, 110, &[400, 500]),
        account("B", 100, 110, &[500]),
        account("C", 90, 105, &[300]),
    ];
    let (ms, active) = calculate_metrics(&accounts);
    assert_eq!(active, 3);
    assert_eq!(
        summary(&ms),
        vec![
            ("A".to_string(), 0, 0, 500, 1),
            ("B".to_string(), 0, 0, 500, 2),
            ("C".to_string(), 10, 5, 300, 3),
        ]
    );
}

#[test]
fn ranking_sorts_by_credits_descending() {
    let accounts = vec![
        account("low", 50, 60, &[100]),
        account("x", 55, 58, &[700]),
        account("mid", 40, 61, &[300]),
        account("y", 51, 59, &[700]),
    ];
    let (ms, active) = calculate_metrics(&accounts);
    assert_eq!(active, 4);
    assert_eq!(
        summary(&ms),
        vec![
            ("x".to_string(), 0, 3, 700, 1),
            ("y".to_string(), 4, 2, 700, 2),
            ("mid".to_string(), 15, 0, 300, 3),
            ("low".to_string(), 5, 1, 100, 4),
        ]
    );
}

#[test]
fn inactive_accounts_are_excluded_but_count_for_the_maxima() {
    let accounts = vec![
        account("none", 200, 220, &[]),
        account("zero", 10, 12, &[50, 0]),
        account("live", 150, 210, &[80]),
    ];
    let (ms, active) = calculate_metrics(&accounts);
    assert_eq!(active, 1);
    assert_eq!(summary(&ms), vec![("live".to_string(), 50, 10, 80, 1)]);
}

#[test]
fn empty_snapshot_gives_no_metrics() {
    let (ms, active) = calculate_metrics(&Vec::new());
    assert_eq!(active, 0);
    assert!(ms.is_empty());
    let text = export_prometheus_metrics(ms, active, 1, "0.25", 0);
    assert_eq!(text, format!("{}{}", EMPTY_TEXT_HEAD, top_and_health(None, 0, 1, 0, "0.25")));
    assert!(!text.contains("\nsolana_validator_top_1 "));
    assert!(text.contains("solana_validator_active 0\n"));
}

#[test]
fn ranks_are_contiguous_and_match_count() {
    let accounts: Vec<ValidatorVoteState> = (0..25u64)
        .map(|i| account(&format!("v{}", i), i, i, &[if i % 3 == 0 { 0 } else { (i * 37) % 11 + 1 }]))
        .collect();
    let (ms, active) = calculate_metrics(&accounts);
    assert_eq!(active, ms.len());
    assert_eq!(active, 16);
    for (i, m) in ms.iter().enumerate() {
        assert_eq!(m.rank, i + 1);
        assert!(m.credits_earned > 0);
    }
    for w in ms.windows(2) {
        assert!(w[0].credits_earned >= w[1].credits_earned);
    }
}

#[test]
fn formatter_renders_exact_text() {
    let ms = vec![metric("A", 0, 0, 500, 1), metric("C", 10, 5, 300, 2)];
    let text = export_prometheus_metrics(ms, 2, 1, "0.5", 0);
    let expected = format!(
        "{}{}{}{}",
        EMPTY_TEXT_HEAD,
        "solana_validator{identity=\"A\",root_distance=\"0\",vote_distance=\"0\",credits_so_far=\"500\"} 1\n",
        "solana_validator{identity=\"C\",root_distance=\"10\",vote_distance=\"5\",credits_so_far=\"300\"} 2\n",
        top_and_health(Some(500), 2, 1, 0, "0.5")
    );
    assert_eq!(text, expected);
}

#[test]
fn formatter_is_deterministic() {
    let make = || vec![metric("k1", 3, 4, 9, 1), metric("k2", 0, 1, 8, 2)];
    let a = export_prometheus_metrics(make(), 2, 1, "1.25", 0);
    let b = export_prometheus_metrics(make(), 2, 1, "1.25", 0);
    assert_eq!(a, b);
}

fn many(n: usize) -> Vec<ValidatorMetrics> {
    (0..n).map(|i| metric(&format!("v{}", i), 0, 0, 10_000 - i as u64, i + 1)).collect()
}

#[test]
fn top_gauges_follow_the_number_of_validators() {
    let t99 = export_prometheus_metrics(many(99), 99, 1, "1", 0);
    assert!(t99.contains("solana_validator_top_1 10000\n"));
    assert!(!t99.contains("\nsolana_validator_top_100 "));
    let t100 = export_prometheus_metrics(many(100), 100, 1, "1", 0);
    assert!(t100.contains("solana_validator_top_100 9901\n"));
    assert!(!t100.contains("\nsolana_validator_top_200 "));
    let t199 = export_prometheus_metrics(many(199), 199, 1, "1", 0);
    assert!(!t199.contains("\nsolana_validator_top_200 "));
    let t200 = export_prometheus_metrics(many(200), 200, 1, "1", 0);
    assert!(t200.contains("solana_validator_top_1 10000\n"));
    assert!(t200.contains("solana_validator_top_100 9901\n"));
    assert!(t200.contains("solana_validator_top_200 9801\n"));
    let t0 = export_prometheus_metrics(Vec::new(), 0, 1, "1", 0);
    assert!(!t0.contains("\nsolana_validator_top_1 "));
}

#[test]
fn rpc_failure_reports_status_zero() {
    let text = exposition_for(RefreshOutcome::RpcFailure);
    assert_eq!(text, format!("{}{}", EMPTY_TEXT_HEAD, top_and_health(None, 0, 0, 0, "0")));
    assert!(text.contains("solana_validator_exporter_last_rpc_status 0\n"));
    assert!(text.contains("solana_validator_exporter_rpc_response_timeout 0\n"));
    assert!(text.contains("solana_validator_exporter_rpc_duration_seconds 0\n"));
}

#[test]
fn timeout_reports_timeout_gauge() {
    let text = exposition_for(RefreshOutcome::Timeout);
    assert_eq!(text, format!("{}{}", EMPTY_TEXT_HEAD, top_and_health(None, 0, 0, 1, "0")));
    assert!(text.contains("solana_validator_exporter_last_rpc_status 0\n"));
    assert!(text.contains("solana_validator_exporter_rpc_response_timeout 1\n"));
}

#[test]
fn success_reports_status_one_and_duration() {
    let accounts = vec![account("A", 7, 9, &[42])];
    let (ms, active) = calculate_metrics(&accounts);
    let text = exposition_for(RefreshOutcome::Success {
        metrics: ms,
        active_count: active,
        duration: "0.731".to_string(),
    });
    let expected = format!(
        "{}{}{}",
        EMPTY_TEXT_HEAD,
        "solana_validator{identity=\"A\",root_distance=\"0\",vote_distance=\"0\",credits_so_far=\"42\"} 1\n",
        top_and_health(Some(42), 1, 1, 0, "0.731")
    );
    assert_eq!(text, expected);
}

#[test]
fn metrics_route_returns_last_write() {
    let mut cache = MetricsCache::new();
    assert_eq!(serve_metrics("/metrics", &cache).body, "");
    cache.write("first\n".to_string());
    cache.write("second text\n".to_string());
    let reply = serve_metrics("/metrics", &cache);
    assert_eq!(reply.status, STATUS_OK);
    assert_eq!(reply.status, 200);
    assert_eq!(reply.body, "second text\n");
}

#[test]
fn other_route_is_not_found() {
    let mut cache = MetricsCache::new();
    cache.write("data".to_string());
    for path in ["/other", "/", "/metrics/", "/metric", "metrics", ""] {
        let reply = serve_metrics(path, &cache);
        assert_eq!(reply.status, STATUS_NOT_FOUND);
        assert_eq!(reply.status, 404);
        assert_eq!(reply.body, "404 Not Found");
    }
    assert!(is_metrics_path("/metrics"));
    assert!(!is_metrics_path("/Metrics"));
}

#[test]
fn cache_read_after_write_is_that_write() {
    let mut cache = MetricsCache::new();
    assert_eq!(cache.read(), "");
    for i in 0..50 {
        let text = format!("round {} {}\n", i, "x".repeat(i));
        cache.write(text.clone());
        assert_eq!(cache.read(), text);
    }
}

#[test]
fn delay_adds_pacing_to_elapsed_time() {
    assert_eq!(PACING_MILLIS, 2000);
    assert_eq!(next_delay_millis(0), 2000);
    assert_eq!(next_delay_millis(1500), 3500);
    assert_eq!(next_delay_millis(u64::MAX - 5), u64::MAX);
}

#[test]
fn decimal_rendering() {
    for n in [0u64, 7, 10, 99, 100, 1234567890, u64::MAX] {
        let mut s = String::from("x=");
        push_decimal(&mut s, n);
        assert_eq!(s, format!("x={}", n));
    }
}
