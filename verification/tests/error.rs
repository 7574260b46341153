// The error summary, exercised at the aggregation level: failed requests
// feed the summary when it is enabled and leave it empty when it is not.

use swanling::metrics::{SwanlingMetrics, SwanlingMethod, SwanlingRequestMetric};

const USERS: usize = 2;

fn raw(name: &str, status: u16, success: bool, error: &str) -> SwanlingRequestMetric {
    SwanlingRequestMetric {
        elapsed: 5,
        method: SwanlingMethod::Get,
        name: name.to_string(),
        final_url: String::new(),
        redirected: false,
        response_time: 7,
        status_code: status,
        success,
        update: false,
        user: 0,
        error: error.to_string(),
        response_size: 0,
        user_cadence: 0,
        coordinated_omission_elapsed: 0,
    }
}

fn run_aggregation(error_summary_enabled: bool) -> SwanlingMetrics {
    let mut metrics = SwanlingMetrics::new();
    metrics.users = USERS;
    for _user in 0..USERS {
        for _hit in 0..3 {
            metrics.record_request(&raw("/", 200, true, ""), false, error_summary_enabled, false);
        }
        for _hit in 0..2 {
            metrics.record_request(
                &raw("/404", 404, false, "404 Not Found"),
                false,
                error_summary_enabled,
                false,
            );
        }
    }
    metrics
}

#[test]
// Confirm that errors show up in the summary when enabled.
fn test_error_summary() {
    let metrics = run_aggregation(true);
    let index = metrics.request_metric("GET /").unwrap();
    assert_eq!(index.raw_data.counter, (USERS * 3) as u64);
    assert_eq!(index.success_count, (USERS * 3) as u64);
    assert_eq!(index.fail_count, 0);
    assert_eq!(index.method, SwanlingMethod::Get);
    assert_eq!(index.path, "/");
    let missing = metrics.request_metric("GET /404").unwrap();
    assert_eq!(missing.raw_data.counter, (USERS * 2) as u64);
    assert_eq!(missing.fail_count, (USERS * 2) as u64);
    assert_eq!(missing.success_count, 0);
    // The 404 path was captured as exactly one error entry, counted once per
    // failed request.
    assert_eq!(metrics.errors.len(), 1);
    let entry = metrics.error_metric("GET /404: 404 Not Found").unwrap();
    assert_eq!(entry.method, SwanlingMethod::Get);
    assert_eq!(entry.name, "/404");
    assert_eq!(entry.occurrences, missing.fail_count);
    assert_eq!(metrics.users, USERS);
}

#[test]
// Confirm that errors do not show up in the summary when it is disabled.
fn test_no_error_summary() {
    let metrics = run_aggregation(false);
    let missing = metrics.request_metric("GET /404").unwrap();
    assert_eq!(missing.fail_count, (USERS * 2) as u64);
    assert_eq!(missing.success_count, 0);
    assert!(metrics.errors.is_empty());
    assert_eq!(metrics.users, USERS);
}

#[test]
// The counter always equals successes plus failures.
fn counter_is_success_plus_fail() {
    let metrics = run_aggregation(true);
    for (_key, agg) in metrics.requests.iter() {
        assert_eq!(agg.raw_data.counter, agg.success_count + agg.fail_count);
    }
}

#[test]
// Status codes are tracked per code when enabled.
fn status_codes_tracked() {
    let mut metrics = SwanlingMetrics::new();
    metrics.record_request(&raw("/", 200, true, ""), true, true, false);
    metrics.record_request(&raw("/", 503, false, "503 Service Unavailable"), true, true, false);
    let agg = metrics.request_metric("GET /").unwrap();
    assert_eq!(agg.status_code_counts.len(), 2);
}
