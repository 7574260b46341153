// The engine's remaining behaviors on concrete values: weighted allocation,
// user plans, percentiles, the throttle, the controller grammar, the json
// snapshots, waits, and coordinated-omission accounting.

use swanling::attack::SwanlingAttack;
use swanling::codec::{decode_config, encode_config};
use swanling::config::SwanlingConfiguration;
use swanling::codec::{decode_error_entry, encode_error_entry};
use swanling::controller::{
    decode_websocket_request, display_help, get_match, SwanlingControllerCommand,
    SwanlingControllerRequestMessage, SwanlingControllerResponseMessage,
};
use swanling::lifecycle::{build_user_plan, user_spawn_interval_ms};
use swanling::metrics::{co_synthesized_times, percentile, SwanlingCoordinatedOmissionMitigation};
use swanling::scheduler::allocate_set_indexes;
use swanling::swanling::{SwanlingTask, SwanlingTaskSet, SwanlingUser};
use swanling::throttle::Throttle;
use swanling::user::{update_request_cadence, wait_time_ms};
use swanling::controller::{parse_hatch_rate, parse_timespan};
use swanling::lifecycle::handle_controller_request;
use swanling::metrics::SwanlingMetrics;
use swanling::metrics::{SwanlingErrorMetricAggregate, SwanlingMethod};
use swanling::util::timer_expired;
use swanling::AttackPhase;
use swanling::SwanlingDefaults;
use swanling::SwanlingScheduler;

#[test]
// Task set A with weight 5 and B with weight 3 allocate round robin as
// A,B,A,B,A,B,A,A; twenty users repeat the pattern.
fn round_robin_set_allocation_pattern() {
    let weights = vec![5, 3];
    let allocation = allocate_set_indexes(&weights, &SwanlingScheduler::RoundRobin);
    assert_eq!(allocation, vec![0, 1, 0, 1, 0, 1, 0, 0]);
    let plan = build_user_plan(&allocation, 20);
    assert_eq!(plan.len(), 20);
    assert_eq!(
        plan,
        vec![0, 1, 0, 1, 0, 1, 0, 0, 0, 1, 0, 1, 0, 1, 0, 0, 0, 1, 0, 1]
    );
}

#[test]
// The serial scheduler allocates in the order and weighting defined, and the
// random scheduler keeps the same multiset of allocations.
fn serial_and_random_set_allocation() {
    let weights = vec![5, 3];
    let serial = allocate_set_indexes(&weights, &SwanlingScheduler::Serial);
    assert_eq!(serial, vec![0, 0, 0, 0, 0, 1, 1, 1]);
    let random = allocate_set_indexes(&weights, &SwanlingScheduler::Random);
    assert_eq!(random.iter().filter(|i| **i == 0).count(), 5);
    assert_eq!(random.iter().filter(|i| **i == 1).count(), 3);
}

#[test]
// Weights are reduced by their greatest common divisor before allocation.
fn weights_reduced_by_gcd() {
    let weights = vec![10, 6];
    let allocation = allocate_set_indexes(&weights, &SwanlingScheduler::Serial);
    assert_eq!(allocation, vec![0, 0, 0, 0, 0, 1, 1, 1]);
}

#[test]
// A single user yields a plan of length one.
fn one_user_plan_has_length_one() {
    let allocation = allocate_set_indexes(&vec![5, 3], &SwanlingScheduler::RoundRobin);
    let plan = build_user_plan(&allocation, 1);
    assert_eq!(plan.len(), 1);
}

#[test]
// A run time of zero never expires: the test runs until canceled.
fn run_time_zero_never_expires() {
    assert!(!timer_expired(0, 0));
    assert!(!timer_expired(10_000_000, 0));
    assert!(timer_expired(2, 2));
    assert!(!timer_expired(1, 2));
}

#[test]
// A hatch rate of one spawns one user per second.
fn hatch_rate_one_user_per_second() {
    assert_eq!(user_spawn_interval_ms(1000), 1000);
    assert_eq!(user_spawn_interval_ms(2000), 500);
    assert_eq!(user_spawn_interval_ms(1250), 800);
}

#[test]
// With min and max wait both zero there is no sleep between tasks.
fn no_wait_between_tasks() {
    assert_eq!(wait_time_ms(0, 0), 0);
    let w = wait_time_ms(2, 5);
    assert!((2..=5).contains(&w));
    assert_eq!(wait_time_ms(4, 4), 4);
}

#[test]
// The percentile is the smallest bucket covering the cumulative share.
fn percentile_exact_values() {
    // Buckets: 10 ms x4, 20 ms x4, 50 ms x2.
    let hist = vec![(10, 4), (20, 4), (50, 2)];
    assert_eq!(percentile(&hist, 50, 100), 20);
    assert_eq!(percentile(&hist, 40, 100), 10);
    assert_eq!(percentile(&hist, 75, 100), 20);
    assert_eq!(percentile(&hist, 98, 100), 50);
    assert_eq!(percentile(&hist, 9999, 10000), 50);
    assert_eq!(percentile(&hist, 1, 100), 10);
}

#[test]
// The throttle lets at most its prefill plus its refills through: with a
// rate of ten, one hundred eager users get nine buffered tokens plus one
// per refill, never more.
fn throttle_bounds_request_rate() {
    let mut throttle = Throttle::new(10);
    assert_eq!(throttle.capacity, 10);
    assert_eq!(throttle.tokens, 9);
    let mut sent = 0;
    for _user in 0..100 {
        if throttle.acquire() {
            sent += 1;
        }
    }
    assert_eq!(sent, 9);
    for _tick in 0..10 {
        throttle.refill();
        if throttle.acquire() {
            sent += 1;
        }
    }
    assert_eq!(sent, 19);
    // Over one second: at most prefill + refills, well under the scenario's
    // bound of the rate plus one per other concurrent user.
    assert!(sent <= 10 + 99);
}

#[test]
// The line grammar recognizes commands case-insensitively and captures
// values.
fn controller_grammar() {
    assert_eq!(get_match("help").unwrap().command, SwanlingControllerCommand::Help);
    assert_eq!(get_match("?").unwrap().command, SwanlingControllerCommand::Help);
    assert_eq!(get_match("EXIT").unwrap().command, SwanlingControllerCommand::Exit);
    assert_eq!(get_match("quit").unwrap().command, SwanlingControllerCommand::Exit);
    assert_eq!(get_match("Start").unwrap().command, SwanlingControllerCommand::Start);
    assert_eq!(get_match("stop").unwrap().command, SwanlingControllerCommand::Stop);
    assert_eq!(get_match("shutdown").unwrap().command, SwanlingControllerCommand::Shutdown);
    assert_eq!(get_match("config").unwrap().command, SwanlingControllerCommand::Config);
    assert_eq!(get_match("config-json").unwrap().command, SwanlingControllerCommand::ConfigJson);
    assert_eq!(get_match("stats").unwrap().command, SwanlingControllerCommand::Metrics);
    assert_eq!(
        get_match("metrics-json").unwrap().command,
        SwanlingControllerCommand::MetricsJson
    );

    let host = get_match("host http://example.com/").unwrap();
    assert_eq!(host.command, SwanlingControllerCommand::Host);
    assert_eq!(host.value.unwrap(), "http://example.com/");
    // The scheme is required and the URL must parse.
    assert!(get_match("host example.com").is_err());
    assert!(get_match("host http://").is_err());

    let users = get_match("users 100").unwrap();
    assert_eq!(users.command, SwanlingControllerCommand::Users);
    assert_eq!(users.value.unwrap(), "100");
    assert!(get_match("users ten").is_err());

    let rate = get_match("hatchrate 1.25").unwrap();
    assert_eq!(rate.command, SwanlingControllerCommand::HatchRate);
    assert_eq!(rate.value.unwrap(), "1.25");

    let runtime = get_match("runtime 1h30m5s").unwrap();
    assert_eq!(runtime.command, SwanlingControllerCommand::RunTime);
    assert_eq!(runtime.value.unwrap(), "1h30m5s");
    assert_eq!(get_match("run 60").unwrap().command, SwanlingControllerCommand::RunTime);
    assert!(get_match("runtime 1x").is_err());
    assert!(get_match("launch").is_err());

    assert!(display_help().contains("hatchrate"));
}

#[test]
// A config snapshot encodes to json and decodes to the same value.
fn config_snapshot_round_trip() {
    let mut config = SwanlingConfiguration::empty();
    config.host = "http://example.com/".to_string();
    config.users = Some(10);
    config.hatch_rate = Some("2".to_string());
    config.run_time = "1h30m".to_string();
    config.no_autostart = true;
    config.throttle_requests = 25;
    config.telnet_port = 5116;
    config.co_mitigation = Some(SwanlingCoordinatedOmissionMitigation::Average);
    let encoded = encode_config(&config);
    let text: String = encoded.iter().collect();
    assert!(text.starts_with("{\"help\":false"));
    let decoded = decode_config(&encoded).unwrap();
    assert_eq!(decoded, config);
}

#[test]
// A websocket request envelope decodes to its command text, whitespace
// tolerated.
fn websocket_envelope_decodes() {
    let text: Vec<char> = "{\"request\": \"config\"}".chars().collect();
    let envelope = decode_websocket_request(&text).unwrap();
    assert_eq!(envelope.request, "config");
    let bad: Vec<char> = "{\"other\": 1}".chars().collect();
    assert!(decode_websocket_request(&bad).is_none());
}

#[test]
// Synthesized mitigation samples cover every extra cadence the gap held.
fn coordinated_omission_synthesis() {
    let times = co_synthesized_times(50, 10);
    assert_eq!(times, vec![40, 30, 20, 10]);
    assert_eq!(co_synthesized_times(9, 10), Vec::<u64>::new());
    assert_eq!(co_synthesized_times(10, 10), Vec::<u64>::new());
}

#[test]
// The cadence seeds on the first pass and a pass beyond twice the expected
// cadence arms the omitted-period marker.
fn cadence_accounting() {
    let config = SwanlingConfiguration::empty();
    let mut user =
        SwanlingUser::new(0, "http://localhost/".to_string(), 0, 0, &config, 0).unwrap();
    update_request_cadence(&mut user, 100, SwanlingCoordinatedOmissionMitigation::Average);
    assert_eq!(user.request_cadence_ms, 100);
    assert!(!user.omitted_period_armed);
    update_request_cadence(&mut user, 300, SwanlingCoordinatedOmissionMitigation::Average);
    assert_eq!(user.request_cadence_ms, 200);
    assert!(user.omitted_period_armed);
}

#[test]
// Setup is rejected before the state machine starts: no task sets, or
// autostart disabled with both controllers off, or zero users.
fn execute_rejects_bad_setup() {
    let config = SwanlingConfiguration::empty();
    let empty = SwanlingAttack::initialize_with_config(config).unwrap();
    assert!(empty.execute().is_err());

    let mut config = SwanlingConfiguration::empty();
    config.no_autostart = true;
    config.no_telnet = true;
    config.no_websocket = true;
    let unreachable_controllers = SwanlingAttack::initialize_with_config(config)
        .unwrap()
        .register_taskset(SwanlingTaskSet::new("T").register_task(SwanlingTask::new("t")));
    assert!(unreachable_controllers.execute().is_err());

    let mut config = SwanlingConfiguration::empty();
    config.users = Some(0);
    let zero_users = SwanlingAttack::initialize_with_config(config)
        .unwrap()
        .register_taskset(SwanlingTaskSet::new("T").register_task(SwanlingTask::new("t")));
    assert!(zero_users.execute().is_err());

    let mut config = SwanlingConfiguration::empty();
    config.users = Some(20);
    config.host = "http://example.com/".to_string();
    let ok = SwanlingAttack::initialize_with_config(config)
        .unwrap()
        .register_taskset(
            SwanlingTaskSet::new("A")
                .set_weight(5)
                .unwrap()
                .register_task(SwanlingTask::new("ta")),
        )
        .register_taskset(
            SwanlingTaskSet::new("B")
                .set_weight(3)
                .unwrap()
                .register_task(SwanlingTask::new("tb")),
        )
        .execute()
        .unwrap();
    assert_eq!(ok.weighted_users.len(), 20);
    // The first eight users alternate A,B,A,B,A,B,A,A.
    let sets: Vec<usize> = ok.weighted_users.iter().take(8).map(|u| u.task_sets_index).collect();
    assert_eq!(sets, vec![0, 1, 0, 1, 0, 1, 0, 0]);
}

#[test]
// Duration strings evaluate to seconds; unrecognized ones to zero.
fn duration_strings_evaluate() {
    let secs = |t: &str| parse_timespan(&t.chars().collect());
    assert_eq!(secs("60"), 60);
    assert_eq!(secs("1h30m5s"), 3600 + 30 * 60 + 5);
    assert_eq!(secs("2h"), 7200);
    assert_eq!(secs("45m"), 2700);
    assert_eq!(secs("10s"), 10);
    assert_eq!(secs("bogus"), 0);
}

#[test]
// Hatch-rate strings evaluate to thousandths of users per second.
fn hatch_rate_strings_evaluate() {
    let rate = |t: &str| parse_hatch_rate(&t.chars().collect());
    assert_eq!(rate("1"), Some(1000));
    assert_eq!(rate("1.25"), Some(1250));
    assert_eq!(rate("0.5"), Some(500));
    assert_eq!(rate("0"), None);
    assert_eq!(rate("x"), None);
}

#[test]
// The controller-stop flow: a running test stops to idle with autostart
// pinned off, and a stopped test refuses another stop.
fn controller_stop_flow() {
    let metrics = SwanlingMetrics::new();
    let config = SwanlingConfiguration::empty();
    let stop = SwanlingControllerRequestMessage {
        command: SwanlingControllerCommand::Stop,
        value: None,
    };
    let (phase, config, shutdown, reply) =
        handle_controller_request(AttackPhase::Running, config, true, &metrics, false, &stop);
    assert_eq!(phase, AttackPhase::Stopping);
    assert!(!shutdown);
    assert!(config.no_autostart);
    assert!(matches!(reply, SwanlingControllerResponseMessage::Bool(true)));
    let (phase, _config, _shutdown, reply) =
        handle_controller_request(AttackPhase::Idle, config, false, &metrics, false, &stop);
    assert_eq!(phase, AttackPhase::Idle);
    assert!(matches!(reply, SwanlingControllerResponseMessage::Bool(false)));
}

#[test]
// An aggregated error entry encodes to json and decodes to the same value.
fn error_entry_round_trip() {
    let entry = SwanlingErrorMetricAggregate {
        method: SwanlingMethod::Get,
        name: "/404".to_string(),
        error: "404 Not Found".to_string(),
        occurrences: 4,
    };
    let encoded = encode_error_entry(&entry);
    let decoded = decode_error_entry(&encoded).unwrap();
    assert_eq!(decoded, entry);
}

#[test]
// Defaults stand in only for unset options.
fn defaults_merge_into_configuration() {
    let mut d = SwanlingDefaults::none();
    d.host = Some("http://fallback/".to_string());
    d.users = Some(7);
    d.no_autostart = Some(true);
    let mut c = SwanlingConfiguration::empty();
    c.users = Some(3);
    let merged = c.apply_defaults(&d);
    assert_eq!(merged.host, "http://fallback/");
    assert_eq!(merged.users, Some(3));
    assert!(merged.no_autostart);
}
