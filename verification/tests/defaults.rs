// The programmatic defaults, registered through the typed setters and read
// back from the attack's defaults record.

use swanling::attack::SwanlingAttack;
use swanling::config::SwanlingConfiguration;
use swanling::logger::SwanlingLogFormat;
use swanling::metrics::SwanlingCoordinatedOmissionMitigation;
use swanling::SwanlingDefault;

#[test]
fn set_defaults() {
    let host = "http://example.com/".to_string();
    let users: usize = 10;
    let run_time: usize = 10;
    let hatch_rate = "2".to_string();
    let log_level: usize = 1;
    let swanling_log = "custom-swanling.log".to_string();
    let verbose: usize = 0;
    let report_file = "custom-swanling-report.html".to_string();
    let request_log = "custom-swanling-request.log".to_string();
    let task_log = "custom-swanling-task.log".to_string();
    let debug_log = "custom-swanling-debug.log".to_string();
    let error_log = "custom-swanling-error.log".to_string();
    let throttle_requests: usize = 25;
    let expect_workers: usize = 5;
    let manager_bind_host = "127.0.0.1".to_string();
    let manager_bind_port: usize = 1221;
    let manager_host = "127.0.0.1".to_string();
    let manager_port: usize = 1221;

    let swanling_attack = SwanlingAttack::initialize_with_config(SwanlingConfiguration::empty())
        .unwrap()
        .set_default_str(SwanlingDefault::Host, host.as_str())
        .unwrap()
        .set_default_usize(SwanlingDefault::Users, users)
        .unwrap()
        .set_default_usize(SwanlingDefault::RunTime, run_time)
        .unwrap()
        .set_default_str(SwanlingDefault::HatchRate, hatch_rate.as_str())
        .unwrap()
        .set_default_usize(SwanlingDefault::LogLevel, log_level)
        .unwrap()
        .set_default_str(SwanlingDefault::SwanlingLog, swanling_log.as_str())
        .unwrap()
        .set_default_usize(SwanlingDefault::Verbose, verbose)
        .unwrap()
        .set_default_usize(SwanlingDefault::RunningMetrics, 15)
        .unwrap()
        .set_default_bool(SwanlingDefault::NoResetMetrics, true)
        .unwrap()
        .set_default_bool(SwanlingDefault::NoMetrics, true)
        .unwrap()
        .set_default_bool(SwanlingDefault::NoTaskMetrics, true)
        .unwrap()
        .set_default_bool(SwanlingDefault::NoErrorSummary, true)
        .unwrap()
        .set_default_bool(SwanlingDefault::NoTelnet, true)
        .unwrap()
        .set_default_bool(SwanlingDefault::NoWebSocket, true)
        .unwrap()
        .set_default_bool(SwanlingDefault::NoAutoStart, true)
        .unwrap()
        .set_default_str(SwanlingDefault::ReportFile, report_file.as_str())
        .unwrap()
        .set_default_str(SwanlingDefault::RequestLog, request_log.as_str())
        .unwrap()
        .set_default_log_format(SwanlingDefault::RequestFormat, SwanlingLogFormat::Raw)
        .unwrap()
        .set_default_str(SwanlingDefault::TaskLog, task_log.as_str())
        .unwrap()
        .set_default_log_format(SwanlingDefault::TaskFormat, SwanlingLogFormat::Raw)
        .unwrap()
        .set_default_str(SwanlingDefault::ErrorLog, error_log.as_str())
        .unwrap()
        .set_default_log_format(SwanlingDefault::ErrorFormat, SwanlingLogFormat::Csv)
        .unwrap()
        .set_default_str(SwanlingDefault::DebugLog, debug_log.as_str())
        .unwrap()
        .set_default_log_format(SwanlingDefault::DebugFormat, SwanlingLogFormat::Csv)
        .unwrap()
        .set_default_bool(SwanlingDefault::NoDebugBody, true)
        .unwrap()
        .set_default_bool(SwanlingDefault::StatusCodes, true)
        .unwrap()
        .set_default_co_mitigation(
            SwanlingDefault::CoordinatedOmissionMitigation,
            SwanlingCoordinatedOmissionMitigation::Disabled,
        )
        .unwrap()
        .set_default_usize(SwanlingDefault::ThrottleRequests, throttle_requests)
        .unwrap()
        .set_default_bool(SwanlingDefault::StickyFollow, true)
        .unwrap()
        .set_default_bool(SwanlingDefault::Manager, true)
        .unwrap()
        .set_default_usize(SwanlingDefault::ExpectWorkers, expect_workers)
        .unwrap()
        .set_default_bool(SwanlingDefault::NoHashCheck, true)
        .unwrap()
        .set_default_str(SwanlingDefault::ManagerBindHost, manager_bind_host.as_str())
        .unwrap()
        .set_default_usize(SwanlingDefault::ManagerBindPort, manager_bind_port)
        .unwrap()
        .set_default_bool(SwanlingDefault::Worker, true)
        .unwrap()
        .set_default_str(SwanlingDefault::ManagerHost, manager_host.as_str())
        .unwrap()
        .set_default_usize(SwanlingDefault::ManagerPort, manager_port)
        .unwrap();

    assert!(swanling_attack.defaults.host == Some(host));
    assert!(swanling_attack.defaults.users == Some(users));
    assert!(swanling_attack.defaults.run_time == Some(run_time));
    assert!(swanling_attack.defaults.hatch_rate == Some(hatch_rate));
    assert!(swanling_attack.defaults.log_level == Some(log_level as u8));
    assert!(swanling_attack.defaults.swanling_log == Some(swanling_log));
    assert!(swanling_attack.defaults.no_debug_body == Some(true));
    assert!(swanling_attack.defaults.verbose == Some(verbose as u8));
    assert!(swanling_attack.defaults.running_metrics == Some(15));
    assert!(swanling_attack.defaults.no_reset_metrics == Some(true));
    assert!(swanling_attack.defaults.no_metrics == Some(true));
    assert!(swanling_attack.defaults.no_task_metrics == Some(true));
    assert!(swanling_attack.defaults.no_error_summary == Some(true));
    assert!(swanling_attack.defaults.no_telnet == Some(true));
    assert!(swanling_attack.defaults.no_websocket == Some(true));
    assert!(swanling_attack.defaults.no_autostart == Some(true));
    assert!(swanling_attack.defaults.report_file == Some(report_file));
    assert!(swanling_attack.defaults.request_log == Some(request_log));
    assert!(swanling_attack.defaults.request_format == Some(SwanlingLogFormat::Raw));
    assert!(swanling_attack.defaults.error_log == Some(error_log));
    assert!(swanling_attack.defaults.error_format == Some(SwanlingLogFormat::Csv));
    assert!(swanling_attack.defaults.debug_log == Some(debug_log));
    assert!(swanling_attack.defaults.debug_format == Some(SwanlingLogFormat::Csv));
    assert!(swanling_attack.defaults.status_codes == Some(true));
    assert!(
        swanling_attack.defaults.co_mitigation
            == Some(SwanlingCoordinatedOmissionMitigation::Disabled)
    );
    assert!(swanling_attack.defaults.throttle_requests == Some(throttle_requests));
    assert!(swanling_attack.defaults.sticky_follow == Some(true));
    assert!(swanling_attack.defaults.manager == Some(true));
    assert!(swanling_attack.defaults.expect_workers == Some(expect_workers as u16));
    assert!(swanling_attack.defaults.no_hash_check == Some(true));
    assert!(swanling_attack.defaults.manager_bind_host == Some(manager_bind_host));
    assert!(swanling_attack.defaults.manager_bind_port == Some(manager_bind_port as u16));
    assert!(swanling_attack.defaults.worker == Some(true));
    assert!(swanling_attack.defaults.manager_host == Some(manager_host));
    assert!(swanling_attack.defaults.manager_port == Some(manager_port as u16));
}

#[test]
// A key of another value type is rejected with a typed error.
fn set_default_rejects_wrong_type() {
    let attack = SwanlingAttack::initialize_with_config(SwanlingConfiguration::empty()).unwrap();
    assert!(attack.set_default_str(SwanlingDefault::Users, "10").is_err());
    let attack = SwanlingAttack::initialize_with_config(SwanlingConfiguration::empty()).unwrap();
    assert!(attack.set_default_bool(SwanlingDefault::Host, true).is_err());
}
