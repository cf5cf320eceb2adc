use account_store::supervisor::{
    create_google_api_client, create_http_client, get_google_api_client, get_http_client,
    rebuild_http_client, rebuild_is_due, report_request_failure, report_request_success,
    report_timeout_error, update_proxy_config, ClientSupervisor, FAILURE_THRESHOLD,
};

#[test]
fn general_client_follows_its_policy() {
    let policy = create_http_client();
    assert_eq!(policy.timeout_secs, 30);
    assert_eq!(policy.connect_timeout_secs, 10);
    assert_eq!(policy.pool_max_idle_per_host, 2);
    assert_eq!(policy.pool_idle_timeout_secs, 30);
    assert_eq!(policy.tcp_keepalive_secs, 15);
    assert_eq!(policy.redirect_limit, 5);
    assert!(policy.http1_only);
    assert_eq!(policy.proxy, None);
}

#[test]
fn proxy_client_takes_an_address_that_is_accepted() {
    let policy = create_google_api_client(Some("http://127.0.0.1:7890"));
    assert_eq!(policy.proxy, Some("http://127.0.0.1:7890".to_string()));
    assert_eq!(policy.connect_timeout_secs, 15);
    assert_eq!(policy.timeout_secs, 30);
    assert!(policy.http1_only);
    assert_eq!(create_google_api_client(Some("")).proxy, None);
    assert_eq!(create_google_api_client(Some("http://[broken")).proxy, None);
    assert_eq!(create_google_api_client(None).proxy, None);
}

#[test]
fn threshold_of_failures_rebuilds_the_client() {
    let mut supervisor = ClientSupervisor::new();
    let before = get_http_client(&mut supervisor, true);
    assert_eq!(FAILURE_THRESHOLD, 3);
    assert!(!report_request_failure(&mut supervisor));
    assert!(!report_request_failure(&mut supervisor));
    assert_eq!(get_http_client(&mut supervisor, true), before);
    assert!(report_request_failure(&mut supervisor));
    assert_eq!(supervisor.failures, 0);
    let after = get_http_client(&mut supervisor, true);
    assert_ne!(after, before);
    assert_eq!(after, before + 1);
}

#[test]
fn success_resets_the_count() {
    let mut supervisor = ClientSupervisor::new();
    let before = get_http_client(&mut supervisor, true);
    report_request_failure(&mut supervisor);
    report_request_failure(&mut supervisor);
    report_request_success(&mut supervisor);
    assert_eq!(supervisor.failures, 0);
    assert!(!report_request_failure(&mut supervisor));
    assert!(!report_request_failure(&mut supervisor));
    assert_eq!(get_http_client(&mut supervisor, true), before);
    assert_eq!(supervisor.failures, 2);
}

#[test]
fn timeout_rebuilds_whatever_the_count() {
    let mut supervisor = ClientSupervisor::new();
    report_request_failure(&mut supervisor);
    report_timeout_error(&mut supervisor);
    assert_eq!(supervisor.generation, 1);
    assert_eq!(supervisor.failures, 0);
    rebuild_http_client(&mut supervisor);
    assert_eq!(supervisor.generation, 2);
}

#[test]
fn stale_count_is_healed_by_an_exclusive_caller_only() {
    let mut supervisor = ClientSupervisor::new();
    supervisor.failures = 5;
    assert_eq!(get_http_client(&mut supervisor, false), 0);
    assert_eq!(supervisor.failures, 5);
    assert_eq!(get_http_client(&mut supervisor, true), 1);
    assert_eq!(supervisor.failures, 0);
    assert_eq!(get_http_client(&mut supervisor, true), 1);
}

#[test]
fn generation_goes_round_at_its_end() {
    let mut supervisor = ClientSupervisor::new();
    supervisor.generation = u64::MAX;
    rebuild_http_client(&mut supervisor);
    assert_eq!(supervisor.generation, 0);
}

#[test]
fn proxy_configuration_rebuilds_the_proxy_client() {
    let mut supervisor = ClientSupervisor::new();
    let (generation, policy) = get_google_api_client(&supervisor);
    assert_eq!(generation, 0);
    assert_eq!(policy.proxy, None);
    let policy = update_proxy_config(&mut supervisor, true, Some("http://127.0.0.1:7890".to_string()));
    assert_eq!(policy.proxy, Some("http://127.0.0.1:7890".to_string()));
    let (generation, policy) = get_google_api_client(&supervisor);
    assert_eq!(generation, 1);
    assert_eq!(policy.proxy, Some("http://127.0.0.1:7890".to_string()));
    let policy = update_proxy_config(&mut supervisor, false, Some("http://127.0.0.1:7890".to_string()));
    assert_eq!(policy.proxy, None);
    assert_eq!(supervisor.proxy_generation, 2);
    assert_eq!(supervisor.proxy.url, Some("http://127.0.0.1:7890".to_string()));
    assert!(!supervisor.proxy.enabled);
    let policy = update_proxy_config(&mut supervisor, true, None);
    assert_eq!(policy.proxy, None);
    let policy = update_proxy_config(&mut supervisor, true, Some("http://[broken".to_string()));
    assert_eq!(policy.proxy, None);
    assert_eq!(supervisor.generation, 0);
}

#[test]
fn rebuild_is_due_from_the_threshold_on() {
    let mut supervisor = ClientSupervisor::new();
    assert!(!rebuild_is_due(&supervisor));
    supervisor.failures = 2;
    assert!(!rebuild_is_due(&supervisor));
    supervisor.failures = 3;
    assert!(rebuild_is_due(&supervisor));
    supervisor.failures = u32::MAX;
    assert!(rebuild_is_due(&supervisor));
    get_http_client(&mut supervisor, true);
    assert!(!rebuild_is_due(&supervisor));
}
