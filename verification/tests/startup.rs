use mcp_cache_ci::startup::{
    bind_address, choose_port, log_output, plan_startup, LogOutput, LogStream, ProxySettings,
    Revalidation, DEFAULT_LOG_FILTER, POOL_IDLE_SECONDS,
};

fn settings() -> ProxySettings {
    ProxySettings {
        bind_host: "127.0.0.1".to_string(),
        bind_port: 8011,
        allowed_hosts: None,
        backend_url: "http://backend:8008/mcp".to_string(),
        lazy_revalidation_enabled: true,
        revalidation_max_wait_ms: 2000,
        revalidation_retry_interval_ms: 50,
    }
}

#[test]
fn plan_follows_the_settings() {
    let plan = plan_startup(settings(), None);
    assert_eq!(plan.bind, "127.0.0.1:8011");
    assert_eq!(plan.backend_base, "http://backend:8008");
    assert_eq!(
        plan.revalidation,
        Revalidation { enabled: true, max_wait_ms: 2000, retry_interval_ms: 50 }
    );
    assert!(!plan.mcp.stateful_mode);
    assert!(plan.mcp.json_response);
    assert_eq!(plan.mcp.allowed_hosts, None);
}

#[test]
fn port_from_the_command_line_wins() {
    assert_eq!(plan_startup(settings(), Some(9)).bind, "127.0.0.1:9");
    assert_eq!(choose_port(80, Some(0)), 0);
    assert_eq!(choose_port(80, None), 80);
}

#[test]
fn retry_interval_is_at_least_a_millisecond() {
    for (configured, expected) in [(0, 1), (1, 1), (2, 2), (u64::MAX, u64::MAX)] {
        let changed = ProxySettings { revalidation_retry_interval_ms: configured, ..settings() };
        assert_eq!(plan_startup(changed, None).revalidation.retry_interval_ms, expected);
    }
}

#[test]
fn configured_hosts_replace_the_usual_ones() {
    let hosts = vec!["a".to_string(), "b:80".to_string()];
    let changed = ProxySettings { allowed_hosts: Some(hosts.clone()), ..settings() };
    assert_eq!(plan_startup(changed, None).mcp.allowed_hosts, Some(hosts));
}

#[test]
fn bind_address_is_host_and_port() {
    assert_eq!(bind_address("0.0.0.0", 0), "0.0.0.0:0");
    assert_eq!(bind_address("[::1]", 65535), "[::1]:65535");
    assert_ne!(bind_address("h", 80), bind_address("h", 8080));
}

#[test]
fn log_goes_to_the_terminal_or_to_standard_output() {
    assert_eq!(log_output(true), LogOutput { stream: LogStream::Stderr, ansi: true });
    assert_eq!(log_output(false), LogOutput { stream: LogStream::Stdout, ansi: false });
    assert_eq!(DEFAULT_LOG_FILTER, "info");
    assert_eq!(POOL_IDLE_SECONDS, 60);
}
