use hub_proxy::config::{
    bind_address, is_admissible_duration_text, timeout_from, Config, EnvVars, Timeout,
};

fn unset() -> EnvVars {
    EnvVars {
        listen: None,
        size_limit: None,
        buffer_size: None,
        upstream_timeout: None,
        shutdown_timeout: None,
    }
}

fn v(s: &str) -> Option<String> {
    Some(s.to_string())
}

#[test]
fn defaults_when_env_unset() {
    let cfg = Config::from_env(&unset());
    assert_eq!(cfg.listen, ":8080");
    assert_eq!(cfg.size_limit, 1_072_668_082_176);
    assert_eq!(cfg.buffer_size, 32 * 1024);
    assert_eq!(cfg.upstream_timeout, Timeout::from_secs(30));
    assert_eq!(cfg.shutdown_timeout, Timeout::from_secs(10));
}

#[test]
fn overrides_from_env() {
    let mut env = unset();
    env.listen = v(":9000");
    env.size_limit = v("1000");
    env.upstream_timeout = v("5s");

    let cfg = Config::from_env(&env);
    assert_eq!(cfg.listen, ":9000");
    assert_eq!(cfg.size_limit, 1000);
    assert_eq!(cfg.upstream_timeout, Timeout::from_secs(5));
    // Unset values keep defaults.
    assert_eq!(cfg.buffer_size, 32 * 1024);
    assert_eq!(cfg.shutdown_timeout, Timeout::from_secs(10));
}

#[test]
fn invalid_duration_falls_back() {
    let mut env = unset();
    env.upstream_timeout = v("garbage");
    let cfg = Config::from_env(&env);
    assert_eq!(cfg.upstream_timeout, Timeout::from_secs(30));
}

#[test]
fn invalid_u64_falls_back() {
    let mut env = unset();
    env.size_limit = v("-1");
    let cfg = Config::from_env(&env);
    assert_eq!(cfg.size_limit, 1_072_668_082_176);
}

#[test]
fn empty_string_falls_back() {
    let mut env = unset();
    env.listen = v("");
    let cfg = Config::from_env(&env);
    assert_eq!(cfg.listen, ":8080");
}

#[test]
fn numeric_settings_follow_u64_parsing() {
    let mut env = unset();
    env.size_limit = v("+42");
    env.buffer_size = v("18446744073709551616");
    let cfg = Config::from_env(&env);
    assert_eq!(cfg.size_limit, 42);
    assert_eq!(cfg.buffer_size, 32 * 1024);

    env.size_limit = v("18446744073709551615");
    env.buffer_size = v("4096");
    let cfg = Config::from_env(&env);
    assert_eq!(cfg.size_limit, u64::MAX);
    assert_eq!(cfg.buffer_size, 4096);

    env.size_limit = v("12a");
    env.buffer_size = v("+");
    let cfg = Config::from_env(&env);
    assert_eq!(cfg.size_limit, 1_072_668_082_176);
    assert_eq!(cfg.buffer_size, 32 * 1024);
}

#[test]
fn durations_keep_subsecond_parts() {
    let mut env = unset();
    env.upstream_timeout = v("1m 30s");
    env.shutdown_timeout = v("250ms");
    let cfg = Config::from_env(&env);
    assert_eq!(cfg.upstream_timeout, Timeout::from_secs(90));
    assert_eq!(cfg.shutdown_timeout, Timeout { secs: 0, nanos: 250_000_000 });
}

#[test]
fn timeout_from_parsed_value() {
    let d = Timeout::from_secs(7);
    assert_eq!(timeout_from(Some((3, 5)), d), Timeout { secs: 3, nanos: 5 });
    assert_eq!(timeout_from(None, d), d);
}

#[test]
fn bind_address_cases() {
    assert_eq!(bind_address(":8080"), "0.0.0.0:8080");
    assert_eq!(bind_address("127.0.0.1:9000"), "127.0.0.1:9000");
    assert_eq!(bind_address(""), "");
}

#[test]
fn duration_texts_humantime_could_panic_on_are_refused() {
    assert!(!is_admissible_duration_text("18446744073709551615s 1000000000ns"));
    assert!(!is_admissible_duration_text("584542046091y"));
    assert!(is_admissible_duration_text("123456789012ns"));
    assert!(is_admissible_duration_text("000000000005s"));
    assert!(is_admissible_duration_text("1h 30min 20s"));
    assert!(is_admissible_duration_text("4.2s"));
    assert!(is_admissible_duration_text(""));
    let mut env = unset();
    env.upstream_timeout = v("99999999999y");
    env.shutdown_timeout = v("123456789012ns");
    let cfg = Config::from_env(&env);
    assert_eq!(cfg.upstream_timeout, Timeout::from_secs(99_999_999_999 * 31_557_600));
    assert_eq!(cfg.shutdown_timeout, Timeout { secs: 123, nanos: 456_789_012 });
    env.upstream_timeout = v("000000000005s");
    let cfg = Config::from_env(&env);
    assert_eq!(cfg.upstream_timeout, Timeout::from_secs(5));
}
