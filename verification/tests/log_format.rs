use fiducia_telemetry::env::EnvVars;
use fiducia_telemetry::log_format::LogFormat;

fn env_of(pairs: &[(&str, &str)]) -> EnvVars {
    EnvVars::from_pairs(
        pairs
            .iter()
            .map(|(k, v)| (k.to_string(), v.to_string()))
            .collect(),
    )
}

#[test]
fn log_format_accepts_human_text_aliases() {
    assert_eq!(LogFormat::from_value("text"), LogFormat::Text);
    assert_eq!(LogFormat::from_value(" plain "), LogFormat::Text);
    assert_eq!(LogFormat::from_value("PRETTY"), LogFormat::Text);
    assert_eq!(LogFormat::from_value("compact"), LogFormat::Text);
}

#[test]
fn log_format_defaults_unknown_values_to_json() {
    assert_eq!(LogFormat::from_value(""), LogFormat::Json);
    assert_eq!(LogFormat::from_value("json"), LogFormat::Json);
    assert_eq!(LogFormat::from_value("yaml"), LogFormat::Json);
}

#[test]
fn log_format_env_precedence_is_fiducia_then_otel_then_legacy() {
    let from = |env: &[(&str, &str)]| LogFormat::from_env_with(&env_of(env));

    assert_eq!(
        from(&[
            ("FIDUCIA_LOG_FORMAT", "text"),
            ("OTEL_LOG_FORMAT", "json"),
            ("LOG_FORMAT", "json"),
        ]),
        LogFormat::Text,
        "the fleet-specific variable must win over both fallbacks"
    );
    assert_eq!(
        from(&[("OTEL_LOG_FORMAT", "text"), ("LOG_FORMAT", "json")]),
        LogFormat::Text,
        "OTEL_LOG_FORMAT must win over the legacy variable"
    );
    assert_eq!(
        from(&[("LOG_FORMAT", "text")]),
        LogFormat::Text,
        "the legacy variable still applies when nothing else is set"
    );
    assert_eq!(
        from(&[]),
        LogFormat::Json,
        "no variable set falls back to the JSON fleet default"
    );
}

#[test]
fn log_format_higher_precedence_variable_decides_even_when_it_selects_json() {
    let env = env_of(&[("FIDUCIA_LOG_FORMAT", "json"), ("OTEL_LOG_FORMAT", "text")]);
    assert_eq!(LogFormat::from_env_with(&env), LogFormat::Json);
    // An empty but set variable still counts and selects JSON.
    let env = env_of(&[("FIDUCIA_LOG_FORMAT", ""), ("LOG_FORMAT", "text")]);
    assert_eq!(LogFormat::from_env_with(&env), LogFormat::Json);
}

#[test]
fn log_format_trims_unicode_whitespace_and_folds_ascii_case_only() {
    assert_eq!(LogFormat::from_value("\u{3000}Compact\t\n"), LogFormat::Text);
    assert_eq!(LogFormat::from_value("TeXt"), LogFormat::Text);
    // Only ASCII letters fold: the Kelvin sign is not a `k`.
    assert_eq!(LogFormat::from_value("\u{212A}"), LogFormat::Json);
    assert_eq!(LogFormat::from_value("text json"), LogFormat::Json);
    assert_eq!(LogFormat::from_value("texts"), LogFormat::Json);
}

#[test]
fn log_format_name_reads_back_as_the_same_format() {
    assert_eq!(LogFormat::Json.as_str(), "json");
    assert_eq!(LogFormat::Text.as_str(), "text");
    for f in [LogFormat::Json, LogFormat::Text] {
        assert_eq!(LogFormat::from_value(f.as_str()), f);
    }
}

#[test]
fn env_lookup_takes_the_last_assignment() {
    let mut env = env_of(&[("A", "1"), ("B", "2")]);
    assert_eq!(env.get("A").as_deref(), Some("1"));
    assert_eq!(env.get("C"), None);
    env.set("A".to_string(), "3".to_string());
    assert_eq!(env.get("A").as_deref(), Some("3"));
    assert_eq!(EnvVars::new().get("A"), None);
}

#[test]
fn a_set_format_variable_decides_even_when_not_unicode() {
    let mut env = env_of(&[("OTEL_LOG_FORMAT", "text"), ("LOG_FORMAT", "text")]);
    env.set_non_unicode("FIDUCIA_LOG_FORMAT".to_string());
    assert_eq!(LogFormat::from_env_with(&env), LogFormat::Json);

    let mut env = env_of(&[("LOG_FORMAT", "text")]);
    env.set_non_unicode("OTEL_LOG_FORMAT".to_string());
    assert_eq!(LogFormat::from_env_with(&env), LogFormat::Json);

    // Unset, the non-Unicode-capable fallbacks still apply in order.
    let env = EnvVars::from_entries(vec![
        ("OTEL_LOG_FORMAT".to_string(), Some("plain".to_string())),
        ("LOG_FORMAT".to_string(), None),
    ]);
    assert_eq!(LogFormat::from_env_with(&env), LogFormat::Text);
}

#[test]
fn env_entries_distinguish_unset_from_non_unicode() {
    let mut env = EnvVars::new();
    env.set_non_unicode("X".to_string());
    assert!(env.is_set("X"));
    assert_eq!(env.get("X"), None);
    assert_eq!(env.get_entry("X"), Some(None));
    assert!(!env.is_set("Y"));
    assert_eq!(env.get_entry("Y"), None);
    env.set("X".to_string(), "v".to_string());
    assert_eq!(env.get_entry("X"), Some(Some("v".to_string())));
}
