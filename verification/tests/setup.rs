use fiducia_telemetry::env::EnvVars;
use fiducia_telemetry::log_format::LogFormat;
use fiducia_telemetry::setup::{
    filter_directive_of_env, init_outcome, plan_init, resource, shutdown, startup_report, TelemetryGuard,
};
use opentelemetry::{Key, Value};

fn env_of(pairs: &[(&str, &str)]) -> EnvVars {
    EnvVars::from_pairs(
        pairs
            .iter()
            .map(|(k, v)| (k.to_string(), v.to_string()))
            .collect(),
    )
}

#[test]
fn whitespace_only_otlp_endpoint_is_treated_as_unset() {
    let plan = plan_init(&env_of(&[
        ("OTEL_EXPORTER_OTLP_ENDPOINT", " \t\n "),
        ("FIDUCIA_LOG_FORMAT", "json"),
    ]));
    assert_eq!(plan.otlp_endpoint, None);
    assert_eq!(plan.log_format, LogFormat::Json);

    // No endpoint: nothing is built, nothing is reported as failed.
    let outcome = init_outcome(plan.otlp_endpoint.is_some(), false, false);
    assert!(!outcome.otlp_subscriber);
    assert!(!outcome.trace_exporter);
    assert!(!outcome.metric_exporter);
    assert!(!outcome.report_exporter_failure);
    assert!(!TelemetryGuard::new(None, None).otlp_enabled());
}

#[test]
fn configured_endpoint_is_kept_verbatim() {
    let plan = plan_init(&env_of(&[(
        "OTEL_EXPORTER_OTLP_ENDPOINT",
        " http://fiducia-otel-agent:4317",
    )]));
    assert_eq!(
        plan.otlp_endpoint.as_deref(),
        Some(" http://fiducia-otel-agent:4317")
    );
    assert!(plan.ansi);
    assert_eq!(plan.log_format, LogFormat::Json);
}

#[test]
fn no_color_disables_ansi_whatever_its_value() {
    assert!(!plan_init(&env_of(&[("NO_COLOR", "")])).ansi);
    assert!(!plan_init(&env_of(&[("NO_COLOR", "1")])).ansi);
    assert_eq!(
        plan_init(&env_of(&[("OTEL_LOG_FORMAT", "Pretty")])).log_format,
        LogFormat::Text
    );
}

#[test]
fn exporter_failure_is_reported_only_for_a_configured_endpoint() {
    let all = init_outcome(true, true, true);
    assert!(all.otlp_subscriber && all.trace_exporter && all.metric_exporter);
    assert!(!all.report_exporter_failure);

    let no_meter = init_outcome(true, true, false);
    assert!(no_meter.otlp_subscriber);
    assert!(no_meter.report_exporter_failure);

    let no_tracer = init_outcome(true, false, true);
    assert!(!no_tracer.otlp_subscriber);
    assert!(no_tracer.metric_exporter);
    assert!(no_tracer.report_exporter_failure);

    assert!(init_outcome(true, false, false).report_exporter_failure);
    assert!(!init_outcome(false, false, false).report_exporter_failure);
}

#[test]
fn resource_holds_the_assembled_attributes() {
    let res = resource(
        "svc",
        &env_of(&[
            ("POD_NAME", "pod-1"),
            ("OTEL_RESOURCE_ATTRIBUTES", "team=core,password=x"),
        ]),
    );
    let get = |k: &str| res.get(&Key::new(k.to_string()));
    assert_eq!(get("service.name"), Some(Value::from("svc".to_string())));
    assert_eq!(
        get("service.namespace"),
        Some(Value::from("fiducia-cloud".to_string()))
    );
    assert_eq!(get("k8s.pod.name"), Some(Value::from("pod-1".to_string())));
    assert_eq!(
        get("service.instance.id"),
        Some(Value::from("pod-1".to_string()))
    );
    assert_eq!(get("team"), Some(Value::from("core".to_string())));
    assert_eq!(get("password"), None);
    assert_eq!(res.len(), 5);
}

#[test]
fn later_operator_attribute_replaces_an_earlier_value() {
    let res = resource(
        "svc",
        &env_of(&[("OTEL_RESOURCE_ATTRIBUTES", "service.name=other,team=a,team=b")]),
    );
    let get = |k: &str| res.get(&Key::new(k.to_string()));
    assert_eq!(get("service.name"), Some(Value::from("other".to_string())));
    assert_eq!(get("team"), Some(Value::from("b".to_string())));
    assert_eq!(res.len(), 3);
}

#[test]
fn guard_reports_and_hands_over_its_providers() {
    let mut guard = TelemetryGuard::new(None, None);
    assert!(!guard.otlp_enabled());
    let (t, m) = guard.take_providers();
    assert!(t.is_none() && m.is_none());

    let provider = opentelemetry_sdk::trace::SdkTracerProvider::builder().build();
    let mut guard = TelemetryGuard::new(Some(provider), None);
    assert!(guard.otlp_enabled());
    let (t, m) = guard.take_providers();
    assert!(t.is_some() && m.is_none());
    assert!(!guard.otlp_enabled());

    let meter = opentelemetry_sdk::metrics::SdkMeterProvider::builder().build();
    let guard = TelemetryGuard::new(None, Some(meter));
    assert!(guard.otlp_enabled());
}

#[test]
fn shutdown_can_be_called_repeatedly() {
    shutdown();
    shutdown();
}

#[test]
fn no_color_set_to_non_unicode_text_still_disables_ansi() {
    let mut env = EnvVars::new();
    env.set_non_unicode("NO_COLOR".to_string());
    assert!(!plan_init(&env).ansi);
    assert!(plan_init(&EnvVars::new()).ansi);
}

#[test]
fn non_unicode_endpoint_counts_as_unconfigured() {
    let mut env = EnvVars::new();
    env.set_non_unicode("OTEL_EXPORTER_OTLP_ENDPOINT".to_string());
    assert_eq!(plan_init(&env).otlp_endpoint, None);
}

#[test]
fn startup_report_carries_no_endpoint_text() {
    let build = |endpoint: &str| {
        let plan = plan_init(&env_of(&[
            ("OTEL_EXPORTER_OTLP_ENDPOINT", endpoint),
            ("FIDUCIA_LOG_FORMAT", "text"),
        ]));
        let outcome = init_outcome(plan.otlp_endpoint.is_some(), true, false);
        startup_report("svc", &plan, &outcome)
    };
    let a = build("http://user:pw@collector:4317");
    let b = build("http://other:4317");
    for r in [&a, &b] {
        assert_eq!(r.service_name, "svc");
        assert_eq!(r.log_format, LogFormat::Text);
        assert!(r.trace_exporter);
        assert!(!r.metric_exporter);
        assert!(r.report_exporter_failure);
        assert_eq!(r.log_pipeline, "stdout-json-to-collector-to-loki");
        assert_eq!(r.metric_pipeline, "otlp-to-collector-to-prometheus");
    }
}

#[test]
fn filter_falls_back_to_info_unless_rust_log_parses() {
    assert_eq!(filter_directive_of_env(&EnvVars::new()), "info");
    assert_eq!(
        filter_directive_of_env(&env_of(&[("RUST_LOG", "info,fiducia_node=debug")])),
        "info,fiducia_node=debug"
    );
    assert_eq!(
        filter_directive_of_env(&env_of(&[("RUST_LOG", "fiducia_node=notalevel")])),
        "info"
    );
    let mut env = EnvVars::new();
    env.set_non_unicode("RUST_LOG".to_string());
    assert_eq!(filter_directive_of_env(&env), "info");
}
