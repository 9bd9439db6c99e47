use fiducia_telemetry::attributes::{
    is_sensitive_attribute_key, otel_resource_attribute_pairs, resource_attributes,
};
use fiducia_telemetry::env::EnvVars;

fn env_of(pairs: &[(&str, &str)]) -> EnvVars {
    EnvVars::from_pairs(
        pairs
            .iter()
            .map(|(k, v)| (k.to_string(), v.to_string()))
            .collect(),
    )
}

/// Drive the assembly with a fake environment.
fn attrs(env: &[(&str, &str)]) -> Vec<(String, String)> {
    resource_attributes("test-service", &env_of(env))
}

fn value_of(attrs: &[(String, String)], key: &str) -> Option<String> {
    attrs.iter().find(|kv| kv.0 == key).map(|kv| kv.1.clone())
}

fn pairs(list: &[(&str, &str)]) -> Vec<(String, String)> {
    list.iter().map(|(k, v)| (k.to_string(), v.to_string())).collect()
}

#[test]
fn otel_resource_attribute_parser_trims_and_drops_invalid_pairs() {
    let attrs = otel_resource_attribute_pairs(
        "service.version=1.2.3, missing-value=, =missing-key, cloud.region = us-east-1 ,bad,auth.token=do-not-export,database_password=nope",
    );

    assert_eq!(
        attrs,
        vec![
            ("service.version".to_string(), "1.2.3".to_string()),
            ("cloud.region".to_string(), "us-east-1".to_string()),
        ]
    );
}

#[test]
fn otel_resource_attribute_parser_preserves_equals_inside_values() {
    let attrs = otel_resource_attribute_pairs(
        "build.url=https://ci.example/run?branch=main,service.version=1.2.3+sha=abc",
    );

    assert_eq!(
        attrs,
        vec![
            (
                "build.url".to_string(),
                "https://ci.example/run?branch=main".to_string(),
            ),
            ("service.version".to_string(), "1.2.3+sha=abc".to_string(),),
        ]
    );
}

#[test]
fn otel_resource_attribute_parser_handles_empty_and_separator_only_input() {
    assert_eq!(otel_resource_attribute_pairs(""), Vec::<(String, String)>::new());
    assert_eq!(otel_resource_attribute_pairs(",,,"), Vec::<(String, String)>::new());
    assert_eq!(otel_resource_attribute_pairs("="), Vec::<(String, String)>::new());
    assert_eq!(
        otel_resource_attribute_pairs("a=1,a=2"),
        pairs(&[("a", "1"), ("a", "2")])
    );
    assert_eq!(
        otel_resource_attribute_pairs("\tteam =  core\u{a0}"),
        pairs(&[("team", "core")])
    );
}

#[test]
fn sensitive_resource_attribute_keys_are_rejected() {
    for key in [
        "authorization",
        "http.cookie",
        "db.password",
        "service-api-key",
        "access_token",
        // Substring matching also covers infix/prefix placements.
        "my_secret_value",
        "token_id",
        "apitoken",
        "aws_credential_arn",
        "bearer_header",
        "tls_private_key_path",
        "session_cookie_name",
        "jwt_issuer",
        // Abbreviated/spelled-out passwords, signing keys, and PII.
        "db_pwd",
        "user_passphrase",
        "webhook_signing_key",
        "user.email",
        "contact_email_address",
    ] {
        assert!(is_sensitive_attribute_key(key), "accepted {key}");
    }
    assert!(!is_sensitive_attribute_key("service.version"));
    assert!(!is_sensitive_attribute_key("cloud.region"));
    assert!(!is_sensitive_attribute_key("deployment.environment"));
    // Non-secret keys that must stay exported (guard against over-redaction).
    assert!(!is_sensitive_attribute_key("k8s.pod.name"));
    assert!(!is_sensitive_attribute_key("service.instance.id"));
}

#[test]
fn sensitive_key_match_ignores_case_separators_and_surrounding_whitespace() {
    assert!(is_sensitive_attribute_key("  X-API-KEY  "));
    assert!(is_sensitive_attribute_key("Private.Key"));
    assert!(is_sensitive_attribute_key("SESSION"));
    assert!(is_sensitive_attribute_key("prefix.JWT.suffix"));
    assert!(!is_sensitive_attribute_key(""));
    assert!(!is_sensitive_attribute_key("api key"));
    assert!(!is_sensitive_attribute_key("tok-en"));
}

#[test]
fn fixed_resource_attribute_keys_are_not_sensitive() {
    for key in [
        "service.name",
        "service.namespace",
        "deployment.environment",
        "fiducia.cluster",
        "fiducia.cluster_id",
        "cloud.provider",
        "cloud.region",
        "k8s.namespace.name",
        "k8s.pod.name",
        "k8s.node.name",
        "service.version",
        "service.instance.id",
    ] {
        assert!(!is_sensitive_attribute_key(key), "rejected {key}");
    }
}

#[test]
fn service_identity_defaults_are_always_present() {
    let attrs = attrs(&[]);
    assert_eq!(
        value_of(&attrs, "service.name").as_deref(),
        Some("test-service")
    );
    assert_eq!(
        value_of(&attrs, "service.namespace").as_deref(),
        Some("fiducia-cloud"),
        "namespace falls back to the fleet default"
    );
    assert_eq!(
        value_of(&attrs, "service.instance.id"),
        None,
        "no POD_NAME/HOSTNAME means no fabricated instance id"
    );
}

#[test]
fn fiducia_env_wins_over_generic_and_empty_values_fall_through() {
    let attrs = attrs(&[
        ("FIDUCIA_DEPLOYMENT_ENV", "prod"),
        ("DEPLOYMENT_ENV", "staging"),
        ("FIDUCIA_CLUSTER", "   "), // whitespace-only must be skipped
    ]);
    assert_eq!(
        value_of(&attrs, "deployment.environment").as_deref(),
        Some("prod"),
        "the FIDUCIA_-prefixed variable takes precedence"
    );
    assert_eq!(
        value_of(&attrs, "fiducia.cluster"),
        None,
        "a whitespace-only value must not become an attribute"
    );
}

#[test]
fn instance_id_prefers_pod_name_and_falls_back_to_hostname() {
    let with_pod = attrs(&[("POD_NAME", "brain-0"), ("HOSTNAME", "ignored")]);
    assert_eq!(
        value_of(&with_pod, "service.instance.id").as_deref(),
        Some("brain-0")
    );
    assert_eq!(
        value_of(&with_pod, "k8s.pod.name").as_deref(),
        Some("brain-0")
    );

    let with_host = attrs(&[("HOSTNAME", "dev-laptop")]);
    assert_eq!(
        value_of(&with_host, "service.instance.id").as_deref(),
        Some("dev-laptop"),
        "outside k8s the hostname identifies the replica"
    );
}

#[test]
fn operator_resource_attributes_are_appended_with_secrets_redacted() {
    let attrs = attrs(&[(
        "OTEL_RESOURCE_ATTRIBUTES",
        "team=coordination,api_key=must-not-export",
    )]);
    assert_eq!(value_of(&attrs, "team").as_deref(), Some("coordination"));
    assert_eq!(
        value_of(&attrs, "api_key"),
        None,
        "sensitive operator-supplied keys are dropped"
    );
}

#[test]
fn full_attribute_list_is_in_the_documented_order() {
    let attrs = attrs(&[
        ("OTEL_SERVICE_NAMESPACE", "ns"),
        ("DEPLOYMENT_ENV", "staging"),
        ("FIDUCIA_CLUSTER", "c1"),
        ("FIDUCIA_CLUSTER_ID", "id-1"),
        ("FIDUCIA_CLOUD_PROVIDER", "aws"),
        ("FIDUCIA_CLOUD_REGION", "us-east-1"),
        ("POD_NAMESPACE", "prod"),
        ("POD_NAME", "pod-7"),
        ("NODE_NAME", "node-3"),
        ("SERVICE_VERSION", " 1.0 "),
        ("OTEL_RESOURCE_ATTRIBUTES", "team=core"),
    ]);
    assert_eq!(
        attrs,
        pairs(&[
            ("service.name", "test-service"),
            ("service.namespace", "ns"),
            ("deployment.environment", "staging"),
            ("fiducia.cluster", "c1"),
            ("fiducia.cluster_id", "id-1"),
            ("cloud.provider", "aws"),
            ("cloud.region", "us-east-1"),
            ("k8s.namespace.name", "prod"),
            ("k8s.pod.name", "pod-7"),
            ("k8s.node.name", "node-3"),
            // A non-blank value is kept as it was set, untrimmed.
            ("service.version", " 1.0 "),
            ("service.instance.id", "pod-7"),
            ("team", "core"),
        ])
    );
}

#[test]
fn blank_namespace_falls_back_to_the_fleet_default() {
    let attrs = attrs(&[("OTEL_SERVICE_NAMESPACE", " \t ")]);
    assert_eq!(
        value_of(&attrs, "service.namespace").as_deref(),
        Some("fiducia-cloud")
    );
}

#[test]
fn text_around_a_sensitive_key_keeps_it_sensitive() {
    for key in ["token", "secret", "api-key", "Email"] {
        assert!(is_sensitive_attribute_key(key));
        assert!(is_sensitive_attribute_key(&format!("my_{key}_value")));
        assert!(is_sensitive_attribute_key(&format!("  x.{key}")));
        assert!(is_sensitive_attribute_key(&format!("{key}-id ")));
    }
}

#[test]
fn no_assembled_attribute_key_is_sensitive() {
    let attrs = attrs(&[
        ("POD_NAME", "p"),
        ("HOSTNAME", "h"),
        ("FIDUCIA_CLUSTER", "c"),
        (
            "OTEL_RESOURCE_ATTRIBUTES",
            "session_id=1,Auth.Token=2,team=core,x-api-key=3,user_email=4,region=eu",
        ),
    ]);
    for (key, value) in &attrs {
        assert!(!is_sensitive_attribute_key(key), "exported {key}");
        assert!(!key.trim().is_empty() && !value.trim().is_empty());
    }
    assert_eq!(value_of(&attrs, "team").as_deref(), Some("core"));
    assert_eq!(value_of(&attrs, "region").as_deref(), Some("eu"));
    assert_eq!(attrs.len(), 7);
}

#[test]
fn sensitive_check_ignores_case_separators_and_padding() {
    for (k, k2) in [
        ("api_key", " API-KEY\t"),
        ("db.password", "DB_PASSWORD"),
        ("service.version", "  Service-Version "),
        ("k8s.pod.name", "K8S_POD_NAME"),
    ] {
        assert_eq!(
            is_sensitive_attribute_key(k),
            is_sensitive_attribute_key(k2),
            "{k} vs {k2}"
        );
    }
}
