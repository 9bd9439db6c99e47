//! The decisions of telemetry start-up: which log format and OTLP endpoint the
//! environment selects, which subscriber is installed once the exporters have
//! been built or have failed, what the start-up event reports, the resource
//! handed to the exporters, and the guard that owns the providers.

use vstd::prelude::*;
use opentelemetry_sdk::metrics::SdkMeterProvider;
use opentelemetry_sdk::trace::SdkTracerProvider;
use opentelemetry_sdk::Resource;
use tracing_subscriber::EnvFilter;
use crate::attributes::{
    env_value_of,
    is_clean_attribute,
    is_sensitive_key,
    lemma_operator_attributes_are_clean,
    non_blank,
    operator_attributes,
    resource_attribute_list,
    resource_attributes,
    service_namespace,
};
use crate::env::{env_entry, env_is_set, env_text, lookup, opt_view, EnvVars, EnvView};
use crate::log_format::{format_of_env, LogFormat};
use crate::otel::{
    build_resource,
    builder_contents,
    builder_with_attributes,
    insert_all,
    noop_tracer_provider,
    resource_builder_empty,
    resource_contents,
    set_global_tracer_provider,
};
use crate::text::trim;

verus! {

/// The OTLP endpoint the environment configures: `OTEL_EXPORTER_OTLP_ENDPOINT`
/// when it is set to something other than whitespace.
pub open spec fn configured_endpoint(env: EnvView) -> Option<Seq<char>> {
    non_blank(env_text(env, "OTEL_EXPORTER_OTLP_ENDPOINT"@))
}

/// What start-up reads from the environment before any exporter is built.
pub struct InitPlan {
    /// The log output format.
    pub log_format: LogFormat,
    /// The OTLP endpoint; `None` means stdout-only telemetry.
    pub otlp_endpoint: Option<String>,
    /// Whether text logs use ANSI colours (`NO_COLOR` unset).
    pub ansi: bool,
}

/// The start-up decisions for the environment `env`.
pub fn plan_init(env: &EnvVars) -> (r: InitPlan)
    ensures
        r.log_format == format_of_env(env@),
        opt_view(r.otlp_endpoint) == configured_endpoint(env@),
        r.ansi == !env_is_set(env@, "NO_COLOR"@),
{
    let log_format = LogFormat::from_env_with(env);
    let otlp_endpoint = env_value_of(env, "OTEL_EXPORTER_OTLP_ENDPOINT");
    let ansi = !env.is_set("NO_COLOR");
    InitPlan { log_format, otlp_endpoint, ansi }
}

/// What start-up does once the exporters have been attempted.
#[derive(Clone, Copy, Debug, PartialEq, Eq, Structural)]
pub struct InitOutcome {
    /// Install the subscriber that also sends spans to the OTLP tracer.
    pub otlp_subscriber: bool,
    /// The start-up event's `otel.trace_exporter` field.
    pub trace_exporter: bool,
    /// The start-up event's `otel.metric_exporter` field.
    pub metric_exporter: bool,
    /// Log that one or more OTLP exporters failed to initialize.
    pub report_exporter_failure: bool,
}

/// What start-up does when an endpoint was (or was not) configured and the
/// trace and metric providers were (or were not) built: the OTLP subscriber
/// only with a tracer, and a failure report only for a configured endpoint
/// that did not yield both providers.
pub open spec fn outcome_of(endpoint_configured: bool, tracer_built: bool, meter_built: bool) -> InitOutcome {
    InitOutcome {
        otlp_subscriber: tracer_built,
        trace_exporter: tracer_built,
        metric_exporter: meter_built,
        report_exporter_failure: endpoint_configured && !(tracer_built && meter_built),
    }
}

/// The outcome of start-up (see `outcome_of`).
pub fn init_outcome(endpoint_configured: bool, tracer_built: bool, meter_built: bool) -> (r:
    InitOutcome)
    ensures
        r == outcome_of(endpoint_configured, tracer_built, meter_built),
{
    InitOutcome {
        otlp_subscriber: tracer_built,
        trace_exporter: tracer_built,
        metric_exporter: meter_built,
        report_exporter_failure: endpoint_configured && (!tracer_built || !meter_built),
    }
}

/// With `OTEL_EXPORTER_OTLP_ENDPOINT` unset or blank, no exporter is
/// configured, and start-up (which then builds no provider) installs the
/// stdout-only subscriber, reports both exporters off and reports no failure:
/// a blank endpoint behaves exactly like an unset one.
pub proof fn lemma_blank_endpoint_is_stdout_only(env: EnvView)
    requires
        env_text(env, "OTEL_EXPORTER_OTLP_ENDPOINT"@) matches Some(v) ==> trim(v).len() == 0,
    ensures
        configured_endpoint(env) is None,
        outcome_of(configured_endpoint(env) is Some, false, false) == (InitOutcome {
            otlp_subscriber: false,
            trace_exporter: false,
            metric_exporter: false,
            report_exporter_failure: false,
        }),
{
}

/// The `log.pipeline` field of the start-up event.
pub open spec fn log_pipeline_name() -> Seq<char> {
    "stdout-json-to-collector-to-loki"@
}

/// The `metric.pipeline` field of the start-up event.
pub open spec fn metric_pipeline_name() -> Seq<char> {
    "otlp-to-collector-to-prometheus"@
}

/// The fields of the start-up event: the service, the log format and the log
/// pipeline, whether each exporter is on, the metric pipeline, and whether an
/// exporter failure is reported.
pub struct StartupReport {
    /// The `service.name` field.
    pub service_name: String,
    /// The `log.format` field.
    pub log_format: LogFormat,
    /// The `log.pipeline` field.
    pub log_pipeline: &'static str,
    /// The `otel.trace_exporter` field.
    pub trace_exporter: bool,
    /// The `otel.metric_exporter` field.
    pub metric_exporter: bool,
    /// The `metric.pipeline` field.
    pub metric_pipeline: &'static str,
    /// Whether the exporter-failure event follows.
    pub report_exporter_failure: bool,
}

/// The fields of a start-up event, as plain values: service name, log format,
/// log pipeline, trace exporter, metric exporter, metric pipeline, failure
/// reported.
pub type StartupFields = (Seq<char>, LogFormat, Seq<char>, bool, bool, Seq<char>, bool);

/// The fields of a start-up report.
pub open spec fn report_fields(r: StartupReport) -> StartupFields {
    (
        r.service_name@,
        r.log_format,
        r.log_pipeline@,
        r.trace_exporter,
        r.metric_exporter,
        r.metric_pipeline@,
        r.report_exporter_failure,
    )
}

/// What start-up reports for `service` in the environment `env` once the
/// trace and metric providers were (or were not) built.
pub open spec fn startup_fields(
    service: Seq<char>,
    env: EnvView,
    tracer_built: bool,
    meter_built: bool,
) -> StartupFields {
    let o = outcome_of(configured_endpoint(env) is Some, tracer_built, meter_built);
    (
        service,
        format_of_env(env),
        log_pipeline_name(),
        o.trace_exporter,
        o.metric_exporter,
        metric_pipeline_name(),
        o.report_exporter_failure,
    )
}

/// The start-up report of `service_name` under `plan` with `outcome`.
pub fn startup_report(service_name: &str, plan: &InitPlan, outcome: &InitOutcome) -> (r:
    StartupReport)
    ensures
        report_fields(r) == (
        service_name@,
        plan.log_format,
        log_pipeline_name(),
        outcome.trace_exporter,
        outcome.metric_exporter,
        metric_pipeline_name(),
        outcome.report_exporter_failure,
        ),
{
    StartupReport {
        service_name: service_name.to_owned(),
        log_format: plan.log_format,
        log_pipeline: "stdout-json-to-collector-to-loki",
        trace_exporter: outcome.trace_exporter,
        metric_exporter: outcome.metric_exporter,
        metric_pipeline: "otlp-to-collector-to-prometheus",
        report_exporter_failure: outcome.report_exporter_failure,
    }
}

/// Whether `directives` parse as `tracing_subscriber` filter directives.
pub uninterp spec fn rust_log_parses(directives: Seq<char>) -> bool;

/// `tracing_subscriber::EnvFilter::try_new`: whether the text parses as filter
/// directives (the parse that `EnvFilter::try_from_default_env` applies to
/// `RUST_LOG`). Which texts parse is left to that name.
#[verifier::external_body]
fn env_filter_parses(directives: &str) -> (r: bool)
    ensures
        r == rust_log_parses(directives@),
{
    EnvFilter::try_new(directives).is_ok()
}

/// The tracing filter directives start-up uses: `RUST_LOG` when it is set to
/// Unicode text that parses as directives, else `info`.
pub open spec fn filter_directive_of(env: EnvView) -> Seq<char> {
    match env_text(env, "RUST_LOG"@) {
        Some(v) => if rust_log_parses(v) {
            v
        } else {
            "info"@
        },
        None => "info"@,
    }
}

/// The filter directives that the environment `env` selects.
pub fn filter_directive_of_env(env: &EnvVars) -> (r: String)
    ensures
        r@ == filter_directive_of(env@),
{
    match env.get("RUST_LOG") {
        Some(v) => if env_filter_parses(v.as_str()) {
            v
        } else {
            "info".to_owned()
        },
        None => "info".to_owned(),
    }
}

/// The start-up report never carries the endpoint's text: two environments
/// that differ only in a configured (non-blank) `OTEL_EXPORTER_OTLP_ENDPOINT`
/// give the same report when the providers' builds turn out the same.
pub proof fn lemma_startup_fields_ignore_endpoint_text(
    service: Seq<char>,
    env1: EnvView,
    env2: EnvView,
    tracer_built: bool,
    meter_built: bool,
)
    requires
        forall|n: Seq<char>|
            n != "OTEL_EXPORTER_OTLP_ENDPOINT"@ ==> #[trigger] env_entry(env1, n) == env_entry(
                env2,
                n,
            ),
        configured_endpoint(env1) is Some,
        configured_endpoint(env2) is Some,
    ensures
        startup_fields(service, env1, tracer_built, meter_built) == startup_fields(
            service,
            env2,
            tracer_built,
            meter_built,
        ),
{
    reveal_strlit("OTEL_EXPORTER_OTLP_ENDPOINT");
    reveal_strlit("FIDUCIA_LOG_FORMAT");
    reveal_strlit("OTEL_LOG_FORMAT");
    reveal_strlit("LOG_FORMAT");
    assert("FIDUCIA_LOG_FORMAT"@.len() != "OTEL_EXPORTER_OTLP_ENDPOINT"@.len());
    assert("OTEL_LOG_FORMAT"@.len() != "OTEL_EXPORTER_OTLP_ENDPOINT"@.len());
    assert(env_entry(env1, "FIDUCIA_LOG_FORMAT"@) == env_entry(env2, "FIDUCIA_LOG_FORMAT"@));
    assert(env_entry(env1, "OTEL_LOG_FORMAT"@) == env_entry(env2, "OTEL_LOG_FORMAT"@));
    assert(env_entry(env1, "LOG_FORMAT"@) == env_entry(env2, "LOG_FORMAT"@));
}

/// The resource of `service_name` in the environment `env`: the attributes of
/// `resource_attribute_list`, where a later attribute replaces an earlier one
/// with the same key.
pub fn resource(service_name: &str, env: &EnvVars) -> (r: Resource)
    ensures
        resource_contents(r) == insert_all(
            Map::empty(),
            resource_attribute_list(service_name@, env@),
        ),
{
    let attrs = resource_attributes(service_name, env);
    let empty = resource_builder_empty();
    assert(builder_contents(empty) =~= Map::<Seq<char>, Seq<char>>::empty());
    let builder = builder_with_attributes(empty, &attrs);
    build_resource(builder)
}

/// The attribute keys the library itself assigns.
pub open spec fn own_attribute_keys() -> Set<Seq<char>> {
    set![
        "service.name"@,
        "service.namespace"@,
        "deployment.environment"@,
        "fiducia.cluster"@,
        "fiducia.cluster_id"@,
        "cloud.provider"@,
        "cloud.region"@,
        "k8s.namespace.name"@,
        "k8s.pod.name"@,
        "k8s.node.name"@,
        "service.version"@,
        "service.instance.id"@,
    ]
}

/// Inserting pairs in order into an empty map gives each key the value of its
/// last pair: the map is the `lookup` of the pairs.
pub proof fn lemma_insert_all_is_lookup(kvs: Seq<(Seq<char>, Seq<char>)>, k: Seq<char>)
    ensures
        insert_all(Map::empty(), kvs).dom().contains(k) == (lookup(kvs, k) is Some),
        lookup(kvs, k) matches Some(v) ==> insert_all(Map::empty(), kvs)[k] == v,
    decreases kvs.len(),
{
    if kvs.len() > 0 {
        lemma_insert_all_is_lookup(kvs.drop_last(), k);
    }
}

proof fn lemma_lookup_has_key(kvs: Seq<(Seq<char>, Seq<char>)>, k: Seq<char>) -> (i: int)
    requires
        lookup(kvs, k) is Some,
    ensures
        0 <= i < kvs.len(),
        kvs[i].0 == k,
        kvs[i].1 == lookup(kvs, k)->0,
    decreases kvs.len(),
{
    if kvs.last().0 == k {
        kvs.len() - 1
    } else {
        let j = lemma_lookup_has_key(kvs.drop_last(), k);
        assert(kvs[j] == kvs.drop_last()[j]);
        j
    }
}

/// Each assembled attribute carries one of the library's own keys or is an
/// operator attribute with a non-empty key and value whose key names no
/// credential or personal data.
pub proof fn lemma_attribute_list_keys(service: Seq<char>, env: EnvView)
    ensures
        forall|i: int|
            0 <= i < resource_attribute_list(service, env).len() ==> own_attribute_keys().contains(
                (#[trigger] resource_attribute_list(service, env)[i]).0,
            ) || is_clean_attribute(resource_attribute_list(service, env)[i]),
{
    let list = resource_attribute_list(service, env);
    let ops = operator_attributes(env);
    let own = list.take(list.len() - ops.len());
    assert(list =~= own + ops);
    match env_text(env, "OTEL_RESOURCE_ATTRIBUTES"@) {
        Some(raw) => lemma_operator_attributes_are_clean(raw),
        None => {},
    }
    assert forall|i: int| 0 <= i < own.len() implies own_attribute_keys().contains(
        #[trigger] own[i].0,
    ) by {
        assert(own[i] == list[i]);
    }
    assert forall|i: int| 0 <= i < list.len() implies own_attribute_keys().contains(
        (#[trigger] list[i]).0,
    ) || is_clean_attribute(list[i]) by {
        if i < own.len() {
            assert(list[i] == own[i]);
        } else {
            assert(list[i] == ops[i - own.len()]);
        }
    }
}

/// Every attribute key of the resource is one of the library's own keys or an
/// operator key that names no credential or personal data.
pub proof fn lemma_resource_keys_are_own_or_clean(
    service: Seq<char>,
    env: EnvView,
    k: Seq<char>,
)
    requires
        insert_all(Map::empty(), resource_attribute_list(service, env)).dom().contains(k),
    ensures
        own_attribute_keys().contains(k) || !is_sensitive_key(k),
{
    let list = resource_attribute_list(service, env);
    lemma_insert_all_is_lookup(list, k);
    let i = lemma_lookup_has_key(list, k);
    lemma_attribute_list_keys(service, env);
    assert(own_attribute_keys().contains(list[i].0) || is_clean_attribute(list[i]));
}

proof fn lemma_lookup_last_occurrence(kvs: Seq<(Seq<char>, Seq<char>)>, k: Seq<char>, j: int)
    requires
        0 <= j < kvs.len(),
        kvs[j].0 == k,
        forall|i: int| j < i < kvs.len() ==> (#[trigger] kvs[i]).0 != k,
    ensures
        lookup(kvs, k) == Some(kvs[j].1),
    decreases kvs.len(),
{
    if j < kvs.len() - 1 {
        let prev = kvs.drop_last();
        assert forall|i: int| j < i < prev.len() implies (#[trigger] prev[i]).0 != k by {
            assert(prev[i] == kvs[i]);
        }
        lemma_lookup_last_occurrence(prev, k, j);
    }
}

/// Unless the operator's list sets them, the resource names the service
/// `service` in the namespace that `OTEL_SERVICE_NAMESPACE` selects (the fleet
/// default when it is unset or blank).
#[verifier::rlimit(40)]
pub proof fn lemma_resource_service_identity(service: Seq<char>, env: EnvView)
    ensures
        lookup(operator_attributes(env), "service.name"@) is None ==> insert_all(
            Map::empty(),
            resource_attribute_list(service, env),
        ).dom().contains("service.name"@) && insert_all(
            Map::empty(),
            resource_attribute_list(service, env),
        )["service.name"@] == service,
        lookup(operator_attributes(env), "service.namespace"@) is None ==> insert_all(
            Map::empty(),
            resource_attribute_list(service, env),
        ).dom().contains("service.namespace"@) && insert_all(
            Map::empty(),
            resource_attribute_list(service, env),
        )["service.namespace"@] == service_namespace(env),
{
    reveal_strlit("service.name");
    reveal_strlit("service.namespace");
    reveal_strlit("deployment.environment");
    reveal_strlit("fiducia.cluster");
    reveal_strlit("fiducia.cluster_id");
    reveal_strlit("cloud.provider");
    reveal_strlit("cloud.region");
    reveal_strlit("k8s.namespace.name");
    reveal_strlit("k8s.pod.name");
    reveal_strlit("k8s.node.name");
    reveal_strlit("service.version");
    reveal_strlit("service.instance.id");
    let list = resource_attribute_list(service, env);
    let ops = operator_attributes(env);
    let own = list.take(list.len() - ops.len());
    assert(list =~= own + ops);
    assert(own[0] == ("service.name"@, service));
    assert(own[1] == ("service.namespace"@, service_namespace(env)));
    assert forall|i: int| 1 <= i < own.len() implies (#[trigger] own[i]).0 != "service.name"@ by {
        assert(own[i] == list[i]);
        assert(own[i].0.len() != 12 || own[i].0[0] != 's' || own[i].0[8] != 'n');
    }
    assert forall|i: int| 2 <= i < own.len() implies (#[trigger] own[i]).0
        != "service.namespace"@ by {
        assert(own[i] == list[i]);
        assert(own[i].0.len() != 17);
    }
    let sn = "service.name"@;
    let ns = "service.namespace"@;
    if lookup(ops, sn) is None {
        lemma_lookup_last_occurrence(own, sn, 0);
        lemma_lookup_concat(own, ops, sn);
        lemma_insert_all_is_lookup(list, sn);
    }
    if lookup(ops, ns) is None {
        assert(own[0].0 != ns) by {
            assert(sn.len() != ns.len());
        }
        lemma_lookup_last_occurrence(own, ns, 1);
        lemma_lookup_concat(own, ops, ns);
        lemma_insert_all_is_lookup(list, ns);
    }
}

proof fn lemma_lookup_concat(a: Seq<(Seq<char>, Seq<char>)>, b: Seq<(Seq<char>, Seq<char>)>, k: Seq<char>)
    ensures
        lookup(a + b, k) == (if lookup(b, k) is Some {
            lookup(b, k)
        } else {
            lookup(a, k)
        }),
    decreases b.len(),
{
    if b.len() == 0 {
        assert(a + b =~= a);
    } else {
        assert((a + b).drop_last() =~= a + b.drop_last());
        lemma_lookup_concat(a, b.drop_last(), k);
    }
}

/// Owns the OpenTelemetry providers so that their final trace and metric
/// batches can be flushed when the service exits.
pub struct TelemetryGuard {
    tracer_provider: Option<SdkTracerProvider>,
    meter_provider: Option<SdkMeterProvider>,
}

impl TelemetryGuard {
    /// The tracer provider the guard holds.
    pub closed spec fn tracer_provider(&self) -> Option<SdkTracerProvider> {
        self.tracer_provider
    }

    /// The meter provider the guard holds.
    pub closed spec fn meter_provider(&self) -> Option<SdkMeterProvider> {
        self.meter_provider
    }

    /// A guard owning the providers that were built.
    pub fn new(
        tracer_provider: Option<SdkTracerProvider>,
        meter_provider: Option<SdkMeterProvider>,
    ) -> (r: TelemetryGuard)
        ensures
            r.tracer_provider() == tracer_provider,
            r.meter_provider() == meter_provider,
    {
        TelemetryGuard { tracer_provider, meter_provider }
    }

    /// Whether at least one OTLP signal exporter initialized successfully.
    pub fn otlp_enabled(&self) -> (r: bool)
        ensures
            r == (self.tracer_provider() is Some || self.meter_provider() is Some),
    {
        self.tracer_provider.is_some() || self.meter_provider.is_some()
    }

    /// Hands over the providers for their final flush; the guard holds none
    /// afterwards, so a second call hands over nothing.
    pub fn take_providers(&mut self) -> (r: (Option<SdkTracerProvider>, Option<SdkMeterProvider>))
        ensures
            r.0 == old(self).tracer_provider(),
            r.1 == old(self).meter_provider(),
            final(self).tracer_provider() is None,
            final(self).meter_provider() is None,
    {
        let tracer_provider = self.tracer_provider.take();
        let meter_provider = self.meter_provider.take();
        (tracer_provider, meter_provider)
    }
}

/// Legacy global-provider reset: installs a no-op global tracer provider so
/// that no new spans are recorded after a legacy caller finishes. The guard
/// returned at start-up remains the path that flushes traces and metrics.
pub fn shutdown() {
    set_global_tracer_provider(noop_tracer_provider());
}

} // verus!
