//! The OpenTelemetry items the library builds and holds: the `Resource` that
//! carries the attributes, the tracer and meter providers a guard owns, and
//! the global tracer provider that `shutdown` resets.

use vstd::prelude::*;
use opentelemetry::global;
use opentelemetry::trace::noop::NoopTracerProvider;
use opentelemetry::KeyValue;
use opentelemetry_sdk::metrics::SdkMeterProvider;
use opentelemetry_sdk::resource::ResourceBuilder;
use opentelemetry_sdk::trace::SdkTracerProvider;
use opentelemetry_sdk::Resource;

verus! {

#[verifier::external_type_specification]
#[verifier::external_body]
pub struct ExResource(Resource);

#[verifier::external_type_specification]
#[verifier::external_body]
pub struct ExResourceBuilder(ResourceBuilder);

#[verifier::external_type_specification]
#[verifier::external_body]
pub struct ExSdkTracerProvider(SdkTracerProvider);

#[verifier::external_type_specification]
#[verifier::external_body]
pub struct ExSdkMeterProvider(SdkMeterProvider);

#[verifier::external_type_specification]
#[verifier::external_body]
pub struct ExNoopTracerProvider(NoopTracerProvider);

/// The attributes a `Resource` holds: each key's text mapped to its string value.
pub uninterp spec fn resource_contents(r: Resource) -> Map<Seq<char>, Seq<char>>;

/// The attributes a `ResourceBuilder` holds: each key's text mapped to its string value.
pub uninterp spec fn builder_contents(b: ResourceBuilder) -> Map<Seq<char>, Seq<char>>;

/// `m` with the pairs `kvs` inserted in order, so that a later pair replaces
/// an earlier one with the same key.
pub open spec fn insert_all(m: Map<Seq<char>, Seq<char>>, kvs: Seq<(Seq<char>, Seq<char>)>) -> Map<
    Seq<char>,
    Seq<char>,
>
    decreases kvs.len(),
{
    if kvs.len() == 0 {
        m
    } else {
        insert_all(m, kvs.drop_last()).insert(kvs.last().0, kvs.last().1)
    }
}

/// `opentelemetry_sdk::Resource::builder_empty`: a builder that holds no
/// attributes (no resource detector runs).
#[verifier::external_body]
pub(crate) fn resource_builder_empty() -> (r: ResourceBuilder)
    ensures
        builder_contents(r).dom() == Set::<Seq<char>>::empty(),
{
    Resource::builder_empty()
}

/// `opentelemetry_sdk::resource::ResourceBuilder::with_attributes`, given each
/// pair as a `KeyValue` with a string value: the builder's attributes are
/// merged with the new ones, a new value replacing an old one under the same
/// key, and among the new ones the last pair of a key counts.
#[verifier::external_body]
pub(crate) fn builder_with_attributes(b: ResourceBuilder, kvs: &Vec<(String, String)>) -> (r:
    ResourceBuilder)
    ensures
        builder_contents(r) == insert_all(builder_contents(b), kvs.deep_view()),
{
    b.with_attributes(kvs.iter().map(|kv| KeyValue::new(kv.0.clone(), kv.1.clone())))
}

/// `opentelemetry_sdk::resource::ResourceBuilder::build`: the resource holds
/// the builder's attributes.
#[verifier::external_body]
pub(crate) fn build_resource(b: ResourceBuilder) -> (r: Resource)
    ensures
        resource_contents(r) == builder_contents(b),
{
    b.build()
}

/// `opentelemetry::trace::noop::NoopTracerProvider::new`: a tracer provider
/// whose tracers record nothing. Nothing is stated of the value.
#[verifier::external_body]
pub(crate) fn noop_tracer_provider() -> NoopTracerProvider {
    NoopTracerProvider::new()
}

/// `opentelemetry::global::set_tracer_provider`: makes `provider` the
/// process-wide tracer provider. It changes global state only, so nothing is
/// stated of it.
#[verifier::external_body]
pub(crate) fn set_global_tracer_provider(provider: NoopTracerProvider) {
    global::set_tracer_provider(provider)
}

} // verus!
