//! Shared telemetry configuration for fiducia.cloud services: the rules that
//! turn a process environment into a log format, an OTLP endpoint decision and
//! the OpenTelemetry resource attributes, with the sensitive-key filter that
//! keeps credentials and personal data out of exported attributes.

pub mod attributes;
pub mod env;
pub mod log_format;
pub mod otel;
pub mod redaction;
pub mod setup;
pub mod text;
