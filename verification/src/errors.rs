//! Errors of the entropy engine.
use vstd::prelude::*;

use crate::health::{health_label, HealthStatus};
use crate::security::{violation_text, SecurityViolation};
use crate::text::{decimal, push_decimal, push_str, string_of};

verus! {

/// Every way an engine operation can fail.
#[derive(Debug, Clone)]
pub enum EntropyError {
    SerialOpen { port: String, reason: String },
    SerialRead { reason: String },
    SerialError { reason: String },
    ParseError { reason: String },
    HealthFailure { status: HealthStatus },
    PoolExhausted,
    DrbgReseedRequired { bytes_generated: u64 },
    InvalidLength { requested: usize, max: usize },
    SecurityViolation { violation: SecurityViolation },
    MqttError { reason: String },
}

/// Abstract value of an `EntropyError`: text fields as character sequences.
pub enum EntropyErrorView {
    SerialOpen { port: Seq<char>, reason: Seq<char> },
    SerialRead { reason: Seq<char> },
    SerialError { reason: Seq<char> },
    ParseError { reason: Seq<char> },
    HealthFailure { status: HealthStatus },
    PoolExhausted,
    DrbgReseedRequired { bytes_generated: u64 },
    InvalidLength { requested: usize, max: usize },
    SecurityViolation { violation: SecurityViolation },
    MqttError { reason: Seq<char> },
}

impl View for EntropyError {
    type V = EntropyErrorView;

    open spec fn view(&self) -> EntropyErrorView {
        match self {
            EntropyError::SerialOpen { port, reason } => EntropyErrorView::SerialOpen {
                port: port@,
                reason: reason@,
            },
            EntropyError::SerialRead { reason } => EntropyErrorView::SerialRead { reason: reason@ },
            EntropyError::SerialError { reason } => EntropyErrorView::SerialError { reason: reason@ },
            EntropyError::ParseError { reason } => EntropyErrorView::ParseError { reason: reason@ },
            EntropyError::HealthFailure { status } => EntropyErrorView::HealthFailure { status: *status },
            EntropyError::PoolExhausted => EntropyErrorView::PoolExhausted,
            EntropyError::DrbgReseedRequired { bytes_generated } => EntropyErrorView::DrbgReseedRequired {
                bytes_generated: *bytes_generated,
            },
            EntropyError::InvalidLength { requested, max } => EntropyErrorView::InvalidLength {
                requested: *requested,
                max: *max,
            },
            EntropyError::SecurityViolation { violation } => EntropyErrorView::SecurityViolation {
                violation: *violation,
            },
            EntropyError::MqttError { reason } => EntropyErrorView::MqttError { reason: reason@ },
        }
    }
}

/// Text of `EntropyError::message`.
pub open spec fn error_text(e: EntropyErrorView) -> Seq<char> {
    match e {
        EntropyErrorView::SerialOpen { port, reason } => "serial port open failed on '"@ + port + "': "@ + reason,
        EntropyErrorView::SerialRead { reason } => "serial read failed: "@ + reason,
        EntropyErrorView::SerialError { reason } => "serial error: "@ + reason,
        EntropyErrorView::ParseError { reason } => "packet parse error: "@ + reason,
        EntropyErrorView::HealthFailure { status } => "entropy health check failed: "@ + health_label(status),
        EntropyErrorView::PoolExhausted => "entropy pool exhausted, reseed required"@,
        EntropyErrorView::DrbgReseedRequired { bytes_generated } => "DRBG reseed required after "@ + decimal(
            bytes_generated as nat,
        ) + " bytes"@,
        EntropyErrorView::InvalidLength { requested, max } => "invalid length: requested "@ + decimal(
            requested as nat,
        ) + ", max "@ + decimal(max as nat),
        EntropyErrorView::SecurityViolation { violation } => "security policy violation: "@ + violation_text(
            violation,
        ),
        EntropyErrorView::MqttError { reason } => "MQTT error: "@ + reason,
    }
}

impl EntropyError {
    /// Human-readable description of the error.
    pub fn message(&self) -> (s: String)
        ensures
            s@ == error_text(self@),
    {
        match self {
            EntropyError::SerialOpen { port, reason } => {
                let mut s = string_of("serial port open failed on '");
                push_str(&mut s, port.as_str());
                push_str(&mut s, "': ");
                push_str(&mut s, reason.as_str());
                s
            },
            EntropyError::SerialRead { reason } => {
                let mut s = string_of("serial read failed: ");
                push_str(&mut s, reason.as_str());
                s
            },
            EntropyError::SerialError { reason } => {
                let mut s = string_of("serial error: ");
                push_str(&mut s, reason.as_str());
                s
            },
            EntropyError::ParseError { reason } => {
                let mut s = string_of("packet parse error: ");
                push_str(&mut s, reason.as_str());
                s
            },
            EntropyError::HealthFailure { status } => {
                let mut s = string_of("entropy health check failed: ");
                push_str(&mut s, status.label());
                s
            },
            EntropyError::PoolExhausted => string_of("entropy pool exhausted, reseed required"),
            EntropyError::DrbgReseedRequired { bytes_generated } => {
                let mut s = string_of("DRBG reseed required after ");
                push_decimal(&mut s, *bytes_generated);
                push_str(&mut s, " bytes");
                s
            },
            EntropyError::InvalidLength { requested, max } => {
                let mut s = string_of("invalid length: requested ");
                push_decimal(&mut s, *requested as u64);
                push_str(&mut s, ", max ");
                push_decimal(&mut s, *max as u64);
                s
            },
            EntropyError::SecurityViolation { violation } => {
                let mut s = string_of("security policy violation: ");
                let v = violation.message();
                push_str(&mut s, v.as_str());
                s
            },
            EntropyError::MqttError { reason } => {
                let mut s = string_of("MQTT error: ");
                push_str(&mut s, reason.as_str());
                s
            },
        }
    }
}

} // verus!
