//! Structured log and audit vocabulary: levels, categories, error payloads
//! and the standard event envelope.

use vstd::prelude::*;

verus! {

/// Severity of an audit record.
#[derive(Debug, Clone, Copy, PartialEq, Eq, Structural)]
pub enum AuditLevel {
    Info,
    Warning,
    Error,
    Critical,
}

impl AuditLevel {
    /// The level's name.
    pub fn as_ref(&self) -> (r: &'static str)
        ensures
            r@ == (match self {
                AuditLevel::Critical => "critical"@,
                AuditLevel::Error => "error"@,
                AuditLevel::Warning => "warning"@,
                AuditLevel::Info => "info"@,
            }),
    {
        match self {
            AuditLevel::Critical => "critical",
            AuditLevel::Error => "error",
            AuditLevel::Warning => "warning",
            AuditLevel::Info => "info",
        }
    }
}

/// Category of a structured log event.
#[derive(Debug, Clone, Copy, PartialEq, Eq, Structural)]
pub enum LogEventCategory {
    Ingestion,
    System,
    Audit,
}

impl LogEventCategory {
    /// The category's name.
    pub fn as_ref(&self) -> (r: &'static str)
        ensures
            r@ == (match self {
                LogEventCategory::Audit => "LogEventCategory::Audit"@,
                LogEventCategory::Ingestion => "LogEventCategory::Ingestion"@,
                LogEventCategory::System => "LogEventCategory::System"@,
            }),
    {
        match self {
            LogEventCategory::Audit => "LogEventCategory::Audit",
            LogEventCategory::Ingestion => "LogEventCategory::Ingestion",
            LogEventCategory::System => "LogEventCategory::System",
        }
    }
}

/// How bad an error is.
#[derive(Debug, Clone, Copy, PartialEq, Eq, Structural)]
pub enum ErrorSeverity {
    Critical,
    Recoverable,
    Fatal,
}

/// The payload of an error log event.
#[derive(Debug)]
pub struct ErrorPayload<'a> {
    pub error_code: &'a str,
    pub messsage: &'a str,
    pub severity: ErrorSeverity,
    pub is_retryable: bool,
}

impl<'a> ErrorPayload<'a> {
    /// The payload of error `code` with message `err`.
    pub fn new(code: &'a str, err: &'a str, severity: ErrorSeverity, retryable: bool) -> (r: Self)
        ensures
            r.error_code == code,
            r.messsage == err,
            r.severity == severity,
            r.is_retryable == retryable,
    {
        ErrorPayload { error_code: code, messsage: err, severity, is_retryable: retryable }
    }
}

/// The envelope of a structured log event.
#[derive(Debug)]
pub struct StandardEvent<T> {
    pub version: &'static str,
    pub service: String,
    pub category: LogEventCategory,
    pub event_name: String,
    pub data: T,
}

impl<T> StandardEvent<T> {
    /// An event of version `1.0`.
    pub fn new(category: LogEventCategory, name: String, service_name: String, data: T) -> (r: Self)
        ensures
            r.version@ == "1.0"@,
            r.service == service_name,
            r.category == category,
            r.event_name == name,
            r.data == data,
    {
        StandardEvent { version: "1.0", service: service_name, category, event_name: name, data }
    }
}

} // verus!
