//! Error values of the connectors and of the ingestion backend.

use vstd::prelude::*;

verus! {

/// Failures of an exchange connector.
#[derive(Debug)]
pub enum ConnectorError {
    WebSocket(String),
    ParseError(String),
    Unknown(String),
}

impl ConnectorError {
    /// The error's message.
    pub fn message(&self) -> (r: String)
        ensures
            r@ == (match self {
                ConnectorError::WebSocket(s) => "websocket error: "@ + s@,
                ConnectorError::ParseError(s) => "failed to parse symbol "@ + s@,
                ConnectorError::Unknown(s) => "unknown error: "@ + s@,
            }),
    {
        match self {
            ConnectorError::WebSocket(s) => {
                let mut m = "websocket error: ".to_owned();
                m.append(s.as_str());
                m
            },
            ConnectorError::ParseError(s) => {
                let mut m = "failed to parse symbol ".to_owned();
                m.append(s.as_str());
                m
            },
            ConnectorError::Unknown(s) => {
                let mut m = "unknown error: ".to_owned();
                m.append(s.as_str());
                m
            },
        }
    }
}

/// Failures of the ingestion backend.
#[derive(Debug)]
pub enum IngestionError {
    IngestionFailed(String),
    DbError(String),
    TypeError(String),
}

impl IngestionError {
    /// The error's message.
    pub fn message(&self) -> (r: String)
        ensures
            r@ == (match self {
                IngestionError::IngestionFailed(s) => "Error pushing data: "@ + s@,
                IngestionError::DbError(s) => "Database error: "@ + s@,
                IngestionError::TypeError(s) => "Type error: "@ + s@,
            }),
    {
        match self {
            IngestionError::IngestionFailed(s) => {
                let mut m = "Error pushing data: ".to_owned();
                m.append(s.as_str());
                m
            },
            IngestionError::DbError(s) => {
                let mut m = "Database error: ".to_owned();
                m.append(s.as_str());
                m
            },
            IngestionError::TypeError(s) => {
                let mut m = "Type error: ".to_owned();
                m.append(s.as_str());
                m
            },
        }
    }
}

/// Failure of a supervised task.
#[derive(Debug)]
pub enum TaskError {
    Panic,
}

} // verus!
