use vstd::prelude::*;
use crate::text::push_str;

verus! {

/// Errors raised while executing a planned query.
#[derive(Debug, Clone)]
pub enum ExecutorError {
    InvalidQuery(String),
    KeyspaceNotFound(String),
    TableNotFound(String, String),
    StorageError(String),
    SchemaError(String),
}

/// The text an error is shown with.
pub open spec fn error_message(e: ExecutorError) -> Seq<char> {
    match e {
        ExecutorError::InvalidQuery(m) => "Invalid query: "@ + m@,
        ExecutorError::KeyspaceNotFound(k) => "Keyspace '"@ + k@ + "' not found"@,
        ExecutorError::TableNotFound(k, t) => "Table '"@ + k@ + "."@ + t@ + "' not found"@,
        ExecutorError::StorageError(m) => "Storage error: "@ + m@,
        ExecutorError::SchemaError(m) => "Schema error: "@ + m@,
    }
}

impl ExecutorError {
    /// Renders the error as the server reports it to the client.
    pub fn message(&self) -> (r: String)
        ensures
            r@ == error_message(*self),
    {
        let mut out = String::new();
        match self {
            ExecutorError::InvalidQuery(m) => {
                push_str(&mut out, "Invalid query: ");
                push_str(&mut out, m.as_str());
            },
            ExecutorError::KeyspaceNotFound(k) => {
                push_str(&mut out, "Keyspace '");
                push_str(&mut out, k.as_str());
                push_str(&mut out, "' not found");
            },
            ExecutorError::TableNotFound(k, t) => {
                push_str(&mut out, "Table '");
                push_str(&mut out, k.as_str());
                push_str(&mut out, ".");
                push_str(&mut out, t.as_str());
                push_str(&mut out, "' not found");
            },
            ExecutorError::StorageError(m) => {
                push_str(&mut out, "Storage error: ");
                push_str(&mut out, m.as_str());
            },
            ExecutorError::SchemaError(m) => {
                push_str(&mut out, "Schema error: ");
                push_str(&mut out, m.as_str());
            },
        }
        out
    }
}

} // verus!
