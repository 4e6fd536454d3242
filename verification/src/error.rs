use vstd::prelude::*;
use vstd::string::*;

verus! {

/// The failure taxonomy of the engine.
///
/// `NotFound` is raised only when a single-key get misses; every other
/// miss is a normal empty result. `InvalidCommand` marks a request with
/// no populated variant. `BackendFault` carries the description of a
/// genuine backend malfunction (I/O failure, corruption, or a value
/// that no longer decodes).
#[derive(Clone, Debug, PartialEq)]
pub enum KvError {
    NotFound(String, String),
    InvalidCommand(String),
    BackendFault(String),
}

/// The text reported when a single-key get misses: it names the table
/// and the key that were asked for.
pub open spec fn not_found_message(table: Seq<char>, key: Seq<char>) -> Seq<char> {
    "Not found for table: "@ + table + ", key: "@ + key
}

/// The text reported for a request with no populated variant.
pub open spec fn invalid_command_message(description: Seq<char>) -> Seq<char> {
    "Invalid command: "@ + description
}

/// The human-readable message of an error, as it appears in a response.
pub open spec fn error_message(e: KvError) -> Seq<char> {
    match e {
        KvError::NotFound(table, key) => not_found_message(table@, key@),
        KvError::InvalidCommand(description) => invalid_command_message(description@),
        KvError::BackendFault(description) => description@,
    }
}

impl KvError {
    /// Renders the error as the message a response carries.
    pub fn message(&self) -> (r: String)
        ensures
            r@ == error_message(*self),
    {
        match self {
            KvError::NotFound(table, key) => {
                let mut s = "Not found for table: ".to_owned();
                s.append(table.as_str());
                s.append(", key: ");
                s.append(key.as_str());
                s
            },
            KvError::InvalidCommand(description) => {
                let mut s = "Invalid command: ".to_owned();
                s.append(description.as_str());
                s
            },
            KvError::BackendFault(description) => description.clone(),
        }
    }
}

} // verus!
