//! The kinds of failure that a store operation reports.

use vstd::prelude::*;

verus! {

/// What the encoder says of a text it could not write or read. Nothing is
/// known of its content.
#[verifier::external_type_specification]
#[verifier::external_body]
pub struct ExJsonError(serde_json::Error);

/// Why a store operation failed.
#[derive(Debug)]
pub enum StoreError {
    /// The database file could not be opened, created or migrated.
    ConnectionError,
    /// A read or a write failed for a reason that is none of the others: a
    /// constraint, the medium, a row that is not there.
    QueryError,
    /// A value could not be put into its text form before a write; with what
    /// the encoder said.
    InputSerializationError(serde_json::Error),
    /// A stored text could not be turned back into its value; with what the
    /// encoder said.
    DataDeserializationError(serde_json::Error),
}

impl StoreError {
    /// A sentence for the person who meets the failure.
    pub fn message(&self) -> (text: &'static str)
        ensures
            text@ == self.message_text(),
    {
        match self {
            StoreError::ConnectionError => "failed to connect to the database",
            StoreError::QueryError => "failed to run a query against the database",
            StoreError::InputSerializationError(_) => "failed to put a value into its stored form",
            StoreError::DataDeserializationError(_) =>
                "failed to read a value from its stored form",
        }
    }

    /// The text of [`StoreError::message`].
    pub open spec fn message_text(&self) -> Seq<char> {
        match self {
            StoreError::ConnectionError => "failed to connect to the database"@,
            StoreError::QueryError => "failed to run a query against the database"@,
            StoreError::InputSerializationError(_) =>
                "failed to put a value into its stored form"@,
            StoreError::DataDeserializationError(_) =>
                "failed to read a value from its stored form"@,
        }
    }
}

} // verus!
