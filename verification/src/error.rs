//! Errors of the indexer and their classification for callers.

use crate::text::{int_decimal, push_int_decimal};
use vstd::prelude::*;
use vstd::string::*;

verus! {

/// Everything that can go wrong while rules are loaded and a location is
/// indexed. Variants that stem from a collaborator carry its message.
#[derive(Debug)]
pub enum IndexerError {
    /// No rule is stored under this id.
    IndexerRuleNotFound(i32),
    /// A stored rule kind is not one of the known kinds.
    InvalidRuleKindInt(i32),
    /// A glob pattern could not be parsed.
    GlobBuilderError(String),
    /// The record store failed.
    DatabaseError(String),
    /// The file system could not be read.
    IOError(String),
    /// Rule parameters could not be turned into JSON.
    RuleParametersSerdeJson(String),
    /// Rule parameters could not be encoded.
    RuleParametersRMPEncode(String),
    /// Stored rule parameters could not be decoded.
    RuleParametersRMPDecode(String),
    /// A path of the walk could not be taken into the index.
    FilePathError(String),
}

/// The classes of failure the indexer distinguishes.
#[derive(Debug, Clone, Copy, PartialEq, Eq, Structural)]
pub enum ErrorKind {
    NotFound,
    InvalidInput,
    IOError,
    PersistenceError,
    SerializationError,
}

/// What a synchronous caller is told: the request named something that does
/// not exist, the request itself was wrong, or the fault is internal.
#[derive(Debug, Clone, Copy, PartialEq, Eq, Structural)]
pub enum ErrorCode {
    NotFound,
    BadRequest,
    InternalServerError,
}

/// An error ready to be shown to a caller: its class and its message.
#[derive(Debug)]
pub struct RpcError {
    pub code: ErrorCode,
    pub message: String,
}

/// Class of an indexer error.
pub open spec fn kind_of(err: IndexerError) -> ErrorKind {
    match err {
        IndexerError::IndexerRuleNotFound(_) => ErrorKind::NotFound,
        IndexerError::InvalidRuleKindInt(_) => ErrorKind::InvalidInput,
        IndexerError::GlobBuilderError(_) => ErrorKind::InvalidInput,
        IndexerError::DatabaseError(_) => ErrorKind::PersistenceError,
        IndexerError::IOError(_) => ErrorKind::IOError,
        IndexerError::RuleParametersSerdeJson(_) => ErrorKind::SerializationError,
        IndexerError::RuleParametersRMPEncode(_) => ErrorKind::SerializationError,
        IndexerError::RuleParametersRMPDecode(_) => ErrorKind::SerializationError,
        IndexerError::FilePathError(_) => ErrorKind::IOError,
    }
}

/// The code under which errors of a kind are reported: what is missing is
/// `NotFound`, bad input is `BadRequest`, everything else is internal.
pub open spec fn code_of_kind(kind: ErrorKind) -> ErrorCode {
    match kind {
        ErrorKind::NotFound => ErrorCode::NotFound,
        ErrorKind::InvalidInput => ErrorCode::BadRequest,
        _ => ErrorCode::InternalServerError,
    }
}

/// The code of an error is the code of its kind.
pub proof fn lemma_code_follows_kind(err: IndexerError)
    ensures
        code_of(err) == code_of_kind(kind_of(err)),
{
}

/// Code under which an indexer error is reported: missing rules are
/// `NotFound`, bad rule kinds and bad patterns are `BadRequest`, everything
/// else is internal.
pub open spec fn code_of(err: IndexerError) -> ErrorCode {
    match err {
        IndexerError::IndexerRuleNotFound(_) => ErrorCode::NotFound,
        IndexerError::InvalidRuleKindInt(_) => ErrorCode::BadRequest,
        IndexerError::GlobBuilderError(_) => ErrorCode::BadRequest,
        _ => ErrorCode::InternalServerError,
    }
}

/// Text of an indexer error.
pub open spec fn message_of(err: IndexerError) -> Seq<char> {
    match err {
        IndexerError::IndexerRuleNotFound(id) => "Indexer rule not found: <id="@ + int_decimal(
            id as int,
        ) + ">"@,
        IndexerError::InvalidRuleKindInt(kind) => "Invalid indexer rule kind integer: "@
            + int_decimal(kind as int),
        IndexerError::GlobBuilderError(m) => "Glob builder error: "@ + m@,
        IndexerError::DatabaseError(m) => "Database error: "@ + m@,
        IndexerError::IOError(m) => "I/O error: "@ + m@,
        IndexerError::RuleParametersSerdeJson(m) =>
            "Indexer rule parameters json serialization error: "@ + m@,
        IndexerError::RuleParametersRMPEncode(m) => "Indexer rule parameters encode error: "@
            + m@,
        IndexerError::RuleParametersRMPDecode(m) => "Indexer rule parameters decode error: "@
            + m@,
        IndexerError::FilePathError(m) => "File path related error (error: "@ + m@ + ")"@,
    }
}

fn prefixed(prefix: &str, detail: &String) -> (r: String)
    ensures
        r@ == prefix@ + detail@,
{
    let mut out = String::from_str(prefix);
    out.append(detail.as_str());
    out
}

impl IndexerError {
    /// The class this error belongs to.
    pub fn kind(&self) -> (r: ErrorKind)
        ensures
            r == kind_of(*self),
    {
        match self {
            IndexerError::IndexerRuleNotFound(_) => ErrorKind::NotFound,
            IndexerError::InvalidRuleKindInt(_) => ErrorKind::InvalidInput,
            IndexerError::GlobBuilderError(_) => ErrorKind::InvalidInput,
            IndexerError::DatabaseError(_) => ErrorKind::PersistenceError,
            IndexerError::IOError(_) => ErrorKind::IOError,
            IndexerError::RuleParametersSerdeJson(_) => ErrorKind::SerializationError,
            IndexerError::RuleParametersRMPEncode(_) => ErrorKind::SerializationError,
            IndexerError::RuleParametersRMPDecode(_) => ErrorKind::SerializationError,
            IndexerError::FilePathError(_) => ErrorKind::IOError,
        }
    }

    /// The code under which this error is reported to a caller.
    pub fn code(&self) -> (r: ErrorCode)
        ensures
            r == code_of(*self),
    {
        match self {
            IndexerError::IndexerRuleNotFound(_) => ErrorCode::NotFound,
            IndexerError::InvalidRuleKindInt(_) | IndexerError::GlobBuilderError(_) => {
                ErrorCode::BadRequest
            },
            _ => ErrorCode::InternalServerError,
        }
    }

    /// The message of this error.
    pub fn to_string(&self) -> (r: String)
        ensures
            r@ == message_of(*self),
    {
        match self {
            IndexerError::IndexerRuleNotFound(id) => {
                let mut out = String::from_str("Indexer rule not found: <id=");
                push_int_decimal(&mut out, *id as i64);
                out.append(">");
                out
            },
            IndexerError::InvalidRuleKindInt(kind) => {
                let mut out = String::from_str("Invalid indexer rule kind integer: ");
                push_int_decimal(&mut out, *kind as i64);
                out
            },
            IndexerError::GlobBuilderError(m) => prefixed("Glob builder error: ", m),
            IndexerError::DatabaseError(m) => prefixed("Database error: ", m),
            IndexerError::IOError(m) => prefixed("I/O error: ", m),
            IndexerError::RuleParametersSerdeJson(m) => prefixed(
                "Indexer rule parameters json serialization error: ",
                m,
            ),
            IndexerError::RuleParametersRMPEncode(m) => prefixed(
                "Indexer rule parameters encode error: ",
                m,
            ),
            IndexerError::RuleParametersRMPDecode(m) => prefixed(
                "Indexer rule parameters decode error: ",
                m,
            ),
            IndexerError::FilePathError(m) => {
                let mut out = prefixed("File path related error (error: ", m);
                out.append(")");
                out
            },
        }
    }
}

impl RpcError {
    /// Classifies an indexer error for a synchronous caller and keeps its
    /// message.
    pub fn from(err: IndexerError) -> (r: RpcError)
        ensures
            r.code == code_of(err),
            r.message@ == message_of(err),
    {
        let code = err.code();
        let message = err.to_string();
        RpcError { code, message }
    }
}

} // verus!
