//! Records of the location store, as the indexer and the explorer read them.

use crate::error::{RpcError, ErrorCode};
use crate::text::{int_decimal, push_int_decimal};
use vstd::prelude::*;
use vstd::string::*;

verus! {

/// A registered file-system root.
#[derive(Debug)]
pub struct LocationData {
    /// Id of the location on this device.
    pub id: i32,
    /// Identifier that is the same on every device.
    pub pub_id: Vec<u8>,
    pub name: String,
    /// Root directory of the location on this device.
    pub local_path: String,
}

/// A stored indexer rule: its kind as an integer and its encoded parameters.
#[derive(Debug)]
pub struct IndexerRuleData {
    pub id: i32,
    pub kind: i32,
    pub name: String,
    pub parameters: Vec<u8>,
}

/// A location together with the rules attached to it.
#[derive(Debug)]
pub struct LocationWithIndexerRules {
    pub id: i32,
    pub pub_id: Vec<u8>,
    pub local_path: String,
    pub indexer_rules: Vec<IndexerRuleData>,
}

/// A tag that objects can carry.
#[derive(Debug)]
pub struct TagData {
    pub id: i32,
    pub pub_id: Vec<u8>,
    pub name: String,
    pub color: String,
}

/// What is known of a file's content, shared by every path that holds it.
#[derive(Debug)]
pub struct ObjectData {
    pub id: i32,
    pub cas_id: String,
    pub kind: i32,
}

/// A stored row of a path inside a location, with the object it points to.
#[derive(Debug)]
pub struct FilePathWithObject {
    pub id: i32,
    pub location_id: i32,
    pub materialized_path: String,
    pub name: String,
    pub extension: String,
    pub is_dir: bool,
    pub parent_id: Option<i32>,
    /// Content address, once the file has been identified.
    pub cas_id: Option<String>,
    pub object: Option<ObjectData>,
}

/// A stored row of a path, without its object.
#[derive(Debug)]
pub struct FilePathData {
    pub id: i32,
    pub location_id: i32,
    pub materialized_path: String,
    pub name: String,
    pub extension: String,
    pub is_dir: bool,
    pub parent_id: Option<i32>,
}

/// An object with every path under which it is found.
#[derive(Debug)]
pub struct ObjectWithFilePaths {
    pub id: i32,
    pub cas_id: String,
    pub kind: i32,
    pub file_paths: Vec<FilePathData>,
}

/// What can go wrong when a request names a location.
#[derive(Debug)]
pub enum LocationError {
    /// No location is stored under this id.
    IdNotFound(i32),
    /// A collaborator could not read the disk.
    IOError(String),
}

/// Text of a location error.
pub open spec fn location_message(err: LocationError) -> Seq<char> {
    match err {
        LocationError::IdNotFound(id) => "Location not found <id="@ + int_decimal(id as int)
            + ">"@,
        LocationError::IOError(m) => "I/O error (error: "@ + m@ + ")"@,
    }
}

/// Code under which a location error is reported.
pub open spec fn location_code(err: LocationError) -> ErrorCode {
    match err {
        LocationError::IdNotFound(_) => ErrorCode::NotFound,
        LocationError::IOError(_) => ErrorCode::InternalServerError,
    }
}

impl LocationError {
    /// The message of this error.
    pub fn to_string(&self) -> (r: String)
        ensures
            r@ == location_message(*self),
    {
        match self {
            LocationError::IdNotFound(id) => {
                let mut out = String::from_str("Location not found <id=");
                push_int_decimal(&mut out, *id as i64);
                out.append(">");
                out
            },
            LocationError::IOError(m) => {
                let mut out = String::from_str("I/O error (error: ");
                out.append(m.as_str());
                out.append(")");
                out
            },
        }
    }

    /// Classifies this error for a synchronous caller and keeps its message.
    pub fn into_error(self) -> (r: RpcError)
        ensures
            r.code == location_code(self),
            r.message@ == location_message(self),
    {
        let message = self.to_string();
        let code = match self {
            LocationError::IdNotFound(_) => ErrorCode::NotFound,
            LocationError::IOError(_) => ErrorCode::InternalServerError,
        };
        RpcError { code, message }
    }
}

/// Looks at the answer of the store to "the location with this id": the
/// location where there is one, else the error that names the id.
pub fn require_location<L>(found: Option<L>, location_id: i32) -> (r: Result<L, LocationError>)
    ensures
        match found {
            Some(l) => r == Ok::<L, LocationError>(l),
            None => r == Err::<L, LocationError>(LocationError::IdNotFound(location_id)),
        },
{
    match found {
        Some(l) => Ok(l),
        None => Err(LocationError::IdNotFound(location_id)),
    }
}

} // verus!
