//! Parameter and result types of the storage facade, with their structural
//! validation and the content-hash integrity check.

use vstd::prelude::*;
use vstd::string::StringExecFns;
use crate::errors::AppError;
use crate::hashing::md5_hex;
use crate::hashing::md5_hex_of;

verus! {

/// The encoded state of one collab object, as persisted or as held by a live
/// editing session.
#[derive(Clone, Debug)]
pub struct EncodedCollab {
    pub doc_state: Vec<u8>,
}

/// The text of the integrity failure for one object: it names the failing
/// object id.
pub open spec fn integrity_error_text(oid: Seq<char>) -> Seq<char> {
    "collab doc state is not correct: "@ + oid
}

/// Parameters of a collab write: the object, its encoded state, and the
/// declared content hash of that state.
#[derive(Clone, Debug)]
pub struct CollabParams {
    pub object_id: String,
    pub encoded_collab: Vec<u8>,
    pub content_hash: String,
}

impl CollabParams {
    /// Structural correctness: the object id is nonempty.
    pub open spec fn structurally_valid(&self) -> bool {
        self.object_id@.len() > 0
    }

    /// The declared content hash matches a hash of the encoded state.
    pub open spec fn integrity_ok(&self) -> bool {
        self.content_hash@ == md5_hex_of(self.encoded_collab@)
    }

    /// Builds write parameters whose declared content hash is the hash of
    /// `encoded_collab`, so the integrity check accepts them.
    pub fn new_signed(object_id: String, encoded_collab: Vec<u8>) -> (p: CollabParams)
        ensures
            p.object_id == object_id,
            p.encoded_collab == encoded_collab,
            p.integrity_ok(),
    {
        let content_hash = md5_hex(&encoded_collab);
        CollabParams { object_id, encoded_collab, content_hash }
    }

    pub fn validate(&self) -> (r: Result<(), AppError>)
        ensures
            r is Ok <==> self.structurally_valid(),
            r matches Err(e) ==> e is Validation,
    {
        if self.object_id.as_str().is_empty() {
            Err(AppError::Validation("collab params: empty object id".to_owned()))
        } else {
            Ok(())
        }
    }

    /// The integrity check on the encoded state: recomputes the hash of the
    /// payload and compares it to the declared content hash. The failure text
    /// names the failing object.
    pub fn check_encode_collab(&self) -> (r: Result<(), AppError>)
        ensures
            r is Ok <==> self.integrity_ok(),
            r matches Err(e) ==> (e matches AppError::Validation(m) && m@ == integrity_error_text(
                self.object_id@,
            )),
    {
        let computed = md5_hex(&self.encoded_collab);
        if computed == self.content_hash {
            Ok(())
        } else {
            let mut msg = "collab doc state is not correct: ".to_owned();
            msg.append(self.object_id.as_str());
            Err(AppError::Validation(msg))
        }
    }
}

/// One query of a batched read.
#[derive(Clone, Debug)]
pub struct QueryCollab {
    pub object_id: String,
}

impl QueryCollab {
    pub open spec fn structurally_valid(&self) -> bool {
        self.object_id@.len() > 0
    }

    pub fn validate(&self) -> (r: Result<(), AppError>)
        ensures
            r is Ok <==> self.structurally_valid(),
            r matches Err(e) ==> e is Validation,
    {
        if self.object_id.as_str().is_empty() {
            Err(AppError::Validation("query: empty object id".to_owned()))
        } else {
            Ok(())
        }
    }
}

/// Parameters of a single permission-gated read.
#[derive(Clone, Debug)]
pub struct QueryCollabParams {
    pub workspace_id: String,
    pub object_id: String,
}

impl QueryCollabParams {
    pub open spec fn structurally_valid(&self) -> bool {
        self.workspace_id@.len() > 0 && self.object_id@.len() > 0
    }

    pub fn validate(&self) -> (r: Result<(), AppError>)
        ensures
            r is Ok <==> self.structurally_valid(),
            r matches Err(e) ==> e is Validation,
    {
        if self.workspace_id.as_str().is_empty() {
            Err(AppError::Validation("query params: empty workspace id".to_owned()))
        } else if self.object_id.as_str().is_empty() {
            Err(AppError::Validation("query params: empty object id".to_owned()))
        } else {
            Ok(())
        }
    }
}

/// The per-object outcome of a batched read.
#[derive(Clone, Debug)]
pub enum QueryCollabResult {
    Success { encode_collab_v1: Vec<u8> },
    Failed { error: String },
}

} // verus!
