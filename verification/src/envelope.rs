//! The inbound wire envelope: one client edit message, immutable once
//! received, whose payload is trusted only after its declared content hash
//! has been checked against a hash of the payload.

use vstd::prelude::*;
use crate::errors::AppError;
use crate::hashing::md5_hex;
use crate::hashing::md5_hex_of;

verus! {

/// The kind of an inbound client message.
#[derive(Clone, Copy, Debug, PartialEq, Eq, Structural)]
pub enum ClientRevisionWSDataType {
    /// A pushed revision (delta) to apply to the document.
    ClientPushRev,
    /// A liveness/freshness probe that may trigger a resync Pull.
    ClientPing,
}

/// One decoded client message: object and revision identity, kind, payload
/// bytes and the declared content hash of the payload.
#[derive(Clone, Debug)]
pub struct RevisionEnvelope {
    pub object_id: String,
    pub data_id: String,
    pub ty: ClientRevisionWSDataType,
    pub payload: Vec<u8>,
    pub content_hash: String,
}

impl RevisionEnvelope {
    /// The declared content hash matches a hash of the payload.
    pub open spec fn hash_matches(&self) -> bool {
        self.content_hash@ == md5_hex_of(self.payload@)
    }

    /// Builds an envelope whose declared content hash is the hash of
    /// `payload`, so that the integrity check accepts it.
    pub fn new_signed(
        object_id: String,
        data_id: String,
        ty: ClientRevisionWSDataType,
        payload: Vec<u8>,
    ) -> (e: RevisionEnvelope)
        ensures
            e.object_id == object_id,
            e.data_id == data_id,
            e.ty == ty,
            e.payload == payload,
            e.content_hash@ == md5_hex_of(payload@),
            e.hash_matches(),
    {
        let content_hash = md5_hex(&payload);
        RevisionEnvelope { object_id, data_id, ty, payload, content_hash }
    }

    /// Returns the hash of `payload` bytes, for callers that declare a
    /// content hash of their own.
    pub fn hash_of_payload(payload: &Vec<u8>) -> (r: String)
        ensures
            r@ == md5_hex_of(payload@),
    {
        md5_hex(payload)
    }
}

/// The integrity check: recomputes the payload's hash and compares it to the
/// declared content hash. A mismatch is an integrity failure; the payload
/// must not be trusted.
pub fn verify_md5(revision: &RevisionEnvelope) -> (r: Result<(), AppError>)
    ensures
        r is Ok <==> revision.hash_matches(),
        r matches Err(e) ==> e is Validation,
{
    let computed = md5_hex(&revision.payload);
    if computed == revision.content_hash {
        Ok(())
    } else {
        Err(AppError::Validation("revision md5 does not match".to_owned()))
    }
}

} // verus!
