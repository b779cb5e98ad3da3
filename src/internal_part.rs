use vstd::prelude::*;
use crate::digest::{compute_hash, content_hash};
use crate::error::RimError;

verus! {

/// A part that a peer pushes to this node.
#[derive(Debug)]
pub struct InternalPutPartOperationRequest {
    pub slot_id: u16,
    pub path: String,
    pub sha256: String,
    pub body: Vec<u8>,
    pub offset: u64,
    pub length: Option<u64>,
}

/// Whether the pushed part was already stored, and its hash.
#[derive(Debug)]
pub struct InternalPutPartOperationResult {
    pub reused: bool,
    pub sha256: String,
}

/// A part that a peer asks this node for, by hash and optionally by path.
#[derive(Debug)]
pub struct InternalGetPartOperationRequest {
    pub slot_id: u16,
    pub sha256: String,
    pub path: Option<String>,
}

/// The bytes of an asked-for part, or none.
#[derive(Debug)]
pub enum InternalGetPartOperationOutcome {
    Found(Vec<u8>),
    NotFound,
}

/// Where a blob's part lies within it and where it is kept.
#[derive(Debug)]
pub struct PartRef {
    pub name: String,
    pub sha256: String,
    pub offset: u64,
    pub length: u64,
    pub external_path: Option<String>,
    pub archive_url: Option<String>,
}

/// Peer-facing handling of parts: the checks and records around the
/// storage calls that the caller performs.
#[derive(Debug)]
pub struct InternalPartOperation {
    pub local_node_id: String,
}

impl InternalPartOperation {
    /// Part handling for the node `local_node_id`.
    pub fn new(local_node_id: String) -> (r: InternalPartOperation)
        ensures
            r.local_node_id == local_node_id,
    {
        InternalPartOperation { local_node_id }
    }

    /// Refuse a pushed part whose body does not hash to the hash it names.
    pub fn check_put(&self, request: &InternalPutPartOperationRequest) -> (r: Result<(), RimError>)
        ensures
            r is Ok <==> content_hash(request.body@) == request.sha256@,
            r is Err ==> r->Err_0 is InvalidRequest,
    {
        let actual = compute_hash(request.body.as_slice());
        if actual == request.sha256 {
            Ok(())
        } else {
            Err(RimError::InvalidRequest(String::from_str("part sha256 mismatch")))
        }
    }

    /// The index record of a pushed part once it is stored at `stored_path`:
    /// named `part.<sha256>`, with the length that the request gave, else
    /// the stored file's length.
    pub fn put_record(&self, request: &InternalPutPartOperationRequest, stored_path: String, stored_length: u64) -> (r: PartRef)
        ensures
            r.name@ == seq!['p', 'a', 'r', 't', '.'] + request.sha256@,
            r.sha256 == request.sha256,
            r.offset == request.offset,
            r.length == match request.length {
                Some(l) => l,
                None => stored_length,
            },
            r.external_path == Some(stored_path),
            r.archive_url is None,
    {
        proof {
            reveal_strlit("part.");
        }
        let name = String::from_str("part.").concat(request.sha256.as_str());
        let length = match request.length {
            Some(l) => l,
            None => stored_length,
        };
        PartRef {
            name,
            sha256: request.sha256.clone(),
            offset: request.offset,
            length,
            external_path: Some(stored_path),
            archive_url: None,
        }
    }

    /// What a pushed part's storage reports back.
    pub fn put_result(&self, request: &InternalPutPartOperationRequest, reused: bool) -> (r: InternalPutPartOperationResult)
        ensures
            r.reused == reused,
            r.sha256 == request.sha256,
    {
        InternalPutPartOperationResult { reused, sha256: request.sha256.clone() }
    }
}

} // verus!
