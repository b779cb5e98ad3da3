use vstd::prelude::*;
use crate::digest::{compute_hash, content_hash};
use crate::error::RimError;
use crate::heads::{HeadStore, apply_spec, meta_head, tombstone_head};
use crate::meta::{BlobHead, BlobMeta, HeadKind, NodeInfo, PART_SIZE, PartEntry, TombstoneMeta, copy_opt_string};
use crate::range::{
    ReadByteRange, assemble_range, assembled, effective_part_size, first_part, last_part, part_byte_range,
    part_count_for, part_count_spec, part_views, slices_fit,
};

verus! {

/// A read of one blob of one slot.
#[derive(Debug)]
pub struct ReadBlobOperationRequest {
    pub slot_id: u16,
    pub path: String,
    pub replicas: Vec<NodeInfo>,
    pub local_node_id: String,
    pub include_body: bool,
    pub range: Option<ReadByteRange>,
}

/// A blob that was found, with the bytes asked for.
#[derive(Debug)]
pub struct ReadBlobOperationResult {
    pub meta: BlobMeta,
    pub body: Option<Vec<u8>>,
    pub body_range: Option<ReadByteRange>,
}

/// How a read ends.
#[derive(Debug)]
pub enum ReadBlobOperationOutcome {
    Found(ReadBlobOperationResult),
    NotFound,
    Deleted,
}

/// What a read does once its head is known.
#[derive(Debug)]
pub enum ReadPlan {
    /// The path has no head on any replica.
    NotFound,
    /// The current head is a tombstone.
    Deleted,
    /// Only the metadata was asked for.
    MetaOnly(BlobMeta),
    /// The blob is empty and the whole of it was asked for.
    EmptyBody(BlobMeta),
    /// The parts from `first_part` to `last_part` must be fetched, then cut to
    /// `range`.
    Parts { meta: BlobMeta, range: ReadByteRange, first_part: u64, last_part: u64, part_size: u64 },
}

/// Whether a head is a tombstone, so that a read of it returns no content.
pub open spec fn head_hides_content(head: BlobHead) -> bool {
    head.head_kind == HeadKind::Tombstone
}

/// A read of one blob: the decisions between the lookups and fetches that
/// the caller performs.
#[derive(Debug)]
pub struct ReadBlobOperation {
    pub request: ReadBlobOperationRequest,
}

impl ReadBlobOperation {
    /// A read that serves `request`.
    pub fn new(request: ReadBlobOperationRequest) -> (r: ReadBlobOperation)
        ensures
            r.request == request,
    {
        ReadBlobOperation { request }
    }

    /// The replicas other than this node, in their order, to ask in turn.
    pub fn peer_nodes(&self) -> (r: Vec<NodeInfo>)
        ensures
            r@ == self.request.replicas@.filter(|n: NodeInfo| n.node_id@ != self.request.local_node_id@),
    {
        let replicas = &self.request.replicas;
        let mut out: Vec<NodeInfo> = Vec::new();
        let mut i: usize = 0;
        while i < replicas.len()
            invariant
                i <= replicas@.len(),
                out@ == replicas@.take(i as int).filter(|n: NodeInfo| n.node_id@ != self.request.local_node_id@),
            decreases replicas@.len() - i,
        {
            let ghost pre = replicas@.take(i as int);
            assert(replicas@.take(i as int + 1).drop_last() =~= pre);
            reveal(Seq::filter);
            if replicas[i].node_id != self.request.local_node_id {
                out.push(replicas[i].copy());
            }
            i = i + 1;
        }
        assert(replicas@.take(replicas@.len() as int) =~= replicas@);
        out
    }

    /// Decide what the read does with the head that was found (`None` when
    /// no replica has one).
    pub fn plan(&self, head: Option<BlobHead>) -> (r: Result<ReadPlan, RimError>)
        ensures
            match head {
                None => r matches Ok(ReadPlan::NotFound),
                Some(h) => if h.head_kind == HeadKind::Tombstone {
                    r matches Ok(ReadPlan::Deleted)
                } else {
                    match h.meta {
                        None => r matches Err(RimError::Internal(_)),
                        Some(m) => plan_for_meta(r, m, self.request.include_body, self.request.range),
                    }
                },
            },
    {
        match head {
            None => Ok(ReadPlan::NotFound),
            Some(h) => {
                if h.head_kind == HeadKind::Tombstone {
                    return Ok(ReadPlan::Deleted);
                }
                match h.meta {
                    None => Err(RimError::Internal(String::from_str("meta payload missing"))),
                    Some(m) => plan_body(m, self.request.include_body, self.request.range),
                }
            },
        }
    }
}

/// What `plan_body` returns for `meta`.
pub open spec fn plan_for_meta(r: Result<ReadPlan, RimError>, meta: BlobMeta, include_body: bool, range: Option<ReadByteRange>) -> bool {
    if !include_body {
        r == Ok::<ReadPlan, RimError>(ReadPlan::MetaOnly(meta))
    } else if meta.size_bytes == 0 {
        if range is Some {
            r matches Err(RimError::InvalidRequest(_))
        } else {
            r == Ok::<ReadPlan, RimError>(ReadPlan::EmptyBody(meta))
        }
    } else {
        match range {
            Some(rg) if !(rg.start <= rg.end && rg.end < meta.size_bytes) => r matches Err(RimError::InvalidRequest(_)),
            _ => {
                let eff = match range {
                    Some(rg) => rg,
                    None => ReadByteRange { start: 0, end: (meta.size_bytes - 1) as u64 },
                };
                let ps = effective_part_size(meta.part_size);
                r == Ok::<ReadPlan, RimError>(ReadPlan::Parts {
                    meta,
                    range: eff,
                    first_part: first_part(eff.start as int, ps) as u64,
                    last_part: last_part(eff.end as int, ps) as u64,
                    part_size: ps as u64,
                })
            },
        }
    }
}

/// Decide which bytes of a blob a read returns: none when no body was
/// asked for, the empty body of an empty blob, or the parts that the
/// effective range touches. A range that is not within the blob is refused.
pub fn plan_body(meta: BlobMeta, include_body: bool, range: Option<ReadByteRange>) -> (r: Result<ReadPlan, RimError>)
    ensures
        plan_for_meta(r, meta, include_body, range),
{
    if !include_body {
        return Ok(ReadPlan::MetaOnly(meta));
    }
    if meta.size_bytes == 0 {
        if range.is_some() {
            return Err(RimError::InvalidRequest(String::from_str("range not satisfiable for empty blob")));
        }
        return Ok(ReadPlan::EmptyBody(meta));
    }
    let eff = match crate::range::resolve_effective_range(meta.size_bytes, range) {
        Ok(rg) => rg,
        Err(e) => {
            return Err(e);
        },
    };
    let ps: u64 = if meta.part_size == 0 { 1 } else { meta.part_size };
    let first = eff.start / ps;
    let last = eff.end / ps;
    Ok(ReadPlan::Parts { meta, range: eff, first_part: first, last_part: last, part_size: ps })
}

/// Cut the body of a read out of the parts that its plan named, fetched in
/// order from `first_part` to `last_part`.
pub fn finish_read(meta: BlobMeta, range: ReadByteRange, part_size: u64, parts: &Vec<Vec<u8>>) -> (r: Result<ReadBlobOperationOutcome, RimError>)
    requires
        part_size > 0,
        range.start <= range.end,
        parts@.len() == last_part(range.end as int, part_size as int) - first_part(range.start as int, part_size as int) + 1,
    ensures
        r is Ok <==> slices_fit(part_views(parts@), range.start as int, range.end as int, part_size as int),
        r is Err ==> r->Err_0 is Internal,
        r matches Ok(ReadBlobOperationOutcome::Found(res)) ==> res.meta == meta && res.body_range == Some(range)
            && res.body is Some && res.body->0@ == assembled(part_views(parts@), parts@.len() as int, range.start as int, range.end as int, part_size as int),
        r is Ok ==> r->Ok_0 is Found,
{
    match assemble_range(parts, range, part_size) {
        Ok(body) => Ok(ReadBlobOperationOutcome::Found(ReadBlobOperationResult { meta, body: Some(body), body_range: Some(range) })),
        Err(e) => Err(e),
    }
}

/// The archive URL to fetch a part from: the part entry's own, else the
/// blob's.
pub fn archive_url_for_part(entry: &Option<PartEntry>, meta: &BlobMeta) -> (r: Option<String>)
    ensures
        r == match entry {
            Some(e) if e.archive_url is Some => e.archive_url,
            _ => meta.archive_url,
        },
{
    match entry {
        Some(e) => match &e.archive_url {
            Some(u) => Some(u.clone()),
            None => copy_opt_string(&meta.archive_url),
        },
        None => copy_opt_string(&meta.archive_url),
    }
}

/// The SHA-256 recorded for fetched part bytes. Whatever a peer's header or
/// the index says, the recorded hash is the one computed over the bytes.
pub fn resolve_part_sha256(_header: Option<&str>, body: &[u8], _expected_sha256: Option<&str>) -> (r: String)
    ensures
        r@ == content_hash(body@),
{
    compute_hash(body)
}

/// Check bytes fetched from the archive for part `part_no`: their length
/// must be the part's, and their hash the expected one when one is known.
/// Returns their hash.
pub fn check_archive_part(meta: &BlobMeta, part_no: u32, bytes: &[u8], expected_sha256: Option<&str>) -> (r: Result<String, RimError>)
    ensures
        ({
            let ps = effective_part_size(meta.part_size);
            let start = part_no as int * ps;
            let end = if start + ps - 1 < meta.size_bytes - 1 { start + ps - 1 } else { meta.size_bytes - 1 };
            &&& (start >= meta.size_bytes ==> r matches Err(RimError::InvalidRequest(_)))
            &&& (start < meta.size_bytes && bytes@.len() != end - start + 1 ==> r matches Err(RimError::Internal(_)))
            &&& (start < meta.size_bytes && bytes@.len() == end - start + 1 ==> match expected_sha256 {
                Some(x) if x@ != content_hash(bytes@) => r matches Err(RimError::HashMismatch { .. }),
                _ => r is Ok && r->Ok_0@ == content_hash(bytes@),
            })
        }),
{
    let (start, end) = match part_byte_range(meta, part_no) {
        Ok(v) => v,
        Err(e) => {
            return Err(e);
        },
    };
    let expected_length = end - start + 1;
    if bytes.len() as u64 != expected_length {
        return Err(RimError::Internal(String::from_str("archive range length mismatch")));
    }
    let sha = compute_hash(bytes);
    match expected_sha256 {
        Some(x) => {
            let expected = String::from_str(x);
            if sha != expected {
                return Err(RimError::HashMismatch { expected, actual: sha });
            }
            Ok(sha)
        },
        None => Ok(sha),
    }
}

/// Whether bytes that a peer sent for a part are kept: their hash, when it
/// is the expected one or none is expected; `None` sends the read on to the
/// next peer.
pub fn accept_peer_part(bytes: &[u8], expected_sha256: Option<&str>) -> (r: Option<String>)
    ensures
        match expected_sha256 {
            Some(x) => if x@ == content_hash(bytes@) { r is Some && r->0@ == x@ } else { r is None },
            None => r is Some && r->0@ == content_hash(bytes@),
        },
{
    let sha = resolve_part_sha256(None, bytes, expected_sha256);
    match expected_sha256 {
        Some(x) => {
            let expected = String::from_str(x);
            if sha == expected {
                Some(sha)
            } else {
                None
            }
        },
        None => Some(sha),
    }
}

/// The index entry of a part whose bytes were just stored: its hash is the
/// one computed over those bytes.
pub fn part_entry_for(path: &str, generation: i64, part_no: u32, bytes: &[u8], local_path: Option<String>, archive_url: Option<String>) -> (r: PartEntry)
    ensures
        r.path@ == path@,
        r.generation == generation,
        r.part_no == part_no,
        r.sha256@ == content_hash(bytes@),
        r.length == bytes@.len(),
        r.external_path == local_path,
        r.archive_url == archive_url,
{
    PartEntry {
        path: String::from_str(path),
        generation,
        part_no,
        sha256: compute_hash(bytes),
        length: bytes.len() as u64,
        external_path: local_path,
        archive_url,
    }
}

/// The metadata of a head fetched from a peer, as this node stores it: the
/// path, slot and generation are the ones it is stored under, a missing
/// version is the generation, a missing part size is the default one, and a
/// missing part count is computed from the size.
pub open spec fn normalized_meta(meta: BlobMeta, path: String, slot_id: u16, generation: i64) -> BlobMeta {
    let part_size: u64 = if meta.part_size == 0 { PART_SIZE } else { meta.part_size };
    BlobMeta {
        path,
        slot_id,
        generation,
        version: if meta.version == 0 { generation } else { meta.version },
        part_size,
        part_count: if meta.part_count == 0 && meta.size_bytes > 0 {
            part_count_spec(meta.size_bytes as int, part_size as int) as u32
        } else {
            meta.part_count
        },
        ..meta
    }
}

/// Normalise the metadata of a head fetched from a peer; refused when its
/// part count does not fit a part number.
pub fn normalize_remote_meta(meta: BlobMeta, path: &str, slot_id: u16, generation: i64) -> (r: Result<BlobMeta, RimError>)
    ensures
        ({
            let part_size: u64 = if meta.part_size == 0 { PART_SIZE } else { meta.part_size };
            let needs_count = meta.part_count == 0 && meta.size_bytes > 0;
            &&& (r is Err <==> needs_count && part_count_spec(meta.size_bytes as int, part_size as int) > u32::MAX)
            &&& (r is Err ==> r->Err_0 is Internal)
            &&& (r is Ok ==> r->Ok_0 == normalized_meta(meta, r->Ok_0.path, slot_id, generation) && r->Ok_0.path@ == path@)
        }),
{
    let mut meta = meta;
    meta.path = String::from_str(path);
    meta.slot_id = slot_id;
    meta.generation = generation;
    if meta.version == 0 {
        meta.version = generation;
    }
    if meta.part_size == 0 {
        meta.part_size = PART_SIZE;
    }
    if meta.part_count == 0 && meta.size_bytes > 0 {
        let count = part_count_for(meta.size_bytes, meta.part_size);
        if count > u32::MAX as u64 {
            return Err(RimError::Internal(String::from_str("part count overflow")));
        }
        meta.part_count = count as u32;
    }
    Ok(meta)
}

/// Apply a head fetched from a peer to the local store of its slot, under
/// the store's rule that only a higher generation is taken. Refused when the
/// head lacks the payload that its kind calls for.
pub fn apply_remote_head_locally(store: &mut HeadStore, slot_id: u16, path: &str, head: &BlobHead) -> (r: Result<bool, RimError>)
    ensures
        match head.head_kind {
            HeadKind::Meta => match head.meta {
                None => r matches Err(RimError::Internal(_)) && final(store)@ == old(store)@,
                Some(m) => {
                    let part_size: u64 = if m.part_size == 0 { PART_SIZE } else { m.part_size };
                    if m.part_count == 0 && m.size_bytes > 0 && part_count_spec(m.size_bytes as int, part_size as int) > u32::MAX {
                        r matches Err(RimError::Internal(_)) && final(store)@ == old(store)@
                    } else {
                        exists|p: String| p@ == path@ && {
                            let h = meta_head(normalized_meta(m, p, slot_id, head.generation), head.head_sha256);
                            &&& final(store)@ == apply_spec(old(store)@, h)
                            &&& r == Ok::<bool, RimError>(final(store)@ != old(store)@)
                        }
                    }
                },
            },
            HeadKind::Tombstone => match head.tombstone {
                None => r matches Err(RimError::Internal(_)) && final(store)@ == old(store)@,
                Some(t) => exists|p: String| p@ == path@ && {
                    let h = tombstone_head(TombstoneMeta { path: p, slot_id, generation: head.generation, deleted_at: t.deleted_at }, head.head_sha256);
                    &&& final(store)@ == apply_spec(old(store)@, h)
                    &&& r == Ok::<bool, RimError>(final(store)@ != old(store)@)
                },
            },
        },
{
    match head.head_kind {
        HeadKind::Meta => {
            let m = match &head.meta {
                Some(m) => m.copy(),
                None => {
                    return Err(RimError::Internal(String::from_str("missing meta payload")));
                },
            };
            let meta = match normalize_remote_meta(m, path, slot_id, head.generation) {
                Ok(v) => v,
                Err(e) => {
                    return Err(e);
                },
            };
            let ghost p = meta.path;
            let applied = store.upsert_meta_with_payload(meta, head.head_sha256.clone());
            proof {
                if applied {
                    assert(final(store)@.len() == old(store)@.len() + 1);
                }
            }
            Ok(applied)
        },
        HeadKind::Tombstone => {
            let t = match &head.tombstone {
                Some(t) => t.copy(),
                None => {
                    return Err(RimError::Internal(String::from_str("missing tombstone payload")));
                },
            };
            let tombstone = TombstoneMeta { path: String::from_str(path), slot_id, generation: head.generation, deleted_at: t.deleted_at };
            let ghost p = tombstone.path;
            let applied = store.insert_tombstone_with_payload(tombstone, head.head_sha256.clone());
            proof {
                if applied {
                    assert(final(store)@.len() == old(store)@.len() + 1);
                }
            }
            Ok(applied)
        },
    }
}

/// The next thing that head discovery does.
#[derive(Debug, Clone, Copy, PartialEq, Eq, Structural)]
pub enum DiscoveryStep {
    /// The local store has a head: read it.
    UseLocal,
    /// Ask the peer at this position for its head.
    AskPeer(usize),
    /// The peer at this position has a head: apply it locally and read it.
    ApplyRemote(usize),
    /// No replica has a head.
    NotFound,
}

/// Position of the first `true` in `found`, or -1.
pub open spec fn first_found(found: Seq<bool>) -> int
    decreases found.len(),
{
    if found.len() == 0 {
        -1
    } else if found[0] {
        0
    } else {
        let rest = first_found(found.drop_first());
        if rest < 0 { -1 } else { rest + 1 }
    }
}

/// Head discovery: the local head when there is one, else the peers asked
/// one at a time in order until one has a head. `found` holds, in order,
/// whether each peer asked so far had one.
pub fn discovery_step(local_found: bool, found: &Vec<bool>, peer_count: usize) -> (r: DiscoveryStep)
    requires
        found@.len() <= peer_count,
    ensures
        r == if local_found {
            DiscoveryStep::UseLocal
        } else if first_found(found@) >= 0 {
            DiscoveryStep::ApplyRemote(first_found(found@) as usize)
        } else if found@.len() < peer_count {
            DiscoveryStep::AskPeer(found@.len() as usize)
        } else {
            DiscoveryStep::NotFound
        },
{
    if local_found {
        return DiscoveryStep::UseLocal;
    }
    let mut i: usize = 0;
    assert(found@.subrange(0, found@.len() as int) =~= found@);
    while i < found.len()
        invariant
            !local_found,
            i <= found@.len(),
            first_found(found@) == if first_found(found@.subrange(i as int, found@.len() as int)) < 0 { -1 } else {
                first_found(found@.subrange(i as int, found@.len() as int)) + i
            },
        decreases found@.len() - i,
    {
        let ghost rest = found@.subrange(i as int, found@.len() as int);
        assert(rest.drop_first() =~= found@.subrange(i as int + 1, found@.len() as int));
        assert(rest[0] == found@[i as int]);
        if found[i] {
            assert(rest.len() > 0 && rest[0]);
            assert(first_found(rest) == 0);
            assert(first_found(found@) == i as int);
            return DiscoveryStep::ApplyRemote(i);
        }
        i = i + 1;
    }
    assert(found@.subrange(found@.len() as int, found@.len() as int).len() == 0);
    if found.len() < peer_count {
        DiscoveryStep::AskPeer(found.len())
    } else {
        DiscoveryStep::NotFound
    }
}

/// Where a part is looked for once its local copy is missing or unreadable:
/// the archive URL to try first, if any, then the peers, asked by hash when
/// the index knows the part's hash and by position otherwise.
#[derive(Debug)]
pub struct PartSourcePlan {
    pub archive_url: Option<String>,
    pub expected_sha256: Option<String>,
}

/// Plan the remote sources of a part from its index entry, if any.
pub fn plan_part_sources(entry: &Option<PartEntry>, meta: &BlobMeta) -> (r: PartSourcePlan)
    ensures
        r.archive_url == match entry {
            Some(e) if e.archive_url is Some => e.archive_url,
            _ => meta.archive_url,
        },
        r.expected_sha256 == match entry {
            Some(e) => Some(e.sha256),
            None => None,
        },
{
    let archive_url = archive_url_for_part(entry, meta);
    let expected_sha256 = match entry {
        Some(e) => Some(e.sha256.clone()),
        None => None,
    };
    PartSourcePlan { archive_url, expected_sha256 }
}

/// The part numbers among `present` that are missing, in order.
pub open spec fn missing_parts_spec(present: Seq<bool>) -> Seq<u32>
    decreases present.len(),
{
    if present.len() == 0 {
        Seq::empty()
    } else {
        let rest = missing_parts_spec(present.drop_last());
        if present.last() { rest } else { rest.push((present.len() - 1) as u32) }
    }
}

/// The parts that a repair must fetch: those whose local copy is missing.
/// `present[k]` tells whether part `k` is already local.
pub fn parts_to_repair(present: &Vec<bool>) -> (r: Vec<u32>)
    requires
        present@.len() <= u32::MAX + 1,
    ensures
        r@ == missing_parts_spec(present@),
{
    let mut out: Vec<u32> = Vec::new();
    let mut i: usize = 0;
    assert(present@.take(0).len() == 0);
    while i < present.len()
        invariant
            i <= present@.len() <= u32::MAX + 1,
            out@ == missing_parts_spec(present@.take(i as int)),
        decreases present@.len() - i,
    {
        assert(present@.take(i as int + 1).drop_last() =~= present@.take(i as int));
        if !present[i] {
            out.push(i as u32);
        }
        i = i + 1;
    }
    assert(present@.take(present@.len() as int) =~= present@);
    out
}

} // verus!
