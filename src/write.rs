use vstd::prelude::*;
use crate::digest::{compute_hash, content_hash};
use crate::error::RimError;
use crate::heads::{HeadStore, current_generation};

verus! {

/// Reference from a blob to one of its chunks: the chunk's hash and length.
#[derive(Debug)]
pub struct ChunkRef {
    pub id: String,
    pub len: u64,
}

/// The references of the chunks of a blob, in order: each chunk's
/// hexadecimal SHA-256 and its length.
pub fn chunk_refs(chunks: &Vec<Vec<u8>>) -> (r: Vec<ChunkRef>)
    ensures
        r@.len() == chunks@.len(),
        forall|k: int| 0 <= k < r@.len() ==> (#[trigger] r@[k]).id@ == content_hash(chunks@[k]@) && r@[k].len == chunks@[k]@.len(),
{
    let mut out: Vec<ChunkRef> = Vec::new();
    let mut i: usize = 0;
    while i < chunks.len()
        invariant
            i <= chunks@.len(),
            out@.len() == i,
            forall|k: int| 0 <= k < i ==> (#[trigger] out@[k]).id@ == content_hash(chunks@[k]@) && out@[k].len == chunks@[k]@.len(),
        decreases chunks@.len() - i,
    {
        let chunk = &chunks[i];
        out.push(ChunkRef { id: compute_hash(chunk.as_slice()), len: chunk.len() as u64 });
        i = i + 1;
    }
    out
}

/// Refuse a write when fewer replicas are healthy than it needs.
pub fn check_write_replicas(healthy: usize, min_write_replicas: usize) -> (r: Result<(), RimError>)
    ensures
        r is Ok <==> healthy >= min_write_replicas,
        r is Err ==> r->Err_0 == (RimError::InsufficientReplicas { needed: min_write_replicas, found: healthy }),
{
    if healthy < min_write_replicas {
        Err(RimError::InsufficientReplicas { needed: min_write_replicas, found: healthy })
    } else {
        Ok(())
    }
}

/// Generation of a write: the requested one, else the path's next one.
pub fn write_generation(requested: Option<i64>, store: &HeadStore, path: &str) -> (r: Result<i64, RimError>)
    ensures
        match requested {
            Some(v) => r == Ok::<i64, RimError>(v),
            None => {
                let cur = current_generation(store@, path@);
                &&& (r is Ok <==> cur < i64::MAX)
                &&& (r is Ok ==> r->Ok_0 == (if cur > 0 { cur } else { 0 }) + 1)
                &&& (r is Err ==> r->Err_0 is Internal)
            },
        },
{
    match requested {
        Some(v) => Ok(v),
        None => store.next_generation(path),
    }
}

/// Version that a delete removes: the requested one, else the latest one;
/// a path with no version is not found.
pub fn delete_version(requested: Option<i64>, max_version: i64) -> (r: Result<i64, RimError>)
    ensures
        match requested {
            Some(v) => r == Ok::<i64, RimError>(v),
            None => if max_version > 0 { r == Ok::<i64, RimError>(max_version) } else { r matches Err(RimError::NotFound) },
        },
{
    match requested {
        Some(v) => Ok(v),
        None => {
            if max_version > 0 {
                Ok(max_version)
            } else {
                Err(RimError::NotFound)
            }
        },
    }
}

/// The contiguous run of slots `[start, end)` of the node at `my_index`
/// among `node_count` nodes: the slots divided evenly, the last node taking
/// the remainder. An unknown position counts as the first.
pub fn assign_slot_range(total_slots: u16, node_count: usize, my_index: Option<usize>) -> (r: (usize, usize))
    requires
        my_index matches Some(i) ==> i < node_count,
    ensures
        ({
            let count: int = if node_count == 0 { 1 } else { node_count as int };
            let per = total_slots as int / count;
            let idx: int = match my_index { Some(i) => i as int, None => 0 };
            &&& r.0 as int == idx * per
            &&& r.1 as int == if idx == count - 1 { total_slots as int } else { idx * per + per }
            &&& r.0 <= r.1 <= total_slots
        }),
{
    let count: usize = if node_count == 0 { 1 } else { node_count };
    let per: usize = total_slots as usize / count;
    let idx: usize = match my_index {
        Some(i) => i,
        None => 0,
    };
    proof {
        assert(idx * per + per <= count * per) by (nonlinear_arith) requires idx < count, per >= 0;
        assert(count * per <= total_slots) by (nonlinear_arith)
            requires per == total_slots as int / count as int, count > 0;
        assert(idx * per <= count * per) by (nonlinear_arith) requires idx < count, per >= 0;
    }
    let start = idx * per;
    let end = if idx == count - 1 { total_slots as usize } else { start + per };
    (start, end)
}

/// What storing a part does.
#[derive(Debug, Clone, Copy, PartialEq, Eq, Structural)]
pub enum PutPartDecision {
    /// The file is already there with the right content.
    Reuse,
    /// The bytes must be written to a temporary file and renamed into place.
    Write,
}

/// The decision for bytes `bytes` put under hash `sha256` when the file at
/// the final path has hash `existing` (`None`: no file); `None` when the
/// bytes do not hash to `sha256`.
pub open spec fn put_part_spec(existing: Option<Seq<char>>, sha256: Seq<char>, bytes: Seq<u8>) -> Option<PutPartDecision> {
    if content_hash(bytes) != sha256 {
        None
    } else {
        match existing {
            Some(e) if e == sha256 => Some(PutPartDecision::Reuse),
            _ => Some(PutPartDecision::Write),
        }
    }
}

/// Decide how to store part bytes under hash `sha256`, given the hash of the
/// file already at the part's final path (`None` when there is none). Bytes
/// whose hash is not `sha256` are refused.
pub fn put_part_decision(existing_sha256: Option<String>, sha256: &str, bytes: &[u8]) -> (r: Result<PutPartDecision, RimError>)
    ensures
        put_part_spec(crate::registry::opt_text(existing_sha256), sha256@, bytes@) is None ==> r matches Err(RimError::HashMismatch { .. }),
        put_part_spec(crate::registry::opt_text(existing_sha256), sha256@, bytes@) matches Some(d) ==> r == Ok::<PutPartDecision, RimError>(d),
{
    let actual = compute_hash(bytes);
    let expected = String::from_str(sha256);
    if actual != expected {
        return Err(RimError::HashMismatch { expected, actual });
    }
    match existing_sha256 {
        Some(e) => {
            if e == expected {
                Ok(PutPartDecision::Reuse)
            } else {
                Ok(PutPartDecision::Write)
            }
        },
        None => Ok(PutPartDecision::Write),
    }
}

/// Storing the same part twice reuses it the second time: a first put of
/// bytes under their own hash writes them (or finds them), after which the
/// file at the final path has that hash, and a second put of the same bytes
/// is a reuse.
pub proof fn lemma_second_put_reuses(existing: Option<Seq<char>>, bytes: Seq<u8>)
    ensures
        put_part_spec(existing, content_hash(bytes), bytes) is Some,
        put_part_spec(Some(content_hash(bytes)), content_hash(bytes), bytes) == Some(PutPartDecision::Reuse),
{
}

/// Offset in a blob of the first byte of chunk `k`: the lengths of the
/// chunks before it, summed.
pub open spec fn chunk_offset(chunks: Seq<ChunkRef>, k: int) -> int
    decreases k,
{
    if k <= 0 { 0 } else { chunk_offset(chunks, k - 1) + chunks[k - 1].len }
}

/// The part of one chunk that a byte range `[start, end)` covers: bytes
/// `lo..hi` of chunk `index`.
#[derive(Debug, Clone, Copy, PartialEq, Eq, Structural)]
pub struct ChunkSlice {
    pub index: usize,
    pub lo: u64,
    pub hi: u64,
}

/// The slices that `[start, end)` covers among the first `k` chunks, in
/// order: one for each chunk that overlaps the range.
pub open spec fn chunk_slices(chunks: Seq<ChunkRef>, k: int, start: int, end: int) -> Seq<ChunkSlice>
    decreases k,
{
    if k <= 0 {
        Seq::empty()
    } else {
        let rest = chunk_slices(chunks, k - 1, start, end);
        let c0 = chunk_offset(chunks, k - 1);
        let c1 = c0 + chunks[k - 1].len;
        if c1 > start && c0 < end {
            rest.push(ChunkSlice {
                index: (k - 1) as usize,
                lo: (if start > c0 { start - c0 } else { 0 }) as u64,
                hi: (if end < c1 { end - c0 } else { chunks[k - 1].len as int }) as u64,
            })
        } else {
            rest
        }
    }
}

proof fn lemma_chunk_offset_mono(chunks: Seq<ChunkRef>, i: int, j: int)
    requires
        0 <= i <= j <= chunks.len(),
    ensures
        chunk_offset(chunks, i) <= chunk_offset(chunks, j),
    decreases j - i,
{
    if i < j {
        lemma_chunk_offset_mono(chunks, i, j - 1);
    }
}

/// The chunk slices that a read of bytes `[start, end)` of a blob needs, in
/// order; chunks that the range does not touch are not read.
pub fn chunk_slices_for_range(chunks: &Vec<ChunkRef>, start: u64, end: u64) -> (r: Vec<ChunkSlice>)
    requires
        chunk_offset(chunks@, chunks@.len() as int) <= u64::MAX,
    ensures
        r@ == chunk_slices(chunks@, chunks@.len() as int, start as int, end as int),
{
    let mut out: Vec<ChunkSlice> = Vec::new();
    let mut pos: u64 = 0;
    let mut k: usize = 0;
    while k < chunks.len()
        invariant
            k <= chunks@.len(),
            chunk_offset(chunks@, chunks@.len() as int) <= u64::MAX,
            pos as int == chunk_offset(chunks@, k as int),
            out@ == chunk_slices(chunks@, k as int, start as int, end as int),
        decreases chunks@.len() - k,
    {
        proof {
            lemma_chunk_offset_mono(chunks@, k as int + 1, chunks@.len() as int);
        }
        let len = chunks[k].len;
        let chunk_end = pos + len;
        if chunk_end > start && pos < end {
            let lo: u64 = if start > pos { start - pos } else { 0 };
            let hi: u64 = if end < chunk_end { end - pos } else { len };
            out.push(ChunkSlice { index: k, lo, hi });
        }
        pos = chunk_end;
        k = k + 1;
    }
    out
}

} // verus!
