use vstd::prelude::*;

verus! {

/// Part size used where a record does not name one: 64 MiB.
pub const PART_SIZE: u64 = 67108864;

/// Whether a head carries a blob or marks its deletion.
#[derive(Debug, Clone, Copy, PartialEq, Eq, Structural)]
pub enum HeadKind {
    Meta,
    Tombstone,
}

/// Whether the parts of a generation have been indexed locally.
#[derive(Debug, Clone, Copy, PartialEq, Eq, Structural)]
pub enum PartIndexState {
    NotIndexed,
    Indexed,
}

/// Metadata of one generation of a blob.
#[derive(Debug)]
pub struct BlobMeta {
    pub path: String,
    pub slot_id: u16,
    pub generation: i64,
    pub version: i64,
    pub size_bytes: u64,
    pub etag: String,
    pub part_size: u64,
    pub part_count: u32,
    pub part_index_state: PartIndexState,
    pub archive_url: Option<String>,
    /// Seconds since the Unix epoch, UTC.
    pub updated_at: i64,
}

/// The deletion of a path at a generation.
#[derive(Debug)]
pub struct TombstoneMeta {
    pub path: String,
    pub slot_id: u16,
    pub generation: i64,
    /// Seconds since the Unix epoch, UTC.
    pub deleted_at: i64,
}

/// One head record of a path: a blob generation or a tombstone.
#[derive(Debug)]
pub struct BlobHead {
    pub path: String,
    pub generation: i64,
    pub head_kind: HeadKind,
    pub head_sha256: String,
    /// Seconds since the Unix epoch, UTC.
    pub updated_at: i64,
    pub meta: Option<BlobMeta>,
    pub tombstone: Option<TombstoneMeta>,
}

/// Index entry of one stored part.
#[derive(Debug)]
pub struct PartEntry {
    pub path: String,
    pub generation: i64,
    pub part_no: u32,
    pub sha256: String,
    pub length: u64,
    pub external_path: Option<String>,
    pub archive_url: Option<String>,
}

/// A node of the cluster as peers see it.
#[derive(Debug)]
pub struct NodeInfo {
    pub node_id: String,
    pub address: String,
}

/// Copy of an optional string.
pub fn copy_opt_string(s: &Option<String>) -> (r: Option<String>)
    ensures
        r == *s,
{
    match s {
        Some(v) => Some(v.clone()),
        None => None,
    }
}

impl BlobMeta {
    /// A field-for-field copy.
    pub fn copy(&self) -> (r: BlobMeta)
        ensures
            r == *self,
    {
        BlobMeta {
            path: self.path.clone(),
            slot_id: self.slot_id,
            generation: self.generation,
            version: self.version,
            size_bytes: self.size_bytes,
            etag: self.etag.clone(),
            part_size: self.part_size,
            part_count: self.part_count,
            part_index_state: self.part_index_state,
            archive_url: copy_opt_string(&self.archive_url),
            updated_at: self.updated_at,
        }
    }
}

impl TombstoneMeta {
    /// A field-for-field copy.
    pub fn copy(&self) -> (r: TombstoneMeta)
        ensures
            r == *self,
    {
        TombstoneMeta {
            path: self.path.clone(),
            slot_id: self.slot_id,
            generation: self.generation,
            deleted_at: self.deleted_at,
        }
    }
}

impl BlobHead {
    /// A field-for-field copy.
    pub fn copy(&self) -> (r: BlobHead)
        ensures
            r == *self,
    {
        let meta = match &self.meta {
            Some(m) => Some(m.copy()),
            None => None,
        };
        let tombstone = match &self.tombstone {
            Some(t) => Some(t.copy()),
            None => None,
        };
        BlobHead {
            path: self.path.clone(),
            generation: self.generation,
            head_kind: self.head_kind,
            head_sha256: self.head_sha256.clone(),
            updated_at: self.updated_at,
            meta,
            tombstone,
        }
    }
}

impl NodeInfo {
    /// A field-for-field copy.
    pub fn copy(&self) -> (r: NodeInfo)
        ensures
            r == *self,
    {
        NodeInfo { node_id: self.node_id.clone(), address: self.address.clone() }
    }
}

} // verus!
