use vstd::prelude::*;
use crate::basic_registry::RegistryBuilder;
use crate::digest::{slot_for_key, slot_for_key_spec};
use crate::error::RimError;
use crate::meta::{BlobMeta, PartIndexState};
use crate::path::{normalize_blob_path, trimmed, valid_trimmed_path};
use crate::range::{effective_part_size, part_count_for, part_count_spec};

verus! {

/// A data disk of a node.
#[derive(Debug)]
pub struct InitClusterDiskConfig {
    pub path: String,
}

/// A node of the cluster being bootstrapped.
#[derive(Debug)]
pub struct InitClusterNodeConfig {
    pub node_id: String,
    pub bind_addr: String,
    pub advertise_addr: Option<String>,
    pub disks: Vec<InitClusterDiskConfig>,
}

impl InitClusterNodeConfig {
    /// The address that peers reach this node at: the advertised one when
    /// set, else the bound one.
    pub fn effective_address(&self) -> (r: String)
        ensures
            r@ == match self.advertise_addr {
                Some(a) => a@,
                None => self.bind_addr@,
            },
    {
        match &self.advertise_addr {
            Some(a) => a.clone(),
            None => self.bind_addr.clone(),
        }
    }
}

/// Replication parameters of the cluster being bootstrapped.
#[derive(Debug, Clone, Copy, PartialEq, Eq, Structural)]
pub struct InitClusterReplicationConfig {
    pub min_write_replicas: usize,
    pub total_slots: u16,
}

/// The cold archive of the cluster being bootstrapped.
#[derive(Debug)]
pub struct InitClusterArchiveConfig {
    pub archive_type: String,
    pub s3: Option<InitClusterArchiveS3Config>,
}

/// An S3 bucket.
#[derive(Debug)]
pub struct InitClusterArchiveS3Config {
    pub bucket: String,
    pub region: String,
    pub credentials: InitClusterArchiveS3Credentials,
}

/// Credentials of an S3 bucket.
#[derive(Debug)]
pub struct InitClusterArchiveS3Credentials {
    pub access_key_id: String,
    pub secret_access_key: String,
}

/// The one-time import of a cold catalog.
#[derive(Debug)]
pub struct InitClusterScanConfig {
    pub enabled: bool,
    pub redis_mock: Option<InitClusterScanRedisMockConfig>,
}

/// A redis list that feeds the import.
#[derive(Debug)]
pub struct InitClusterScanRedisMockConfig {
    pub url: String,
    pub list_key: String,
}

/// One object of the import feed.
#[derive(Debug)]
pub struct InitClusterScanEntry {
    pub path: String,
    pub size_bytes: u64,
    pub etag: String,
    pub archive_url: String,
    pub part_size: u64,
    pub updated_at: Option<String>,
}

/// Part size of an imported object that names none: 64 MiB.
pub fn default_part_size() -> (r: u64)
    ensures
        r == 64 * 1024 * 1024,
{
    64 * 1024 * 1024
}

/// The agreed topology of a cluster, as the coordination store keeps it.
#[derive(Debug)]
pub struct InitClusterBootstrapState {
    pub initialized_at: String,
    pub current_node: String,
    pub nodes: Vec<InitClusterNodeConfig>,
    pub replication: InitClusterReplicationConfig,
    pub archive: Option<InitClusterArchiveConfig>,
    pub initialized_by: String,
}

/// What a node asks of the bootstrap.
#[derive(Debug)]
pub struct InitClusterOperationRequest {
    pub current_node: String,
    pub nodes: Vec<InitClusterNodeConfig>,
    pub replication: InitClusterReplicationConfig,
    pub archive: Option<InitClusterArchiveConfig>,
    pub init_scan: Option<InitClusterScanConfig>,
}

/// The agreed state and whether this node's proposal was the one kept.
#[derive(Debug)]
pub struct InitClusterOperationResult {
    pub bootstrap_state: InitClusterBootstrapState,
    pub won_bootstrap_race: bool,
}

/// The bootstrap of a cluster, through the coordination store that its
/// builder selects.
#[derive(Debug)]
pub struct InitClusterOperation {
    pub registry_builder: RegistryBuilder,
}

impl InitClusterOperation {
    /// A bootstrap through the store that `registry_builder` selects.
    pub fn new(registry_builder: RegistryBuilder) -> (r: InitClusterOperation)
        ensures
            r.registry_builder == registry_builder,
    {
        InitClusterOperation { registry_builder }
    }
}

impl InitClusterOperationRequest {
    /// Split a request into the state that it proposes, stamped with
    /// `initialized_at` and the node's name, and its import settings.
    pub fn into_proposal(self, initialized_at: String) -> (r: (InitClusterBootstrapState, Option<InitClusterScanConfig>))
        ensures
            r.0.initialized_at == initialized_at,
            r.0.current_node == self.current_node,
            r.0.initialized_by == self.current_node,
            r.0.nodes == self.nodes,
            r.0.replication == self.replication,
            r.0.archive == self.archive,
            r.1 == self.init_scan,
    {
        let by = self.current_node.clone();
        (
            InitClusterBootstrapState {
                initialized_at,
                current_node: self.current_node,
                nodes: self.nodes,
                replication: self.replication,
                archive: self.archive,
                initialized_by: by,
            },
            self.init_scan,
        )
    }
}

/// Index of the first node of `nodes` whose id is `id`, or -1.
pub open spec fn init_node_index(nodes: Seq<InitClusterNodeConfig>, id: Seq<char>) -> int
    decreases nodes.len(),
{
    if nodes.len() == 0 {
        -1
    } else if nodes[0].node_id@ == id {
        0
    } else {
        let rest = init_node_index(nodes.drop_first(), id);
        if rest < 0 { -1 } else { rest + 1 }
    }
}

proof fn lemma_init_node_index_bounds(nodes: Seq<InitClusterNodeConfig>, id: Seq<char>)
    ensures
        -1 <= init_node_index(nodes, id) < nodes.len(),
        init_node_index(nodes, id) >= 0 ==> nodes[init_node_index(nodes, id)].node_id@ == id,
    decreases nodes.len(),
{
    if nodes.len() > 0 && nodes[0].node_id@ != id {
        lemma_init_node_index_bounds(nodes.drop_first(), id);
    }
}

/// Position of the node `id` in `nodes`, the first that has that id.
pub fn find_init_node(nodes: &Vec<InitClusterNodeConfig>, id: &str) -> (r: Option<usize>)
    ensures
        r is Some <==> init_node_index(nodes@, id@) >= 0,
        r is Some ==> r->0 as int == init_node_index(nodes@, id@),
        r is Some ==> r->0 < nodes@.len(),
{
    proof {
        lemma_init_node_index_bounds(nodes@, id@);
    }
    let key = String::from_str(id);
    let mut i: usize = 0;
    assert(nodes@.subrange(0, nodes@.len() as int) =~= nodes@);
    while i < nodes.len()
        invariant
            i <= nodes@.len(),
            key@ == id@,
            init_node_index(nodes@, id@) == if init_node_index(nodes@.subrange(i as int, nodes@.len() as int), id@) < 0 { -1 } else {
                init_node_index(nodes@.subrange(i as int, nodes@.len() as int), id@) + i
            },
        decreases nodes@.len() - i,
    {
        let ghost rest = nodes@.subrange(i as int, nodes@.len() as int);
        assert(rest.drop_first() =~= nodes@.subrange(i as int + 1, nodes@.len() as int));
        if nodes[i].node_id == key {
            return Some(i);
        }
        i = i + 1;
    }
    None
}

/// Directory that the service keeps on a disk.
pub open spec fn service_dir(disk: Seq<char>) -> Seq<char> {
    disk + seq!['/', 'a', 'm', 'b', 'e', 'r', 'i', 'o']
}

/// The directories that this node must have under `bootstrap`: one on each
/// of its disks. Refused when the bootstrap state does not list the node.
pub fn ensure_local_layout(current_node: &str, bootstrap: &InitClusterBootstrapState) -> (r: Result<Vec<String>, RimError>)
    ensures
        r is Ok <==> init_node_index(bootstrap.nodes@, current_node@) >= 0,
        r is Err ==> r->Err_0 is Config,
        r is Ok ==> ({
            let disks = bootstrap.nodes@[init_node_index(bootstrap.nodes@, current_node@)].disks@;
            &&& r->Ok_0@.len() == disks.len()
            &&& forall|i: int| 0 <= i < disks.len() ==> #[trigger] r->Ok_0@[i]@ == service_dir(disks[i].path@)
        }),
{
    let idx = match find_init_node(&bootstrap.nodes, current_node) {
        Some(i) => i,
        None => {
            return Err(RimError::Config(String::from_str("current_node not found in initialized cluster")));
        },
    };
    let disks = &bootstrap.nodes[idx].disks;
    let mut dirs: Vec<String> = Vec::new();
    let mut i: usize = 0;
    proof {
        reveal_strlit("/amberio");
    }
    while i < disks.len()
        invariant
            i <= disks@.len(),
            dirs@.len() == i,
            forall|k: int| 0 <= k < i ==> #[trigger] dirs@[k]@ == service_dir(disks@[k].path@),
        decreases disks@.len() - i,
    {
        let dir = disks[i].path.clone().concat("/amberio");
        proof {
            reveal_strlit("/amberio");
        }
        assert("/amberio"@ =~= seq!['/', 'a', 'm', 'b', 'e', 'r', 'i', 'o']);
        dirs.push(dir);
        i = i + 1;
    }
    Ok(dirs)
}

/// The outcome of a bootstrap once the agreed state has been read back:
/// refused when that state does not list this node.
pub fn bootstrap_outcome(current_node: &str, active: InitClusterBootstrapState, won: bool) -> (r: Result<InitClusterOperationResult, RimError>)
    ensures
        r is Ok <==> init_node_index(active.nodes@, current_node@) >= 0,
        r is Err ==> r->Err_0 is Config,
        r is Ok ==> r->Ok_0.bootstrap_state == active && r->Ok_0.won_bootstrap_race == won,
{
    match find_init_node(&active.nodes, current_node) {
        Some(_) => Ok(InitClusterOperationResult { bootstrap_state: active, won_bootstrap_race: won }),
        None => Err(RimError::Config(String::from_str("current_node not found in initialized cluster"))),
    }
}

/// The import feed to drain after a won bootstrap: the redis list, when
/// the import is enabled and names one.
pub fn init_scan_feed(init_scan: &Option<InitClusterScanConfig>) -> (r: Option<(String, String)>)
    ensures
        r is Some <==> (init_scan is Some && init_scan->0.enabled && init_scan->0.redis_mock is Some),
        r matches Some((url, key)) ==> url == init_scan->0.redis_mock->0.url && key == init_scan->0.redis_mock->0.list_key,
{
    match init_scan {
        Some(scan) => {
            if !scan.enabled {
                return None;
            }
            match &scan.redis_mock {
                Some(mock) => Some((mock.url.clone(), mock.list_key.clone())),
                None => None,
            }
        },
        None => None,
    }
}

/// Seconds since the Unix epoch of an RFC 3339 timestamp, when it is one.
pub uninterp spec fn rfc3339_seconds(s: Seq<char>) -> Option<i64>;

/// Relies on `chrono::DateTime::parse_from_rfc3339` and `timestamp`: the
/// instant that an RFC 3339 text names, or none when it names none.
#[verifier::external_body]
fn parse_rfc3339_seconds(s: &str) -> (r: Option<i64>)
    ensures
        r == rfc3339_seconds(s@),
{
    match chrono::DateTime::parse_from_rfc3339(s) {
        Ok(t) => Some(t.timestamp()),
        Err(_) => None,
    }
}

/// When an imported object was last updated: its own timestamp when that
/// parses, else `now`.
pub open spec fn scan_updated_at(updated_at: Option<String>, now: i64) -> i64 {
    match updated_at {
        Some(s) => match rfc3339_seconds(s@) {
            Some(t) => t,
            None => now,
        },
        None => now,
    }
}

/// Whether an import feed entry can be seeded: its path is a valid blob
/// path and its part count fits a part number.
pub open spec fn seedable(entry: InitClusterScanEntry) -> bool {
    valid_trimmed_path(trimmed(entry.path@)) && part_count_spec(entry.size_bytes as int, effective_part_size(entry.part_size)) <= u32::MAX
}

/// Whether `m` is the metadata that `entry` seeds at `generation`, last
/// updated at `updated_at`, in a cluster of `total_slots` slots.
pub open spec fn seeded_meta(m: BlobMeta, entry: InitClusterScanEntry, total_slots: u16, generation: i64, updated_at: i64) -> bool {
    &&& m.path@ == trimmed(entry.path@)
    &&& m.slot_id as int == slot_for_key_spec(m.path@, total_slots)
    &&& m.generation == generation
    &&& m.version == generation
    &&& m.size_bytes == entry.size_bytes
    &&& m.etag == entry.etag
    &&& m.part_size as int == effective_part_size(entry.part_size)
    &&& m.part_count as int == part_count_spec(entry.size_bytes as int, effective_part_size(entry.part_size))
    &&& m.part_index_state == PartIndexState::NotIndexed
    &&& m.archive_url == Some(entry.archive_url)
    &&& m.updated_at == updated_at
}

/// The head metadata that an import feed entry seeds at `generation`, last
/// updated at `updated_at`: a blob known only through its archive URL, in
/// the slot of its normalised path. Refused when the path is not a valid
/// blob path, or when it has more parts than a part number can count.
pub fn seed_meta(entry: &InitClusterScanEntry, total_slots: u16, generation: i64, updated_at: i64) -> (r: Result<BlobMeta, RimError>)
    requires
        total_slots > 0,
    ensures
        r is Ok <==> seedable(*entry),
        r is Err ==> r->Err_0 is InvalidRequest,
        r is Ok ==> seeded_meta(r->Ok_0, *entry, total_slots, generation, updated_at),
{
    let path = match normalize_blob_path(entry.path.as_str()) {
        Ok(p) => p,
        Err(e) => {
            return Err(e);
        },
    };
    let slot_id = slot_for_key(path.as_str(), total_slots);
    let part_size: u64 = if entry.part_size == 0 { 1 } else { entry.part_size };
    let count = part_count_for(entry.size_bytes, entry.part_size);
    if count > u32::MAX as u64 {
        return Err(RimError::InvalidRequest(String::from_str("too many parts")));
    }
    Ok(BlobMeta {
        path,
        slot_id,
        generation,
        version: generation,
        size_bytes: entry.size_bytes,
        etag: entry.etag.clone(),
        part_size,
        part_count: count as u32,
        part_index_state: PartIndexState::NotIndexed,
        archive_url: Some(entry.archive_url.clone()),
        updated_at,
    })
}

/// The head metadata that an import feed entry seeds at `generation`: as
/// `seed_meta`, last updated at the entry's own timestamp when that parses,
/// else at `now`.
pub fn scan_entry_meta(entry: &InitClusterScanEntry, total_slots: u16, generation: i64, now: i64) -> (r: Result<BlobMeta, RimError>)
    requires
        total_slots > 0,
    ensures
        r is Ok <==> seedable(*entry),
        r is Err ==> r->Err_0 is InvalidRequest,
        r is Ok ==> seeded_meta(r->Ok_0, *entry, total_slots, generation, scan_updated_at(entry.updated_at, now)),
{
    let updated_at = match &entry.updated_at {
        Some(s) => match parse_rfc3339_seconds(s.as_str()) {
            Some(t) => t,
            None => now,
        },
        None => now,
    };
    seed_meta(entry, total_slots, generation, updated_at)
}

} // verus!
