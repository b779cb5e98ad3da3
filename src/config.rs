use vstd::prelude::*;
use crate::error::RimError;
use crate::meta::copy_opt_string;
use crate::text::{copy_strings, trim_spec, trim_text};

verus! {

/// A data disk of a node.
#[derive(Debug)]
pub struct DiskConfig {
    pub path: String,
}

/// A node as the initial cluster configuration lists it.
#[derive(Debug)]
pub struct InitialNodeConfig {
    pub node_id: String,
    pub bind_addr: String,
    pub advertise_addr: Option<String>,
    pub disks: Vec<DiskConfig>,
}

/// The address that peers reach a node at: the advertised one when set,
/// else the bound one.
pub open spec fn effective_address_spec(advertise_addr: Option<String>, bind_addr: String) -> Seq<char> {
    match advertise_addr {
        Some(a) => a@,
        None => bind_addr@,
    }
}

impl InitialNodeConfig {
    /// The address that peers reach this node at.
    pub fn effective_address(&self) -> (r: String)
        ensures
            r@ == effective_address_spec(self.advertise_addr, self.bind_addr),
    {
        match &self.advertise_addr {
            Some(a) => a.clone(),
            None => self.bind_addr.clone(),
        }
    }

    /// A field-for-field copy.
    pub fn copy(&self) -> (r: InitialNodeConfig)
        ensures
            same_node(r, *self),
    {
        InitialNodeConfig {
            node_id: self.node_id.clone(),
            bind_addr: self.bind_addr.clone(),
            advertise_addr: copy_opt_string(&self.advertise_addr),
            disks: copy_disks(&self.disks),
        }
    }
}

/// Whether two node entries hold the same values.
pub open spec fn same_node(a: InitialNodeConfig, b: InitialNodeConfig) -> bool {
    &&& a.node_id == b.node_id
    &&& a.bind_addr == b.bind_addr
    &&& a.advertise_addr == b.advertise_addr
    &&& a.disks@ == b.disks@
}

/// Whether two lists of node entries hold the same values.
pub open spec fn same_nodes(a: Seq<InitialNodeConfig>, b: Seq<InitialNodeConfig>) -> bool {
    a.len() == b.len() && forall|i: int| 0 <= i < a.len() ==> #[trigger] same_node(a[i], b[i])
}

/// Whether two registry settings hold the same values.
pub open spec fn same_registry(a: RegistryConfig, b: RegistryConfig) -> bool {
    &&& a.backend == b.backend
    &&& a.namespace == b.namespace
    &&& a.redis == b.redis
    &&& match (a.etcd, b.etcd) {
        (Some(x), Some(y)) => x.endpoints@ == y.endpoints@,
        (None, None) => true,
        _ => false,
    }
}

/// Copy of a list of disks.
pub fn copy_disks(v: &Vec<DiskConfig>) -> (r: Vec<DiskConfig>)
    ensures
        r@ == v@,
{
    let mut out: Vec<DiskConfig> = Vec::new();
    let mut i: usize = 0;
    while i < v.len()
        invariant
            i <= v@.len(),
            out@ == v@.take(i as int),
        decreases v@.len() - i,
    {
        out.push(DiskConfig { path: v[i].path.clone() });
        assert(v@.take(i as int + 1) =~= v@.take(i as int).push(v@[i as int]));
        i = i + 1;
    }
    assert(v@.take(v@.len() as int) =~= v@);
    out
}

/// Copy of a list of nodes.
pub fn copy_nodes(v: &Vec<InitialNodeConfig>) -> (r: Vec<InitialNodeConfig>)
    ensures
        same_nodes(r@, v@),
{
    let mut out: Vec<InitialNodeConfig> = Vec::new();
    let mut i: usize = 0;
    while i < v.len()
        invariant
            i <= v@.len(),
            out@.len() == i,
            forall|k: int| 0 <= k < i ==> #[trigger] same_node(out@[k], v@[k]),
        decreases v@.len() - i,
    {
        out.push(v[i].copy());
        i = i + 1;
    }
    out
}

/// Nodes and replication of the cluster as first configured.
#[derive(Debug)]
pub struct InitialClusterConfig {
    pub nodes: Vec<InitialNodeConfig>,
    pub replication: ReplicationConfig,
}

/// What a node runs with once the cluster is bootstrapped.
#[derive(Debug)]
pub struct RuntimeConfig {
    pub node: RuntimeNodeConfig,
    pub replication: ReplicationConfig,
    pub registry: RegistryConfig,
    pub archive: Option<ArchiveConfig>,
}

/// The local node of a runtime configuration.
#[derive(Debug)]
pub struct RuntimeNodeConfig {
    pub node_id: String,
    pub bind_addr: String,
    pub advertise_addr: String,
    pub disks: Vec<DiskConfig>,
}

/// Which coordination store a node uses.
#[derive(Debug)]
pub struct RegistryConfig {
    pub backend: RegistryBackend,
    pub namespace: Option<String>,
    pub etcd: Option<EtcdConfig>,
    pub redis: Option<RedisConfig>,
}

/// The namespace that a registry setting names: its text unless that is
/// blank, else `default`.
pub open spec fn namespace_or_default_spec(namespace: Option<String>) -> Seq<char> {
    match namespace {
        Some(n) => if trim_spec(n@).len() > 0 { n@ } else { seq!['d', 'e', 'f', 'a', 'u', 'l', 't'] },
        None => seq!['d', 'e', 'f', 'a', 'u', 'l', 't'],
    }
}

impl RegistryConfig {
    /// The namespace, or `default` when it is unset or blank.
    pub fn namespace_or_default(&self) -> (r: String)
        ensures
            r@ == namespace_or_default_spec(self.namespace),
    {
        proof {
            reveal_strlit("default");
        }
        match &self.namespace {
            Some(n) => {
                let t = trim_text(n.as_str());
                if t.unicode_len() > 0 {
                    n.clone()
                } else {
                    String::from_str("default")
                }
            },
            None => String::from_str("default"),
        }
    }

    /// A field-for-field copy.
    pub fn copy(&self) -> (r: RegistryConfig)
        ensures
            same_registry(r, *self),
    {
        RegistryConfig {
            backend: self.backend,
            namespace: copy_opt_string(&self.namespace),
            etcd: match &self.etcd {
                Some(e) => Some(EtcdConfig { endpoints: copy_strings(&e.endpoints) }),
                None => None,
            },
            redis: match &self.redis {
                Some(r) => Some(RedisConfig { url: r.url.clone(), pool_size: r.pool_size }),
                None => None,
            },
        }
    }
}

/// The coordination store kinds that a node can be configured with.
#[derive(Debug, Clone, Copy, PartialEq, Eq, Structural)]
pub enum RegistryBackend {
    Etcd,
    Redis,
}

/// Endpoints of an etcd cluster.
#[derive(Debug)]
pub struct EtcdConfig {
    pub endpoints: Vec<String>,
}

/// A redis server and the size of its connection pool.
#[derive(Debug)]
pub struct RedisConfig {
    pub url: String,
    pub pool_size: usize,
}

/// Connection pool size used where none is configured.
pub fn default_redis_pool_size() -> (r: usize)
    ensures
        r == 10,
{
    10
}

/// The cold archive of a cluster.
#[derive(Debug)]
pub struct ArchiveConfig {
    pub archive_type: String,
    pub s3: Option<S3Config>,
}

impl ArchiveConfig {
    /// A field-for-field copy.
    pub fn copy(&self) -> (r: ArchiveConfig)
        ensures
            r == *self,
    {
        ArchiveConfig {
            archive_type: self.archive_type.clone(),
            s3: match &self.s3 {
                Some(s) => Some(
                    S3Config {
                        bucket: s.bucket.clone(),
                        region: s.region.clone(),
                        credentials: S3Credentials {
                            access_key_id: s.credentials.access_key_id.clone(),
                            secret_access_key: s.credentials.secret_access_key.clone(),
                        },
                    },
                ),
                None => None,
            },
        }
    }
}

/// Copy of an optional archive configuration.
pub fn copy_archive(a: &Option<ArchiveConfig>) -> (r: Option<ArchiveConfig>)
    ensures
        r == *a,
{
    match a {
        Some(a) => Some(a.copy()),
        None => None,
    }
}

/// An S3 bucket.
#[derive(Debug)]
pub struct S3Config {
    pub bucket: String,
    pub region: String,
    pub credentials: S3Credentials,
}

/// Credentials of an S3 bucket.
#[derive(Debug)]
pub struct S3Credentials {
    pub access_key_id: String,
    pub secret_access_key: String,
}

/// Replication parameters of a cluster.
#[derive(Debug, Clone, Copy, PartialEq, Eq, Structural)]
pub struct ReplicationConfig {
    pub min_write_replicas: usize,
    pub total_slots: u16,
}

impl Default for ReplicationConfig {
    fn default() -> (r: ReplicationConfig)
        ensures
            r.min_write_replicas == 3,
            r.total_slots == 2048,
    {
        ReplicationConfig { min_write_replicas: 3, total_slots: 2048 }
    }
}

/// The one-time import of a cold catalog at bootstrap.
#[derive(Debug)]
pub struct InitScanConfig {
    pub enabled: bool,
    pub redis_mock: Option<InitScanRedisMockConfig>,
}

/// A redis list that feeds the import.
#[derive(Debug)]
pub struct InitScanRedisMockConfig {
    pub url: String,
    pub list_key: String,
}

/// One object of the import feed.
#[derive(Debug)]
pub struct InitScanEntry {
    pub path: String,
    pub size_bytes: u64,
    pub etag: String,
    pub archive_url: String,
    pub part_size: u64,
    pub updated_at: Option<String>,
}

/// Part size of an imported object that names none: 64 MiB.
pub fn default_part_size() -> (r: u64)
    ensures
        r == 64 * 1024 * 1024,
{
    64 * 1024 * 1024
}

/// The agreed topology of a cluster.
#[derive(Debug)]
pub struct BootstrapState {
    pub initialized_at: String,
    pub current_node: String,
    pub nodes: Vec<InitialNodeConfig>,
    pub replication: ReplicationConfig,
    pub archive: Option<ArchiveConfig>,
    pub initialized_by: String,
}

/// A node's whole configuration.
#[derive(Debug)]
pub struct Config {
    pub current_node: String,
    pub registry: RegistryConfig,
    pub initial_cluster: InitialClusterConfig,
    pub archive: Option<ArchiveConfig>,
    pub init_scan: Option<InitScanConfig>,
}

/// Index of the first node of `nodes` whose id is `id`, or -1.
pub open spec fn node_index(nodes: Seq<InitialNodeConfig>, id: Seq<char>) -> int
    decreases nodes.len(),
{
    if nodes.len() == 0 {
        -1
    } else if nodes[0].node_id@ == id {
        0
    } else {
        let rest = node_index(nodes.drop_first(), id);
        if rest < 0 { -1 } else { rest + 1 }
    }
}

proof fn lemma_node_index_bounds(nodes: Seq<InitialNodeConfig>, id: Seq<char>)
    ensures
        -1 <= node_index(nodes, id) < nodes.len(),
        node_index(nodes, id) >= 0 ==> nodes[node_index(nodes, id)].node_id@ == id,
    decreases nodes.len(),
{
    if nodes.len() > 0 && nodes[0].node_id@ != id {
        lemma_node_index_bounds(nodes.drop_first(), id);
    }
}

/// Position of the node `id` in `nodes`, the first that has that id.
pub fn find_node_index(nodes: &Vec<InitialNodeConfig>, id: &String) -> (r: Option<usize>)
    ensures
        r is Some <==> node_index(nodes@, id@) >= 0,
        r is Some ==> r->0 as int == node_index(nodes@, id@),
{
    let mut i: usize = 0;
    assert(nodes@.subrange(0, nodes@.len() as int) =~= nodes@);
    while i < nodes.len()
        invariant
            i <= nodes@.len(),
            node_index(nodes@, id@) == if node_index(nodes@.subrange(i as int, nodes@.len() as int), id@) < 0 { -1 } else {
                node_index(nodes@.subrange(i as int, nodes@.len() as int), id@) + i
            },
        decreases nodes@.len() - i,
    {
        let ghost rest = nodes@.subrange(i as int, nodes@.len() as int);
        assert(rest.drop_first() =~= nodes@.subrange(i as int + 1, nodes@.len() as int));
        if nodes[i].node_id == *id {
            return Some(i);
        }
        i = i + 1;
    }
    None
}

impl Config {
    /// The configuration that this node runs with under `bootstrap`: its own
    /// entry there, the agreed replication and archive, and its own registry
    /// settings. Refused when the bootstrap state does not list this node.
    pub fn runtime_from_bootstrap(&self, bootstrap: &BootstrapState) -> (r: Result<RuntimeConfig, RimError>)
        ensures
            r is Ok <==> node_index(bootstrap.nodes@, self.current_node@) >= 0,
            r is Err ==> r->Err_0 is Config,
            r is Ok ==> ({
                let node = bootstrap.nodes@[node_index(bootstrap.nodes@, self.current_node@)];
                let rt = r->Ok_0;
                &&& rt.node.node_id == node.node_id
                &&& rt.node.bind_addr == node.bind_addr
                &&& rt.node.advertise_addr@ == effective_address_spec(node.advertise_addr, node.bind_addr)
                &&& rt.node.disks@ == node.disks@
                &&& rt.replication == bootstrap.replication
                &&& same_registry(rt.registry, self.registry)
                &&& rt.archive == bootstrap.archive
            }),
    {
        let idx = match find_node_index(&bootstrap.nodes, &self.current_node) {
            Some(i) => i,
            None => {
                return Err(RimError::Config(String::from_str("current_node not found in bootstrap nodes")));
            },
        };
        proof {
            lemma_node_index_bounds(bootstrap.nodes@, self.current_node@);
        }
        let node = &bootstrap.nodes[idx];
        Ok(RuntimeConfig {
            node: RuntimeNodeConfig {
                node_id: node.node_id.clone(),
                bind_addr: node.bind_addr.clone(),
                advertise_addr: node.effective_address(),
                disks: copy_disks(&node.disks),
            },
            replication: bootstrap.replication,
            registry: self.registry.copy(),
            archive: copy_archive(&bootstrap.archive),
        })
    }

    /// The bootstrap state that this node proposes: its initial cluster,
    /// stamped with `initialized_at` and its own name.
    pub fn local_bootstrap_state(&self, initialized_at: String) -> (r: BootstrapState)
        ensures
            r.initialized_at == initialized_at,
            r.current_node == self.current_node,
            r.initialized_by == self.current_node,
            same_nodes(r.nodes@, self.initial_cluster.nodes@),
            r.replication == self.initial_cluster.replication,
            r.archive == self.archive,
    {
        BootstrapState {
            initialized_at,
            current_node: self.current_node.clone(),
            nodes: copy_nodes(&self.initial_cluster.nodes),
            replication: self.initial_cluster.replication,
            archive: copy_archive(&self.archive),
            initialized_by: self.current_node.clone(),
        }
    }
}

impl Config {
    /// The directories that this node must have under `bootstrap`: one on
    /// each of its disks. Refused when the bootstrap state does not list the
    /// node.
    pub fn local_layout_dirs(&self, bootstrap: &BootstrapState) -> (r: Result<Vec<String>, RimError>)
        ensures
            r is Ok <==> node_index(bootstrap.nodes@, self.current_node@) >= 0,
            r is Err ==> r->Err_0 is Config,
            r is Ok ==> ({
                let disks = bootstrap.nodes@[node_index(bootstrap.nodes@, self.current_node@)].disks@;
                &&& r->Ok_0@.len() == disks.len()
                &&& forall|i: int| 0 <= i < disks.len() ==> #[trigger] r->Ok_0@[i]@ == crate::init_cluster::service_dir(disks[i].path@)
            }),
    {
        let idx = match find_node_index(&bootstrap.nodes, &self.current_node) {
            Some(i) => i,
            None => {
                return Err(RimError::Config(String::from_str("current_node not found in initialized cluster")));
            },
        };
        proof {
            lemma_node_index_bounds(bootstrap.nodes@, self.current_node@);
        }
        let disks = &bootstrap.nodes[idx].disks;
        let mut dirs: Vec<String> = Vec::new();
        let mut i: usize = 0;
        while i < disks.len()
            invariant
                i <= disks@.len(),
                dirs@.len() == i,
                forall|k: int| 0 <= k < i ==> #[trigger] dirs@[k]@ == crate::init_cluster::service_dir(disks@[k].path@),
            decreases disks@.len() - i,
        {
            let dir = disks[i].path.clone().concat("/amberio");
            proof {
                reveal_strlit("/amberio");
            }
            assert("/amberio"@ =~= seq!['/', 'a', 'm', 'b', 'e', 'r', 'i', 'o']);
            dirs.push(dir);
            i = i + 1;
        }
        Ok(dirs)
    }
}

} // verus!
