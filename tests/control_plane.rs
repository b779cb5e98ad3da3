use rimio::basic_registry::RegistryBuilder as BasicRegistryBuilder;
use rimio::bootstrap::BootstrapCell;
use rimio::config::{
    default_part_size, default_redis_pool_size, BootstrapState, Config, DiskConfig, InitialClusterConfig,
    InitialNodeConfig, RegistryBackend, RegistryConfig, ReplicationConfig,
};
use rimio::error::RimError;
use rimio::init_cluster::{
    bootstrap_outcome, ensure_local_layout, init_scan_feed, scan_entry_meta, InitClusterBootstrapState,
    InitClusterDiskConfig, InitClusterNodeConfig, InitClusterOperation, InitClusterOperationRequest,
    InitClusterReplicationConfig, InitClusterScanConfig, InitClusterScanEntry, InitClusterScanRedisMockConfig,
};
use rimio::meta::PartIndexState;
use rimio::digest::slot_for_key;
use rimio::path::{normalize_blob_path, normalize_scan_path};
use rimio::registry::{RegistryBuilder, RegistryPlan};
use rimio::text::{ascii_lowercase, trim_text};

fn node(id: &str, advertise: Option<&str>) -> InitialNodeConfig {
    InitialNodeConfig {
        node_id: id.to_string(),
        bind_addr: format!("{}:9000", id),
        advertise_addr: advertise.map(|a| a.to_string()),
        disks: vec![DiskConfig { path: format!("/disk/{}", id) }],
    }
}

fn config(current: &str, namespace: Option<&str>) -> Config {
    Config {
        current_node: current.to_string(),
        registry: RegistryConfig {
            backend: RegistryBackend::Redis,
            namespace: namespace.map(|n| n.to_string()),
            etcd: None,
            redis: None,
        },
        initial_cluster: InitialClusterConfig {
            nodes: vec![node("n1", None), node("n2", Some("pub:1"))],
            replication: ReplicationConfig { min_write_replicas: 2, total_slots: 4 },
        },
        archive: None,
        init_scan: None,
    }
}

fn init_node(id: &str) -> InitClusterNodeConfig {
    InitClusterNodeConfig {
        node_id: id.to_string(),
        bind_addr: "b".to_string(),
        advertise_addr: None,
        disks: vec![InitClusterDiskConfig { path: format!("/d/{}", id) }, InitClusterDiskConfig { path: "/e".to_string() }],
    }
}

fn init_state(nodes: Vec<InitClusterNodeConfig>) -> InitClusterBootstrapState {
    InitClusterBootstrapState {
        initialized_at: "t".to_string(),
        current_node: "n1".to_string(),
        nodes,
        replication: InitClusterReplicationConfig { min_write_replicas: 1, total_slots: 4 },
        archive: None,
        initialized_by: "n1".to_string(),
    }
}

#[test]
fn blob_path_normalisation() {
    assert_eq!(normalize_blob_path("/a/b/").unwrap(), "a/b");
    assert_eq!(normalize_blob_path("a").unwrap(), "a");
    assert_eq!(normalize_blob_path("a/.b/c..").unwrap(), "a/.b/c..");
    assert!(matches!(normalize_blob_path("///"), Err(RimError::InvalidRequest(_))));
    assert!(matches!(normalize_blob_path(""), Err(RimError::InvalidRequest(_))));
    assert!(matches!(normalize_blob_path("a//b"), Err(RimError::InvalidRequest(_))));
    assert!(matches!(normalize_blob_path("a/./b"), Err(RimError::InvalidRequest(_))));
    assert!(matches!(normalize_blob_path("a/.."), Err(RimError::InvalidRequest(_))));
    assert_eq!(normalize_scan_path("/x/y").unwrap(), "x/y");
}

#[test]
fn text_helpers() {
    assert_eq!(trim_text("  a b \t\n"), "a b");
    assert_eq!(trim_text("\u{3000}x\u{a0}"), "x");
    assert_eq!(ascii_lowercase("EtCd-Ä"), "etcd-Ä");
}

#[test]
fn registry_plans() {
    let etcd = RegistryBuilder::new()
        .backend(" ETCD ")
        .namespace(" prod ")
        .etcd_endpoints(vec!["http://e1".to_string()]);
    match etcd.plan().unwrap() {
        RegistryPlan::Etcd { endpoints, namespace } => {
            assert_eq!(endpoints, vec!["http://e1".to_string()]);
            assert_eq!(namespace, "prod");
        }
        other => panic!("unexpected {:?}", other),
    }
    let redis = RegistryBuilder::new().backend("redis").namespace("n").redis_url(" redis://r ");
    assert!(matches!(redis.plan().unwrap(), RegistryPlan::Redis { ref url, .. } if url == "redis://r"));
    let embed = RegistryBuilder::new()
        .backend("embed")
        .namespace("n")
        .embed_bind_addr(" 0.0.0.0:1 ")
        .embed_node_id("n1")
        .embed_advertise_addr("  ")
        .embed_seeds(vec![" s1 ".to_string(), "".to_string(), "s2".to_string()]);
    match embed.plan().unwrap() {
        RegistryPlan::Embed { bind_addr, advertise_addr, seeds, transport, .. } => {
            assert_eq!(bind_addr, "0.0.0.0:1");
            assert_eq!(advertise_addr, None);
            assert_eq!(seeds, vec!["s1".to_string(), "s2".to_string()]);
            assert_eq!(transport, "openraft");
        }
        other => panic!("unexpected {:?}", other),
    }
}

#[test]
fn registry_refusals() {
    assert!(matches!(RegistryBuilder::new().backend("etcd").plan(), Err(RimError::Config(_))));
    assert!(matches!(RegistryBuilder::new().namespace(" ").backend("etcd").resolve_namespace(), Err(RimError::Config(_))));
    assert!(matches!(RegistryBuilder::new().namespace("n").plan(), Err(RimError::Config(_))));
    assert!(matches!(
        RegistryBuilder::new().namespace("n").backend("etcd").etcd_endpoints(vec![]).plan(),
        Err(RimError::Config(_))
    ));
    assert!(matches!(RegistryBuilder::new().namespace("n").backend("redis").plan(), Err(RimError::Config(_))));
    assert!(matches!(RegistryBuilder::new().namespace("n").backend("zk").plan(), Err(RimError::Config(_))));
    assert!(matches!(
        RegistryBuilder::new().namespace("n").backend("embed").embed_transport("grpc").embed_bind_addr("a").embed_node_id("x").plan(),
        Err(RimError::Config(_))
    ));
    assert!(matches!(
        RegistryBuilder::new().namespace("n").backend("embed").embed_bind_addr("a").plan(),
        Err(RimError::Config(_))
    ));
    assert_eq!(RegistryBuilder::new().backend(" Redis ").resolve_backend().unwrap(), "redis");
}

#[test]
fn basic_registry_plans() {
    let b = BasicRegistryBuilder::new().backend("Redis").namespace("ns").redis_url("redis://h");
    assert!(matches!(b.plan().unwrap(), RegistryPlan::Redis { ref namespace, .. } if namespace == "ns"));
    assert!(matches!(BasicRegistryBuilder::new().backend("embed").namespace("ns").plan(), Err(RimError::Config(_))));
    let e = BasicRegistryBuilder::new().backend("etcd").namespace("ns").etcd_endpoints(vec!["e".to_string()]);
    assert!(matches!(e.plan().unwrap(), RegistryPlan::Etcd { .. }));
    assert_eq!(e.resolve_namespace().unwrap(), "ns");
}

#[test]
fn config_helpers() {
    assert_eq!(node("n1", None).effective_address(), "n1:9000");
    assert_eq!(node("n2", Some("pub:1")).effective_address(), "pub:1");
    assert_eq!(config("n1", None).registry.namespace_or_default(), "default");
    assert_eq!(config("n1", Some("  ")).registry.namespace_or_default(), "default");
    assert_eq!(config("n1", Some("prod")).registry.namespace_or_default(), "prod");
    assert_eq!(default_redis_pool_size(), 10);
    assert_eq!(default_part_size(), 67108864);
    let d = ReplicationConfig::default();
    assert_eq!((d.min_write_replicas, d.total_slots), (3, 2048));
}

#[test]
fn runtime_from_bootstrap_picks_own_node() {
    let cfg = config("n2", None);
    let state: BootstrapState = cfg.local_bootstrap_state("2024-01-01T00:00:00Z".to_string());
    assert_eq!(state.initialized_by, "n2");
    assert_eq!(state.nodes.len(), 2);
    let rt = cfg.runtime_from_bootstrap(&state).unwrap();
    assert_eq!(rt.node.node_id, "n2");
    assert_eq!(rt.node.advertise_addr, "pub:1");
    assert_eq!(rt.node.disks[0].path, "/disk/n2");
    assert_eq!(rt.replication.total_slots, 4);
    let stranger = config("n9", None);
    assert!(matches!(stranger.runtime_from_bootstrap(&state), Err(RimError::Config(_))));
}

#[test]
fn local_layout_and_outcome() {
    let state = init_state(vec![init_node("n1"), init_node("n2")]);
    let dirs = ensure_local_layout("n2", &state).unwrap();
    assert_eq!(dirs, vec!["/d/n2/amberio".to_string(), "/e/amberio".to_string()]);
    assert!(matches!(ensure_local_layout("n3", &state), Err(RimError::Config(_))));
    let result = bootstrap_outcome("n1", init_state(vec![init_node("n1")]), true).unwrap();
    assert!(result.won_bootstrap_race);
    assert!(matches!(bootstrap_outcome("n2", init_state(vec![init_node("n1")]), false), Err(RimError::Config(_))));
    assert_eq!(init_node("n1").effective_address(), "b");
}

#[test]
fn lost_bootstrap_race() {
    let mut cell = BootstrapCell::new();
    let first = b"{\"initialized_by\":\"n1\"}".to_vec();
    let second = b"{\"initialized_by\":\"n2\"}".to_vec();
    let won_first = cell.create_if_absent(&first);
    let won_second = cell.create_if_absent(&second);
    assert!(won_first);
    assert!(!won_second);
    assert_eq!(cell.get().unwrap(), first);
    assert_eq!(cell.get().unwrap(), cell.get().unwrap());
}

#[test]
fn proposal_from_request() {
    let request = InitClusterOperationRequest {
        current_node: "n1".to_string(),
        nodes: vec![init_node("n1")],
        replication: InitClusterReplicationConfig { min_write_replicas: 1, total_slots: 4 },
        archive: None,
        init_scan: Some(InitClusterScanConfig {
            enabled: true,
            redis_mock: Some(InitClusterScanRedisMockConfig { url: "redis://m".to_string(), list_key: "k".to_string() }),
        }),
    };
    let (state, scan) = request.into_proposal("now".to_string());
    assert_eq!(state.initialized_by, "n1");
    assert_eq!(state.initialized_at, "now");
    assert_eq!(init_scan_feed(&scan).unwrap(), ("redis://m".to_string(), "k".to_string()));
    let disabled = Some(InitClusterScanConfig { enabled: false, redis_mock: None });
    assert!(init_scan_feed(&disabled).is_none());
    let op = InitClusterOperation::new(BasicRegistryBuilder::new().backend("redis"));
    assert!(op.registry_builder.resolve_backend().is_ok());
}

#[test]
fn scan_entry_seeds_archive_meta() {
    let entry = InitClusterScanEntry {
        path: "/cold/k/".to_string(),
        size_bytes: 9,
        etag: "etag".to_string(),
        archive_url: "s3://x/k".to_string(),
        part_size: 4,
        updated_at: Some("2024-01-01T00:00:10Z".to_string()),
    };
    let m = scan_entry_meta(&entry, 2048, 1, 99).unwrap();
    assert_eq!(m.path, "cold/k");
    assert_eq!(m.slot_id, slot_for_key("cold/k", 2048));
    assert_eq!((m.generation, m.version, m.part_size, m.part_count), (1, 1, 4, 3));
    assert_eq!(m.part_index_state, PartIndexState::NotIndexed);
    assert_eq!(m.archive_url.as_deref(), Some("s3://x/k"));
    assert_eq!(m.updated_at, 1704067210);
    let undated = InitClusterScanEntry { updated_at: Some("yesterday".to_string()), part_size: 0, size_bytes: 0, ..entry };
    let m2 = scan_entry_meta(&undated, 2048, 2, 99).unwrap();
    assert_eq!((m2.updated_at, m2.part_size, m2.part_count), (99, 1, 0));
    let bad = InitClusterScanEntry {
        path: "a/../b".to_string(),
        size_bytes: 1,
        etag: String::new(),
        archive_url: String::new(),
        part_size: 1,
        updated_at: None,
    };
    assert!(matches!(scan_entry_meta(&bad, 4, 1, 0), Err(RimError::InvalidRequest(_))));
}
