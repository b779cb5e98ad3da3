use rimio::config::{BootstrapState, Config, DiskConfig, InitialClusterConfig, InitialNodeConfig, RegistryBackend, RegistryConfig, ReplicationConfig};
use rimio::error::RimError;
use rimio::heads::HeadStore;
use rimio::init_cluster::{seed_meta, InitClusterScanEntry};
use rimio::meta::{BlobMeta, PartEntry, PartIndexState, TombstoneMeta};
use rimio::read_blob::{discovery_step, parts_to_repair, plan_part_sources, DiscoveryStep};

fn meta(path: &str, generation: i64) -> BlobMeta {
    BlobMeta {
        path: path.to_string(),
        slot_id: 0,
        generation,
        version: generation,
        size_bytes: 1,
        etag: String::new(),
        part_size: 4,
        part_count: 1,
        part_index_state: PartIndexState::Indexed,
        archive_url: Some("s3://b/o".to_string()),
        updated_at: 0,
    }
}

#[test]
fn list_current_heads_by_prefix() {
    let mut store = HeadStore::new();
    assert!(store.upsert_meta_with_payload(meta("a/1", 1), "s".to_string()));
    assert!(store.upsert_meta_with_payload(meta("a/2", 1), "s".to_string()));
    assert!(store.upsert_meta_with_payload(meta("b/1", 1), "s".to_string()));
    assert!(store.upsert_meta_with_payload(meta("a/1", 2), "s".to_string()));
    assert!(store.insert_tombstone_with_payload(
        TombstoneMeta { path: "a/2".to_string(), slot_id: 0, generation: 2, deleted_at: 0 },
        "t".to_string()
    ));
    let live: Vec<(String, i64)> = store.list_heads("a/", 10, false).into_iter().map(|h| (h.path, h.generation)).collect();
    assert_eq!(live, vec![("a/1".to_string(), 2)]);
    let all: Vec<(String, i64)> = store.list_heads("a/", 10, true).into_iter().map(|h| (h.path, h.generation)).collect();
    assert_eq!(all, vec![("a/1".to_string(), 2), ("a/2".to_string(), 2)]);
    assert_eq!(store.list_heads("", 2, true).len(), 2);
    assert_eq!(store.list_heads("", 0, true).len(), 0);
    assert_eq!(store.latest_generation(), 2);
    assert_eq!(HeadStore::new().latest_generation(), 0);
}

#[test]
fn head_discovery_steps() {
    assert_eq!(discovery_step(true, &vec![], 2), DiscoveryStep::UseLocal);
    assert_eq!(discovery_step(false, &vec![], 2), DiscoveryStep::AskPeer(0));
    assert_eq!(discovery_step(false, &vec![false], 2), DiscoveryStep::AskPeer(1));
    assert_eq!(discovery_step(false, &vec![false, true], 2), DiscoveryStep::ApplyRemote(1));
    assert_eq!(discovery_step(false, &vec![false, false], 2), DiscoveryStep::NotFound);
    assert_eq!(discovery_step(false, &vec![], 0), DiscoveryStep::NotFound);
}

#[test]
fn part_source_plans() {
    let m = meta("p", 1);
    let none = plan_part_sources(&None, &m);
    assert_eq!(none.archive_url.as_deref(), Some("s3://b/o"));
    assert!(none.expected_sha256.is_none());
    let entry = PartEntry {
        path: "p".to_string(),
        generation: 1,
        part_no: 0,
        sha256: "abc".to_string(),
        length: 1,
        external_path: None,
        archive_url: None,
    };
    let with_entry = plan_part_sources(&Some(entry), &m);
    assert_eq!(with_entry.archive_url.as_deref(), Some("s3://b/o"));
    assert_eq!(with_entry.expected_sha256.as_deref(), Some("abc"));
}

#[test]
fn repair_fetches_missing_parts() {
    assert_eq!(parts_to_repair(&vec![true, false, true, false]), vec![1, 3]);
    assert_eq!(parts_to_repair(&vec![]), Vec::<u32>::new());
}

#[test]
fn seeding_with_given_time() {
    let entry = InitClusterScanEntry {
        path: "k".to_string(),
        size_bytes: u64::MAX,
        etag: String::new(),
        archive_url: "s3://x/k".to_string(),
        part_size: 1,
        updated_at: None,
    };
    assert!(matches!(seed_meta(&entry, 4, 1, 7), Err(RimError::InvalidRequest(_))));
    let ok = InitClusterScanEntry { size_bytes: 10, part_size: 3, ..entry };
    let m = seed_meta(&ok, 4, 1, 7).unwrap();
    assert_eq!((m.part_count, m.updated_at), (4, 7));
}

#[test]
fn layout_dirs_for_config() {
    let node = InitialNodeConfig {
        node_id: "n1".to_string(),
        bind_addr: "b".to_string(),
        advertise_addr: None,
        disks: vec![DiskConfig { path: "/d1".to_string() }],
    };
    let cfg = Config {
        current_node: "n1".to_string(),
        registry: RegistryConfig { backend: RegistryBackend::Etcd, namespace: None, etcd: None, redis: None },
        initial_cluster: InitialClusterConfig {
            nodes: vec![node],
            replication: ReplicationConfig { min_write_replicas: 1, total_slots: 4 },
        },
        archive: None,
        init_scan: None,
    };
    let state: BootstrapState = cfg.local_bootstrap_state("t".to_string());
    assert_eq!(cfg.local_layout_dirs(&state).unwrap(), vec!["/d1/amberio".to_string()]);
    let other = Config { current_node: "n2".to_string(), ..cfg };
    assert!(matches!(other.local_layout_dirs(&state), Err(RimError::Config(_))));
}
