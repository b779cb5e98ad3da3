use rimio::digest::compute_hash;
use rimio::error::RimError;
use rimio::heads::HeadStore;
use rimio::meta::{BlobHead, BlobMeta, HeadKind, NodeInfo, PartEntry, PartIndexState, TombstoneMeta, PART_SIZE};
use rimio::range::{assemble_range, part_byte_range, resolve_effective_range, split_into_parts, ReadByteRange};
use rimio::read_blob::{
    accept_peer_part, apply_remote_head_locally, archive_url_for_part, check_archive_part, finish_read,
    normalize_remote_meta, part_entry_for, plan_body, resolve_part_sha256, ReadBlobOperation,
    ReadBlobOperationOutcome, ReadBlobOperationRequest, ReadPlan,
};
use rimio::twopc::{commit_apply, prepare_vote, Transaction, TransactionState, Vote};
use rimio::write::write_generation;

fn meta(path: &str, generation: i64, size: u64, part_size: u64, archive: Option<&str>) -> BlobMeta {
    BlobMeta {
        path: path.to_string(),
        slot_id: 1,
        generation,
        version: generation,
        size_bytes: size,
        etag: "e".to_string(),
        part_size,
        part_count: if size == 0 { 0 } else { ((size + part_size.max(1) - 1) / part_size.max(1)) as u32 },
        part_index_state: PartIndexState::Indexed,
        archive_url: archive.map(|a| a.to_string()),
        updated_at: 0,
    }
}

fn tombstone(path: &str, generation: i64) -> TombstoneMeta {
    TombstoneMeta { path: path.to_string(), slot_id: 1, generation, deleted_at: 5 }
}

fn request(include_body: bool, range: Option<ReadByteRange>) -> ReadBlobOperationRequest {
    ReadBlobOperationRequest {
        slot_id: 1,
        path: "a/b".to_string(),
        replicas: vec![
            NodeInfo { node_id: "n1".to_string(), address: "h1".to_string() },
            NodeInfo { node_id: "n2".to_string(), address: "h2".to_string() },
            NodeInfo { node_id: "n3".to_string(), address: "h3".to_string() },
        ],
        local_node_id: "n2".to_string(),
        include_body,
        range,
    }
}

fn read_all(op: &ReadBlobOperation, store: &HeadStore, body: &[u8]) -> ReadBlobOperationOutcome {
    let head = store.get_current_head(&op.request.path);
    match op.plan(head).unwrap() {
        ReadPlan::NotFound => ReadBlobOperationOutcome::NotFound,
        ReadPlan::Deleted => ReadBlobOperationOutcome::Deleted,
        ReadPlan::Parts { meta, range, first_part, last_part, part_size } => {
            let all = split_into_parts(body, part_size);
            let parts: Vec<Vec<u8>> = all[first_part as usize..=last_part as usize].to_vec();
            finish_read(meta, range, part_size, &parts).unwrap()
        }
        other => panic!("unexpected {:?}", other),
    }
}

fn body_of(outcome: ReadBlobOperationOutcome) -> Vec<u8> {
    match outcome {
        ReadBlobOperationOutcome::Found(res) => res.body.unwrap(),
        other => panic!("unexpected {:?}", other),
    }
}

#[test]
fn effective_range_rules() {
    assert_eq!(resolve_effective_range(10, None).unwrap(), ReadByteRange { start: 0, end: 9 });
    let r = ReadByteRange { start: 2, end: 6 };
    assert_eq!(resolve_effective_range(10, Some(r)).unwrap(), r);
    assert!(matches!(
        resolve_effective_range(10, Some(ReadByteRange { start: 6, end: 2 })),
        Err(RimError::InvalidRequest(_))
    ));
    assert!(matches!(
        resolve_effective_range(10, Some(ReadByteRange { start: 0, end: 10 })),
        Err(RimError::InvalidRequest(_))
    ));
}

#[test]
fn part_byte_ranges() {
    let m = meta("k", 1, 9, 4, None);
    assert_eq!(part_byte_range(&m, 0).unwrap(), (0, 3));
    assert_eq!(part_byte_range(&m, 2).unwrap(), (8, 8));
    assert!(matches!(part_byte_range(&m, 3), Err(RimError::InvalidRequest(_))));
    let zero = meta("k", 1, 3, 0, None);
    assert_eq!(part_byte_range(&zero, 2).unwrap(), (2, 2));
}

#[test]
fn single_node_put_get() {
    let mut store = HeadStore::new();
    let generation = write_generation(None, &store, "a/b").unwrap();
    assert_eq!(generation, 1);
    let body = b"helloworld";
    assert!(store.upsert_meta_with_payload(meta("a/b", generation, 10, 4, None), compute_hash(b"m")));
    let whole = read_all(&ReadBlobOperation::new(request(true, None)), &store, body);
    assert_eq!(body_of(whole), b"helloworld".to_vec());
    let ranged = read_all(
        &ReadBlobOperation::new(request(true, Some(ReadByteRange { start: 2, end: 6 }))),
        &store,
        body,
    );
    assert_eq!(body_of(ranged), b"llowo".to_vec());
}

#[test]
fn range_read_matches_slice() {
    let body: Vec<u8> = (0u8..50).collect();
    let parts = split_into_parts(&body, 7);
    for s in 0..50u64 {
        for e in s..50u64 {
            let first = (s / 7) as usize;
            let last = (e / 7) as usize;
            let slice = parts[first..=last].to_vec();
            let got = assemble_range(&slice, ReadByteRange { start: s, end: e }, 7).unwrap();
            assert_eq!(got, body[s as usize..=e as usize].to_vec());
        }
    }
}

#[test]
fn short_part_is_refused() {
    let parts = vec![b"ab".to_vec()];
    assert!(matches!(
        assemble_range(&parts, ReadByteRange { start: 0, end: 3 }, 4),
        Err(RimError::Internal(_))
    ));
}

#[test]
fn tombstone_then_overwrite() {
    let mut store = HeadStore::new();
    assert!(store.upsert_meta_with_payload(meta("a/b", 1, 3, 4, None), "h1".to_string()));
    assert_eq!(write_generation(None, &store, "a/b").unwrap(), 2);
    assert!(store.insert_tombstone_with_payload(tombstone("a/b", 2), "h2".to_string()));
    let op = ReadBlobOperation::new(request(true, None));
    assert!(matches!(read_all(&op, &store, b"old"), ReadBlobOperationOutcome::Deleted));
    assert!(!store.upsert_meta_with_payload(meta("a/b", 2, 3, 4, None), "h3".to_string()));
    assert!(matches!(read_all(&op, &store, b"old"), ReadBlobOperationOutcome::Deleted));
    assert_eq!(write_generation(None, &store, "a/b").unwrap(), 3);
    assert!(store.upsert_meta_with_payload(meta("a/b", 3, 3, 4, None), "h4".to_string()));
    assert_eq!(body_of(read_all(&op, &store, b"new")), b"new".to_vec());
}

#[test]
fn apply_same_head_twice_is_noop() {
    let mut store = HeadStore::new();
    let head = BlobHead {
        path: "p".to_string(),
        generation: 4,
        head_kind: HeadKind::Meta,
        head_sha256: "s".to_string(),
        updated_at: 0,
        meta: Some(meta("p", 4, 1, 4, None)),
        tombstone: None,
    };
    assert!(store.apply_head(head.copy()));
    assert!(!store.apply_head(head.copy()));
    assert_eq!(store.get_current_head("p").unwrap().generation, 4);
    assert_eq!(store.next_generation("p").unwrap(), 5);
    assert_eq!(store.next_generation("q").unwrap(), 1);
}

#[test]
fn generation_never_goes_down() {
    let mut store = HeadStore::new();
    assert!(store.upsert_meta_with_payload(meta("p", 5, 1, 4, None), "a".to_string()));
    assert!(!store.upsert_meta_with_payload(meta("p", 3, 1, 4, None), "b".to_string()));
    assert!(!store.insert_tombstone_with_payload(tombstone("p", 5), "c".to_string()));
    assert!(!store.upsert_meta_with_payload(meta("p", 0, 1, 4, None), "d".to_string()));
    assert_eq!(store.get_current_head("p").unwrap().generation, 5);
}

#[test]
fn plan_for_heads() {
    let op = ReadBlobOperation::new(request(false, None));
    assert!(matches!(op.plan(None).unwrap(), ReadPlan::NotFound));
    let head = BlobHead {
        path: "a/b".to_string(),
        generation: 1,
        head_kind: HeadKind::Meta,
        head_sha256: "s".to_string(),
        updated_at: 0,
        meta: None,
        tombstone: None,
    };
    assert!(matches!(op.plan(Some(head)), Err(RimError::Internal(_))));
    assert!(matches!(plan_body(meta("a", 1, 0, 4, None), true, None).unwrap(), ReadPlan::EmptyBody(_)));
    assert!(matches!(
        plan_body(meta("a", 1, 0, 4, None), true, Some(ReadByteRange { start: 0, end: 0 })),
        Err(RimError::InvalidRequest(_))
    ));
    assert!(matches!(plan_body(meta("a", 1, 5, 4, None), false, None).unwrap(), ReadPlan::MetaOnly(_)));
    match plan_body(meta("a", 1, 9, 4, None), true, Some(ReadByteRange { start: 3, end: 6 })).unwrap() {
        ReadPlan::Parts { first_part, last_part, part_size, range, .. } => {
            assert_eq!((first_part, last_part, part_size), (0, 1, 4));
            assert_eq!(range, ReadByteRange { start: 3, end: 6 });
        }
        other => panic!("unexpected {:?}", other),
    }
}

#[test]
fn peers_exclude_local_node() {
    let op = ReadBlobOperation::new(request(true, None));
    let peers = op.peer_nodes();
    let ids: Vec<String> = peers.into_iter().map(|n| n.node_id).collect();
    assert_eq!(ids, vec!["n1".to_string(), "n3".to_string()]);
}

#[test]
fn archive_fallback() {
    let archived: Vec<u8> = b"ABCDEFGHI".to_vec();
    let m = meta("k", 1, 9, 4, Some("s3://x/k"));
    match plan_body(m.copy(), true, Some(ReadByteRange { start: 3, end: 6 })).unwrap() {
        ReadPlan::Parts { first_part, last_part, .. } => assert_eq!((first_part, last_part), (0, 1)),
        other => panic!("unexpected {:?}", other),
    }
    let mut entries: Vec<PartEntry> = Vec::new();
    let mut parts: Vec<Vec<u8>> = Vec::new();
    for part_no in 0..2u32 {
        let url = archive_url_for_part(&None, &m).unwrap();
        assert_eq!(url, "s3://x/k");
        let (s, e) = part_byte_range(&m, part_no).unwrap();
        let bytes = archived[s as usize..=e as usize].to_vec();
        let sha = check_archive_part(&m, part_no, &bytes, None).unwrap();
        assert_eq!(sha, compute_hash(&bytes));
        entries.push(part_entry_for("k", 1, part_no, &bytes, None, Some(url)));
        parts.push(bytes);
    }
    let body = finish_read(m, ReadByteRange { start: 3, end: 6 }, 4, &parts).unwrap();
    assert_eq!(body_of(body), b"DEFG".to_vec());
    assert_eq!(entries.len(), 2);
    assert!(entries.iter().all(|e| e.archive_url.as_deref() == Some("s3://x/k")));
    assert_eq!(entries[1].sha256, compute_hash(b"EFGH"));
}

#[test]
fn archive_part_checks() {
    let m = meta("k", 1, 9, 4, Some("s3://x/k"));
    assert!(matches!(check_archive_part(&m, 0, b"ABC", None), Err(RimError::Internal(_))));
    assert!(matches!(check_archive_part(&m, 0, b"ABCD", Some("00")), Err(RimError::HashMismatch { .. })));
    assert!(matches!(check_archive_part(&m, 5, b"ABCD", None), Err(RimError::InvalidRequest(_))));
    let sha = compute_hash(b"I");
    assert_eq!(check_archive_part(&m, 2, b"I", Some(&sha)).unwrap(), sha);
    let entry = PartEntry {
        path: "k".to_string(),
        generation: 1,
        part_no: 0,
        sha256: "x".to_string(),
        length: 4,
        external_path: None,
        archive_url: Some("s3://y/k".to_string()),
    };
    assert_eq!(archive_url_for_part(&Some(entry), &m).unwrap(), "s3://y/k");
}

#[test]
fn peer_part_checks() {
    let sha = compute_hash(b"abcd");
    assert_eq!(accept_peer_part(b"abcd", Some(&sha)).unwrap(), sha);
    assert!(accept_peer_part(b"abce", Some(&sha)).is_none());
    assert_eq!(accept_peer_part(b"abcd", None).unwrap(), sha);
    assert_eq!(resolve_part_sha256(Some("ffff"), b"abcd", Some("00")), sha);
}

#[test]
fn remote_head_normalised_and_applied() {
    let mut m = meta("elsewhere", 9, 10, 0, None);
    m.version = 0;
    m.part_count = 0;
    let n = normalize_remote_meta(m.copy(), "a/b", 3, 7).unwrap();
    assert_eq!(n.path, "a/b");
    assert_eq!((n.slot_id, n.generation, n.version), (3, 7, 7));
    assert_eq!(n.part_size, PART_SIZE);
    assert_eq!(n.part_count, 1);

    let mut store = HeadStore::new();
    let head = BlobHead {
        path: "a/b".to_string(),
        generation: 7,
        head_kind: HeadKind::Meta,
        head_sha256: "s".to_string(),
        updated_at: 0,
        meta: Some(m),
        tombstone: None,
    };
    assert!(apply_remote_head_locally(&mut store, 3, "a/b", &head).unwrap());
    assert!(!apply_remote_head_locally(&mut store, 3, "a/b", &head).unwrap());
    let current = store.get_current_head("a/b").unwrap();
    assert_eq!(current.generation, 7);
    assert_eq!(current.meta.unwrap().version, 7);

    let gone = BlobHead {
        path: "a/b".to_string(),
        generation: 8,
        head_kind: HeadKind::Tombstone,
        head_sha256: "t".to_string(),
        updated_at: 0,
        meta: None,
        tombstone: None,
    };
    assert!(matches!(apply_remote_head_locally(&mut store, 3, "a/b", &gone), Err(RimError::Internal(_))));
}

#[test]
fn two_phase_commit_partial_failure() {
    let mut replicas = vec![HeadStore::new(), HeadStore::new(), HeadStore::new()];
    let head = |g: i64| BlobHead {
        path: "p".to_string(),
        generation: g,
        head_kind: HeadKind::Meta,
        head_sha256: "s".to_string(),
        updated_at: 0,
        meta: Some(meta("p", g, 3, 4, None)),
        tombstone: None,
    };
    let mut tx = Transaction::begin(
        "tx1".to_string(),
        1,
        vec!["n1".to_string(), "n2".to_string(), "n3".to_string()],
    );
    for i in 0..3 {
        let vote = prepare_vote(&replicas[i], &head(1));
        assert_eq!(vote, Vote::Yes);
        tx.record_vote(i, vote);
    }
    assert_eq!(tx.decide(), TransactionState::Committed);
    for i in 0..2 {
        assert!(commit_apply(&mut replicas[i], head(1)));
    }
    assert!(replicas[2].get_current_head("p").is_none());
    assert!(commit_apply(&mut replicas[2], head(1)));
    assert!(!commit_apply(&mut replicas[2], head(1)));
    for r in &replicas {
        assert_eq!(r.get_current_head("p").unwrap().generation, 1);
    }
}

#[test]
fn two_phase_commit_aborts_on_no() {
    let mut store = HeadStore::new();
    let head = BlobHead {
        path: "p".to_string(),
        generation: 2,
        head_kind: HeadKind::Meta,
        head_sha256: "s".to_string(),
        updated_at: 0,
        meta: None,
        tombstone: None,
    };
    assert!(store.apply_head(head.copy()));
    assert_eq!(prepare_vote(&store, &head), Vote::No);
    let mut tx = Transaction::begin("tx2".to_string(), 1, vec!["n1".to_string(), "n2".to_string()]);
    tx.record_vote(0, Vote::Yes);
    tx.record_vote(1, Vote::No);
    assert_eq!(tx.decide(), TransactionState::Aborted);
    tx.record_vote(1, Vote::Yes);
    assert_eq!(tx.decide(), TransactionState::Aborted);
    let mut silent = Transaction::begin("tx3".to_string(), 1, vec!["n1".to_string()]);
    assert_eq!(silent.decide(), TransactionState::Aborted);
    let mut expired = Transaction::begin("tx4".to_string(), 1, vec!["n1".to_string()]);
    expired.expire();
    assert_eq!(expired.state, TransactionState::Aborted);
}
