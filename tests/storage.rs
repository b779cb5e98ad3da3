use rimio::internal_part::{InternalPartOperation, InternalPutPartOperationRequest};
use rimio::chunk_store::{ChunkStore, LegacyChunkStore};
use rimio::digest::{check_hash, compute_hash, slot_for_key, slot_of_digest, verify_hash};
use rimio::error::RimError;
use rimio::range::{split_into_parts, part_count_for};
use rimio::write::{
    chunk_slices_for_range, ChunkRef, ChunkSlice,
    assign_slot_range, check_write_replicas, chunk_refs, delete_version, put_part_decision, PutPartDecision,
};

#[test]
fn test_compute_hash() {
    let data = b"hello world";
    let hash = compute_hash(data);
    assert_eq!(hash.len(), 64);
}

#[test]
fn compute_hash_known_value() {
    assert_eq!(
        compute_hash(b"hello world"),
        "b94d27b9934d3e08a52e52d7da7dabfac484efe37a5380ee9088f7ace2efcde9"
    );
    assert_eq!(
        compute_hash(b""),
        "e3b0c44298fc1c149afbf4c8996fb92427ae41e4649b934ca495991b7852b855"
    );
}

#[test]
fn verify_hash_accepts_and_refuses() {
    assert!(verify_hash(b"abcd", "88d4266fd4e6338d13b845fcf289579d209c897823b9217da3e161936f031589").is_ok());
    match verify_hash(b"abcd", "00") {
        Err(RimError::HashMismatch { expected, actual }) => {
            assert_eq!(expected, "00");
            assert_eq!(actual, "88d4266fd4e6338d13b845fcf289579d209c897823b9217da3e161936f031589");
        }
        other => panic!("unexpected {:?}", other),
    }
    assert!(check_hash("ab".to_string(), "ab").is_ok());
    assert!(check_hash("ab".to_string(), "ac").is_err());
}

#[test]
fn slot_for_key_known_values() {
    assert_eq!(slot_for_key("a/b", 4), 1);
    assert_eq!(slot_for_key("a/b", 2048), 529);
    assert_eq!(slot_for_key("k", 2048), 1402);
    assert_eq!(slot_for_key("a/b", 7), 0);
    assert_eq!(slot_for_key("x", 7), 6);
}

#[test]
fn slot_for_key_is_stable() {
    for _ in 0..3 {
        assert_eq!(slot_for_key("p", 2048), slot_for_key("p", 2048));
    }
    assert_eq!(slot_for_key("p", 2048), 320);
}

#[test]
fn cross_slot_paths_differ() {
    assert_ne!(slot_for_key("x", 4), slot_for_key("y", 4));
}

#[test]
fn slot_of_digest_reduces_big_endian() {
    assert_eq!(slot_of_digest(&[1, 0], 7), (256 % 7) as u16);
    assert_eq!(slot_of_digest(&[], 5), 0);
    assert_eq!(slot_of_digest(&[0xff, 0xff, 0xff], 1000), (0xffffffu32 % 1000) as u16);
}

#[test]
fn chunk_store_paths() {
    let store = ChunkStore::new("/data".to_string());
    assert_eq!(store.base_path(), "/data");
    assert_eq!(store.blob_chunks_dir("b1"), "/data/blobs/b1/chunks");
    assert_eq!(store.chunk_path("b1", "abc"), "/data/blobs/b1/chunks/abc");
    let trailing = ChunkStore::new("/data/".to_string());
    assert_eq!(trailing.chunk_path("b1", "abc"), "/data/blobs/b1/chunks/abc");
}

#[test]
fn legacy_chunk_store_paths() {
    let store = LegacyChunkStore::new("/d".to_string());
    assert_eq!(store.chunk_path("abcdef"), "/d/chunks/ab/abcdef");
    assert_eq!(store.chunk_path("a"), "/d/chunks/a/a");
}

#[test]
fn split_and_reference_chunks() {
    let parts = split_into_parts(b"helloworld", 4);
    assert_eq!(parts, vec![b"hell".to_vec(), b"owor".to_vec(), b"ld".to_vec()]);
    assert_eq!(split_into_parts(b"", 4).len(), 0);
    let refs = chunk_refs(&parts);
    assert_eq!(refs.len(), 3);
    assert_eq!(refs[2].len, 2);
    assert_eq!(refs[0].id, compute_hash(b"hell"));
    assert_eq!(part_count_for(10, 4), 3);
    assert_eq!(part_count_for(8, 4), 2);
    assert_eq!(part_count_for(0, 4), 0);
    assert_eq!(part_count_for(5, 0), 5);
}

#[test]
fn write_replica_and_version_checks() {
    assert!(check_write_replicas(3, 3).is_ok());
    match check_write_replicas(1, 3) {
        Err(RimError::InsufficientReplicas { needed, found }) => {
            assert_eq!(needed, 3);
            assert_eq!(found, 1);
        }
        other => panic!("unexpected {:?}", other),
    }
    assert_eq!(delete_version(Some(4), 0).unwrap(), 4);
    assert_eq!(delete_version(None, 7).unwrap(), 7);
    assert!(matches!(delete_version(None, 0), Err(RimError::NotFound)));
}

#[test]
fn slot_ranges_cover_all_slots() {
    assert_eq!(assign_slot_range(2048, 3, Some(0)), (0, 682));
    assert_eq!(assign_slot_range(2048, 3, Some(1)), (682, 1364));
    assert_eq!(assign_slot_range(2048, 3, Some(2)), (1364, 2048));
    assert_eq!(assign_slot_range(4, 0, None), (0, 4));
}

#[test]
fn same_part_twice_is_reused() {
    let sha = compute_hash(b"part");
    assert_eq!(put_part_decision(None, &sha, b"part").unwrap(), PutPartDecision::Write);
    assert_eq!(put_part_decision(Some(sha.clone()), &sha, b"part").unwrap(), PutPartDecision::Reuse);
    assert!(matches!(put_part_decision(None, "00", b"part"), Err(RimError::HashMismatch { .. })));
}

#[test]
fn internal_part_put_checks() {
    let op = InternalPartOperation::new("n1".to_string());
    let good = InternalPutPartOperationRequest {
        slot_id: 1,
        path: "a".to_string(),
        sha256: compute_hash(b"xyz"),
        body: b"xyz".to_vec(),
        offset: 8,
        length: None,
    };
    assert!(op.check_put(&good).is_ok());
    let record = op.put_record(&good, "/p/x".to_string(), 3);
    assert_eq!(record.name, format!("part.{}", good.sha256));
    assert_eq!((record.offset, record.length), (8, 3));
    assert_eq!(record.external_path.as_deref(), Some("/p/x"));
    let result = op.put_result(&good, true);
    assert!(result.reused);
    assert_eq!(result.sha256, good.sha256);
    let bad = InternalPutPartOperationRequest { sha256: "00".to_string(), length: Some(2), ..good };
    assert!(matches!(op.check_put(&bad), Err(RimError::InvalidRequest(_))));
    assert_eq!(op.put_record(&bad, "/p".to_string(), 3).length, 2);
}

#[test]
fn legacy_range_slices() {
    let chunks = vec![
        ChunkRef { id: "a".to_string(), len: 4 },
        ChunkRef { id: "b".to_string(), len: 4 },
        ChunkRef { id: "c".to_string(), len: 2 },
    ];
    assert_eq!(
        chunk_slices_for_range(&chunks, 3, 7),
        vec![ChunkSlice { index: 0, lo: 3, hi: 4 }, ChunkSlice { index: 1, lo: 0, hi: 3 }]
    );
    assert_eq!(chunk_slices_for_range(&chunks, 0, 10).len(), 3);
    assert_eq!(chunk_slices_for_range(&chunks, 8, 10), vec![ChunkSlice { index: 2, lo: 0, hi: 2 }]);
    assert!(chunk_slices_for_range(&chunks, 10, 10).is_empty());
}
