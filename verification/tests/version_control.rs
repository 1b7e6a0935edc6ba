use std::path::Path;
use warthog::vcs::version_control::{
    block_hash, decimal, deduplicate_blocks, join_path, lower_hex, repository_dirs, snapshot_dir, BlockMap,
};

#[test]
fn join_matches_std() {
    for (base, rel) in [("/a", "b"), ("/a/", "b"), ("", "b"), ("/a", "/b"), ("a", ".warthog/blobs"), ("/", "x")] {
        let expected = Path::new(base).join(rel).to_str().unwrap().to_string();
        assert_eq!(join_path(base, rel), expected, "joining {:?} and {:?}", base, rel);
    }
}

#[test]
fn repository_layout() {
    assert_eq!(
        repository_dirs("/music/song"),
        vec![
            "/music/song/.warthog".to_string(),
            "/music/song/.warthog/snapshots".to_string(),
            "/music/song/.warthog/blobs".to_string(),
        ]
    );
}

#[test]
fn decimal_text() {
    for n in [0u64, 7, 10, 1234567890, u64::MAX] {
        assert_eq!(decimal(n), n.to_string());
    }
}

#[test]
fn snapshot_directory() {
    assert_eq!(snapshot_dir("/p", 1700000000), "/p/.warthog/snapshots/1700000000");
    assert_eq!(snapshot_dir("/p/", 5), "/p/.warthog/snapshots/5");
}

#[test]
fn hex_text() {
    assert_eq!(lower_hex(&[]), "");
    assert_eq!(lower_hex(&[0x0a, 0x14, 0x1e]), "0a141e");
    assert_eq!(lower_hex(&[0xff, 0x00]), "ff00");
}

#[test]
fn block_hash_is_sha256_hex() {
    assert_eq!(
        block_hash(b"abc"),
        "ba7816bf8f01cfea414140de5dae2223b00361a396177a9cb410ff61f20015ad"
    );
    assert_eq!(
        block_hash(b""),
        "e3b0c44298fc1c149afbf4c8996fb92427ae41e4649b934ca495991b7852b855"
    );
}

#[test]
fn duplicate_blocks_are_kept_once() {
    let blocks = vec![b"abc".to_vec(), b"xyz".to_vec(), b"abc".to_vec()];
    let kept = deduplicate_blocks(&blocks);
    assert_eq!(kept.len(), 2);
    assert_eq!(kept.get(&block_hash(b"abc")), Some(&b"abc".to_vec()));
    assert_eq!(kept.get(&block_hash(b"xyz")), Some(&b"xyz".to_vec()));
    assert_eq!(kept.get("nope"), None);
}

#[test]
fn adding_a_block_twice() {
    let mut kept = BlockMap::new();
    kept.add_block(b"data");
    kept.add_block(b"data");
    assert_eq!(kept.len(), 1);
    assert_eq!(deduplicate_blocks(&vec![]).len(), 0);
}

#[test]
fn dedup_ignores_order_and_repetition() {
    let a = deduplicate_blocks(&vec![b"one".to_vec(), b"two".to_vec()]);
    let b = deduplicate_blocks(&vec![b"two".to_vec(), b"one".to_vec(), b"two".to_vec()]);
    assert_eq!(a.len(), b.len());
    for key in [block_hash(b"one"), block_hash(b"two")] {
        assert_eq!(key.len(), 64);
        assert_eq!(a.get(&key), b.get(&key));
    }
}

#[test]
fn entries_list_kept_blocks_in_order() {
    let kept = deduplicate_blocks(&vec![b"two".to_vec(), b"one".to_vec(), b"two".to_vec()]);
    let entries = kept.entries();
    assert_eq!(
        entries,
        vec![
            (block_hash(b"two"), b"two".to_vec()),
            (block_hash(b"one"), b"one".to_vec()),
        ]
    );
    assert!(BlockMap::new().entries().is_empty());
}
