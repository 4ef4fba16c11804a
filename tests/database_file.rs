use ablavema::codec::{decode_database, encode_database};
use ablavema::package::{InstallState, Package};
use ablavema::reconcile::{reconcile_loaded, StorageError};

fn pkg(index: usize, version: &str, hash: &str, checksum: Option<&str>, st: InstallState) -> Package {
    Package {
        index,
        name: format!("Blender {}", version),
        version: version.to_string(),
        build_hash: hash.to_string(),
        download_url: format!("https://builds.example/{}.zip", hash),
        checksum: checksum.map(|c| c.to_string()),
        install_state: st,
    }
}

fn same(a: &Package, b: &Package) -> bool {
    a.index == b.index
        && a.name == b.name
        && a.version == b.version
        && a.build_hash == b.build_hash
        && a.download_url == b.download_url
        && a.checksum == b.checksum
        && a.install_state == b.install_state
}

#[test]
fn empty_database_round_trips() {
    let bytes = encode_database(&Vec::new());
    assert_eq!(bytes, vec![0u8; 8]);
    assert!(decode_database(&bytes).unwrap().is_empty());
}

#[test]
fn database_round_trips() {
    let db = vec![
        pkg(0, "2024-01-01", "hashA", Some("ab12"), InstallState::Installed),
        pkg(1, "2024-01-02", "hashB", None, InstallState::NotInstalled),
        pkg(2, "3.0 \u{e9}t\u{e9}", "hashC", Some(""), InstallState::InstallInProgress),
    ];
    let bytes = encode_database(&db);
    let back = decode_database(&bytes).unwrap();
    assert_eq!(back.len(), db.len());
    for (a, b) in db.iter().zip(back.iter()) {
        assert!(same(a, b));
    }
}

#[test]
fn encoding_layout_is_exact() {
    let db = vec![Package {
        index: 3,
        name: "n".to_string(),
        version: "v".to_string(),
        build_hash: "h".to_string(),
        download_url: "".to_string(),
        checksum: None,
        install_state: InstallState::Installed,
    }];
    let bytes = encode_database(&db);
    let mut expected = vec![1, 0, 0, 0, 0, 0, 0, 0, 3, 0, 0, 0, 0, 0, 0, 0];
    expected.extend_from_slice(&[1, 0, 0, 0, 0, 0, 0, 0, b'n']);
    expected.extend_from_slice(&[1, 0, 0, 0, 0, 0, 0, 0, b'v']);
    expected.extend_from_slice(&[1, 0, 0, 0, 0, 0, 0, 0, b'h']);
    expected.extend_from_slice(&[0, 0, 0, 0, 0, 0, 0, 0]);
    expected.extend_from_slice(&[0, 1]);
    assert_eq!(bytes, expected);
}

#[test]
fn truncated_file_is_corrupt() {
    let db = vec![pkg(0, "1", "a", None, InstallState::NotInstalled)];
    let bytes = encode_database(&db);
    for cut in 0..bytes.len() {
        assert_eq!(decode_database(&bytes[..cut].to_vec()).unwrap_err(), StorageError::Corrupt);
    }
}

#[test]
fn trailing_bytes_are_corrupt() {
    let mut bytes = encode_database(&vec![pkg(0, "1", "a", None, InstallState::NotInstalled)]);
    bytes.push(0);
    assert_eq!(decode_database(&bytes).unwrap_err(), StorageError::Corrupt);
}

#[test]
fn unknown_install_state_is_corrupt() {
    let mut bytes = encode_database(&vec![pkg(0, "1", "a", None, InstallState::NotInstalled)]);
    let last = bytes.len() - 1;
    bytes[last] = 7;
    assert_eq!(decode_database(&bytes).unwrap_err(), StorageError::Corrupt);
}

#[test]
fn unknown_checksum_tag_is_corrupt() {
    let mut bytes = encode_database(&vec![pkg(0, "1", "a", None, InstallState::NotInstalled)]);
    let tag = bytes.len() - 2;
    bytes[tag] = 5;
    assert_eq!(decode_database(&bytes).unwrap_err(), StorageError::Corrupt);
}

#[test]
fn invalid_utf8_is_corrupt() {
    let mut bytes = vec![1, 0, 0, 0, 0, 0, 0, 0, 0, 0, 0, 0, 0, 0, 0, 0];
    bytes.extend_from_slice(&[1, 0, 0, 0, 0, 0, 0, 0, 0xff]);
    assert_eq!(decode_database(&bytes).unwrap_err(), StorageError::Corrupt);
}

#[test]
fn corrupt_file_then_reconcile_is_first_run() {
    let loaded = decode_database(&vec![9, 9, 9]);
    let r = reconcile_loaded(loaded, vec![pkg(0, "1", "a", None, InstallState::NotInstalled)]).unwrap();
    assert_eq!(r.update_count, None);
    assert_eq!(r.database.len(), 1);
}

#[test]
fn saved_listing_reloaded_reconciles_to_zero() {
    let fetched = vec![
        pkg(0, "2024-01-01", "hashA", None, InstallState::NotInstalled),
        pkg(1, "2024-01-02", "hashB", None, InstallState::NotInstalled),
    ];
    let first = reconcile_loaded(Ok(Vec::new()), fetched.clone()).unwrap();
    let saved = encode_database(&first.database);
    let second = reconcile_loaded(decode_database(&saved), fetched).unwrap();
    assert_eq!(second.update_count, Some(0));
}
