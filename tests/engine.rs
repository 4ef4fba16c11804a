use ablavema::channel::{join_path_str, ReleaseChannel, UpdateCount};
use ablavema::coordination::CoordinationState;
use ablavema::daily::Daily;
use ablavema::package::{contains_key, has_unique_keys, InstallState, Package};
use ablavema::reconcile::{count_new_packages, reconcile, reconcile_loaded, StorageError};
use ablavema::sync::{begin_install, complete_fetch, finish_install, FetchError, SyncError};

fn pkg(index: usize, version: &str, hash: &str) -> Package {
    Package {
        index,
        name: format!("daily-{}", version),
        version: version.to_string(),
        build_hash: hash.to_string(),
        download_url: format!("https://builds.example/{}-{}.tar.xz", version, hash),
        checksum: None,
        install_state: InstallState::NotInstalled,
    }
}

fn keys(db: &[Package]) -> Vec<String> {
    db.iter().map(|p| format!("{}-{}", p.version, p.build_hash)).collect()
}

#[test]
fn first_run_reports_unknown_count_and_keeps_listing() {
    let fetched = vec![pkg(0, "2024-01-01", "hashA"), pkg(1, "2024-01-02", "hashB")];
    let r = reconcile(&Vec::new(), fetched);
    assert_eq!(r.update_count, None);
    assert_eq!(keys(&r.database), vec!["2024-01-01-hashA", "2024-01-02-hashB"]);
}

#[test]
fn second_reconcile_of_same_listing_finds_nothing_new() {
    let fetched = vec![pkg(0, "2024-01-01", "hashA"), pkg(1, "2024-01-02", "hashB")];
    let first = reconcile(&Vec::new(), fetched.clone());
    let second = reconcile(&first.database, fetched);
    assert_eq!(second.update_count, Some(0));
    assert_eq!(keys(&second.database), vec!["2024-01-01-hashA", "2024-01-02-hashB"]);
}

#[test]
fn three_against_two_counts_one() {
    let prior = vec![pkg(0, "1", "a"), pkg(1, "1", "b")];
    let fetched = vec![pkg(0, "1", "c"), pkg(1, "1", "a"), pkg(2, "1", "b")];
    let r = reconcile(&prior, fetched);
    assert_eq!(r.update_count, Some(1));
    assert_eq!(keys(&r.database), vec!["1-c", "1-a", "1-b"]);
}

#[test]
fn daily_example_reports_one_update() {
    let prior = vec![pkg(0, "2024-01-01", "hashA")];
    let fetched = vec![pkg(0, "2024-01-01", "hashA"), pkg(1, "2024-01-02", "hashB")];
    let r = reconcile_loaded(Ok(prior), fetched).unwrap();
    assert_eq!(r.update_count, Some(1));
    assert_eq!(keys(&r.database), vec!["2024-01-01-hashA", "2024-01-02-hashB"]);
}

#[test]
fn corrupt_database_reconciles_as_first_run() {
    let fetched = vec![pkg(0, "2024-01-01", "hashA")];
    let r = reconcile_loaded(Err(StorageError::Corrupt), fetched).unwrap();
    assert_eq!(r.update_count, None);
    assert_eq!(keys(&r.database), vec!["2024-01-01-hashA"]);
}

#[test]
fn failed_read_is_reported() {
    let r = reconcile_loaded(Err(StorageError::IoFailure), vec![pkg(0, "1", "a")]);
    assert_eq!(r.unwrap_err(), StorageError::IoFailure);
}

#[test]
fn same_version_other_hash_is_new() {
    let prior = vec![pkg(0, "3.0", "aaa")];
    let fetched = vec![pkg(0, "3.0", "bbb"), pkg(1, "3.0", "aaa")];
    assert_eq!(count_new_packages(&prior, &fetched), 1);
}

#[test]
fn empty_listing_against_known_database_counts_zero() {
    let prior = vec![pkg(0, "1", "a")];
    let r = reconcile(&prior, Vec::new());
    assert_eq!(r.update_count, Some(0));
    assert!(r.database.is_empty());
}

#[test]
fn key_lookup_and_uniqueness() {
    let db = vec![pkg(0, "1", "a"), pkg(1, "2", "b")];
    assert!(contains_key(&db, &pkg(7, "2", "b")));
    assert!(!contains_key(&db, &pkg(0, "2", "a")));
    assert!(has_unique_keys(&db));
    assert!(has_unique_keys(&Vec::new()));
    assert!(!has_unique_keys(&vec![pkg(0, "1", "a"), pkg(1, "1", "a")]));
}

#[test]
fn begin_fetch_succeeds_once_until_end() {
    let mut s = CoordinationState::new();
    assert!(s.can_start_fetch());
    assert!(s.try_begin_fetch());
    assert!(s.is_fetching());
    assert!(!s.can_start_fetch());
    assert!(!s.try_begin_fetch());
    s.end_fetch();
    assert!(!s.is_fetching());
    assert!(s.try_begin_fetch());
}

#[test]
fn fetch_refused_while_installing() {
    let mut s = CoordinationState::new();
    assert!(s.try_begin_install());
    assert!(!s.try_begin_install());
    assert!(!s.try_begin_fetch());
    assert!(!s.is_fetching());
    s.end_install();
    assert!(s.try_begin_fetch());
}

#[test]
fn fetch_not_offered_without_connectivity() {
    let mut s = CoordinationState::new();
    assert!(s.is_connectivity_ok());
    s.set_connectivity(false);
    assert!(!s.is_connectivity_ok());
    assert!(!s.can_start_fetch());
}

#[test]
fn network_error_clears_connectivity_and_yields_nothing_to_save() {
    let mut s = CoordinationState::new();
    assert!(s.try_begin_fetch());
    let r = complete_fetch(&mut s, Err(FetchError::Network), Ok(vec![pkg(0, "1", "a")]));
    assert_eq!(r.unwrap_err(), SyncError::Fetch(FetchError::Network));
    assert!(!s.is_connectivity_ok());
    assert!(!s.is_fetching());
}

#[test]
fn parse_error_keeps_connectivity() {
    let mut s = CoordinationState::new();
    assert!(s.try_begin_fetch());
    let r = complete_fetch(&mut s, Err(FetchError::Parse), Ok(Vec::new()));
    assert_eq!(r.unwrap_err(), SyncError::Fetch(FetchError::Parse));
    assert!(s.is_connectivity_ok());
    assert!(!s.is_fetching());
}

#[test]
fn duplicate_keys_in_listing_are_a_parse_error() {
    let mut s = CoordinationState::new();
    assert!(s.try_begin_fetch());
    let listing = vec![pkg(0, "1", "a"), pkg(1, "1", "a")];
    let r = complete_fetch(&mut s, Ok(listing), Ok(Vec::new()));
    assert_eq!(r.unwrap_err(), SyncError::Fetch(FetchError::Parse));
    assert!(!s.is_fetching());
}

#[test]
fn successful_fetch_restores_connectivity_and_reconciles() {
    let mut s = CoordinationState::new();
    s.set_connectivity(false);
    assert!(s.try_begin_fetch());
    let listing = vec![pkg(0, "2024-01-01", "hashA"), pkg(1, "2024-01-02", "hashB")];
    let r = complete_fetch(&mut s, Ok(listing), Ok(vec![pkg(0, "2024-01-01", "hashA")])).unwrap();
    assert_eq!(r.update_count, Some(1));
    assert_eq!(keys(&r.database), vec!["2024-01-01-hashA", "2024-01-02-hashB"]);
    assert!(s.is_connectivity_ok());
    assert!(!s.is_fetching());
}

#[test]
fn load_failure_after_fetch_is_a_storage_error() {
    let mut s = CoordinationState::new();
    assert!(s.try_begin_fetch());
    let r = complete_fetch(&mut s, Ok(vec![pkg(0, "1", "a")]), Err(StorageError::IoFailure));
    assert_eq!(r.unwrap_err(), SyncError::Storage(StorageError::IoFailure));
}

#[test]
fn install_runs_one_at_a_time() {
    let mut s = CoordinationState::new();
    let mut a = pkg(0, "1", "a");
    let mut b = pkg(1, "1", "b");
    assert!(begin_install(&mut s, &mut a));
    assert_eq!(a.install_state, InstallState::InstallInProgress);
    assert!(!begin_install(&mut s, &mut b));
    assert_eq!(b.install_state, InstallState::NotInstalled);
    finish_install(&mut s, &mut a, true);
    assert_eq!(a.install_state, InstallState::Installed);
    assert!(!s.is_installing());
    assert!(!begin_install(&mut s, &mut a));
    assert!(begin_install(&mut s, &mut b));
    finish_install(&mut s, &mut b, false);
    assert_eq!(b.install_state, InstallState::NotInstalled);
}

#[test]
fn channel_names() {
    assert_eq!(ReleaseChannel::Daily.get_name(), "daily");
    assert_eq!(ReleaseChannel::ExperimentalArchive.get_name(), "experimental_archive");
    assert_eq!(ReleaseChannel::Lts.name_str(), "lts");
    assert_eq!(ReleaseChannel::StableLatest.name_str(), "stable_latest");
}

#[test]
fn channel_database_paths() {
    assert_eq!(ReleaseChannel::Daily.get_db_path("/data/db"), "/data/db/daily.bin");
    assert_eq!(ReleaseChannel::PatchLatest.get_db_path("/data/db/"), "/data/db/patch_latest.bin");
    assert_eq!(ReleaseChannel::Lts.get_db_path(""), "lts.bin");
}

#[test]
fn join_path_cases() {
    assert_eq!(join_path_str("a", "b"), "a/b");
    assert_eq!(join_path_str("a/", "b"), "a/b");
    assert_eq!(join_path_str("/", "b"), "/b");
    assert_eq!(join_path_str("", "b"), "b");
}

#[test]
fn daily_listing() {
    let d = Daily::new(vec![pkg(0, "1", "a")]);
    assert_eq!(d.get_name(), "daily");
    assert_eq!(d.get_db_path("/db"), "/db/daily.bin");
    assert_eq!(d.channel(), ReleaseChannel::Daily);
    assert_eq!(d.packages().len(), 1);
    assert_eq!(keys(&d.into_packages()), vec!["1-a"]);
    assert!(Daily::default().packages().is_empty());
}

#[test]
fn update_counts_by_category() {
    let mut u = UpdateCount::unchecked();
    assert_eq!(u, UpdateCount::default());
    u.record(ReleaseChannel::Daily, Some(2));
    u.record(ReleaseChannel::Lts, Some(0));
    u.record(ReleaseChannel::StableArchive, Some(9));
    u.record(ReleaseChannel::ExperimentalLatest, None);
    assert_eq!(u.daily, Some(2));
    assert_eq!(u.lts, Some(0));
    assert_eq!(u.stable, None);
    assert_eq!(u.experimental, None);
    assert_eq!(u.patch, None);
}
