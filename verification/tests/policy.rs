use handover::policy::{
    check_freshness, check_version, introduction_block, lookup_introduction, version_gate,
    Identities, FRESHNESS_WINDOW,
};
use handover::HandoverError;

fn list(entries: &[(&str, u64)]) -> Vec<(String, u64)> {
    entries.iter().map(|(id, block)| (id.to_string(), *block)).collect()
}

fn ids(server: (&str, &str), client: (&str, &str)) -> Identities {
    Identities {
        server_mrenclave: server.0.to_string(),
        server_mrsigner: server.1.to_string(),
        client_mrenclave: client.0.to_string(),
        client_mrsigner: client.1.to_string(),
    }
}

#[test]
fn the_window_is_150_blocks() {
    assert_eq!(FRESHNESS_WINDOW, 150);
}

#[test]
fn freshness_accepts_the_whole_window() {
    assert_eq!(check_freshness(1000, 1000), Ok(()));
    assert_eq!(check_freshness(1000, 1050), Ok(()));
    assert_eq!(check_freshness(1000, 1150), Ok(()));
}

#[test]
fn freshness_refuses_outside_the_window() {
    assert_eq!(check_freshness(1000, 999), Err(HandoverError::HandoverExpired));
    assert_eq!(check_freshness(1000, 1151), Err(HandoverError::HandoverExpired));
    assert_eq!(check_freshness(1000, 1200), Err(HandoverError::HandoverExpired));
}

#[test]
fn freshness_at_the_ends_of_the_range() {
    assert_eq!(check_freshness(0, 0), Ok(()));
    assert_eq!(check_freshness(0, 150), Ok(()));
    assert_eq!(check_freshness(0, 151), Err(HandoverError::HandoverExpired));
    assert_eq!(check_freshness(u64::MAX, u64::MAX), Ok(()));
    assert_eq!(check_freshness(u64::MAX - 150, u64::MAX), Ok(()));
    assert_eq!(check_freshness(u64::MAX - 151, u64::MAX), Err(HandoverError::HandoverExpired));
    assert_eq!(check_freshness(u64::MAX, 0), Err(HandoverError::HandoverExpired));
}

#[test]
fn only_a_newer_client_passes() {
    assert_eq!(check_version(100, 200), Ok(()));
    assert_eq!(check_version(100, 101), Ok(()));
    assert_eq!(check_version(100, 100), Err(HandoverError::VersionNotNewer));
    assert_eq!(check_version(200, 100), Err(HandoverError::VersionNotNewer));
}

#[test]
fn lookup_finds_the_first_entry() {
    let entries = list(&[("aa", 100), ("bb", 200), ("aa", 300)]);
    assert_eq!(lookup_introduction(&entries, &"aa".to_string()), Some(100));
    assert_eq!(lookup_introduction(&entries, &"bb".to_string()), Some(200));
    assert_eq!(lookup_introduction(&entries, &"cc".to_string()), None);
    assert_eq!(lookup_introduction(&entries, &"a".to_string()), None);
    assert_eq!(lookup_introduction(&Vec::new(), &"aa".to_string()), None);
}

#[test]
fn introduction_block_of_a_listed_identity() {
    let enclaves = list(&[("e1", 100), ("e2", 200)]);
    let signers = list(&[("s1", 100), ("s2", 200)]);
    assert_eq!(
        introduction_block(&enclaves, &signers, &"e1".to_string(), &"s1".to_string()),
        Ok(100)
    );
    assert_eq!(
        introduction_block(&enclaves, &signers, &"e2".to_string(), &"s2".to_string()),
        Ok(200)
    );
}

#[test]
fn a_missing_measurement_is_not_authorized() {
    let enclaves = list(&[("e1", 100)]);
    let signers = list(&[("s1", 100)]);
    assert_eq!(
        introduction_block(&enclaves, &signers, &"e9".to_string(), &"s1".to_string()),
        Err(HandoverError::NotAuthorized)
    );
    assert_eq!(
        introduction_block(&enclaves, &signers, &"e1".to_string(), &"s9".to_string()),
        Err(HandoverError::NotAuthorized)
    );
    assert_eq!(
        introduction_block(&Vec::new(), &Vec::new(), &"e1".to_string(), &"s1".to_string()),
        Err(HandoverError::NotAuthorized)
    );
}

#[test]
fn differing_blocks_are_inconsistent() {
    let enclaves = list(&[("e1", 100)]);
    let signers = list(&[("s1", 101)]);
    assert_eq!(
        introduction_block(&enclaves, &signers, &"e1".to_string(), &"s1".to_string()),
        Err(HandoverError::RegistryInconsistent)
    );
}

#[test]
fn version_gate_opens_for_a_newer_client() {
    let enclaves = list(&[("se", 100), ("ce", 200)]);
    let signers = list(&[("ss", 100), ("cs", 200)]);
    assert_eq!(version_gate(&enclaves, &signers, &ids(("se", "ss"), ("ce", "cs"))), Ok(()));
}

#[test]
fn version_gate_refuses_equal_and_older_clients() {
    let enclaves = list(&[("se", 100), ("ce", 100), ("old", 50)]);
    let signers = list(&[("ss", 100), ("cs", 100), ("olds", 50)]);
    assert_eq!(
        version_gate(&enclaves, &signers, &ids(("se", "ss"), ("ce", "cs"))),
        Err(HandoverError::VersionNotNewer)
    );
    assert_eq!(
        version_gate(&enclaves, &signers, &ids(("se", "ss"), ("old", "olds"))),
        Err(HandoverError::VersionNotNewer)
    );
    assert_eq!(
        version_gate(&enclaves, &signers, &ids(("se", "ss"), ("se", "ss"))),
        Err(HandoverError::VersionNotNewer)
    );
}

#[test]
fn version_gate_fails_on_an_inconsistent_registry() {
    let enclaves = list(&[("se", 100), ("ce", 200)]);
    let server_off = list(&[("ss", 101), ("cs", 200)]);
    let client_off = list(&[("ss", 100), ("cs", 201)]);
    assert_eq!(
        version_gate(&enclaves, &server_off, &ids(("se", "ss"), ("ce", "cs"))),
        Err(HandoverError::RegistryInconsistent)
    );
    assert_eq!(
        version_gate(&enclaves, &client_off, &ids(("se", "ss"), ("ce", "cs"))),
        Err(HandoverError::RegistryInconsistent)
    );
}

#[test]
fn version_gate_judges_the_server_first() {
    let enclaves = list(&[("ce", 200)]);
    let signers = list(&[("ss", 100), ("cs", 201)]);
    assert_eq!(
        version_gate(&enclaves, &signers, &ids(("se", "ss"), ("ce", "cs"))),
        Err(HandoverError::NotAuthorized)
    );
    let enclaves = list(&[("se", 100)]);
    let signers = list(&[("ss", 100)]);
    assert_eq!(
        version_gate(&enclaves, &signers, &ids(("se", "ss"), ("ce", "cs"))),
        Err(HandoverError::NotAuthorized)
    );
}
