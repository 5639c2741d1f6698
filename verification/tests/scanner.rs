use quickrdp::credential::{Credential, StoreError};
use quickrdp::inventory::{Host, HostInventory};
use quickrdp::secret_store::SecretStore;
use quickrdp::scanner::{
    base_dn, bind_identity, map_entries, AuthFailure, DirectoryAnswers, DirectoryEntry,
    DirectoryScanner,
    InputField, ScanError, ScanFailure, SearchFailure, DESCRIPTION_ATTRIBUTE, DIRECTORY_PORT,
    HOST_NAME_ATTRIBUTE, OPERATING_SYSTEM_ATTRIBUTE, SEARCH_FILTER,
};

fn entry(name: Option<&str>, description: Option<&str>) -> DirectoryEntry {
    DirectoryEntry {
        dns_host_name: name.map(|s| s.to_string()),
        description: description.map(|s| s.to_string()),
    }
}

fn host(name: &str, description: &str) -> Host {
    Host { hostname: name.to_string(), description: description.to_string(), last_connected: None }
}

fn failure(error: ScanError, session_open: bool) -> ScanFailure {
    ScanFailure { error, session_open, warnings: 0 }
}

#[test]
fn base_dn_of_realm() {
    assert_eq!(base_dn("corp.example.com"), "DC=corp,DC=example,DC=com");
}

#[test]
fn base_dn_edge_cases() {
    assert_eq!(base_dn("corp"), "DC=corp");
    assert_eq!(base_dn(""), "DC=");
    assert_eq!(base_dn("a..b"), "DC=a,DC=,DC=b");
    assert_eq!(base_dn(".com"), "DC=,DC=com");
    assert_eq!(base_dn("corp."), "DC=corp,DC=");
}

#[test]
fn base_dn_agrees_with_split_map_join() {
    for realm in ["corp.example.com", "", ".", "a.b.c.d", "x..", "no dots here"] {
        let expected =
            realm.split('.').map(|part| format!("DC={}", part)).collect::<Vec<String>>().join(",");
        assert_eq!(base_dn(realm), expected);
    }
}

#[test]
fn bind_identity_keeps_a_qualified_login() {
    assert_eq!(bind_identity("bob@corp.com", "other.net"), "bob@corp.com");
    assert_eq!(bind_identity("CORP\\bob", "other.net"), "CORP\\bob");
}

#[test]
fn bind_identity_qualifies_a_bare_login() {
    assert_eq!(bind_identity("bob", "corp.com"), "bob@corp.com");
    assert_eq!(bind_identity("", "corp.com"), "@corp.com");
}

#[test]
fn search_constants() {
    assert_eq!(DIRECTORY_PORT, 389);
    assert_eq!(
        SEARCH_FILTER,
        "(&(objectClass=computer)(operatingSystem=Windows Server*)(dNSHostName=*))"
    );
    assert_eq!(HOST_NAME_ATTRIBUTE, "dNSHostName");
    assert_eq!(DESCRIPTION_ATTRIBUTE, "description");
    assert_eq!(OPERATING_SYSTEM_ATTRIBUTE, "operatingSystem");
}

#[test]
fn entries_without_a_host_name_are_skipped() {
    let entries = vec![
        entry(Some("a.corp.com"), Some("first")),
        entry(None, Some("nameless")),
        entry(Some("b.corp.com"), None),
        entry(None, None),
    ];
    let found = map_entries(&entries);
    assert_eq!(found.hosts, vec![host("a.corp.com", "first"), host("b.corp.com", "")]);
    assert_eq!(found.skipped, 2);
    assert!(found.hosts.len() < entries.len());
}

#[test]
fn scan_with_results_replaces_the_inventory() {
    let mut inventory = HostInventory::new();
    inventory.upsert(Host {
        hostname: "old".to_string(),
        description: "gone".to_string(),
        last_connected: Some("01/01/2024 10:00:00".to_string()),
    }).unwrap();
    let entries = vec![entry(Some("a"), Some("x")), entry(None, None), entry(Some("b"), None)];
    assert_eq!(DirectoryScanner::conclude(&mut inventory, &entries), Ok(2));
    assert_eq!(inventory.list(), vec![host("a", "x"), host("b", "")]);
}

#[test]
fn scan_without_results_leaves_the_inventory() {
    let mut inventory = HostInventory::new();
    inventory.upsert(host("keep", "me")).unwrap();
    let before = inventory.clone();
    assert_eq!(DirectoryScanner::conclude(&mut inventory, &vec![]), Err(ScanError::NoneFound));
    assert_eq!(inventory, before);
    let nameless = vec![entry(None, Some("x")), entry(None, None)];
    assert_eq!(DirectoryScanner::conclude(&mut inventory, &nameless), Err(ScanError::NoneFound));
    assert_eq!(inventory, before);
}

#[test]
fn empty_realm_or_server_is_refused() {
    assert_eq!(
        DirectoryScanner::begin("", "dc1").err(),
        Some(failure(ScanError::InvalidInput(InputField::Realm), false))
    );
    assert_eq!(
        DirectoryScanner::begin("corp.com", "").err(),
        Some(failure(ScanError::InvalidInput(InputField::Server), false))
    );
    assert_eq!(
        DirectoryScanner::begin("", "").err(),
        Some(failure(ScanError::InvalidInput(InputField::Realm), false))
    );
}

#[test]
fn scan_walks_through_its_states() {
    let connecting = DirectoryScanner::begin("corp.example.com", "dc1").ok().unwrap();
    assert_eq!(connecting.url(), "ldap://dc1:389");
    let binding = connecting.answer(true).ok().unwrap();
    assert_eq!(binding.scope_key(), "QuickRDP");
    let credential = Credential { account: "bob".to_string(), secret: "pw".to_string() };
    let authenticating = binding.answer(Ok(Some(credential))).ok().unwrap();
    assert_eq!(authenticating.identity, "bob@corp.example.com");
    assert_eq!(authenticating.secret, "pw");
    let searching = authenticating.answer(true).ok().unwrap();
    assert_eq!(searching.base_dn, "DC=corp,DC=example,DC=com");
    let found = searching.answer(Ok(vec![entry(Some("a"), None), entry(None, None)])).ok().unwrap();
    assert_eq!(found.hosts, vec![host("a", "")]);
    assert_eq!(found.skipped, 1);
}

#[test]
fn unreachable_server() {
    let connecting = DirectoryScanner::begin("corp.com", "dc1").ok().unwrap();
    assert_eq!(connecting.answer(false).err(), Some(failure(ScanError::Unreachable, false)));
}

#[test]
fn scan_needs_the_global_credential() {
    let binding = DirectoryScanner::begin("corp.com", "dc1").ok().unwrap().answer(true).ok().unwrap();
    assert_eq!(
        binding.answer(Ok(None)).err(),
        Some(failure(ScanError::AuthRejected(AuthFailure::NoCredential), true))
    );
    let binding = DirectoryScanner::begin("corp.com", "dc1").ok().unwrap().answer(true).ok().unwrap();
    assert_eq!(
        binding.answer(Err(StoreError::Read)).err(),
        Some(failure(
            ScanError::AuthRejected(AuthFailure::CredentialUnreadable(StoreError::Read)),
            true
        ))
    );
}

fn searching() -> quickrdp::scanner::Searching {
    let credential = Credential { account: "bob".to_string(), secret: "pw".to_string() };
    DirectoryScanner::begin("corp.com", "dc1").ok().unwrap().answer(true).ok().unwrap()
        .answer(Ok(Some(credential))).ok().unwrap().answer(true).ok().unwrap()
}

#[test]
fn refused_bind_fails_and_closes_the_session() {
    let credential = Credential { account: "bob".to_string(), secret: "pw".to_string() };
    let authenticating = DirectoryScanner::begin("corp.com", "dc1").ok().unwrap()
        .answer(true).ok().unwrap().answer(Ok(Some(credential))).ok().unwrap();
    assert_eq!(
        authenticating.answer(false).err(),
        Some(failure(ScanError::AuthRejected(AuthFailure::BindRefused), true))
    );
}

#[test]
fn failed_search_fails_and_closes_the_session() {
    assert_eq!(
        searching().answer(Err(SearchFailure::Refused)).err(),
        Some(failure(ScanError::SearchFailed(SearchFailure::Refused), true))
    );
    assert_eq!(
        searching().answer(Err(SearchFailure::NotCarriedOut)).err(),
        Some(failure(ScanError::SearchFailed(SearchFailure::NotCarriedOut), true))
    );
}

#[test]
fn empty_search_is_none_found() {
    assert_eq!(searching().answer(Ok(vec![])).err(), Some(failure(ScanError::NoneFound, true)));
    assert_eq!(
        searching().answer(Ok(vec![entry(None, Some("x")), entry(None, None)])).err(),
        Some(ScanFailure { error: ScanError::NoneFound, session_open: true, warnings: 2 })
    );
}

#[test]
fn scan_error_messages() {
    assert_eq!(ScanError::InvalidInput(InputField::Realm).message(), "Domain name is empty");
    assert_eq!(ScanError::InvalidInput(InputField::Server).message(), "Server name is empty");
    assert_eq!(ScanError::Unreachable.message(), "Failed to connect to LDAP server");
    assert_eq!(
        ScanError::AuthRejected(AuthFailure::NoCredential).message(),
        "No stored credentials found. Please save your domain credentials in the login window first."
    );
    assert_eq!(
        ScanError::AuthRejected(AuthFailure::CredentialUnreadable(StoreError::Read)).message(),
        "Failed to retrieve credentials: Failed to read credentials"
    );
    assert_eq!(
        ScanError::AuthRejected(AuthFailure::BindRefused).message(),
        "Authenticated LDAP bind failed. Please verify your credentials have permission to query Active Directory."
    );
    assert_eq!(ScanError::SearchFailed(SearchFailure::Refused).message(), "LDAP search failed");
    assert_eq!(
        ScanError::SearchFailed(SearchFailure::NotCarriedOut).message(),
        "Failed to search LDAP"
    );
    assert_eq!(ScanError::NoneFound.message(), "No Windows Servers found in the domain.");
}

fn answers(reachable: bool, accepts_bind: bool, found: Result<Vec<DirectoryEntry>, SearchFailure>) -> DirectoryAnswers {
    DirectoryAnswers { reachable, accepts_bind, found }
}

fn inventory_with(name: &str) -> HostInventory {
    let mut inventory = HostInventory::new();
    inventory.upsert(host(name, "kept")).unwrap();
    inventory
}

#[test]
fn scan_end_to_end() {
    let mut store = SecretStore::new();
    store.save_global("bob", "pw").unwrap();
    store.save_for_host("srv1", "other", "x");
    let mut inventory = inventory_with("old");
    let found = vec![entry(Some("a.corp.com"), Some("A")), entry(None, None), entry(Some("b.corp.com"), None)];
    assert_eq!(
        DirectoryScanner::scan(&store, &mut inventory, "corp.com", "dc1", answers(true, true, Ok(found))),
        Ok(2)
    );
    assert_eq!(inventory.list(), vec![host("a.corp.com", "A"), host("b.corp.com", "")]);
}

#[test]
fn authenticated_scan_without_entries_reports_none_found() {
    let mut store = SecretStore::new();
    store.save_global("bob", "pw").unwrap();
    let mut inventory = inventory_with("old");
    let before = inventory.clone();
    assert_eq!(
        DirectoryScanner::scan(&store, &mut inventory, "corp.com", "dc1", answers(true, true, Ok(vec![]))),
        Err(ScanError::NoneFound)
    );
    assert_eq!(inventory, before);
}

#[test]
fn failed_scans_leave_the_inventory() {
    let mut store = SecretStore::new();
    let mut inventory = inventory_with("old");
    let before = inventory.clone();
    let found = || Ok(vec![entry(Some("a"), None)]);
    assert_eq!(
        DirectoryScanner::scan(&store, &mut inventory, "", "dc1", answers(true, true, found())),
        Err(ScanError::InvalidInput(InputField::Realm))
    );
    assert_eq!(
        DirectoryScanner::scan(&store, &mut inventory, "corp.com", "", answers(true, true, found())),
        Err(ScanError::InvalidInput(InputField::Server))
    );
    assert_eq!(
        DirectoryScanner::scan(&store, &mut inventory, "corp.com", "dc1", answers(false, true, found())),
        Err(ScanError::Unreachable)
    );
    assert_eq!(
        DirectoryScanner::scan(&store, &mut inventory, "corp.com", "dc1", answers(true, true, found())),
        Err(ScanError::AuthRejected(AuthFailure::NoCredential))
    );
    store.save_for_host("dc1", "bob", "pw");
    assert_eq!(
        DirectoryScanner::scan(&store, &mut inventory, "corp.com", "dc1", answers(true, true, found())),
        Err(ScanError::AuthRejected(AuthFailure::NoCredential))
    );
    store.save_global("bob", "pw").unwrap();
    assert_eq!(
        DirectoryScanner::scan(&store, &mut inventory, "corp.com", "dc1", answers(true, false, found())),
        Err(ScanError::AuthRejected(AuthFailure::BindRefused))
    );
    assert_eq!(
        DirectoryScanner::scan(
            &store,
            &mut inventory,
            "corp.com",
            "dc1",
            answers(true, true, Err(SearchFailure::Refused))
        ),
        Err(ScanError::SearchFailed(SearchFailure::Refused))
    );
    assert_eq!(inventory, before);
}
