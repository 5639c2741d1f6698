use quickrdp::artifact::ArtifactFolder;
use quickrdp::credential::{Credential, StoreError};
use quickrdp::inventory::{Host, HostInventory, InventoryError};
use quickrdp::recent::RecentConnections;
use quickrdp::launcher::{LaunchError, Launched, SessionLauncher, OPEN_FAILURE_LIMIT};
use quickrdp::resolver::ResolveError;
use quickrdp::secret_store::SecretStore;

fn host(name: &str, description: &str) -> Host {
    Host { hostname: name.to_string(), description: description.to_string(), last_connected: None }
}

fn credential(account: &str, secret: &str) -> Credential {
    Credential { account: account.to_string(), secret: secret.to_string() }
}

#[test]
fn launch_without_any_credential_produces_no_artifact() {
    let mut store = SecretStore::new();
    let mut folder = ArtifactFolder::new();
    assert_eq!(
        SessionLauncher::provision(&mut store, &mut folder, &host("srv1", "")),
        Err(LaunchError::ResolveFailed(ResolveError::NoCredentialAvailable))
    );
    assert_eq!(folder.read("srv1.rdp"), None);
    assert_eq!(store.enumerate("*").len(), 0);
    assert!(SessionLauncher::prepare(&mut store, &host("srv1", "")).is_err());
}

#[test]
fn launch_with_the_global_credential() {
    let mut store = SecretStore::new();
    store.save_global("bob@corp.com", "s3cr3t!").unwrap();
    let mut folder = ArtifactFolder::new();
    assert_eq!(
        SessionLauncher::provision(&mut store, &mut folder, &host("srv1", "first")),
        Ok("srv1.rdp".to_string())
    );
    let document = folder.read("srv1.rdp").unwrap();
    assert!(document.contains("\r\nfull address:s:srv1\r\n"));
    assert!(document.contains("\r\nusername:s:bob\r\n"));
    assert!(document.contains("\r\ndomain:s:corp.com\r\n"));
    assert!(!document.contains("s3cr3t!"));
    assert_eq!(store.read_for_host("srv1"), Ok(Some(credential("corp.com\\bob", "s3cr3t!"))));
    assert_eq!(
        SessionLauncher::provision(&mut store, &mut folder, &host("srv1", "first")),
        Ok("srv1.rdp".to_string())
    );
    assert_eq!(folder.read("srv1.rdp"), Some(document));
}

#[test]
fn launch_with_the_credential_of_the_host() {
    let mut store = SecretStore::new();
    store.save_global("bob@corp.com", "pw").unwrap();
    store.save("TERMSRV/srv1", "LAB\\amy", "0wn!");
    let pending = SessionLauncher::prepare(&mut store, &host("srv1", "lab")).ok().unwrap();
    assert_eq!(pending.hostname, "srv1");
    assert_eq!(pending.description, "lab");
    assert_eq!(pending.artifact.file_name, "srv1.rdp");
    assert!(pending.artifact.content.contains("\r\nusername:s:amy\r\n"));
    assert!(pending.artifact.content.contains("\r\ndomain:s:LAB\r\n"));
    assert!(!pending.artifact.content.contains("0wn!"));
}

#[test]
fn launch_walks_through_its_states() {
    let pending = SessionLauncher::resolved(&host("srv1", "first"), Ok(credential("CORP\\bob", "pw")))
        .ok()
        .unwrap();
    let pending = pending.answer(Some("C:\\data\\srv1.rdp".to_string())).ok().unwrap();
    assert_eq!(pending.path, "C:\\data\\srv1.rdp");
    assert_eq!(
        pending.answer(33),
        Ok(Launched { hostname: "srv1".to_string(), description: "first".to_string() })
    );
}

#[test]
fn failed_resolution_fails_the_launch() {
    assert_eq!(
        SessionLauncher::resolved(&host("srv1", ""), Err(ResolveError::Store(StoreError::Write)))
            .err(),
        Some(LaunchError::ResolveFailed(ResolveError::Store(StoreError::Write)))
    );
}

#[test]
fn failed_write_fails_the_launch() {
    let pending =
        SessionLauncher::resolved(&host("srv1", ""), Ok(credential("bob", "pw"))).ok().unwrap();
    assert_eq!(pending.answer(None).err(), Some(LaunchError::ArtifactWriteFailed));
}

fn open_pending() -> quickrdp::launcher::OpenPending {
    SessionLauncher::resolved(&host("srv1", ""), Ok(credential("bob", "pw")))
        .ok()
        .unwrap()
        .answer(Some("srv1.rdp".to_string()))
        .ok()
        .unwrap()
}

#[test]
fn open_status_up_to_the_limit_is_a_failure() {
    assert_eq!(OPEN_FAILURE_LIMIT, 32);
    assert_eq!(open_pending().answer(32), Err(LaunchError::OpenFailed(32)));
    assert_eq!(open_pending().answer(2), Err(LaunchError::OpenFailed(2)));
    assert_eq!(open_pending().answer(0), Err(LaunchError::OpenFailed(0)));
    assert_eq!(open_pending().answer(-1), Err(LaunchError::OpenFailed(-1)));
    assert!(open_pending().answer(33).is_ok());
    assert!(open_pending().answer(i32::MAX).is_ok());
}

#[test]
fn launch_error_messages() {
    assert_eq!(
        LaunchError::ResolveFailed(ResolveError::NoCredentialAvailable).message(),
        "No credentials found. Please save credentials in the login window first."
    );
    assert_eq!(LaunchError::ArtifactWriteFailed.message(), "Failed to write RDP file");
    assert_eq!(LaunchError::OpenFailed(2).message(), "Failed to open RDP file. Error code: 2");
    assert_eq!(LaunchError::OpenFailed(-31).message(), "Failed to open RDP file. Error code: -31");
    assert_eq!(
        LaunchError::OpenFailed(i32::MIN).message(),
        "Failed to open RDP file. Error code: -2147483648"
    );
}

#[test]
fn books_are_kept_after_a_launch() {
    let mut recent = RecentConnections::new();
    recent.add_connection_at("old".to_string(), String::new(), 1);
    let mut inventory = HostInventory::new();
    inventory.upsert(host("srv1", "first")).unwrap();
    inventory.upsert(host("srv2", "second")).unwrap();
    let launched = Launched { hostname: "srv1".to_string(), description: "first".to_string() };
    assert_eq!(launched.keep_books(&mut recent, &mut inventory, 3600), Ok(()));
    assert_eq!(recent.connections.len(), 2);
    assert_eq!(recent.connections[0].hostname, "srv1");
    assert_eq!(recent.connections[0].description, "first");
    assert_eq!(recent.connections[1].hostname, "old");
    let hosts = inventory.list();
    assert_eq!(hosts[0].last_connected.as_ref().map(|s| s.len()), Some(19));
    assert_eq!(hosts[1], host("srv2", "second"));
}

#[test]
fn launch_to_an_unknown_host_still_counts() {
    let mut recent = RecentConnections::new();
    let mut inventory = HostInventory::new();
    inventory.upsert(host("srv2", "second")).unwrap();
    let launched = Launched { hostname: "srv1".to_string(), description: String::new() };
    assert_eq!(
        launched.keep_books(&mut recent, &mut inventory, 3600),
        Err(InventoryError::UnknownHost)
    );
    assert_eq!(recent.connections.len(), 1);
    assert_eq!(inventory.list(), vec![host("srv2", "second")]);
}

#[test]
fn relaunch_writes_the_same_document() {
    let mut store = SecretStore::new();
    store.save_global("bob@corp.com", "s3cr3t!").unwrap();
    let first = SessionLauncher::prepare(&mut store, &host("srv1", "")).ok().unwrap();
    let second = SessionLauncher::prepare(&mut store, &host("srv1", "")).ok().unwrap();
    assert_eq!(first.artifact, second.artifact);
}

#[test]
fn relaunch_with_a_leading_backslash_changes_the_document() {
    let mut store = SecretStore::new();
    store.save_global("\\a@b", "s3cr3t!").unwrap();
    let first = SessionLauncher::prepare(&mut store, &host("srv1", "")).ok().unwrap();
    assert!(first.artifact.content.contains("\r\nusername:s:a@b\r\ndomain:s:\r\n"));
    let second = SessionLauncher::prepare(&mut store, &host("srv1", "")).ok().unwrap();
    assert!(second.artifact.content.contains("\r\nusername:s:a\r\ndomain:s:b\r\n"));
}

#[test]
fn launch_end_to_end() {
    let mut store = SecretStore::new();
    store.save_global("CORP\\bob", "s3cr3t!").unwrap();
    let mut folder = ArtifactFolder::new();
    let mut recent = RecentConnections::new();
    let mut inventory = HostInventory::new();
    inventory.upsert(host("srv1", "first")).unwrap();
    assert_eq!(
        SessionLauncher::launch(
            &mut store,
            &mut folder,
            &mut recent,
            &mut inventory,
            &host("srv1", "first"),
            42,
            0
        ),
        Ok(())
    );
    assert!(folder.read("srv1.rdp").unwrap().contains("\r\nusername:s:bob\r\ndomain:s:CORP\r\n"));
    assert_eq!(store.read_for_host("srv1"), Ok(Some(credential("CORP\\bob", "s3cr3t!"))));
    assert_eq!(recent.connections.len(), 1);
    assert_eq!(recent.connections[0].hostname, "srv1");
    assert!(inventory.list()[0].last_connected.is_some());
}

#[test]
fn refused_opening_keeps_no_books() {
    let mut store = SecretStore::new();
    store.save_global("bob", "s3cr3t!").unwrap();
    let mut folder = ArtifactFolder::new();
    let mut recent = RecentConnections::new();
    let mut inventory = HostInventory::new();
    inventory.upsert(host("srv1", "first")).unwrap();
    assert_eq!(
        SessionLauncher::launch(
            &mut store,
            &mut folder,
            &mut recent,
            &mut inventory,
            &host("srv1", "first"),
            31,
            0
        ),
        Err(LaunchError::OpenFailed(31))
    );
    assert!(folder.read("srv1.rdp").is_some());
    assert_eq!(recent.connections.len(), 0);
    assert_eq!(inventory.list(), vec![host("srv1", "first")]);
}

#[test]
fn launch_without_credential_touches_nothing() {
    let mut store = SecretStore::new();
    let mut folder = ArtifactFolder::new();
    let mut recent = RecentConnections::new();
    let mut inventory = HostInventory::new();
    inventory.upsert(host("srv1", "first")).unwrap();
    assert_eq!(
        SessionLauncher::launch(
            &mut store,
            &mut folder,
            &mut recent,
            &mut inventory,
            &host("srv1", "first"),
            42,
            0
        ),
        Err(LaunchError::ResolveFailed(ResolveError::NoCredentialAvailable))
    );
    assert_eq!(folder.read("srv1.rdp"), None);
    assert_eq!(store.enumerate("*").len(), 0);
    assert_eq!(recent.connections.len(), 0);
    assert_eq!(inventory.list(), vec![host("srv1", "first")]);
}

#[test]
fn launch_with_a_saved_host_credential_recovers_the_realm() {
    let mut store = SecretStore::new();
    store.save_for_host("srv1", "CORP\\bob", "s3cr3t!");
    let pending = SessionLauncher::prepare(&mut store, &host("srv1", "")).ok().unwrap();
    assert!(pending.artifact.content.contains("\r\nusername:s:bob\r\ndomain:s:CORP\r\n"));
    assert_eq!(store.read_for_host("srv1"), Ok(Some(credential("CORP\\bob", "s3cr3t!"))));
}

#[test]
fn books_without_a_time_zone_leave_the_host_unstamped() {
    let mut recent = RecentConnections::new();
    let mut inventory = HostInventory::new();
    inventory.upsert(host("srv1", "first")).unwrap();
    let launched = Launched { hostname: "srv1".to_string(), description: "first".to_string() };
    assert_eq!(
        launched.keep_books(&mut recent, &mut inventory, 86_400),
        Err(InventoryError::Undated)
    );
    assert_eq!(recent.connections.len(), 1);
    assert_eq!(inventory.list(), vec![host("srv1", "first")]);
}
