//! Launching a session: resolve the credential, write the connection
//! artifact, have the platform open it, and keep the books.
//!
//! The caller writes the artifact and opens it; `ArtifactPending` and
//! `OpenPending` take the outcome of each. Everything up to the opening is
//! fatal when it fails. What follows a successful opening (the recent
//! connections, the stamp on the host) is best effort and never turns a
//! launch into a failure.

use vstd::prelude::*;
use crate::artifact::{
    artifact_file_name, artifact_text, ArtifactFolder, ConnectionArtifact,
    ConnectionArtifactBuilder, Folder,
};
use crate::credential::{host_scope, Credential, CredentialText, GLOBAL_SCOPE};
use crate::identity::{parse_login, Identity, DOWN_LEVEL_SEPARATOR, PRINCIPAL_SEPARATOR};
use crate::inventory::{
    first_named, lemma_failed_stamping, stamping_of, Host, HostInventory, InventoryError,
};
use crate::recent::{recorded, RecentConnectionText, RecentConnections};
use crate::resolver::{lemma_provisioned_identity, resolution, CredentialResolver, ResolveError};
use crate::secret_store::{read_of, SecretStore, Vault};
use crate::text::{signed_decimal, signed_decimal_of};

verus! {

/// The highest status of the platform's document opener that reports a
/// failure. Every status above it reports success.
pub const OPEN_FAILURE_LIMIT: i32 = 32;

/// Why a launch failed.
#[derive(Clone, Copy, Debug, PartialEq, Eq, Structural)]
pub enum LaunchError {
    /// No credential could be resolved for the host.
    ResolveFailed(ResolveError),
    /// The connection artifact could not be written.
    ArtifactWriteFailed,
    /// The platform could not open the connection artifact; its status is
    /// attached.
    OpenFailed(i32),
}

impl LaunchError {
    /// The message that the user is shown for this failure.
    pub open spec fn message_text(self) -> Seq<char> {
        match self {
            LaunchError::ResolveFailed(e) => e.message_text(),
            LaunchError::ArtifactWriteFailed => "Failed to write RDP file"@,
            LaunchError::OpenFailed(status) => "Failed to open RDP file. Error code: "@
                + signed_decimal_of(status as int),
        }
    }

    /// The message that the user is shown for this failure.
    pub fn message(&self) -> (text: String)
        ensures
            text@ == self.message_text(),
    {
        match self {
            LaunchError::ResolveFailed(e) => e.message(),
            LaunchError::ArtifactWriteFailed => String::from_str("Failed to write RDP file"),
            LaunchError::OpenFailed(status) => {
                let mut text = String::from_str("Failed to open RDP file. Error code: ");
                let code = signed_decimal(*status as i64);
                text.append(code.as_str());
                text
            },
        }
    }
}

/// The artifact that a resolved credential leads to: the stored account
/// is parsed, whether it came from the host's own entry or from the global
/// one, and the document is rendered for its parts.
pub open spec fn planned_text(hostname: Seq<char>, credential: CredentialText) -> Seq<char> {
    artifact_text(hostname, parse_login(credential.account))
}

/// The launch waits for the connection artifact to be written.
pub struct ArtifactPending {
    pub hostname: String,
    pub description: String,
    /// The artifact to write, in place of an earlier one for the host.
    pub artifact: ConnectionArtifact,
}

/// The launch waits for the platform to open the written artifact.
pub struct OpenPending {
    pub hostname: String,
    pub description: String,
    /// The path of the written artifact: the document to open.
    pub path: String,
}

/// The session is launched. What is left is best effort: to record the
/// connection in the recent-connections log, and to stamp the host in the
/// inventory with the time of the launch.
#[derive(Clone, Debug, PartialEq, Eq)]
pub struct Launched {
    pub hostname: String,
    pub description: String,
}

impl Launched {
    /// Keeps the books of the launch: the connection is recorded in the
    /// recent-connections log as made now, and the host is stamped in the
    /// inventory as last connected to now, in local time at `utc_offset`.
    /// The recording cannot fail. A stamping that fails, for want of a
    /// time or because the inventory does not know the host, leaves the
    /// inventory as it is and is reported; the launch stands.
    pub fn keep_books(
        &self,
        recent: &mut RecentConnections,
        inventory: &mut HostInventory,
        utc_offset: i32,
    ) -> (stamping: Result<(), InventoryError>)
        ensures
            exists|timestamp: u64|
                final(recent)@ == recorded(
                    old(recent)@,
                    RecentConnectionText {
                        hostname: self.hostname@,
                        description: self.description@,
                        timestamp,
                    },
                ),
            exists|stamp: Option<Seq<char>>|
                final(inventory)@ == (#[trigger] stamping_of(
                    old(inventory)@,
                    self.hostname@,
                    stamp,
                )).0 && stamping == stamping_of(old(inventory)@, self.hostname@, stamp).1,
            stamping.is_err() ==> final(inventory)@ == old(inventory)@,
            first_named(old(inventory)@, self.hostname@) >= old(inventory)@.len()
                ==> stamping.is_err(),
    {
        recent.add_connection(self.hostname.clone(), self.description.clone());
        let stamping = inventory.stamp_now(self.hostname.as_str(), utc_offset);
        proof {
            let stamp = choose|stamp: Option<Seq<char>>|
                inventory@ == (#[trigger] stamping_of(old(inventory)@, self.hostname@, stamp)).0
                    && stamping == stamping_of(old(inventory)@, self.hostname@, stamp).1;
            if stamping.is_err() {
                lemma_failed_stamping(old(inventory)@, self.hostname@, stamp);
            }
        }
        stamping
    }
}

/// The entry point of a launch.
pub struct SessionLauncher;

impl SessionLauncher {
    /// Takes the outcome of the credential resolution for `host`. With a
    /// credential, the artifact is rendered for the identity that the
    /// stored account parses to; without one, the launch has failed and
    /// there is no artifact.
    pub fn resolved(host: &Host, credential: Result<Credential, ResolveError>) -> (next: Result<
        ArtifactPending,
        LaunchError,
    >)
        ensures
            match credential {
                Ok(c) => next matches Ok(pending) && pending.hostname@ == host.hostname@
                    && pending.description@ == host.description@ && pending.artifact.file_name@
                    == artifact_file_name(host.hostname@) && pending.artifact.content@
                    == planned_text(host.hostname@, c@),
                Err(e) => next matches Err(failure) && failure == LaunchError::ResolveFailed(e),
            },
    {
        match credential {
            Ok(c) => {
                let identity = Identity::parse(c.account.as_str());
                Ok(
                    ArtifactPending {
                        hostname: host.hostname.clone(),
                        description: host.description.clone(),
                        artifact: ConnectionArtifactBuilder::build(
                            host.hostname.as_str(),
                            &identity,
                        ),
                    },
                )
            },
            Err(e) => Err(LaunchError::ResolveFailed(e)),
        }
    }

    /// Resolves the credential for `host` against `store` and renders the
    /// artifact. Where no credential can be resolved there is no artifact.
    pub fn prepare(store: &mut SecretStore, host: &Host) -> (next: Result<
        ArtifactPending,
        LaunchError,
    >)
        ensures
            final(store)@ == resolution(old(store)@, host.hostname@).vault,
            final(store).writes() == old(store).writes() + resolution(
                old(store)@,
                host.hostname@,
            ).writes,
            match resolution(old(store)@, host.hostname@).result {
                Ok(c) => next matches Ok(pending) && pending.hostname@ == host.hostname@
                    && pending.description@ == host.description@ && pending.artifact.file_name@
                    == artifact_file_name(host.hostname@) && pending.artifact.content@
                    == planned_text(host.hostname@, c),
                Err(e) => next matches Err(failure) && failure == LaunchError::ResolveFailed(e),
            },
    {
        let credential = CredentialResolver::resolve(store, host.hostname.as_str());
        SessionLauncher::resolved(host, credential)
    }

    /// Resolves the credential for `host` against `store` and writes the
    /// artifact into `folder`, and gives the name of the file to open.
    /// Where no credential can be resolved, nothing is written into the
    /// folder.
    pub fn provision(store: &mut SecretStore, folder: &mut ArtifactFolder, host: &Host) -> (next:
        Result<String, LaunchError>)
        ensures
            final(store)@ == provision_of(old(store)@, old(folder)@, host.hostname@).vault,
            final(store).writes() == old(store).writes() + provision_of(
                old(store)@,
                old(folder)@,
                host.hostname@,
            ).writes,
            final(folder)@ == provision_of(old(store)@, old(folder)@, host.hostname@).folder,
            match provision_of(old(store)@, old(folder)@, host.hostname@).result {
                Ok(file_name) => next matches Ok(name) && name@ == file_name,
                Err(e) => next matches Err(failure) && failure == e,
            },
    {
        match SessionLauncher::prepare(store, host) {
            Ok(pending) => {
                let file_name = pending.artifact.file_name.clone();
                folder.write(pending.artifact);
                Ok(file_name)
            },
            Err(e) => Err(e),
        }
    }
}

impl SessionLauncher {
    /// Launches a session to `host` against owned images of the store,
    /// the connections directory, the recent-connections log and the
    /// inventory, given the status `open_status` with which the platform
    /// answers the opening of the artifact, and the offset `utc_offset`
    /// of local time from UTC.
    ///
    /// The credential is resolved and the artifact written; a failure of
    /// either ends the launch. A refused opening ends it too. After that
    /// the launch has succeeded, and the books are kept as far as they can
    /// be.
    pub fn launch(
        store: &mut SecretStore,
        folder: &mut ArtifactFolder,
        recent: &mut RecentConnections,
        inventory: &mut HostInventory,
        host: &Host,
        open_status: i32,
        utc_offset: i32,
    ) -> (outcome: Result<(), LaunchError>)
        ensures
            final(store)@ == provision_of(old(store)@, old(folder)@, host.hostname@).vault,
            final(store).writes() == old(store).writes() + provision_of(
                old(store)@,
                old(folder)@,
                host.hostname@,
            ).writes,
            final(folder)@ == provision_of(old(store)@, old(folder)@, host.hostname@).folder,
            outcome == launch_outcome(
                provision_of(old(store)@, old(folder)@, host.hostname@).result,
                open_status,
            ),
            outcome.is_err() ==> final(recent)@ == old(recent)@ && final(inventory)@ == old(inventory)@,
            outcome.is_ok() ==> (exists|timestamp: u64|
                final(recent)@ == recorded(
                    old(recent)@,
                    RecentConnectionText {
                        hostname: host.hostname@,
                        description: host.description@,
                        timestamp,
                    },
                )) && (exists|stamp: Option<Seq<char>>|
                final(inventory)@ == (#[trigger] stamping_of(
                    old(inventory)@,
                    host.hostname@,
                    stamp,
                )).0),
    {
        let path = match SessionLauncher::provision(store, folder, host) {
            Ok(file_name) => file_name,
            Err(e) => {
                return Err(e);
            },
        };
        let pending = OpenPending {
            hostname: host.hostname.clone(),
            description: host.description.clone(),
            path,
        };
        match pending.answer(open_status) {
            Ok(launched) => {
                let _ = launched.keep_books(recent, inventory, utc_offset);
                Ok(())
            },
            Err(e) => Err(e),
        }
    }
}

/// The outcome of a launch whose provisioning came to `provisioned` and
/// whose artifact the platform opened with `open_status`.
pub open spec fn launch_outcome(provisioned: Result<Seq<char>, LaunchError>, open_status: i32) -> Result<
    (),
    LaunchError,
> {
    match provisioned {
        Err(e) => Err(e),
        Ok(_) => if open_status <= OPEN_FAILURE_LIMIT {
            Err(LaunchError::OpenFailed(open_status))
        } else {
            Ok(())
        },
    }
}

/// What the provisioning of a launch comes to: the name of the file to
/// open or the failure, the vault and the folder after it, and the number
/// of entries written to the vault.
pub struct ProvisionText {
    pub result: Result<Seq<char>, LaunchError>,
    pub vault: Vault,
    pub writes: nat,
    pub folder: Folder,
}

/// The provisioning of a launch to `hostname`: the credential is
/// resolved against `vault`, and with it the artifact is written into
/// `folder`, in place of an earlier one for the host. Without a
/// credential the folder stays as it is.
pub open spec fn provision_of(vault: Vault, folder: Folder, hostname: Seq<char>) -> ProvisionText {
    let resolved = resolution(vault, hostname);
    match resolved.result {
        Ok(credential) => ProvisionText {
            result: Ok(artifact_file_name(hostname)),
            vault: resolved.vault,
            writes: resolved.writes,
            folder: folder.insert(
                artifact_file_name(hostname),
                planned_text(hostname, credential),
            ),
        },
        Err(e) => ProvisionText {
            result: Err(LaunchError::ResolveFailed(e)),
            vault: resolved.vault,
            writes: resolved.writes,
            folder,
        },
    }
}

impl ArtifactPending {
    /// Takes the outcome of writing the artifact: the path of the written
    /// file, or nothing when the write failed.
    pub fn answer(self, written: Option<String>) -> (next: Result<OpenPending, LaunchError>)
        ensures
            match written {
                Some(path) => next matches Ok(pending) && pending.path@ == path@
                    && pending.hostname@ == self.hostname@ && pending.description@
                    == self.description@,
                None => next matches Err(failure) && failure == LaunchError::ArtifactWriteFailed,
            },
    {
        match written {
            Some(path) => Ok(
                OpenPending { hostname: self.hostname, description: self.description, path },
            ),
            None => Err(LaunchError::ArtifactWriteFailed),
        }
    }
}

impl OpenPending {
    /// Takes the status that the platform's document opener returned. A
    /// status up to `OPEN_FAILURE_LIMIT` is a failure and is handed on.
    pub fn answer(self, status: i32) -> (outcome: Result<Launched, LaunchError>)
        ensures
            match outcome {
                Ok(launched) => status > OPEN_FAILURE_LIMIT && launched.hostname@
                    == self.hostname@ && launched.description@ == self.description@,
                Err(failure) => status <= OPEN_FAILURE_LIMIT && failure == LaunchError::OpenFailed(
                    status,
                ),
            },
    {
        if status <= OPEN_FAILURE_LIMIT {
            Err(LaunchError::OpenFailed(status))
        } else {
            Ok(Launched { hostname: self.hostname, description: self.description })
        }
    }
}

/// A launch for a host without an entry of its own, where no global
/// credential is stored either, fails for want of a credential: no
/// artifact is written, and nothing is written to the vault.
pub proof fn lemma_no_credential_no_artifact(vault: Vault, folder: Folder, hostname: Seq<char>)
    requires
        !vault.dom().contains(host_scope(hostname)),
        !vault.dom().contains(GLOBAL_SCOPE@),
    ensures
        provision_of(vault, folder, hostname).result == Err::<Seq<char>, LaunchError>(
            LaunchError::ResolveFailed(ResolveError::NoCredentialAvailable),
        ),
        provision_of(vault, folder, hostname).folder == folder,
        provision_of(vault, folder, hostname).vault == vault,
        provision_of(vault, folder, hostname).writes == 0,
{
}

/// Launching twice with the global credential writes the same document
/// both times, unless the global login begins with a backslash and holds
/// another separator after it.
pub proof fn lemma_relaunch_same_artifact(vault: Vault, folder: Folder, hostname: Seq<char>)
    requires
        !vault.dom().contains(host_scope(hostname)),
        read_of(vault, GLOBAL_SCOPE@) matches Ok(Some(_)),
        ({
            let login = read_of(vault, GLOBAL_SCOPE@).unwrap().unwrap().account;
            !(login.len() > 0 && login[0] == DOWN_LEVEL_SEPARATOR && (login.subrange(
                1,
                login.len() as int,
            ).contains(DOWN_LEVEL_SEPARATOR) || login.subrange(1, login.len() as int).contains(
                PRINCIPAL_SEPARATOR,
            )))
        }),
    ensures
        ({
            let first = provision_of(vault, folder, hostname);
            let second = provision_of(first.vault, first.folder, hostname);
            &&& first.result.is_ok()
            &&& second.result == first.result
            &&& second.folder == first.folder
            &&& second.vault == first.vault
            &&& second.writes == 0
        }),
{
    lemma_provisioned_identity(vault, hostname);
    let first = provision_of(vault, folder, hostname);
    let second = provision_of(first.vault, first.folder, hostname);
    assert(first.vault.dom().contains(host_scope(hostname)));
    assert(second.folder =~= first.folder);
}

/// Provisioning the launch to a host twice leaves one file for the host,
/// with the document of the second time and nothing else in it.
pub proof fn lemma_provision_again_overwrites(vault: Vault, folder: Folder, hostname: Seq<char>)
    requires
        provision_of(vault, folder, hostname).result.is_ok(),
    ensures
        ({
            let first = provision_of(vault, folder, hostname);
            let second = provision_of(first.vault, first.folder, hostname);
            &&& second.folder.dom() == folder.dom().insert(artifact_file_name(hostname))
            &&& first.folder.dom() == second.folder.dom()
            &&& second.result.is_ok() ==> second.folder[artifact_file_name(hostname)]
                == planned_text(
                hostname,
                resolution(first.vault, hostname).result.unwrap(),
            )
        }),
{
    let first = provision_of(vault, folder, hostname);
    let second = provision_of(first.vault, first.folder, hostname);
    assert(first.folder.dom() =~= folder.dom().insert(artifact_file_name(hostname)));
    assert(second.folder.dom() =~= folder.dom().insert(artifact_file_name(hostname)));
}

} // verus!
