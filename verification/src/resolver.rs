//! Which credential applies to a host: its own entry, or else the global
//! one, which is then provisioned for the host.
//!
//! The resolver never touches the platform. Each state names the store
//! operation it waits for; the caller performs it and hands the outcome to
//! `answer`, which gives the next state. `CredentialResolver::resolve` does
//! so against a `SecretStore`.

use vstd::prelude::*;
use crate::credential::{
    global_scope_key, host_scope, host_scope_key, Credential, CredentialText, StoreError,
    GLOBAL_SCOPE,
};
use crate::identity::{
    lemma_parsed_requalifiable, lemma_qualified_characters, parse_login, qualified, Identity,
    DOWN_LEVEL_SEPARATOR, PRINCIPAL_SEPARATOR,
};
use crate::secret_store::{read_of, SecretStore, Vault};
use crate::vault_entry::{
    credential_of, entry_of, lemma_account_nul_free, lemma_entry_round_trip, lemma_trimmed,
};
use crate::wide::{text_of_utf16, units_of_le_bytes};

verus! {

/// Why no credential could be resolved.
#[derive(Clone, Copy, Debug, PartialEq, Eq, Structural)]
pub enum ResolveError {
    /// Neither the host nor the application has a stored credential: the
    /// user has to supply one first.
    NoCredentialAvailable,
    /// The secret store failed.
    Store(StoreError),
}

impl ResolveError {
    /// The message that the user is shown for this failure.
    pub open spec fn message_text(self) -> Seq<char> {
        match self {
            ResolveError::NoCredentialAvailable => "No credentials found. Please save credentials in the login window first."@,
            ResolveError::Store(e) => e.message_text(),
        }
    }

    /// The message that the user is shown for this failure.
    pub fn message(&self) -> (text: String)
        ensures
            text@ == self.message_text(),
    {
        match self {
            ResolveError::NoCredentialAvailable => String::from_str(
                "No credentials found. Please save credentials in the login window first.",
            ),
            ResolveError::Store(e) => e.message(),
        }
    }
}

/// The account under which a login is provisioned for a host: its
/// qualified form.
pub open spec fn provisioned_account(login: Seq<char>) -> Seq<char> {
    qualified(parse_login(login))
}

/// Waiting for the read of the host's own entry.
pub struct HostEntryPending {
    pub hostname: String,
}

/// Waiting for the read of the global entry.
pub struct GlobalEntryPending {
    pub hostname: String,
}

/// Waiting for the global credential to be saved under the host's scope
/// key.
pub struct ProvisionPending {
    /// The scope key to save under.
    pub scope_key: String,
    /// The account to save.
    pub account: String,
    /// The secret to save.
    pub secret: String,
    /// The credential that the resolution yields once the save is done.
    pub credential: Credential,
}

/// What follows the read of the host's own entry.
pub enum AfterHostEntry {
    /// The host has its own credential; nothing is written.
    Resolved(Credential),
    /// The read failed.
    Failed(ResolveError),
    /// The host has no entry: the global entry is to be read.
    ReadGlobal(GlobalEntryPending),
}

/// What follows the read of the global entry.
pub enum AfterGlobalEntry {
    /// There is no global credential either, or the read failed.
    Failed(ResolveError),
    /// The global credential is to be saved for the host.
    Provision(ProvisionPending),
}

impl HostEntryPending {
    /// The scope key to read.
    pub fn scope_key(&self) -> (key: String)
        ensures
            key@ == host_scope(self.hostname@),
    {
        host_scope_key(self.hostname.as_str())
    }

    /// Takes the outcome of the read. An entry of the host's own is
    /// authoritative; its absence leads on to the global entry.
    pub fn answer(self, read: Result<Option<Credential>, StoreError>) -> (next: AfterHostEntry)
        ensures
            match read {
                Ok(Some(credential)) => next matches AfterHostEntry::Resolved(c) && c@
                    == credential@,
                Ok(None) => next matches AfterHostEntry::ReadGlobal(pending) && pending.hostname@
                    == self.hostname@,
                Err(e) => next matches AfterHostEntry::Failed(f) && f == ResolveError::Store(e),
            },
    {
        match read {
            Ok(Some(credential)) => AfterHostEntry::Resolved(credential),
            Ok(None) => AfterHostEntry::ReadGlobal(GlobalEntryPending { hostname: self.hostname }),
            Err(e) => AfterHostEntry::Failed(ResolveError::Store(e)),
        }
    }
}

impl GlobalEntryPending {
    /// The scope key to read.
    pub fn scope_key(&self) -> (key: String)
        ensures
            key@ == GLOBAL_SCOPE@,
    {
        global_scope_key()
    }

    /// Takes the outcome of the read. A global credential is provisioned
    /// for the host under its qualified account; without one there is
    /// nothing to connect with.
    pub fn answer(self, read: Result<Option<Credential>, StoreError>) -> (next: AfterGlobalEntry)
        ensures
            match read {
                Ok(Some(credential)) => next matches AfterGlobalEntry::Provision(pending)
                    && pending.scope_key@ == host_scope(self.hostname@) && pending.account@
                    == provisioned_account(credential.account@) && pending.secret@
                    == credential.secret@ && pending.credential@ == credential@,
                Ok(None) => next matches AfterGlobalEntry::Failed(f) && f
                    == ResolveError::NoCredentialAvailable,
                Err(e) => next matches AfterGlobalEntry::Failed(f) && f == ResolveError::Store(e),
            },
    {
        match read {
            Ok(Some(credential)) => {
                let identity = Identity::parse(credential.account.as_str());
                AfterGlobalEntry::Provision(
                    ProvisionPending {
                        scope_key: host_scope_key(self.hostname.as_str()),
                        account: identity.qualified_account(),
                        secret: credential.secret.clone(),
                        credential,
                    },
                )
            },
            Ok(None) => AfterGlobalEntry::Failed(ResolveError::NoCredentialAvailable),
            Err(e) => AfterGlobalEntry::Failed(ResolveError::Store(e)),
        }
    }
}

impl ProvisionPending {
    /// Takes the outcome of the save: the global credential once it is
    /// provisioned, the failure otherwise.
    pub fn answer(self, saved: Result<(), StoreError>) -> (outcome: Result<Credential, ResolveError>)
        ensures
            match saved {
                Ok(_) => outcome matches Ok(c) && c@ == self.credential@,
                Err(e) => outcome == Err::<Credential, ResolveError>(ResolveError::Store(e)),
            },
    {
        match saved {
            Ok(_) => Ok(self.credential),
            Err(e) => Err(ResolveError::Store(e)),
        }
    }
}

/// What a resolution comes to: its result, the vault after it, and the
/// number of entries it wrote.
pub struct ResolutionText {
    pub result: Result<CredentialText, ResolveError>,
    pub vault: Vault,
    pub writes: nat,
}

/// The resolution of `hostname` against `vault`.
///
/// The host's own entry, where there is one, is the result and nothing is
/// written. Else the global credential is the result, and it is written
/// once, under the host's scope key and its qualified account. With
/// neither, or when an entry that is read cannot be decoded, the resolution
/// fails and nothing is written.
pub open spec fn resolution(vault: Vault, hostname: Seq<char>) -> ResolutionText {
    match read_of(vault, host_scope(hostname)) {
        Ok(Some(credential)) => ResolutionText { result: Ok(credential), vault, writes: 0 },
        Err(e) => ResolutionText { result: Err(ResolveError::Store(e)), vault, writes: 0 },
        Ok(None) => match read_of(vault, GLOBAL_SCOPE@) {
            Ok(Some(credential)) => ResolutionText {
                result: Ok(credential),
                vault: vault.insert(
                    host_scope(hostname),
                    entry_of(provisioned_account(credential.account), credential.secret),
                ),
                writes: 1,
            },
            Ok(None) => ResolutionText {
                result: Err(ResolveError::NoCredentialAvailable),
                vault,
                writes: 0,
            },
            Err(e) => ResolutionText { result: Err(ResolveError::Store(e)), vault, writes: 0 },
        },
    }
}

/// Whether `outcome` is the result `expected`, credentials compared by
/// their text.
pub open spec fn is_resolved(
    outcome: Result<Credential, ResolveError>,
    expected: Result<CredentialText, ResolveError>,
) -> bool {
    match outcome {
        Ok(credential) => expected == Ok::<CredentialText, ResolveError>(credential@),
        Err(e) => expected == Err::<CredentialText, ResolveError>(e),
    }
}

/// The entry point of credential resolution.
pub struct CredentialResolver;

impl CredentialResolver {
    /// Starts the resolution for `hostname`: the first thing to do is to
    /// read the host's own entry.
    pub fn begin(hostname: &str) -> (pending: HostEntryPending)
        ensures
            pending.hostname@ == hostname@,
    {
        HostEntryPending { hostname: String::from_str(hostname) }
    }

    /// Resolves the credential for `hostname` against `store`, provisioning
    /// the global credential for the host where the host has none of its
    /// own.
    pub fn resolve(store: &mut SecretStore, hostname: &str) -> (outcome: Result<
        Credential,
        ResolveError,
    >)
        ensures
            is_resolved(outcome, resolution(old(store)@, hostname@).result),
            final(store)@ == resolution(old(store)@, hostname@).vault,
            final(store).writes() == old(store).writes() + resolution(
                old(store)@,
                hostname@,
            ).writes,
    {
        let pending = CredentialResolver::begin(hostname);
        let key = pending.scope_key();
        let read = store.read(key.as_str());
        match pending.answer(read) {
            AfterHostEntry::Resolved(credential) => Ok(credential),
            AfterHostEntry::Failed(e) => Err(e),
            AfterHostEntry::ReadGlobal(pending) => {
                let key = pending.scope_key();
                let read = store.read(key.as_str());
                match pending.answer(read) {
                    AfterGlobalEntry::Failed(e) => Err(e),
                    AfterGlobalEntry::Provision(pending) => {
                        store.save(
                            pending.scope_key.as_str(),
                            pending.account.as_str(),
                            pending.secret.as_str(),
                        );
                        pending.answer(Ok(()))
                    },
                }
            },
        }
    }
}

/// A host with an entry of its own is resolved without a write, and the
/// vault stays as it is.
pub proof fn lemma_own_entry_writes_nothing(vault: Vault, hostname: Seq<char>)
    requires
        vault.dom().contains(host_scope(hostname)),
    ensures
        resolution(vault, hostname).writes == 0,
        resolution(vault, hostname).vault == vault,
{
}

/// A host without an entry of its own, where the global credential can be
/// read, is resolved with exactly one write: the host's entry. Resolving
/// the same host once more writes nothing.
pub proof fn lemma_provisioned_once(vault: Vault, hostname: Seq<char>)
    requires
        !vault.dom().contains(host_scope(hostname)),
        read_of(vault, GLOBAL_SCOPE@) matches Ok(Some(_)),
    ensures
        resolution(vault, hostname).writes == 1,
        resolution(vault, hostname).result == Ok::<CredentialText, ResolveError>(
            read_of(vault, GLOBAL_SCOPE@).unwrap().unwrap(),
        ),
        resolution(vault, hostname).vault.dom() == vault.dom().insert(host_scope(hostname)),
        resolution(resolution(vault, hostname).vault, hostname).writes == 0,
        resolution(resolution(vault, hostname).vault, hostname).vault == resolution(
            vault,
            hostname,
        ).vault,
{
    let after = resolution(vault, hostname).vault;
    assert(after.dom() =~= vault.dom().insert(host_scope(hostname)));
    lemma_own_entry_writes_nothing(after, hostname);
}

/// After the global credential has been provisioned for a host, the
/// host's own entry reads back as that credential under its qualified
/// account: this is what resolving the host once more yields.
pub proof fn lemma_provisioned_reads_back(vault: Vault, hostname: Seq<char>)
    requires
        !vault.dom().contains(host_scope(hostname)),
        read_of(vault, GLOBAL_SCOPE@) matches Ok(Some(_)),
    ensures
        ({
            let global = read_of(vault, GLOBAL_SCOPE@).unwrap().unwrap();
            resolution(resolution(vault, hostname).vault, hostname).result == Ok::<
                CredentialText,
                ResolveError,
            >(
                CredentialText {
                    account: provisioned_account(global.account),
                    secret: global.secret,
                },
            )
        }),
{
    let entry = vault[GLOBAL_SCOPE@];
    let global = credential_of(entry).unwrap();
    lemma_account_nul_free(entry.user_name);
    lemma_trimmed(text_of_utf16(units_of_le_bytes(entry.blob)).unwrap());
    lemma_qualified_characters(global.account, '\0');
    lemma_entry_round_trip(provisioned_account(global.account), global.secret);
}

/// Unless the global login begins with a backslash and holds another
/// separator after it, the credential that a second resolution yields
/// parses to the same identity as the one that the first yields.
pub proof fn lemma_provisioned_identity(vault: Vault, hostname: Seq<char>)
    requires
        !vault.dom().contains(host_scope(hostname)),
        read_of(vault, GLOBAL_SCOPE@) matches Ok(Some(_)),
        ({
            let login = read_of(vault, GLOBAL_SCOPE@).unwrap().unwrap().account;
            !(login.len() > 0 && login[0] == DOWN_LEVEL_SEPARATOR && (login.subrange(
                1,
                login.len() as int,
            ).contains(DOWN_LEVEL_SEPARATOR) || login.subrange(1, login.len() as int).contains(
                PRINCIPAL_SEPARATOR,
            )))
        }),
    ensures
        ({
            let first = resolution(vault, hostname);
            let second = resolution(first.vault, hostname);
            &&& first.result.is_ok()
            &&& second.result.is_ok()
            &&& parse_login(second.result.unwrap().account) == parse_login(
                first.result.unwrap().account,
            )
            &&& second.result.unwrap().secret == first.result.unwrap().secret
        }),
{
    let global = read_of(vault, GLOBAL_SCOPE@).unwrap().unwrap();
    lemma_provisioned_reads_back(vault, hostname);
    lemma_parsed_requalifiable(global.account);
}

/// With no entry for the host and no global entry, the resolution fails
/// for want of a credential, and nothing is written.
pub proof fn lemma_nothing_to_resolve(vault: Vault, hostname: Seq<char>)
    requires
        !vault.dom().contains(host_scope(hostname)),
        !vault.dom().contains(GLOBAL_SCOPE@),
    ensures
        resolution(vault, hostname).result == Err::<CredentialText, ResolveError>(
            ResolveError::NoCredentialAvailable,
        ),
        resolution(vault, hostname).writes == 0,
        resolution(vault, hostname).vault == vault,
{
}

} // verus!
