//! Directory discovery: an authenticated subtree search for server-class
//! computers, whose result takes the place of the host inventory.
//!
//! A scan goes through `Connecting`, `Binding` and `Searching`. The caller
//! talks to the directory; each state takes the outcome of one exchange in
//! `answer` and gives the next state or the failure. Once the connection
//! stands, every outcome asks for the session to be closed.

use vstd::prelude::*;
use crate::credential::{global_scope_key, Credential, StoreError, GLOBAL_SCOPE};
use crate::identity::{DOWN_LEVEL_SEPARATOR, PRINCIPAL_SEPARATOR};
use crate::inventory::{hosts_of, Host, HostInventory, HostText};
use crate::secret_store::{read_of, SecretStore, Vault};
use crate::text::{chars_of, find_from, lemma_next_index};

verus! {

/// The clear-text directory port.
pub const DIRECTORY_PORT: u16 = 389;

/// The scheme and the separator before the server in a directory URL.
pub const DIRECTORY_URL_PREFIX: &'static str = "ldap://";

/// The port as it ends a directory URL.
pub const DIRECTORY_URL_SUFFIX: &'static str = ":389";

/// Selects the computer objects whose operating system begins with the
/// server-class marker and which carry a DNS host name.
pub const SEARCH_FILTER: &'static str =
    "(&(objectClass=computer)(operatingSystem=Windows Server*)(dNSHostName=*))";

/// The attribute that holds a computer's DNS host name.
pub const HOST_NAME_ATTRIBUTE: &'static str = "dNSHostName";

/// The attribute that holds a computer's description.
pub const DESCRIPTION_ATTRIBUTE: &'static str = "description";

/// The attribute that holds a computer's operating system.
pub const OPERATING_SYSTEM_ATTRIBUTE: &'static str = "operatingSystem";

/// What begins every component of a search base.
pub const COMPONENT_PREFIX: &'static str = "DC=";

/// What stands between two components of a search base.
pub const COMPONENT_SEPARATOR: &'static str = ",";

/// What stands between the labels of a realm.
pub const LABEL_SEPARATOR: char = '.';

/// The input that a scan was refused for.
#[derive(Clone, Copy, Debug, PartialEq, Eq, Structural)]
pub enum InputField {
    Realm,
    Server,
}

/// Why a scan could not authenticate.
#[derive(Clone, Copy, Debug, PartialEq, Eq, Structural)]
pub enum AuthFailure {
    /// No global credential is stored.
    NoCredential,
    /// The global credential could not be read.
    CredentialUnreadable(StoreError),
    /// The directory refused the bind.
    BindRefused,
}

/// How a search failed.
#[derive(Clone, Copy, Debug, PartialEq, Eq, Structural)]
pub enum SearchFailure {
    /// The search could not be carried out.
    NotCarriedOut,
    /// The directory answered the search with a failure.
    Refused,
}

/// Why a scan failed.
#[derive(Clone, Copy, Debug, PartialEq, Eq, Structural)]
pub enum ScanError {
    /// The realm or the server is empty.
    InvalidInput(InputField),
    /// The directory server could not be reached.
    Unreachable,
    /// The scan could not authenticate. There is no unauthenticated scan.
    AuthRejected(AuthFailure),
    /// The search failed.
    SearchFailed(SearchFailure),
    /// The search matched no entry with a DNS host name.
    NoneFound,
}

impl ScanError {
    /// The message that the user is shown for this failure.
    pub open spec fn message_text(self) -> Seq<char> {
        match self {
            ScanError::InvalidInput(InputField::Realm) => "Domain name is empty"@,
            ScanError::InvalidInput(InputField::Server) => "Server name is empty"@,
            ScanError::Unreachable => "Failed to connect to LDAP server"@,
            ScanError::AuthRejected(AuthFailure::NoCredential) => "No stored credentials found. Please save your domain credentials in the login window first."@,
            ScanError::AuthRejected(AuthFailure::CredentialUnreadable(e)) => "Failed to retrieve credentials: "@
                + e.message_text(),
            ScanError::AuthRejected(AuthFailure::BindRefused) => "Authenticated LDAP bind failed. Please verify your credentials have permission to query Active Directory."@,
            ScanError::SearchFailed(SearchFailure::NotCarriedOut) => "Failed to search LDAP"@,
            ScanError::SearchFailed(SearchFailure::Refused) => "LDAP search failed"@,
            ScanError::NoneFound => "No Windows Servers found in the domain."@,
        }
    }

    /// The message that the user is shown for this failure.
    pub fn message(&self) -> (text: String)
        ensures
            text@ == self.message_text(),
    {
        match self {
            ScanError::InvalidInput(InputField::Realm) => String::from_str("Domain name is empty"),
            ScanError::InvalidInput(InputField::Server) => String::from_str("Server name is empty"),
            ScanError::Unreachable => String::from_str("Failed to connect to LDAP server"),
            ScanError::AuthRejected(AuthFailure::NoCredential) => String::from_str(
                "No stored credentials found. Please save your domain credentials in the login window first.",
            ),
            ScanError::AuthRejected(AuthFailure::CredentialUnreadable(e)) => {
                let mut text = String::from_str("Failed to retrieve credentials: ");
                let cause = e.message();
                text.append(cause.as_str());
                text
            },
            ScanError::AuthRejected(AuthFailure::BindRefused) => String::from_str(
                "Authenticated LDAP bind failed. Please verify your credentials have permission to query Active Directory.",
            ),
            ScanError::SearchFailed(SearchFailure::NotCarriedOut) => String::from_str(
                "Failed to search LDAP",
            ),
            ScanError::SearchFailed(SearchFailure::Refused) => String::from_str(
                "LDAP search failed",
            ),
            ScanError::NoneFound => String::from_str("No Windows Servers found in the domain."),
        }
    }
}

/// A failed scan: why it failed, whether a directory session stands open
/// that the caller has to close, and for how many entries of the search
/// result a warning is due because they lack a DNS host name. Closing is
/// best effort: its own failure is ignored.
#[derive(Clone, Copy, Debug, PartialEq, Eq, Structural)]
pub struct ScanFailure {
    pub error: ScanError,
    pub session_open: bool,
    pub warnings: usize,
}

/// The components of a search base after its first prefix: every label
/// separator starts a new component.
pub open spec fn components_of(realm: Seq<char>) -> Seq<char>
    decreases realm.len(),
{
    if realm.len() == 0 {
        Seq::empty()
    } else if realm[0] == LABEL_SEPARATOR {
        COMPONENT_SEPARATOR@ + COMPONENT_PREFIX@ + components_of(realm.drop_first())
    } else {
        seq![realm[0]] + components_of(realm.drop_first())
    }
}

/// The search base of a realm: one component for each of its labels, in
/// their order, with a separator between two of them.
pub open spec fn base_dn_of(realm: Seq<char>) -> Seq<char> {
    COMPONENT_PREFIX@ + components_of(realm)
}

/// The components of a concatenation are the components of its parts.
pub proof fn lemma_components_concat(a: Seq<char>, b: Seq<char>)
    ensures
        components_of(a + b) == components_of(a) + components_of(b),
    decreases a.len(),
{
    if a.len() == 0 {
        assert(a + b =~= b);
        assert(components_of(a) + components_of(b) =~= components_of(b));
    } else {
        assert((a + b).drop_first() =~= a.drop_first() + b);
        lemma_components_concat(a.drop_first(), b);
        assert(components_of(a + b) =~= components_of(a) + components_of(b));
    }
}

/// The search base of a single label is its component.
pub proof fn lemma_base_dn_of_label(label: Seq<char>)
    requires
        !label.contains(LABEL_SEPARATOR),
    ensures
        base_dn_of(label) == COMPONENT_PREFIX@ + label,
    decreases label.len(),
{
    if label.len() == 0 {
        assert(components_of(label) =~= label);
    } else {
        let rest = label.drop_first();
        assert(label[0] != LABEL_SEPARATOR);
        assert forall|j: int| 0 <= j < rest.len() implies rest[j] != LABEL_SEPARATOR by {
            assert(rest[j] == label[j + 1]);
        }
        lemma_base_dn_of_label(rest);
        assert(components_of(rest) =~= rest) by {
            assert(base_dn_of(rest) == COMPONENT_PREFIX@ + rest);
            assert(base_dn_of(rest).subrange(
                COMPONENT_PREFIX@.len() as int,
                base_dn_of(rest).len() as int,
            ) =~= components_of(rest));
            assert((COMPONENT_PREFIX@ + rest).subrange(
                COMPONENT_PREFIX@.len() as int,
                (COMPONENT_PREFIX@ + rest).len() as int,
            ) =~= rest);
        }
        assert(components_of(label) =~= label);
    }
}

/// The search base of two realms joined by a label separator is their
/// search bases joined by a component separator.
pub proof fn lemma_base_dn_of_joined(a: Seq<char>, b: Seq<char>)
    ensures
        base_dn_of(a + seq![LABEL_SEPARATOR] + b) == base_dn_of(a) + COMPONENT_SEPARATOR@
            + base_dn_of(b),
{
    let dot = seq![LABEL_SEPARATOR];
    lemma_components_concat(a + dot, b);
    lemma_components_concat(a, dot);
    assert(components_of(dot) =~= COMPONENT_SEPARATOR@ + COMPONENT_PREFIX@) by {
        assert(dot.drop_first() =~= Seq::<char>::empty());
        assert(components_of(dot.drop_first()) =~= Seq::<char>::empty());
    }
    assert(base_dn_of(a + dot + b) =~= base_dn_of(a) + COMPONENT_SEPARATOR@ + base_dn_of(b));
}

/// The identity to bind with: the stored login as it is when it names a
/// realm in either form, else the login at the scanned realm.
pub open spec fn bind_identity_of(login: Seq<char>, realm: Seq<char>) -> Seq<char> {
    if login.contains(PRINCIPAL_SEPARATOR) || login.contains(DOWN_LEVEL_SEPARATOR) {
        login
    } else {
        login + seq![PRINCIPAL_SEPARATOR] + realm
    }
}

/// The URL of the directory service on `server`.
pub open spec fn directory_url_of(server: Seq<char>) -> Seq<char> {
    DIRECTORY_URL_PREFIX@ + server + DIRECTORY_URL_SUFFIX@
}

/// One entry of a search result: the first value of its DNS host name
/// and of its description, where it has the attribute.
#[derive(Clone, Debug, PartialEq, Eq)]
pub struct DirectoryEntry {
    pub dns_host_name: Option<String>,
    pub description: Option<String>,
}

/// What a `DirectoryEntry` stands for in contracts.
pub struct DirectoryEntryText {
    pub dns_host_name: Option<Seq<char>>,
    pub description: Option<Seq<char>>,
}

impl View for DirectoryEntry {
    type V = DirectoryEntryText;

    open spec fn view(&self) -> DirectoryEntryText {
        DirectoryEntryText {
            dns_host_name: match self.dns_host_name {
                Some(name) => Some(name@),
                None => None,
            },
            description: match self.description {
                Some(text) => Some(text@),
                None => None,
            },
        }
    }
}

/// What a list of entries stands for in contracts.
pub open spec fn entries_of(entries: Seq<DirectoryEntry>) -> Seq<DirectoryEntryText> {
    Seq::new(entries.len(), |i: int| entries[i]@)
}

/// The host that an entry describes: none without a DNS host name; an
/// empty description where the entry has none; never connected to.
pub open spec fn host_of(entry: DirectoryEntryText) -> Option<HostText> {
    match entry.dns_host_name {
        Some(name) => Some(
            HostText {
                hostname: name,
                description: match entry.description {
                    Some(text) => text,
                    None => Seq::empty(),
                },
                last_connected: None,
            },
        ),
        None => None,
    }
}

/// The hosts that a search result describes, in the order of its entries.
pub open spec fn discovered(entries: Seq<DirectoryEntryText>) -> Seq<HostText> {
    entries.filter_map(|entry: DirectoryEntryText| host_of(entry))
}

/// The number of entries that describe no host.
pub open spec fn skipped(entries: Seq<DirectoryEntryText>) -> nat {
    entries.filter(|entry: DirectoryEntryText| entry.dns_host_name.is_none()).len()
}

/// Every entry is either a discovered host or skipped.
pub proof fn lemma_discovered_or_skipped(entries: Seq<DirectoryEntryText>)
    ensures
        discovered(entries).len() + skipped(entries) == entries.len(),
    decreases entries.len(),
{
    reveal(Seq::filter);
    reveal(Seq::filter_map);
    if entries.len() > 0 {
        lemma_discovered_or_skipped(entries.drop_last());
    }
}

/// Where an entry lacks its DNS host name, fewer hosts are discovered
/// than entries were found.
pub proof fn lemma_missing_name_is_skipped(entries: Seq<DirectoryEntryText>, at: int)
    requires
        0 <= at < entries.len(),
        entries[at].dns_host_name.is_none(),
    ensures
        skipped(entries) >= 1,
        discovered(entries).len() < entries.len(),
{
    let lacking = |entry: DirectoryEntryText| entry.dns_host_name.is_none();
    entries.lemma_filter_contains(lacking, at);
    lemma_discovered_or_skipped(entries);
}

/// The outcome of a search: the hosts to take the place of the inventory,
/// and the number of entries for which a warning is due because they
/// lack a DNS host name.
pub struct Discovery {
    pub hosts: Vec<Host>,
    pub skipped: usize,
}

/// The search base for `realm`.
pub fn base_dn(realm: &str) -> (base: String)
    ensures
        base@ == base_dn_of(realm@),
{
    let chars = chars_of(realm);
    let mut base = String::from_str(COMPONENT_PREFIX);
    let mut i: usize = 0;
    assert(chars@.skip(0) =~= chars@);
    while i < chars.len()
        invariant
            i <= chars@.len(),
            base@ + components_of(chars@.skip(i as int)) == base_dn_of(chars@),
        decreases chars@.len() - i,
    {
        let ghost before = base@;
        let ghost rest = chars@.skip(i as int);
        proof {
            assert(rest[0] == chars@[i as int]);
            assert(rest.drop_first() =~= chars@.skip(i + 1));
        }
        if chars[i] == LABEL_SEPARATOR {
            base.append(COMPONENT_SEPARATOR);
            base.append(COMPONENT_PREFIX);
            assert(base@ + components_of(chars@.skip(i + 1)) =~= before + components_of(rest));
        } else {
            base.push(chars[i]);
            assert(base@ + components_of(chars@.skip(i + 1)) =~= before + components_of(rest));
        }
        i += 1;
    }
    assert(base@ + components_of(chars@.skip(i as int)) =~= base@);
    base
}

/// The identity to bind with for a stored `login` when scanning `realm`.
pub fn bind_identity(login: &str, realm: &str) -> (identity: String)
    ensures
        identity@ == bind_identity_of(login@, realm@),
{
    let chars = chars_of(login);
    let n = chars.len();
    proof {
        lemma_next_index(chars@, 0, PRINCIPAL_SEPARATOR);
        lemma_next_index(chars@, 0, DOWN_LEVEL_SEPARATOR);
        assert(chars@.subrange(0, n as int) =~= chars@);
    }
    let mut identity = String::from_str(login);
    if find_from(&chars, 0, PRINCIPAL_SEPARATOR) == n && find_from(
        &chars,
        0,
        DOWN_LEVEL_SEPARATOR,
    ) == n {
        identity.push(PRINCIPAL_SEPARATOR);
        identity.append(realm);
    }
    identity
}

/// The host that `entry` describes, if it has a DNS host name.
pub fn host_from_entry(entry: &DirectoryEntry) -> (host: Option<Host>)
    ensures
        match host {
            Some(h) => host_of(entry@) == Some(h@),
            None => host_of(entry@).is_none(),
        },
{
    match &entry.dns_host_name {
        Some(name) => Some(
            Host {
                hostname: name.clone(),
                description: match &entry.description {
                    Some(text) => text.clone(),
                    None => String::new(),
                },
                last_connected: None,
            },
        ),
        None => None,
    }
}

/// The hosts that `entries` describe, and how many entries describe
/// none.
pub fn map_entries(entries: &Vec<DirectoryEntry>) -> (found: Discovery)
    ensures
        hosts_of(found.hosts@) == discovered(entries_of(entries@)),
        found.skipped == skipped(entries_of(entries@)),
        found.hosts@.len() + found.skipped == entries@.len(),
{
    let ghost all = entries_of(entries@);
    let ghost lacking = |entry: DirectoryEntryText| entry.dns_host_name.is_none();
    let ghost describe = |entry: DirectoryEntryText| host_of(entry);
    let mut hosts: Vec<Host> = Vec::new();
    let mut missing: usize = 0;
    let mut i: usize = 0;
    proof {
        assert(all.take(0) =~= Seq::<DirectoryEntryText>::empty());
        reveal(Seq::filter);
        reveal(Seq::filter_map);
        assert(hosts_of(hosts@) =~= all.take(0).filter_map(describe));
    }
    while i < entries.len()
        invariant
            i <= entries@.len(),
            all == entries_of(entries@),
            lacking == |entry: DirectoryEntryText| entry.dns_host_name.is_none(),
            describe == |entry: DirectoryEntryText| host_of(entry),
            hosts_of(hosts@) == all.take(i as int).filter_map(describe),
            missing == all.take(i as int).filter(lacking).len(),
            hosts@.len() + missing == i,
        decreases entries@.len() - i,
    {
        let ghost held = hosts_of(hosts@);
        proof {
            assert(all.take(i + 1).drop_last() =~= all.take(i as int));
            assert(all.take(i + 1).last() == entries@[i as int]@);
            reveal(Seq::filter);
            reveal(Seq::filter_map);
        }
        match host_from_entry(&entries[i]) {
            Some(host) => {
                hosts.push(host);
                assert(hosts_of(hosts@) =~= held.push(host@));
            },
            None => {
                missing += 1;
            },
        }
        i += 1;
    }
    assert(all.take(i as int) =~= all);
    Discovery { hosts, skipped: missing }
}

/// The scan waits for the connection to the directory server.
pub struct Connecting {
    pub realm: String,
    pub server: String,
}

/// The connection stands; the scan waits for the stored global
/// credential to bind with.
pub struct Binding {
    pub realm: String,
}

/// The scan waits for the outcome of the bind.
pub struct Authenticating {
    pub realm: String,
    /// The identity to bind with.
    pub identity: String,
    /// The secret to bind with.
    pub secret: String,
}

/// The scan is authenticated and waits for the result of the search.
pub struct Searching {
    /// The entry beneath which the whole subtree is searched.
    pub base_dn: String,
}

/// The entry point of directory discovery.
pub struct DirectoryScanner;

impl DirectoryScanner {
    /// Starts a scan of `realm` through `server`. Neither may be empty.
    pub fn begin(realm: &str, server: &str) -> (start: Result<Connecting, ScanFailure>)
        ensures
            match start {
                Ok(connecting) => realm@.len() > 0 && server@.len() > 0 && connecting.realm@
                    == realm@ && connecting.server@ == server@,
                Err(failure) => !failure.session_open && failure.error == (if realm@.len() == 0 {
                    ScanError::InvalidInput(InputField::Realm)
                } else {
                    ScanError::InvalidInput(InputField::Server)
                }) && (realm@.len() == 0 || server@.len() == 0),
            },
    {
        if realm.is_empty() {
            Err(
                ScanFailure {
                    error: ScanError::InvalidInput(InputField::Realm),
                    session_open: false,
                    warnings: 0,
                },
            )
        } else if server.is_empty() {
            Err(
                ScanFailure {
                    error: ScanError::InvalidInput(InputField::Server),
                    session_open: false,
                    warnings: 0,
                },
            )
        } else {
            Ok(Connecting { realm: String::from_str(realm), server: String::from_str(server) })
        }
    }

    /// Concludes a scan against `inventory`: the hosts that `entries`
    /// describe take the place of the whole inventory, and their number
    /// is returned. Where they describe none, the scan has failed and the
    /// inventory stays as it is.
    pub fn conclude(inventory: &mut HostInventory, entries: &Vec<DirectoryEntry>) -> (count: Result<
        usize,
        ScanError,
    >)
        ensures
            discovered(entries_of(entries@)).len() == 0 ==> count == Err::<usize, ScanError>(
                ScanError::NoneFound,
            ) && final(inventory)@ == old(inventory)@,
            discovered(entries_of(entries@)).len() > 0 ==> count == Ok::<usize, ScanError>(
                discovered(entries_of(entries@)).len() as usize,
            ) && final(inventory)@ == discovered(entries_of(entries@)),
    {
        let found = map_entries(entries);
        if found.hosts.len() == 0 {
            Err(ScanError::NoneFound)
        } else {
            let count = found.hosts.len();
            inventory.replace(found.hosts);
            Ok(count)
        }
    }
}

/// What a directory answers to a scan: whether it can be reached,
/// whether it accepts the bind, and what it returns for the search.
pub struct DirectoryAnswers {
    pub reachable: bool,
    pub accepts_bind: bool,
    pub found: Result<Vec<DirectoryEntry>, SearchFailure>,
}

/// What a scan comes to: the hosts that take the place of the inventory,
/// or the failure.
pub open spec fn scan_of(
    vault: Vault,
    realm: Seq<char>,
    server: Seq<char>,
    reachable: bool,
    accepts_bind: bool,
    found: Result<Seq<DirectoryEntryText>, SearchFailure>,
) -> Result<Seq<HostText>, ScanError> {
    if realm.len() == 0 {
        Err(ScanError::InvalidInput(InputField::Realm))
    } else if server.len() == 0 {
        Err(ScanError::InvalidInput(InputField::Server))
    } else if !reachable {
        Err(ScanError::Unreachable)
    } else {
        match read_of(vault, GLOBAL_SCOPE@) {
            Err(e) => Err(ScanError::AuthRejected(AuthFailure::CredentialUnreadable(e))),
            Ok(None) => Err(ScanError::AuthRejected(AuthFailure::NoCredential)),
            Ok(Some(_)) => if !accepts_bind {
                Err(ScanError::AuthRejected(AuthFailure::BindRefused))
            } else {
                match found {
                    Err(e) => Err(ScanError::SearchFailed(e)),
                    Ok(entries) => if discovered(entries).len() == 0 {
                        Err(ScanError::NoneFound)
                    } else {
                        Ok(discovered(entries))
                    },
                }
            },
        }
    }
}

/// What the search of `answers` stands for in contracts.
pub open spec fn found_of(found: Result<Vec<DirectoryEntry>, SearchFailure>) -> Result<
    Seq<DirectoryEntryText>,
    SearchFailure,
> {
    match found {
        Ok(entries) => Ok(entries_of(entries@)),
        Err(e) => Err(e),
    }
}

impl DirectoryScanner {
    /// Scans `realm` through `server` with the global credential of
    /// `store`, against a directory that answers as `answers` says. On
    /// success the discovered hosts take the place of the whole
    /// inventory and their number is returned; on any failure the
    /// inventory stays as it is. The store is only read.
    pub fn scan(
        store: &SecretStore,
        inventory: &mut HostInventory,
        realm: &str,
        server: &str,
        answers: DirectoryAnswers,
    ) -> (count: Result<usize, ScanError>)
        ensures
            match scan_of(
                store@,
                realm@,
                server@,
                answers.reachable,
                answers.accepts_bind,
                found_of(answers.found),
            ) {
                Ok(hosts) => count == Ok::<usize, ScanError>(hosts.len() as usize) && final(inventory)@ == hosts,
                Err(e) => count == Err::<usize, ScanError>(e) && final(inventory)@ == old(inventory)@,
            },
    {
        let connecting = match DirectoryScanner::begin(realm, server) {
            Ok(connecting) => connecting,
            Err(failure) => {
                return Err(failure.error);
            },
        };
        let binding = match connecting.answer(answers.reachable) {
            Ok(binding) => binding,
            Err(failure) => {
                return Err(failure.error);
            },
        };
        let read = store.read_global();
        let authenticating = match binding.answer(read) {
            Ok(authenticating) => authenticating,
            Err(failure) => {
                return Err(failure.error);
            },
        };
        let searching = match authenticating.answer(answers.accepts_bind) {
            Ok(searching) => searching,
            Err(failure) => {
                return Err(failure.error);
            },
        };
        match searching.answer(answers.found) {
            Ok(discovery) => {
                let count = discovery.hosts.len();
                inventory.replace(discovery.hosts);
                Ok(count)
            },
            Err(failure) => Err(failure.error),
        }
    }
}

/// A scan that authenticates but finds no entry with a DNS host name
/// fails with `NoneFound`.
pub proof fn lemma_nothing_found(
    vault: Vault,
    realm: Seq<char>,
    server: Seq<char>,
    entries: Seq<DirectoryEntryText>,
)
    requires
        realm.len() > 0,
        server.len() > 0,
        read_of(vault, GLOBAL_SCOPE@) matches Ok(Some(_)),
        discovered(entries).len() == 0,
    ensures
        scan_of(
            vault,
            realm,
            server,
            true,
            true,
            Ok::<Seq<DirectoryEntryText>, SearchFailure>(entries),
        ) == Err::<Seq<HostText>, ScanError>(ScanError::NoneFound),
{
}

impl Connecting {
    /// The URL to connect to: the server on the clear-text directory port.
    pub fn url(&self) -> (url: String)
        ensures
            url@ == directory_url_of(self.server@),
    {
        let mut url = String::from_str(DIRECTORY_URL_PREFIX);
        url.append(self.server.as_str());
        url.append(DIRECTORY_URL_SUFFIX);
        url
    }

    /// Takes the outcome of the connection attempt.
    pub fn answer(self, connected: bool) -> (next: Result<Binding, ScanFailure>)
        ensures
            match next {
                Ok(binding) => connected && binding.realm@ == self.realm@,
                Err(failure) => !connected && failure == (ScanFailure {
                    error: ScanError::Unreachable,
                    session_open: false,
                    warnings: 0,
                }),
            },
    {
        if connected {
            Ok(Binding { realm: self.realm })
        } else {
            Err(ScanFailure { error: ScanError::Unreachable, session_open: false, warnings: 0 })
        }
    }
}

impl Binding {
    /// The scope key of the credential to read: always the global one.
    pub fn scope_key(&self) -> (key: String)
        ensures
            key@ == GLOBAL_SCOPE@,
    {
        global_scope_key()
    }

    /// Takes the outcome of reading the global credential. Without a
    /// credential the scan fails: there is no unauthenticated scan.
    pub fn answer(self, read: Result<Option<Credential>, StoreError>) -> (next: Result<
        Authenticating,
        ScanFailure,
    >)
        ensures
            match read {
                Ok(Some(credential)) => next matches Ok(authenticating) && authenticating.realm@
                    == self.realm@ && authenticating.identity@ == bind_identity_of(
                    credential.account@,
                    self.realm@,
                ) && authenticating.secret@ == credential.secret@,
                Ok(None) => next matches Err(failure) && failure == (ScanFailure {
                    error: ScanError::AuthRejected(AuthFailure::NoCredential),
                    session_open: true,
                    warnings: 0,
                }),
                Err(e) => next matches Err(failure) && failure == (ScanFailure {
                    error: ScanError::AuthRejected(AuthFailure::CredentialUnreadable(e)),
                    session_open: true,
                    warnings: 0,
                }),
            },
    {
        match read {
            Ok(Some(credential)) => {
                let identity = bind_identity(credential.account.as_str(), self.realm.as_str());
                Ok(Authenticating { realm: self.realm, identity, secret: credential.secret })
            },
            Ok(None) => Err(
                ScanFailure {
                    error: ScanError::AuthRejected(AuthFailure::NoCredential),
                    session_open: true,
                    warnings: 0,
                },
            ),
            Err(e) => Err(
                ScanFailure {
                    error: ScanError::AuthRejected(AuthFailure::CredentialUnreadable(e)),
                    session_open: true,
                    warnings: 0,
                },
            ),
        }
    }
}

impl Authenticating {
    /// Takes the outcome of the bind.
    pub fn answer(self, bound: bool) -> (next: Result<Searching, ScanFailure>)
        ensures
            match next {
                Ok(searching) => bound && searching.base_dn@ == base_dn_of(self.realm@),
                Err(failure) => !bound && failure == (ScanFailure {
                    error: ScanError::AuthRejected(AuthFailure::BindRefused),
                    session_open: true,
                    warnings: 0,
                }),
            },
    {
        if bound {
            Ok(Searching { base_dn: base_dn(self.realm.as_str()) })
        } else {
            Err(
                ScanFailure {
                    error: ScanError::AuthRejected(AuthFailure::BindRefused),
                    session_open: true,
                    warnings: 0,
                },
            )
        }
    }
}

impl Searching {
    /// Takes the result of the search. The session is to be closed
    /// whatever the result; a search that describes no host is a failure.
    /// For every entry that lacks its DNS host name a warning is due,
    /// whether hosts were discovered or not.
    pub fn answer(self, found: Result<Vec<DirectoryEntry>, SearchFailure>) -> (outcome: Result<
        Discovery,
        ScanFailure,
    >)
        ensures
            match found {
                Ok(entries) => {
                    if discovered(entries_of(entries@)).len() == 0 {
                        outcome matches Err(failure) && failure == (ScanFailure {
                            error: ScanError::NoneFound,
                            session_open: true,
                            warnings: skipped(entries_of(entries@)) as usize,
                        }) && failure.warnings == entries@.len()
                    } else {
                        outcome matches Ok(discovery) && hosts_of(discovery.hosts@) == discovered(
                            entries_of(entries@),
                        ) && discovery.skipped == skipped(entries_of(entries@))
                    }
                },
                Err(e) => outcome matches Err(failure) && failure == (ScanFailure {
                    error: ScanError::SearchFailed(e),
                    session_open: true,
                    warnings: 0,
                }),
            },
    {
        match found {
            Ok(entries) => {
                let discovery = map_entries(&entries);
                if discovery.hosts.len() == 0 {
                    Err(
                        ScanFailure {
                            error: ScanError::NoneFound,
                            session_open: true,
                            warnings: discovery.skipped,
                        },
                    )
                } else {
                    Ok(discovery)
                }
            },
            Err(e) => Err(
                ScanFailure { error: ScanError::SearchFailed(e), session_open: true, warnings: 0 },
            ),
        }
    }
}

} // verus!
