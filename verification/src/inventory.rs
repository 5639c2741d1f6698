//! The host inventory: the known hosts, in the order they are kept.

use vstd::prelude::*;
use crate::clock::{moment_text_of, Moment, STAMP_FORMAT};
use crate::text::{blank, chars_of, contains_text, is_blank, lowercase_of, occurs_in};

verus! {

/// A known host. The host name is its key.
#[derive(Clone, Debug, PartialEq, Eq)]
pub struct Host {
    pub hostname: String,
    pub description: String,
    /// When a session to the host was last launched, as local time in the
    /// form day/month/year hour:minute:second.
    pub last_connected: Option<String>,
}

/// What a `Host` stands for in contracts.
pub struct HostText {
    pub hostname: Seq<char>,
    pub description: Seq<char>,
    pub last_connected: Option<Seq<char>>,
}

impl View for Host {
    type V = HostText;

    open spec fn view(&self) -> HostText {
        HostText {
            hostname: self.hostname@,
            description: self.description@,
            last_connected: match self.last_connected {
                Some(stamp) => Some(stamp@),
                None => None,
            },
        }
    }
}

/// What a list of hosts stands for in contracts.
pub open spec fn hosts_of(hosts: Seq<Host>) -> Seq<HostText> {
    Seq::new(hosts.len(), |i: int| hosts[i]@)
}

impl Host {
    /// A copy of this host.
    pub fn duplicate(&self) -> (copy: Host)
        ensures
            copy@ == self@,
    {
        Host {
            hostname: self.hostname.clone(),
            description: self.description.clone(),
            last_connected: match &self.last_connected {
                Some(stamp) => Some(stamp.clone()),
                None => None,
            },
        }
    }
}

/// Why the inventory refused a change.
#[derive(Clone, Copy, Debug, PartialEq, Eq, Structural)]
pub enum InventoryError {
    /// A host must have a name.
    EmptyHostname,
    /// No host of that name is known.
    UnknownHost,
    /// The persisted inventory is no well-formed table.
    Malformed,
    /// The inventory could not be put into its persisted form.
    Unwritable,
    /// The time to stamp a host with could not be told.
    Undated,
}

impl InventoryError {
    /// The message that the user is shown for this failure.
    pub open spec fn message_text(self) -> Seq<char> {
        match self {
            InventoryError::EmptyHostname => "Hostname cannot be empty"@,
            InventoryError::UnknownHost => "Host not found in hosts list"@,
            InventoryError::Malformed => "Failed to parse CSV record"@,
            InventoryError::Unwritable => "Failed to write CSV record"@,
            InventoryError::Undated => "Failed to tell the time of the connection"@,
        }
    }

    /// The message that the user is shown for this failure.
    pub fn message(&self) -> (text: String)
        ensures
            text@ == self.message_text(),
    {
        match self {
            InventoryError::EmptyHostname => String::from_str("Hostname cannot be empty"),
            InventoryError::UnknownHost => String::from_str("Host not found in hosts list"),
            InventoryError::Malformed => String::from_str("Failed to parse CSV record"),
            InventoryError::Unwritable => String::from_str("Failed to write CSV record"),
            InventoryError::Undated => String::from_str(
                "Failed to tell the time of the connection",
            ),
        }
    }
}

/// The known hosts.
#[derive(Clone, Debug, PartialEq, Eq)]
pub struct HostInventory {
    pub hosts: Vec<Host>,
}

impl View for HostInventory {
    type V = Seq<HostText>;

    open spec fn view(&self) -> Seq<HostText> {
        hosts_of(self.hosts@)
    }
}

/// The index of the first host named `hostname`, the length of the list
/// if there is none.
pub open spec fn first_named(hosts: Seq<HostText>, hostname: Seq<char>) -> int
    decreases hosts.len(),
{
    if hosts.len() == 0 {
        0
    } else if hosts[0].hostname == hostname {
        0
    } else {
        1 + first_named(hosts.drop_first(), hostname)
    }
}

/// `first_named` is the least index of a host of that name.
pub proof fn lemma_first_named(hosts: Seq<HostText>, hostname: Seq<char>)
    ensures
        0 <= first_named(hosts, hostname) <= hosts.len(),
        forall|j: int| 0 <= j < first_named(hosts, hostname) ==> hosts[j].hostname != hostname,
        first_named(hosts, hostname) < hosts.len() ==> hosts[first_named(
            hosts,
            hostname,
        )].hostname == hostname,
    decreases hosts.len(),
{
    if hosts.len() > 0 && hosts[0].hostname != hostname {
        let rest = hosts.drop_first();
        lemma_first_named(rest, hostname);
        assert forall|j: int| 0 <= j < first_named(hosts, hostname) implies hosts[j].hostname
            != hostname by {
            if j > 0 {
                assert(hosts[j] == rest[j - 1]);
            }
        }
    }
}

/// An index that holds a host of that name, with none before it, is
/// `first_named`.
pub proof fn lemma_first_named_unique(hosts: Seq<HostText>, hostname: Seq<char>, at: int)
    requires
        0 <= at <= hosts.len(),
        forall|j: int| 0 <= j < at ==> hosts[j].hostname != hostname,
        at < hosts.len() ==> hosts[at].hostname == hostname,
    ensures
        first_named(hosts, hostname) == at,
{
    lemma_first_named(hosts, hostname);
}

/// The list after `host` is put into it: in the place of the first host
/// of the same name, at the end if there is none.
pub open spec fn upserted(hosts: Seq<HostText>, host: HostText) -> Seq<HostText> {
    let at = first_named(hosts, host.hostname);
    if at < hosts.len() {
        hosts.update(at, host)
    } else {
        hosts.push(host)
    }
}

/// The list without the hosts named `hostname`.
pub open spec fn without(hosts: Seq<HostText>, hostname: Seq<char>) -> Seq<HostText> {
    hosts.filter(|h: HostText| h.hostname != hostname)
}

/// The list after the first host named `hostname` is stamped with
/// `stamp`.
pub open spec fn stamped(hosts: Seq<HostText>, hostname: Seq<char>, stamp: Seq<char>) -> Seq<
    HostText,
> {
    let at = first_named(hosts, hostname);
    if at < hosts.len() {
        hosts.update(
            at,
            HostText {
                hostname: hosts[at].hostname,
                description: hosts[at].description,
                last_connected: Some(stamp),
            },
        )
    } else {
        hosts
    }
}

/// Whether no two hosts of the list have the same name.
pub open spec fn names_unique(hosts: Seq<HostText>) -> bool {
    forall|i: int, j: int|
        0 <= i < hosts.len() && 0 <= j < hosts.len() && i != j ==> (#[trigger] hosts[i]).hostname
            != (#[trigger] hosts[j]).hostname
}

/// Putting a host into a list whose names are unique leaves them unique,
/// and the host is in the list afterwards.
pub proof fn lemma_upsert_keeps_names_unique(hosts: Seq<HostText>, host: HostText)
    requires
        names_unique(hosts),
    ensures
        names_unique(upserted(hosts, host)),
        upserted(hosts, host).contains(host),
{
    lemma_first_named(hosts, host.hostname);
    let at = first_named(hosts, host.hostname);
    let after = upserted(hosts, host);
    if at < hosts.len() {
        assert(after[at] == host);
        assert forall|i: int, j: int|
            0 <= i < after.len() && 0 <= j < after.len() && i != j implies (#[trigger] after[i]).hostname
            != (#[trigger] after[j]).hostname by {
            assert(after[i].hostname == hosts[i].hostname);
            assert(after[j].hostname == hosts[j].hostname);
        }
    } else {
        assert(after[hosts.len() as int] == host);
        assert forall|i: int, j: int|
            0 <= i < after.len() && 0 <= j < after.len() && i != j implies (#[trigger] after[i]).hostname
            != (#[trigger] after[j]).hostname by {
            if i < hosts.len() {
                assert(after[i] == hosts[i]);
            }
            if j < hosts.len() {
                assert(after[j] == hosts[j]);
            }
        }
    }
}

/// Stamping a host changes no name and no description, and leaves the
/// list as long as it was.
pub proof fn lemma_stamp_keeps_hosts(hosts: Seq<HostText>, hostname: Seq<char>, stamp: Seq<char>)
    ensures
        stamped(hosts, hostname, stamp).len() == hosts.len(),
        forall|i: int|
            0 <= i < hosts.len() ==> (#[trigger] stamped(hosts, hostname, stamp)[i]).hostname
                == hosts[i].hostname && stamped(hosts, hostname, stamp)[i].description
                == hosts[i].description,
        forall|i: int|
            0 <= i < hosts.len() && i != first_named(hosts, hostname) ==> #[trigger] stamped(
                hosts,
                hostname,
                stamp,
            )[i] == hosts[i],
{
    lemma_first_named(hosts, hostname);
}

/// After the hosts of a name are forgotten, no host of the list has the
/// name, and every other host is still there.
pub proof fn lemma_without_forgets(hosts: Seq<HostText>, hostname: Seq<char>)
    ensures
        forall|i: int|
            0 <= i < without(hosts, hostname).len() ==> (#[trigger] without(
                hosts,
                hostname,
            )[i]).hostname != hostname,
        forall|i: int|
            0 <= i < hosts.len() && hosts[i].hostname != hostname ==> without(
                hosts,
                hostname,
            ).contains(#[trigger] hosts[i]),
{
    let other = |h: HostText| h.hostname != hostname;
    assert forall|i: int| 0 <= i < without(hosts, hostname).len() implies (#[trigger] without(
        hosts,
        hostname,
    )[i]).hostname != hostname by {
        hosts.lemma_filter_pred(other, i);
    }
    assert forall|i: int|
        0 <= i < hosts.len() && hosts[i].hostname != hostname implies without(
        hosts,
        hostname,
    ).contains(#[trigger] hosts[i]) by {
        hosts.lemma_filter_contains(other, i);
    }
}

/// Whether `host` answers `query`: its name or its description holds the
/// query, letter case aside.
pub open spec fn answers(host: HostText, query: Seq<char>) -> bool {
    occurs_in(lowercase_of(query), lowercase_of(host.hostname)) || occurs_in(
        lowercase_of(query),
        lowercase_of(host.description),
    )
}

/// What the stamping of the first host named `hostname` comes to, given
/// the text of the time where it could be told: the list afterwards,
/// and the result. Without a time the list stays as it is and the
/// stamping fails as undated; with one, it fails where no host has the
/// name.
pub open spec fn stamping_of(hosts: Seq<HostText>, hostname: Seq<char>, stamp: Option<Seq<char>>) -> (
    Seq<HostText>,
    Result<(), InventoryError>,
) {
    match stamp {
        None => (hosts, Err(InventoryError::Undated)),
        Some(text) => (
            stamped(hosts, hostname, text),
            if first_named(hosts, hostname) < hosts.len() {
                Ok(())
            } else {
                Err(InventoryError::UnknownHost)
            },
        ),
    }
}

/// A stamping that fails leaves the list as it is.
pub proof fn lemma_failed_stamping(hosts: Seq<HostText>, hostname: Seq<char>, stamp: Option<Seq<char>>)
    requires
        stamping_of(hosts, hostname, stamp).1.is_err(),
    ensures
        stamping_of(hosts, hostname, stamp).0 == hosts,
{
    lemma_first_named(hosts, hostname);
}

impl HostInventory {
    /// An inventory without hosts.
    pub fn new() -> (inventory: HostInventory)
        ensures
            inventory@ == Seq::<HostText>::empty(),
    {
        let inventory = HostInventory { hosts: Vec::new() };
        assert(inventory@ =~= Seq::<HostText>::empty());
        inventory
    }

    /// The known hosts, in their order.
    pub fn list(&self) -> (hosts: Vec<Host>)
        ensures
            hosts_of(hosts@) == self@,
    {
        let mut hosts: Vec<Host> = Vec::new();
        let mut i: usize = 0;
        while i < self.hosts.len()
            invariant
                i <= self.hosts@.len(),
                hosts_of(hosts@) == self@.take(i as int),
            decreases self.hosts@.len() - i,
        {
            let ghost held = hosts_of(hosts@);
            hosts.push(self.hosts[i].duplicate());
            assert(hosts_of(hosts@) =~= held.push(self.hosts@[i as int]@));
            assert(self@.take(i + 1) =~= self@.take(i as int).push(self@[i as int]));
            i += 1;
        }
        assert(self@.take(i as int) =~= self@);
        hosts
    }

    /// The index of the first host named `hostname`.
    fn position(&self, hostname: &String) -> (at: usize)
        ensures
            at == first_named(self@, hostname@),
            at <= self.hosts@.len(),
    {
        let mut i: usize = 0;
        while i < self.hosts.len() && self.hosts[i].hostname != *hostname
            invariant
                i <= self.hosts@.len(),
                forall|j: int| 0 <= j < i ==> self@[j].hostname != hostname@,
            decreases self.hosts@.len() - i,
        {
            i += 1;
        }
        proof {
            lemma_first_named_unique(self@, hostname@, i as int);
        }
        i
    }

    /// Puts `host` into the inventory: in the place of the first host of
    /// the same name, at the end if there is none. A host whose name is
    /// blank is refused.
    pub fn upsert(&mut self, host: Host) -> (result: Result<(), InventoryError>)
        ensures
            blank(host.hostname@) ==> result == Err::<(), InventoryError>(
                InventoryError::EmptyHostname,
            ) && final(self)@ == old(self)@,
            !blank(host.hostname@) ==> result.is_ok() && final(self)@ == upserted(
                old(self)@,
                host@,
            ),
    {
        if is_blank(host.hostname.as_str()) {
            return Err(InventoryError::EmptyHostname);
        }
        let ghost before = self@;
        let at = self.position(&host.hostname);
        if at < self.hosts.len() {
            self.hosts.set(at, host);
            assert(self@ =~= before.update(at as int, host@));
        } else {
            self.hosts.push(host);
            assert(self@ =~= before.push(host@));
        }
        Ok(())
    }

    /// Stamps the first host named `hostname` as last connected to at
    /// `stamp`. Where no host has the name, the inventory stays as it is.
    pub fn stamp_last_connected(&mut self, hostname: &str, stamp: &str) -> (result: Result<
        (),
        InventoryError,
    >)
        ensures
            final(self)@ == stamped(old(self)@, hostname@, stamp@),
            result == (if first_named(old(self)@, hostname@) < old(self)@.len() {
                Ok::<(), InventoryError>(())
            } else {
                Err::<(), InventoryError>(InventoryError::UnknownHost)
            }),
    {
        let ghost before = self@;
        let name = String::from_str(hostname);
        let at = self.position(&name);
        if at < self.hosts.len() {
            let host = Host {
                hostname: self.hosts[at].hostname.clone(),
                description: self.hosts[at].description.clone(),
                last_connected: Some(String::from_str(stamp)),
            };
            self.hosts.set(at, host);
            assert(self@ =~= stamped(before, hostname@, stamp@));
            Ok(())
        } else {
            Err(InventoryError::UnknownHost)
        }
    }

    /// Stamps the first host named `hostname` as last connected to at
    /// `moment`. Where the moment cannot be put into text, or no host has
    /// the name, the inventory stays as it is.
    pub fn stamp_at(&mut self, hostname: &str, moment: &Moment) -> (result: Result<
        (),
        InventoryError,
    >)
        ensures
            final(self)@ == stamping_of(
                old(self)@,
                hostname@,
                moment_text_of(*moment, STAMP_FORMAT@),
            ).0,
            result == stamping_of(
                old(self)@,
                hostname@,
                moment_text_of(*moment, STAMP_FORMAT@),
            ).1,
    {
        match moment.stamp() {
            Some(stamp) => self.stamp_last_connected(hostname, stamp.as_str()),
            None => Err(InventoryError::Undated),
        }
    }

    /// Stamps the first host named `hostname` as last connected to now,
    /// in local time at `utc_offset`. Where the clock gives no time that
    /// can be put into text, or no host has the name, the inventory stays
    /// as it is.
    pub fn stamp_now(&mut self, hostname: &str, utc_offset: i32) -> (result: Result<
        (),
        InventoryError,
    >)
        ensures
            exists|stamp: Option<Seq<char>>|
                final(self)@ == (#[trigger] stamping_of(old(self)@, hostname@, stamp)).0 && result
                    == stamping_of(old(self)@, hostname@, stamp).1,
    {
        match Moment::now(utc_offset) {
            Some(moment) => {
                let result = self.stamp_at(hostname, &moment);
                assert(self@ == stamping_of(
                    old(self)@,
                    hostname@,
                    moment_text_of(moment, STAMP_FORMAT@),
                ).0);
                result
            },
            None => {
                assert(self@ == stamping_of(old(self)@, hostname@, None).0);
                Err(InventoryError::Undated)
            },
        }
    }

    /// The hosts that answer `query`, in their order.
    pub fn search(&self, query: &str) -> (hosts: Vec<Host>)
        ensures
            hosts_of(hosts@) == self@.filter(|host: HostText| answers(host, query@)),
    {
        let ghost wanted = |host: HostText| answers(host, query@);
        let lower_query = query.to_lowercase();
        let needle = chars_of(lower_query.as_str());
        let mut hosts: Vec<Host> = Vec::new();
        let mut i: usize = 0;
        proof {
            assert(self@.take(0) =~= Seq::<HostText>::empty());
            reveal(Seq::filter);
            assert(hosts_of(hosts@) =~= self@.take(0).filter(wanted));
        }
        while i < self.hosts.len()
            invariant
                i <= self.hosts@.len(),
                needle@ == lowercase_of(query@),
                wanted == |host: HostText| answers(host, query@),
                hosts_of(hosts@) == self@.take(i as int).filter(wanted),
            decreases self.hosts@.len() - i,
        {
            let ghost held = hosts_of(hosts@);
            proof {
                assert(self@.take(i + 1).drop_last() =~= self@.take(i as int));
                assert(self@.take(i + 1).last() == self.hosts@[i as int]@);
                reveal(Seq::filter);
            }
            let name = self.hosts[i].hostname.as_str().to_lowercase();
            let description = self.hosts[i].description.as_str().to_lowercase();
            let in_name = contains_text(&chars_of(name.as_str()), &needle);
            let in_description = contains_text(&chars_of(description.as_str()), &needle);
            if in_name || in_description {
                hosts.push(self.hosts[i].duplicate());
                assert(hosts_of(hosts@) =~= held.push(self.hosts@[i as int]@));
            }
            i += 1;
        }
        assert(self@.take(i as int) =~= self@);
        hosts
    }

    /// Forgets every host.
    pub fn clear(&mut self)
        ensures
            final(self)@ == Seq::<HostText>::empty(),
    {
        self.hosts.clear();
        assert(self@ =~= Seq::<HostText>::empty());
    }

    /// Puts `hosts` in the place of the whole inventory.
    pub fn replace(&mut self, hosts: Vec<Host>)
        ensures
            final(self)@ == hosts_of(hosts@),
    {
        self.hosts = hosts;
    }

    /// Forgets the hosts named `hostname`.
    pub fn remove(&mut self, hostname: &str)
        ensures
            final(self)@ == without(old(self)@, hostname@),
    {
        let ghost before = self@;
        let ghost other = |h: HostText| h.hostname != hostname@;
        let name = String::from_str(hostname);
        let mut all: Vec<Host> = Vec::new();
        core::mem::swap(&mut self.hosts, &mut all);
        let mut i: usize = 0;
        assert(before.take(0) =~= Seq::<HostText>::empty());
        assert(self@ =~= Seq::<HostText>::empty());
        while i < all.len()
            invariant
                i <= all@.len(),
                before == hosts_of(all@),
                name@ == hostname@,
                other == |h: HostText| h.hostname != hostname@,
                self@ == before.take(i as int).filter(other),
            decreases all@.len() - i,
        {
            let ghost held = self@;
            proof {
                assert(before.take(i + 1).drop_last() =~= before.take(i as int));
                assert(before.take(i + 1).last() == all@[i as int]@);
                reveal(Seq::filter);
            }
            if all[i].hostname != name {
                self.hosts.push(all[i].duplicate());
                assert(self@ =~= held.push(all@[i as int]@));
            }
            i += 1;
        }
        assert(before.take(i as int) =~= before);
    }
}

} // verus!
