//! The secret store as an owned image of the platform vault: named
//! credential entries, at most one for each scope key.

use vstd::prelude::*;
use crate::credential::{
    global_scope_key, host_scope, host_scope_key, Credential, CredentialError, CredentialText,
    StoreError, GLOBAL_SCOPE, HOST_SCOPE_PATTERN,
};
use crate::identity::{parse_login, qualified};
use crate::keyed::{pattern_selects, Keyed};
use crate::text::texts_of;
use crate::vault_entry::{
    credential_of, entry_of, global_entry, host_entry, VaultEntry, VaultEntryData,
};

verus! {

/// Named credential entries. A write under a scope key that is taken
/// replaces the entry; nothing else changes an entry.
pub struct SecretStore {
    entries: Keyed<VaultEntry>,
    written: Ghost<nat>,
}

/// The contents of a store: the entry under each scope key.
pub type Vault = Map<Seq<char>, VaultEntryData>;

/// What a read of `key` gives: nothing where no entry is stored, the
/// credential of the entry where one is, and an error where an entry is
/// stored that cannot be decoded.
pub open spec fn read_of(vault: Vault, key: Seq<char>) -> Result<Option<CredentialText>, StoreError> {
    if vault.dom().contains(key) {
        match credential_of(vault[key]) {
            Ok(credential) => Ok(Some(credential)),
            Err(e) => Err(e),
        }
    } else {
        Ok(None)
    }
}

/// Whether `result` is the outcome `expected`, credentials compared by
/// their text.
pub open spec fn is_read(
    result: Result<Option<Credential>, StoreError>,
    expected: Result<Option<CredentialText>, StoreError>,
) -> bool {
    match result {
        Ok(Some(credential)) => expected == Ok::<Option<CredentialText>, StoreError>(
            Some(credential@),
        ),
        Ok(None) => expected == Ok::<Option<CredentialText>, StoreError>(None),
        Err(e) => expected == Err::<Option<CredentialText>, StoreError>(e),
    }
}

impl View for SecretStore {
    type V = Vault;

    closed spec fn view(&self) -> Vault {
        self.entries@.map_values(|entry: VaultEntry| entry@)
    }
}

impl SecretStore {
    /// How many entries have been written to this store since it was made.
    pub closed spec fn writes(&self) -> nat {
        self.written@
    }

    /// A store without entries.
    pub fn new() -> (store: SecretStore)
        ensures
            store@ == Map::<Seq<char>, VaultEntryData>::empty(),
            store.writes() == 0,
    {
        let store = SecretStore { entries: Keyed::new(), written: Ghost(0) };
        assert(store@ =~= Map::<Seq<char>, VaultEntryData>::empty());
        store
    }

    /// Whether an entry is stored under `scope_key`.
    pub fn contains(&self, scope_key: &str) -> (found: bool)
        ensures
            found == self@.dom().contains(scope_key@),
    {
        self.entries.contains(scope_key)
    }

    /// Stores `entry` under `scope_key`, in place of the entry that was
    /// stored there, if any.
    pub fn put(&mut self, scope_key: &str, entry: VaultEntry)
        ensures
            final(self)@ == old(self)@.insert(scope_key@, entry@),
            final(self).writes() == old(self).writes() + 1,
    {
        let ghost before = self.entries@;
        self.entries.put(scope_key, entry);
        self.written = Ghost(self.written@ + 1);
        assert(self@ =~= before.map_values(|entry: VaultEntry| entry@).insert(
            scope_key@,
            entry@,
        ));
    }

    /// Writes the credential under `scope_key`, in place of the entry that
    /// was stored there, if any.
    pub fn save(&mut self, scope_key: &str, account: &str, secret: &str)
        ensures
            final(self)@ == old(self)@.insert(scope_key@, entry_of(account@, secret@)),
            final(self).writes() == old(self).writes() + 1,
    {
        self.put(scope_key, VaultEntry::encode(account, secret));
    }

    /// Reads the credential under `scope_key`. That there is none is no
    /// error; that there is one which cannot be decoded is.
    pub fn read(&self, scope_key: &str) -> (result: Result<Option<Credential>, StoreError>)
        ensures
            is_read(result, read_of(self@, scope_key@)),
    {
        match self.entries.get(scope_key) {
            None => Ok(None),
            Some(entry) => match entry.decode() {
                Ok(credential) => Ok(Some(credential)),
                Err(e) => Err(e),
            },
        }
    }

    /// Deletes the entry under `scope_key`. Where there is none, the store
    /// stays as it is and the call fails.
    pub fn delete(&mut self, scope_key: &str) -> (result: Result<(), StoreError>)
        ensures
            final(self).writes() == old(self).writes(),
            old(self)@.dom().contains(scope_key@) ==> result.is_ok() && final(self)@ == old(
                self,
            )@.remove(scope_key@),
            !old(self)@.dom().contains(scope_key@) ==> result == Err::<(), StoreError>(
                StoreError::Delete,
            ) && final(self)@ == old(self)@,
    {
        let ghost before = self.entries@;
        let removed = self.entries.remove(scope_key);
        assert(self@ =~= before.map_values(|entry: VaultEntry| entry@).remove(scope_key@));
        if removed {
            Ok(())
        } else {
            assert(self@ =~= before.map_values(|entry: VaultEntry| entry@));
            Err(StoreError::Delete)
        }
    }

    /// Keeps `login` and `secret` as the global credential. An empty
    /// login is refused and nothing is written.
    pub fn save_global(&mut self, login: &str, secret: &str) -> (result: Result<
        (),
        CredentialError,
    >)
        ensures
            login@.len() == 0 ==> result == Err::<(), CredentialError>(
                CredentialError::EmptyAccount,
            ) && final(self)@ == old(self)@ && final(self).writes() == old(self).writes(),
            login@.len() > 0 ==> result.is_ok() && final(self)@ == old(self)@.insert(
                GLOBAL_SCOPE@,
                entry_of(login@, secret@),
            ) && final(self).writes() == old(self).writes() + 1,
    {
        match global_entry(login, secret) {
            Ok(entry) => {
                let key = global_scope_key();
                self.put(key.as_str(), entry);
                Ok(())
            },
            Err(e) => Err(e),
        }
    }

    /// Keeps `login`, in its qualified form, and `secret` as the
    /// credential of `hostname`.
    pub fn save_for_host(&mut self, hostname: &str, login: &str, secret: &str)
        ensures
            final(self)@ == old(self)@.insert(
                host_scope(hostname@),
                entry_of(qualified(parse_login(login@)), secret@),
            ),
            final(self).writes() == old(self).writes() + 1,
    {
        let key = host_scope_key(hostname);
        self.put(key.as_str(), host_entry(login, secret));
    }

    /// Reads the global credential.
    pub fn read_global(&self) -> (result: Result<Option<Credential>, StoreError>)
        ensures
            is_read(result, read_of(self@, GLOBAL_SCOPE@)),
    {
        let key = global_scope_key();
        self.read(key.as_str())
    }

    /// Reads the credential of `hostname`.
    pub fn read_for_host(&self, hostname: &str) -> (result: Result<Option<Credential>, StoreError>)
        ensures
            is_read(result, read_of(self@, host_scope(hostname@))),
    {
        let key = host_scope_key(hostname);
        self.read(key.as_str())
    }

    /// Deletes the global credential.
    pub fn delete_global(&mut self) -> (result: Result<(), StoreError>)
        ensures
            final(self).writes() == old(self).writes(),
            old(self)@.dom().contains(GLOBAL_SCOPE@) ==> result.is_ok() && final(self)@ == old(
                self,
            )@.remove(GLOBAL_SCOPE@),
            !old(self)@.dom().contains(GLOBAL_SCOPE@) ==> result == Err::<(), StoreError>(
                StoreError::Delete,
            ) && final(self)@ == old(self)@,
    {
        let key = global_scope_key();
        self.delete(key.as_str())
    }

    /// Deletes the credential of every host, each on its own, and gives
    /// the scope keys that were deleted. Entries under other scope keys
    /// stay as they are.
    pub fn sweep_hosts(&mut self) -> (deleted: Vec<String>)
        ensures
            final(self).writes() == old(self).writes(),
            final(self)@ == old(self)@.remove_keys(
                Set::new(|key: Seq<char>| pattern_selects(HOST_SCOPE_PATTERN@, key)),
            ),
            texts_of(deleted@).no_duplicates(),
            forall|key: Seq<char>| #[trigger]
                texts_of(deleted@).contains(key) <==> old(self)@.dom().contains(key)
                    && pattern_selects(HOST_SCOPE_PATTERN@, key),
    {
        let ghost before = self@;
        let ghost selected = Set::new(|key: Seq<char>| pattern_selects(HOST_SCOPE_PATTERN@, key));
        let keys = self.enumerate(HOST_SCOPE_PATTERN);
        let ghost names = texts_of(keys@);
        let mut i: usize = 0;
        assert(self@ =~= before.remove_keys(names.take(0).to_set()));
        while i < keys.len()
            invariant
                i <= keys@.len(),
                names == texts_of(keys@),
                names.no_duplicates(),
                forall|key: Seq<char>| #[trigger]
                    names.contains(key) ==> before.dom().contains(key),
                self@ == before.remove_keys(names.take(i as int).to_set()),
                self.writes() == old(self).writes(),
            decreases keys@.len() - i,
        {
            let ghost held = self@;
            proof {
                assert(names[i as int] == keys@[i as int]@);
                assert(names.contains(names[i as int]));
                assert(!names.take(i as int).contains(names[i as int])) by {
                    if names.take(i as int).contains(names[i as int]) {
                        let j = choose|j: int|
                            0 <= j < i && names.take(i as int)[j] == names[i as int];
                        assert(names[j] == names[i as int]);
                    }
                }
                assert(held.dom().contains(names[i as int]));
            }
            let _ = self.delete(keys[i].as_str());
            proof {
                assert(names.take(i + 1) =~= names.take(i as int).push(names[i as int]));
                names.take(i as int).lemma_push_to_set_commute(names[i as int]);
                assert(self@ =~= before.remove_keys(names.take(i + 1).to_set()));
            }
            i += 1;
        }
        proof {
            assert(names.take(i as int) =~= names);
            assert(before.remove_keys(names.to_set()) =~= before.remove_keys(selected)) by {
                assert forall|key: Seq<char>|
                    before.remove_keys(names.to_set()).dom().contains(key)
                        <==> before.remove_keys(selected).dom().contains(key) by {}
            }
        }
        keys
    }

    /// The scope keys that `pattern` selects, each once.
    pub fn enumerate(&self, pattern: &str) -> (keys: Vec<String>)
        ensures
            texts_of(keys@).no_duplicates(),
            forall|key: Seq<char>| #[trigger]
                texts_of(keys@).contains(key) <==> self@.dom().contains(key) && pattern_selects(
                    pattern@,
                    key,
                ),
    {
        self.entries.select(pattern)
    }
}

} // verus!
