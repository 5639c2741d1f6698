//! Credential entries in the form the platform vault keeps them: the user
//! name as terminated wide-character text, the secret as a byte blob.

use vstd::prelude::*;
use crate::credential::{
    Credential, CredentialError, CredentialText, StoreError, StoredField,
};
use crate::identity::{
    lemma_parsed_requalifiable, lemma_qualified_characters, parse_login, qualified, Identity,
    DOWN_LEVEL_SEPARATOR, PRINCIPAL_SEPARATOR,
};
use crate::text::{chars_of, lemma_next_index, lemma_next_index_unique, next_index, text_of};
use crate::wide::{
    char_of_pair, decode_utf16, encode_utf16, is_high_surrogate, is_low_surrogate, le_bytes,
    le_bytes_of, lemma_le_bytes_round_trip,
    lemma_utf16_of_concat, lemma_utf16_round_trip, text_of_utf16, units_from_le_bytes,
    units_of_char, units_of_le_bytes, utf16_of,
};

verus! {

/// Wide-character text with its terminating zero code unit.
pub open spec fn wide_text(text: Seq<char>) -> Seq<u16> {
    utf16_of(text) + seq![0u16]
}

/// A secret as the vault keeps it: wide-character text with its
/// terminator, two bytes per code unit.
pub open spec fn secret_blob(secret: Seq<char>) -> Seq<u8> {
    le_bytes_of(wide_text(secret))
}

/// The code units before the first zero, all of them if there is none.
pub open spec fn until_nul(units: Seq<u16>) -> Seq<u16> {
    units.subrange(0, next_index(units, 0, 0u16))
}

/// `text` without the NUL characters at its end.
pub open spec fn trim_nul(text: Seq<char>) -> Seq<char>
    decreases text.len(),
{
    if text.len() > 0 && text.last() == '\0' {
        trim_nul(text.drop_last())
    } else {
        text
    }
}

/// The account that a stored user name spells, if it is well formed.
pub open spec fn account_of(user_name: Seq<u16>) -> Option<Seq<char>> {
    text_of_utf16(until_nul(user_name))
}

/// The secret that a stored blob spells, if it is well formed.
pub open spec fn secret_of(blob: Seq<u8>) -> Option<Seq<char>> {
    match text_of_utf16(units_of_le_bytes(blob)) {
        Some(text) => Some(trim_nul(text)),
        None => None,
    }
}

/// Wide-character text with its terminating zero code unit.
pub fn wide_string(text: &str) -> (units: Vec<u16>)
    ensures
        units@ == wide_text(text@),
{
    let mut units = encode_utf16(text);
    units.push(0u16);
    units
}

/// Encodes a secret for the vault. The blob holds two bytes for each code
/// unit of the secret and two for the terminator.
pub fn encode_secret(secret: &str) -> (blob: Vec<u8>)
    ensures
        blob@ == secret_blob(secret@),
        blob@.len() == 2 * (utf16_of(secret@).len() + 1),
{
    let units = wide_string(secret);
    le_bytes(units.as_slice())
}

/// Decodes a stored user name: the text before its terminator.
pub fn decode_account(user_name: &[u16]) -> (account: Result<String, StoreError>)
    ensures
        match account {
            Ok(text) => account_of(user_name@) == Some(text@),
            Err(e) => account_of(user_name@).is_none() && e == StoreError::Decode(
                StoredField::Account,
            ),
        },
{
    let mut end: usize = 0;
    while end < user_name.len() && user_name[end] != 0
        invariant
            end <= user_name.len(),
            forall|j: int| 0 <= j < end ==> user_name@[j] != 0u16,
        decreases user_name.len() - end,
    {
        end += 1;
    }
    proof {
        lemma_next_index_unique(user_name@, 0, 0u16, end as int);
    }
    let head = vstd::slice::slice_subrange(user_name, 0, end);
    match decode_utf16(head) {
        Some(text) => Ok(text),
        None => Err(StoreError::Decode(StoredField::Account)),
    }
}

/// Decodes a stored blob: wide-character text, without the NUL characters
/// at its end. A blob that is no such text is an error, not a missing
/// secret.
pub fn decode_secret(blob: &[u8]) -> (secret: Result<String, StoreError>)
    ensures
        match secret {
            Ok(text) => secret_of(blob@) == Some(text@),
            Err(e) => secret_of(blob@).is_none() && e == StoreError::Decode(StoredField::Secret),
        },
{
    let units = units_from_le_bytes(blob);
    match decode_utf16(units.as_slice()) {
        Some(text) => {
            let chars = chars_of(text.as_str());
            let mut end: usize = chars.len();
            assert(chars@.take(end as int) =~= chars@);
            while end > 0 && chars[end - 1] == '\0'
                invariant
                    end <= chars.len(),
                    trim_nul(chars@) == trim_nul(chars@.take(end as int)),
                decreases end,
            {
                assert(chars@.take(end as int).drop_last() =~= chars@.take(end - 1));
                end -= 1;
            }
            Ok(text_of(&chars, 0, end))
        },
        None => Err(StoreError::Decode(StoredField::Secret)),
    }
}

/// A secret read back from its blob is the secret without the NUL
/// characters at its end: itself, when it has none there.
pub proof fn lemma_secret_round_trip(secret: Seq<char>)
    ensures
        secret_of(secret_blob(secret)) == Some(trim_nul(secret)),
        secret.len() == 0 || secret.last() != '\0' ==> secret_of(secret_blob(secret)) == Some(
            secret,
        ),
{
    let terminated = secret.push('\0');
    lemma_le_bytes_round_trip(wide_text(secret));
    lemma_utf16_of_concat(secret, seq!['\0']);
    assert(secret + seq!['\0'] =~= terminated);
    assert(utf16_of(seq!['\0']) =~= seq![0u16]) by {
        let one = seq!['\0'];
        assert(one.drop_first() =~= Seq::<char>::empty());
        assert(utf16_of(one.drop_first()) =~= Seq::<u16>::empty());
        assert('\0' as u32 == 0);
        assert(units_of_char(one[0]) =~= seq![0u16]);
        assert(utf16_of(one) == units_of_char(one[0]) + utf16_of(one.drop_first()));
    }
    lemma_utf16_round_trip(terminated);
    assert(terminated.drop_last() =~= secret);
}

/// No character but NUL has a zero among its code units.
pub proof fn lemma_utf16_zero_free(text: Seq<char>)
    requires
        !text.contains('\0'),
    ensures
        !utf16_of(text).contains(0u16),
    decreases text.len(),
{
    if text.len() > 0 {
        let rest = text.drop_first();
        assert forall|j: int| 0 <= j < rest.len() implies rest[j] != '\0' by {
            assert(rest[j] == text[j + 1]);
        }
        lemma_utf16_zero_free(rest);
        let c = text[0];
        assert(c != '\0');
        vstd::utf8::char_u32_cast(c, c as u32);
        assert(c as u32 != 0);
        let head = units_of_char(c);
        let units = utf16_of(text);
        assert forall|j: int| 0 <= j < units.len() implies units[j] != 0u16 by {
            if j >= head.len() {
                assert(units[j] == utf16_of(rest)[j - head.len()]);
            }
        }
    }
}

/// An account without a NUL character reads back as itself.
pub proof fn lemma_account_round_trip(account: Seq<char>)
    requires
        !account.contains('\0'),
    ensures
        account_of(wide_text(account)) == Some(account),
{
    let units = utf16_of(account);
    let wide = wide_text(account);
    lemma_utf16_zero_free(account);
    assert forall|j: int| 0 <= j < units.len() implies wide[j] != 0u16 by {
        assert(wide[j] == units[j]);
    }
    lemma_next_index_unique(wide, 0, 0u16, units.len() as int);
    assert(until_nul(wide) =~= units);
    lemma_utf16_round_trip(account);
}

/// Code units without a zero decode to text without a NUL character.
pub proof fn lemma_zero_free_text(units: Seq<u16>)
    requires
        !units.contains(0u16),
        text_of_utf16(units).is_some(),
    ensures
        !text_of_utf16(units).unwrap().contains('\0'),
    decreases units.len(),
{
    if units.len() > 0 {
        let text = text_of_utf16(units).unwrap();
        assert(units[0] != 0u16);
        if !is_high_surrogate(units[0]) && !is_low_surrogate(units[0]) {
            let rest = units.drop_first();
            assert forall|j: int| 0 <= j < rest.len() implies rest[j] != 0u16 by {
                assert(rest[j] == units[j + 1]);
            }
            lemma_zero_free_text(rest);
            let tail = text_of_utf16(rest).unwrap();
            assert(text == seq![units[0] as char] + tail);
            assert(units[0] as char != '\0');
            assert forall|j: int| 0 <= j < text.len() implies text[j] != '\0' by {
                if j > 0 {
                    assert(text[j] == tail[j - 1]);
                }
            }
        } else {
            let rest = units.subrange(2, units.len() as int);
            assert forall|j: int| 0 <= j < rest.len() implies rest[j] != 0u16 by {
                assert(rest[j] == units[j + 2]);
            }
            lemma_zero_free_text(rest);
            let tail = text_of_utf16(rest).unwrap();
            assert(text == seq![char_of_pair(units[0], units[1])] + tail);
            assert(char_of_pair(units[0], units[1]) != '\0');
            assert forall|j: int| 0 <= j < text.len() implies text[j] != '\0' by {
                if j > 0 {
                    assert(text[j] == tail[j - 1]);
                }
            }
        }
    }
}

/// A decoded account holds no NUL character.
pub proof fn lemma_account_nul_free(user_name: Seq<u16>)
    requires
        account_of(user_name).is_some(),
    ensures
        !account_of(user_name).unwrap().contains('\0'),
{
    lemma_next_index(user_name, 0, 0u16);
    let head = until_nul(user_name);
    assert forall|j: int| 0 <= j < head.len() implies head[j] != 0u16 by {
        assert(head[j] == user_name[j]);
    }
    lemma_zero_free_text(head);
}

/// Trimmed text does not end in a NUL character.
pub proof fn lemma_trimmed(text: Seq<char>)
    ensures
        trim_nul(text).len() == 0 || trim_nul(text).last() != '\0',
        trim_nul(trim_nul(text)) == trim_nul(text),
    decreases text.len(),
{
    if text.len() > 0 && text.last() == '\0' {
        lemma_trimmed(text.drop_last());
    }
}

/// A credential that an entry decodes to is written back and read again
/// without change.
pub proof fn lemma_decoded_round_trip(entry: VaultEntryData)
    requires
        credential_of(entry).is_ok(),
    ensures
        credential_of(
            entry_of(credential_of(entry).unwrap().account, credential_of(entry).unwrap().secret),
        ) == credential_of(entry),
{
    let credential = credential_of(entry).unwrap();
    lemma_account_nul_free(entry.user_name);
    lemma_trimmed(text_of_utf16(units_of_le_bytes(entry.blob)).unwrap());
    lemma_entry_round_trip(credential.account, credential.secret);
}

/// A credential entry in the form the platform vault keeps it.
#[derive(Clone, Debug, PartialEq, Eq)]
pub struct VaultEntry {
    /// The user name in wide characters, ended by a zero code unit.
    pub user_name: Vec<u16>,
    /// The secret in wide characters with its terminator, as bytes.
    pub blob: Vec<u8>,
}

/// What a `VaultEntry` stands for in contracts.
pub struct VaultEntryData {
    pub user_name: Seq<u16>,
    pub blob: Seq<u8>,
}

impl View for VaultEntry {
    type V = VaultEntryData;

    open spec fn view(&self) -> VaultEntryData {
        VaultEntryData { user_name: self.user_name@, blob: self.blob@ }
    }
}

/// The entry that holds `account` and `secret`.
pub open spec fn entry_of(account: Seq<char>, secret: Seq<char>) -> VaultEntryData {
    VaultEntryData { user_name: wide_text(account), blob: secret_blob(secret) }
}

/// The credential that an entry holds. The account is decoded first.
pub open spec fn credential_of(entry: VaultEntryData) -> Result<CredentialText, StoreError> {
    match account_of(entry.user_name) {
        None => Err(StoreError::Decode(StoredField::Account)),
        Some(account) => match secret_of(entry.blob) {
            None => Err(StoreError::Decode(StoredField::Secret)),
            Some(secret) => Ok(CredentialText { account, secret }),
        },
    }
}

/// Whether `result` is the outcome `expected`, credentials compared by
/// their text.
pub open spec fn is_credential(
    result: Result<Credential, StoreError>,
    expected: Result<CredentialText, StoreError>,
) -> bool {
    match result {
        Ok(credential) => expected == Ok::<CredentialText, StoreError>(credential@),
        Err(e) => expected == Err::<CredentialText, StoreError>(e),
    }
}

impl VaultEntry {
    /// The entry that holds `account` and `secret`.
    pub fn encode(account: &str, secret: &str) -> (entry: VaultEntry)
        ensures
            entry@ == entry_of(account@, secret@),
    {
        VaultEntry { user_name: wide_string(account), blob: encode_secret(secret) }
    }

    /// The credential that this entry holds, or the field that is no
    /// wide-character text.
    pub fn decode(&self) -> (credential: Result<Credential, StoreError>)
        ensures
            is_credential(credential, credential_of(self@)),
    {
        match decode_account(self.user_name.as_slice()) {
            Err(e) => Err(e),
            Ok(account) => match decode_secret(self.blob.as_slice()) {
                Err(e) => Err(e),
                Ok(secret) => Ok(Credential { account, secret }),
            },
        }
    }
}

/// The entry to keep as the global credential: the login as the user
/// typed it. A login must not be empty.
pub fn global_entry(login: &str, secret: &str) -> (entry: Result<VaultEntry, CredentialError>)
    ensures
        match entry {
            Ok(e) => login@.len() > 0 && e@ == entry_of(login@, secret@),
            Err(e) => login@.len() == 0 && e == CredentialError::EmptyAccount,
        },
{
    if login.is_empty() {
        Err(CredentialError::EmptyAccount)
    } else {
        Ok(VaultEntry::encode(login, secret))
    }
}

/// The entry to keep as a host's own credential: the login in its
/// qualified form, `realm\account`, or the bare account where the login
/// names no realm. A launch parses the stored account and so recovers
/// both parts.
pub fn host_entry(login: &str, secret: &str) -> (entry: VaultEntry)
    ensures
        entry@ == entry_of(qualified(parse_login(login@)), secret@),
{
    let identity = Identity::parse(login);
    let account = identity.qualified_account();
    VaultEntry::encode(account.as_str(), secret)
}

/// What the platform answered to the read of an entry.
pub enum VaultRead {
    /// There is an entry, and this is it.
    Found(VaultEntry),
    /// There is no entry.
    Missing,
    /// The read failed, so that it is not known whether there is an
    /// entry.
    Failed,
}

/// The outcome of a read, given what the platform answered: only an
/// absent entry is no credential; an entry that cannot be decoded and a
/// read that failed are errors.
pub fn read_outcome(read: VaultRead) -> (result: Result<Option<Credential>, StoreError>)
    ensures
        match read {
            VaultRead::Found(entry) => match credential_of(entry@) {
                Ok(credential) => result matches Ok(Some(c)) && c@ == credential,
                Err(e) => result == Err::<Option<Credential>, StoreError>(e),
            },
            VaultRead::Missing => result matches Ok(None),
            VaultRead::Failed => result == Err::<Option<Credential>, StoreError>(
                StoreError::Read,
            ),
        },
{
    match read {
        VaultRead::Found(entry) => match entry.decode() {
            Ok(credential) => Ok(Some(credential)),
            Err(e) => Err(e),
        },
        VaultRead::Missing => Ok(None),
        VaultRead::Failed => Err(StoreError::Read),
    }
}

/// A host's own credential, saved from a login and read back, parses to
/// the identity that the login parses to, and its secret is the one
/// saved. Left out are a login that holds a NUL character or begins with
/// a backslash and holds another separator after it, and a secret that
/// ends in a NUL character.
pub proof fn lemma_host_entry_keeps_identity(login: Seq<char>, secret: Seq<char>)
    requires
        !login.contains('\0'),
        secret.len() == 0 || secret.last() != '\0',
        !(login.len() > 0 && login[0] == DOWN_LEVEL_SEPARATOR && (login.subrange(
            1,
            login.len() as int,
        ).contains(DOWN_LEVEL_SEPARATOR) || login.subrange(1, login.len() as int).contains(
            PRINCIPAL_SEPARATOR,
        ))),
    ensures
        credential_of(entry_of(qualified(parse_login(login)), secret)) == Ok::<
            CredentialText,
            StoreError,
        >(CredentialText { account: qualified(parse_login(login)), secret }),
        parse_login(qualified(parse_login(login))) == parse_login(login),
{
    lemma_qualified_characters(login, '\0');
    lemma_entry_round_trip(qualified(parse_login(login)), secret);
    lemma_parsed_requalifiable(login);
}

/// A credential whose account holds no NUL and whose secret does not end
/// in one is read back from its entry as it was written.
pub proof fn lemma_entry_round_trip(account: Seq<char>, secret: Seq<char>)
    requires
        !account.contains('\0'),
        secret.len() == 0 || secret.last() != '\0',
    ensures
        credential_of(entry_of(account, secret)) == Ok::<CredentialText, StoreError>(
            CredentialText { account, secret },
        ),
{
    lemma_account_round_trip(account);
    lemma_secret_round_trip(secret);
}

} // verus!
