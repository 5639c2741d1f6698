//! Credentials, the scope keys they are stored under, and the failures of
//! the store that keeps them.

use vstd::prelude::*;

verus! {

/// The scope key of the global credential: the application's name.
pub const GLOBAL_SCOPE: &'static str = "QuickRDP";

/// What a per-host scope key begins with; the host name follows.
pub const HOST_SCOPE_PREFIX: &'static str = "TERMSRV/";

/// The pattern that selects every per-host scope key.
pub const HOST_SCOPE_PATTERN: &'static str = "TERMSRV/*";

/// An account name and its secret.
#[derive(Clone, Debug, PartialEq, Eq)]
pub struct Credential {
    pub account: String,
    pub secret: String,
}

/// What a `Credential` stands for in contracts.
pub struct CredentialText {
    pub account: Seq<char>,
    pub secret: Seq<char>,
}

impl View for Credential {
    type V = CredentialText;

    open spec fn view(&self) -> CredentialText {
        CredentialText { account: self.account@, secret: self.secret@ }
    }
}

/// The scope key under which the credential of `hostname` is kept.
pub open spec fn host_scope(hostname: Seq<char>) -> Seq<char> {
    HOST_SCOPE_PREFIX@ + hostname
}

/// The scope key of the global credential.
pub fn global_scope_key() -> (key: String)
    ensures
        key@ == GLOBAL_SCOPE@,
{
    String::from_str(GLOBAL_SCOPE)
}

/// The scope key under which the credential of `hostname` is kept.
pub fn host_scope_key(hostname: &str) -> (key: String)
    ensures
        key@ == host_scope(hostname@),
{
    let mut key = String::from_str(HOST_SCOPE_PREFIX);
    key.append(hostname);
    key
}

/// Why a credential was refused before it reached the store.
#[derive(Clone, Copy, Debug, PartialEq, Eq, Structural)]
pub enum CredentialError {
    /// The account is empty.
    EmptyAccount,
}

impl CredentialError {
    /// The message that the user is shown for this failure.
    pub open spec fn message_text(self) -> Seq<char> {
        "Username cannot be empty"@
    }

    /// The message that the user is shown for this failure.
    pub fn message(&self) -> (text: String)
        ensures
            text@ == self.message_text(),
    {
        String::from_str("Username cannot be empty")
    }
}

/// The part of a stored entry that failed to decode.
#[derive(Clone, Copy, Debug, PartialEq, Eq, Structural)]
pub enum StoredField {
    Account,
    Secret,
}

/// A failure of the secret store.
#[derive(Clone, Copy, Debug, PartialEq, Eq, Structural)]
pub enum StoreError {
    /// The platform refused to write an entry.
    Write,
    /// The platform failed to read an entry that may exist.
    Read,
    /// The platform refused to delete an entry, or there was none.
    Delete,
    /// An entry exists, but a field of it is no wide-character text.
    Decode(StoredField),
}

impl StoreError {
    /// The message that the user is shown for this failure.
    pub open spec fn message_text(self) -> Seq<char> {
        match self {
            StoreError::Write => "Failed to save credentials"@,
            StoreError::Read => "Failed to read credentials"@,
            StoreError::Delete => "Failed to delete credentials"@,
            StoreError::Decode(StoredField::Account) => "Failed to read username"@,
            StoreError::Decode(StoredField::Secret) => "Failed to decode password from UTF-16"@,
        }
    }

    /// The message that the user is shown for this failure.
    pub fn message(&self) -> (text: String)
        ensures
            text@ == self.message_text(),
    {
        match self {
            StoreError::Write => String::from_str("Failed to save credentials"),
            StoreError::Read => String::from_str("Failed to read credentials"),
            StoreError::Delete => String::from_str("Failed to delete credentials"),
            StoreError::Decode(StoredField::Account) => String::from_str("Failed to read username"),
            StoreError::Decode(StoredField::Secret) => String::from_str(
                "Failed to decode password from UTF-16",
            ),
        }
    }
}

} // verus!
