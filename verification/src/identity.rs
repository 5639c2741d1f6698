//! Login identifiers and their decomposition into realm and account.

use vstd::prelude::*;
use crate::text::{chars_of, find_from, lemma_next_index, lemma_next_index_unique, next_index, text_of};

verus! {

/// A login split into its authentication realm and its account name.
/// Derived from a stored login whenever needed; never stored by itself.
#[derive(Clone, Debug, PartialEq, Eq)]
pub struct Identity {
    pub realm: String,
    pub account: String,
}

/// What an `Identity` stands for in contracts.
pub struct IdentityText {
    pub realm: Seq<char>,
    pub account: Seq<char>,
}

impl View for Identity {
    type V = IdentityText;

    open spec fn view(&self) -> IdentityText {
        IdentityText { realm: self.realm@, account: self.account@ }
    }
}

/// The separator of the `REALM\account` form.
pub const DOWN_LEVEL_SEPARATOR: char = '\\';

/// The separator of the `account@realm` form.
pub const PRINCIPAL_SEPARATOR: char = '@';

/// A login with a backslash is `realm\account`, split at the first
/// backslash. Otherwise a login with an at sign is `account@realm`, split at
/// the first at sign. Otherwise the whole login is the account and the
/// realm is empty.
pub open spec fn parse_login(login: Seq<char>) -> IdentityText {
    let n = login.len() as int;
    let slash = next_index(login, 0, DOWN_LEVEL_SEPARATOR);
    let at = next_index(login, 0, PRINCIPAL_SEPARATOR);
    if slash < n {
        IdentityText { realm: login.subrange(0, slash), account: login.subrange(slash + 1, n) }
    } else if at < n {
        IdentityText { realm: login.subrange(at + 1, n), account: login.subrange(0, at) }
    } else {
        IdentityText { realm: Seq::empty(), account: login }
    }
}

/// The account as the remote-desktop client expects it: `realm\account`,
/// or the bare account when the realm is empty.
pub open spec fn qualified(id: IdentityText) -> Seq<char> {
    if id.realm.len() == 0 {
        id.account
    } else {
        id.realm + seq![DOWN_LEVEL_SEPARATOR] + id.account
    }
}

impl Identity {
    /// Decomposes a login. Total: every string, the empty one too, has a
    /// decomposition.
    pub fn parse(login: &str) -> (id: Identity)
        ensures
            id@ == parse_login(login@),
    {
        let chars = chars_of(login);
        let n = chars.len();
        let slash = find_from(&chars, 0, DOWN_LEVEL_SEPARATOR);
        if slash < n {
            return Identity {
                realm: text_of(&chars, 0, slash),
                account: text_of(&chars, slash + 1, n),
            };
        }
        let at = find_from(&chars, 0, PRINCIPAL_SEPARATOR);
        if at < n {
            return Identity { realm: text_of(&chars, at + 1, n), account: text_of(&chars, 0, at) };
        }
        let account = text_of(&chars, 0, n);
        assert(account@ == login@);
        Identity { realm: String::new(), account }
    }

    /// The login in `realm\account` form, or the bare account when the
    /// realm is empty.
    pub fn qualified_account(&self) -> (login: String)
        ensures
            login@ == qualified(self@),
    {
        if self.realm.as_str().is_empty() {
            self.account.clone()
        } else {
            let mut login = self.realm.clone();
            login.push(DOWN_LEVEL_SEPARATOR);
            login.append(self.account.as_str());
            login
        }
    }
}

/// Whether `parse_login` gives `id` back from its qualified form: a realm
/// that is not empty must hold no backslash, and with an empty realm the
/// account must hold neither separator.
pub open spec fn requalifiable(id: IdentityText) -> bool {
    if id.realm.len() == 0 {
        !id.account.contains(DOWN_LEVEL_SEPARATOR) && !id.account.contains(PRINCIPAL_SEPARATOR)
    } else {
        !id.realm.contains(DOWN_LEVEL_SEPARATOR)
    }
}

/// The parts of a parsed login, put back around the separator that split
/// them, are the login.
pub proof fn lemma_parse_rejoins(login: Seq<char>)
    ensures
        login.contains(DOWN_LEVEL_SEPARATOR) ==> login == parse_login(login).realm
            + seq![DOWN_LEVEL_SEPARATOR] + parse_login(login).account,
        !login.contains(DOWN_LEVEL_SEPARATOR) && login.contains(PRINCIPAL_SEPARATOR) ==> login
            == parse_login(login).account + seq![PRINCIPAL_SEPARATOR] + parse_login(login).realm,
        !login.contains(DOWN_LEVEL_SEPARATOR) && !login.contains(PRINCIPAL_SEPARATOR)
            ==> parse_login(login) == (IdentityText { realm: Seq::empty(), account: login }),
{
    let n = login.len() as int;
    assert(login.subrange(0, n) =~= login);
    lemma_next_index(login, 0, DOWN_LEVEL_SEPARATOR);
    lemma_next_index(login, 0, PRINCIPAL_SEPARATOR);
    let id = parse_login(login);
    if login.contains(DOWN_LEVEL_SEPARATOR) {
        assert(login =~= id.realm + seq![DOWN_LEVEL_SEPARATOR] + id.account);
    } else if login.contains(PRINCIPAL_SEPARATOR) {
        assert(login =~= id.account + seq![PRINCIPAL_SEPARATOR] + id.realm);
    }
}

/// Parsing the qualified form of an identity gives the identity back,
/// whenever the identity is `requalifiable`.
pub proof fn lemma_parse_qualified(id: IdentityText)
    requires
        requalifiable(id),
    ensures
        parse_login(qualified(id)) == id,
{
    let login = qualified(id);
    let n = login.len() as int;
    assert(login.subrange(0, n) =~= login);
    if id.realm.len() == 0 {
        lemma_next_index(login, 0, DOWN_LEVEL_SEPARATOR);
        lemma_next_index(login, 0, PRINCIPAL_SEPARATOR);
        assert(id.realm =~= Seq::empty());
    } else {
        let k = id.realm.len() as int;
        assert forall|j: int| 0 <= j < k implies login[j] != DOWN_LEVEL_SEPARATOR by {
            assert(login[j] == id.realm[j]);
        }
        assert(login[k] == DOWN_LEVEL_SEPARATOR);
        lemma_next_index_unique(login, 0, DOWN_LEVEL_SEPARATOR, k);
        assert(login.subrange(0, k) =~= id.realm);
        assert(login.subrange(k + 1, n) =~= id.account);
    }
}

/// A parsed login is `requalifiable` unless it begins with a backslash and
/// holds another separator after it.
pub proof fn lemma_parsed_requalifiable(login: Seq<char>)
    requires
        !(login.len() > 0 && login[0] == DOWN_LEVEL_SEPARATOR && (login.subrange(
            1,
            login.len() as int,
        ).contains(DOWN_LEVEL_SEPARATOR) || login.subrange(1, login.len() as int).contains(
            PRINCIPAL_SEPARATOR,
        ))),
    ensures
        requalifiable(parse_login(login)),
        parse_login(qualified(parse_login(login))) == parse_login(login),
{
    let n = login.len() as int;
    let id = parse_login(login);
    let slash = next_index(login, 0, DOWN_LEVEL_SEPARATOR);
    let at = next_index(login, 0, PRINCIPAL_SEPARATOR);
    lemma_next_index(login, 0, DOWN_LEVEL_SEPARATOR);
    lemma_next_index(login, 0, PRINCIPAL_SEPARATOR);
    assert(login.subrange(0, n) =~= login);
    if slash < n {
        if slash == 0 {
            assert(id.realm.len() == 0);
            assert(id.account == login.subrange(1, n));
        } else {
            assert forall|j: int| 0 <= j < id.realm.len() implies id.realm[j]
                != DOWN_LEVEL_SEPARATOR by {
                assert(id.realm[j] == login[j]);
            }
        }
    } else if at < n {
        assert forall|j: int| 0 <= j < id.realm.len() implies id.realm[j]
            != DOWN_LEVEL_SEPARATOR by {
            assert(id.realm[j] == login[at + 1 + j]);
        }
        assert forall|j: int| 0 <= j < id.account.len() implies id.account[j]
            != DOWN_LEVEL_SEPARATOR && id.account[j] != PRINCIPAL_SEPARATOR by {
            assert(id.account[j] == login[j]);
        }
    } else {
    }
    lemma_parse_qualified(id);
}

/// The qualified form of a parsed login holds a character only if the
/// login holds it, or if it is the backslash.
pub proof fn lemma_qualified_characters(login: Seq<char>, c: char)
    requires
        !login.contains(c),
        c != DOWN_LEVEL_SEPARATOR,
    ensures
        !qualified(parse_login(login)).contains(c),
{
    let n = login.len() as int;
    let id = parse_login(login);
    lemma_next_index(login, 0, DOWN_LEVEL_SEPARATOR);
    lemma_next_index(login, 0, PRINCIPAL_SEPARATOR);
    let slash = next_index(login, 0, DOWN_LEVEL_SEPARATOR);
    let at = next_index(login, 0, PRINCIPAL_SEPARATOR);
    assert forall|j: int| 0 <= j < id.realm.len() implies id.realm[j] != c by {
        if slash < n {
            assert(id.realm[j] == login[j]);
        } else if at < n {
            assert(id.realm[j] == login[at + 1 + j]);
        }
    }
    assert forall|j: int| 0 <= j < id.account.len() implies id.account[j] != c by {
        if slash < n {
            assert(id.account[j] == login[slash + 1 + j]);
        } else if at < n {
            assert(id.account[j] == login[j]);
        } else {
            assert(id.account[j] == login[j]);
        }
    }
    let whole = qualified(id);
    assert forall|j: int| 0 <= j < whole.len() implies whole[j] != c by {
        if id.realm.len() > 0 {
            if j < id.realm.len() {
                assert(whole[j] == id.realm[j]);
            } else if j > id.realm.len() {
                assert(whole[j] == id.account[j - id.realm.len() - 1]);
            }
        }
    }
}

} // verus!
