use quickrdp::identity::Identity;

fn identity(realm: &str, account: &str) -> Identity {
    Identity { realm: realm.to_string(), account: account.to_string() }
}

#[test]
fn parse_down_level_login() {
    assert_eq!(Identity::parse("DOM\\bob"), identity("DOM", "bob"));
}

#[test]
fn parse_principal_login() {
    assert_eq!(Identity::parse("bob@corp.com"), identity("corp.com", "bob"));
}

#[test]
fn parse_bare_login() {
    assert_eq!(Identity::parse("bob"), identity("", "bob"));
}

#[test]
fn parse_empty_login() {
    assert_eq!(Identity::parse(""), identity("", ""));
}

#[test]
fn parse_splits_at_first_backslash() {
    assert_eq!(Identity::parse("A\\b\\c"), identity("A", "b\\c"));
}

#[test]
fn parse_backslash_wins_over_at_sign() {
    assert_eq!(Identity::parse("a@b\\c"), identity("a@b", "c"));
}

#[test]
fn parse_splits_at_first_at_sign() {
    assert_eq!(Identity::parse("a@b@c"), identity("b@c", "a"));
}

#[test]
fn qualified_account_joins_realm_and_account() {
    assert_eq!(identity("CORP", "bob").qualified_account(), "CORP\\bob");
    assert_eq!(identity("", "bob").qualified_account(), "bob");
}

#[test]
fn qualified_account_parses_back() {
    let id = Identity::parse("bob@corp.com");
    assert_eq!(Identity::parse(&id.qualified_account()), id);
}

#[test]
fn leading_backslash_does_not_parse_back() {
    let id = Identity::parse("\\a@b");
    assert_eq!(id, identity("", "a@b"));
    assert_eq!(Identity::parse(&id.qualified_account()), identity("b", "a"));
}
