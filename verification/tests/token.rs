//! Minting grants, token commands, and where tokens come from.
use proxmoxmcp::grant::ProxmoxAction;
use proxmoxmcp::token::{
    build_token_grant_from_add, build_token_grant_from_set_scopes, http_auth, resolve_tokens,
    resolve_tokens_with, token_command_to_action, HttpAuth, TokenAction, TokenCommand, TokenPath,
    ACTIONS_NEED_GUESTS, CONTRADICTORY_AUTH, MISSING_AUTH, NO_GUESTS_NOTE,
};

fn words(list: &[&str]) -> Vec<String> {
    list.iter().map(|word| (*word).to_owned()).collect()
}

fn add(guests: &[&str], actions: &[&str]) -> TokenCommand {
    TokenCommand::Add {
        tokens_file: "/var/lib/proxmoxmcp/tokens.json".to_owned(),
        name: "test-token".to_owned(),
        devices: words(&["*"]),
        tools: words(&["*"]),
        guests: words(guests),
        actions: words(actions),
        provider: None,
        provider_tier: None,
        on_behalf_of: Some("ops".to_owned()),
        actor_type: None,
        server_pid: Some(7),
    }
}

/// Neither half given: the existing grant is left alone.
#[test]
fn neither_half_leaves_the_grant_unchanged() {
    let grant = build_token_grant_from_set_scopes(None, None).unwrap();
    assert!(grant.is_none(), "an untouched grant must be None");
}

/// A grant carries guests *and* actions. Accepting actions alone would force
/// inventing a guest selector.
#[test]
fn actions_without_guests_is_refused() {
    let error = build_token_grant_from_set_scopes(None, Some(&vec!["destructive".to_owned()]))
        .expect_err("--actions alone must be refused");
    assert!(
        error.to_string().contains("--actions requires --guests"),
        "the refusal must name the missing flag, got: {error}"
    );
    assert_eq!(error, ACTIONS_NEED_GUESTS);
}

/// Omitting actions defaults to read, matching `add`.
#[test]
fn guests_without_actions_defaults_to_read() {
    let grant = build_token_grant_from_set_scopes(Some(&vec!["*".to_owned()]), None)
        .unwrap()
        .expect("naming guests builds a grant");
    assert_eq!(grant.actions, vec![ProxmoxAction::Read]);
    assert_eq!(grant.guests, vec!["*".to_owned()]);
}

/// An unparseable selector is caught at the CLI.
#[test]
fn an_invalid_selector_is_refused() {
    let error = build_token_grant_from_set_scopes(Some(&vec!["nonsense:zzz".to_owned()]), None)
        .expect_err("an invalid selector must be refused");
    assert!(error.to_string().contains("invalid --guests selector"), "got: {error}");
}

/// Every action name round-trips, including the one that matters most.
#[test]
fn destructive_is_accepted_when_named() {
    let grant = build_token_grant_from_set_scopes(
        Some(&vec!["*".to_owned()]),
        Some(&vec!["read".to_owned(), "low".to_owned(), "destructive".to_owned()]),
    )
    .unwrap()
    .expect("grant");
    assert_eq!(
        grant.actions,
        vec![ProxmoxAction::Read, ProxmoxAction::Low, ProxmoxAction::Destructive]
    );
}

#[test]
fn token_add_with_guests_and_actions_stores_grant() {
    let (action, grant) =
        token_command_to_action(add(&["vmid:600-699", "tag:ci"], &["read", "low"])).expect("add");
    match action {
        TokenAction::Add { name, devices, on_behalf_of, server_pid, .. } => {
            assert_eq!(name, "test-token");
            assert_eq!(devices, vec!["*"]);
            assert_eq!(on_behalf_of.as_deref(), Some("ops"));
            assert_eq!(server_pid, Some(7));
        }
        other => panic!("expected an add, got {other:?}"),
    }
    let grant = grant.expect("token should have a grant");
    assert_eq!(grant.guests, vec!["vmid:600-699", "tag:ci"]);
    assert_eq!(grant.actions, vec![ProxmoxAction::Read, ProxmoxAction::Low]);
    assert!(grant.validate().is_ok());
}

#[test]
fn token_add_with_invalid_selector_fails_at_mint_time() {
    let error = token_command_to_action(add(&["site:emea"], &["read"])).expect_err("should reject invalid selector");
    assert!(
        error.contains("invalid --guests selector"),
        "error should mention invalid selector, got: {error}"
    );
    assert!(error.contains("site:emea"), "error should name the bad term, got: {error}");
    assert_eq!(error, "invalid --guests selector 'site:emea': unknown selector term 'site'");
}

#[test]
fn token_add_without_guests_prints_note_and_creates_grantless_token() {
    let (_, grant) = token_command_to_action(add(&[], &["read"])).expect("token add should succeed");
    assert!(grant.is_none(), "token should have no grant");
    assert!(NO_GUESTS_NOTE.contains("cannot use guest-addressed tools"));
    assert!(NO_GUESTS_NOTE.contains("--guests"));
}

#[test]
fn token_add_accepts_wildcard_guests() {
    let (_, grant) = token_command_to_action(add(&["*"], &["read"])).expect("add");
    assert_eq!(grant.expect("grant").guests, vec!["*"]);
}

#[test]
fn an_action_that_is_none_is_refused() {
    let error = build_token_grant_from_add(&words(&["*"]), &words(&["read", "write", "x"])).expect_err("refused");
    assert_eq!(error, "invalid --actions value 'write': must be read, low, or destructive");
    // Without guests nothing is minted, so nothing is judged.
    assert!(build_token_grant_from_add(&words(&[]), &words(&["write"])).unwrap().is_none());
}

#[test]
fn the_other_commands_carry_no_grant() {
    let file = "/t.json".to_owned();
    let (action, grant) = token_command_to_action(TokenCommand::List { tokens_file: file.clone() }).unwrap();
    assert!(matches!(action, TokenAction::List { tokens_file } if tokens_file == "/t.json"));
    assert!(grant.is_none());
    let (action, grant) = token_command_to_action(TokenCommand::Revoke {
        tokens_file: file.clone(),
        name: "n".to_owned(),
        server_pid: None,
    })
    .unwrap();
    assert!(matches!(action, TokenAction::Revoke { name, .. } if name == "n"));
    assert!(grant.is_none());
    let (action, grant) = token_command_to_action(TokenCommand::Rotate {
        tokens_file: file.clone(),
        name: "n".to_owned(),
        server_pid: Some(1),
    })
    .unwrap();
    assert!(matches!(action, TokenAction::Rotate { server_pid: Some(1), .. }));
    assert!(grant.is_none());
    let (action, grant) = token_command_to_action(TokenCommand::SetScopes {
        tokens_file: file,
        name: "n".to_owned(),
        devices: None,
        tools: Some(words(&["get_nodes"])),
        guests: Some(words(&["tag:ci"])),
        actions: None,
        yes: true,
        server_pid: None,
    })
    .unwrap();
    assert!(matches!(action, TokenAction::SetScopes { yes: true, devices: None, .. }));
    assert_eq!(grant.expect("grant").actions, vec![ProxmoxAction::Read]);
}

/// The canonical path falls back, so an installation that was not migrated yet
/// still starts.
#[test]
fn canonical_path_falls_back_to_an_existing_legacy_store() {
    let resolved = resolve_tokens_with("/v/tokens.json", "/v/tokens.json", "/e/tokens.json");
    assert_eq!(
        resolved,
        TokenPath::WithFallback {
            primary: "/v/tokens.json".to_owned(),
            legacy: "/e/tokens.json".to_owned()
        }
    );
    assert_eq!(
        resolve_tokens("/var/lib/proxmoxmcp/tokens.json"),
        TokenPath::WithFallback {
            primary: "/var/lib/proxmoxmcp/tokens.json".to_owned(),
            legacy: "/etc/proxmoxmcp/tokens.json".to_owned()
        }
    );
}

/// Falling back from a path the operator chose would reactivate credentials
/// they did not ask for.
#[test]
fn a_custom_path_never_falls_back_to_the_legacy_store() {
    let resolved = resolve_tokens_with("/v/operator-chosen.json", "/v/tokens.json", "/e/tokens.json");
    assert_eq!(resolved, TokenPath::Verbatim("/v/operator-chosen.json".to_owned()));
}

/// The comparison is letter for letter: a typo must not reach the fallback.
#[test]
fn a_trailing_slash_spelling_does_not_reach_the_legacy_store() {
    let resolved = resolve_tokens_with("/v/tokens.json/", "/v/tokens.json", "/e/tokens.json");
    assert_eq!(resolved, TokenPath::Verbatim("/v/tokens.json/".to_owned()));
}

#[test]
fn exactly_one_way_to_authenticate_is_needed() {
    assert_eq!(http_auth(None, true), Ok(HttpAuth::Open));
    assert_eq!(
        http_auth(Some("/x"), false),
        Ok(HttpAuth::Tokens(TokenPath::Verbatim("/x".to_owned())))
    );
    assert_eq!(http_auth(Some("/x"), true), Err(CONTRADICTORY_AUTH.to_owned()));
    assert_eq!(http_auth(None, false), Err(MISSING_AUTH.to_owned()));
}
