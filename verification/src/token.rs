//! Token management: what a token command asks for, and the grant it mints.
use vstd::prelude::*;
use vstd::string::*;

use crate::grant::{GrantView, ProxmoxAction, ProxmoxGrant};
use crate::selector::{selector_of, Selector};
use crate::text::{copy_texts, same_text, str_option, texts};

verus! {

/// Token management command line, read only when the first argument is
/// `token`.
#[derive(Debug)]
pub struct TokenCli {
    /// Token subcommand (add, revoke, list, rotate, set-scopes).
    pub command: TokenCommand,
}

/// Token subcommands.
#[derive(Debug)]
pub enum TokenCommand {
    /// Mint a new token and append to the file.
    Add {
        /// Absolute token-store path.
        tokens_file: String,
        /// Stable audit name for the token.
        name: String,
        /// Device names, or '*' for all.
        devices: Vec<String>,
        /// Tool names, or '*' for all.
        tools: Vec<String>,
        /// Guest selectors for the token's grant.
        ///
        /// A token carrying no guest grant cannot call guest-addressed tools.
        guests: Vec<String>,
        /// Actions this token may invoke: read, low, destructive.
        actions: Vec<String>,
        /// Provider name.
        provider: Option<String>,
        /// Provider tier: "public" or "private".
        provider_tier: Option<String>,
        /// The human on whose behalf this credential acts.
        on_behalf_of: Option<String>,
        /// Actor type: "human", "agent", or "unknown".
        actor_type: Option<String>,
        /// Send SIGHUP to this pid after writing.
        server_pid: Option<i32>,
    },
    /// Revoke a token by name.
    Revoke {
        /// Absolute token-store path.
        tokens_file: String,
        /// Token name to revoke.
        name: String,
        /// Send SIGHUP to this pid after writing.
        server_pid: Option<i32>,
    },
    /// List all tokens in the store.
    List {
        /// Absolute token-store path.
        tokens_file: String,
    },
    /// Change a token's scopes without reissuing its secret.
    SetScopes {
        /// Absolute token-store path.
        tokens_file: String,
        /// Token name to change.
        name: String,
        /// Device names, or '*' for all; unchanged where omitted.
        devices: Option<Vec<String>>,
        /// Tool names, or '*' for all; unchanged where omitted.
        tools: Option<Vec<String>>,
        /// Guest selectors that replace the grant.
        guests: Option<Vec<String>>,
        /// Actions that replace the grant's.
        actions: Option<Vec<String>>,
        /// Widen without asking.
        yes: bool,
        /// Send SIGHUP to this pid after writing.
        server_pid: Option<i32>,
    },
    /// Rotate a token's secret, preserving its grant.
    Rotate {
        /// Absolute token-store path.
        tokens_file: String,
        /// Token name to rotate.
        name: String,
        /// Send SIGHUP to this pid after writing.
        server_pid: Option<i32>,
    },
}

/// What the token store is asked to do. The grant travels beside it.
#[derive(Debug)]
pub enum TokenAction {
    /// Mint a token.
    Add {
        /// Absolute token-store path.
        tokens_file: String,
        /// Stable audit name for the token.
        name: String,
        /// Device names, or '*' for all.
        devices: Vec<String>,
        /// Tool names, or '*' for all.
        tools: Vec<String>,
        /// Provider name.
        provider: Option<String>,
        /// Provider tier.
        provider_tier: Option<String>,
        /// The human on whose behalf this credential acts.
        on_behalf_of: Option<String>,
        /// Actor type.
        actor_type: Option<String>,
        /// Send SIGHUP to this pid after writing.
        server_pid: Option<i32>,
    },
    /// Revoke a token.
    Revoke {
        /// Absolute token-store path.
        tokens_file: String,
        /// Token name to revoke.
        name: String,
        /// Send SIGHUP to this pid after writing.
        server_pid: Option<i32>,
    },
    /// List all tokens.
    List {
        /// Absolute token-store path.
        tokens_file: String,
    },
    /// Change a token's scopes.
    SetScopes {
        /// Absolute token-store path.
        tokens_file: String,
        /// Token name to change.
        name: String,
        /// Device names; unchanged where omitted.
        devices: Option<Vec<String>>,
        /// Tool names; unchanged where omitted.
        tools: Option<Vec<String>>,
        /// Widen without asking.
        yes: bool,
        /// Send SIGHUP to this pid after writing.
        server_pid: Option<i32>,
    },
    /// Rotate a token's secret.
    Rotate {
        /// Absolute token-store path.
        tokens_file: String,
        /// Token name to rotate.
        name: String,
        /// Send SIGHUP to this pid after writing.
        server_pid: Option<i32>,
    },
}

// ---------------------------------------------------------------------------
// Grants
// ---------------------------------------------------------------------------
/// What an operator is told of a token minted without guest selectors.
pub const NO_GUESTS_NOTE: &'static str =
    "Note: This token cannot use guest-addressed tools. Use --guests '*' or a selector (vmid:X, tag:Y, pool:Z) to grant guest access.";

/// The refusal of a new action list without new guest selectors.
pub const ACTIONS_NEED_GUESTS: &'static str =
    "--actions requires --guests: a grant carries both, and this command replaces it wholesale rather than merging";

/// The refusal of the first guest selector, at or after `i`, that does not
/// parse.
pub open spec fn selector_fault(guests: Seq<Seq<char>>, i: int) -> Option<Seq<char>>
    decreases guests.len() - i,
{
    if i < 0 || i >= guests.len() {
        None
    } else {
        match selector_of(guests[i]) {
            Err(error) => Some(
                "invalid --guests selector '"@ + guests[i] + "': "@ + error.message(),
            ),
            Ok(_) => selector_fault(guests, i + 1),
        }
    }
}

/// The action a name stands for.
pub open spec fn action_named(name: Seq<char>) -> Option<ProxmoxAction> {
    if name == "read"@ {
        Some(ProxmoxAction::Read)
    } else if name == "low"@ {
        Some(ProxmoxAction::Low)
    } else if name == "destructive"@ {
        Some(ProxmoxAction::Destructive)
    } else {
        None
    }
}

/// The actions a list of names stands for, or the refusal of the first that
/// stands for none.
pub open spec fn actions_named(names: Seq<Seq<char>>) -> Result<Seq<ProxmoxAction>, Seq<char>>
    decreases names.len(),
{
    if names.len() == 0 {
        Ok(Seq::empty())
    } else {
        match actions_named(names.drop_last()) {
            Err(error) => Err(error),
            Ok(before) => match action_named(names.last()) {
                Some(action) => Ok(before.push(action)),
                None => Err(
                    "invalid --actions value '"@ + names.last()
                        + "': must be read, low, or destructive"@,
                ),
            },
        }
    }
}

/// The grant an `add` mints: none without guest selectors, else exactly the
/// selectors and actions named. A selector that does not parse and an action
/// that is none are refused at mint time.
pub open spec fn added_grant(guests: Seq<Seq<char>>, actions: Seq<Seq<char>>) -> Result<
    Option<GrantView>,
    Seq<char>,
> {
    if guests.len() == 0 {
        Ok(None)
    } else {
        match selector_fault(guests, 0) {
            Some(error) => Err(error),
            None => match actions_named(actions) {
                Err(error) => Err(error),
                Ok(parsed) => Ok(Some(GrantView { guests, actions: parsed })),
            },
        }
    }
}

/// The grant a `set-scopes` puts in the old one's place: none where neither
/// half is named, read-only where only guests are.
pub open spec fn replaced_grant(
    guests: Option<Seq<Seq<char>>>,
    actions: Option<Seq<Seq<char>>>,
) -> Result<Option<GrantView>, Seq<char>> {
    match (guests, actions) {
        (None, None) => Ok(None),
        (None, Some(_)) => Err(ACTIONS_NEED_GUESTS@),
        (Some(guests), Some(actions)) => added_grant(guests, actions),
        (Some(guests), None) => added_grant(guests, seq!["read"@]),
    }
}

/// A minted grant as a mathematical value.
pub open spec fn minted(r: Result<Option<ProxmoxGrant>, String>) -> Result<
    Option<GrantView>,
    Seq<char>,
> {
    match r {
        Ok(Some(grant)) => Ok(Some(grant@)),
        Ok(None) => Ok(None),
        Err(error) => Err(error@),
    }
}

fn check_selectors(guests: &Vec<String>) -> (r: Result<(), String>)
    ensures
        match r {
            Ok(_) => selector_fault(texts(guests@), 0) is None,
            Err(error) => selector_fault(texts(guests@), 0) == Some(error@),
        },
{
    let ghost all = texts(guests@);
    let mut i: usize = 0;
    while i < guests.len()
        invariant
            i <= guests@.len(),
            all == texts(guests@),
            selector_fault(all, 0) == selector_fault(all, i as int),
        decreases guests@.len() - i,
    {
        proof {
            assert(all[i as int] == guests@[i as int]@);
        }
        if let Err(error) = Selector::parse(guests[i].as_str()) {
            let mut text = "invalid --guests selector '".to_owned();
            text.append(guests[i].as_str());
            text.append("': ");
            text.append(error.message().as_str());
            return Err(text);
        }
        i += 1;
    }
    Ok(())
}

proof fn lemma_actions_error_stays(names: Seq<Seq<char>>, n: int)
    requires
        0 <= n <= names.len(),
        actions_named(names.take(n)) is Err,
    ensures
        actions_named(names) == actions_named(names.take(n)),
    decreases names.len(),
{
    if n == names.len() {
        assert(names.take(n) =~= names);
    } else {
        assert(names.drop_last().take(n) =~= names.take(n));
        lemma_actions_error_stays(names.drop_last(), n);
    }
}

fn parse_actions(actions: &Vec<String>) -> (r: Result<Vec<ProxmoxAction>, String>)
    ensures
        match r {
            Ok(parsed) => actions_named(texts(actions@)) == Ok::<Seq<ProxmoxAction>, Seq<char>>(
                parsed@,
            ),
            Err(error) => actions_named(texts(actions@)) == Err::<Seq<ProxmoxAction>, Seq<char>>(
                error@,
            ),
        },
{
    let ghost all = texts(actions@);
    let mut out: Vec<ProxmoxAction> = Vec::new();
    let mut i: usize = 0;
    proof {
        assert(all.take(0) =~= Seq::<Seq<char>>::empty());
    }
    while i < actions.len()
        invariant
            i <= actions@.len(),
            all == texts(actions@),
            actions_named(all.take(i as int)) == Ok::<Seq<ProxmoxAction>, Seq<char>>(out@),
        decreases actions@.len() - i,
    {
        let name = actions[i].as_str();
        proof {
            assert(all.take(i as int + 1).drop_last() =~= all.take(i as int));
            assert(all.take(i as int + 1).last() == actions@[i as int]@);
        }
        if same_text(name, "read") {
            out.push(ProxmoxAction::Read);
        } else if same_text(name, "low") {
            out.push(ProxmoxAction::Low);
        } else if same_text(name, "destructive") {
            out.push(ProxmoxAction::Destructive);
        } else {
            let mut text = "invalid --actions value '".to_owned();
            text.append(name);
            text.append("': must be read, low, or destructive");
            proof {
                lemma_actions_error_stays(all, i as int + 1);
            }
            return Err(text);
        }
        i += 1;
    }
    proof {
        assert(all.take(i as int) =~= all);
    }
    Ok(out)
}

/// Build a grant from the fields of an `add`.
///
/// Returns `None` when no guest selectors are given, allowing cluster-scoped
/// tokens; the operator is then shown [`NO_GUESTS_NOTE`].
pub fn build_token_grant_from_add(guests: &Vec<String>, actions: &Vec<String>) -> (r: Result<
    Option<ProxmoxGrant>,
    String,
>)
    ensures
        minted(r) == added_grant(texts(guests@), texts(actions@)),
{
    if guests.len() == 0 {
        return Ok(None);
    }
    // A selector that cannot parse produces a token that silently admits
    // nothing, which an operator cannot diagnose.

    if let Err(error) = check_selectors(guests) {
        return Err(error);
    }
    match parse_actions(actions) {
        Ok(parsed) => Ok(
            Some(ProxmoxGrant { guests: copy_texts(guests.as_slice()), actions: parsed }),
        ),
        Err(error) => Err(error),
    }
}

/// A list of texts, where one is given.
pub open spec fn list_option(o: Option<&Vec<String>>) -> Option<Seq<Seq<char>>> {
    match o {
        Some(v) => Some(texts(v@)),
        None => None,
    }
}

/// Build a replacement grant for a `set-scopes`.
///
/// Returns `None` when neither half is given, which leaves the existing grant
/// untouched. `--actions` alone is refused: a grant carries both halves, and
/// inventing a guest selector would grant reach the operator never named.
pub fn build_token_grant_from_set_scopes(
    guests: Option<&Vec<String>>,
    actions: Option<&Vec<String>>,
) -> (r: Result<Option<ProxmoxGrant>, String>)
    ensures
        minted(r) == replaced_grant(list_option(guests), list_option(actions)),
{
    match (guests, actions) {
        (None, None) => Ok(None),
        (None, Some(_)) => Err(ACTIONS_NEED_GUESTS.to_owned()),
        (Some(guests), Some(actions)) => build_token_grant_from_add(guests, actions),
        (Some(guests), None) => {
            // An omitted action list must not silently preserve a destructive
            // grant the operator is replacing.
            let mut actions: Vec<String> = Vec::new();
            actions.push("read".to_owned());
            proof {
                assert(texts(actions@) =~= seq!["read"@]);
            }
            build_token_grant_from_add(guests, &actions)
        },
    }
}

// ---------------------------------------------------------------------------
// Commands
// ---------------------------------------------------------------------------
/// What a command asks the token store to do.
pub open spec fn store_action(command: TokenCommand) -> TokenAction {
    match command {
        TokenCommand::Add {
            tokens_file,
            name,
            devices,
            tools,
            provider,
            provider_tier,
            on_behalf_of,
            actor_type,
            server_pid,
            ..
        } => TokenAction::Add {
            tokens_file,
            name,
            devices,
            tools,
            provider,
            provider_tier,
            on_behalf_of,
            actor_type,
            server_pid,
        },
        TokenCommand::Revoke { tokens_file, name, server_pid } => TokenAction::Revoke {
            tokens_file,
            name,
            server_pid,
        },
        TokenCommand::List { tokens_file } => TokenAction::List { tokens_file },
        TokenCommand::SetScopes {
            tokens_file,
            name,
            devices,
            tools,
            yes,
            server_pid,
            ..
        } => TokenAction::SetScopes { tokens_file, name, devices, tools, yes, server_pid },
        TokenCommand::Rotate { tokens_file, name, server_pid } => TokenAction::Rotate {
            tokens_file,
            name,
            server_pid,
        },
    }
}

/// The grant a command carries: what an `add` mints, what a `set-scopes` puts
/// in its place, and none otherwise.
pub open spec fn command_grant(command: TokenCommand) -> Result<Option<GrantView>, Seq<char>> {
    match command {
        TokenCommand::Add { guests, actions, .. } => added_grant(texts(guests@), texts(actions@)),
        TokenCommand::SetScopes { guests, actions, .. } => replaced_grant(
            match guests {
                Some(v) => Some(texts(v@)),
                None => None,
            },
            match actions {
                Some(v) => Some(texts(v@)),
                None => None,
            },
        ),
        _ => Ok(None),
    }
}

/// Split a token command into what the store is asked to do and the grant that
/// travels with it.
pub fn token_command_to_action(command: TokenCommand) -> (r: Result<
    (TokenAction, Option<ProxmoxGrant>),
    String,
>)
    ensures
        match r {
            Ok((action, grant)) => {
                &&& action == store_action(command)
                &&& command_grant(command) == minted(Ok(grant))
            },
            Err(error) => command_grant(command) == Err::<Option<GrantView>, Seq<char>>(error@),
        },
{
    match command {
        TokenCommand::Add {
            tokens_file,
            name,
            devices,
            tools,
            guests,
            actions,
            provider,
            provider_tier,
            on_behalf_of,
            actor_type,
            server_pid,
        } => {
            let grant = match build_token_grant_from_add(&guests, &actions) {
                Ok(grant) => grant,
                Err(error) => {
                    return Err(error);
                },
            };
            Ok(
                (
                    TokenAction::Add {
                        tokens_file,
                        name,
                        devices,
                        tools,
                        provider,
                        provider_tier,
                        on_behalf_of,
                        actor_type,
                        server_pid,
                    },
                    grant,
                ),
            )
        },
        TokenCommand::Revoke { tokens_file, name, server_pid } => Ok(
            (TokenAction::Revoke { tokens_file, name, server_pid }, None),
        ),
        TokenCommand::List { tokens_file } => Ok((TokenAction::List { tokens_file }, None)),
        TokenCommand::SetScopes {
            tokens_file,
            name,
            devices,
            tools,
            guests,
            actions,
            yes,
            server_pid,
        } => {
            let grant = match build_token_grant_from_set_scopes(
                guests.as_ref(),
                actions.as_ref(),
            ) {
                Ok(grant) => grant,
                Err(error) => {
                    return Err(error);
                },
            };
            Ok(
                (
                    TokenAction::SetScopes { tokens_file, name, devices, tools, yes, server_pid },
                    grant,
                ),
            )
        },
        TokenCommand::Rotate { tokens_file, name, server_pid } => Ok(
            (TokenAction::Rotate { tokens_file, name, server_pid }, None),
        ),
    }
}

// ---------------------------------------------------------------------------
// Where tokens come from
// ---------------------------------------------------------------------------
/// Where the token store lives.
pub const CANONICAL_TOKENS: &'static str = "/var/lib/proxmoxmcp/tokens.json";

/// Where an installation that was not migrated still has it.
pub const LEGACY_TOKENS: &'static str = "/etc/proxmoxmcp/tokens.json";

/// How the token file is found.
#[derive(Debug, PartialEq, Eq)]
pub enum TokenPath {
    /// At this path and nowhere else.
    Verbatim(String),
    /// At the primary path, or at the legacy one where the primary is absent.
    WithFallback {
        /// The path that was configured.
        primary: String,
        /// The path to fall back to.
        legacy: String,
    },
}

/// How the token file is found, as a mathematical value.
pub enum TokenPathView {
    Verbatim(Seq<char>),
    WithFallback { primary: Seq<char>, legacy: Seq<char> },
}

impl View for TokenPath {
    type V = TokenPathView;

    open spec fn view(&self) -> TokenPathView {
        match self {
            TokenPath::Verbatim(path) => TokenPathView::Verbatim(path@),
            TokenPath::WithFallback { primary, legacy } => TokenPathView::WithFallback {
                primary: primary@,
                legacy: legacy@,
            },
        }
    }
}

/// How the token file is found: at the configured path, and at the legacy one
/// too where the configured one is the canonical one.
pub open spec fn token_path(
    configured: Seq<char>,
    canonical: Seq<char>,
    legacy: Seq<char>,
) -> TokenPathView {
    if configured == canonical {
        TokenPathView::WithFallback { primary: configured, legacy }
    } else {
        TokenPathView::Verbatim(configured)
    }
}

/// Decide how the token file is found.
///
/// The legacy path is considered only when the configured one is the canonical
/// one, letter for letter. Any other spelling is used verbatim, so that a typo
/// or a deleted custom store never reactivates credentials at the legacy path.
pub fn resolve_tokens_with(configured: &str, canonical: &str, legacy: &str) -> (r: TokenPath)
    ensures
        r@ == token_path(configured@, canonical@, legacy@),
{
    if same_text(configured, canonical) {
        TokenPath::WithFallback { primary: configured.to_owned(), legacy: legacy.to_owned() }
    } else {
        TokenPath::Verbatim(configured.to_owned())
    }
}

/// Decide how the configured token file is found.
pub fn resolve_tokens(configured: &str) -> (r: TokenPath)
    ensures
        r@ == token_path(configured@, CANONICAL_TOKENS@, LEGACY_TOKENS@),
{
    resolve_tokens_with(configured, CANONICAL_TOKENS, LEGACY_TOKENS)
}

/// How HTTP callers are authenticated.
#[derive(Debug, PartialEq, Eq)]
pub enum HttpAuth {
    /// By a bearer token of the store that is found so.
    Tokens(TokenPath),
    /// Not at all.
    Open,
}

/// The refusal of both a token store and none.
pub const CONTRADICTORY_AUTH: &'static str =
    "contradictory flags: both --tokens-file and --allow-no-auth were given";

/// The refusal of neither.
pub const MISSING_AUTH: &'static str =
    "Streamable HTTP requires either --tokens-file or --allow-no-auth";

/// How HTTP callers are authenticated: by the tokens found so, or, where there
/// are none, not at all.
pub open spec fn auth_mode(tokens_file: Option<Seq<char>>, allow_no_auth: bool) -> Result<
    Option<TokenPathView>,
    Seq<char>,
> {
    match (tokens_file, allow_no_auth) {
        (Some(path), false) => Ok(Some(token_path(path, CANONICAL_TOKENS@, LEGACY_TOKENS@))),
        (None, true) => Ok(None),
        (Some(_), true) => Err(CONTRADICTORY_AUTH@),
        (None, false) => Err(MISSING_AUTH@),
    }
}

/// A way of authenticating or a refusal, as a mathematical value.
pub open spec fn auth_result(r: Result<HttpAuth, String>) -> Result<
    Option<TokenPathView>,
    Seq<char>,
> {
    match r {
        Ok(HttpAuth::Tokens(found)) => Ok(Some(found@)),
        Ok(HttpAuth::Open) => Ok(None),
        Err(error) => Err(error@),
    }
}

/// Decide how HTTP callers are authenticated: exactly one of the two flags must
/// be given.
pub fn http_auth(tokens_file: Option<&str>, allow_no_auth: bool) -> (r: Result<HttpAuth, String>)
    ensures
        auth_result(r) == auth_mode(str_option(tokens_file), allow_no_auth),
{
    match (tokens_file, allow_no_auth) {
        (Some(path), false) => Ok(HttpAuth::Tokens(resolve_tokens(path))),
        (None, true) => Ok(HttpAuth::Open),
        (Some(_), true) => Err(CONTRADICTORY_AUTH.to_owned()),
        (None, false) => Err(MISSING_AUTH.to_owned()),
    }
}

// ---------------------------------------------------------------------------
// What holds of every mint
// ---------------------------------------------------------------------------
proof fn lemma_no_fault(guests: Seq<Seq<char>>, i: int)
    requires
        0 <= i,
        selector_fault(guests, i) is None,
    ensures
        (GrantView { guests, actions: Seq::empty() }).first_error(i) is None,
    decreases guests.len() - i,
{
    if i < guests.len() {
        lemma_no_fault(guests, i + 1);
    }
}

proof fn lemma_first_error_ignores_actions(a: GrantView, b: GrantView, i: int)
    requires
        a.guests == b.guests,
        0 <= i,
    ensures
        a.first_error(i) == b.first_error(i),
    decreases a.guests.len() - i,
{
    if i < a.guests.len() {
        lemma_first_error_ignores_actions(a, b, i + 1);
    }
}

/// A grant that is minted validates, and holds exactly the selectors that were
/// named.
pub proof fn law_a_minted_grant_validates(guests: Seq<Seq<char>>, actions: Seq<Seq<char>>)
    requires
        added_grant(guests, actions) matches Ok(Some(_)),
    ensures
        ({
            let grant = added_grant(guests, actions)->Ok_0->0;
            grant.guests == guests && grant.first_error(0) is None
        }),
{
    let grant = added_grant(guests, actions)->Ok_0->0;
    lemma_no_fault(guests, 0);
    lemma_first_error_ignores_actions(
        grant,
        GrantView { guests, actions: Seq::empty() },
        0,
    );
}

/// Replacing guests without naming actions leaves a token that may only read,
/// whatever it held before.
pub proof fn law_replacing_guests_alone_narrows_to_read(guests: Seq<Seq<char>>)
    requires
        replaced_grant(Some(guests), None) matches Ok(Some(_)),
    ensures
        ({
            let grant = replaced_grant(Some(guests), None)->Ok_0->0;
            &&& grant.actions == seq![ProxmoxAction::Read]
            &&& !grant.permits(ProxmoxAction::Low)
            &&& !grant.permits(ProxmoxAction::Destructive)
        }),
{
    let names = seq!["read"@];
    assert(names.drop_last() =~= Seq::<Seq<char>>::empty());
    assert(actions_named(names.drop_last()) == Ok::<Seq<ProxmoxAction>, Seq<char>>(Seq::empty()));
    assert(names.last() == "read"@);
    let grant = replaced_grant(Some(guests), None)->Ok_0->0;
    assert(grant.actions =~= seq![ProxmoxAction::Read]);
}

/// An action is named by its own word and by no other.
pub proof fn law_each_action_has_its_own_word(name: Seq<char>)
    ensures
        action_named(name) == Some(ProxmoxAction::Read) <==> name == "read"@,
        action_named(name) == Some(ProxmoxAction::Low) <==> name == "low"@,
        action_named(name) == Some(ProxmoxAction::Destructive) <==> name == "destructive"@,
{
    reveal_strlit("read");
    reveal_strlit("low");
    reveal_strlit("destructive");
    assert("read"@.len() == 4 && "low"@.len() == 3 && "destructive"@.len() == 11);
}

/// The actions of a list are those its words name, one for each and in order; a
/// word that names none refuses the list.
pub proof fn law_actions_are_those_that_were_named(names: Seq<Seq<char>>)
    ensures
        actions_named(names) is Ok <==> forall|i: int|
            0 <= i < names.len() ==> action_named(#[trigger] names[i]) is Some,
        actions_named(names) matches Ok(actions) ==> actions.len() == names.len() && forall|i: int|
            0 <= i < names.len() ==> action_named(names[i]) == Some(#[trigger] actions[i]),
    decreases names.len(),
{
    if names.len() > 0 {
        let before = names.drop_last();
        let last = names.len() as int - 1;
        law_actions_are_those_that_were_named(before);
        assert(names[last] == names.last());
        assert forall|i: int| 0 <= i < before.len() implies #[trigger] before[i] == names[i] by {}
        if actions_named(names) is Ok {
            assert forall|i: int| 0 <= i < names.len() implies action_named(
                #[trigger] names[i],
            ) is Some by {
                if i < last {
                    assert(before[i] == names[i]);
                }
            }
        }
        if forall|i: int| 0 <= i < names.len() ==> action_named(#[trigger] names[i]) is Some {
            assert forall|i: int| 0 <= i < before.len() implies action_named(
                #[trigger] before[i],
            ) is Some by {
                assert(before[i] == names[i]);
            }
        }
        if let Ok(actions) = actions_named(names) {
            let earlier = actions_named(before)->Ok_0;
            assert forall|i: int| 0 <= i < names.len() implies action_named(names[i]) == Some(
                #[trigger] actions[i],
            ) by {
                if i < last {
                    assert(actions[i] == earlier[i]);
                    assert(before[i] == names[i]);
                }
            }
        }
    }
}

/// A mint gives exactly what was named: without guest selectors no grant, else
/// a grant of those selectors that permits an action exactly where its word was
/// named. It is refused where a selector does not parse or a word names no
/// action.
pub proof fn law_a_mint_gives_exactly_what_was_named(
    guests: Seq<Seq<char>>,
    actions: Seq<Seq<char>>,
)
    ensures
        added_grant(guests, actions) == Ok::<Option<GrantView>, Seq<char>>(None) <==> guests.len()
            == 0,
        added_grant(guests, actions) matches Ok(Some(grant)) ==> {
            &&& grant.guests == guests
            &&& grant.permits(ProxmoxAction::Read) <==> actions.contains("read"@)
            &&& grant.permits(ProxmoxAction::Low) <==> actions.contains("low"@)
            &&& grant.permits(ProxmoxAction::Destructive) <==> actions.contains("destructive"@)
        },
        guests.len() > 0 ==> (added_grant(guests, actions) is Ok <==> selector_fault(guests, 0)
            is None && forall|i: int|
            0 <= i < actions.len() ==> action_named(#[trigger] actions[i]) is Some),
{
    law_actions_are_those_that_were_named(actions);
    if let Ok(Some(grant)) = added_grant(guests, actions) {
        let given = grant.actions;
        assert forall|action: ProxmoxAction, word: Seq<char>|
            #![trigger given.contains(action), actions.contains(word)]
            (forall|name: Seq<char>| #[trigger] action_named(name) == Some(action) <==> name
                == word) implies (given.contains(action) <==> actions.contains(word)) by {
            if given.contains(action) {
                let i = choose|i: int| 0 <= i < given.len() && given[i] == action;
                assert(action_named(actions[i]) == Some(given[i]));
                assert(actions[i] == word);
            }
            if actions.contains(word) {
                let i = choose|i: int| 0 <= i < actions.len() && actions[i] == word;
                assert(action_named(actions[i]) == Some(given[i]));
                assert(action_named(word) == Some(action));
            }
        }
        assert forall|name: Seq<char>| #[trigger]
            action_named(name) == Some(ProxmoxAction::Read) <==> name == "read"@ by {
            law_each_action_has_its_own_word(name);
        }
        assert forall|name: Seq<char>| #[trigger]
            action_named(name) == Some(ProxmoxAction::Low) <==> name == "low"@ by {
            law_each_action_has_its_own_word(name);
        }
        assert forall|name: Seq<char>| #[trigger]
            action_named(name) == Some(ProxmoxAction::Destructive) <==> name == "destructive"@ by {
            law_each_action_has_its_own_word(name);
        }
        assert(given.contains(ProxmoxAction::Read) <==> actions.contains("read"@));
        assert(given.contains(ProxmoxAction::Low) <==> actions.contains("low"@));
        assert(given.contains(ProxmoxAction::Destructive) <==> actions.contains("destructive"@));
    }
}

/// A selector is refused where some selector does not parse, and nowhere else.
pub proof fn law_a_selector_that_does_not_parse_is_refused(guests: Seq<Seq<char>>, from: int)
    requires
        0 <= from,
    ensures
        selector_fault(guests, from) is None <==> forall|i: int|
            from <= i < guests.len() ==> selector_of(#[trigger] guests[i]) is Ok,
    decreases guests.len() - from,
{
    if from < guests.len() {
        law_a_selector_that_does_not_parse_is_refused(guests, from + 1);
        assert(selector_of(guests[from]) is Ok || selector_of(guests[from]) is Err);
    }
}

/// A replacement is of the whole grant: with both halves it is what a mint of
/// them gives, with neither it leaves the grant alone, and with actions alone
/// it is refused.
pub proof fn law_a_replacement_is_of_the_whole_grant(
    guests: Seq<Seq<char>>,
    actions: Seq<Seq<char>>,
)
    ensures
        replaced_grant(Some(guests), Some(actions)) == added_grant(guests, actions),
        replaced_grant(None, None) == Ok::<Option<GrantView>, Seq<char>>(None),
        replaced_grant(None, Some(actions)) is Err,
{
}

/// The store is asked for what was commanded: every value of a command is
/// handed on under its own name.
pub proof fn law_the_store_is_asked_for_what_was_commanded(command: TokenCommand)
    ensures
        command matches TokenCommand::Add {
            tokens_file,
            name,
            devices,
            tools,
            provider,
            provider_tier,
            on_behalf_of,
            actor_type,
            server_pid,
            ..
        } ==> (store_action(command) matches TokenAction::Add {
            tokens_file: file,
            name: token,
            devices: reached,
            tools: allowed,
            provider: given,
            provider_tier: level,
            on_behalf_of: human,
            actor_type: actor,
            server_pid: pid,
        } && file == tokens_file && token == name && reached == devices && allowed == tools && given
            == provider && level == provider_tier && human == on_behalf_of && actor == actor_type
            && pid == server_pid),
        command matches TokenCommand::Revoke { tokens_file, name, server_pid } ==> (store_action(
            command,
        ) matches TokenAction::Revoke { tokens_file: file, name: token, server_pid: pid } && file
            == tokens_file && token == name && pid == server_pid),
        command matches TokenCommand::Rotate { tokens_file, name, server_pid } ==> (store_action(
            command,
        ) matches TokenAction::Rotate { tokens_file: file, name: token, server_pid: pid } && file
            == tokens_file && token == name && pid == server_pid),
        command matches TokenCommand::List { tokens_file } ==> (store_action(
            command,
        ) matches TokenAction::List { tokens_file: file } && file == tokens_file),
        command matches TokenCommand::SetScopes {
            tokens_file,
            name,
            devices,
            tools,
            yes,
            server_pid,
            ..
        } ==> (store_action(command) matches TokenAction::SetScopes {
            tokens_file: file,
            name: token,
            devices: reached,
            tools: allowed,
            yes: unasked,
            server_pid: pid,
        } && file == tokens_file && token == name && reached == devices && allowed == tools
            && unasked == yes && pid == server_pid),
{
}

/// Only an addition and a change of scopes carry a grant, and it is of the
/// guests and actions that the command itself names.
pub proof fn law_a_command_carries_its_own_grant(command: TokenCommand)
    ensures
        command matches TokenCommand::Add { guests, actions, .. } ==> command_grant(command)
            == added_grant(texts(guests@), texts(actions@)),
        command matches TokenCommand::SetScopes { guests, actions, .. } ==> {
            &&& guests is Some && actions is Some ==> command_grant(command) == added_grant(
                texts(guests->0@),
                texts(actions->0@),
            )
            &&& guests is Some && actions is None ==> command_grant(command) == added_grant(
                texts(guests->0@),
                seq!["read"@],
            )
            &&& guests is None && actions is None ==> command_grant(command) == Ok::<
                Option<GrantView>,
                Seq<char>,
            >(None)
        },
        command is Revoke || command is List || command is Rotate ==> command_grant(command) == Ok::<
            Option<GrantView>,
            Seq<char>,
        >(None),
{
}

/// Where tokens are read from is never widened by a misspelling: the legacy
/// path is looked at only where the configured path is the canonical one,
/// letter for letter, and the configured path itself is always the first.
pub proof fn law_only_the_canonical_path_falls_back(
    configured: Seq<char>,
    canonical: Seq<char>,
    legacy: Seq<char>,
)
    ensures
        token_path(configured, canonical, legacy) is WithFallback <==> configured == canonical,
        token_path(configured, canonical, legacy) matches TokenPathView::Verbatim(path) ==> path
            == configured,
        token_path(configured, canonical, legacy) matches TokenPathView::WithFallback {
            primary,
            legacy: other,
        } ==> primary == configured && other == legacy,
{
}

/// HTTP is open to callers without a token only where that was asked for and no
/// token file was named; and where both or neither was, the server does not
/// start.
pub proof fn law_http_is_open_only_where_that_was_asked_for(
    tokens_file: Option<Seq<char>>,
    allow_no_auth: bool,
)
    ensures
        auth_mode(tokens_file, allow_no_auth) == Ok::<Option<TokenPathView>, Seq<char>>(None)
            <==> tokens_file is None && allow_no_auth,
        auth_mode(tokens_file, allow_no_auth) is Err <==> tokens_file is Some == allow_no_auth,
        auth_mode(tokens_file, allow_no_auth) matches Ok(Some(found)) ==> tokens_file is Some
            && found == token_path(
            tokens_file->0,
            "/var/lib/proxmoxmcp/tokens.json"@,
            "/etc/proxmoxmcp/tokens.json"@,
        ),
{
}

} // verus!
