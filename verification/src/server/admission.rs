//! Who is calling, and what every call has to pass first.
//!
//! Stage 1 (the bearer token, and the tool and cluster scopes it binds) is
//! judged by the transport and handed in. What follows it here: the cluster
//! must be configured, and a token must carry a grant before it may address a
//! guest.
use vstd::prelude::*;
use vstd::string::*;

use crate::grant::{GrantView, ProxmoxAction, ProxmoxGrant};
use crate::inventory::{Cluster, ClusterView};
use crate::text::{contains_text, has_text, in_table, lemma_has_middle, listed, texts};
use crate::tier::{law_write_registry_is_complete, tier, Tier, WRITE_TOOLS};

verus! {

/// A set of names a token may use.
#[derive(Debug)]
pub enum ScopeSet {
    /// Every name, tools of the write registry excepted.
    Wildcard,
    /// These names.
    Allowlist(Vec<String>),
}

/// An authenticated caller.
#[derive(Debug)]
pub struct Caller {
    /// Name of the token that was presented.
    pub token_name: String,
    /// Identifier of the request, the join key of the audit trail.
    pub request_id: String,
    /// The token's guest scope and action authority, where it declares one.
    pub grant: Option<ProxmoxGrant>,
    /// Tools the token may call.
    pub tools: ScopeSet,
    /// Clusters the token may reach.
    pub devices: ScopeSet,
}

/// An authenticated caller, as a mathematical value.
pub struct CallerView {
    pub token_name: Seq<char>,
    pub request_id: Seq<char>,
    pub grant: Option<GrantView>,
}

impl View for Caller {
    type V = CallerView;

    open spec fn view(&self) -> CallerView {
        CallerView {
            token_name: self.token_name@,
            request_id: self.request_id@,
            grant: match self.grant {
                Some(grant) => Some(grant@),
                None => None,
            },
        }
    }
}

/// A caller, where the call came with a token.
pub open spec fn caller_view(caller: Option<&Caller>) -> Option<CallerView> {
    match caller {
        Some(caller) => Some(caller@),
        None => None,
    }
}

/// A configured cluster, where there is one of the name.
pub open spec fn config_view(config: Option<&Cluster>) -> Option<ClusterView> {
    match config {
        Some(config) => Some(config@),
        None => None,
    }
}

/// A refusal or a success, as a mathematical value.
pub open spec fn unit_result(r: Result<(), String>) -> Result<(), Seq<char>> {
    match r {
        Ok(_) => Ok(()),
        Err(error) => Err(error@),
    }
}

/// The grant of the local caller that presents no token: it sees everything and
/// may change nothing.
pub open spec fn local_grant() -> GrantView {
    GrantView { guests: seq!["*"@], actions: seq![ProxmoxAction::Read] }
}

/// The grant of a guest-addressed call. Without a token it is the read-only
/// grant; a token that declares none is refused, so that omitting a scope never
/// widens it.
pub open spec fn grant_of(caller: Option<CallerView>) -> Result<GrantView, Seq<char>> {
    match caller {
        None => Ok(local_grant()),
        Some(caller) => match caller.grant {
            Some(grant) => Ok(grant),
            None => Err(
                "token '"@ + caller.token_name
                    + "' carries no 'guests' selector; add one to tokens.json"@,
            ),
        },
    }
}

/// A resolved grant as a mathematical value.
pub open spec fn grant_result(r: Result<ProxmoxGrant, String>) -> Result<GrantView, Seq<char>> {
    match r {
        Ok(grant) => Ok(grant@),
        Err(error) => Err(error@),
    }
}

/// Resolve the grant for a guest-addressed call.
pub fn resolve_grant(caller: Option<&Caller>) -> (r: Result<ProxmoxGrant, String>)
    ensures
        grant_result(r) == grant_of(caller_view(caller)),
{
    match caller {
        None => Ok(ProxmoxGrant::read_only()),
        Some(caller) => match &caller.grant {
            Some(grant) => Ok(grant.clone()),
            None => {
                let mut text = "token '".to_owned();
                text.append(caller.token_name.as_str());
                text.append("' carries no 'guests' selector; add one to tokens.json");
                Err(text)
            },
        },
    }
}

/// Derive a scope description from the caller's tool and device scopes.
pub fn scope_desc(caller: Option<&Caller>) -> (r: &'static str)
    ensures
        r@ == match caller {
            None => "stdio"@,
            Some(caller) => match (caller.tools, caller.devices) {
                (ScopeSet::Wildcard, ScopeSet::Wildcard) => "global"@,
                (ScopeSet::Wildcard, ScopeSet::Allowlist(_)) => "device-scoped"@,
                (ScopeSet::Allowlist(_), _) => "tool-scoped"@,
            },
        },
{
    match caller {
        None => "stdio",
        Some(caller) => match (&caller.tools, &caller.devices) {
            (ScopeSet::Wildcard, ScopeSet::Wildcard) => "global",
            (ScopeSet::Wildcard, ScopeSet::Allowlist(_)) => "device-scoped",
            (ScopeSet::Allowlist(_), _) => "tool-scoped",
        },
    }
}

/// The name a call is recorded under: the token's, or `stdio`.
pub open spec fn principal_text(caller: Option<CallerView>) -> Seq<char> {
    match caller {
        Some(caller) => caller.token_name,
        None => "stdio"@,
    }
}

/// The identifier a call is recorded under: the request's, or `stdio`.
pub open spec fn request_text(caller: Option<CallerView>) -> Seq<char> {
    match caller {
        Some(caller) => caller.request_id,
        None => "stdio"@,
    }
}

/// The name a call is recorded under.
pub fn principal(caller: Option<&Caller>) -> (r: String)
    ensures
        r@ == principal_text(caller_view(caller)),
{
    match caller {
        Some(caller) => caller.token_name.clone(),
        None => "stdio".to_owned(),
    }
}

/// The identifier a call is recorded under.
pub fn request_id(caller: Option<&Caller>) -> (r: String)
    ensures
        r@ == request_text(caller_view(caller)),
{
    match caller {
        Some(caller) => caller.request_id.clone(),
        None => "stdio".to_owned(),
    }
}

/// What a call to a cluster has to pass: stage 1, and a configured cluster.
pub open spec fn reached(
    stage_one: Result<(), Seq<char>>,
    config: Option<ClusterView>,
    cluster: Seq<char>,
) -> Result<(), Seq<char>> {
    match stage_one {
        Err(error) => Err(error),
        Ok(_) => if config is None {
            Err("unknown cluster: "@ + cluster)
        } else {
            Ok(())
        },
    }
}

/// What a guest-addressed call has to pass: stage 1, a configured cluster, and
/// a grant.
pub open spec fn admitted(
    stage_one: Result<(), Seq<char>>,
    config: Option<ClusterView>,
    cluster: Seq<char>,
    caller: Option<CallerView>,
) -> Result<GrantView, Seq<char>> {
    match reached(stage_one, config, cluster) {
        Err(error) => Err(error),
        Ok(_) => grant_of(caller),
    }
}

/// Judge a call to a cluster.
pub fn reach(stage_one: Result<(), String>, config: Option<&Cluster>, cluster: &str) -> (r: Result<
    (),
    String,
>)
    ensures
        unit_result(r) == reached(unit_result(stage_one), config_view(config), cluster@),
{
    match stage_one {
        Err(error) => Err(error),
        Ok(_) => match config {
            Some(_) => Ok(()),
            None => {
                let mut text = "unknown cluster: ".to_owned();
                text.append(cluster);
                Err(text)
            },
        },
    }
}

/// Judge a guest-addressed call, and find the grant it is made under.
pub fn admit_call(
    stage_one: Result<(), String>,
    config: Option<&Cluster>,
    cluster: &str,
    caller: Option<&Caller>,
) -> (r: Result<ProxmoxGrant, String>)
    ensures
        grant_result(r) == admitted(
            unit_result(stage_one),
            config_view(config),
            cluster@,
            caller_view(caller),
        ),
{
    match reach(stage_one, config, cluster) {
        Err(error) => Err(error),
        Ok(_) => resolve_grant(caller),
    }
}

// ---------------------------------------------------------------------------
// Tool and cluster scopes
// ---------------------------------------------------------------------------
/// Whether a tool scope reaches a tool. A wildcard reaches every tool that is
/// not in the write registry; a list reaches the tools it names.
pub open spec fn tool_reached(scope: ScopeSet, tool: Seq<char>) -> bool {
    match scope {
        ScopeSet::Wildcard => !listed(WRITE_TOOLS@, tool),
        ScopeSet::Allowlist(names) => texts(names@).contains(tool),
    }
}

/// Whether a device scope reaches a cluster.
pub open spec fn cluster_reached(scope: ScopeSet, cluster: Seq<char>) -> bool {
    match scope {
        ScopeSet::Wildcard => true,
        ScopeSet::Allowlist(names) => texts(names@).contains(cluster),
    }
}

/// Whether a caller's scopes reach a tool on a cluster. Guest selectors are not
/// looked at here: they need a resolved guest.
pub fn scopes_reach(tools: &ScopeSet, devices: &ScopeSet, tool: &str, cluster: &str) -> (r: bool)
    ensures
        r == (tool_reached(*tools, tool@) && cluster_reached(*devices, cluster@)),
{
    let tool_in = match tools {
        ScopeSet::Wildcard => !in_table(WRITE_TOOLS.as_slice(), tool),
        ScopeSet::Allowlist(names) => contains_text(names.as_slice(), tool),
    };
    let cluster_in = match devices {
        ScopeSet::Wildcard => true,
        ScopeSet::Allowlist(names) => contains_text(names.as_slice(), cluster),
    };
    tool_in && cluster_in
}

/// A wildcard tool scope reaches no mutating tool: each must be named.
pub proof fn law_a_wildcard_reaches_no_mutating_tool(tool: Seq<char>)
    requires
        tier(tool) == Some(Tier::Low) || tier(tool) == Some(Tier::Destructive),
    ensures
        !tool_reached(ScopeSet::Wildcard, tool),
{
    law_write_registry_is_complete(tool);
}

/// Omitting a scope never widens it: a token without a grant reaches no guest,
/// and a caller without a token may change nothing.
pub proof fn law_a_missing_grant_is_refused(caller: CallerView)
    requires
        caller.grant is None,
    ensures
        grant_of(Some(caller)) is Err,
        !local_grant().permits(ProxmoxAction::Low),
        !local_grant().permits(ProxmoxAction::Destructive),
{
}

/// A call is made under the caller's own grant: a token's is the one it
/// declares, and without a token every guest may be read and none changed. It
/// is recorded under the token's name and the request's identifier.
pub proof fn law_a_call_is_made_under_the_callers_own_grant(caller: CallerView)
    ensures
        caller.grant is Some ==> grant_of(Some(caller)) == Ok::<GrantView, Seq<char>>(
            caller.grant->0,
        ),
        grant_of(None) is Ok,
        grant_of(None)->Ok_0.guests == seq!["*"@],
        grant_of(None)->Ok_0.actions == seq![ProxmoxAction::Read],
        principal_text(Some(caller)) == caller.token_name,
        request_text(Some(caller)) == caller.request_id,
        principal_text(None) == "stdio"@,
        request_text(None) == "stdio"@,
{
}

/// A guest-addressed call is let through exactly when stage 1 let it through,
/// its cluster is configured and the caller has a grant; and stage 1's refusal
/// comes before the others.
pub proof fn law_when_a_call_is_let_through(
    stage_one: Result<(), Seq<char>>,
    config: Option<ClusterView>,
    cluster: Seq<char>,
    caller: Option<CallerView>,
)
    ensures
        admitted(stage_one, config, cluster, caller) is Ok <==> stage_one is Ok && config is Some
            && (caller is None || caller->0.grant is Some),
        admitted(stage_one, config, cluster, caller) matches Ok(grant) ==> grant_of(caller) == Ok::<
            GrantView,
            Seq<char>,
        >(grant),
        stage_one matches Err(error) ==> admitted(stage_one, config, cluster, caller) == Err::<
            GrantView,
            Seq<char>,
        >(error),
        stage_one is Ok && config is None ==> admitted(stage_one, config, cluster, caller) == Err::<
            GrantView,
            Seq<char>,
        >("unknown cluster: "@ + cluster),
{
}

/// A list reaches the tools and the clusters it names and no others; a wildcard
/// reaches every cluster, and every tool that only reads.
pub proof fn law_a_list_reaches_what_it_names(names: Vec<String>, word: Seq<char>)
    ensures
        tool_reached(ScopeSet::Allowlist(names), word) <==> exists|i: int|
            0 <= i < names@.len() && (#[trigger] names@[i])@ == word,
        cluster_reached(ScopeSet::Allowlist(names), word) <==> exists|i: int|
            0 <= i < names@.len() && (#[trigger] names@[i])@ == word,
        cluster_reached(ScopeSet::Wildcard, word),
        tier(word) == Some(Tier::Read) ==> tool_reached(ScopeSet::Wildcard, word),
{
    law_write_registry_is_complete(word);
    let all = texts(names@);
    if all.contains(word) {
        let i = choose|i: int| 0 <= i < all.len() && all[i] == word;
        assert(names@[i]@ == word);
    }
    if exists|i: int| 0 <= i < names@.len() && (#[trigger] names@[i])@ == word {
        let i = choose|i: int| 0 <= i < names@.len() && (#[trigger] names@[i])@ == word;
        assert(all[i] == word);
    }
}

/// A token without a grant is told its own name.
pub proof fn law_a_token_without_a_grant_is_named(caller: CallerView)
    requires
        caller.grant is None,
    ensures
        grant_of(Some(caller)) matches Err(text) && has_text(text, caller.token_name),
{
    lemma_has_middle(
        "token '"@,
        caller.token_name,
        "' carries no 'guests' selector; add one to tokens.json"@,
    );
}

} // verus!
