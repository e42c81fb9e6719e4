//! Multi-cluster inventory.
//!
//! Credentials never appear in the inventory. Each cluster names an environment
//! variable or a separate file that holds its secret.
use vstd::prelude::*;
use vstd::string::*;

use crate::error::{ErrorView, ProxmoxError};
use crate::text::{
    copy_option, copy_texts, lemma_split_at_first, lemma_texts_push, same_text, split_once,
    text_option, texts,
};

verus! {

/// One Proxmox VE cluster.
#[derive(Debug)]
pub struct Cluster {
    /// Base URL including scheme and port, e.g. `https://pve3.example.org:8006`.
    pub endpoint: String,
    /// API token identity in `user@realm!tokenid` form.
    pub token_id: String,
    /// Environment variable holding the token secret.
    pub token_secret_env: Option<String>,
    /// File holding the token secret. Mutually exclusive with the env form.
    pub token_secret_file: Option<String>,
    /// PEM trust anchor for this cluster's API certificate.
    pub ca_pem_path: Option<String>,
    /// VMIDs protected regardless of their live tags.
    ///
    /// The durable half of the protection union: a holder of the server's own
    /// API token can clear a Proxmox tag, and cannot touch this list.
    pub protected_vmids: Vec<u32>,
    /// Tag names that mark a guest protected. Defaults to `["protected"]`.
    pub protected_tags: Vec<String>,
}

/// What protects the guests of a cluster.
pub struct PolicyView {
    pub vmids: Seq<u32>,
    pub tags: Seq<Seq<char>>,
}

/// One cluster, as a mathematical value.
pub struct ClusterView {
    pub endpoint: Seq<char>,
    pub token_id: Seq<char>,
    pub token_secret_env: Option<Seq<char>>,
    pub token_secret_file: Option<Seq<char>>,
    pub ca_pem_path: Option<Seq<char>>,
    pub policy: PolicyView,
}

impl View for Cluster {
    type V = ClusterView;

    open spec fn view(&self) -> ClusterView {
        ClusterView {
            endpoint: self.endpoint@,
            token_id: self.token_id@,
            token_secret_env: text_option(self.token_secret_env),
            token_secret_file: text_option(self.token_secret_file),
            ca_pem_path: text_option(self.ca_pem_path),
            policy: PolicyView { vmids: self.protected_vmids@, tags: texts(self.protected_tags@) },
        }
    }
}

/// The tags that protect a guest where the inventory names none.
pub fn default_protected_tags() -> (r: Vec<String>)
    ensures
        texts(r@) == seq!["protected"@],
{
    let mut out: Vec<String> = Vec::new();
    out.push("protected".to_owned());
    proof {
        assert(texts(out@) =~= seq!["protected"@]);
    }
    out
}

/// Inventory-wide settings.
#[derive(Debug, Clone, Copy)]
pub struct ClusterPolicy {
    /// How long a `/cluster/resources` snapshot may be reused.
    pub resource_cache_ttl_secs: u64,
}

/// How long a snapshot may be reused where the inventory does not say.
pub fn default_ttl() -> (r: u64)
    ensures
        r == 10,
{
    10
}

impl Default for ClusterPolicy {
    fn default() -> (r: Self)
        ensures
            r.resource_cache_ttl_secs == 10,
    {
        ClusterPolicy { resource_cache_ttl_secs: default_ttl() }
    }
}

/// Where a cluster's token secret is read from.
#[derive(Debug, PartialEq, Eq)]
pub enum SecretSource {
    /// The environment variable of this name.
    Env(String),
    /// The file at this path.
    File(String),
}

/// Where a token secret is read from, as a mathematical value.
pub enum SourceView {
    Env(Seq<char>),
    File(Seq<char>),
}

/// A secret's source or an error, as a mathematical value.
pub open spec fn source_result(r: Result<SecretSource, ProxmoxError>) -> Result<
    SourceView,
    ErrorView,
> {
    match r {
        Ok(SecretSource::Env(s)) => Ok(SourceView::Env(s@)),
        Ok(SecretSource::File(s)) => Ok(SourceView::File(s@)),
        Err(error) => Err(error@),
    }
}

/// Where a token secret is read from: the one source that is configured.
pub open spec fn secret_from(variable: Option<Seq<char>>, path: Option<Seq<char>>) -> Result<
    SourceView,
    ErrorView,
> {
    match (variable, path) {
        (Some(variable), None) => Ok(SourceView::Env(variable)),
        (None, Some(path)) => Ok(SourceView::File(path)),
        (Some(_), Some(_)) => Err(
            ErrorView::Config(
                "exactly one of token_secret_env or token_secret_file must be set, not both"@,
            ),
        ),
        (None, None) => Err(
            ErrorView::Config("one of token_secret_env or token_secret_file must be set"@),
        ),
    }
}

/// The `Authorization` header value of a token.
pub open spec fn token_header(id: Seq<char>, secret: Seq<char>) -> Seq<char> {
    "PVEAPIToken="@ + id + "="@ + secret
}

impl Cluster {
    /// Where this cluster's API token secret is read from.
    ///
    /// Exactly one source must be configured.
    pub fn secret_source(&self) -> (r: Result<SecretSource, ProxmoxError>)
        ensures
            source_result(r) == secret_from(self@.token_secret_env, self@.token_secret_file),
    {
        match (&self.token_secret_env, &self.token_secret_file) {
            (Some(variable), None) => Ok(SecretSource::Env(variable.clone())),
            (None, Some(path)) => Ok(SecretSource::File(path.clone())),
            (Some(_), Some(_)) => Err(
                ProxmoxError::Config(
                    "exactly one of token_secret_env or token_secret_file must be set, not both".to_owned(),
                ),
            ),
            (None, None) => Err(
                ProxmoxError::Config(
                    "one of token_secret_env or token_secret_file must be set".to_owned(),
                ),
            ),
        }
    }

    /// The `Authorization` header value for this cluster.
    ///
    /// Proxmox uses `PVEAPIToken=<id>=<secret>`, which is not the Bearer
    /// scheme.
    #[must_use]
    pub fn authorization_value(&self, secret: &str) -> (r: String)
        ensures
            r@ == token_header(self@.token_id, secret@),
    {
        let mut out = "PVEAPIToken=".to_owned();
        out.append(self.token_id.as_str());
        out.append("=");
        out.append(secret);
        out
    }
}

fn copy_vmids(v: &Vec<u32>) -> (r: Vec<u32>)
    ensures
        r@ == v@,
{
    let mut out: Vec<u32> = Vec::new();
    let mut i: usize = 0;
    while i < v.len()
        invariant
            i <= v@.len(),
            out@ == v@.take(i as int),
        decreases v@.len() - i,
    {
        out.push(v[i]);
        i += 1;
    }
    proof {
        assert(v@.take(i as int) =~= v@);
    }
    out
}

impl Clone for Cluster {
    fn clone(&self) -> (r: Self)
        ensures
            r@ == self@,
    {
        Cluster {
            endpoint: self.endpoint.clone(),
            token_id: self.token_id.clone(),
            token_secret_env: copy_option(&self.token_secret_env),
            token_secret_file: copy_option(&self.token_secret_file),
            ca_pem_path: copy_option(&self.ca_pem_path),
            protected_vmids: copy_vmids(&self.protected_vmids),
            protected_tags: copy_texts(self.protected_tags.as_slice()),
        }
    }
}

// ---------------------------------------------------------------------------
// The inventory
// ---------------------------------------------------------------------------
/// The clusters this server is configured for.
#[derive(Debug)]
pub struct ClusterInventory {
    clusters: Vec<(String, Cluster)>,
    policy: Option<ClusterPolicy>,
}

/// The configured clusters, as a mathematical value.
pub struct InventoryView {
    pub clusters: Seq<(Seq<char>, ClusterView)>,
    pub policy: Option<ClusterPolicy>,
}

/// The clusters of a list, each with its name.
pub open spec fn named_clusters(v: Seq<(String, Cluster)>) -> Seq<(Seq<char>, ClusterView)> {
    v.map_values(|p: (String, Cluster)| (p.0@, p.1@))
}

impl View for ClusterInventory {
    type V = InventoryView;

    closed spec fn view(&self) -> InventoryView {
        InventoryView { clusters: named_clusters(self.clusters@), policy: self.policy }
    }
}

impl InventoryView {
    /// The names of the clusters, in the inventory's order.
    pub open spec fn names(self) -> Seq<Seq<char>> {
        self.clusters.map_values(|p: (Seq<char>, ClusterView)| p.0)
    }

    /// The first cluster of a name, at or after `i`.
    pub open spec fn find_from(self, name: Seq<char>, i: int) -> Option<ClusterView>
        decreases self.clusters.len() - i,
    {
        if i < 0 || i >= self.clusters.len() {
            None
        } else if self.clusters[i].0 == name {
            Some(self.clusters[i].1)
        } else {
            self.find_from(name, i + 1)
        }
    }

    /// The cluster of a name.
    pub open spec fn find(self, name: Seq<char>) -> Option<ClusterView> {
        self.find_from(name, 0)
    }
}

impl ClusterInventory {
    /// An inventory of these clusters. The policy is the file's, where it has
    /// one.
    #[must_use]
    pub fn new(clusters: Vec<(String, Cluster)>, policy: Option<ClusterPolicy>) -> (r: Self)
        ensures
            r@ == (InventoryView { clusters: named_clusters(clusters@), policy }),
    {
        ClusterInventory { clusters, policy }
    }

    /// Take in what was read of the file anew, and return the number of
    /// clusters it holds. Where reading it failed, the previous contents remain
    /// in effect.
    pub fn reload(&mut self, loaded: Result<ClusterInventory, String>) -> (r: Result<usize, String>)
        ensures
            match loaded {
                Ok(fresh) => r matches Ok(n) && n == fresh@.clusters.len() && final(self)@ == fresh@,
                Err(error) => r matches Err(e) && e@ == error@ && final(self)@ == old(self)@,
            },
    {
        match loaded {
            Ok(fresh) => {
                let n: usize = fresh.clusters.len();
                *self = fresh;
                Ok(n)
            },
            Err(error) => Err(error),
        }
    }

    /// All cluster names, in stable order.
    #[must_use]
    pub fn names(&self) -> (r: Vec<String>)
        ensures
            texts(r@) == self@.names(),
    {
        let mut out: Vec<String> = Vec::new();
        let mut i: usize = 0;
        proof {
            assert(texts(out@) =~= self@.names().take(0));
        }
        while i < self.clusters.len()
            invariant
                i <= self.clusters@.len(),
                texts(out@) == self@.names().take(i as int),
            decreases self.clusters@.len() - i,
        {
            proof {
                lemma_texts_push(out@, self.clusters@[i as int].0);
                assert(self@.names()[i as int] == self.clusters@[i as int].0@);
                assert(self@.names().take(i as int + 1) =~= self@.names().take(i as int).push(
                    self.clusters@[i as int].0@,
                ));
            }
            out.push(self.clusters[i].0.clone());
            i += 1;
        }
        proof {
            assert(self@.names().take(i as int) =~= self@.names());
        }
        out
    }

    /// Resolve one cluster by exact name.
    pub fn get(&self, name: &str) -> (r: Result<Cluster, ProxmoxError>)
        ensures
            match self@.find(name@) {
                Some(cluster) => r matches Ok(found) && found@ == cluster,
                None => r matches Err(error) && error@ == ErrorView::UnknownCluster(name@),
            },
    {
        let mut i: usize = 0;
        while i < self.clusters.len()
            invariant
                i <= self.clusters@.len(),
                self@.find(name@) == self@.find_from(name@, i as int),
            decreases self.clusters@.len() - i,
        {
            proof {
                assert(self@.clusters[i as int] == (
                    self.clusters@[i as int].0@,
                    self.clusters@[i as int].1@,
                ));
            }
            if same_text(self.clusters[i].0.as_str(), name) {
                return Ok(self.clusters[i].1.clone());
            }
            i += 1;
        }
        Err(ProxmoxError::UnknownCluster(name.to_owned()))
    }

    /// Inventory-wide policy, or defaults when the file omits it.
    #[must_use]
    pub fn policy(&self) -> (r: ClusterPolicy)
        ensures
            r == match self@.policy {
                Some(policy) => policy,
                None => (ClusterPolicy { resource_cache_ttl_secs: 10 }),
            },
    {
        match self.policy {
            Some(policy) => policy,
            None => ClusterPolicy::default(),
        }
    }
}

/// A name that is configured resolves, and only such a name.
pub proof fn law_exactly_the_named_clusters_resolve(inventory: InventoryView, name: Seq<char>)
    ensures
        inventory.find(name) is Some <==> inventory.names().contains(name),
{
    lemma_found_when_named(inventory, name, 0);
    if inventory.names().contains(name) {
        let k = choose|k: int| 0 <= k < inventory.names().len() && inventory.names()[k] == name;
        assert(inventory.clusters[k].0 == name);
    }
}

proof fn lemma_found_when_named(inventory: InventoryView, name: Seq<char>, i: int)
    requires
        0 <= i,
    ensures
        inventory.find_from(name, i) is Some ==> inventory.names().contains(name),
        forall|k: int|
            i <= k < inventory.clusters.len() && (#[trigger] inventory.clusters[k]).0 == name
                ==> inventory.find_from(name, i) is Some,
    decreases inventory.clusters.len() - i,
{
    if i < inventory.clusters.len() {
        if inventory.clusters[i].0 == name {
            assert(inventory.names()[i] == name);
        } else {
            lemma_found_when_named(inventory, name, i + 1);
        }
    }
}

/// A name resolves to a cluster that was configured under that name.
pub proof fn law_a_name_resolves_to_its_own_cluster(
    inventory: InventoryView,
    name: Seq<char>,
    cluster: ClusterView,
)
    requires
        inventory.find(name) == Some(cluster),
    ensures
        inventory.clusters.contains((name, cluster)),
{
    lemma_found_is_configured(inventory, name, 0);
}

proof fn lemma_found_is_configured(inventory: InventoryView, name: Seq<char>, i: int)
    requires
        0 <= i,
    ensures
        inventory.find_from(name, i) matches Some(cluster) ==> inventory.clusters.contains(
            (name, cluster),
        ),
    decreases inventory.clusters.len() - i,
{
    if i < inventory.clusters.len() {
        if inventory.clusters[i].0 == name {
            assert(inventory.clusters.contains(inventory.clusters[i]));
            assert(inventory.clusters[i] == (name, inventory.clusters[i].1));
        } else {
            lemma_found_is_configured(inventory, name, i + 1);
        }
    }
}

/// Of several clusters of one name the first is the one it resolves to.
pub proof fn law_a_name_resolves_to_the_first_of_it(
    inventory: InventoryView,
    name: Seq<char>,
    from: int,
    i: int,
)
    requires
        0 <= from <= i < inventory.clusters.len(),
        inventory.clusters[i].0 == name,
        forall|j: int| from <= j < i ==> (#[trigger] inventory.clusters[j]).0 != name,
    ensures
        inventory.find_from(name, from) == Some(inventory.clusters[i].1),
        from == 0 ==> inventory.find(name) == Some(inventory.clusters[i].1),
    decreases i - from,
{
    if from < i {
        law_a_name_resolves_to_the_first_of_it(inventory, name, from + 1, i);
        assert(inventory.clusters[from].0 != name);
    }
}

/// A secret is read from the one source that is configured, under its own name,
/// and from nowhere where there are two or none.
pub proof fn law_a_secret_has_one_source(
    variable: Option<Seq<char>>,
    path: Option<Seq<char>>,
    name: Seq<char>,
)
    ensures
        secret_from(variable, path) == Ok::<SourceView, ErrorView>(SourceView::Env(name))
            <==> variable == Some(name) && path is None,
        secret_from(variable, path) == Ok::<SourceView, ErrorView>(SourceView::File(name))
            <==> variable is None && path == Some(name),
        secret_from(variable, path) matches Err(error) ==> error is Config && variable is Some
            == path is Some,
{
}

/// A cluster's header is the scheme of Proxmox tokens, then the token's id,
/// then its secret: what follows the id and an equals sign is the secret, whole.
pub proof fn law_a_header_carries_id_and_secret(id: Seq<char>, secret: Seq<char>)
    requires
        !id.contains('='),
    ensures
        split_once(token_header(id, secret), "="@) == Some(("PVEAPIToken"@, id + "="@ + secret)),
        split_once(id + "="@ + secret, "="@) == Some((id, secret)),
{
    reveal_strlit("=");
    reveal_strlit("PVEAPIToken=");
    reveal_strlit("PVEAPIToken");
    assert("="@ =~= seq!['=']);
    let word = "PVEAPIToken"@;
    assert("PVEAPIToken="@ =~= word + "="@);
    assert(!word.contains('='));
    lemma_split_at_first(id, '=', secret);
    lemma_split_at_first(word, '=', id + "="@ + secret);
    assert(token_header(id, secret) =~= word + seq!['='] + (id + "="@ + secret));
}

} // verus!
