//! Clusters and where their secrets come from.
use proxmoxmcp::error::ProxmoxError;
use proxmoxmcp::inventory::{
    default_protected_tags, default_ttl, Cluster, ClusterInventory, ClusterPolicy, SecretSource,
};

fn cluster(env: Option<&str>, file: Option<&str>) -> Cluster {
    Cluster {
        endpoint: "https://pve3.example.org:8006".to_owned(),
        token_id: "root@pam!mcp".to_owned(),
        token_secret_env: env.map(str::to_owned),
        token_secret_file: file.map(str::to_owned),
        ca_pem_path: None,
        protected_vmids: vec![905, 907],
        protected_tags: default_protected_tags(),
    }
}

#[test]
fn the_ttl_defaults_to_ten_seconds() {
    assert_eq!(default_ttl(), 10);
    assert_eq!(ClusterPolicy::default().resource_cache_ttl_secs, 10);
}

#[test]
fn the_protective_tag_defaults_to_protected() {
    assert_eq!(default_protected_tags(), vec!["protected".to_owned()]);
}

#[test]
fn exactly_one_secret_source_is_needed() {
    assert_eq!(
        cluster(Some("PVE"), None).secret_source(),
        Ok(SecretSource::Env("PVE".to_owned()))
    );
    assert_eq!(
        cluster(None, Some("/run/secret")).secret_source(),
        Ok(SecretSource::File("/run/secret".to_owned()))
    );
    assert_eq!(
        cluster(Some("PVE"), Some("/run/secret")).secret_source(),
        Err(ProxmoxError::Config(
            "exactly one of token_secret_env or token_secret_file must be set, not both".to_owned()
        ))
    );
    assert_eq!(
        cluster(None, None).secret_source(),
        Err(ProxmoxError::Config(
            "one of token_secret_env or token_secret_file must be set".to_owned()
        ))
    );
}

#[test]
fn the_authorization_header_is_proxmoxs_own_scheme() {
    assert_eq!(
        cluster(None, None).authorization_value("0123456789abcdef"),
        "PVEAPIToken=root@pam!mcp=0123456789abcdef"
    );
}

#[test]
fn a_copied_cluster_is_the_same() {
    let original = cluster(Some("PVE"), None);
    let copy = original.clone();
    assert_eq!(copy.endpoint, original.endpoint);
    assert_eq!(copy.protected_vmids, original.protected_vmids);
    assert_eq!(copy.protected_tags, original.protected_tags);
    assert_eq!(copy.token_secret_env, original.token_secret_env);
}

fn inventory() -> ClusterInventory {
    ClusterInventory::new(vec![("pve3".to_owned(), cluster(Some("PVE_PVE3_TOKEN"), None))], None)
}

#[test]
fn loads_clusters_and_exposes_names() {
    assert_eq!(inventory().names(), vec!["pve3".to_owned()]);
}

#[test]
fn resolves_a_cluster_by_name() {
    let inventory = inventory();
    let cluster = inventory.get("pve3").expect("cluster");
    assert_eq!(cluster.endpoint, "https://pve3.example.org:8006");
    assert_eq!(cluster.protected_vmids, vec![905, 907]);
}

#[test]
fn unknown_cluster_is_a_typed_error_not_a_panic() {
    let inventory = inventory();
    let error = inventory.get("pve9").expect_err("should not resolve");
    assert!(matches!(error, ProxmoxError::UnknownCluster(name) if name == "pve9"));
}

#[test]
fn defaults_the_resource_cache_ttl() {
    assert_eq!(inventory().policy().resource_cache_ttl_secs, 10);
    let given = ClusterInventory::new(Vec::new(), Some(ClusterPolicy { resource_cache_ttl_secs: 300 }));
    assert_eq!(given.policy().resource_cache_ttl_secs, 300);
}

#[test]
fn defaults_protected_tags_when_omitted() {
    let inventory = inventory();
    let cluster = inventory.get("pve3").expect("cluster");
    assert_eq!(cluster.protected_tags, vec!["protected".to_owned()]);
}

#[test]
fn a_failed_reload_keeps_the_previous_contents() {
    let mut inventory = inventory();
    assert_eq!(inventory.reload(Err("mode 0640".to_owned())), Err("mode 0640".to_owned()));
    assert_eq!(inventory.names(), vec!["pve3".to_owned()]);
    let fresh = ClusterInventory::new(
        vec![("a".to_owned(), cluster(None, None)), ("b".to_owned(), cluster(None, None))],
        None,
    );
    assert_eq!(inventory.reload(Ok(fresh)), Ok(2));
    assert_eq!(inventory.names(), vec!["a".to_owned(), "b".to_owned()]);
    assert!(inventory.get("pve3").is_err());
}
