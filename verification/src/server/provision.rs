//! Creating guests and downloading images.
//!
//! Both address something that does not exist yet, a free VMID or a file not on
//! the storage, so neither can be authorized by resolving a guest and matching
//! it against the grant.
use vstd::prelude::*;
use vstd::string::*;

use crate::client::{Method, Request, RequestView};
use crate::error::{ErrorView, ProxmoxError};
use crate::grant::{GrantView, ProxmoxAction, ProxmoxGrant};
use crate::guests::{bare, checksum_fields};
use crate::inventory::{Cluster, PolicyView};
use crate::protect::creation_allowed;
use crate::resolve::{resolved_result, GuestView, ResolvedGuest};
use crate::selector::GuestType;
use crate::server::admission::unit_result;
use crate::server::read::request_result;
use crate::server::{CreateGuestArgs, DownloadIsoArgs};
use crate::text::{
    after_last, begins_with, carries, carries_option, chars_of, copy_pairs, decimal, decimal_text,
    find_from, has_char, has_text, in_table, is_digit, join, join_texts, lemma_find_from,
    lemma_has_end, lemma_has_inner, lemma_has_middle, lemma_join_has_parts, lemma_not_split,
    lemma_split_at_first, lemma_split_in_two, lemma_split_nonempty, lemma_split_single,
    lemma_texts_push, lemma_together, listed, lower, lower_text, occurs_at, pairs, sole_at, split,
    split_once, split_text, split_text_once, text_after_last, text_of, text_option, texts,
};

verus! {

/// Config keys `create_vm` and `create_container` refuse.
///
/// Config pairs are forwarded to Proxmox as given, which is only safe if the
/// keys that leave the guest are refused:
///
/// - `archive`, `restore` and `force` turn a create into a **restore**, which
///   posts to the same endpoint and overwrites an existing guest.
/// - `hookscript` names a script Proxmox runs **on the node**, and `args` is
///   appended to the `kvm` command line on the node.
/// - `unprivileged` would select a privileged container.
/// - `cicustom` runs cloud-init snippets from storage.
///
/// Refused rather than dropped, so a caller is told their config was not
/// applied as written.
pub const REFUSED_CONFIG_KEYS: [&'static str; 7] = [
    "archive",
    "restore",
    "force",
    "hookscript",
    "args",
    "unprivileged",
    "cicustom",
];

/// Key prefixes refused for the same reasons, where Proxmox numbers the key:
/// host mounts, device passthrough, and the raw `lxc.` namespace.
pub const REFUSED_CONFIG_PREFIXES: [&'static str; 7] = [
    "mp",
    "hostpci",
    "usb",
    "dev",
    "serial",
    "parallel",
    "lxc.",
];

/// Whether a prefix refuses a key: a namespace refuses all that is in it, a
/// numbered key is the prefix and one or more digits.
pub open spec fn prefix_refuses(prefix: Seq<char>, key: Seq<char>) -> bool {
    &&& prefix.is_prefix_of(key)
    &&& (prefix.len() > 0 && prefix.last() == '.') || (key.len() > prefix.len() && forall|i: int|
        prefix.len() <= i < key.len() ==> is_digit(#[trigger] key[i]))
}

/// Whether some prefix of the table refuses a key.
pub open spec fn some_prefix_refuses(key: Seq<char>) -> bool {
    exists|i: int|
        0 <= i < REFUSED_CONFIG_PREFIXES@.len() && prefix_refuses(
            #[trigger] REFUSED_CONFIG_PREFIXES@[i]@,
            key,
        )
}

/// Whether a config key is refused, whatever the case of its letters.
pub open spec fn key_refused(key: Seq<char>) -> bool {
    listed(REFUSED_CONFIG_KEYS@, lower(key)) || some_prefix_refuses(lower(key))
}

/// What a config field names: what follows its first `=`, or all of it.
pub open spec fn field_value(field: Seq<char>) -> Seq<char> {
    match split_once(field, "="@) {
        Some((_, value)) => value,
        None => field,
    }
}

/// Whether a config value carries an absolute host path in one of its
/// comma-separated fields. Proxmox storage references are `storage:spec`; an
/// absolute path is the host's filesystem.
pub open spec fn names_host_path(value: Seq<char>) -> bool {
    exists|i: int|
        0 <= i < split(value, ',').len() && starts_with_slash(
            field_value(#[trigger] split(value, ',')[i]),
        )
}

/// Whether a text begins with a slash.
pub open spec fn starts_with_slash(s: Seq<char>) -> bool {
    s.len() > 0 && s[0] == '/'
}

/// The keys of a config that are refused, in order.
pub open spec fn refused_keys(config: Seq<(Seq<char>, Seq<char>)>) -> Seq<Seq<char>>
    decreases config.len(),
{
    if config.len() == 0 {
        Seq::empty()
    } else if key_refused(config.last().0) {
        refused_keys(config.drop_last()).push(config.last().0)
    } else {
        refused_keys(config.drop_last())
    }
}

/// The keys of a config whose values carry a host path, in order.
pub open spec fn host_path_keys(config: Seq<(Seq<char>, Seq<char>)>) -> Seq<Seq<char>>
    decreases config.len(),
{
    if config.len() == 0 {
        Seq::empty()
    } else if names_host_path(config.last().1) {
        host_path_keys(config.drop_last()).push(config.last().0)
    } else {
        host_path_keys(config.drop_last())
    }
}

/// Why a config is refused, where it is: for its keys first, else for its
/// values.
pub open spec fn config_refusal(config: Seq<(Seq<char>, Seq<char>)>) -> Option<Seq<char>> {
    if refused_keys(config).len() > 0 {
        Some(
            "config key(s) "@ + join(refused_keys(config), ", "@)
                + " are refused: they express a restore, host code execution, a host mount or device passthrough, none of which a 'low' create may do. Create the guest without them and set them from the Proxmox UI if you genuinely need them."@,
        )
    } else if host_path_keys(config).len() > 0 {
        Some(
            "config key(s) "@ + join(host_path_keys(config), ", "@)
                + " carry an absolute host path. A guest disk is named 'storage:spec'; a path names the hypervisor's own filesystem, which a 'low' create must not reach."@,
        )
    } else {
        None
    }
}

fn refuses_key(prefix: &str, key: &str) -> (r: bool)
    ensures
        r == prefix_refuses(prefix@, key@),
{
    if !begins_with(key, prefix) {
        return false;
    }
    let p = chars_of(prefix);
    let v = chars_of(key);
    if p.len() > 0 && p[p.len() - 1] == '.' {
        return true;
    }
    if v.len() <= p.len() {
        return false;
    }
    let mut i: usize = p.len();
    while i < v.len()
        invariant
            v@ == key@,
            p@ == prefix@,
            !(prefix@.len() > 0 && prefix@.last() == '.'),
            p@.len() <= i <= v@.len(),
            forall|j: int| p@.len() <= j < i ==> is_digit(#[trigger] key@[j]),
        decreases v@.len() - i,
    {
        let c = v[i];
        if !('0' <= c && c <= '9') {
            proof {
                assert(!is_digit(key@[i as int]));
            }
            return false;
        }
        i += 1;
    }
    true
}

/// Whether a config key is refused.
pub fn is_refused_key(key: &str) -> (r: bool)
    ensures
        r == key_refused(key@),
{
    let lowered = lower_text(key);
    if in_table(REFUSED_CONFIG_KEYS.as_slice(), lowered.as_str()) {
        return true;
    }
    let mut i: usize = 0;
    while i < REFUSED_CONFIG_PREFIXES.len()
        invariant
            lowered@ == lower(key@),
            i <= REFUSED_CONFIG_PREFIXES@.len(),
            !listed(REFUSED_CONFIG_KEYS@, lower(key@)),
            forall|j: int|
                0 <= j < i ==> !prefix_refuses(
                    #[trigger] REFUSED_CONFIG_PREFIXES@[j]@,
                    lower(key@),
                ),
        decreases REFUSED_CONFIG_PREFIXES@.len() - i,
    {
        if refuses_key(REFUSED_CONFIG_PREFIXES[i], lowered.as_str()) {
            proof {
                assert(prefix_refuses(REFUSED_CONFIG_PREFIXES@[i as int]@, lower(key@)));
            }
            return true;
        }
        i += 1;
    }
    false
}

/// Whether a config value carries an absolute host path.
pub fn has_host_path(value: &str) -> (r: bool)
    ensures
        r == names_host_path(value@),
{
    let fields = split_text(value, ',');
    let ghost all = split(value@, ',');
    let mut i: usize = 0;
    while i < fields.len()
        invariant
            i <= fields@.len(),
            all == split(value@, ','),
            texts(fields@) == all,
            forall|j: int| 0 <= j < i ==> !starts_with_slash(field_value(#[trigger] all[j])),
        decreases fields@.len() - i,
    {
        proof {
            assert(all[i as int] == fields@[i as int]@);
        }
        let named = match split_text_once(fields[i].as_str(), "=") {
            Some((_, value)) => value,
            None => fields[i].clone(),
        };
        let v = chars_of(named.as_str());
        if v.len() > 0 && v[0] == '/' {
            proof {
                assert(starts_with_slash(field_value(all[i as int])));
            }
            return true;
        }
        i += 1;
    }
    false
}

/// Refuse config a `low` create must not be able to express.
///
/// Two checks, because a key list alone is not enough. A key can be perfectly
/// ordinary and still carry a host path in its value: `scsi0=/dev/sdb` passes a
/// host disk through under a key that must stay allowed for
/// `scsi0=local-lvm:32`.
pub fn reject_unsafe_config(config: &Vec<(String, String)>) -> (r: Option<String>)
    ensures
        text_option(r) == config_refusal(pairs(config@)),
{
    let ghost all = pairs(config@);
    let mut offending: Vec<String> = Vec::new();
    let mut pathed: Vec<String> = Vec::new();
    let mut i: usize = 0;
    proof {
        assert(all.take(0) =~= Seq::<(Seq<char>, Seq<char>)>::empty());
        assert(texts(offending@) =~= Seq::<Seq<char>>::empty());
        assert(texts(pathed@) =~= Seq::<Seq<char>>::empty());
    }
    while i < config.len()
        invariant
            i <= config@.len(),
            all == pairs(config@),
            texts(offending@) == refused_keys(all.take(i as int)),
            texts(pathed@) == host_path_keys(all.take(i as int)),
        decreases config@.len() - i,
    {
        proof {
            assert(all.take(i as int + 1).drop_last() =~= all.take(i as int));
            assert(all.take(i as int + 1).last() == (config@[i as int].0@, config@[i as int].1@));
            lemma_texts_push(offending@, config@[i as int].0);
            lemma_texts_push(pathed@, config@[i as int].0);
        }
        if is_refused_key(config[i].0.as_str()) {
            offending.push(config[i].0.clone());
        }
        if has_host_path(config[i].1.as_str()) {
            pathed.push(config[i].0.clone());
        }
        i += 1;
    }
    proof {
        assert(all.take(i as int) =~= all);
        assert(texts(offending@).len() == offending@.len());
        assert(texts(pathed@).len() == pathed@.len());
    }
    if offending.len() > 0 {
        let mut text = "config key(s) ".to_owned();
        text.append(join_texts(&offending, ", ").as_str());
        text.append(
            " are refused: they express a restore, host code execution, a host mount or device passthrough, none of which a 'low' create may do. Create the guest without them and set them from the Proxmox UI if you genuinely need them.",
        );
        return Some(text);
    }
    if pathed.len() > 0 {
        let mut text = "config key(s) ".to_owned();
        text.append(join_texts(&pathed, ", ").as_str());
        text.append(
            " carry an absolute host path. A guest disk is named 'storage:spec'; a path names the hypervisor's own filesystem, which a 'low' create must not reach.",
        );
        return Some(text);
    }
    None
}

// ---------------------------------------------------------------------------
// Authorizing a creation
// ---------------------------------------------------------------------------
/// The refusal of a creation by a token without the low tier.
pub const CREATION_NEEDS_LOW: &'static str =
    "creation requires the 'low' action tier, which this token does not carry";

/// What a creation has to pass before the cluster is asked: the low tier, a
/// vmid inside the guest scope, and one that is no protected pin.
pub open spec fn creation_admitted(
    grant: GrantView,
    policy: PolicyView,
    cluster: Seq<char>,
    vmid: u32,
) -> Result<(), Seq<char>> {
    if !grant.permits(ProxmoxAction::Low) {
        Err(CREATION_NEEDS_LOW@)
    } else if !grant.admits_number(vmid) {
        Err(
            "vmid "@ + decimal(vmid as nat)
                + " is outside this token's guest scope, so it may not be created"@,
        )
    } else if policy.vmids.contains(vmid) {
        Err(
            "vmid "@ + decimal(vmid as nat) + " is a protected pin on cluster "@ + cluster
                + " and must not be created"@,
        )
    } else {
        Ok(())
    }
}

/// What a creation has to pass once the cluster was asked for the vmid: only a
/// clean "absent" lets it proceed.
pub open spec fn creation_free(
    cluster: Seq<char>,
    vmid: u32,
    resolution: Result<GuestView, ErrorView>,
) -> Result<(), Seq<char>> {
    match resolution {
        Ok(existing) => Err(
            "vmid "@ + decimal(vmid as nat) + " already exists on cluster "@ + cluster + " as '"@
                + existing.name
                + "' -- creating cannot overwrite it. Destroy it through plan_proxmox_destroy first, or choose a free vmid."@,
        ),
        Err(ErrorView::NotFound { .. }) => Ok(()),
        Err(error) => Err(
            "could not establish whether vmid "@ + decimal(vmid as nat) + " is free on cluster "@
                + cluster + ": "@ + error.message(),
        ),
    }
}

/// Judge a creation before the cluster is asked.
pub fn admit_creation(grant: &ProxmoxGrant, config: &Cluster, cluster: &str, vmid: u32) -> (r:
    Result<(), String>)
    ensures
        unit_result(r) == creation_admitted(grant@, config@.policy, cluster@, vmid),
{
    if !grant.allows_action(ProxmoxAction::Low) {
        return Err(CREATION_NEEDS_LOW.to_owned());
    }
    // The guest scope has to admit the *destination*: there is no source guest
    // whose scope could stand in.

    if !grant.allows_new_vmid(vmid) {
        let mut text = "vmid ".to_owned();
        text.append(decimal_text(vmid as u64).as_str());
        text.append(" is outside this token's guest scope, so it may not be created");
        return Err(text);
    }
    if !creation_allowed(config, vmid) {
        let mut text = "vmid ".to_owned();
        text.append(decimal_text(vmid as u64).as_str());
        text.append(" is a protected pin on cluster ");
        text.append(cluster);
        text.append(" and must not be created");
        return Err(text);
    }
    Ok(())
}

/// Judge a creation once the cluster was asked for the vmid.
///
/// This is what makes "create" mean create: Proxmox restores a backup by
/// posting to the *same* endpoint, so an existing vmid is refused, and so is
/// one that could not be shown to be free.
pub fn check_vmid_free(
    cluster: &str,
    vmid: u32,
    resolution: &Result<ResolvedGuest, ProxmoxError>,
) -> (r: Result<(), String>)
    ensures
        unit_result(r) == creation_free(cluster@, vmid, resolved_result(*resolution)),
{
    match resolution {
        Ok(existing) => {
            let mut text = "vmid ".to_owned();
            text.append(decimal_text(vmid as u64).as_str());
            text.append(" already exists on cluster ");
            text.append(cluster);
            text.append(" as '");
            text.append(existing.name.as_str());
            text.append(
                "' -- creating cannot overwrite it. Destroy it through plan_proxmox_destroy first, or choose a free vmid.",
            );
            Err(text)
        },
        Err(ProxmoxError::NotFound { .. }) => Ok(()),
        Err(error) => {
            let mut text = "could not establish whether vmid ".to_owned();
            text.append(decimal_text(vmid as u64).as_str());
            text.append(" is free on cluster ");
            text.append(cluster);
            text.append(": ");
            text.append(error.message().as_str());
            Err(text)
        },
    }
}

/// The config a creation sends. A container is unprivileged: Proxmox reads an
/// omitted field as privileged, so silence must not select the dangerous
/// option.
pub open spec fn creation_config(kind: GuestType, config: Seq<(Seq<char>, Seq<char>)>) -> Seq<
    (Seq<char>, Seq<char>),
> {
    match kind {
        GuestType::Lxc => config.push(("unprivileged"@, "1"@)),
        GuestType::Qemu => config,
    }
}

/// The request of a creation.
pub open spec fn creation_request(
    node: Seq<char>,
    kind: GuestType,
    vmid: u32,
    config: Seq<(Seq<char>, Seq<char>)>,
) -> RequestView {
    RequestView {
        params: seq![("node"@, node), ("kind"@, kind.segment())],
        form: seq![("vmid"@, decimal(vmid as nat))] + creation_config(kind, config),
        ..bare(Method::Post, "/api2/json/nodes/{node}/{kind}"@)
    }
}

/// What a creation does: a config it must not express is refused whoever asks,
/// then the grant, the pin, and the vmid's being free.
pub open spec fn creation_call(
    kind: GuestType,
    args: CreateGuestArgs,
    grant: GrantView,
    policy: PolicyView,
    resolution: Result<GuestView, ErrorView>,
) -> Result<RequestView, Seq<char>> {
    let config = pairs(args.config@);
    match config_refusal(config) {
        Some(text) => Err(text),
        None => match creation_admitted(grant, policy, args.cluster@, args.vmid) {
            Err(error) => Err(error),
            Ok(_) => match creation_free(args.cluster@, args.vmid, resolution) {
                Err(error) => Err(error),
                Ok(_) => Ok(creation_request(args.node@, kind, args.vmid, config)),
            },
        },
    }
}

fn config_to_send(kind: GuestType, config: &Vec<(String, String)>) -> (r: Vec<(String, String)>)
    ensures
        pairs(r@) == creation_config(kind, pairs(config@)),
{
    let mut out = copy_pairs(config);
    if kind == GuestType::Lxc {
        let ghost before = out@;
        out.push(("unprivileged".to_owned(), "1".to_owned()));
        proof {
            assert(pairs(out@) =~= pairs(before).push(("unprivileged"@, "1"@)));
        }
    }
    out
}

/// Shared by `create_vm` and `create_container`, which differ only in the path
/// segment Proxmox wants.
pub fn create_guest_inner(
    kind: GuestType,
    args: &CreateGuestArgs,
    grant: &ProxmoxGrant,
    config: &Cluster,
    resolution: &Result<ResolvedGuest, ProxmoxError>,
) -> (r: Result<Request, String>)
    ensures
        request_result(r) == creation_call(
            kind,
            *args,
            grant@,
            config@.policy,
            resolved_result(*resolution),
        ),
{
    if let Some(text) = reject_unsafe_config(&args.config) {
        return Err(text);
    }
    if let Err(error) = admit_creation(grant, config, args.cluster.as_str(), args.vmid) {
        return Err(error);
    }
    if let Err(error) = check_vmid_free(args.cluster.as_str(), args.vmid, resolution) {
        return Err(error);
    }
    Ok(
        crate::guests::create_guest(
            args.node.as_str(),
            kind,
            args.vmid,
            &config_to_send(kind, &args.config),
        ),
    )
}

// ---------------------------------------------------------------------------
// Downloading images
// ---------------------------------------------------------------------------
/// The refusal of a download by a token without the low tier.
pub const DOWNLOAD_NEEDS_LOW: &'static str = "download_iso requires the 'low' action tier";

/// The refusal of a download by a token narrowed to specific guests.
pub const DOWNLOAD_NEEDS_WILDCARD: &'static str =
    "download_iso writes to storage that is not scoped to any guest, so it requires a token whose guest scope is '*'. This token is narrowed to specific guests and cannot be checked against a storage.";

/// The refusal of half a checksum.
pub const HALF_A_CHECKSUM: &'static str =
    "checksum and checksum_algorithm travel together: Proxmox ignores one without the other, so supplying a single half would report a verified download that was never verified. Give both, or neither.";

/// What a download does: the low tier, an unrestricted guest scope (a storage
/// names no guest, so no selector can narrow the call), and a checksum given
/// whole or not at all.
pub open spec fn download_call(args: DownloadIsoArgs, grant: GrantView) -> Result<
    RequestView,
    Seq<char>,
> {
    if !grant.permits(ProxmoxAction::Low) {
        Err(DOWNLOAD_NEEDS_LOW@)
    } else if !grant.unrestricted() {
        Err(DOWNLOAD_NEEDS_WILDCARD@)
    } else {
        let form = seq![
            ("content"@, args.content@),
            ("filename"@, args.filename@),
            ("url"@, args.url@),
        ];
        let request = RequestView {
            params: seq![("node"@, args.node@), ("storage"@, args.storage@)],
            ..bare(Method::Post, "/api2/json/nodes/{node}/storage/{storage}/download-url"@)
        };
        match (text_option(args.checksum_algorithm), text_option(args.checksum)) {
            (Some(algorithm), Some(value)) => Ok(
                RequestView {
                    form: form + checksum_fields(Some((algorithm, value))),
                    ..request
                },
            ),
            (None, None) => Ok(RequestView { form: form + checksum_fields(None), ..request }),
            _ => Err(HALF_A_CHECKSUM@),
        }
    }
}

/// Download an image to a node's storage.
pub fn download_iso(args: &DownloadIsoArgs, grant: &ProxmoxGrant) -> (r: Result<Request, String>)
    ensures
        request_result(r) == download_call(*args, grant@),
{
    if !grant.allows_action(ProxmoxAction::Low) {
        return Err(DOWNLOAD_NEEDS_LOW.to_owned());
    }
    if !grant.is_unrestricted_guest_scope() {
        return Err(DOWNLOAD_NEEDS_WILDCARD.to_owned());
    }
    let checksum = match (&args.checksum_algorithm, &args.checksum) {
        (Some(algorithm), Some(value)) => Some((algorithm.as_str(), value.as_str())),
        (None, None) => None,
        _ => {
            return Err(HALF_A_CHECKSUM.to_owned());
        },
    };
    Ok(
        crate::guests::download_url(
            args.node.as_str(),
            args.storage.as_str(),
            args.content.as_str(),
            args.filename.as_str(),
            args.url.as_str(),
            checksum,
        ),
    )
}

/// Whether a download is verified against a checksum: both halves are given.
pub fn checksum_verified(args: &DownloadIsoArgs) -> (r: bool)
    ensures
        r == (args.checksum_algorithm is Some && args.checksum is Some),
{
    args.checksum_algorithm.is_some() && args.checksum.is_some()
}

// ---------------------------------------------------------------------------
// Redaction
// ---------------------------------------------------------------------------
/// What stands before the first `p`, or all of `s`.
pub open spec fn before(s: Seq<char>, p: Seq<char>) -> Seq<char> {
    match split_once(s, p) {
        Some((head, _)) => head,
        None => s,
    }
}

/// A place on a host without the credentials before its `@`.
pub open spec fn place(head: Seq<char>) -> Seq<char> {
    match split_once(head, "/"@) {
        Some((authority, path)) => after_last(authority, '@') + "/"@ + path,
        None => after_last(head, '@'),
    }
}

/// Whether what stands before a `://` is a scheme. A path and a userinfo are
/// none.
pub open spec fn is_scheme(s: Seq<char>) -> bool {
    !s.contains('/') && !s.contains('@')
}

/// What introduces the host of a URL without query and fragment, and what
/// follows it: a scheme and `://`, a bare `//`, or nothing.
pub open spec fn introduction(head: Seq<char>) -> (Seq<char>, Seq<char>) {
    match split_once(head, "://"@) {
        Some((scheme, rest)) => if !is_scheme(scheme) {
            bare_introduction(head)
        } else if scheme.len() == 0 {
            (Seq::empty(), rest)
        } else {
            (scheme + "://"@, rest)
        },
        None => bare_introduction(head),
    }
}

/// What introduces the host of a URL without a scheme, and what follows it.
pub open spec fn bare_introduction(head: Seq<char>) -> (Seq<char>, Seq<char>) {
    if "//"@.is_prefix_of(head) {
        ("//"@, head.skip(2))
    } else {
        (Seq::empty(), head)
    }
}

/// What of a URL without query and fragment may stand in an audit record:
/// scheme, host and path.
pub open spec fn shown_of(head: Seq<char>) -> Seq<char> {
    introduction(head).0 + place(introduction(head).1)
}

/// What of a URL may stand in an audit record: scheme, host and path. Userinfo
/// and fragment go, and a query is only reported as having been there.
pub open spec fn redacted(url: Seq<char>) -> Seq<char> {
    let located = before(url, "#"@);
    shown_of(before(located, "?"@)) + (if split_once(located, "?"@) is Some {
        "?<redacted>"@
    } else {
        Seq::empty()
    })
}

fn introduce(head: &str) -> (r: (String, String))
    ensures
        (r.0@, r.1@) == introduction(head@),
{
    if let Some((scheme, rest)) = split_text_once(head, "://") {
        if !has_char(scheme.as_str(), '/') && !has_char(scheme.as_str(), '@') {
            if scheme.as_str().is_empty() {
                return (String::new(), rest);
            }
            let mut label = scheme;
            label.append("://");
            return (label, rest);
        }
    }
    if begins_with(head, "//") {
        let v = chars_of(head);
        proof {
            reveal_strlit("//");
            assert(v@.subrange(2, v@.len() as int) =~= head@.skip(2));
        }
        return ("//".to_owned(), text_of(&v, 2, v.len()));
    }
    (String::new(), head.to_owned())
}

/// A download URL with its credentials removed, for the audit record.
///
/// A presigned or private URL carries its authorization in the userinfo or the
/// query string. The audit log is durable and may be shipped onward, so the
/// full URL must not go into it.
pub fn redact_download_url(url: &str) -> (r: String)
    ensures
        r@ == redacted(url@),
{
    // Fragment and query go first: what they hold is no part of the address,
    // however much of it looks like one.
    let located = match split_text_once(url, "#") {
        Some((head, _)) => head,
        None => url.to_owned(),
    };
    let (head, query) = match split_text_once(located.as_str(), "?") {
        Some((head, _)) => (head, true),
        None => (located, false),
    };
    let (label, rest) = introduce(head.as_str());
    let mut shown = label;
    match split_text_once(rest.as_str(), "/") {
        Some((authority, path)) => {
            let ghost start = shown@;
            let host = text_after_last(authority.as_str(), '@');
            shown.append(host.as_str());
            shown.append("/");
            shown.append(path.as_str());
            proof {
                assert(shown@ =~= start + (host@ + "/"@ + path@));
            }
        },
        None => {
            shown.append(text_after_last(rest.as_str(), '@').as_str());
        },
    }
    let ghost bare_place = shown@;
    if query {
        shown.append("?<redacted>");
    }
    proof {
        assert(bare_place + Seq::<char>::empty() =~= bare_place);
    }
    shown
}

// ---------------------------------------------------------------------------
// What holds of every call
// ---------------------------------------------------------------------------
proof fn lemma_no_refused_keys(config: Seq<(Seq<char>, Seq<char>)>)
    ensures
        refused_keys(config).len() == 0 ==> forall|i: int|
            0 <= i < config.len() ==> !key_refused(#[trigger] config[i].0),
        host_path_keys(config).len() == 0 ==> forall|i: int|
            0 <= i < config.len() ==> !names_host_path(#[trigger] config[i].1),
    decreases config.len(),
{
    if config.len() > 0 {
        let rest = config.drop_last();
        lemma_no_refused_keys(rest);
        if refused_keys(config).len() == 0 {
            assert forall|i: int| 0 <= i < config.len() implies !key_refused(
                #[trigger] config[i].0,
            ) by {
                if i < rest.len() {
                    assert(rest[i] == config[i]);
                }
            }
        }
        if host_path_keys(config).len() == 0 {
            assert forall|i: int| 0 <= i < config.len() implies !names_host_path(
                #[trigger] config[i].1,
            ) by {
                if i < rest.len() {
                    assert(rest[i] == config[i]);
                }
            }
        }
    }
}

/// A config that is let through holds no key that leaves the guest and no
/// value that names the host's filesystem, so a low-tier create cannot become a
/// restore or run on the node.
pub proof fn law_an_accepted_config_stays_in_the_guest(config: Seq<(Seq<char>, Seq<char>)>)
    requires
        config_refusal(config) is None,
    ensures
        forall|i: int| 0 <= i < config.len() ==> !key_refused(#[trigger] config[i].0),
        forall|i: int| 0 <= i < config.len() ==> !names_host_path(#[trigger] config[i].1),
{
    lemma_no_refused_keys(config);
}

/// A creation that is let through carries the low tier, is inside the guest
/// scope, claims no protected pin, and lands on a vmid that the cluster said is
/// free.
pub proof fn law_a_creation_claims_only_what_is_free(
    kind: GuestType,
    args: CreateGuestArgs,
    grant: GrantView,
    policy: PolicyView,
    resolution: Result<GuestView, ErrorView>,
)
    requires
        creation_call(kind, args, grant, policy, resolution) is Ok,
    ensures
        grant.permits(ProxmoxAction::Low),
        grant.admits_number(args.vmid),
        !policy.vmids.contains(args.vmid),
        resolution is Err,
        resolution->Err_0 is NotFound,
        config_refusal(pairs(args.config@)) is None,
{
}

proof fn lemma_find_scheme(scheme: Seq<char>, rest: Seq<char>, i: int)
    requires
        0 <= i <= scheme.len(),
        !scheme.contains(':'),
    ensures
        find_from(scheme + "://"@ + rest, "://"@, i) == Some(scheme.len() as int),
    decreases scheme.len() - i,
{
    reveal_strlit("://");
    let s = scheme + "://"@ + rest;
    if i == scheme.len() {
        assert(s.subrange(i, i + 3) =~= "://"@);
    } else {
        assert(s.subrange(i, i + 3)[0] == scheme[i]);
        assert(scheme[i] != ':');
        assert(s.subrange(i, i + 3) != "://"@);
        lemma_find_scheme(scheme, rest, i + 1);
    }
}

proof fn lemma_after_last_at(user: Seq<char>, host: Seq<char>)
    requires
        !host.contains('@'),
    ensures
        after_last(user + seq!['@'] + host, '@') == host,
    decreases host.len(),
{
    let s = user + seq!['@'] + host;
    if host.len() == 0 {
        assert(s.last() == '@');
        assert(host =~= Seq::<char>::empty());
    } else {
        let shorter = host.drop_last();
        assert(!shorter.contains('@')) by {
            if shorter.contains('@') {
                let k = choose|k: int| 0 <= k < shorter.len() && shorter[k] == '@';
                assert(host[k] == '@');
            }
        }
        lemma_after_last_at(user, shorter);
        assert(s.drop_last() =~= user + seq!['@'] + shorter);
        assert(s.last() == host.last());
        assert(host[host.len() - 1] != '@');
        let head = split(s.drop_last(), '@');
        lemma_split_nonempty(s.drop_last(), '@');
        assert(split(s, '@').last() == head.last().push(s.last()));
        assert(host =~= shorter.push(host.last()));
    }
}

/// What is recorded of the query or fragment a URL ends in: that there was a
/// query, and nothing of a fragment.
pub open spec fn tail_mark(tail: Seq<char>) -> Seq<char> {
    if tail.len() > 0 && tail[0] == '?' {
        "?<redacted>"@
    } else {
        Seq::empty()
    }
}

/// Whether a text is what may follow the path of a URL: nothing, a query with
/// or without a fragment, or a fragment.
pub open spec fn is_tail(tail: Seq<char>) -> bool {
    tail.len() > 0 ==> tail[0] == '?' || tail[0] == '#'
}

proof fn lemma_before_fragment(head: Seq<char>, query: Seq<char>)
    requires
        !head.contains('#'),
    ensures
        before(head + seq!['?'] + query, seq!['#']) == head + seq!['?'] + before(query, seq!['#']),
{
    let asked = head + seq!['?'];
    assert(!asked.contains('#')) by {
        if asked.contains('#') {
            let k = choose|k: int| 0 <= k < asked.len() && asked[k] == '#';
            assert(head[k] == '#');
        }
    }
    lemma_find_from(query, seq!['#'], 0);
    match find_from(query, seq!['#'], 0) {
        Some(k) => {
            let kept = query.take(k);
            let gone = query.skip(k + 1);
            assert(query.subrange(k, k + 1)[0] == '#');
            assert(query =~= kept + seq!['#'] + gone);
            assert(!(asked + kept).contains('#')) by {
                if (asked + kept).contains('#') {
                    let j = choose|j: int|
                        0 <= j < (asked + kept).len() && (asked + kept)[j] == '#';
                    if j < asked.len() {
                        assert(asked[j] == '#');
                    } else {
                        let at = j - asked.len();
                        assert(query.subrange(at, at + 1) =~= seq!['#']);
                        assert(occurs_at(query, seq!['#'], at));
                    }
                }
            }
            assert(asked + query =~= (asked + kept) + seq!['#'] + gone);
            lemma_split_at_first(asked + kept, '#', gone);
        },
        None => {
            assert(!(asked + query).contains('#')) by {
                if (asked + query).contains('#') {
                    let j = choose|j: int|
                        0 <= j < (asked + query).len() && (asked + query)[j] == '#';
                    if j < asked.len() {
                        assert(asked[j] == '#');
                    } else {
                        let at = j - asked.len();
                        assert(query.subrange(at, at + 1) =~= seq!['#']);
                        assert(occurs_at(query, seq!['#'], at));
                    }
                }
            }
            lemma_not_split(asked + query, '#');
        },
    }
}

/// Nothing of a query or a fragment reaches the audit record, whatever they
/// hold: of a URL that ends in one, what is recorded is what is recorded
/// without it, and that there was a query where there was one.
pub proof fn law_redaction_drops_query_and_fragment(head: Seq<char>, tail: Seq<char>)
    requires
        !head.contains('?') && !head.contains('#'),
        is_tail(tail),
    ensures
        redacted(head) == shown_of(head),
        redacted(head + tail) == redacted(head) + tail_mark(tail),
{
    reveal_strlit("#");
    reveal_strlit("?");
    assert("#"@ =~= seq!['#']);
    assert("?"@ =~= seq!['?']);
    lemma_not_split(head, '#');
    lemma_not_split(head, '?');
    assert(shown_of(head) + Seq::<char>::empty() =~= shown_of(head));
    if tail.len() == 0 {
        assert(head + tail =~= head);
    } else {
        let inner = tail.skip(1);
        assert(head + tail =~= head + seq![tail[0]] + inner);
        if tail[0] == '#' {
            lemma_split_at_first(head, '#', inner);
        } else {
            lemma_before_fragment(head, inner);
            lemma_split_at_first(head, '?', before(inner, seq!['#']));
        }
    }
}

proof fn lemma_place_without_userinfo(user: Seq<char>, host: Seq<char>, path: Seq<char>)
    requires
        !user.contains('/'),
        !host.contains('/') && !host.contains('@'),
        path.len() > 0 ==> path[0] == '/',
    ensures
        place(user + seq!['@'] + host + path) == host + path,
{
    reveal_strlit("/");
    assert("/"@ =~= seq!['/']);
    let authority = user + seq!['@'] + host;
    assert(!authority.contains('/')) by {
        if authority.contains('/') {
            let k = choose|k: int| 0 <= k < authority.len() && authority[k] == '/';
            if k < user.len() {
                assert(user[k] == '/');
            } else if k > user.len() {
                assert(host[k - user.len() - 1] == '/');
            }
        }
    }
    lemma_after_last_at(user, host);
    if path.len() == 0 {
        assert(authority + path =~= authority);
        lemma_not_split(authority, '/');
        assert(host + path =~= host);
    } else {
        let inner = path.skip(1);
        assert(authority + path =~= authority + seq!['/'] + inner);
        lemma_split_at_first(authority, '/', inner);
        assert(host + "/"@ + inner =~= host + path);
    }
}

proof fn lemma_no_scheme_behind(head: Seq<char>, i: int)
    requires
        0 <= i < head.len(),
        head[i] == '@' || (i == 0 && head[i] == '/'),
        forall|j: int| 0 <= j < i ==> head[j] != '/',
    ensures
        introduction(head) == bare_introduction(head),
{
    reveal_strlit("://");
    lemma_find_from(head, "://"@, 0);
    match find_from(head, "://"@, 0) {
        Some(k) => {
            let found = head.subrange(k, k + 3);
            assert(found[0] == ':' && found[1] == '/' && found[2] == '/');
            assert(head[k] == ':' && head[k + 1] == '/');
            assert(k > i);
            assert(head.take(k)[i] == head[i]);
        },
        None => {},
    }
}

/// The userinfo of a download URL does not reach the audit record, whether a
/// scheme, a bare `//` or nothing stands before it and whether a query or a
/// fragment comes after: what is recorded is the host and the path, whatever
/// the userinfo was.
pub proof fn law_redaction_drops_credentials(
    scheme: Seq<char>,
    user: Seq<char>,
    host: Seq<char>,
    path: Seq<char>,
    tail: Seq<char>,
)
    requires
        scheme.len() > 0 && is_scheme(scheme),
        !scheme.contains(':') && !scheme.contains('?') && !scheme.contains('#'),
        !user.contains('/') && !user.contains('?') && !user.contains('#'),
        !host.contains('/') && !host.contains('?') && !host.contains('#') && !host.contains('@'),
        path.len() > 0 ==> path[0] == '/',
        !path.contains('?') && !path.contains('#'),
        is_tail(tail),
    ensures
        redacted(scheme + "://"@ + (user + seq!['@'] + host + path) + tail) == scheme + "://"@ + (
        host + path) + tail_mark(tail),
        redacted("//"@ + (user + seq!['@'] + host + path) + tail) == "//"@ + (host + path)
            + tail_mark(tail),
        redacted((user + seq!['@'] + host + path) + tail) == (host + path) + tail_mark(tail),
{
    reveal_strlit("://");
    reveal_strlit("//");
    let place_text = user + seq!['@'] + host + path;
    lemma_place_without_userinfo(user, host, path);
    assert forall|c: char| c == '?' || c == '#' implies !(#[trigger] place_text.contains(c)) by {
        if place_text.contains(c) {
            let k = choose|k: int| 0 <= k < place_text.len() && place_text[k] == c;
            let a = user.len();
            let b = a + 1 + host.len();
            if k < a {
                assert(user[k] == c);
            } else if k > a && k < b {
                assert(host[k - a - 1] == c);
            } else if k >= b {
                assert(path[k - b] == c);
            }
        }
    }
    // With a scheme.
    let full = scheme + "://"@ + place_text;
    assert forall|c: char| c == '?' || c == '#' implies !(#[trigger] full.contains(c)) by {
        if full.contains(c) {
            let k = choose|k: int| 0 <= k < full.len() && full[k] == c;
            if k < scheme.len() {
                assert(scheme[k] == c);
            } else if k >= scheme.len() + 3 {
                assert(place_text[k - scheme.len() - 3] == c);
            }
        }
    }
    lemma_find_scheme(scheme, place_text, 0);
    assert(full.take(scheme.len() as int) =~= scheme);
    assert(full.skip(scheme.len() as int + 3) =~= place_text);
    law_redaction_drops_query_and_fragment(full, tail);
    // With a bare `//`.
    let slashed = "//"@ + place_text;
    assert forall|c: char| c == '?' || c == '#' implies !(#[trigger] slashed.contains(c)) by {
        if slashed.contains(c) {
            let k = choose|k: int| 0 <= k < slashed.len() && slashed[k] == c;
            if k >= 2 {
                assert(place_text[k - 2] == c);
            }
        }
    }
    lemma_no_scheme_behind(slashed, 0);
    assert("//"@.is_prefix_of(slashed));
    assert(slashed.skip(2) =~= place_text);
    law_redaction_drops_query_and_fragment(slashed, tail);
    // With nothing before it.
    assert forall|j: int| 0 <= j < user.len() implies place_text[j] != '/' by {
        assert(user[j] == place_text[j]);
    }
    assert(place_text[user.len() as int] == '@');
    lemma_no_scheme_behind(place_text, user.len() as int);
    assert(!"//"@.is_prefix_of(place_text)) by {
        if "//"@.is_prefix_of(place_text) {
            assert("//"@[0] == place_text[0]);
        }
    }
    assert(Seq::<char>::empty() + (host + path) =~= host + path);
    law_redaction_drops_query_and_fragment(place_text, tail);
}

/// A download that is let through is one POST to the storage the caller named,
/// on the node the caller named, and carries the caller's own values under
/// their names: one `url`, one `filename`, one `content`, and the checksum with
/// its algorithm where both were given. Only a token of the low tier with an
/// unrestricted scope gets that far, and half a checksum does not.
pub proof fn law_a_download_carries_the_callers_values(args: DownloadIsoArgs, grant: GrantView)
    ensures
        download_call(args, grant) is Ok <==> grant.permits(ProxmoxAction::Low)
            && grant.guests.contains("*"@) && (args.checksum is Some
            == args.checksum_algorithm is Some),
        download_call(args, grant) matches Ok(request) ==> {
            &&& request.method == Method::Post
            &&& request.path_template
                == "/api2/json/nodes/{node}/storage/{storage}/download-url"@
            &&& carries(request.params, "node"@, args.node@)
            &&& carries(request.params, "storage"@, args.storage@)
            &&& request.query.len() == 0
            &&& carries(request.form, "url"@, args.url@)
            &&& carries(request.form, "filename"@, args.filename@)
            &&& carries(request.form, "content"@, args.content@)
            &&& carries_option(request.form, "checksum"@, text_option(args.checksum))
            &&& carries_option(
                request.form,
                "checksum-algorithm"@,
                text_option(args.checksum_algorithm),
            )
        },
{
    reveal_strlit("node");
    reveal_strlit("storage");
    reveal_strlit("url");
    reveal_strlit("filename");
    reveal_strlit("content");
    reveal_strlit("checksum");
    reveal_strlit("checksum-algorithm");
    if let Ok(request) = download_call(args, grant) {
        let form = request.form;
        assert("node"@.len() == 4 && "storage"@.len() == 7);
        assert("url"@.len() == 3 && "content"@.len() == 7 && "checksum-algorithm"@.len() == 18);
        assert("filename"@.len() == 8 && "filename"@[0] == 'f');
        assert("checksum"@.len() == 8 && "checksum"@[0] == 'c');
        assert(sole_at(request.params, 0, "node"@, args.node@));
        assert(sole_at(request.params, 1, "storage"@, args.storage@));
        assert(sole_at(form, 0, "content"@, args.content@));
        assert(sole_at(form, 1, "filename"@, args.filename@));
        assert(sole_at(form, 2, "url"@, args.url@));
        if args.checksum is Some {
            assert(sole_at(form, 3, "checksum-algorithm"@, args.checksum_algorithm->0@));
            assert(sole_at(form, 4, "checksum"@, args.checksum->0@));
        }
    }
}

proof fn lemma_unprivileged_is_lower()
    ensures
        lower("unprivileged"@) == "unprivileged"@,
{
    reveal_strlit("unprivileged");
    assert(lower("unprivileged"@) =~= "unprivileged"@);
}

/// A creation that is let through is one POST to the node and guest type asked
/// for. It names the vmid first, then sends the caller's config as given, field
/// by field; a container is unprivileged, and no field of the caller's says
/// otherwise.
pub proof fn law_a_creation_sends_the_config_as_given(
    kind: GuestType,
    args: CreateGuestArgs,
    grant: GrantView,
    policy: PolicyView,
    resolution: Result<GuestView, ErrorView>,
)
    requires
        creation_call(kind, args, grant, policy, resolution) is Ok,
    ensures
        ({
            let request = creation_call(kind, args, grant, policy, resolution)->Ok_0;
            let config = pairs(args.config@);
            &&& request.method == Method::Post
            &&& request.path_template == "/api2/json/nodes/{node}/{kind}"@
            &&& carries(request.params, "node"@, args.node@)
            &&& kind == GuestType::Qemu ==> carries(request.params, "kind"@, "qemu"@)
            &&& kind == GuestType::Lxc ==> carries(request.params, "kind"@, "lxc"@)
            &&& request.query.len() == 0
            &&& request.form[0] == ("vmid"@, decimal(args.vmid as nat))
            &&& forall|i: int|
                0 <= i < config.len() ==> request.form[i + 1] == #[trigger] config[i]
            &&& kind == GuestType::Qemu ==> request.form.len() == config.len() + 1
            &&& kind == GuestType::Lxc ==> request.form.len() == config.len() + 2
            &&& kind == GuestType::Lxc ==> carries(request.form, "unprivileged"@, "1"@)
        }),
{
    reveal_strlit("node");
    reveal_strlit("kind");
    reveal_strlit("vmid");
    reveal_strlit("unprivileged");
    let request = creation_call(kind, args, grant, policy, resolution)->Ok_0;
    let config = pairs(args.config@);
    assert("node"@[0] != "kind"@[0]);
    assert(sole_at(request.params, 0, "node"@, args.node@));
    assert(sole_at(request.params, 1, "kind"@, kind.segment()));
    if kind == GuestType::Lxc {
        lemma_no_refused_keys(config);
        lemma_unprivileged_is_lower();
        assert(REFUSED_CONFIG_KEYS@[5]@ == "unprivileged"@);
        let last = config.len() as int + 1;
        assert forall|j: int| 0 <= j < request.form.len() && j != last implies (
        #[trigger] request.form[j]).0 != "unprivileged"@ by {
            if j > 0 {
                assert(request.form[j] == config[j - 1]);
                assert(!key_refused(config[j - 1].0));
            }
        }
        assert(sole_at(request.form, last, "unprivileged"@, "1"@));
    }
}

/// The keys that leave the guest, whatever the case of their letters: those
/// that turn a creation into a restore, run code on the node, or make a
/// container privileged; host mounts and devices passed through, with their
/// number; and the raw namespace of containers. No other key is refused.
pub proof fn law_which_keys_leave_the_guest(key: Seq<char>)
    ensures
        key_refused(key) <==> {
            let k = lower(key);
            ||| k == "archive"@ || k == "restore"@ || k == "force"@ || k == "hookscript"@
            ||| k == "args"@ || k == "unprivileged"@ || k == "cicustom"@
            ||| numbered("mp"@, k) || numbered("hostpci"@, k) || numbered("usb"@, k)
            ||| numbered("dev"@, k) || numbered("serial"@, k) || numbered("parallel"@, k)
            ||| "lxc."@.is_prefix_of(k)
        },
{
    reveal_strlit("mp");
    reveal_strlit("hostpci");
    reveal_strlit("usb");
    reveal_strlit("dev");
    reveal_strlit("serial");
    reveal_strlit("parallel");
    reveal_strlit("lxc.");
    assert("lxc."@.last() == '.');
    assert("mp"@.last() == 'p');
    assert("hostpci"@.last() == 'i');
    assert("usb"@.last() == 'b');
    assert("dev"@.last() == 'v');
    assert("serial"@.last() == 'l');
    assert("parallel"@.last() == 'l');
    let t = REFUSED_CONFIG_KEYS@;
    let p = REFUSED_CONFIG_PREFIXES@;
    let k = lower(key);
    assert(t[0]@ == "archive"@);
    assert(t[1]@ == "restore"@);
    assert(t[2]@ == "force"@);
    assert(t[3]@ == "hookscript"@);
    assert(t[4]@ == "args"@);
    assert(t[5]@ == "unprivileged"@);
    assert(t[6]@ == "cicustom"@);
    assert(p[0]@ == "mp"@);
    assert(p[1]@ == "hostpci"@);
    assert(p[2]@ == "usb"@);
    assert(p[3]@ == "dev"@);
    assert(p[4]@ == "serial"@);
    assert(p[5]@ == "parallel"@);
    assert(p[6]@ == "lxc."@);
    if listed(t, k) {
        let i = choose|i: int| 0 <= i < t.len() && #[trigger] t[i]@ == k;
        assert(i == 0 || i == 1 || i == 2 || i == 3 || i == 4 || i == 5 || i == 6);
    }
    if some_prefix_refuses(k) {
        let i = choose|i: int| 0 <= i < p.len() && prefix_refuses(#[trigger] p[i]@, k);
        assert(i == 0 || i == 1 || i == 2 || i == 3 || i == 4 || i == 5 || i == 6);
    }
    if numbered("mp"@, k) {
        assert(prefix_refuses(p[0]@, k));
    }
    if numbered("hostpci"@, k) {
        assert(prefix_refuses(p[1]@, k));
    }
    if numbered("usb"@, k) {
        assert(prefix_refuses(p[2]@, k));
    }
    if numbered("dev"@, k) {
        assert(prefix_refuses(p[3]@, k));
    }
    if numbered("serial"@, k) {
        assert(prefix_refuses(p[4]@, k));
    }
    if numbered("parallel"@, k) {
        assert(prefix_refuses(p[5]@, k));
    }
    if "lxc."@.is_prefix_of(k) {
        assert(prefix_refuses(p[6]@, k));
    }
}

/// Whether a key is a name and one or more digits.
pub open spec fn numbered(name: Seq<char>, key: Seq<char>) -> bool {
    &&& name.is_prefix_of(key)
    &&& key.len() > name.len()
    &&& forall|i: int| name.len() <= i < key.len() ==> '0' <= #[trigger] key[i] <= '9'
}

proof fn lemma_piece_names_host(value: Seq<char>, i: int)
    requires
        0 <= i < split(value, ',').len(),
        starts_with_slash(field_value(split(value, ',')[i])),
    ensures
        names_host_path(value),
{
}

/// An absolute path is found wherever it stands in a value: alone, behind the
/// name of a field, and in any of the fields that commas part. A value without
/// a slash names none.
pub proof fn law_a_host_path_is_found_wherever_it_stands(
    before: Seq<char>,
    name: Seq<char>,
    path: Seq<char>,
    after: Seq<char>,
)
    requires
        path.len() > 0 && path[0] == '/',
        !path.contains(',') && !path.contains('='),
        !name.contains(',') && !name.contains('='),
        after.len() > 0 ==> after[0] == ',',
        !before.contains('/'),
    ensures
        names_host_path(path + after),
        names_host_path(name + seq!['='] + path + after),
        names_host_path(before + seq![','] + path + after),
        names_host_path(before + seq![','] + (name + seq!['='] + path) + after),
        !names_host_path(before),
{
    reveal_strlit("=");
    assert("="@ =~= seq!['=']);
    let named = name + seq!['='] + path;
    lemma_not_split(path, '=');
    lemma_split_at_first(name, '=', path);
    assert(starts_with_slash(field_value(path)));
    assert(starts_with_slash(field_value(named)));
    assert(!named.contains(',')) by {
        if named.contains(',') {
            let k = choose|k: int| 0 <= k < named.len() && named[k] == ',';
            if k < name.len() {
                assert(name[k] == ',');
            } else if k > name.len() {
                assert(path[k - name.len() - 1] == ',');
            }
        }
    }
    lemma_field_is_a_piece(path, after);
    lemma_field_is_a_piece(named, after);
    lemma_piece_names_host(path + after, 0);
    lemma_piece_names_host(named + after, 0);
    lemma_split_in_two(before, ',', path + after);
    lemma_split_in_two(before, ',', named + after);
    lemma_together(before + seq![','], path, after);
    lemma_together(before + seq![','], named, after);
    let at = split(before, ',').len() as int;
    lemma_piece_names_host(before + seq![','] + (path + after), at);
    lemma_piece_names_host(before + seq![','] + (named + after), at);
    if names_host_path(before) {
        let pieces = split(before, ',');
        let i = choose|i: int|
            0 <= i < pieces.len() && starts_with_slash(field_value(#[trigger] pieces[i]));
        let piece = pieces[i];
        let value = field_value(piece);
        lemma_find_from(piece, "="@, 0);
        assert(value[0] == '/');
        assert(piece.contains('/')) by {
            match find_from(piece, "="@, 0) {
                Some(k) => {
                    assert(value == piece.skip(k + 1));
                    assert(piece[k + 1] == '/');
                },
                None => {
                    assert(piece[0] == '/');
                },
            }
        }
        lemma_pieces_are_of_the_text(before, ',', i, '/');
    }
}

proof fn lemma_field_is_a_piece(field: Seq<char>, after: Seq<char>)
    requires
        !field.contains(','),
        after.len() > 0 ==> after[0] == ',',
    ensures
        split(field + after, ',').len() > 0,
        split(field + after, ',')[0] == field,
{
    lemma_split_single(field, ',');
    if after.len() == 0 {
        assert(field + after =~= field);
    } else {
        lemma_split_in_two(field, ',', after.skip(1));
        assert(field + seq![','] + after.skip(1) =~= field + after);
    }
}

proof fn lemma_pieces_are_of_the_text(s: Seq<char>, c: char, i: int, x: char)
    requires
        0 <= i < split(s, c).len(),
        split(s, c)[i].contains(x),
    ensures
        s.contains(x),
    decreases s.len(),
{
    if s.len() > 0 {
        let front = s.drop_last();
        let pieces = split(front, c);
        let now = split(s, c);
        lemma_split_nonempty(front, c);
        let k = choose|k: int| 0 <= k < now[i].len() && now[i][k] == x;
        if i < pieces.len() && k < pieces[i].len() {
            assert(pieces[i][k] == x);
            lemma_pieces_are_of_the_text(front, c, i, x);
            let j = choose|j: int| 0 <= j < front.len() && front[j] == x;
            assert(s[j] == x);
        } else {
            assert(s[s.len() - 1] == x);
        }
    }
}

/// A creation is let through exactly when its config stays in the guest, the
/// token carries the low tier and reaches the vmid, the vmid is no pin, and the
/// cluster said that it is free.
pub proof fn law_when_a_creation_is_let_through(
    kind: GuestType,
    args: CreateGuestArgs,
    grant: GrantView,
    policy: PolicyView,
    resolution: Result<GuestView, ErrorView>,
)
    ensures
        creation_call(kind, args, grant, policy, resolution) is Ok <==> {
            let config = pairs(args.config@);
            &&& forall|i: int| 0 <= i < config.len() ==> !key_refused(#[trigger] config[i].0)
            &&& forall|i: int| 0 <= i < config.len() ==> !names_host_path(#[trigger] config[i].1)
            &&& grant.permits(ProxmoxAction::Low)
            &&& grant.admits_number(args.vmid)
            &&& !policy.vmids.contains(args.vmid)
            &&& resolution is Err && resolution->Err_0 is NotFound
        },
{
    let config = pairs(args.config@);
    lemma_no_refused_keys(config);
    if forall|i: int| 0 <= i < config.len() ==> !key_refused(#[trigger] config[i].0) {
        lemma_nothing_refused(config);
    }
    if forall|i: int| 0 <= i < config.len() ==> !names_host_path(#[trigger] config[i].1) {
        lemma_no_host_path(config);
    }
}

proof fn lemma_nothing_refused(config: Seq<(Seq<char>, Seq<char>)>)
    requires
        forall|i: int| 0 <= i < config.len() ==> !key_refused(#[trigger] config[i].0),
    ensures
        refused_keys(config).len() == 0,
    decreases config.len(),
{
    if config.len() > 0 {
        let rest = config.drop_last();
        assert forall|i: int| 0 <= i < rest.len() implies !key_refused(#[trigger] rest[i].0) by {
            assert(rest[i] == config[i]);
        }
        lemma_nothing_refused(rest);
        assert(!key_refused(config[config.len() - 1].0));
    }
}

proof fn lemma_no_host_path(config: Seq<(Seq<char>, Seq<char>)>)
    requires
        forall|i: int| 0 <= i < config.len() ==> !names_host_path(#[trigger] config[i].1),
    ensures
        host_path_keys(config).len() == 0,
    decreases config.len(),
{
    if config.len() > 0 {
        let rest = config.drop_last();
        assert forall|i: int| 0 <= i < rest.len() implies !names_host_path(
            #[trigger] rest[i].1,
        ) by {
            assert(rest[i] == config[i]);
        }
        lemma_no_host_path(rest);
        assert(!names_host_path(config[config.len() - 1].1));
    }
}

proof fn lemma_refused_keys_are_named(config: Seq<(Seq<char>, Seq<char>)>, i: int)
    requires
        0 <= i < config.len(),
    ensures
        key_refused(config[i].0) ==> refused_keys(config).contains(config[i].0),
        names_host_path(config[i].1) ==> host_path_keys(config).contains(config[i].0),
    decreases config.len(),
{
    let rest = config.drop_last();
    if i < rest.len() {
        lemma_refused_keys_are_named(rest, i);
        assert(rest[i] == config[i]);
        if key_refused(config[i].0) {
            let keys = refused_keys(rest);
            let k = choose|k: int| 0 <= k < keys.len() && keys[k] == config[i].0;
            assert(refused_keys(config)[k] == config[i].0);
        }
        if names_host_path(config[i].1) {
            let keys = host_path_keys(rest);
            let k = choose|k: int| 0 <= k < keys.len() && keys[k] == config[i].0;
            assert(host_path_keys(config)[k] == config[i].0);
        }
    } else {
        if key_refused(config[i].0) {
            assert(refused_keys(config).last() == config[i].0);
        }
        if names_host_path(config[i].1) {
            assert(host_path_keys(config).last() == config[i].0);
        }
    }
}

/// A refused config is told which of its keys are refused, every one of them;
/// and where none is, every key whose value names a host path.
pub proof fn law_a_refused_config_is_told_why(config: Seq<(Seq<char>, Seq<char>)>, i: int)
    requires
        0 <= i < config.len(),
    ensures
        key_refused(config[i].0) ==> config_refusal(config) is Some && has_text(
            config_refusal(config)->0,
            config[i].0,
        ),
        names_host_path(config[i].1) ==> config_refusal(config) is Some,
        names_host_path(config[i].1) && refused_keys(config).len() == 0 ==> has_text(
            config_refusal(config)->0,
            config[i].0,
        ),
{
    lemma_refused_keys_are_named(config, i);
    if key_refused(config[i].0) {
        let keys = refused_keys(config);
        let k = choose|k: int| 0 <= k < keys.len() && keys[k] == config[i].0;
        lemma_join_has_parts(keys, ", "@, k);
        lemma_has_middle(
            "config key(s) "@,
            join(keys, ", "@),
            " are refused: they express a restore, host code execution, a host mount or device passthrough, none of which a 'low' create may do. Create the guest without them and set them from the Proxmox UI if you genuinely need them."@,
        );
        lemma_has_inner(config_refusal(config)->0, join(keys, ", "@), config[i].0);
    } else if names_host_path(config[i].1) && refused_keys(config).len() == 0 {
        let keys = host_path_keys(config);
        let k = choose|k: int| 0 <= k < keys.len() && keys[k] == config[i].0;
        lemma_join_has_parts(keys, ", "@, k);
        lemma_has_middle(
            "config key(s) "@,
            join(keys, ", "@),
            " carry an absolute host path. A guest disk is named 'storage:spec'; a path names the hypervisor's own filesystem, which a 'low' create must not reach."@,
        );
        lemma_has_inner(config_refusal(config)->0, join(keys, ", "@), config[i].0);
    }
}

/// A URL that holds no secret is recorded as it is: scheme, host and path.
pub proof fn law_redaction_keeps_the_address(scheme: Seq<char>, host: Seq<char>, path: Seq<char>)
    requires
        scheme.len() > 0 && !scheme.contains(':') && !scheme.contains('/') && !scheme.contains('@'),
        !scheme.contains('?') && !scheme.contains('#'),
        !host.contains('/') && !host.contains('?') && !host.contains('#') && !host.contains('@'),
        path.len() > 0 ==> path[0] == '/',
        !path.contains('?') && !path.contains('#'),
    ensures
        redacted(scheme + "://"@ + (host + path)) == scheme + "://"@ + (host + path),
{
    reveal_strlit("://");
    reveal_strlit("/");
    assert("/"@ =~= seq!['/']);
    let rest = host + path;
    let url = scheme + "://"@ + rest;
    assert forall|c: char| c == '?' || c == '#' implies !(#[trigger] url.contains(c)) by {
        if url.contains(c) {
            let k = choose|k: int| 0 <= k < url.len() && url[k] == c;
            let a = scheme.len() as int;
            let b = a + 3 + host.len();
            if k < a {
                assert(scheme[k] == c);
            } else if k >= a + 3 {
                assert(url[k] == rest[k - a - 3]);
                if k < b {
                    assert(host[k - a - 3] == c);
                } else {
                    assert(path[k - b] == c);
                }
            }
        }
    }
    let none = Seq::<char>::empty();
    law_redaction_drops_query_and_fragment(url, none);
    lemma_find_scheme(scheme, rest, 0);
    assert(url.take(scheme.len() as int) =~= scheme);
    assert(url.skip(scheme.len() as int + 3) =~= rest);
    lemma_split_single(host, '@');
    if path.len() > 0 {
        lemma_split_at_first(host, '/', path.skip(1));
        assert(host + seq!['/'] + path.skip(1) =~= rest);
        assert(place(rest) =~= rest);
    } else {
        assert(rest =~= host);
        lemma_not_split(host, '/');
        assert(place(rest) == host);
    }
}

/// A creation that is not let through is told the vmid, and the cluster where
/// the cluster is why.
pub proof fn law_a_refused_creation_names_its_vmid(
    grant: GrantView,
    policy: PolicyView,
    cluster: Seq<char>,
    vmid: u32,
    resolution: Result<GuestView, ErrorView>,
)
    ensures
        creation_admitted(grant, policy, cluster, vmid) is Ok <==> grant.permits(ProxmoxAction::Low)
            && grant.admits_number(vmid) && !policy.vmids.contains(vmid),
        creation_admitted(grant, policy, cluster, vmid) matches Err(text) ==> text
            == CREATION_NEEDS_LOW@ || has_text(text, "vmid "@ + decimal(vmid as nat)),
        creation_free(cluster, vmid, resolution) is Ok <==> resolution is Err
            && resolution->Err_0 is NotFound,
        resolution matches Ok(existing) ==> has_text(
            creation_free(cluster, vmid, resolution)->Err_0,
            existing.name,
        ),
        resolution matches Err(error) ==> error is NotFound || has_text(
            creation_free(cluster, vmid, resolution)->Err_0,
            error.message(),
        ),
{
    let none = Seq::<char>::empty();
    let named = "vmid "@ + decimal(vmid as nat);
    assert(none + named =~= named);
    lemma_has_middle(
        none,
        named,
        " is outside this token's guest scope, so it may not be created"@,
    );
    let pin = " is a protected pin on cluster "@;
    lemma_together(named, pin, cluster);
    lemma_together(named, pin + cluster, " and must not be created"@);
    lemma_has_middle(none, named, pin + cluster + " and must not be created"@);
    match resolution {
        Ok(existing) => {
            lemma_has_middle(
                named + " already exists on cluster "@ + cluster + " as '"@,
                existing.name,
                "' -- creating cannot overwrite it. Destroy it through plan_proxmox_destroy first, or choose a free vmid."@,
            );
        },
        Err(error) => {
            lemma_has_end(
                "could not establish whether vmid "@ + decimal(vmid as nat)
                    + " is free on cluster "@ + cluster + ": "@,
                error.message(),
            );
        },
    }
}

proof fn lemma_value_after_equals(piece: Seq<char>)
    requires
        starts_with_slash(field_value(piece)),
    ensures
        piece[0] == '/' || exists|k: int|
            0 <= k < piece.len() - 1 && #[trigger] piece[k] == '=' && piece[k + 1] == '/',
        piece.len() > 0,
{
    reveal_strlit("=");
    assert("="@ =~= seq!['=']);
    lemma_find_from(piece, "="@, 0);
    if let Some(k) = find_from(piece, "="@, 0) {
        assert(piece.subrange(k, k + 1)[0] == piece[k]);
        assert(piece[k] == '=');
        assert(piece.skip(k + 1)[0] == piece[k + 1]);
    }
}

/// No other value is taken for a host path: one is refused only where one of
/// the fields that commas part begins with a slash, or has one right behind an
/// equals sign. A volume of a storage may hold as many slashes as it likes.
pub proof fn law_nothing_else_is_taken_for_a_host_path(value: Seq<char>)
    requires
        names_host_path(value),
    ensures
        exists|i: int|
            {
                &&& 0 <= i < split(value, ',').len()
                &&& (#[trigger] split(value, ',')[i]).len() > 0
                &&& split(value, ',')[i][0] == '/' || exists|k: int|
                    0 <= k < split(value, ',')[i].len() - 1 && #[trigger] split(value, ',')[i][k]
                        == '=' && split(value, ',')[i][k + 1] == '/'
            },
{
    let i = choose|i: int|
        0 <= i < split(value, ',').len() && starts_with_slash(
            field_value(#[trigger] split(value, ',')[i]),
        );
    lemma_value_after_equals(split(value, ',')[i]);
}

/// What a creation must not express is refused whoever asks, before the token
/// and the cluster are looked at; and what the token does not reach is refused
/// before the cluster's word on the vmid.
pub proof fn law_a_creation_is_judged_in_order(
    kind: GuestType,
    args: CreateGuestArgs,
    grant: GrantView,
    policy: PolicyView,
    resolution: Result<GuestView, ErrorView>,
)
    ensures
        config_refusal(pairs(args.config@)) matches Some(text) ==> creation_call(
            kind,
            args,
            grant,
            policy,
            resolution,
        ) == Err::<RequestView, Seq<char>>(text),
        config_refusal(pairs(args.config@)) is None && !grant.permits(ProxmoxAction::Low)
            ==> creation_call(kind, args, grant, policy, resolution) == Err::<
            RequestView,
            Seq<char>,
        >(CREATION_NEEDS_LOW@),
{
}

/// A download is refused for the first of its faults: a token without the low
/// tier, one narrowed to guests, or half a checksum.
pub proof fn law_a_download_is_refused_for_its_first_fault(args: DownloadIsoArgs, grant: GrantView)
    ensures
        !grant.permits(ProxmoxAction::Low) ==> download_call(args, grant) == Err::<
            RequestView,
            Seq<char>,
        >(DOWNLOAD_NEEDS_LOW@),
        grant.permits(ProxmoxAction::Low) && !grant.guests.contains("*"@) ==> download_call(
            args,
            grant,
        ) == Err::<RequestView, Seq<char>>(DOWNLOAD_NEEDS_WILDCARD@),
        grant.permits(ProxmoxAction::Low) && grant.guests.contains("*"@) && args.checksum is Some
            != args.checksum_algorithm is Some ==> download_call(args, grant) == Err::<
            RequestView,
            Seq<char>,
        >(HALF_A_CHECKSUM@),
{
}

} // verus!
