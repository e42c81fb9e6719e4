//! Guest operations: the request each one sends, and what its answer means.
//!
//! These are the primitives. They perform no authorization: callers reach them
//! only with an [`crate::authorized::AuthorizedGuest`] at hand, and destructive
//! ones only through an approved change set.
use vstd::prelude::*;
use vstd::string::*;

use crate::client::{percent_encode, percent_encoded, text_result, Method, Request, RequestView};
use crate::error::{ErrorView, ProxmoxError};
use crate::json::{
    bool_member, data_value, find_bool, find_integer, find_text, integer_member, read_data,
    text_member, JsonShape, JsonView,
};
use crate::resolve::unsigned;
use crate::selector::GuestType;
use crate::task::{upid_of, Upid};
use crate::text::{
    carries, chars_of, control_char, decimal, decimal_text, has_text, includes_text, is_control,
    is_digit, is_trimmed, join, join_texts, law_joining_undoes_splitting,
    law_trimming_takes_off_the_edges, lemma_decimal_digits, lemma_split_pieces, pairs, same_text,
    sole_at, split, split_text, text_option, texts, trim, trim_text,
};

verus! {

/// A guest lifecycle verb that Proxmox exposes under `status/`.
///
/// The set is closed: a verb this enum does not name cannot be reached.
#[derive(Debug, Clone, Copy, PartialEq, Eq, Structural)]
pub enum LifecycleVerb {
    /// Start a stopped guest.
    Start,
    /// Stop a guest immediately, without asking the OS.
    Stop,
    /// Ask the guest OS to shut down cleanly.
    Shutdown,
    /// Reset a QEMU guest: a hard power cycle.
    Reset,
    /// Reboot a guest.
    Reboot,
}

impl LifecycleVerb {
    /// The Proxmox path segment for a verb.
    pub open spec fn segment(self) -> Seq<char> {
        match self {
            LifecycleVerb::Start => "start"@,
            LifecycleVerb::Stop => "stop"@,
            LifecycleVerb::Shutdown => "shutdown"@,
            LifecycleVerb::Reset => "reset"@,
            LifecycleVerb::Reboot => "reboot"@,
        }
    }

    /// The Proxmox path segment for this verb.
    #[must_use]
    pub fn path_segment(self) -> (r: &'static str)
        ensures
            r@ == self.segment(),
    {
        match self {
            LifecycleVerb::Start => "start",
            LifecycleVerb::Stop => "stop",
            LifecycleVerb::Shutdown => "shutdown",
            LifecycleVerb::Reset => "reset",
            LifecycleVerb::Reboot => "reboot",
        }
    }
}

// ---------------------------------------------------------------------------
// Building requests
// ---------------------------------------------------------------------------
/// A request for a path template, without parameters.
pub open spec fn bare(method: Method, path_template: Seq<char>) -> RequestView {
    RequestView {
        method,
        path_template,
        params: Seq::empty(),
        query: Seq::empty(),
        form: Seq::empty(),
    }
}

/// `1` for true, `0` for false, as Proxmox spells a flag.
pub open spec fn flag(b: bool) -> Seq<char> {
    if b {
        "1"@
    } else {
        "0"@
    }
}

/// The parameters that address one guest of a type on a node.
pub open spec fn guest_params(node: Seq<char>, kind: GuestType, vmid: u32) -> Seq<
    (Seq<char>, Seq<char>),
> {
    seq![("node"@, node), ("kind"@, kind.segment()), ("vmid"@, decimal(vmid as nat))]
}

fn new_request(method: Method, path_template: &str) -> (r: Request)
    ensures
        r@ == bare(method, path_template@),
{
    let r = Request {
        method,
        path_template: path_template.to_owned(),
        params: Vec::new(),
        query: Vec::new(),
        form: Vec::new(),
    };
    proof {
        assert(r@ =~= bare(method, path_template@));
    }
    r
}

fn push_field(fields: &mut Vec<(String, String)>, name: &str, value: &str)
    ensures
        pairs(final(fields)@) == pairs(old(fields)@).push((name@, value@)),
{
    let ghost before = fields@;
    fields.push((name.to_owned(), value.to_owned()));
    proof {
        assert(pairs(fields@) =~= pairs(before).push((name@, value@)));
    }
}

fn flag_text(b: bool) -> (r: &'static str)
    ensures
        r@ == flag(b),
{
    if b {
        "1"
    } else {
        "0"
    }
}

fn guest_request(
    method: Method,
    path_template: &str,
    node: &str,
    kind: GuestType,
    vmid: u32,
) -> (r: Request)
    ensures
        r@ == (RequestView {
            params: guest_params(node@, kind, vmid),
            ..bare(method, path_template@)
        }),
{
    let mut r = new_request(method, path_template);
    push_field(&mut r.params, "node", node);
    push_field(&mut r.params, "kind", kind.path_segment());
    push_field(&mut r.params, "vmid", decimal_text(vmid as u64).as_str());
    proof {
        assert(r@.params =~= guest_params(node@, kind, vmid));
    }
    r
}

/// Run a lifecycle verb against a guest.
///
/// `kind` is the guest type resolved from `/cluster/resources`, never a value
/// the caller supplied: guests migrate, and a caller-supplied node or type is
/// how a request reaches the wrong guest.
pub fn lifecycle(node: &str, kind: GuestType, vmid: u32, verb: LifecycleVerb) -> (r: Request)
    ensures
        r@ == (RequestView {
            params: guest_params(node@, kind, vmid).push(("verb"@, verb.segment())),
            ..bare(Method::Post, "/api2/json/nodes/{node}/{kind}/{vmid}/status/{verb}"@)
        }),
{
    let mut r = guest_request(
        Method::Post,
        "/api2/json/nodes/{node}/{kind}/{vmid}/status/{verb}",
        node,
        kind,
        vmid,
    );
    push_field(&mut r.params, "verb", verb.path_segment());
    r
}

/// The field an optional text adds: none where it is absent or empty.
pub open spec fn optional_field(name: Seq<char>, value: Option<Seq<char>>) -> Seq<
    (Seq<char>, Seq<char>),
> {
    match value {
        Some(text) => if text.len() == 0 {
            Seq::empty()
        } else {
            seq![(name, text)]
        },
        None => Seq::empty(),
    }
}

fn push_optional(fields: &mut Vec<(String, String)>, name: &str, value: Option<&str>)
    ensures
        pairs(final(fields)@) == pairs(old(fields)@) + optional_field(
            name@,
            crate::text::str_option(value),
        ),
{
    let ghost before = pairs(fields@);
    match value {
        Some(text) => {
            if !text.is_empty() {
                push_field(fields, name, text);
            }
        },
        None => {},
    }
    proof {
        assert(pairs(fields@) =~= before + optional_field(name@, crate::text::str_option(value)));
    }
}

/// Take a snapshot of a guest.
///
/// `description` is optional because Proxmox treats it as optional; an empty
/// one is omitted rather than sent as an empty field.
pub fn create_snapshot(
    node: &str,
    kind: GuestType,
    vmid: u32,
    snapname: &str,
    description: Option<&str>,
) -> (r: Request)
    ensures
        r@ == (RequestView {
            params: guest_params(node@, kind, vmid),
            form: seq![("snapname"@, snapname@)] + optional_field(
                "description"@,
                crate::text::str_option(description),
            ),
            ..bare(Method::Post, "/api2/json/nodes/{node}/{kind}/{vmid}/snapshot"@)
        }),
{
    let mut r = guest_request(
        Method::Post,
        "/api2/json/nodes/{node}/{kind}/{vmid}/snapshot",
        node,
        kind,
        vmid,
    );
    push_field(&mut r.form, "snapname", snapname);
    proof {
        assert(pairs(r.form@) =~= seq![("snapname"@, snapname@)]);
    }
    push_optional(&mut r.form, "description", description);
    r
}

/// Start a vzdump backup of one guest.
///
/// Unlike the other operations here this posts to a node-level endpoint with
/// the guest named in the body, because that is the shape Proxmox exposes.
pub fn create_backup(
    node: &str,
    vmid: u32,
    storage: &str,
    mode: &str,
    compress: Option<&str>,
) -> (r: Request)
    ensures
        r@ == (RequestView {
            params: seq![("node"@, node@)],
            form: seq![
                ("vmid"@, decimal(vmid as nat)),
                ("storage"@, storage@),
                ("mode"@, mode@),
            ] + optional_field("compress"@, crate::text::str_option(compress)),
            ..bare(Method::Post, "/api2/json/nodes/{node}/vzdump"@)
        }),
{
    let mut r = new_request(Method::Post, "/api2/json/nodes/{node}/vzdump");
    push_field(&mut r.params, "node", node);
    push_field(&mut r.form, "vmid", decimal_text(vmid as u64).as_str());
    push_field(&mut r.form, "storage", storage);
    push_field(&mut r.form, "mode", mode);
    proof {
        assert(pairs(r.params@) =~= seq![("node"@, node@)]);
        assert(pairs(r.form@) =~= seq![
            ("vmid"@, decimal(vmid as nat)),
            ("storage"@, storage@),
            ("mode"@, mode@),
        ]);
    }
    push_optional(&mut r.form, "compress", compress);
    r
}

/// Destroy a container.
///
/// The node is resolved from the cluster resource list, never from the caller.
/// Calling this directly bypasses change-set control.
pub fn destroy_container(node: &str, vmid: u32, purge: bool) -> (r: Request)
    ensures
        r@ == (RequestView {
            params: seq![("node"@, node@), ("vmid"@, decimal(vmid as nat))],
            query: seq![("purge"@, flag(purge))],
            ..bare(Method::Delete, "/api2/json/nodes/{node}/lxc/{vmid}"@)
        }),
{
    let mut r = new_request(Method::Delete, "/api2/json/nodes/{node}/lxc/{vmid}");
    push_field(&mut r.params, "node", node);
    push_field(&mut r.params, "vmid", decimal_text(vmid as u64).as_str());
    push_field(&mut r.query, "purge", flag_text(purge));
    proof {
        assert(pairs(r.params@) =~= seq![("node"@, node@), ("vmid"@, decimal(vmid as nat))]);
        assert(pairs(r.query@) =~= seq![("purge"@, flag(purge))]);
    }
    r
}

/// Destroy a QEMU guest.
///
/// Kept apart from [`destroy_container`] because the two carry different query
/// parameters: `destroy-unreferenced-disks` exists only here.
pub fn destroy_vm(node: &str, vmid: u32, purge: bool) -> (r: Request)
    ensures
        r@ == (RequestView {
            params: seq![("node"@, node@), ("vmid"@, decimal(vmid as nat))],
            query: seq![("purge"@, flag(purge)), ("destroy-unreferenced-disks"@, flag(purge))],
            ..bare(Method::Delete, "/api2/json/nodes/{node}/qemu/{vmid}"@)
        }),
{
    let mut r = new_request(Method::Delete, "/api2/json/nodes/{node}/qemu/{vmid}");
    push_field(&mut r.params, "node", node);
    push_field(&mut r.params, "vmid", decimal_text(vmid as u64).as_str());
    push_field(&mut r.query, "purge", flag_text(purge));
    push_field(&mut r.query, "destroy-unreferenced-disks", flag_text(purge));
    proof {
        assert(pairs(r.params@) =~= seq![("node"@, node@), ("vmid"@, decimal(vmid as nat))]);
        assert(pairs(r.query@) =~= seq![
            ("purge"@, flag(purge)),
            ("destroy-unreferenced-disks"@, flag(purge)),
        ]);
    }
    r
}

/// Delete one snapshot of a guest.
pub fn delete_snapshot(node: &str, kind: GuestType, vmid: u32, snapname: &str) -> (r: Request)
    ensures
        r@ == (RequestView {
            params: guest_params(node@, kind, vmid).push(("snapname"@, snapname@)),
            ..bare(Method::Delete, "/api2/json/nodes/{node}/{kind}/{vmid}/snapshot/{snapname}"@)
        }),
{
    let mut r = guest_request(
        Method::Delete,
        "/api2/json/nodes/{node}/{kind}/{vmid}/snapshot/{snapname}",
        node,
        kind,
        vmid,
    );
    push_field(&mut r.params, "snapname", snapname);
    r
}

/// Roll a guest back to one of its snapshots.
///
/// Destructive in a way deletion is not: it *replaces* the guest's current
/// state rather than removing a named object, so everything written since the
/// snapshot is lost.
pub fn rollback_snapshot(node: &str, kind: GuestType, vmid: u32, snapname: &str) -> (r: Request)
    ensures
        r@ == (RequestView {
            params: guest_params(node@, kind, vmid).push(("snapname"@, snapname@)),
            ..bare(
                Method::Post,
                "/api2/json/nodes/{node}/{kind}/{vmid}/snapshot/{snapname}/rollback"@,
            )
        }),
{
    let mut r = guest_request(
        Method::Post,
        "/api2/json/nodes/{node}/{kind}/{vmid}/snapshot/{snapname}/rollback",
        node,
        kind,
        vmid,
    );
    push_field(&mut r.params, "snapname", snapname);
    r
}

/// What is wrong with a volume id, where something is.
///
/// A Proxmox volid is `storage:kind/name`. It legitimately holds a slash, so it
/// is sent percent-encoded as one path segment, and what path expansion would
/// have refused is refused here.
pub open spec fn volid_fault(volid: Seq<char>) -> Option<Seq<char>> {
    if volid.len() == 0 {
        Some("volid is empty"@)
    } else if has_text(volid, ".."@) {
        Some("volid contains '..', which cannot name a Proxmox volume"@)
    } else if exists|i: int| 0 <= i < volid.len() && is_control(#[trigger] volid[i]) {
        Some("volid contains a control character"@)
    } else if !volid.contains(':') {
        Some("volid is not in storage:path form"@)
    } else {
        None
    }
}

fn has_control(v: &Vec<char>) -> (r: bool)
    ensures
        r == exists|i: int| 0 <= i < v@.len() && is_control(#[trigger] v@[i]),
{
    let mut i: usize = 0;
    while i < v.len()
        invariant
            i <= v@.len(),
            forall|j: int| 0 <= j < i ==> !is_control(#[trigger] v@[j]),
        decreases v@.len() - i,
    {
        if control_char(v[i]) {
            return true;
        }
        i += 1;
    }
    false
}

fn has_char(v: &Vec<char>, c: char) -> (r: bool)
    ensures
        r == v@.contains(c),
{
    let mut i: usize = 0;
    while i < v.len()
        invariant
            i <= v@.len(),
            forall|j: int| 0 <= j < i ==> v@[j] != c,
        decreases v@.len() - i,
    {
        if v[i] == c {
            return true;
        }
        i += 1;
    }
    false
}

/// Delete one volume from a storage backend.
///
/// Serves both `delete_backup` and `delete_iso`: Proxmox exposes archives and
/// ISO images through the same content endpoint, and the volid carries which is
/// which.
pub fn delete_volume(node: &str, storage: &str, volid: &str) -> (r: Result<Request, ProxmoxError>)
    ensures
        match r {
            Ok(request) => volid_fault(volid@) is None && request@ == (RequestView {
                params: seq![("node"@, node@), ("storage"@, storage@)],
                ..bare(
                    Method::Delete,
                    "/api2/json/nodes/{node}/storage/{storage}/content/"@ + percent_encoded(volid@),
                )
            }),
            Err(error) => volid_fault(volid@) matches Some(fault) && error@ == ErrorView::Malformed(
                fault,
            ),
        },
{
    let v = chars_of(volid);
    if v.len() == 0 {
        return Err(ProxmoxError::Malformed("volid is empty".to_owned()));
    }
    if includes_text(volid, "..") {
        return Err(
            ProxmoxError::Malformed(
                "volid contains '..', which cannot name a Proxmox volume".to_owned(),
            ),
        );
    }
    if has_control(&v) {
        return Err(ProxmoxError::Malformed("volid contains a control character".to_owned()));
    }
    if !has_char(&v, ':') {
        return Err(ProxmoxError::Malformed("volid is not in storage:path form".to_owned()));
    }
    let mut path = "/api2/json/nodes/{node}/storage/{storage}/content/".to_owned();
    path.append(percent_encode(volid).as_str());
    let mut request = new_request(Method::Delete, path.as_str());
    push_field(&mut request.params, "node", node);
    push_field(&mut request.params, "storage", storage);
    proof {
        assert(pairs(request.params@) =~= seq![("node"@, node@), ("storage"@, storage@)]);
    }
    Ok(request)
}

/// Restore a guest from a backup archive.
///
/// The most destructive operation in the surface. It overwrites the guest at
/// `vmid` with the archive's contents, and unlike a rollback there is no
/// snapshot of the pre-restore state unless someone took one.
///
/// `force` is required by Proxmox to overwrite an existing guest; it is sent
/// either way, never left to a default.
pub fn restore_backup(node: &str, kind: GuestType, vmid: u32, archive: &str, force: bool) -> (r:
    Request)
    ensures
        r@ == (RequestView {
            params: seq![("node"@, node@), ("kind"@, kind.segment())],
            form: seq![
                ("vmid"@, decimal(vmid as nat)),
                ("archive"@, archive@),
                ("force"@, flag(force)),
                ("restore"@, "1"@),
            ],
            ..bare(Method::Post, "/api2/json/nodes/{node}/{kind}"@)
        }),
{
    let mut r = new_request(Method::Post, "/api2/json/nodes/{node}/{kind}");
    push_field(&mut r.params, "node", node);
    push_field(&mut r.params, "kind", kind.path_segment());
    push_field(&mut r.form, "vmid", decimal_text(vmid as u64).as_str());
    push_field(&mut r.form, "archive", archive);
    push_field(&mut r.form, "force", flag_text(force));
    push_field(&mut r.form, "restore", "1");
    proof {
        assert(pairs(r.params@) =~= seq![("node"@, node@), ("kind"@, kind.segment())]);
        assert(pairs(r.form@) =~= seq![
            ("vmid"@, decimal(vmid as nat)),
            ("archive"@, archive@),
            ("force"@, flag(force)),
            ("restore"@, "1"@),
        ]);
    }
    r
}

/// The form field a guest's name goes by: `hostname` for a container, `name`
/// for a VM. Sending the wrong one is silently ignored by Proxmox.
pub open spec fn name_field(kind: GuestType) -> Seq<char> {
    match kind {
        GuestType::Lxc => "hostname"@,
        GuestType::Qemu => "name"@,
    }
}

/// Clone a guest into a new VMID.
///
/// `full` selects a full copy over a linked clone. A linked clone shares base
/// storage with its source, so deleting the source later breaks the clone,
/// which is why the choice is the caller's rather than a default here.
pub fn clone_guest(
    node: &str,
    kind: GuestType,
    source_vmid: u32,
    new_vmid: u32,
    name: Option<&str>,
    full: bool,
) -> (r: Request)
    ensures
        r@ == (RequestView {
            params: guest_params(node@, kind, source_vmid),
            form: seq![("newid"@, decimal(new_vmid as nat)), ("full"@, flag(full))]
                + optional_field(name_field(kind), crate::text::str_option(name)),
            ..bare(Method::Post, "/api2/json/nodes/{node}/{kind}/{vmid}/clone"@)
        }),
{
    let mut r = guest_request(
        Method::Post,
        "/api2/json/nodes/{node}/{kind}/{vmid}/clone",
        node,
        kind,
        source_vmid,
    );
    push_field(&mut r.form, "newid", decimal_text(new_vmid as u64).as_str());
    push_field(&mut r.form, "full", flag_text(full));
    proof {
        assert(pairs(r.form@) =~= seq![
            ("newid"@, decimal(new_vmid as nat)),
            ("full"@, flag(full)),
        ]);
    }
    push_optional(
        &mut r.form,
        match kind {
            GuestType::Lxc => "hostname",
            GuestType::Qemu => "name",
        },
        name,
    );
    r
}

/// Resize a guest disk.
///
/// `size` is Proxmox's form: `+8G` to grow by, or an absolute value. See
/// [`resize_shrinks`] for why the two are not interchangeable.
pub fn resize_disk(node: &str, kind: GuestType, vmid: u32, disk: &str, size: &str) -> (r: Request)
    ensures
        r@ == (RequestView {
            params: guest_params(node@, kind, vmid),
            form: seq![("disk"@, disk@), ("size"@, size@)],
            ..bare(Method::Post, "/api2/json/nodes/{node}/{kind}/{vmid}/resize"@)
        }),
{
    let mut r = guest_request(
        Method::Post,
        "/api2/json/nodes/{node}/{kind}/{vmid}/resize",
        node,
        kind,
        vmid,
    );
    push_field(&mut r.form, "disk", disk);
    push_field(&mut r.form, "size", size);
    proof {
        assert(pairs(r.form@) =~= seq![("disk"@, disk@), ("size"@, size@)]);
    }
    r
}

/// Create a guest.
///
/// `config` carries the guest's whole definition, which differs enough between
/// QEMU and LXC that this function does not model it: the caller passes the
/// form fields Proxmox documents for the type it is creating.
pub fn create_guest(node: &str, kind: GuestType, vmid: u32, config: &Vec<(String, String)>) -> (r:
    Request)
    ensures
        r@ == (RequestView {
            params: seq![("node"@, node@), ("kind"@, kind.segment())],
            form: seq![("vmid"@, decimal(vmid as nat))] + pairs(config@),
            ..bare(Method::Post, "/api2/json/nodes/{node}/{kind}"@)
        }),
{
    let mut r = new_request(Method::Post, "/api2/json/nodes/{node}/{kind}");
    push_field(&mut r.params, "node", node);
    push_field(&mut r.params, "kind", kind.path_segment());
    push_field(&mut r.form, "vmid", decimal_text(vmid as u64).as_str());
    let ghost head = pairs(r.form@);
    proof {
        assert(pairs(r.params@) =~= seq![("node"@, node@), ("kind"@, kind.segment())]);
        assert(head =~= seq![("vmid"@, decimal(vmid as nat))]);
    }
    let mut i: usize = 0;
    let ghost start = r@;
    proof {
        assert(head + pairs(config@).take(0) =~= head);
    }
    while i < config.len()
        invariant
            i <= config@.len(),
            pairs(r.form@) == head + pairs(config@).take(i as int),
            r@.method == start.method,
            r@.path_template == start.path_template,
            r@.params == start.params,
            r@.query == start.query,
        decreases config@.len() - i,
    {
        push_field(&mut r.form, config[i].0.as_str(), config[i].1.as_str());
        proof {
            let x = (config@[i as int].0@, config@[i as int].1@);
            assert(pairs(config@)[i as int] == x);
            assert((head + pairs(config@).take(i as int)).push(x) =~= head + pairs(config@).take(
                i as int + 1,
            ));
        }
        i += 1;
    }
    proof {
        assert(pairs(config@).take(i as int) =~= pairs(config@));
    }
    r
}

/// The fields a checksum adds. Proxmox verifies a download only when algorithm
/// and value are both given, so they travel together or not at all.
pub open spec fn checksum_fields(checksum: Option<(Seq<char>, Seq<char>)>) -> Seq<
    (Seq<char>, Seq<char>),
> {
    match checksum {
        Some((algorithm, value)) => seq![
            ("checksum-algorithm"@, algorithm),
            ("checksum"@, value),
        ],
        None => Seq::empty(),
    }
}

/// A checksum given as an algorithm and a value, as mathematical values.
pub open spec fn checksum_view(checksum: Option<(&str, &str)>) -> Option<(Seq<char>, Seq<char>)> {
    match checksum {
        Some((algorithm, value)) => Some((algorithm@, value@)),
        None => None,
    }
}

/// Download an ISO or container template onto a storage backend.
pub fn download_url(
    node: &str,
    storage: &str,
    content: &str,
    filename: &str,
    url: &str,
    checksum: Option<(&str, &str)>,
) -> (r: Request)
    ensures
        r@ == (RequestView {
            params: seq![("node"@, node@), ("storage"@, storage@)],
            form: seq![("content"@, content@), ("filename"@, filename@), ("url"@, url@)]
                + checksum_fields(checksum_view(checksum)),
            ..bare(Method::Post, "/api2/json/nodes/{node}/storage/{storage}/download-url"@)
        }),
{
    let mut r = new_request(
        Method::Post,
        "/api2/json/nodes/{node}/storage/{storage}/download-url",
    );
    push_field(&mut r.params, "node", node);
    push_field(&mut r.params, "storage", storage);
    push_field(&mut r.form, "content", content);
    push_field(&mut r.form, "filename", filename);
    push_field(&mut r.form, "url", url);
    let ghost head = pairs(r.form@);
    if let Some((algorithm, value)) = checksum {
        push_field(&mut r.form, "checksum-algorithm", algorithm);
        push_field(&mut r.form, "checksum", value);
    }
    proof {
        assert(pairs(r.params@) =~= seq![("node"@, node@), ("storage"@, storage@)]);
        assert(head =~= seq![("content"@, content@), ("filename"@, filename@), ("url"@, url@)]);
        assert(pairs(r.form@) =~= head + checksum_fields(checksum_view(checksum)));
    }
    r
}

/// The field an optional number adds.
pub open spec fn number_field(name: Seq<char>, value: Option<u32>) -> Seq<
    (Seq<char>, Seq<char>),
> {
    match value {
        Some(n) => seq![(name, decimal(n as nat))],
        None => Seq::empty(),
    }
}

fn push_number(fields: &mut Vec<(String, String)>, name: &str, value: Option<u32>)
    ensures
        pairs(final(fields)@) == pairs(old(fields)@) + number_field(name@, value),
{
    let ghost before = pairs(fields@);
    if let Some(n) = value {
        push_field(fields, name, decimal_text(n as u64).as_str());
    }
    proof {
        assert(pairs(fields@) =~= before + number_field(name@, value));
    }
}

/// Change a container's cores, memory or swap.
///
/// Proxmox updates a config with PUT, and only the fields that are sent.
pub fn update_container_resources(
    node: &str,
    vmid: u32,
    cores: Option<u32>,
    memory_mb: Option<u32>,
    swap_mb: Option<u32>,
) -> (r: Request)
    ensures
        r@ == (RequestView {
            params: seq![("node"@, node@), ("vmid"@, decimal(vmid as nat))],
            form: number_field("cores"@, cores) + number_field("memory"@, memory_mb)
                + number_field("swap"@, swap_mb),
            ..bare(Method::Put, "/api2/json/nodes/{node}/lxc/{vmid}/config"@)
        }),
{
    let mut r = new_request(Method::Put, "/api2/json/nodes/{node}/lxc/{vmid}/config");
    push_field(&mut r.params, "node", node);
    push_field(&mut r.params, "vmid", decimal_text(vmid as u64).as_str());
    push_number(&mut r.form, "cores", cores);
    proof {
        assert(pairs(r.params@) =~= seq![("node"@, node@), ("vmid"@, decimal(vmid as nat))]);
        assert(pairs(r.form@) =~= number_field("cores"@, cores));
    }
    push_number(&mut r.form, "memory", memory_mb);
    push_number(&mut r.form, "swap", swap_mb);
    r
}

/// Ask for a running task to be stopped, on the node it runs on.
pub fn stop_task(node: &str, upid: &str) -> (r: Request)
    ensures
        r@ == (RequestView {
            params: seq![("node"@, node@)],
            ..bare(Method::Delete, "/api2/json/nodes/{node}/tasks/"@ + percent_encoded(upid@))
        }),
{
    let mut path = "/api2/json/nodes/{node}/tasks/".to_owned();
    path.append(percent_encode(upid).as_str());
    let mut r = new_request(Method::Delete, path.as_str());
    push_field(&mut r.params, "node", node);
    proof {
        assert(pairs(r.params@) =~= seq![("node"@, node@)]);
    }
    r
}

/// The path that reports on a task: its node, and its handle with every colon
/// encoded.
pub open spec fn task_status_path(node: Seq<char>, upid: Seq<char>) -> Seq<char> {
    "/api2/json/nodes/"@ + node + "/tasks/"@ + join(split(upid, ':'), "%3A"@) + "/status"@
}

/// Ask how a task stands, on the node its handle names.
pub fn task_status(node: &str, upid: &str) -> (r: Request)
    ensures
        r@ == bare(Method::Get, task_status_path(node@, upid@)),
{
    let mut path = "/api2/json/nodes/".to_owned();
    path.append(node);
    path.append("/tasks/");
    path.append(join_texts(&split_text(upid, ':'), "%3A").as_str());
    path.append("/status");
    new_request(Method::Get, path.as_str())
}

// ---------------------------------------------------------------------------
// Commands inside a guest
// ---------------------------------------------------------------------------
/// How many times a command's status is read before giving up.
pub const GUEST_EXEC_POLL_ATTEMPTS: u32 = 30;

/// The pause between two reads of a command's status, in seconds.
pub const GUEST_EXEC_POLL_DELAY_SECS: u64 = 1;

/// One form field per word of a command.
pub open spec fn command_fields(command: Seq<Seq<char>>) -> Seq<(Seq<char>, Seq<char>)> {
    command.map_values(|word: Seq<char>| ("command"@, word))
}

/// Run a command in a QEMU guest through its agent.
///
/// Each word is a field of its own. Joining them into one string would hand the
/// guest a line to re-split, so an argument containing a space would become
/// two: a different command than the approver reviewed.
pub fn guest_exec(node: &str, vmid: u32, command: &Vec<String>) -> (r: Result<
    Request,
    ProxmoxError,
>)
    ensures
        match r {
            Ok(request) => command@.len() > 0 && request@ == (RequestView {
                params: seq![("node"@, node@), ("vmid"@, decimal(vmid as nat))],
                form: command_fields(texts(command@)),
                ..bare(Method::Post, "/api2/json/nodes/{node}/qemu/{vmid}/agent/exec"@)
            }),
            Err(error) => command@.len() == 0 && error@ == ErrorView::Malformed(
                "command is empty"@,
            ),
        },
{
    if command.len() == 0 {
        return Err(ProxmoxError::Malformed("command is empty".to_owned()));
    }
    let mut r = new_request(Method::Post, "/api2/json/nodes/{node}/qemu/{vmid}/agent/exec");
    push_field(&mut r.params, "node", node);
    push_field(&mut r.params, "vmid", decimal_text(vmid as u64).as_str());
    let ghost start = r@;
    let ghost all = command_fields(texts(command@));
    let mut i: usize = 0;
    proof {
        assert(pairs(r.params@) =~= seq![("node"@, node@), ("vmid"@, decimal(vmid as nat))]);
        assert(pairs(r.form@) =~= all.take(0));
    }
    while i < command.len()
        invariant
            i <= command@.len(),
            all == command_fields(texts(command@)),
            pairs(r.form@) == all.take(i as int),
            r@.method == start.method,
            r@.path_template == start.path_template,
            r@.params == start.params,
            r@.query == start.query,
        decreases command@.len() - i,
    {
        push_field(&mut r.form, "command", command[i].as_str());
        proof {
            let x = ("command"@, command@[i as int]@);
            assert(all[i as int] == x);
            assert(all.take(i as int).push(x) =~= all.take(i as int + 1));
        }
        i += 1;
    }
    proof {
        assert(all.take(i as int) =~= all);
    }
    Ok(r)
}

/// The process id an agent's answer carries. Without one there is no handle to
/// read the result with, so the answer is an error.
pub open spec fn pid_in(pid: Option<u64>) -> Result<u64, ErrorView> {
    match pid {
        Some(pid) => Ok(pid),
        None => Err(ErrorView::Malformed("agent exec returned no pid"@)),
    }
}

/// Take the process id of an agent's answer.
pub fn pid_from(pid: Option<u64>) -> (r: Result<u64, ProxmoxError>)
    ensures
        match r {
            Ok(n) => pid_in(pid) == Ok::<u64, ErrorView>(n),
            Err(error) => pid_in(pid) == Err::<u64, ErrorView>(error@),
        },
{
    match pid {
        Some(pid) => Ok(pid),
        None => Err(ProxmoxError::Malformed("agent exec returned no pid".to_owned())),
    }
}

/// The process id in the data of an agent's answer that was read as `value`.
pub open spec fn agent_pid(value: JsonView) -> Result<u64, ErrorView> {
    pid_in(unsigned(integer_member(value, "pid"@)))
}

/// Read the process id from the JSON text of an agent's answer.
pub fn guest_exec_pid(data: &str) -> (r: Result<u64, ProxmoxError>)
    ensures
        match r {
            Ok(n) => agent_pid(data_value(data@)) == Ok::<u64, ErrorView>(n),
            Err(error) => agent_pid(data_value(data@)) == Err::<u64, ErrorView>(error@),
        },
{
    let value = read_data(data);
    let pid = match find_integer(&value, "pid") {
        Some(n) => if 0 <= n && n <= 0xffff_ffff_ffff_ffff {
            Some(n as u64)
        } else {
            None
        },
        None => None,
    };
    pid_from(pid)
}

/// The request that asks what became of a command the agent runs.
pub open spec fn exec_status_request(node: Seq<char>, vmid: u32, pid: u64) -> RequestView {
    RequestView {
        params: seq![("node"@, node), ("vmid"@, decimal(vmid as nat))],
        query: seq![("pid"@, decimal(pid as nat))],
        ..bare(Method::Get, "/api2/json/nodes/{node}/qemu/{vmid}/agent/exec-status"@)
    }
}

/// Ask what became of a command the agent runs.
pub fn guest_exec_status(node: &str, vmid: u32, pid: u64) -> (r: Request)
    ensures
        r@ == exec_status_request(node@, vmid, pid),
{
    let mut r = new_request(
        Method::Get,
        "/api2/json/nodes/{node}/qemu/{vmid}/agent/exec-status",
    );
    push_field(&mut r.params, "node", node);
    push_field(&mut r.params, "vmid", decimal_text(vmid as u64).as_str());
    push_field(&mut r.query, "pid", decimal_text(pid).as_str());
    proof {
        assert(pairs(r.params@) =~= seq![("node"@, node@), ("vmid"@, decimal(vmid as nat))]);
        assert(pairs(r.query@) =~= seq![("pid"@, decimal(pid as nat))]);
    }
    r
}

/// What a command left behind.
#[derive(Debug, PartialEq, Eq)]
pub struct ExecOutput {
    /// Whether the command has exited.
    pub exited: bool,
    /// Its exit code, where the agent reports one.
    pub exit_code: Option<i128>,
    /// What it wrote to standard output.
    pub stdout: String,
    /// What it wrote to standard error.
    pub stderr: String,
    /// Whether the agent cut either of them short.
    pub truncated: bool,
}

/// What a command left behind, as a mathematical value.
pub struct ExecView {
    pub exited: bool,
    pub exit_code: Option<i128>,
    pub stdout: Seq<char>,
    pub stderr: Seq<char>,
    pub truncated: bool,
}

impl View for ExecOutput {
    type V = ExecView;

    open spec fn view(&self) -> ExecView {
        ExecView {
            exited: self.exited,
            exit_code: self.exit_code,
            stdout: self.stdout@,
            stderr: self.stderr@,
            truncated: self.truncated,
        }
    }
}

/// What the fields of an agent's status answer say of a command. A text that
/// is not there is empty, a mark that is not there is not set.
pub open spec fn exec_fields(
    exited: Option<bool>,
    exit_code: Option<i128>,
    stdout: Option<Seq<char>>,
    stderr: Option<Seq<char>>,
    out_truncated: Option<bool>,
    err_truncated: Option<bool>,
) -> ExecView {
    ExecView {
        exited: exited == Some(true),
        exit_code,
        stdout: match stdout {
            Some(text) => text,
            None => Seq::empty(),
        },
        stderr: match stderr {
            Some(text) => text,
            None => Seq::empty(),
        },
        truncated: out_truncated == Some(true) || err_truncated == Some(true),
    }
}

/// What an agent's status answer says of a command.
pub open spec fn exec_output_in(value: JsonView) -> ExecView {
    exec_fields(
        bool_member(value, "exited"@),
        integer_member(value, "exitcode"@),
        text_member(value, "out-data"@),
        text_member(value, "err-data"@),
        bool_member(value, "out-truncated"@),
        bool_member(value, "err-truncated"@),
    )
}

fn is_set(b: Option<bool>) -> (r: bool)
    ensures
        r == (b == Some(true)),
{
    match b {
        Some(b) => b,
        None => false,
    }
}

fn text_or_empty(o: Option<String>) -> (r: String)
    ensures
        r@ == match text_option(o) {
            Some(text) => text,
            None => Seq::empty(),
        },
{
    match o {
        Some(text) => text,
        None => String::new(),
    }
}

/// Take up the fields of an agent's status answer.
pub fn exec_output_from(
    exited: Option<bool>,
    exit_code: Option<i128>,
    stdout: Option<String>,
    stderr: Option<String>,
    out_truncated: Option<bool>,
    err_truncated: Option<bool>,
) -> (r: ExecOutput)
    ensures
        r@ == exec_fields(
            exited,
            exit_code,
            text_option(stdout),
            text_option(stderr),
            out_truncated,
            err_truncated,
        ),
{
    ExecOutput {
        exited: is_set(exited),
        exit_code,
        stdout: text_or_empty(stdout),
        stderr: text_or_empty(stderr),
        truncated: is_set(out_truncated) || is_set(err_truncated),
    }
}

/// Read an agent's status answer, given the JSON text of its data.
pub fn guest_exec_output(data: &str) -> (r: ExecOutput)
    ensures
        r@ == exec_output_in(data_value(data@)),
{
    let value = read_data(data);
    exec_output_from(
        find_bool(&value, "exited"),
        find_integer(&value, "exitcode"),
        find_text(&value, "out-data"),
        find_text(&value, "err-data"),
        find_bool(&value, "out-truncated"),
        find_bool(&value, "err-truncated"),
    )
}

/// Whether to read a command's status once more: it has not exited, and fewer
/// than the allowed number of reads were made.
pub fn read_status_again(exited: bool, reads: u32) -> (r: bool)
    ensures
        r == (!exited && reads < GUEST_EXEC_POLL_ATTEMPTS),
{
    !exited && reads < GUEST_EXEC_POLL_ATTEMPTS
}

// ---------------------------------------------------------------------------
// Answers
// ---------------------------------------------------------------------------
/// The task handle in the data of an answer that was read as `value`: a string
/// that parses as a UPID, returned as it came. Re-rendering it would hand back
/// a value Proxmox did not send.
pub open spec fn handle_in(value: JsonView) -> Result<Seq<char>, ErrorView> {
    match value {
        JsonView::Text(text) => if upid_of(text) is Some {
            Ok(text)
        } else {
            Err(ErrorView::Malformed("malformed UPID: "@ + text))
        },
        _ => Err(ErrorView::Malformed("data is not a string"@)),
    }
}

/// Take the task handle from the data of an answer.
pub fn upid_in(value: JsonShape) -> (r: Result<String, ProxmoxError>)
    ensures
        text_result(r) == handle_in(value@),
{
    match value {
        JsonShape::Text(text) => {
            match Upid::parse(text.as_str()) {
                Ok(_) => Ok(text),
                Err(error) => Err(ProxmoxError::Malformed(error.message())),
            }
        },
        _ => Err(ProxmoxError::Malformed("data is not a string".to_owned())),
    }
}

/// Take the task handle from the JSON text of an answer's data.
pub fn upid_from(data: &str) -> (r: Result<String, ProxmoxError>)
    ensures
        text_result(r) == handle_in(data_value(data@)),
{
    upid_in(read_data(data))
}

/// The task handle of an answer that may be synchronous: the string, or the
/// empty text where the data is none.
pub open spec fn optional_handle(value: JsonView) -> Seq<char> {
    match value {
        JsonView::Text(text) => text,
        _ => Seq::empty(),
    }
}

/// Take the task handle of an operation that some storage types complete
/// synchronously, with `null` for an answer. An empty handle then keeps a
/// completed operation from reading as an error.
pub fn optional_upid_in(value: JsonShape) -> (r: String)
    ensures
        r@ == optional_handle(value@),
{
    match value {
        JsonShape::Text(text) => text,
        _ => String::new(),
    }
}

/// Take the optional task handle from the JSON text of an answer's data.
pub fn optional_upid_from(data: &str) -> (r: String)
    ensures
        r@ == optional_handle(data_value(data@)),
{
    optional_upid_in(read_data(data))
}

// ---------------------------------------------------------------------------
// Judging arguments
// ---------------------------------------------------------------------------
/// Whether a character is a size unit.
pub open spec fn is_unit(c: char) -> bool {
    c == 'K' || c == 'M' || c == 'G' || c == 'T' || c == 'k' || c == 'm' || c == 'g' || c == 't'
}

/// A size without its unit.
pub open spec fn amount_of(size: Seq<char>) -> Seq<char> {
    if size.len() > 0 && is_unit(size.last()) {
        size.drop_last()
    } else {
        size
    }
}

/// Whether a text is a decimal number: digits, with at most one point among
/// them and none at either end.
pub open spec fn is_amount(s: Seq<char>) -> bool {
    &&& s.len() > 0
    &&& forall|i: int| 0 <= i < s.len() ==> is_digit(#[trigger] s[i]) || s[i] == '.'
    &&& is_digit(s[0])
    &&& is_digit(s.last())
    &&& forall|i: int, j: int| 0 <= i < j < s.len() ==> !(#[trigger] s[i] == '.' && #[trigger] s[j] == '.')
}

/// Whether a decimal number is above zero.
pub open spec fn above_zero(s: Seq<char>) -> bool {
    exists|i: int| 0 <= i < s.len() && is_digit(#[trigger] s[i]) && s[i] != '0'
}

/// Whether a size asks for more: a plus sign and a number above zero, with an
/// optional unit.
pub open spec fn grows(size: Seq<char>) -> bool {
    let t = trim(size);
    &&& t.len() > 0
    &&& t[0] == '+'
    &&& is_amount(amount_of(t.skip(1)))
    &&& above_zero(amount_of(t.skip(1)))
}

/// Decide `is_amount` and `above_zero` of the characters in `[from, to)`.
fn positive_amount(v: &Vec<char>, from: usize, to: usize) -> (r: bool)
    requires
        from <= to <= v@.len(),
    ensures
        r == ({
            let s = v@.subrange(from as int, to as int);
            is_amount(s) && above_zero(s)
        }),
{
    let ghost s = v@.subrange(from as int, to as int);
    if from == to {
        return false;
    }
    let first = v[from];
    let last = v[to - 1];
    proof {
        assert(s[0] == first);
        assert(s.last() == last);
    }
    if !('0' <= first && first <= '9') || !('0' <= last && last <= '9') {
        return false;
    }
    let mut i: usize = from;
    let mut points: bool = false;
    let mut positive: bool = false;
    while i < to
        invariant
            from <= i <= to <= v@.len(),
            s == v@.subrange(from as int, to as int),
            forall|k: int| 0 <= k < i - from ==> is_digit(#[trigger] s[k]) || s[k] == '.',
            forall|k: int, l: int|
                0 <= k < l < i - from ==> !(#[trigger] s[k] == '.' && #[trigger] s[l] == '.'),
            points == exists|k: int| 0 <= k < i - from && #[trigger] s[k] == '.',
            positive == exists|k: int|
                0 <= k < i - from && is_digit(#[trigger] s[k]) && s[k] != '0',
        decreases to - i,
    {
        let c = v[i];
        proof {
            assert(s[i - from] == c);
        }
        if c == '.' {
            if points {
                proof {
                    let k = choose|k: int| 0 <= k < i - from && #[trigger] s[k] == '.';
                    assert(s[k] == '.' && s[i - from] == '.');
                }
                return false;
            }
            points = true;
        } else if '0' <= c && c <= '9' {
            if c != '0' {
                positive = true;
            }
        } else {
            return false;
        }
        i += 1;
    }
    positive
}

/// Whether a disk resize may destroy data.
///
/// Proxmox takes the size as a delta (`+8G`) or an absolute value (`32G`). A
/// grow adds capacity; a **shrink discards whatever lived beyond the new end**,
/// which is data loss.
///
/// A value this cannot classify is treated as **shrinking**. Guessing "grow" on
/// an unparseable size would let a possible shrink through; guessing "shrink"
/// only costs a refusal the caller can retry as an explicit `+N`.
#[must_use]
pub fn resize_shrinks(size: &str) -> (r: bool)
    ensures
        r == !grows(size@),
{
    let trimmed = trim_text(size);
    let v = chars_of(trimmed.as_str());
    if v.len() == 0 || v[0] != '+' {
        return true;
    }
    let mut to: usize = v.len();
    if to > 1 {
        let c = v[to - 1];
        if c == 'K' || c == 'M' || c == 'G' || c == 'T' || c == 'k' || c == 'm' || c == 'g' || c
            == 't' {
            to = to - 1;
        }
    }
    proof {
        let t = trim(size@);
        assert(v@.subrange(1, to as int) =~= amount_of(t.skip(1)));
    }
    !positive_amount(&v, 1, to)
}

/// Whether a task of a kind rewrites a guest in place.
pub open spec fn rewrites_in_place(kind: Seq<char>) -> bool {
    kind == "qmrestore"@ || kind == "vzrestore"@ || kind == "qmdestroy"@ || kind == "vzdestroy"@
}

/// Whether stopping a task half-way would leave a guest that is neither its old
/// self nor its new one.
///
/// A handle that does not parse cannot be classified, and guessing "safe" would
/// admit the case this exists to catch.
pub fn stopping_task_leaves_partial_state(upid: &str) -> (r: bool)
    ensures
        r == match upid_of(upid@) {
            Some(parsed) => rewrites_in_place(parsed.kind),
            None => true,
        },
{
    match Upid::parse(upid) {
        Ok(parsed) => {
            let kind = parsed.kind();
            same_text(kind, "qmrestore") || same_text(kind, "vzrestore") || same_text(
                kind,
                "qmdestroy",
            ) || same_text(kind, "vzdestroy")
        },
        Err(_) => true,
    }
}

// ---------------------------------------------------------------------------
// What holds of every answer and every argument
// ---------------------------------------------------------------------------
/// What a command left behind is read by name: its output under `out-data`, its
/// errors under `err-data`, its exit code under `exitcode`; it has exited
/// exactly where the agent says so, and is cut short where the agent cut either
/// text.
pub proof fn law_a_commands_result_is_read_by_name(value: JsonView)
    ensures
        ({
            let output = exec_output_in(value);
            &&& output.exited <==> bool_member(value, "exited"@) == Some(true)
            &&& output.exit_code == integer_member(value, "exitcode"@)
            &&& text_member(value, "out-data"@) matches Some(text) ==> output.stdout == text
            &&& text_member(value, "out-data"@) is None ==> output.stdout.len() == 0
            &&& text_member(value, "err-data"@) matches Some(text) ==> output.stderr == text
            &&& text_member(value, "err-data"@) is None ==> output.stderr.len() == 0
            &&& output.truncated <==> bool_member(value, "out-truncated"@) == Some(true)
                || bool_member(value, "err-truncated"@) == Some(true)
        }),
{
}

/// What is taken up of an agent's answer is kept apart: output is output and
/// errors are errors, and an exit code is handed on as it came.
pub proof fn law_output_and_errors_are_kept_apart(
    exited: Option<bool>,
    exit_code: Option<i128>,
    stdout: Option<Seq<char>>,
    stderr: Option<Seq<char>>,
    out_truncated: Option<bool>,
    err_truncated: Option<bool>,
)
    ensures
        ({
            let output = exec_fields(
                exited,
                exit_code,
                stdout,
                stderr,
                out_truncated,
                err_truncated,
            );
            &&& output.exited <==> exited == Some(true)
            &&& output.exit_code == exit_code
            &&& stdout is Some ==> output.stdout == stdout->0
            &&& stdout is None ==> output.stdout.len() == 0
            &&& stderr is Some ==> output.stderr == stderr->0
            &&& stderr is None ==> output.stderr.len() == 0
            &&& output.truncated <==> out_truncated == Some(true) || err_truncated == Some(true)
        }),
{
}

/// A command is asked after by the process id the agent gave it, and by no
/// other: an answer without one, or with one out of range, is an error.
pub proof fn law_a_process_id_is_the_agents_own(value: JsonView, pid: u64)
    ensures
        agent_pid(value) == Ok::<u64, ErrorView>(pid) <==> integer_member(value, "pid"@) == Some(
            pid as i128,
        ),
        agent_pid(value) is Err <==> integer_member(value, "pid"@) is None || integer_member(
            value,
            "pid"@,
        )->0 < 0 || integer_member(value, "pid"@)->0 > 0xffff_ffff_ffff_ffff,
{
}

/// A task handle is handed on exactly as it came, and only where it is one; of
/// work that may be done at once, no handle is the empty text.
pub proof fn law_a_handle_is_handed_on_as_it_came(value: JsonView, text: Seq<char>)
    ensures
        handle_in(value) == Ok::<Seq<char>, ErrorView>(text) <==> value == JsonView::Text(text)
            && upid_of(text) is Some,
        optional_handle(JsonView::Text(text)) == text,
        !(value is Text) ==> handle_in(value) is Err && optional_handle(value).len() == 0,
{
}

/// A task's status is asked for on the node given, under the whole handle: the
/// fields of the handle stand in the path in their order, and where a colon
/// stood between two of them its encoding does.
pub proof fn law_a_task_is_asked_after_under_its_whole_handle(node: Seq<char>, upid: Seq<char>)
    ensures
        ("/api2/json/nodes/"@ + node + "/tasks/"@).is_prefix_of(task_status_path(node, upid)),
        exists|fields: Seq<Seq<char>>|
            {
                &&& upid == #[trigger] join(fields, seq![':'])
                &&& forall|i: int| 0 <= i < fields.len() ==> !(#[trigger] fields[i]).contains(':')
                &&& task_status_path(node, upid) == "/api2/json/nodes/"@ + node + "/tasks/"@ + join(
                    fields,
                    "%3A"@,
                ) + "/status"@
            },
{
    let fields = split(upid, ':');
    law_joining_undoes_splitting(upid, ':');
    lemma_split_pieces(upid, ':');
    let head = "/api2/json/nodes/"@ + node + "/tasks/"@;
    assert(task_status_path(node, upid).take(head.len() as int) =~= head);
    assert(upid == join(fields, seq![':']));
}

/// A volume name is sent exactly when it is not empty, holds no `..` and no
/// control character, and has a colon in it.
pub proof fn law_only_a_volume_name_is_sent(volid: Seq<char>)
    ensures
        volid_fault(volid) is None <==> volid.len() > 0 && !has_text(volid, ".."@)
            && volid.contains(':') && forall|i: int|
            0 <= i < volid.len() ==> !is_control(#[trigger] volid[i]),
{
}

proof fn lemma_decimal_above_zero(n: nat)
    requires
        n > 0,
    ensures
        above_zero(decimal(n)),
    decreases n,
{
    lemma_decimal_digits(n);
    let s = decimal(n);
    if n < 10 {
        assert(s[0] == crate::text::digit(n));
        assert(is_digit(s[0]) && s[0] != '0');
    } else {
        lemma_decimal_above_zero(n / 10);
        lemma_decimal_digits(n / 10);
        let front = decimal(n / 10);
        let i = choose|i: int| 0 <= i < front.len() && is_digit(#[trigger] front[i]) && front[i]
            != '0';
        assert(s[i] == front[i]);
    }
}

/// A size with a plus sign and a number above zero asks for more, with or
/// without a unit; and no size does that does not begin with a plus sign.
pub proof fn law_an_increment_grows(n: nat, unit: char, size: Seq<char>)
    requires
        n > 0,
        is_unit(unit),
        size.len() > 0,
        size[0] != '+',
        is_trimmed(size),
    ensures
        grows(seq!['+'] + decimal(n)),
        grows((seq!['+'] + decimal(n)).push(unit)),
        !grows(size),
        !grows(seq!['+'] + seq!['0']),
        !grows(seq!['+']),
{
    lemma_decimal_digits(n);
    lemma_decimal_above_zero(n);
    let number = decimal(n);
    let bare_size = seq!['+'] + number;
    let with_unit = bare_size.push(unit);
    assert(is_digit(number.last())) by {
        assert(is_digit(number[number.len() - 1]));
    }
    assert(is_digit(number[0]));
    assert(is_amount(number)) by {
        assert forall|i: int, j: int| 0 <= i < j < number.len() implies !(#[trigger] number[i]
            == '.' && #[trigger] number[j] == '.') by {
            assert(is_digit(number[i]));
        }
    }
    assert(bare_size.last() == number.last());
    law_trimming_takes_off_the_edges(bare_size);
    law_trimming_takes_off_the_edges(with_unit);
    assert(bare_size.skip(1) =~= number);
    assert(with_unit.skip(1).drop_last() =~= number);
    assert(with_unit.skip(1).last() == unit);
    law_trimming_takes_off_the_edges(size);
    let zero = seq!['+'] + seq!['0'];
    law_trimming_takes_off_the_edges(zero);
    assert(zero.skip(1) =~= seq!['0']);
    assert(!above_zero(seq!['0']));
    law_trimming_takes_off_the_edges(seq!['+']);
    assert(seq!['+'].skip(1).len() == 0);
}

/// Restoring and destroying a guest rewrite it in place; no other task does.
pub proof fn law_what_rewrites_a_guest(kind: Seq<char>)
    ensures
        rewrites_in_place(kind) <==> kind == "qmrestore"@ || kind == "vzrestore"@ || kind
            == "qmdestroy"@ || kind == "vzdestroy"@,
{
}

/// Nothing but a plus sign, digits, one point among them and a unit at the end
/// asks for more; and a fraction does.
pub proof fn law_what_asks_for_more_is_a_number(size: Seq<char>, n: nat, m: nat)
    requires
        n > 0,
    ensures
        grows(size) ==> forall|i: int|
            1 <= i < trim(size).len() ==> is_digit(#[trigger] trim(size)[i]) || trim(size)[i] == '.'
                || (i == trim(size).len() - 1 && is_unit(trim(size)[i])),
        grows(seq!['+'] + decimal(n) + seq!['.'] + decimal(m)),
{
    let t = trim(size);
    if grows(size) {
        let amount = amount_of(t.skip(1));
        assert forall|i: int| 1 <= i < t.len() implies is_digit(#[trigger] t[i]) || t[i] == '.' || (i
            == t.len() - 1 && is_unit(t[i])) by {
            if i - 1 < amount.len() {
                assert(amount[i - 1] == t[i]);
            } else {
                assert(t.skip(1).last() == t[i]);
            }
        }
    }
    lemma_decimal_digits(n);
    lemma_decimal_digits(m);
    lemma_decimal_above_zero(n);
    let a = decimal(n);
    let b = decimal(m);
    let number = a + seq!['.'] + b;
    let whole = seq!['+'] + a + seq!['.'] + b;
    assert forall|i: int| 0 <= i < number.len() implies is_digit(#[trigger] number[i]) || (i
        == a.len() && number[i] == '.') by {
        if i < a.len() {
            assert(number[i] == a[i]);
        } else if i > a.len() {
            assert(number[i] == b[i - a.len() - 1]);
        }
    }
    assert(number[0] == a[0]);
    assert(number.last() == b[b.len() - 1]);
    assert(whole.last() == b[b.len() - 1]);
    assert(whole.skip(1) =~= number);
    let k = choose|k: int| 0 <= k < a.len() && is_digit(#[trigger] a[k]) && a[k] != '0';
    assert(number[k] == a[k]);
    law_trimming_takes_off_the_edges(whole);
    assert(is_amount(number));
    assert(above_zero(number));
}

/// What is wrong with a volume name is told by its first fault: that it is
/// empty, climbs, holds a control character, or names no storage.
pub proof fn law_a_volume_name_is_told_its_fault(volid: Seq<char>)
    ensures
        volid.len() == 0 ==> volid_fault(volid) == Some("volid is empty"@),
        volid.len() > 0 && has_text(volid, ".."@) ==> volid_fault(volid) == Some(
            "volid contains '..', which cannot name a Proxmox volume"@,
        ),
        volid.len() > 0 && !has_text(volid, ".."@) && (exists|i: int|
            0 <= i < volid.len() && is_control(#[trigger] volid[i])) ==> volid_fault(volid) == Some(
            "volid contains a control character"@,
        ),
        volid.len() > 0 && !has_text(volid, ".."@) && (forall|i: int|
            0 <= i < volid.len() ==> !is_control(#[trigger] volid[i])) && !volid.contains(':')
            ==> volid_fault(volid) == Some("volid is not in storage:path form"@),
{
}

/// A command is asked after in the guest it runs in, by its own process id, and
/// the question changes nothing.
pub proof fn law_a_command_is_asked_after_by_its_process_id(node: Seq<char>, vmid: u32, pid: u64)
    ensures
        ({
            let request = exec_status_request(node, vmid, pid);
            &&& request.method == Method::Get
            &&& request.path_template == "/api2/json/nodes/{node}/qemu/{vmid}/agent/exec-status"@
            &&& carries(request.params, "node"@, node)
            &&& carries(request.params, "vmid"@, decimal(vmid as nat))
            &&& carries(request.query, "pid"@, decimal(pid as nat))
            &&& request.form.len() == 0
        }),
{
    reveal_strlit("node");
    reveal_strlit("vmid");
    assert("node"@[0] == 'n' && "vmid"@[0] == 'v');
    let request = exec_status_request(node, vmid, pid);
    assert(sole_at(request.params, 0, "node"@, node));
    assert(sole_at(request.params, 1, "vmid"@, decimal(vmid as nat)));
    assert(sole_at(request.query, 0, "pid"@, decimal(pid as nat)));
}

} // verus!
