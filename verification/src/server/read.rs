//! Serving the read catalog.
use vstd::prelude::*;
use vstd::string::*;

use crate::authorized::{AuthorizedGuest, AuthorizedView};
use crate::catalog::{
    catalog, law_catalog_is_total_on_its_names, query_view, read_tool, served_type, type_served_by,
    ReadTool, ToolView,
};
use crate::client::{Request, RequestView};
use crate::inventory::{Cluster, ClusterView};
use crate::json::{
    data_value, find_text, json_of, parse_text, read_data, text_member, JsonShape, JsonView,
};
use crate::selector::GuestType;
use crate::server::admission::{config_view, reach, reached, unit_result};
use crate::text::{
    copy_pairs, decimal, decimal_text, has_text, includes_text, join, join_texts, lemma_has_end,
    lemma_has_middle, lemma_texts_push, lemma_together, pairs, same_text, text_option, texts,
};

verus! {

/// The entry a read is served by, or why it is not: stage 1, an unknown tool,
/// an unknown cluster, in this order.
pub open spec fn read_begun(
    stage_one: Result<(), Seq<char>>,
    tool: Seq<char>,
    config: Option<ClusterView>,
    cluster: Seq<char>,
) -> Result<ToolView, Seq<char>> {
    match stage_one {
        Err(error) => Err(error),
        Ok(_) => match catalog(tool) {
            None => Err("unregistered tool: "@ + tool),
            Some(entry) => match reached(Ok(()), config, cluster) {
                Err(error) => Err(error),
                Ok(_) => Ok(entry),
            },
        },
    }
}

/// Find the entry a read is served by.
pub fn begin_read(
    stage_one: Result<(), String>,
    tool: &str,
    config: Option<&Cluster>,
    cluster: &str,
) -> (r: Result<ReadTool, String>)
    ensures
        match r {
            Ok(entry) => read_begun(
                unit_result(stage_one),
                tool@,
                config_view(config),
                cluster@,
            ) == Ok::<ToolView, Seq<char>>(entry@),
            Err(error) => read_begun(
                unit_result(stage_one),
                tool@,
                config_view(config),
                cluster@,
            ) == Err::<ToolView, Seq<char>>(error@),
        },
{
    match stage_one {
        Err(error) => Err(error),
        Ok(_) => match read_tool(tool) {
            None => {
                let mut text = "unregistered tool: ".to_owned();
                text.append(tool);
                Err(text)
            },
            Some(entry) => match reach(Ok(()), config, cluster) {
                Err(error) => Err(error),
                Ok(_) => Ok(entry),
            },
        },
    }
}

/// The parameters a resolved guest fills in. A path that names the guest type
/// rather than templating it takes no `kind`.
pub open spec fn guest_fill(entry: ToolView, guest: AuthorizedView) -> Seq<(Seq<char>, Seq<char>)> {
    let located = seq![
        ("node"@, guest.guest.node),
        ("vmid"@, decimal(guest.guest.vmid as nat)),
    ];
    if has_text(entry.path, "{kind}"@) {
        located.push(("kind"@, guest.guest.kind.segment()))
    } else {
        located
    }
}

/// The refusal of a guest whose type a tool's path does not serve.
pub open spec fn type_refusal(tool: Seq<char>, served: GuestType, guest: AuthorizedView) -> Seq<
    char,
> {
    if tool == "get_container_ip"@ {
        "get_container_ip requires an LXC guest, but "@ + decimal(guest.guest.vmid as nat)
            + " is a QEMU VM"@
    } else {
        mismatch_text(tool, served, guest.guest.vmid, guest.guest.kind)
    }
}

/// The refusal that names the type a tool needs and the type a guest has.
pub open spec fn mismatch_text(
    tool: Seq<char>,
    needed: GuestType,
    vmid: u32,
    actual: GuestType,
) -> Seq<char> {
    tool + " requires "@ + needed.segment() + " guest "@ + decimal(vmid as nat) + ", but it is "@
        + actual.segment()
}

/// The refusal that names the type a tool needs and the type a guest has.
pub(crate) fn mismatch(tool: &str, needed: GuestType, vmid: u32, actual: GuestType) -> (r: String)
    ensures
        r@ == mismatch_text(tool@, needed, vmid, actual),
{
    let mut text = tool.to_owned();
    text.append(" requires ");
    text.append(needed.path_segment());
    text.append(" guest ");
    text.append(decimal_text(vmid as u64).as_str());
    text.append(", but it is ");
    text.append(actual.path_segment());
    text
}

/// The request of a read: the entry's method, path and query, and the
/// parameters given.
pub open spec fn read_request_view(
    entry: ToolView,
    params: Seq<(Seq<char>, Seq<char>)>,
) -> RequestView {
    RequestView {
        method: entry.method,
        path_template: entry.path,
        params,
        query: entry.query,
        form: Seq::empty(),
    }
}

fn copy_query(v: &Vec<(&'static str, &'static str)>) -> (r: Vec<(String, String)>)
    ensures
        pairs(r@) == query_view(v@),
{
    let mut out: Vec<(String, String)> = Vec::new();
    let mut i: usize = 0;
    while i < v.len()
        invariant
            i <= v@.len(),
            pairs(out@) == query_view(v@).take(i as int),
        decreases v@.len() - i,
    {
        let ghost before = out@;
        out.push((v[i].0.to_owned(), v[i].1.to_owned()));
        proof {
            let x = (v@[i as int].0@, v@[i as int].1@);
            assert(pairs(out@) =~= pairs(before).push(x));
            assert(query_view(v@).take(i as int + 1) =~= query_view(v@).take(i as int).push(x));
        }
        i += 1;
    }
    proof {
        assert(query_view(v@).take(i as int) =~= query_view(v@));
    }
    out
}

/// The request of a read that addresses a cluster, a node, a storage or a task.
pub fn read_request(entry: &ReadTool, params: &Vec<(String, String)>) -> (r: Request)
    ensures
        r@ == read_request_view(entry@, pairs(params@)),
{
    let r = Request {
        method: entry.method,
        path_template: entry.path.to_owned(),
        params: copy_pairs(params),
        query: copy_query(&entry.query),
        form: Vec::new(),
    };
    proof {
        assert(r@.form =~= Seq::empty());
    }
    r
}

/// The request of a read that addresses a guest, or the refusal of a guest of
/// the wrong type.
pub open spec fn guest_read(
    entry: ToolView,
    params: Seq<(Seq<char>, Seq<char>)>,
    guest: AuthorizedView,
) -> Result<RequestView, Seq<char>> {
    match served_type(entry.name) {
        Some(served) => if guest.guest.kind != served {
            Err(type_refusal(entry.name, served, guest))
        } else {
            Ok(read_request_view(entry, params + guest_fill(entry, guest)))
        },
        None => Ok(read_request_view(entry, params + guest_fill(entry, guest))),
    }
}

/// A request or a refusal, as a mathematical value.
pub open spec fn request_result(r: Result<Request, String>) -> Result<RequestView, Seq<char>> {
    match r {
        Ok(request) => Ok(request@),
        Err(error) => Err(error@),
    }
}

/// The request of a read that addresses a guest.
///
/// The node comes from the authorized guest, never from the caller.
pub fn guest_read_request(
    entry: &ReadTool,
    params: &Vec<(String, String)>,
    authorized: &AuthorizedGuest,
) -> (r: Result<Request, String>)
    ensures
        request_result(r) == guest_read(entry@, pairs(params@), authorized@),
{
    let guest = authorized.guest();
    if let Some(served) = type_served_by(entry.name) {
        if guest.kind != served {
            if same_text(entry.name, "get_container_ip") {
                let mut text = "get_container_ip requires an LXC guest, but ".to_owned();
                text.append(decimal_text(guest.vmid as u64).as_str());
                text.append(" is a QEMU VM");
                return Err(text);
            }
            return Err(mismatch(entry.name, served, guest.vmid, guest.kind));
        }
    }
    let mut request = read_request(entry, params);
    let ghost before = request@;
    let mut filled = copy_pairs(params);
    let ghost given = pairs(params@);
    filled.push(("node".to_owned(), guest.node.clone()));
    filled.push(("vmid".to_owned(), decimal_text(guest.vmid as u64)));
    if includes_text(entry.path, "{kind}") {
        filled.push(("kind".to_owned(), guest.kind.path_segment().to_owned()));
    }
    proof {
        assert(pairs(filled@) =~= given + guest_fill(entry@, authorized@));
    }
    request.params = filled;
    Ok(request)
}

/// A read of a guest goes to the node the guest was resolved on, under its own
/// number, whatever else the request carries.
pub proof fn law_a_guest_is_read_where_it_runs(
    entry: ToolView,
    params: Seq<(Seq<char>, Seq<char>)>,
    guest: AuthorizedView,
)
    requires
        guest_read(entry, params, guest) is Ok,
    ensures
        guest_read(entry, params, guest)->Ok_0.params[params.len() as int] == (
            "node"@,
            guest.guest.node,
        ),
        guest_read(entry, params, guest)->Ok_0.params[params.len() as int + 1] == (
            "vmid"@,
            decimal(guest.guest.vmid as nat),
        ),
        served_type(entry.name) matches Some(kind) ==> guest.guest.kind == kind,
{
}

/// Whether the `type` field of a listed entry names a guest type.
pub open spec fn entry_is(kind_field: Option<Seq<char>>, kind: GuestType) -> bool {
    kind_field == Some(kind.segment())
}

/// The `type` field and the JSON text of a listed entry.
pub open spec fn listed_entry(text: Seq<char>) -> (Option<Seq<char>>, Seq<char>) {
    (text_member(data_value(text), "type"@), text)
}

/// The JSON texts of the entries whose `type` field names a guest type, in
/// their order.
pub open spec fn texts_of_type(
    entries: Seq<(Option<Seq<char>>, Seq<char>)>,
    kind: GuestType,
) -> Seq<Seq<char>>
    decreases entries.len(),
{
    if entries.len() == 0 {
        Seq::empty()
    } else if entry_is(entries.last().0, kind) {
        texts_of_type(entries.drop_last(), kind).push(entries.last().1)
    } else {
        texts_of_type(entries.drop_last(), kind)
    }
}

/// The JSON array of the entries of a guest type.
pub open spec fn array_of_type(
    entries: Seq<(Option<Seq<char>>, Seq<char>)>,
    kind: GuestType,
) -> Seq<char> {
    "["@ + join(texts_of_type(entries, kind), ","@) + "]"@
}

/// The data of an answer, filtered to guests of a type where the tool asks for
/// one and the data is a list.
pub open spec fn filtered(data: Seq<char>, filter: Option<GuestType>) -> Seq<char> {
    match filter {
        None => data,
        Some(kind) => match json_of(data) {
            Some(JsonView::Array(items)) => array_of_type(
                items.map_values(|text: Seq<char>| listed_entry(text)),
                kind,
            ),
            _ => data,
        },
    }
}

/// Listed entries, each with its `type` field and its JSON text.
pub open spec fn entry_views(v: Seq<(Option<String>, String)>) -> Seq<
    (Option<Seq<char>>, Seq<char>),
> {
    v.map_values(|e: (Option<String>, String)| (text_option(e.0), e.1@))
}

/// Write the JSON array of the entries of a guest type. Each entry is given by
/// its `type` field, where that is a string, and its JSON text.
pub fn keep_type(entries: &Vec<(Option<String>, String)>, kind: GuestType) -> (r: String)
    ensures
        r@ == array_of_type(entry_views(entries@), kind),
{
    let ghost all = entry_views(entries@);
    let mut kept: Vec<String> = Vec::new();
    let mut i: usize = 0;
    proof {
        assert(all.take(0) =~= Seq::<(Option<Seq<char>>, Seq<char>)>::empty());
        assert(texts(kept@) =~= Seq::<Seq<char>>::empty());
    }
    while i < entries.len()
        invariant
            i <= entries@.len(),
            all == entry_views(entries@),
            texts(kept@) == texts_of_type(all.take(i as int), kind),
        decreases entries@.len() - i,
    {
        proof {
            assert(all.take(i as int + 1).drop_last() =~= all.take(i as int));
            assert(all.take(i as int + 1).last() == (
                text_option(entries@[i as int].0),
                entries@[i as int].1@,
            ));
            lemma_texts_push(kept@, entries@[i as int].1);
        }
        let of_type = match &entries[i].0 {
            Some(found) => same_text(found.as_str(), kind.path_segment()),
            None => false,
        };
        if of_type {
            kept.push(entries[i].1.clone());
        }
        i += 1;
    }
    proof {
        assert(all.take(i as int) =~= all);
    }
    let mut out = "[".to_owned();
    out.append(join_texts(&kept, ",").as_str());
    out.append("]");
    out
}

/// Filter the data of an answer to guests of a type.
pub fn filter_listing(data: &str, filter: Option<GuestType>) -> (r: String)
    ensures
        r@ == filtered(data@, filter),
{
    let kind = match filter {
        Some(kind) => kind,
        None => {
            return data.to_owned();
        },
    };
    match parse_text(data) {
        Some(JsonShape::Array(items)) => {
            let ghost all = texts(items@).map_values(|text: Seq<char>| listed_entry(text));
            let mut entries: Vec<(Option<String>, String)> = Vec::new();
            let mut i: usize = 0;
            proof {
                assert(entry_views(entries@) =~= all.take(0));
            }
            while i < items.len()
                invariant
                    i <= items@.len(),
                    all == texts(items@).map_values(|text: Seq<char>| listed_entry(text)),
                    entry_views(entries@) == all.take(i as int),
                decreases items@.len() - i,
            {
                let value = read_data(items[i].as_str());
                let found = find_text(&value, "type");
                let text = items[i].clone();
                let ghost before = entries@;
                let ghost entry = (text_option(found), text@);
                entries.push((found, text));
                proof {
                    assert(entry_views(entries@) =~= entry_views(before).push(entry));
                    assert(all[i as int] == entry);
                    assert(all.take(i as int + 1) =~= all.take(i as int).push(entry));
                }
                i += 1;
            }
            proof {
                assert(all.take(i as int) =~= all);
            }
            keep_type(&entries, kind)
        },
        _ => data.to_owned(),
    }
}

/// A read is served by the entry of the tool that was asked for, once stage 1
/// let it through and its cluster is configured.
pub proof fn law_a_read_is_served_by_its_own_entry(
    stage_one: Result<(), Seq<char>>,
    tool: Seq<char>,
    config: Option<ClusterView>,
    cluster: Seq<char>,
)
    ensures
        read_begun(stage_one, tool, config, cluster) is Ok <==> stage_one is Ok && catalog(tool)
            is Some && config is Some,
        read_begun(stage_one, tool, config, cluster) matches Ok(entry) ==> catalog(tool) == Some(
            entry,
        ) && entry.name == tool,
        stage_one matches Err(error) ==> read_begun(stage_one, tool, config, cluster) == Err::<
            ToolView,
            Seq<char>,
        >(error),
{
    law_catalog_is_total_on_its_names(tool);
}

/// A read asks for what its entry says and sends nothing else: the entry's
/// method, path and query, the parameters that were given as they were given,
/// and no form. Where the path asks for the guest's type it is the guest's own.
pub proof fn law_a_read_asks_for_what_its_entry_says(
    entry: ToolView,
    params: Seq<(Seq<char>, Seq<char>)>,
    guest: AuthorizedView,
)
    requires
        guest_read(entry, params, guest) is Ok,
    ensures
        ({
            let request = guest_read(entry, params, guest)->Ok_0;
            &&& request.method == entry.method
            &&& request.path_template == entry.path
            &&& request.query == entry.query
            &&& request.form.len() == 0
            &&& request.params.take(params.len() as int) == params
            &&& has_text(entry.path, "{kind}"@) ==> request.params.len() == params.len() + 3
                && request.params.last() == ("kind"@, if guest.guest.kind == GuestType::Qemu {
                "qemu"@
            } else {
                "lxc"@
            })
            &&& !has_text(entry.path, "{kind}"@) ==> request.params.len() == params.len() + 2
        }),
{
    let request = guest_read(entry, params, guest)->Ok_0;
    assert(request.params.take(params.len() as int) =~= params);
}

/// A tool for one guest type refuses a guest of the other, and no tool refuses
/// a guest for anything but its type.
pub proof fn law_a_guest_is_refused_for_its_type_alone(
    entry: ToolView,
    params: Seq<(Seq<char>, Seq<char>)>,
    guest: AuthorizedView,
)
    ensures
        guest_read(entry, params, guest) is Err <==> (entry.name == "get_vm_config"@
            && guest.guest.kind == GuestType::Lxc) || ((entry.name == "get_container_config"@
            || entry.name == "get_container_ip"@) && guest.guest.kind == GuestType::Qemu),
{
    reveal_strlit("get_vm_config");
    reveal_strlit("get_container_config");
    reveal_strlit("get_container_ip");
    assert("get_vm_config"@.len() == 13);
    assert("get_container_config"@.len() == 20);
    assert("get_container_ip"@.len() == 16);
}

/// A listing keeps the entries whose `type` field names the guest type, all of
/// them, as they came and in their order, and no others.
pub proof fn law_a_listing_keeps_the_entries_of_its_type(
    entries: Seq<(Option<Seq<char>>, Seq<char>)>,
    kind: GuestType,
)
    ensures
        texts_of_type(entries, kind) == entries.filter(
            |e: (Option<Seq<char>>, Seq<char>)|
                e.0 == Some(
                    if kind == GuestType::Qemu {
                        "qemu"@
                    } else {
                        "lxc"@
                    },
                ),
        ).map_values(|e: (Option<Seq<char>>, Seq<char>)| e.1),
    decreases entries.len(),
{
    let keep = |e: (Option<Seq<char>>, Seq<char>)|
        e.0 == Some(
            if kind == GuestType::Qemu {
                "qemu"@
            } else {
                "lxc"@
            },
        );
    let text = |e: (Option<Seq<char>>, Seq<char>)| e.1;
    reveal(Seq::filter);
    if entries.len() == 0 {
        assert(texts_of_type(entries, kind) =~= entries.filter(keep).map_values(text));
    } else {
        law_a_listing_keeps_the_entries_of_its_type(entries.drop_last(), kind);
        assert(texts_of_type(entries, kind) =~= entries.filter(keep).map_values(text));
    }
}

/// Without a type filter an answer's data is handed on as it came, and so is
/// data that is no list.
pub proof fn law_what_is_not_filtered_is_handed_on(data: Seq<char>, filter: Option<GuestType>)
    ensures
        filter is None ==> filtered(data, filter) == data,
        !(json_of(data) matches Some(JsonView::Array(_))) ==> filtered(data, filter) == data,
        filter matches Some(kind) ==> (json_of(data) matches Some(JsonView::Array(items))
            ==> filtered(data, filter) == "["@ + join(
            texts_of_type(items.map_values(|text: Seq<char>| listed_entry(text)), kind),
            ","@,
        ) + "]"@),
        listed_entry(data) == (text_member(data_value(data), "type"@), data),
{
}

/// A guest of the wrong type is told so: the refusal names the tool, the type
/// it needs, the guest's vmid and the type the guest has.
pub proof fn law_a_mismatch_names_both_types(
    tool: Seq<char>,
    needed: GuestType,
    vmid: u32,
    actual: GuestType,
)
    ensures
        has_text(
            mismatch_text(tool, needed, vmid, actual),
            tool + " requires "@ + needed.segment() + " guest "@ + decimal(vmid as nat),
        ),
        has_text(
            mismatch_text(tool, needed, vmid, actual),
            ", but it is "@ + actual.segment(),
        ),
{
    let head = tool + " requires "@ + needed.segment() + " guest "@ + decimal(vmid as nat);
    let tail = ", but it is "@ + actual.segment();
    let none = Seq::<char>::empty();
    lemma_together(head, ", but it is "@, actual.segment());
    lemma_has_end(head, tail);
    lemma_has_middle(none, head, tail);
    assert(none + head =~= head);
}

/// A read is refused for the first of its faults: stage 1, then a tool that is
/// not registered, then a cluster that is not configured; each by name.
pub proof fn law_a_read_is_refused_for_its_first_fault(
    tool: Seq<char>,
    config: Option<ClusterView>,
    cluster: Seq<char>,
)
    ensures
        catalog(tool) is None ==> read_begun(Ok(()), tool, config, cluster) == Err::<
            ToolView,
            Seq<char>,
        >("unregistered tool: "@ + tool),
        catalog(tool) is Some && config is None ==> read_begun(Ok(()), tool, config, cluster)
            == Err::<ToolView, Seq<char>>("unknown cluster: "@ + cluster),
{
}

} // verus!
