//! Typed Proxmox VE API errors.
//!
//! Proxmox answers a failure with an HTTP status and, usually, a JSON body
//! carrying an `errors` map. Both halves are peer-controlled, so neither is
//! passed through verbatim: the text is bounded and stripped of control
//! characters before it can reach a log or an MCP error message.
use vstd::prelude::*;
use vstd::string::*;
use vstd::utf8::{decode_utf8, encode_scalar, encode_utf8, valid_utf8};

use crate::json::{find_member, json_of, member, parse_text, JsonShape, JsonView};
use crate::order::{
    law_sorting_forgets_order, lemma_text_order_total, sort_texts, sorted_texts, text_order,
};
use crate::text::{
    chars_of, control_char, decimal, decimal_text, has_text, is_control, join, join_texts,
    lemma_has_end, lemma_join_has_parts, lemma_texts_push, lemma_together, pairs, text_of, texts,
};

verus! {

/// Longest error detail retained from a peer-supplied body.
pub const MAX_DETAIL_BYTES: usize = 512;

/// A failure talking to a Proxmox VE cluster.
#[derive(Debug, PartialEq, Eq)]
pub enum ProxmoxError {
    /// The outbound HTTP layer refused or failed the request; carries its
    /// message.
    Http(String),
    /// The cluster answered with an error status.
    Api {
        /// HTTP status returned by the cluster.
        status: u16,
        /// Bounded, control-stripped detail.
        message: String,
    },
    /// The cluster rejected our credentials (401 or 403 from a response).
    ///
    /// Distinct from [`ProxmoxError::Denied`], which is us rejecting the
    /// *caller's* token. This is the cluster rejecting *ours*.
    ///
    /// Carries no body: a 401 body has been observed to echo the presented
    /// credential back, and this error is rendered into logs and MCP results.
    Unauthorized,
    /// The caller's token does not permit this.
    Denied(String),
    /// The cluster has no such object.
    NotFound {
        /// What was looked up, in the server's own vocabulary.
        what: String,
    },
    /// A response did not have the shape the API documents.
    Malformed(String),
    /// A local configuration or credential problem, before any request is made.
    ///
    /// Distinct from [`ProxmoxError::Malformed`], which describes a response
    /// that arrived in the wrong shape. Nothing has been sent when this is
    /// returned.
    Config(String),
    /// The request named a cluster absent from the inventory.
    UnknownCluster(String),
}

/// A failure talking to a cluster, as a mathematical value.
pub enum ErrorView {
    Http(Seq<char>),
    Api { status: u16, message: Seq<char> },
    Unauthorized,
    Denied(Seq<char>),
    NotFound { what: Seq<char> },
    Malformed(Seq<char>),
    Config(Seq<char>),
    UnknownCluster(Seq<char>),
}

impl View for ProxmoxError {
    type V = ErrorView;

    open spec fn view(&self) -> ErrorView {
        match self {
            ProxmoxError::Http(s) => ErrorView::Http(s@),
            ProxmoxError::Api { status, message } => ErrorView::Api {
                status: *status,
                message: message@,
            },
            ProxmoxError::Unauthorized => ErrorView::Unauthorized,
            ProxmoxError::Denied(s) => ErrorView::Denied(s@),
            ProxmoxError::NotFound { what } => ErrorView::NotFound { what: what@ },
            ProxmoxError::Malformed(s) => ErrorView::Malformed(s@),
            ProxmoxError::Config(s) => ErrorView::Config(s@),
            ProxmoxError::UnknownCluster(s) => ErrorView::UnknownCluster(s@),
        }
    }
}

impl ErrorView {
    /// The message a caller reads.
    pub open spec fn message(self) -> Seq<char> {
        match self {
            ErrorView::Http(s) => "http: "@ + s,
            ErrorView::Api { status, message } => "proxmox api error (status "@ + decimal(
                status as nat,
            ) + "): "@ + message,
            ErrorView::Unauthorized => "proxmox api rejected the configured credentials"@,
            ErrorView::Denied(s) => "denied: "@ + s,
            ErrorView::NotFound { what } => "not found: "@ + what,
            ErrorView::Malformed(s) => "malformed proxmox response: "@ + s,
            ErrorView::Config(s) => "configuration error: "@ + s,
            ErrorView::UnknownCluster(s) => "unknown cluster: "@ + s,
        }
    }

    /// Whether the cluster answered and refused, so that nothing was done.
    ///
    /// After a transport failure or an unreadable answer the request may have
    /// been accepted all the same.
    pub open spec fn definitive(self) -> bool {
        match self {
            ErrorView::Api { .. } => true,
            ErrorView::Unauthorized => true,
            ErrorView::Denied(_) => true,
            ErrorView::NotFound { .. } => true,
            _ => false,
        }
    }
}

fn prefixed(prefix: &str, text: &str) -> (r: String)
    ensures
        r@ == prefix@ + text@,
{
    let mut out = prefix.to_owned();
    out.append(text);
    out
}

/// The characters each field name and reason of an error body renders to.
pub open spec fn reason_texts(fields: Seq<(Seq<char>, Seq<char>)>) -> Seq<Seq<char>> {
    fields.map_values(|f: (Seq<char>, Seq<char>)| f.0 + ": "@ + f.1)
}

/// The detail an `errors` map renders to: its entries in order, one
/// `field: reason` each.
pub open spec fn reasons_joined(fields: Seq<(Seq<char>, Seq<char>)>) -> Seq<char> {
    join(sorted_texts(reason_texts(fields)), "; "@)
}

/// A reason's own words where it is a string, its JSON text otherwise.
pub open spec fn reason_of(text: Seq<char>) -> Seq<char> {
    match json_of(text) {
        Some(JsonView::Text(s)) => s,
        _ => text,
    }
}

/// The `errors` map of an error body, where it has one.
pub open spec fn error_map(text: Seq<char>) -> Option<Seq<(Seq<char>, Seq<char>)>> {
    match json_of(text) {
        Some(value) => match member(value, "errors"@) {
            Some(errors) => match json_of(errors) {
                Some(JsonView::Object(fields)) => Some(
                    fields.map_values(|f: (Seq<char>, Seq<char>)| (f.0, reason_of(f.1))),
                ),
                _ => None,
            },
            None => None,
        },
        None => None,
    }
}

/// The number of bytes a character takes in UTF-8.
pub open spec fn width(c: char) -> nat {
    let u = c as u32;
    if u < 0x80 {
        1
    } else if u < 0x800 {
        2
    } else if u < 0x10000 {
        3
    } else {
        4
    }
}

/// The number of bytes a text takes in UTF-8.
pub open spec fn byte_length(s: Seq<char>) -> nat
    decreases s.len(),
{
    if s.len() == 0 {
        0
    } else {
        byte_length(s.drop_last()) + width(s.last())
    }
}

/// The longest prefix of `s` that takes at most `limit` bytes.
pub open spec fn bounded(s: Seq<char>, limit: nat) -> Seq<char>
    decreases s.len(),
{
    if s.len() == 0 || byte_length(s) <= limit {
        s
    } else {
        bounded(s.drop_last(), limit)
    }
}

/// `s` without its control characters.
pub open spec fn without_control(s: Seq<char>) -> Seq<char> {
    s.filter(|c: char| !is_control(c))
}

/// What is kept of a peer-supplied text.
pub open spec fn inert(s: Seq<char>) -> Seq<char> {
    bounded(without_control(s), MAX_DETAIL_BYTES as nat)
}

/// What `String::from_utf8_lossy` reads bytes as.
pub uninterp spec fn utf8_lossy(bytes: Seq<u8>) -> Seq<char>;

/// `String::from_utf8_lossy`. Its result depends on the bytes alone and goes by
/// the name [`utf8_lossy`]; of bytes that are valid UTF-8 it is the text they
/// encode.
#[verifier::external_body]
pub(crate) fn lossy_text(bytes: &[u8]) -> (r: String)
    ensures
        r@ == utf8_lossy(bytes@),
        valid_utf8(bytes@) ==> r@ == decode_utf8(bytes@),
{
    String::from_utf8_lossy(bytes).into_owned()
}

/// The detail of a peer-supplied body: its `errors` map, or else its text,
/// made inert.
pub open spec fn detail_of(body: Seq<u8>) -> Seq<char> {
    match error_map(utf8_lossy(body)) {
        Some(fields) => inert(reasons_joined(fields)),
        None => inert(utf8_lossy(body)),
    }
}

impl ProxmoxError {
    /// Classify a non-success response.
    ///
    /// Both 401 and 403 mean the cluster rejected the credentials this server
    /// presented, so they are reduced to [`ProxmoxError::Unauthorized`] with
    /// the body discarded.
    #[must_use]
    pub fn from_response(status: u16, body: &[u8]) -> (r: Self)
        ensures
            r@ == if status == 401 || status == 403 {
                ErrorView::Unauthorized
            } else {
                ErrorView::Api { status, message: detail_of(body@) }
            },
    {
        if status == 401 || status == 403 {
            return ProxmoxError::Unauthorized;
        }
        ProxmoxError::Api { status, message: extract_detail(body) }
    }

    /// The message a caller reads.
    pub fn message(&self) -> (r: String)
        ensures
            r@ == self@.message(),
    {
        match self {
            ProxmoxError::Http(s) => prefixed("http: ", s.as_str()),
            ProxmoxError::Api { status, message } => {
                let mut out = "proxmox api error (status ".to_owned();
                out.append(decimal_text(*status as u64).as_str());
                out.append("): ");
                out.append(message.as_str());
                out
            },
            ProxmoxError::Unauthorized => "proxmox api rejected the configured credentials".to_owned(),
            ProxmoxError::Denied(s) => prefixed("denied: ", s.as_str()),
            ProxmoxError::NotFound { what } => prefixed("not found: ", what.as_str()),
            ProxmoxError::Malformed(s) => prefixed("malformed proxmox response: ", s.as_str()),
            ProxmoxError::Config(s) => prefixed("configuration error: ", s.as_str()),
            ProxmoxError::UnknownCluster(s) => prefixed("unknown cluster: ", s.as_str()),
        }
    }

    /// Whether the cluster answered and refused, so that nothing was done.
    pub fn is_definitive(&self) -> (r: bool)
        ensures
            r == self@.definitive(),
    {
        match self {
            ProxmoxError::Api { .. } => true,
            ProxmoxError::Unauthorized => true,
            ProxmoxError::Denied(_) => true,
            ProxmoxError::NotFound { .. } => true,
            _ => false,
        }
    }
}

/// Render the entries of an `errors` map.
pub fn join_reasons(fields: &Vec<(String, String)>) -> (r: String)
    ensures
        r@ == reasons_joined(pairs(fields@)),
{
    let ghost all = pairs(fields@);
    let mut parts: Vec<String> = Vec::new();
    let mut i: usize = 0;
    proof {
        assert(texts(parts@) =~= reason_texts(all).take(0));
    }
    while i < fields.len()
        invariant
            i <= fields@.len(),
            all == pairs(fields@),
            texts(parts@) == reason_texts(all).take(i as int),
        decreases fields@.len() - i,
    {
        let mut part = fields[i].0.clone();
        part.append(": ");
        part.append(fields[i].1.as_str());
        proof {
            lemma_texts_push(parts@, part);
            assert(reason_texts(all)[i as int] == part@);
            assert(reason_texts(all).take(i as int + 1) =~= reason_texts(all).take(i as int).push(
                part@,
            ));
        }
        parts.push(part);
        i += 1;
    }
    proof {
        assert(reason_texts(all).take(i as int) =~= reason_texts(all));
    }
    join_texts(&sort_texts(&parts), "; ")
}

/// Read the `errors` map of an error body.
fn errors_in(text: &str) -> (r: Option<Vec<(String, String)>>)
    ensures
        match r {
            Some(fields) => error_map(text@) == Some(pairs(fields@)),
            None => error_map(text@) is None,
        },
{
    let value = match parse_text(text) {
        Some(value) => value,
        None => {
            return None;
        },
    };
    let errors = match find_member(&value, "errors") {
        Some(errors) => errors,
        None => {
            return None;
        },
    };
    match parse_text(errors.as_str()) {
        Some(JsonShape::Object(fields)) => {
            let ghost all = pairs(fields@);
            let ghost read = all.map_values(|f: (Seq<char>, Seq<char>)| (f.0, reason_of(f.1)));
            let mut out: Vec<(String, String)> = Vec::new();
            let mut i: usize = 0;
            proof {
                assert(pairs(out@) =~= read.take(0));
            }
            while i < fields.len()
                invariant
                    i <= fields@.len(),
                    all == pairs(fields@),
                    read == all.map_values(|f: (Seq<char>, Seq<char>)| (f.0, reason_of(f.1))),
                    pairs(out@) == read.take(i as int),
                decreases fields@.len() - i,
            {
                let reason = match parse_text(fields[i].1.as_str()) {
                    Some(JsonShape::Text(s)) => s,
                    _ => fields[i].1.clone(),
                };
                let ghost before = out@;
                out.push((fields[i].0.clone(), reason));
                proof {
                    assert(pairs(out@) =~= pairs(before).push((fields@[i as int].0@, reason@)));
                    assert(read.take(i as int + 1) =~= read.take(i as int).push(
                        (fields@[i as int].0@, reason@),
                    ));
                }
                i += 1;
            }
            proof {
                assert(read.take(i as int) =~= read);
            }
            Some(out)
        },
        _ => None,
    }
}

/// Render a peer-supplied body into bounded, inert detail.
pub fn extract_detail(body: &[u8]) -> (r: String)
    ensures
        r@ == detail_of(body@),
{
    let text = lossy_text(body);
    match errors_in(text.as_str()) {
        Some(fields) => sanitise(join_reasons(&fields).as_str()),
        None => sanitise(text.as_str()),
    }
}

proof fn lemma_byte_length_grows(s: Seq<char>, n: int)
    requires
        0 <= n <= s.len(),
    ensures
        byte_length(s.take(n)) <= byte_length(s),
    decreases s.len(),
{
    if n == s.len() {
        assert(s.take(n) =~= s);
    } else {
        lemma_byte_length_grows(s.drop_last(), n);
        assert(s.drop_last().take(n) =~= s.take(n));
    }
}

proof fn lemma_bounded_at(s: Seq<char>, limit: nat, n: int)
    requires
        0 <= n <= s.len(),
        byte_length(s.take(n)) <= limit,
        n < s.len() ==> byte_length(s.take(n + 1)) > limit,
    ensures
        bounded(s, limit) == s.take(n),
    decreases s.len(),
{
    if n == s.len() {
        assert(s.take(n) =~= s);
    } else {
        lemma_byte_length_grows(s, n + 1);
        assert(s.drop_last().take(n) =~= s.take(n));
        if n + 1 <= s.drop_last().len() {
            assert(s.drop_last().take(n + 1) =~= s.take(n + 1));
        }
        lemma_bounded_at(s.drop_last(), limit, n);
    }
}

fn width_of(c: char) -> (r: usize)
    ensures
        r == width(c),
{
    let u: u32 = c as u32;
    if u < 0x80 {
        1
    } else if u < 0x800 {
        2
    } else if u < 0x10000 {
        3
    } else {
        4
    }
}

/// Truncate on a character boundary and drop control characters.
pub fn sanitise(input: &str) -> (r: String)
    ensures
        r@ == inert(input@),
{
    let v = chars_of(input);
    let mut kept: Vec<char> = Vec::new();
    let mut i: usize = 0;
    let ghost keep = |c: char| !is_control(c);
    proof {
        assert(input@.take(0).filter(keep) =~= Seq::<char>::empty());
    }
    while i < v.len()
        invariant
            v@ == input@,
            i <= v@.len(),
            keep == |c: char| !is_control(c),
            kept@ == input@.take(i as int).filter(keep),
        decreases v@.len() - i,
    {
        proof {
            assert(input@.take(i as int + 1).drop_last() =~= input@.take(i as int));
            reveal(Seq::filter);
        }
        if !control_char(v[i]) {
            kept.push(v[i]);
        }
        i += 1;
    }
    proof {
        assert(input@.take(i as int) =~= input@);
    }
    let ghost clean = without_control(input@);
    let mut total: usize = 0;
    let mut n: usize = 0;
    while n < kept.len() && total + width_of(kept[n]) <= MAX_DETAIL_BYTES
        invariant
            kept@ == clean,
            n <= kept@.len(),
            total <= MAX_DETAIL_BYTES,
            total == byte_length(clean.take(n as int)),
        decreases kept@.len() - n,
    {
        proof {
            assert(clean.take(n as int + 1).drop_last() =~= clean.take(n as int));
        }
        total = total + width_of(kept[n]);
        n += 1;
    }
    proof {
        if n < kept@.len() {
            assert(clean.take(n as int + 1).drop_last() =~= clean.take(n as int));
        }
        lemma_bounded_at(clean, MAX_DETAIL_BYTES as nat, n as int);
    }
    let r = text_of(&kept, 0, n);
    proof {
        assert(r@ =~= clean.take(n as int));
    }
    r
}

// ---------------------------------------------------------------------------
// What holds of every detail
// ---------------------------------------------------------------------------
proof fn lemma_encode_width(c: char)
    ensures
        encode_scalar(c as u32).len() == width(c),
{
    vstd::utf8::char_is_scalar(c);
}

/// `byte_length` counts the bytes of the UTF-8 encoding.
pub proof fn lemma_byte_length_is_utf8_length(s: Seq<char>)
    ensures
        encode_utf8(s).len() == byte_length(s),
    decreases s.len(),
{
    if s.len() > 0 {
        lemma_byte_length_is_utf8_length(s.drop_first());
        lemma_encode_width(s[0]);
        lemma_byte_length_front(s);
    }
}

proof fn lemma_byte_length_front(s: Seq<char>)
    requires
        s.len() > 0,
    ensures
        byte_length(s) == width(s[0]) + byte_length(s.drop_first()),
    decreases s.len(),
{
    if s.len() > 1 {
        lemma_byte_length_front(s.drop_last());
        assert(s.drop_last().drop_first() =~= s.drop_first().drop_last());
    } else {
        assert(s.drop_last() =~= Seq::<char>::empty());
        assert(s.drop_first() =~= Seq::<char>::empty());
        assert(byte_length(s) == byte_length(s.drop_last()) + width(s.last()));
    }
}

proof fn lemma_bounded(s: Seq<char>, limit: nat)
    ensures
        byte_length(bounded(s, limit)) <= limit,
        bounded(s, limit).is_prefix_of(s),
    decreases s.len(),
{
    if s.len() == 0 || byte_length(s) <= limit {
        assert(s.take(s.len() as int) =~= s);
    } else {
        lemma_bounded(s.drop_last(), limit);
        let p = bounded(s.drop_last(), limit);
        assert(s.take(p.len() as int) =~= s.drop_last().take(p.len() as int));
    }
}

/// Whatever a peer sends, what is kept of it takes at most 512 bytes and holds
/// no control character.
pub proof fn law_detail_is_bounded_and_inert(s: Seq<char>)
    ensures
        encode_utf8(inert(s)).len() <= MAX_DETAIL_BYTES,
        forall|i: int| 0 <= i < inert(s).len() ==> !is_control(#[trigger] inert(s)[i]),
{
    let clean = without_control(s);
    lemma_bounded(clean, MAX_DETAIL_BYTES as nat);
    lemma_byte_length_is_utf8_length(inert(s));
    let keep = |c: char| !is_control(c);
    assert forall|i: int| 0 <= i < inert(s).len() implies !is_control(#[trigger] inert(s)[i]) by {
        assert(clean.take(inert(s).len() as int)[i] == clean[i]);
        s.lemma_filter_pred(keep, i);
    }
}

/// Only an answer is definitive: what the cluster refused, or what was refused
/// before anything was sent to it. A transport failure, an unreadable answer
/// and a configuration problem say nothing of what became of a request.
pub proof fn law_only_a_refusal_is_definitive(error: ErrorView)
    ensures
        error.definitive() <==> error is Api || error is Unauthorized || error is Denied || error
            is NotFound,
{
}

/// A message tells what failed and how: it begins with the kind of the failure
/// and holds what is known of it.
pub proof fn law_a_message_tells_what_failed(error: ErrorView)
    ensures
        error matches ErrorView::Http(s) ==> "http: "@.is_prefix_of(error.message()) && has_text(
            error.message(),
            s,
        ),
        error matches ErrorView::Api { status, message } ==> has_text(
            error.message(),
            decimal(status as nat) + "): "@ + message,
        ),
        error matches ErrorView::Denied(s) ==> "denied: "@.is_prefix_of(error.message())
            && has_text(error.message(), s),
        error matches ErrorView::NotFound { what } ==> "not found: "@.is_prefix_of(error.message())
            && has_text(error.message(), what),
        error matches ErrorView::Malformed(s) ==> "malformed proxmox response: "@.is_prefix_of(
            error.message(),
        ) && has_text(error.message(), s),
        error matches ErrorView::Config(s) ==> "configuration error: "@.is_prefix_of(
            error.message(),
        ) && has_text(error.message(), s),
        error matches ErrorView::UnknownCluster(s) ==> "unknown cluster: "@.is_prefix_of(
            error.message(),
        ) && has_text(error.message(), s),
{
    match error {
        ErrorView::Http(s) => lemma_prefixed("http: "@, s),
        ErrorView::Api { status, message } => {
            let head = "proxmox api error (status "@;
            lemma_together(head, decimal(status as nat), "): "@);
            lemma_together(head, decimal(status as nat) + "): "@, message);
            lemma_has_end(head, decimal(status as nat) + "): "@ + message);
        },
        ErrorView::Unauthorized => {},
        ErrorView::Denied(s) => lemma_prefixed("denied: "@, s),
        ErrorView::NotFound { what } => lemma_prefixed("not found: "@, what),
        ErrorView::Malformed(s) => lemma_prefixed("malformed proxmox response: "@, s),
        ErrorView::Config(s) => lemma_prefixed("configuration error: "@, s),
        ErrorView::UnknownCluster(s) => lemma_prefixed("unknown cluster: "@, s),
    }
}

proof fn lemma_prefixed(head: Seq<char>, tail: Seq<char>)
    ensures
        head.is_prefix_of(head + tail),
        has_text(head + tail, tail),
{
    assert((head + tail).take(head.len() as int) =~= head);
    lemma_has_end(head, tail);
}

proof fn lemma_bounded_is_longest(s: Seq<char>, limit: nat)
    ensures
        byte_length(s) <= limit ==> bounded(s, limit) == s,
        bounded(s, limit).len() < s.len() ==> byte_length(
            s.take(bounded(s, limit).len() as int + 1),
        ) > limit,
    decreases s.len(),
{
    if s.len() > 0 && byte_length(s) > limit {
        lemma_bounded(s.drop_last(), limit);
        lemma_bounded_is_longest(s.drop_last(), limit);
        let n = bounded(s, limit).len() as int;
        if n < s.len() - 1 {
            assert(s.take(n + 1) =~= s.drop_last().take(n + 1));
        } else {
            assert(s.take(n + 1) =~= s);
        }
    }
}

/// Nothing of a peer's text is lost but its control characters and what is over
/// the limit: a text without control characters that fits is kept whole, and
/// one that does not fit is cut at the last character that does.
pub proof fn law_detail_is_cut_only_where_it_must_be(s: Seq<char>)
    requires
        forall|i: int| 0 <= i < s.len() ==> !is_control(#[trigger] s[i]),
    ensures
        inert(s).is_prefix_of(s),
        encode_utf8(s).len() <= 512 ==> inert(s) == s,
        inert(s).len() < s.len() ==> encode_utf8(s.take(inert(s).len() as int + 1)).len() > 512,
{
    lemma_nothing_to_strip(s);
    lemma_bounded(s, MAX_DETAIL_BYTES as nat);
    lemma_bounded_is_longest(s, MAX_DETAIL_BYTES as nat);
    lemma_byte_length_is_utf8_length(s);
    if inert(s).len() < s.len() {
        lemma_byte_length_is_utf8_length(s.take(inert(s).len() as int + 1));
    }
}

proof fn lemma_nothing_to_strip(s: Seq<char>)
    requires
        forall|i: int| 0 <= i < s.len() ==> !is_control(#[trigger] s[i]),
    ensures
        without_control(s) == s,
    decreases s.len(),
{
    reveal(Seq::filter);
    if s.len() > 0 {
        let front = s.drop_last();
        assert forall|i: int| 0 <= i < front.len() implies !is_control(#[trigger] front[i]) by {
            assert(front[i] == s[i]);
        }
        lemma_nothing_to_strip(front);
        assert(!is_control(s[s.len() - 1]));
        assert(front.push(s.last()) =~= s);
    }
    assert(without_control(s) =~= s);
}

/// Every reason of an error body is told, with the field it is about.
pub proof fn law_every_reason_is_told(fields: Seq<(Seq<char>, Seq<char>)>, i: int)
    requires
        0 <= i < fields.len(),
    ensures
        has_text(reasons_joined(fields), fields[i].0 + ": "@ + fields[i].1),
{
    let all = reason_texts(fields);
    let sorted = sorted_texts(all);
    lemma_text_order_total();
    all.lemma_sort_by_ensures(text_order());
    let reason = fields[i].0 + ": "@ + fields[i].1;
    assert(all[i] == reason);
    assert(all.contains(reason));
    all.to_multiset_ensures();
    sorted.to_multiset_ensures();
    assert(sorted.to_multiset().count(reason) > 0);
    assert(sorted.contains(reason));
    let k = choose|k: int| 0 <= k < sorted.len() && sorted[k] == reason;
    lemma_join_has_parts(sorted, "; "@, k);
}

/// An error body is read by its `errors` map, where it has one: every field
/// under its own name, a reason that is a string as its own words.
pub proof fn law_an_error_body_is_read_by_its_map(
    text: Seq<char>,
    value: JsonView,
    errors: Seq<char>,
    fields: Seq<(Seq<char>, Seq<char>)>,
    i: int,
)
    requires
        json_of(text) == Some(value),
        member(value, "errors"@) == Some(errors),
        json_of(errors) == Some(JsonView::Object(fields)),
        0 <= i < fields.len(),
    ensures
        error_map(text) is Some,
        error_map(text)->0.len() == fields.len(),
        error_map(text)->0[i].0 == fields[i].0,
        json_of(fields[i].1) matches Some(JsonView::Text(words)) ==> error_map(text)->0[i].1
            == words,
        !(json_of(fields[i].1) matches Some(JsonView::Text(_))) ==> error_map(text)->0[i].1
            == fields[i].1,
{
}

/// A body without an `errors` map is told by its own text, and one with a map
/// by the map; both within the same bounds.
pub proof fn law_a_body_is_told_by_its_map_or_its_text(body: Seq<u8>)
    ensures
        error_map(utf8_lossy(body)) is None ==> detail_of(body) == inert(utf8_lossy(body)),
        error_map(utf8_lossy(body)) matches Some(fields) ==> detail_of(body) == inert(
            reasons_joined(fields),
        ),
        encode_utf8(detail_of(body)).len() <= 512,
        forall|i: int| 0 <= i < detail_of(body).len() ==> !is_control(#[trigger] detail_of(body)[i]),
{
    law_detail_is_bounded_and_inert(utf8_lossy(body));
    if let Some(fields) = error_map(utf8_lossy(body)) {
        law_detail_is_bounded_and_inert(reasons_joined(fields));
    }
}

/// The order in which a peer lists its reasons makes no difference to what is
/// told of them.
pub proof fn law_reasons_are_told_in_one_order(
    a: Seq<(Seq<char>, Seq<char>)>,
    b: Seq<(Seq<char>, Seq<char>)>,
)
    requires
        reason_texts(a).to_multiset() == reason_texts(b).to_multiset(),
    ensures
        reasons_joined(a) == reasons_joined(b),
{
    law_sorting_forgets_order(reason_texts(a), reason_texts(b));
}

} // verus!
