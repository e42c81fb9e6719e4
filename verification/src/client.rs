//! The requests this server sends, and what it makes of the answers.
//!
//! A request is a method, a path template with its parameters, a query and a
//! form. Expanding the template and moving the bytes belong to the transport;
//! everything a request says, and everything an answer means, is decided here.
use vstd::prelude::*;
use vstd::string::*;
use vstd::utf8::encode_utf8;

use crate::error::{detail_of, ErrorView, ProxmoxError};
use crate::json::{find_member, json_document, member, parse_json, JsonShape, JsonView};
use crate::text::{
    begins_with, join, join_texts, law_splitting_undoes_joining, lemma_split_at_first,
    lemma_texts_push, pairs, split, split_once, texts, trim_end_char, trim_text_end_char,
};

verus! {

/// Requests in flight to one cluster.
pub const MAX_CONCURRENT: usize = 8;

/// Callers permitted to wait behind those.
pub const MAX_QUEUED: usize = 32;

/// Whole-request deadline in seconds, covering permit acquisition and send.
pub const REQUEST_TIMEOUT_SECS: u64 = 30;

/// Largest response body accepted, enforced as it streams.
pub const MAX_RESPONSE_BYTES: usize = 8 * 1024 * 1024;

/// The HTTP methods this server sends.
#[derive(Debug, Clone, Copy, PartialEq, Eq, Structural)]
pub enum Method {
    /// Read a resource.
    Get,
    /// Act on a resource.
    Post,
    /// Replace a resource's settings.
    Put,
    /// Remove a resource.
    Delete,
}

/// One request to a cluster.
#[derive(Debug)]
pub struct Request {
    /// HTTP method.
    pub method: Method,
    /// Path template; `{name}` stands for the parameter of that name.
    pub path_template: String,
    /// Path parameters.
    pub params: Vec<(String, String)>,
    /// Query parameters.
    pub query: Vec<(String, String)>,
    /// Form fields, sent as the body.
    pub form: Vec<(String, String)>,
}

/// One request, as a mathematical value.
#[verifier::ext_equal]
pub struct RequestView {
    pub method: Method,
    pub path_template: Seq<char>,
    pub params: Seq<(Seq<char>, Seq<char>)>,
    pub query: Seq<(Seq<char>, Seq<char>)>,
    pub form: Seq<(Seq<char>, Seq<char>)>,
}

impl View for Request {
    type V = RequestView;

    open spec fn view(&self) -> RequestView {
        RequestView {
            method: self.method,
            path_template: self.path_template@,
            params: pairs(self.params@),
            query: pairs(self.query@),
            form: pairs(self.form@),
        }
    }
}

// ---------------------------------------------------------------------------
// Percent encoding
// ---------------------------------------------------------------------------
/// Whether a byte stands for itself in a URL: a letter, a digit, `-`, `.`, `_`
/// or `~`.
pub open spec fn is_unreserved(b: u8) -> bool {
    ||| 0x30 <= b <= 0x39
    ||| 0x41 <= b <= 0x5a
    ||| 0x61 <= b <= 0x7a
    ||| b == 0x2d
    ||| b == 0x2e
    ||| b == 0x5f
    ||| b == 0x7e
}

/// The upper-case hexadecimal digit of a number below sixteen.
pub open spec fn hex_upper(d: nat) -> char {
    if d < 10 {
        ('0' as u32 + d) as char
    } else {
        ('A' as u32 + (d - 10)) as char
    }
}

/// How one byte is written in a URL.
pub open spec fn encoded_byte(b: u8) -> Seq<char> {
    if is_unreserved(b) {
        seq![b as char]
    } else {
        seq!['%', hex_upper((b / 16) as nat), hex_upper((b % 16) as nat)]
    }
}

/// How bytes are written in a URL.
pub open spec fn encoded(bytes: Seq<u8>) -> Seq<char>
    decreases bytes.len(),
{
    if bytes.len() == 0 {
        Seq::empty()
    } else {
        encoded_byte(bytes[0]) + encoded(bytes.skip(1))
    }
}

/// How a text is written in a URL: its UTF-8 bytes, each unreserved one as
/// itself and every other as `%` and two upper-case hexadecimal digits.
pub open spec fn percent_encoded(s: Seq<char>) -> Seq<char> {
    encoded(encode_utf8(s))
}

proof fn lemma_encoded_push(bytes: Seq<u8>, b: u8)
    ensures
        encoded(bytes.push(b)) == encoded(bytes) + encoded_byte(b),
    decreases bytes.len(),
{
    if bytes.len() == 0 {
        let rest = bytes.push(b).skip(1);
        assert(rest.len() == 0);
        assert(encoded(rest) =~= Seq::<char>::empty());
        assert(encoded(bytes.push(b)) =~= encoded(bytes) + encoded_byte(b));
    } else {
        lemma_encoded_push(bytes.skip(1), b);
        assert(bytes.push(b).skip(1) =~= bytes.skip(1).push(b));
        assert(encoded(bytes.push(b)) =~= encoded(bytes) + encoded_byte(b));
    }
}

fn hex_digit(d: u8) -> (r: char)
    requires
        d < 16,
    ensures
        r == hex_upper(d as nat),
{
    if d < 10 {
        (48u8 + d) as char
    } else {
        (55u8 + d) as char
    }
}

/// Percent-encode a string for use in a URL.
///
/// Encodes all characters except unreserved ones (alphanumeric, `-`, `.`, `_`,
/// `~`).
pub fn percent_encode(s: &str) -> (r: String)
    ensures
        r@ == percent_encoded(s@),
{
    let bytes = s.as_bytes();
    let mut out = String::new();
    let mut i: usize = 0;
    while i < bytes.len()
        invariant
            i <= bytes@.len(),
            out@ == encoded(bytes@.take(i as int)),
        decreases bytes@.len() - i,
    {
        let b: u8 = bytes[i];
        let ghost before = out@;
        proof {
            lemma_encoded_push(bytes@.take(i as int), b);
            assert(bytes@.take(i as int + 1) =~= bytes@.take(i as int).push(b));
        }
        if (0x30 <= b && b <= 0x39) || (0x41 <= b && b <= 0x5a) || (0x61 <= b && b <= 0x7a) || b
            == 0x2d || b == 0x2e || b == 0x5f || b == 0x7e {
            out.push(b as char);
        } else {
            out.push('%');
            out.push(hex_digit(b / 16));
            out.push(hex_digit(b % 16));
        }
        proof {
            assert(out@ =~= before + encoded_byte(b));
        }
        i += 1;
    }
    proof {
        assert(bytes@.take(i as int) =~= bytes@);
    }
    out
}

/// Each pair as `key=value`, both percent-encoded.
pub open spec fn encoded_pairs(fields: Seq<(Seq<char>, Seq<char>)>) -> Seq<Seq<char>> {
    fields.map_values(
        |f: (Seq<char>, Seq<char>)| percent_encoded(f.0) + "="@ + percent_encoded(f.1),
    )
}

/// A list of fields as a query string or a form body.
pub open spec fn form_text(fields: Seq<(Seq<char>, Seq<char>)>) -> Seq<char> {
    join(encoded_pairs(fields), "&"@)
}

/// Encode fields as a query string or a form body.
pub fn encode_form(fields: &Vec<(String, String)>) -> (r: String)
    ensures
        r@ == form_text(pairs(fields@)),
{
    let ghost all = pairs(fields@);
    let mut parts: Vec<String> = Vec::new();
    let mut i: usize = 0;
    proof {
        assert(texts(parts@) =~= encoded_pairs(all).take(0));
    }
    while i < fields.len()
        invariant
            i <= fields@.len(),
            all == pairs(fields@),
            texts(parts@) == encoded_pairs(all).take(i as int),
        decreases fields@.len() - i,
    {
        let mut part = percent_encode(fields[i].0.as_str());
        part.append("=");
        part.append(percent_encode(fields[i].1.as_str()).as_str());
        proof {
            lemma_texts_push(parts@, part);
            assert(encoded_pairs(all)[i as int] == part@);
            assert(encoded_pairs(all).take(i as int + 1) =~= encoded_pairs(all).take(
                i as int,
            ).push(part@));
        }
        parts.push(part);
        i += 1;
    }
    proof {
        assert(encoded_pairs(all).take(i as int) =~= encoded_pairs(all));
    }
    join_texts(&parts, "&")
}

// ---------------------------------------------------------------------------
// Addresses
// ---------------------------------------------------------------------------
/// The URL of an expanded path on a cluster's endpoint.
pub open spec fn url_text(
    endpoint: Seq<char>,
    path: Seq<char>,
    query: Seq<(Seq<char>, Seq<char>)>,
) -> Seq<char> {
    let base = trim_end_char(endpoint, '/') + path;
    if query.len() == 0 {
        base
    } else {
        base + "?"@ + form_text(query)
    }
}

/// The URL of an expanded path on a cluster's endpoint.
pub fn request_url(endpoint: &str, path: &str, query: &Vec<(String, String)>) -> (r: String)
    ensures
        r@ == url_text(endpoint@, path@, pairs(query@)),
{
    let mut out = trim_text_end_char(endpoint, '/');
    out.append(path);
    if query.len() > 0 {
        out.append("?");
        out.append(encode_form(query).as_str());
    }
    out
}

/// Whether an endpoint is reached over an encrypted connection.
pub open spec fn is_encrypted(endpoint: Seq<char>) -> bool {
    "https://"@.is_prefix_of(endpoint)
}

/// Refuse a plaintext endpoint, before any client is set up for it.
pub fn check_endpoint(endpoint: &str) -> (r: Result<(), ProxmoxError>)
    ensures
        match r {
            Ok(_) => is_encrypted(endpoint@),
            Err(error) => !is_encrypted(endpoint@) && error@ == ErrorView::Malformed(
                "endpoint must use https, got: "@ + endpoint@,
            ),
        },
{
    if begins_with(endpoint, "https://") {
        Ok(())
    } else {
        let mut text = "endpoint must use https, got: ".to_owned();
        text.append(endpoint);
        Err(ProxmoxError::Malformed(text))
    }
}

// ---------------------------------------------------------------------------
// Answers
// ---------------------------------------------------------------------------
/// The JSON text of the `data` member of an answer that was read as
/// `document`.
pub open spec fn data_in(document: Result<JsonView, Seq<char>>) -> Result<Seq<char>, ErrorView> {
    match document {
        Err(error) => Err(ErrorView::Malformed(error)),
        Ok(value) => match member(value, "data"@) {
            Some(text) => Ok(text),
            None => Err(ErrorView::Malformed("response has no 'data' member"@)),
        },
    }
}

/// What an answer with a status and a body means: the JSON text of its `data`
/// member, or the error.
pub open spec fn answer(status: u16, body: Seq<u8>) -> Result<Seq<char>, ErrorView> {
    if status == 401 || status == 403 {
        Err(ErrorView::Unauthorized)
    } else if status >= 400 {
        Err(ErrorView::Api { status, message: detail_of(body) })
    } else {
        data_in(json_document(body))
    }
}

/// A result that carries text, as a mathematical value.
pub open spec fn text_result(r: Result<String, ProxmoxError>) -> Result<Seq<char>, ErrorView> {
    match r {
        Ok(text) => Ok(text@),
        Err(error) => Err(error@),
    }
}

/// The JSON text of the `data` member of a parsed answer.
pub fn data_of(document: Result<JsonShape, String>) -> (r: Result<String, ProxmoxError>)
    ensures
        text_result(r) == data_in(crate::json::json_result(document)),
{
    match document {
        Err(error) => Err(ProxmoxError::Malformed(error)),
        Ok(value) => match find_member(&value, "data") {
            Some(text) => Ok(text),
            None => Err(ProxmoxError::Malformed("response has no 'data' member".to_owned())),
        },
    }
}

/// Read an answer: the JSON text of its `data` member, or the error its status
/// or its shape stands for.
pub fn read_answer(status: u16, body: &[u8]) -> (r: Result<String, ProxmoxError>)
    ensures
        text_result(r) == answer(status, body@),
{
    if status >= 400 {
        return Err(ProxmoxError::from_response(status, body));
    }
    data_of(parse_json(body))
}

// ---------------------------------------------------------------------------
// What holds of every encoded text
// ---------------------------------------------------------------------------
/// Whether a character can stand in a percent-encoded text.
pub open spec fn is_encoded_char(c: char) -> bool {
    ||| 'a' <= c && c <= 'z'
    ||| 'A' <= c && c <= 'Z'
    ||| '0' <= c && c <= '9'
    ||| c == '-' || c == '.' || c == '_' || c == '~' || c == '%'
}

proof fn lemma_encoded_chars(bytes: Seq<u8>)
    ensures
        forall|i: int| 0 <= i < encoded(bytes).len() ==> is_encoded_char(#[trigger] encoded(bytes)[i]),
    decreases bytes.len(),
{
    if bytes.len() > 0 {
        lemma_encoded_chars(bytes.skip(1));
        let head = encoded_byte(bytes[0]);
        let tail = encoded(bytes.skip(1));
        assert forall|i: int| 0 <= i < encoded(bytes).len() implies is_encoded_char(
            #[trigger] encoded(bytes)[i],
        ) by {
            if i < head.len() {
                assert(encoded(bytes)[i] == head[i]);
            } else {
                assert(encoded(bytes)[i] == tail[i - head.len()]);
            }
        }
    }
}

/// A percent-encoded text holds nothing that separates: no slash, question
/// mark, ampersand, equals sign, number sign or space. A value cannot add a
/// path segment, a parameter or a fragment of its own.
pub proof fn law_encoded_text_separates_nothing(s: Seq<char>)
    ensures
        forall|i: int|
            0 <= i < percent_encoded(s).len() ==> is_encoded_char(#[trigger] percent_encoded(s)[i]),
        !percent_encoded(s).contains('/'),
        !percent_encoded(s).contains('?'),
        !percent_encoded(s).contains('&'),
        !percent_encoded(s).contains('='),
        !percent_encoded(s).contains('#'),
        !percent_encoded(s).contains(' '),
{
    lemma_encoded_chars(encode_utf8(s));
}

/// The number an upper-case hexadecimal digit stands for.
pub open spec fn hex_value(c: char) -> nat {
    if '0' <= c && c <= '9' {
        (c as u32 - '0' as u32) as nat
    } else {
        (c as u32 - 'A' as u32 + 10) as nat
    }
}

/// The bytes a percent-encoded text stands for.
pub open spec fn decoded(s: Seq<char>) -> Seq<u8>
    decreases s.len(),
{
    if s.len() == 0 {
        Seq::empty()
    } else if s[0] == '%' && s.len() >= 3 {
        seq![(hex_value(s[1]) * 16 + hex_value(s[2])) as u8] + decoded(s.skip(3))
    } else {
        seq![s[0] as u8] + decoded(s.skip(1))
    }
}

proof fn lemma_decode_encode(bytes: Seq<u8>)
    ensures
        decoded(encoded(bytes)) == bytes,
    decreases bytes.len(),
{
    if bytes.len() == 0 {
        assert(decoded(encoded(bytes)) =~= bytes);
    } else {
        let b = bytes[0];
        let rest = encoded(bytes.skip(1));
        let all = encoded(bytes);
        lemma_decode_encode(bytes.skip(1));
        if is_unreserved(b) {
            assert(all.skip(1) =~= rest);
            assert(all[0] == b as char);
            assert(decoded(all) == seq![b] + decoded(rest));
        } else {
            assert(all.skip(3) =~= rest);
            assert(all[0] == '%');
            assert(all[1] == hex_upper((b / 16) as nat));
            assert(all[2] == hex_upper((b % 16) as nat));
            assert(hex_value(all[1]) * 16 + hex_value(all[2]) == b);
            assert(decoded(all) == seq![b] + decoded(rest));
        }
        assert(seq![b] + bytes.skip(1) =~= bytes);
    }
}

/// What is percent-encoded is read back as it was: encoding loses nothing.
pub proof fn law_percent_encoding_loses_nothing(s: Seq<char>)
    ensures
        decoded(percent_encoded(s)) == encode_utf8(s),
{
    lemma_decode_encode(encode_utf8(s));
}

/// A form or query is read back as it was written: between ampersands stands
/// one part for each field, in order, and around the first equals sign of a
/// part stand the encodings of the field's own name and value.
pub proof fn law_a_form_is_read_back(fields: Seq<(Seq<char>, Seq<char>)>)
    requires
        fields.len() > 0,
    ensures
        split(form_text(fields), '&').len() == fields.len(),
        forall|i: int|
            0 <= i < fields.len() ==> {
                let part = #[trigger] split(form_text(fields), '&')[i];
                split_once(part, "="@) matches Some((name, value)) && decoded(name) == encode_utf8(
                    fields[i].0,
                ) && decoded(value) == encode_utf8(fields[i].1)
            },
{
    reveal_strlit("&");
    reveal_strlit("=");
    assert("&"@ =~= seq!['&']);
    assert("="@ =~= seq!['=']);
    let parts = encoded_pairs(fields);
    assert forall|i: int| 0 <= i < parts.len() implies !(#[trigger] parts[i]).contains('&') by {
        let (key, value) = fields[i];
        let part = percent_encoded(key) + "="@ + percent_encoded(value);
        law_encoded_text_separates_nothing(key);
        law_encoded_text_separates_nothing(value);
        assert(parts[i] == part);
        if part.contains('&') {
            let k = choose|k: int| 0 <= k < part.len() && part[k] == '&';
            let before = percent_encoded(key).len() as int;
            if k < before {
                assert(percent_encoded(key)[k] == '&');
            } else if k > before {
                assert(percent_encoded(value)[k - before - 1] == '&');
            }
        }
    }
    law_splitting_undoes_joining(parts, '&');
    assert forall|i: int| 0 <= i < fields.len() implies {
        let part = #[trigger] split(form_text(fields), '&')[i];
        split_once(part, "="@) matches Some((name, value)) && decoded(name) == encode_utf8(
            fields[i].0,
        ) && decoded(value) == encode_utf8(fields[i].1)
    } by {
        let (key, value) = fields[i];
        law_encoded_text_separates_nothing(key);
        law_percent_encoding_loses_nothing(key);
        law_percent_encoding_loses_nothing(value);
        assert(parts[i] == percent_encoded(key) + "="@ + percent_encoded(value));
        lemma_split_at_first(percent_encoded(key), '=', percent_encoded(value));
    }
}

/// A request goes to the endpoint, at its path, with its query and nothing
/// else: slashes at the end of the endpoint make no difference, and without a
/// query there is no question mark.
pub proof fn law_a_url_is_endpoint_path_and_query(
    endpoint: Seq<char>,
    path: Seq<char>,
    query: Seq<(Seq<char>, Seq<char>)>,
)
    requires
        endpoint.len() > 0 ==> endpoint.last() != '/',
    ensures
        query.len() == 0 ==> url_text(endpoint, path, query) == endpoint + path,
        query.len() > 0 ==> url_text(endpoint, path, query) == endpoint + path + "?"@ + form_text(
            query,
        ),
        url_text(endpoint.push('/'), path, query) == url_text(endpoint, path, query),
{
    assert(endpoint.push('/').drop_last() =~= endpoint);
}

/// An answer is taken for a success only below status 400, where its body is a
/// JSON object with a `data` member, whose text is then handed on. Rejected
/// credentials are told apart from every other error, and their body is
/// dropped; every other error keeps its status.
pub proof fn law_an_answer_is_judged_by_its_status(status: u16, body: Seq<u8>, text: Seq<char>)
    ensures
        answer(status, body) == Ok::<Seq<char>, ErrorView>(text) <==> status < 400 && (json_document(
            body,
        ) matches Ok(value) && member(value, "data"@) == Some(text)),
        answer(status, body) == Err::<Seq<char>, ErrorView>(ErrorView::Unauthorized) <==> status
            == 401 || status == 403,
        status >= 400 && status != 401 && status != 403 ==> (answer(status, body) matches Err(
            ErrorView::Api { status: told, message },
        ) && told == status && message == detail_of(body)),
        status < 400 && answer(status, body) is Err ==> answer(status, body)->Err_0 is Malformed,
{
}

/// Letters, digits, `-`, `.`, `_` and `~` stand for themselves in a URL; every
/// other byte is written as a percent sign and its two hexadecimal digits.
pub proof fn law_which_bytes_stand_for_themselves(b: u8)
    ensures
        encoded_byte(b) == seq![b as char] <==> 'a' as u32 <= b <= 'z' as u32 || 'A' as u32 <= b
            <= 'Z' as u32 || '0' as u32 <= b <= '9' as u32 || b == '-' as u32 || b == '.' as u32
            || b == '_' as u32 || b == '~' as u32,
        encoded_byte(b) != seq![b as char] ==> encoded_byte(b).len() == 3 && encoded_byte(b)[0]
            == '%' && hex_value(encoded_byte(b)[1]) * 16 + hex_value(encoded_byte(b)[2]) == b,
{
    if !is_unreserved(b) {
        assert(encoded_byte(b).len() == 3);
        assert(seq![b as char].len() == 1);
    }
}

/// Every `https` address is an encrypted endpoint, and no `http` address is.
pub proof fn law_only_https_is_encrypted(rest: Seq<char>)
    ensures
        is_encrypted("https://"@ + rest),
        !is_encrypted("http://"@ + rest),
        !is_encrypted(Seq::<char>::empty()),
{
    reveal_strlit("https://");
    reveal_strlit("http://");
    assert(("https://"@ + rest).take(8) =~= "https://"@);
    assert("https://"@[4] == 's');
    assert(("http://"@ + rest)[4] == ':');
    assert("https://"@.len() == 8);
}

} // verus!
