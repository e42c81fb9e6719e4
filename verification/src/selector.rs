//! The guest selector language used by per-token grants.
//!
//! A selector names a set of guests within a cluster. A token's grant carries a
//! list of them, and a guest is in scope when any selector matches: union, not
//! intersection, so `["vmid:600-699", "tag:ci"]` reads as "the disposable band
//! or anything tagged ci".
//!
//! Parsing rejects an unrecognised term rather than ignoring it. A selector the
//! server does not understand is a restriction the operator believes is in
//! force, so silently dropping it widens the token.
use vstd::prelude::*;
use vstd::string::*;

use crate::text::{
    contains_text, decimal, has_text, is_digit, law_a_written_number_is_read_back,
    lemma_decimal_digits, lemma_has_end, lemma_has_middle, lemma_not_split, lemma_split_at_first,
    parse_u32, read_u32, same_text, split_once, split_text_once, str_option, texts,
};

verus! {

/// Whether a guest is a virtual machine or a container.
#[derive(Debug, Clone, Copy, PartialEq, Eq, Structural)]
pub enum GuestType {
    /// A QEMU virtual machine.
    Qemu,
    /// An LXC container.
    Lxc,
}

impl GuestType {
    /// The path segment Proxmox uses for a guest type.
    pub open spec fn segment(self) -> Seq<char> {
        match self {
            GuestType::Qemu => "qemu"@,
            GuestType::Lxc => "lxc"@,
        }
    }

    /// The path segment Proxmox uses for this guest type.
    #[must_use]
    pub fn path_segment(self) -> (r: &'static str)
        ensures
            r@ == self.segment(),
    {
        match self {
            GuestType::Qemu => "qemu",
            GuestType::Lxc => "lxc",
        }
    }
}

/// The facts a selector needs about a guest.
///
/// A borrow rather than the whole resolved guest, so this module has no
/// dependency on resolution and can be tested on its own.
#[derive(Debug, Clone, Copy)]
pub struct GuestFacts<'a> {
    /// Numeric guest id, cluster-unique.
    pub vmid: u32,
    /// VM or container.
    pub kind: GuestType,
    /// Node the guest currently runs on.
    pub node: &'a str,
    /// Proxmox pool, when the guest is in one.
    pub pool: Option<&'a str>,
    /// Live tags.
    pub tags: &'a [String],
}

/// The facts a selector reads, as mathematical values.
pub struct FactsView {
    pub vmid: u32,
    pub kind: GuestType,
    pub node: Seq<char>,
    pub pool: Option<Seq<char>>,
    pub tags: Seq<Seq<char>>,
}

impl<'a> View for GuestFacts<'a> {
    type V = FactsView;

    open spec fn view(&self) -> FactsView {
        FactsView {
            vmid: self.vmid,
            kind: self.kind,
            node: self.node@,
            pool: str_option(self.pool),
            tags: texts(self.tags@),
        }
    }
}

/// A malformed selector.
#[derive(Debug, PartialEq, Eq)]
pub enum SelectorError {
    /// The term prefix is not one this server understands.
    Unknown(String),
    /// A range was inverted, empty, or unparseable.
    BadRange(String),
    /// A vmid was not a number.
    BadVmid(String),
}

/// What is wrong with a selector.
pub enum SelectorErrorView {
    Unknown(Seq<char>),
    BadRange(Seq<char>),
    BadVmid(Seq<char>),
}

impl View for SelectorError {
    type V = SelectorErrorView;

    open spec fn view(&self) -> SelectorErrorView {
        match self {
            SelectorError::Unknown(s) => SelectorErrorView::Unknown(s@),
            SelectorError::BadRange(s) => SelectorErrorView::BadRange(s@),
            SelectorError::BadVmid(s) => SelectorErrorView::BadVmid(s@),
        }
    }
}

impl SelectorErrorView {
    /// The message an operator reads.
    pub open spec fn message(self) -> Seq<char> {
        match self {
            SelectorErrorView::Unknown(s) => "unknown selector term '"@ + s + "'"@,
            SelectorErrorView::BadRange(s) => "invalid vmid range: "@ + s,
            SelectorErrorView::BadVmid(s) => "invalid vmid: "@ + s,
        }
    }
}

impl SelectorError {
    /// The message an operator reads.
    pub fn message(&self) -> (r: String)
        ensures
            r@ == self@.message(),
    {
        match self {
            SelectorError::Unknown(s) => {
                let mut out = "unknown selector term '".to_owned();
                out.append(s.as_str());
                out.append("'");
                out
            },
            SelectorError::BadRange(s) => {
                let mut out = "invalid vmid range: ".to_owned();
                out.append(s.as_str());
                out
            },
            SelectorError::BadVmid(s) => {
                let mut out = "invalid vmid: ".to_owned();
                out.append(s.as_str());
                out
            },
        }
    }
}

/// One term of a guest selector.
#[derive(Debug, PartialEq, Eq)]
pub enum Selector {
    /// Every guest in the cluster.
    Any,
    /// Exactly this vmid.
    Vmid(u32),
    /// An inclusive vmid range.
    VmidRange {
        /// Lowest vmid in scope.
        low: u32,
        /// Highest vmid in scope.
        high: u32,
    },
    /// Any guest carrying this exact tag.
    Tag(String),
    /// Any guest in this Proxmox pool.
    Pool(String),
    /// Any guest currently on this node.
    Node(String),
    /// Any guest of this type.
    Type(GuestType),
}

/// One term of a guest selector, as a mathematical value.
pub enum SelectorView {
    Any,
    Vmid(u32),
    VmidRange { low: u32, high: u32 },
    Tag(Seq<char>),
    Pool(Seq<char>),
    Node(Seq<char>),
    Type(GuestType),
}

impl View for Selector {
    type V = SelectorView;

    open spec fn view(&self) -> SelectorView {
        match self {
            Selector::Any => SelectorView::Any,
            Selector::Vmid(vmid) => SelectorView::Vmid(*vmid),
            Selector::VmidRange { low, high } => SelectorView::VmidRange { low: *low, high: *high },
            Selector::Tag(s) => SelectorView::Tag(s@),
            Selector::Pool(s) => SelectorView::Pool(s@),
            Selector::Node(s) => SelectorView::Node(s@),
            Selector::Type(kind) => SelectorView::Type(*kind),
        }
    }
}

impl SelectorView {
    /// Whether a term admits a guest.
    pub open spec fn admits(self, facts: FactsView) -> bool {
        match self {
            SelectorView::Any => true,
            SelectorView::Vmid(vmid) => facts.vmid == vmid,
            SelectorView::VmidRange { low, high } => low <= facts.vmid <= high,
            SelectorView::Tag(tag) => facts.tags.contains(tag),
            SelectorView::Pool(pool) => facts.pool == Some(pool),
            SelectorView::Node(node) => facts.node == node,
            SelectorView::Type(kind) => facts.kind == kind,
        }
    }

    /// Whether a term admits a vmid on the strength of the number alone.
    pub open spec fn admits_number(self, vmid: u32) -> bool {
        match self {
            SelectorView::Any => true,
            SelectorView::Vmid(other) => other == vmid,
            SelectorView::VmidRange { low, high } => low <= vmid <= high,
            _ => false,
        }
    }
}

/// What the value half of a `vmid:` term means.
pub open spec fn vmid_term(value: Seq<char>) -> Result<SelectorView, SelectorErrorView> {
    match split_once(value, "-"@) {
        Some((low, high)) => match (parse_u32(low), parse_u32(high)) {
            (Some(low), Some(high)) => if low <= high {
                Ok(SelectorView::VmidRange { low, high })
            } else {
                Err(SelectorErrorView::BadRange(value))
            },
            _ => Err(SelectorErrorView::BadRange(value)),
        },
        None => match parse_u32(value) {
            Some(vmid) => Ok(SelectorView::Vmid(vmid)),
            None => Err(SelectorErrorView::BadVmid(value)),
        },
    }
}

/// What a selector term means.
pub open spec fn selector_of(input: Seq<char>) -> Result<SelectorView, SelectorErrorView> {
    if input == "*"@ {
        Ok(SelectorView::Any)
    } else {
        match split_once(input, ":"@) {
            None => Err(SelectorErrorView::Unknown(input)),
            Some((prefix, value)) => if prefix == "vmid"@ {
                vmid_term(value)
            } else if prefix == "tag"@ {
                Ok(SelectorView::Tag(value))
            } else if prefix == "pool"@ {
                Ok(SelectorView::Pool(value))
            } else if prefix == "node"@ {
                Ok(SelectorView::Node(value))
            } else if prefix == "type"@ {
                if value == "qemu"@ {
                    Ok(SelectorView::Type(GuestType::Qemu))
                } else if value == "lxc"@ {
                    Ok(SelectorView::Type(GuestType::Lxc))
                } else {
                    Err(SelectorErrorView::Unknown("type:"@ + value))
                }
            } else {
                Err(SelectorErrorView::Unknown(prefix))
            },
        }
    }
}

/// A parse result as a mathematical value.
pub open spec fn parsed(r: Result<Selector, SelectorError>) -> Result<
    SelectorView,
    SelectorErrorView,
> {
    match r {
        Ok(selector) => Ok(selector@),
        Err(error) => Err(error@),
    }
}

impl Clone for Selector {
    fn clone(&self) -> (r: Self)
        ensures
            r@ == self@,
    {
        match self {
            Selector::Any => Selector::Any,
            Selector::Vmid(vmid) => Selector::Vmid(*vmid),
            Selector::VmidRange { low, high } => Selector::VmidRange { low: *low, high: *high },
            Selector::Tag(s) => Selector::Tag(s.clone()),
            Selector::Pool(s) => Selector::Pool(s.clone()),
            Selector::Node(s) => Selector::Node(s.clone()),
            Selector::Type(kind) => Selector::Type(*kind),
        }
    }
}

impl Selector {
    /// Parse one selector term.
    pub fn parse(input: &str) -> (r: Result<Self, SelectorError>)
        ensures
            parsed(r) == selector_of(input@),
    {
        if same_text(input, "*") {
            return Ok(Selector::Any);
        }
        let (prefix, value) = match split_text_once(input, ":") {
            Some(halves) => halves,
            None => {
                return Err(SelectorError::Unknown(input.to_owned()));
            },
        };
        if same_text(prefix.as_str(), "vmid") {
            parse_vmid_term(value.as_str())
        } else if same_text(prefix.as_str(), "tag") {
            Ok(Selector::Tag(value))
        } else if same_text(prefix.as_str(), "pool") {
            Ok(Selector::Pool(value))
        } else if same_text(prefix.as_str(), "node") {
            Ok(Selector::Node(value))
        } else if same_text(prefix.as_str(), "type") {
            if same_text(value.as_str(), "qemu") {
                Ok(Selector::Type(GuestType::Qemu))
            } else if same_text(value.as_str(), "lxc") {
                Ok(Selector::Type(GuestType::Lxc))
            } else {
                let mut term = "type:".to_owned();
                term.append(value.as_str());
                Err(SelectorError::Unknown(term))
            }
        } else {
            Err(SelectorError::Unknown(prefix))
        }
    }

    /// Whether this selector admits the described guest.
    #[must_use]
    pub fn matches(&self, facts: GuestFacts<'_>) -> (r: bool)
        ensures
            r == self@.admits(facts@),
    {
        match self {
            Selector::Any => true,
            Selector::Vmid(vmid) => facts.vmid == *vmid,
            Selector::VmidRange { low, high } => facts.vmid >= *low && facts.vmid <= *high,
            Selector::Tag(tag) => contains_text(facts.tags, tag.as_str()),
            Selector::Pool(pool) => match facts.pool {
                Some(other) => same_text(other, pool.as_str()),
                None => false,
            },
            Selector::Node(node) => same_text(facts.node, node.as_str()),
            Selector::Type(kind) => facts.kind == *kind,
        }
    }
}

/// Parse the value half of a `vmid:` term.
pub fn parse_vmid_term(value: &str) -> (r: Result<Selector, SelectorError>)
    ensures
        parsed(r) == vmid_term(value@),
{
    match split_text_once(value, "-") {
        Some((low, high)) => {
            match (read_u32(low.as_str()), read_u32(high.as_str())) {
                (Some(low), Some(high)) => {
                    if low > high {
                        Err(SelectorError::BadRange(value.to_owned()))
                    } else {
                        Ok(Selector::VmidRange { low, high })
                    }
                },
                _ => Err(SelectorError::BadRange(value.to_owned())),
            }
        },
        None => match read_u32(value) {
            Some(vmid) => Ok(Selector::Vmid(vmid)),
            None => Err(SelectorError::BadVmid(value.to_owned())),
        },
    }
}

// ---------------------------------------------------------------------------
// What holds of every term
// ---------------------------------------------------------------------------
proof fn lemma_term(prefix: Seq<char>, value: Seq<char>)
    requires
        !prefix.contains(':'),
        prefix.len() > 0,
    ensures
        split_once(prefix + ":"@ + value, ":"@) == Some((prefix, value)),
        prefix + ":"@ + value != "*"@,
{
    reveal_strlit(":");
    reveal_strlit("*");
    assert(":"@ =~= seq![':']);
    lemma_split_at_first(prefix, ':', value);
    assert((prefix + ":"@ + value).len() >= 2);
}

proof fn lemma_decimal_has_no_dash(n: nat)
    ensures
        !decimal(n).contains('-'),
{
    lemma_decimal_digits(n);
    if decimal(n).contains('-') {
        let i = choose|i: int| 0 <= i < decimal(n).len() && decimal(n)[i] == '-';
        assert(is_digit(decimal(n)[i]));
    }
}

/// A `vmid:` term with one number admits the guest of that number and no other.
pub proof fn law_a_vmid_term_names_one_guest(vmid: u32, facts: FactsView)
    ensures
        selector_of("vmid:"@ + decimal(vmid as nat)) == Ok::<SelectorView, SelectorErrorView>(
            SelectorView::Vmid(vmid),
        ),
        SelectorView::Vmid(vmid).admits(facts) <==> facts.vmid == vmid,
{
    reveal_strlit("vmid:");
    reveal_strlit("vmid");
    reveal_strlit(":");
    reveal_strlit("-");
    let number = decimal(vmid as nat);
    assert("vmid:"@ + number =~= "vmid"@ + ":"@ + number);
    lemma_term("vmid"@, number);
    lemma_decimal_has_no_dash(vmid as nat);
    assert("-"@ =~= seq!['-']);
    lemma_not_split(number, '-');
    law_a_written_number_is_read_back(vmid);
}

/// A `vmid:` term with two numbers in order admits exactly the guests between
/// them, both ends included; in the wrong order it is refused.
pub proof fn law_a_vmid_range_is_inclusive(low: u32, high: u32, facts: FactsView)
    ensures
        ({
            let value = decimal(low as nat) + "-"@ + decimal(high as nat);
            let term = selector_of("vmid:"@ + value);
            &&& low <= high ==> term == Ok::<SelectorView, SelectorErrorView>(
                (SelectorView::VmidRange { low, high }),
            )
            &&& low > high ==> term == Err::<SelectorView, SelectorErrorView>(
                SelectorErrorView::BadRange(value),
            )
        }),
        (SelectorView::VmidRange { low, high }).admits(facts) <==> low <= facts.vmid <= high,
{
    reveal_strlit("vmid:");
    reveal_strlit("vmid");
    reveal_strlit(":");
    reveal_strlit("-");
    let a = decimal(low as nat);
    let b = decimal(high as nat);
    let value = a + "-"@ + b;
    assert("vmid:"@ + value =~= "vmid"@ + ":"@ + value);
    lemma_term("vmid"@, value);
    lemma_decimal_has_no_dash(low as nat);
    assert("-"@ =~= seq!['-']);
    lemma_split_at_first(a, '-', b);
    law_a_written_number_is_read_back(low);
    law_a_written_number_is_read_back(high);
}

/// A `tag:` term admits the guests that carry the tag and no others, a `pool:`
/// term those in the pool, a `node:` term those on the node. None of them
/// admits a vmid that has no guest yet.
pub proof fn law_a_term_admits_by_the_fact_it_names(value: Seq<char>, facts: FactsView, vmid: u32)
    ensures
        selector_of("tag:"@ + value) matches Ok(term) && (term.admits(facts) <==> exists|i: int|
            0 <= i < facts.tags.len() && #[trigger] facts.tags[i] == value)
            && !term.admits_number(vmid),
        selector_of("pool:"@ + value) matches Ok(term) && (term.admits(facts) <==> facts.pool == Some(
            value,
        )) && !term.admits_number(vmid),
        selector_of("node:"@ + value) matches Ok(term) && (term.admits(facts) <==> facts.node
            == value) && !term.admits_number(vmid),
{
    reveal_strlit("tag:");
    reveal_strlit("pool:");
    reveal_strlit("node:");
    reveal_strlit("tag");
    reveal_strlit("pool");
    reveal_strlit("node");
    reveal_strlit("vmid");
    reveal_strlit("type");
    reveal_strlit(":");
    assert("tag:"@ + value =~= "tag"@ + ":"@ + value);
    assert("pool:"@ + value =~= "pool"@ + ":"@ + value);
    assert("node:"@ + value =~= "node"@ + ":"@ + value);
    lemma_term("tag"@, value);
    lemma_term("pool"@, value);
    lemma_term("node"@, value);
    assert("tag"@.len() == 3);
    assert("pool"@[0] == 'p' && "node"@[0] == 'n' && "vmid"@[0] == 'v' && "type"@[0] == 't');
    assert("vmid"@.len() == 4);
}

/// A `type:` term admits the guests of the type it names and no others, and
/// names no type but the two there are.
pub proof fn law_a_type_term_admits_its_type(value: Seq<char>, facts: FactsView, vmid: u32)
    ensures
        value == "qemu"@ ==> selector_of("type:"@ + value) == Ok::<SelectorView, SelectorErrorView>(
            SelectorView::Type(GuestType::Qemu),
        ),
        value == "lxc"@ ==> selector_of("type:"@ + value) == Ok::<SelectorView, SelectorErrorView>(
            SelectorView::Type(GuestType::Lxc),
        ),
        value != "qemu"@ && value != "lxc"@ ==> selector_of("type:"@ + value) is Err,
        selector_of("type:"@ + value) matches Ok(term) ==> !term.admits_number(vmid) && (
        term.admits(facts) <==> (value == "qemu"@ && facts.kind == GuestType::Qemu) || (value
            == "lxc"@ && facts.kind == GuestType::Lxc)),
{
    reveal_strlit("type:");
    reveal_strlit("tag");
    reveal_strlit("pool");
    reveal_strlit("node");
    reveal_strlit("vmid");
    reveal_strlit("type");
    reveal_strlit(":");
    reveal_strlit("qemu");
    reveal_strlit("lxc");
    assert("type:"@ + value =~= "type"@ + ":"@ + value);
    lemma_term("type"@, value);
    assert("tag"@.len() == 3);
    assert("pool"@[0] == 'p' && "node"@[0] == 'n' && "vmid"@[0] == 'v' && "type"@[0] == 't');
    assert("qemu"@.len() == 4 && "lxc"@.len() == 3);
}

/// The term `*` admits every guest and every vmid; a term without a colon is
/// refused otherwise, and so is one whose prefix names no fact.
pub proof fn law_an_unknown_term_is_refused(prefix: Seq<char>, value: Seq<char>, facts: FactsView)
    requires
        !prefix.contains(':'),
        prefix.len() > 0,
        prefix != "vmid"@ && prefix != "tag"@ && prefix != "pool"@ && prefix != "node"@ && prefix
            != "type"@,
    ensures
        selector_of("*"@) matches Ok(term) && term.admits(facts) && term.admits_number(facts.vmid),
        selector_of(prefix + ":"@ + value) == Err::<SelectorView, SelectorErrorView>(
            SelectorErrorView::Unknown(prefix),
        ),
        prefix != "*"@ ==> selector_of(prefix) == Err::<SelectorView, SelectorErrorView>(
            SelectorErrorView::Unknown(prefix),
        ),
{
    lemma_term(prefix, value);
    reveal_strlit(":");
    assert(":"@ =~= seq![':']);
    lemma_not_split(prefix, ':');
}

/// A vmid that has no guest yet is admitted by its number alone: by a term that
/// names every guest, that number, or a range with it, exactly where that term
/// admits a guest of the number.
pub proof fn law_a_new_vmid_is_admitted_by_its_number(term: SelectorView, facts: FactsView)
    ensures
        term.admits_number(facts.vmid) <==> term.admits(facts) && (term is Any || term is Vmid
            || term is VmidRange),
{
}

/// A `vmid:` term without a dash is one number or is refused, and so are the
/// two halves of one with a dash.
pub proof fn law_a_vmid_term_is_numbers_or_refused(low: Seq<char>, high: Seq<char>, n: u32)
    requires
        !low.contains('-'),
    ensures
        vmid_term(low) == Ok::<SelectorView, SelectorErrorView>(SelectorView::Vmid(n)) <==> parse_u32(
            low,
        ) == Some(n),
        parse_u32(low) is None ==> vmid_term(low) == Err::<SelectorView, SelectorErrorView>(
            SelectorErrorView::BadVmid(low),
        ),
        vmid_term(low + seq!['-'] + high) is Ok <==> parse_u32(low) is Some && parse_u32(high)
            is Some && parse_u32(low)->0 <= parse_u32(high)->0,
        vmid_term(low + seq!['-'] + high) matches Ok(term) ==> term == (SelectorView::VmidRange {
            low: parse_u32(low)->0,
            high: parse_u32(high)->0,
        }),
{
    reveal_strlit("-");
    assert("-"@ =~= seq!['-']);
    lemma_not_split(low, '-');
    lemma_split_at_first(low, '-', high);
}

/// A refused term is told what is wrong with it.
pub proof fn law_a_selector_error_tells_what_is_wrong(error: SelectorErrorView)
    ensures
        error matches SelectorErrorView::Unknown(s) ==> has_text(error.message(), s),
        error matches SelectorErrorView::BadRange(s) ==> has_text(error.message(), s),
        error matches SelectorErrorView::BadVmid(s) ==> has_text(error.message(), s),
{
    match error {
        SelectorErrorView::Unknown(s) => lemma_has_middle("unknown selector term '"@, s, "'"@),
        SelectorErrorView::BadRange(s) => lemma_has_end("invalid vmid range: "@, s),
        SelectorErrorView::BadVmid(s) => lemma_has_end("invalid vmid: "@, s),
    }
}

} // verus!
