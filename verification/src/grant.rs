//! Per-token write authority and guest scope.
//!
//! Two things live here that a plain list of names cannot express: the guest
//! selector, which has a numeric-range shape, and the action tier.
//!
//! An unparseable selector admits nothing. A restriction the server cannot
//! understand must not become an absence of restriction.
use vstd::prelude::*;

use crate::selector::{selector_of, FactsView, GuestFacts, Selector, SelectorErrorView};
use crate::text::{contains_text, copy_texts, parse_u32, read_u32, split_once, split_text_once, texts};

verus! {

/// The mutating action tiers this server distinguishes.
#[derive(Debug, Clone, Copy, PartialEq, Eq, Structural)]
pub enum ProxmoxAction {
    /// Observation only.
    Read,
    /// Disruptive but reversible: lifecycle, snapshot create, backup create.
    Low,
    /// Irreversible: destroy, restore-over, rollback, shrink, delete.
    Destructive,
}

/// A token's guest scope and action authority.
#[derive(Debug)]
pub struct ProxmoxGrant {
    /// Selector terms; a guest is in scope when any term matches.
    pub guests: Vec<String>,
    /// Action tiers this token may invoke.
    pub actions: Vec<ProxmoxAction>,
}

/// A guest scope and action authority, as a mathematical value.
pub struct GrantView {
    pub guests: Seq<Seq<char>>,
    pub actions: Seq<ProxmoxAction>,
}

impl View for ProxmoxGrant {
    type V = GrantView;

    open spec fn view(&self) -> GrantView {
        GrantView { guests: texts(self.guests@), actions: self.actions@ }
    }
}

/// A grant the token store must not accept.
#[derive(Debug, PartialEq, Eq)]
pub enum GrantError {
    /// A selector term does not parse; carries the reason.
    Invalid(String),
}

impl GrantView {
    /// Whether the grant admits a guest: some term parses and matches it.
    pub open spec fn admits(self, facts: FactsView) -> bool {
        exists|i: int| 0 <= i < self.guests.len() && term_admits(#[trigger] self.guests[i], facts)
    }

    /// Whether the grant carries an action tier.
    pub open spec fn permits(self, action: ProxmoxAction) -> bool {
        self.actions.contains(action)
    }

    /// Whether the grant admits a vmid on the strength of the number alone.
    pub open spec fn admits_number(self, vmid: u32) -> bool {
        exists|i: int|
            0 <= i < self.guests.len() && term_admits_number(#[trigger] self.guests[i], vmid)
    }

    /// Whether no guest is outside the grant whatever its facts.
    pub open spec fn unrestricted(self) -> bool {
        self.guests.contains("*"@)
    }

    /// The first term that does not parse at or after `i`, as its error.
    pub open spec fn first_error(self, i: int) -> Option<SelectorErrorView>
        decreases self.guests.len() - i,
    {
        if i < 0 || i >= self.guests.len() {
            None
        } else {
            match selector_of(self.guests[i]) {
                Err(error) => Some(error),
                Ok(_) => self.first_error(i + 1),
            }
        }
    }
}

/// Whether a term parses and admits a guest.
pub open spec fn term_admits(term: Seq<char>, facts: FactsView) -> bool {
    match selector_of(term) {
        Ok(selector) => selector.admits(facts),
        Err(_) => false,
    }
}

/// Whether a term parses and admits a vmid on the strength of the number alone.
pub open spec fn term_admits_number(term: Seq<char>, vmid: u32) -> bool {
    match selector_of(term) {
        Ok(selector) => selector.admits_number(vmid),
        Err(_) => false,
    }
}

/// The vmid of a cluster-qualified guest address, `cluster/vmid`.
pub open spec fn subject_vmid(subject: Seq<char>) -> Option<u32> {
    match split_once(subject, "/"@) {
        Some((_, vmid)) => parse_u32(vmid),
        None => None,
    }
}

impl ProxmoxGrant {
    /// A grant that sees everything and may change nothing.
    #[must_use]
    pub fn read_only() -> (r: Self)
        ensures
            r@.guests == seq!["*"@],
            r@.actions == seq![ProxmoxAction::Read],
    {
        let mut guests: Vec<String> = Vec::new();
        guests.push("*".to_owned());
        let mut actions: Vec<ProxmoxAction> = Vec::new();
        actions.push(ProxmoxAction::Read);
        let r = ProxmoxGrant { guests, actions };
        proof {
            assert(r@.guests =~= seq!["*"@]);
        }
        r
    }

    /// Whether this grant admits the described guest.
    ///
    /// A term that does not parse contributes no match, so a malformed grant
    /// admits nothing rather than everything. `validate` reports the same
    /// malformation when the token store loads, which is where an operator sees
    /// it.
    #[must_use]
    pub fn allows_guest(&self, facts: GuestFacts<'_>) -> (r: bool)
        ensures
            r == self@.admits(facts@),
    {
        let mut i: usize = 0;
        while i < self.guests.len()
            invariant
                i <= self.guests@.len(),
                forall|j: int| 0 <= j < i ==> !term_admits(#[trigger] self@.guests[j], facts@),
            decreases self.guests@.len() - i,
        {
            proof {
                assert(self@.guests[i as int] == self.guests@[i as int]@);
            }
            if let Ok(selector) = Selector::parse(self.guests[i].as_str()) {
                if selector.matches(facts) {
                    proof {
                        assert(term_admits(self@.guests[i as int], facts@));
                    }
                    return true;
                }
            }
            i += 1;
        }
        false
    }

    /// Whether this grant carries an action tier.
    #[must_use]
    pub fn allows_action(&self, action: ProxmoxAction) -> (r: bool)
        ensures
            r == self@.permits(action),
    {
        let mut i: usize = 0;
        while i < self.actions.len()
            invariant
                i <= self.actions@.len(),
                forall|j: int| 0 <= j < i ==> self.actions@[j] != action,
            decreases self.actions@.len() - i,
        {
            if self.actions[i] == action {
                return true;
            }
            i += 1;
        }
        false
    }

    /// Whether this grant admits a vmid that no guest holds yet.
    ///
    /// A guest that does not exist carries no tag, pool, node or type, so only
    /// the terms a bare vmid can answer take part.
    #[must_use]
    pub fn allows_new_vmid(&self, vmid: u32) -> (r: bool)
        ensures
            r == self@.admits_number(vmid),
    {
        let mut i: usize = 0;
        while i < self.guests.len()
            invariant
                i <= self.guests@.len(),
                forall|j: int| 0 <= j < i ==> !term_admits_number(#[trigger] self@.guests[j], vmid),
            decreases self.guests@.len() - i,
        {
            proof {
                assert(self@.guests[i as int] == self.guests@[i as int]@);
            }
            let hit = match Selector::parse(self.guests[i].as_str()) {
                Ok(Selector::Any) => true,
                Ok(Selector::Vmid(other)) => other == vmid,
                Ok(Selector::VmidRange { low, high }) => vmid >= low && vmid <= high,
                _ => false,
            };
            if hit {
                proof {
                    assert(term_admits_number(self@.guests[i as int], vmid));
                }
                return true;
            }
            i += 1;
        }
        false
    }

    /// Whether this grant admits a cluster-qualified guest address,
    /// `cluster/vmid`.
    ///
    /// The rich check is [`Self::allows_guest`], which sees tags and pools.
    /// This one can only honour the terms that a bare vmid can answer.
    pub fn allows_subject(&self, subject: &str) -> (r: bool)
        ensures
            r == match subject_vmid(subject@) {
                Some(vmid) => self@.admits_number(vmid),
                None => false,
            },
    {
        match split_text_once(subject, "/") {
            Some((_, vmid)) => match read_u32(vmid.as_str()) {
                Some(vmid) => self.allows_new_vmid(vmid),
                None => false,
            },
            None => false,
        }
    }

    /// Whether the guest scope is `*`, so that nothing narrows it.
    #[must_use]
    pub fn is_unrestricted_guest_scope(&self) -> (r: bool)
        ensures
            r == self@.unrestricted(),
    {
        contains_text(self.guests.as_slice(), "*")
    }

    /// Refuse a grant with a term that does not parse.
    pub fn validate(&self) -> (r: Result<(), GrantError>)
        ensures
            match r {
                Ok(_) => self@.first_error(0) is None,
                Err(GrantError::Invalid(reason)) => self@.first_error(0) matches Some(error)
                    && reason@ == error.message(),
            },
    {
        let mut i: usize = 0;
        while i < self.guests.len()
            invariant
                i <= self.guests@.len(),
                self@.first_error(0) == self@.first_error(i as int),
            decreases self.guests@.len() - i,
        {
            proof {
                assert(self@.guests[i as int] == self.guests@[i as int]@);
            }
            match Selector::parse(self.guests[i].as_str()) {
                Ok(_) => {},
                Err(error) => {
                    return Err(GrantError::Invalid(error.message()));
                },
            }
            i += 1;
        }
        Ok(())
    }

}

impl Clone for ProxmoxGrant {
    fn clone(&self) -> (r: Self)
        ensures
            r@ == self@,
    {
        ProxmoxGrant {
            guests: copy_texts(self.guests.as_slice()),
            actions: copy_actions(&self.actions),
        }
    }
}

fn copy_actions(v: &Vec<ProxmoxAction>) -> (r: Vec<ProxmoxAction>)
    ensures
        r@ == v@,
{
    let mut out: Vec<ProxmoxAction> = Vec::new();
    let mut i: usize = 0;
    while i < v.len()
        invariant
            i <= v@.len(),
            out@ == v@.take(i as int),
        decreases v@.len() - i,
    {
        out.push(v[i]);
        i += 1;
    }
    proof {
        assert(v@.take(i as int) =~= v@);
    }
    out
}

// ---------------------------------------------------------------------------
// What holds of every grant
// ---------------------------------------------------------------------------
/// Terms union: a grant admits exactly the guests that one of its two halves
/// admits, however its term list is cut in two.
pub proof fn law_terms_union(a: GrantView, b: GrantView, whole: GrantView, facts: FactsView)
    requires
        whole.guests == a.guests + b.guests,
    ensures
        whole.admits(facts) <==> a.admits(facts) || b.admits(facts),
{
    if a.admits(facts) {
        let i = choose|i: int| 0 <= i < a.guests.len() && term_admits(#[trigger] a.guests[i], facts);
        assert(whole.guests[i] == a.guests[i]);
    }
    if b.admits(facts) {
        let i = choose|i: int| 0 <= i < b.guests.len() && term_admits(#[trigger] b.guests[i], facts);
        assert(whole.guests[a.guests.len() + i] == b.guests[i]);
    }
    if whole.admits(facts) {
        let i = choose|i: int|
            0 <= i < whole.guests.len() && term_admits(#[trigger] whole.guests[i], facts);
        if i < a.guests.len() {
            assert(a.guests[i] == whole.guests[i]);
        } else {
            assert(b.guests[i - a.guests.len()] == whole.guests[i]);
        }
    }
}

/// A grant none of whose terms parses admits no guest, and it does not
/// validate unless it has no term at all.
pub proof fn law_unparseable_terms_admit_nothing(grant: GrantView, facts: FactsView)
    requires
        forall|i: int| 0 <= i < grant.guests.len() ==> selector_of(#[trigger] grant.guests[i]) is Err,
    ensures
        !grant.admits(facts),
        grant.guests.len() > 0 ==> grant.first_error(0) is Some,
{
    if grant.guests.len() > 0 {
        assert(selector_of(grant.guests[0]) is Err);
    }
}

/// The grant of a caller without a token sees every guest and permits
/// nothing but reading.
pub proof fn law_read_only_changes_nothing(grant: GrantView, facts: FactsView)
    requires
        grant.guests == seq!["*"@],
        grant.actions == seq![ProxmoxAction::Read],
    ensures
        grant.admits(facts),
        grant.permits(ProxmoxAction::Read),
        !grant.permits(ProxmoxAction::Low),
        !grant.permits(ProxmoxAction::Destructive),
{
    assert(grant.guests[0] == "*"@);
    assert(term_admits(grant.guests[0], facts));
    assert(grant.actions[0] == ProxmoxAction::Read);
}

/// What a grant admits by number alone, it admits whatever the other facts of
/// the guest are.
pub proof fn law_number_scope_is_part_of_guest_scope(grant: GrantView, facts: FactsView)
    requires
        grant.admits_number(facts.vmid),
    ensures
        grant.admits(facts),
{
    let i = choose|i: int|
        0 <= i < grant.guests.len() && term_admits_number(#[trigger] grant.guests[i], facts.vmid);
    assert(term_admits(grant.guests[i], facts));
}

/// A grant whose scope is `*` admits every guest and every new vmid.
pub proof fn law_unrestricted_admits_everything(grant: GrantView, facts: FactsView, vmid: u32)
    requires
        grant.unrestricted(),
    ensures
        grant.admits(facts),
        grant.admits_number(vmid),
{
    let i = choose|i: int| 0 <= i < grant.guests.len() && #[trigger] grant.guests[i] == "*"@;
    assert(term_admits(grant.guests[i], facts));
    assert(term_admits_number(grant.guests[i], vmid));
}

/// A grant validates exactly when every one of its terms parses.
pub proof fn law_a_grant_validates_when_every_term_parses(grant: GrantView, from: int)
    requires
        0 <= from,
    ensures
        grant.first_error(from) is None <==> forall|i: int|
            from <= i < grant.guests.len() ==> selector_of(#[trigger] grant.guests[i]) is Ok,
        grant.first_error(from) matches Some(error) ==> exists|i: int|
            from <= i < grant.guests.len() && selector_of(#[trigger] grant.guests[i]) == Err::<
                crate::selector::SelectorView,
                SelectorErrorView,
            >(error),
    decreases grant.guests.len() - from,
{
    if from < grant.guests.len() {
        law_a_grant_validates_when_every_term_parses(grant, from + 1);
        assert(selector_of(grant.guests[from]) is Ok || selector_of(grant.guests[from]) is Err);
    }
}

/// The vmid of a guest address is the number that follows its cluster.
pub proof fn law_an_address_names_its_vmid(cluster: Seq<char>, vmid: u32)
    requires
        !cluster.contains('/'),
    ensures
        subject_vmid(cluster + "/"@ + crate::text::decimal(vmid as nat)) == Some(vmid),
{
    reveal_strlit("/");
    assert("/"@ =~= seq!['/']);
    crate::text::lemma_split_at_first(cluster, '/', crate::text::decimal(vmid as nat));
    crate::text::law_a_written_number_is_read_back(vmid);
}

/// A grant admits a guest exactly where one of its terms parses and admits it,
/// a new vmid exactly where one admits the number, and permits exactly the
/// actions it lists.
pub proof fn law_a_grant_is_the_sum_of_its_terms(
    grant: GrantView,
    facts: FactsView,
    vmid: u32,
    action: ProxmoxAction,
)
    ensures
        grant.admits(facts) <==> exists|i: int|
            0 <= i < grant.guests.len() && (selector_of(#[trigger] grant.guests[i]) matches Ok(term)
                && term.admits(facts)),
        grant.admits_number(vmid) <==> exists|i: int|
            0 <= i < grant.guests.len() && (selector_of(#[trigger] grant.guests[i]) matches Ok(term)
                && term.admits_number(vmid)),
        grant.permits(action) <==> exists|i: int|
            0 <= i < grant.actions.len() && #[trigger] grant.actions[i] == action,
        grant.unrestricted() <==> exists|i: int|
            0 <= i < grant.guests.len() && #[trigger] grant.guests[i] == "*"@,
{
    if grant.admits(facts) {
        let i = choose|i: int|
            0 <= i < grant.guests.len() && term_admits(#[trigger] grant.guests[i], facts);
        assert(selector_of(grant.guests[i]) is Ok);
    }
    if exists|i: int|
        0 <= i < grant.guests.len() && (selector_of(#[trigger] grant.guests[i]) matches Ok(term)
            && term.admits(facts)) {
        let i = choose|i: int|
            0 <= i < grant.guests.len() && (selector_of(#[trigger] grant.guests[i]) matches Ok(term)
                && term.admits(facts));
        assert(term_admits(grant.guests[i], facts));
    }
    if grant.admits_number(vmid) {
        let i = choose|i: int|
            0 <= i < grant.guests.len() && term_admits_number(#[trigger] grant.guests[i], vmid);
        assert(selector_of(grant.guests[i]) is Ok);
    }
    if exists|i: int|
        0 <= i < grant.guests.len() && (selector_of(#[trigger] grant.guests[i]) matches Ok(term)
            && term.admits_number(vmid)) {
        let i = choose|i: int|
            0 <= i < grant.guests.len() && (selector_of(#[trigger] grant.guests[i]) matches Ok(term)
                && term.admits_number(vmid));
        assert(term_admits_number(grant.guests[i], vmid));
    }
}

} // verus!
