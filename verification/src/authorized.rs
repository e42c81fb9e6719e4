//! The type that makes stage-2 authorization unskippable.
//!
//! Stage 1 (tool and cluster scope) runs in the bearer boundary before any
//! I/O. Stage 2 needs a resolved guest, so it necessarily runs past the
//! boundary, in code a handler could forget to call.
//!
//! It therefore is not optional by construction. [`AuthorizedGuest`] has no
//! public constructor and no public fields; the only way to obtain one is
//! [`crate::resolve::authorize`], which runs the grant selector, the action
//! check and the protection resolution.
use vstd::prelude::*;

use crate::protect::{Protection, ProtectionView};
use crate::resolve::{GuestView, ResolvedGuest};
use crate::tier::Tier;

verus! {

/// A guest that has passed stage-2 authorization for a specific tier.
#[derive(Debug)]
pub struct AuthorizedGuest {
    guest: ResolvedGuest,
    protection: Protection,
    tier: Tier,
}

/// An authorized guest, as a mathematical value.
pub struct AuthorizedView {
    pub guest: GuestView,
    pub protection: ProtectionView,
    pub tier: Tier,
}

impl View for AuthorizedGuest {
    type V = AuthorizedView;

    closed spec fn view(&self) -> AuthorizedView {
        AuthorizedView { guest: self.guest@, protection: self.protection@, tier: self.tier }
    }
}

impl AuthorizedGuest {
    /// Construct an authorized guest.
    ///
    /// Deliberately `pub(crate)`: [`crate::resolve::authorize`] is the only
    /// caller, and it is the only place the checks live.
    pub(crate) fn new(guest: ResolvedGuest, protection: Protection, tier: Tier) -> (r: Self)
        ensures
            r@ == (AuthorizedView { guest: guest@, protection: protection@, tier }),
    {
        AuthorizedGuest { guest, protection, tier }
    }

    /// The resolved guest.
    #[must_use]
    pub fn guest(&self) -> (r: &ResolvedGuest)
        ensures
            r@ == self@.guest,
    {
        &self.guest
    }

    /// The protection verdict observed at authorization time.
    #[must_use]
    pub fn protection(&self) -> (r: &Protection)
        ensures
            r@ == self@.protection,
    {
        &self.protection
    }

    /// The tier this authorization was granted for.
    #[must_use]
    pub fn tier(&self) -> (r: Tier)
        ensures
            r == self@.tier,
    {
        self.tier
    }
}

impl Clone for AuthorizedGuest {
    fn clone(&self) -> (r: Self)
        ensures
            r@ == self@,
    {
        AuthorizedGuest {
            guest: self.guest.clone(),
            protection: self.protection.clone(),
            tier: self.tier,
        }
    }
}

} // verus!
