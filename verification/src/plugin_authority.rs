//! Which plugin runtime may act: the authority has a generation that each reset advances,
//! and a lease taken under one generation is refused once the generation changes or the
//! authority becomes unavailable.
use crate::text::{chars_of, string_of};
use vstd::prelude::*;

verus! {

/// Largest revision that travels safely as a number over the wire (2^53 - 1).
pub const MAX_SAFE_WIRE_REVISION: u64 = 9007199254740991;

/// What an authority is: its generation, and whether it is available.
pub struct AuthorityView {
    pub generation: u64,
    pub available: bool,
}

/// Whether an authority in this state admits work of the given generation.
pub open spec fn admits(a: AuthorityView, generation: u64) -> bool {
    a.available && a.generation == generation
}

/// The authority after a reset, or `None` where the next generation would be out of range.
pub open spec fn after_reset(a: AuthorityView) -> Option<AuthorityView> {
    if a.generation + 1 > MAX_SAFE_WIRE_REVISION {
        None
    } else {
        Some(AuthorityView { generation: (a.generation + 1) as u64, available: true })
    }
}

/// Why an authority refuses work of the given generation, if it does.
pub open spec fn admit_error(a: AuthorityView, generation: u64) -> Option<Seq<char>> {
    if !a.available {
        Some("AUTHORITY_UNAVAILABLE"@)
    } else if a.generation != generation {
        Some("AUTHORITY_GENERATION_CHANGED"@)
    } else {
        None
    }
}

/// Permission to act, taken under one generation of the authority.
#[derive(Clone, Copy, Debug)]
pub struct PluginAuthorityLease {
    generation: u64,
}

impl View for PluginAuthorityLease {
    type V = u64;

    closed spec fn view(&self) -> u64 {
        self.generation
    }
}

impl PluginAuthorityLease {
    /// The generation the lease was taken under.
    pub fn generation(&self) -> (r: u64)
        ensures
            r == self@,
    {
        self.generation
    }
}

/// The plugin runtime authority.
pub struct PluginRuntimeAuthority {
    generation: u64,
    available: bool,
}

impl View for PluginRuntimeAuthority {
    type V = AuthorityView;

    closed spec fn view(&self) -> AuthorityView {
        AuthorityView { generation: self.generation, available: self.available }
    }
}

impl Default for PluginRuntimeAuthority {
    /// An authority of generation 0 that is not yet available.
    fn default() -> (r: Self)
        ensures
            r@ == (AuthorityView { generation: 0, available: false }),
    {
        PluginRuntimeAuthority { generation: 0, available: false }
    }
}

impl PluginRuntimeAuthority {
    /// Takes a lease for work of the expected generation, as [`admit_error`] states.
    pub fn admit_lease(&self, expected_generation: u64) -> (r: Result<PluginAuthorityLease, String>)
        ensures
            match admit_error(self@, expected_generation) {
                None => r matches Ok(l) && l@ == expected_generation,
                Some(m) => r matches Err(e) && e@ == m,
            },
    {
        if !self.available {
            return Err(string_of(&chars_of("AUTHORITY_UNAVAILABLE")));
        }
        if self.generation != expected_generation {
            return Err(string_of(&chars_of("AUTHORITY_GENERATION_CHANGED")));
        }
        Ok(PluginAuthorityLease { generation: self.generation })
    }

    /// Checks again that a lease still holds, as [`admit_error`] states for its generation.
    pub fn revalidate(&self, lease: PluginAuthorityLease) -> (r: Result<(), String>)
        ensures
            match admit_error(self@, lease@) {
                None => r is Ok,
                Some(m) => r matches Err(e) && e@ == m,
            },
    {
        match self.admit_lease(lease.generation()) {
            Ok(_) => Ok(()),
            Err(e) => Err(e),
        }
    }

    /// Advances the generation and makes the authority available, returning a lease of
    /// the new generation; refused, with nothing changed, where the next generation would
    /// pass [`MAX_SAFE_WIRE_REVISION`].
    pub fn reset(&mut self) -> (r: Result<PluginAuthorityLease, String>)
        ensures
            match after_reset(old(self)@) {
                None => r matches Err(e) && e@ == "AUTHORITY_GENERATION_OUT_OF_RANGE"@ && final(self)@
                    == old(self)@,
                Some(a) => r matches Ok(l) && l@ == a.generation && final(self)@ == a,
            },
    {
        if self.generation >= MAX_SAFE_WIRE_REVISION {
            return Err(string_of(&chars_of("AUTHORITY_GENERATION_OUT_OF_RANGE")));
        }
        self.generation = self.generation + 1;
        self.available = true;
        Ok(PluginAuthorityLease { generation: self.generation })
    }

    /// The current generation.
    pub fn generation(&self) -> (r: u64)
        ensures
            r == self@.generation,
    {
        self.generation
    }

    /// Makes the authority unavailable; its generation stays.
    pub fn mark_unavailable(&mut self)
        ensures
            final(self)@ == (AuthorityView { generation: old(self)@.generation, available: false }),
    {
        self.available = false;
    }
}

/// A reset ends every lease taken before it: work of the old generation is no longer
/// admitted, and work of the new one is.
pub proof fn lemma_reset_ends_old_leases(before: AuthorityView, generation: u64)
    requires
        after_reset(before) is Some,
        generation == before.generation,
    ensures
        !admits(after_reset(before)->0, generation),
        admits(after_reset(before)->0, (generation + 1) as u64),
{
}

/// An unavailable authority admits no work, whatever its generation.
pub proof fn lemma_unavailable_admits_nothing(a: AuthorityView, generation: u64)
    requires
        !a.available,
    ensures
        !admits(a, generation),
        admit_error(a, generation) == Some("AUTHORITY_UNAVAILABLE"@),
{
}

} // verus!
