//! Cross-cutting lifecycle events that interceptors may subscribe to,
//! independently of the phase ordering.
//!
//! Hooks have their own bit-mask space, so the set can grow without
//! touching [`crate::phase::Phase`].

use vstd::prelude::*;

verus! {

/// A set of [`Hook`] values, encoded bitwise.
pub type HookMask = u8;

/// A lifecycle event adjacent to the phases.  Currently the only member
/// signals that the downstream response headers are about to be
/// committed.
#[derive(Clone, Copy, PartialEq, Eq, Structural, Debug)]
pub enum Hook {
    PreDownstreamResponseHeaderFlush,
}

impl Hook {
    /// The single bit that stands for this hook in a [`HookMask`].
    pub open spec fn mask_spec(self) -> HookMask {
        match self {
            Hook::PreDownstreamResponseHeaderFlush => 0x01,
        }
    }

    pub fn mask(&self) -> (m: HookMask)
        ensures
            m == self.mask_spec(),
    {
        match self {
            Hook::PreDownstreamResponseHeaderFlush => 0x01,
        }
    }

    /// The mask holding every hook.
    pub fn all_hook_mask() -> (m: HookMask)
        ensures
            m == 0x01,
            forall|h: Hook| is_hook_enabled_spec(m, h),
    {
        proof {
            assert(0x01u8 & 0x01 == 0x01) by (bit_vector);
        }
        0x01
    }
}

/// Whether `hook` is a member of the set encoded by `hook_mask`.
pub open spec fn is_hook_enabled_spec(hook_mask: HookMask, hook: Hook) -> bool {
    hook_mask & hook.mask_spec() == hook.mask_spec()
}

pub fn is_hook_enabled(hook_mask: HookMask, hook: &Hook) -> (r: bool)
    ensures
        r == is_hook_enabled_spec(hook_mask, *hook),
{
    let m = hook.mask();
    (hook_mask & m) == m
}

} // verus!
