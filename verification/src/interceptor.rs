//! The capability contract every interceptor satisfies.
//!
//! An interceptor declares interest in phases and hooks through
//! bitmasks, decides per invocation whether it applies through a
//! side-effect-free filter, and carries one handler per phase and per
//! hook.  A handler returning `Ok(true)` signals that a terminal
//! response has been produced and the remaining pipeline for the
//! current phase must not run.
//!
//! Each executable method is pinned to a specification-level function
//! of the session state, so the executor's contract can state exactly
//! which interceptors run, in which order, and what the session looks
//! like afterwards.

use vstd::prelude::*;

use crate::error::GatewayError;
use crate::error::GatewayResult;
use crate::error::PhaseResult;
use crate::hook::Hook;
use crate::hook::HookMask;
use crate::phase::Phase;
use crate::phase::PhaseMask;
use crate::session::Session;
use crate::session::SessionView;

verus! {

pub trait Interceptor: Sized {
    /// The phases this interceptor subscribes to.  The defaults of
    /// this and the other specification members describe an
    /// interceptor that subscribes to nothing and does nothing, so an
    /// unverified implementation outside this crate only has to
    /// provide the executable methods.
    open spec fn phase_mask_spec(&self) -> PhaseMask {
        0
    }

    /// The hooks this interceptor subscribes to.
    open spec fn hook_mask_spec(&self) -> HookMask {
        0
    }

    /// What the filter decides on a given session state.
    open spec fn filter_spec(&self, s: SessionView) -> GatewayResult<bool> {
        Ok(true)
    }

    /// What the handler for phase `p` does to a given session state,
    /// and what it returns.
    open spec fn phase_handler_spec(&self, p: Phase, s: SessionView) -> (
        SessionView,
        PhaseResult,
    ) {
        (s, Ok(false))
    }

    /// What the handler for hook `h` does to a given session state,
    /// and what it returns.
    open spec fn hook_handler_spec(&self, h: Hook, s: SessionView) -> (
        SessionView,
        PhaseResult,
    ) {
        (s, Ok(false))
    }

    fn phase_mask(&self) -> (m: PhaseMask)
        ensures
            m == self.phase_mask_spec(),
    ;

    fn hook_mask(&self) -> (m: HookMask)
        ensures
            m == self.hook_mask_spec(),
    ;

    /// Whether this interceptor applies to the current request; a
    /// side-effect-free predicate, evaluated fresh on every phase and
    /// hook invocation.
    fn filter(&self, session: &Session) -> (r: GatewayResult<bool>)
        ensures
            r == self.filter_spec(session@),
    ;

    fn request_filter(&self, session: &mut Session) -> (r: PhaseResult)
        ensures
            self.phase_handler_spec(Phase::RequestFilter, old(session)@) == (
                final(session)@,
                r,
            ),
    ;

    fn upstream_proxy_filter(&self, session: &mut Session) -> (r: PhaseResult)
        ensures
            self.phase_handler_spec(Phase::UpstreamProxyFilter, old(session)@) == (
                final(session)@,
                r,
            ),
    ;

    fn pre_upstream_request(&self, session: &mut Session) -> (r: PhaseResult)
        ensures
            self.phase_handler_spec(Phase::PreUpstreamRequest, old(session)@) == (
                final(session)@,
                r,
            ),
    ;

    fn post_upstream_response(&self, session: &mut Session) -> (r: PhaseResult)
        ensures
            self.phase_handler_spec(Phase::PostUpstreamResponse, old(session)@) == (
                final(session)@,
                r,
            ),
    ;

    fn pre_downstream_response(&self, session: &mut Session) -> (r: PhaseResult)
        ensures
            self.phase_handler_spec(Phase::PreDownstreamResponse, old(session)@) == (
                final(session)@,
                r,
            ),
    ;

    /// Like the phase handlers, a hook handler returns the
    /// short-circuit signal: `Ok(true)` stops the remaining hook
    /// pipeline.  A hook handler also leaves the session bound to the
    /// same phase: no session operation rebinds a phase.
    fn pre_downstream_response_hook(&self, session: &mut Session) -> (r: PhaseResult)
        ensures
            self.hook_handler_spec(Hook::PreDownstreamResponseHeaderFlush, old(session)@) == (
                final(session)@,
                r,
            ),
            final(session)@.phase == old(session)@.phase,
    ;
}

} // verus!
