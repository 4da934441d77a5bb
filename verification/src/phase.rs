//! The fixed lifecycle points a request passes through, and bitmask
//! subsets of them.
//!
//! Every phase owns one distinct bit, so any subset of phases can be
//! encoded as the bitwise OR of the members' masks and membership is a
//! single AND.

use vstd::prelude::*;

verus! {

/// A set of [`Phase`] values, encoded bitwise.
pub type PhaseMask = u8;

/// One point in the proxying lifecycle of a request.  A request reaches
/// the phases in declaration order, each at most once.
#[derive(Clone, Copy, PartialEq, Eq, Structural, Debug)]
pub enum Phase {
    RequestFilter,
    UpstreamProxyFilter,
    PreUpstreamRequest,
    PostUpstreamResponse,
    PreDownstreamResponse,
}

impl Phase {
    /// The single bit that stands for this phase in a [`PhaseMask`].
    pub open spec fn mask_spec(self) -> PhaseMask {
        match self {
            Phase::RequestFilter => 0x01,
            Phase::UpstreamProxyFilter => 0x02,
            Phase::PreUpstreamRequest => 0x04,
            Phase::PostUpstreamResponse => 0x08,
            Phase::PreDownstreamResponse => 0x10,
        }
    }

    /// Position of this phase's bit, counted from the least significant.
    pub open spec fn bit_index(self) -> u8 {
        match self {
            Phase::RequestFilter => 0,
            Phase::UpstreamProxyFilter => 1,
            Phase::PreUpstreamRequest => 2,
            Phase::PostUpstreamResponse => 3,
            Phase::PreDownstreamResponse => 4,
        }
    }

    pub fn mask(&self) -> (m: PhaseMask)
        ensures
            m == self.mask_spec(),
    {
        match self {
            Phase::RequestFilter => 0x01,
            Phase::UpstreamProxyFilter => 0x02,
            Phase::PreUpstreamRequest => 0x04,
            Phase::PostUpstreamResponse => 0x08,
            Phase::PreDownstreamResponse => 0x10,
        }
    }

    /// The mask holding every phase.
    pub fn all_phase_mask() -> (m: PhaseMask)
        ensures
            m == 0x1f,
            forall|p: Phase| is_phase_enabled_spec(m, p),
    {
        let m: PhaseMask = 0x01 | 0x02 | 0x04 | 0x08 | 0x10;
        proof {
            assert(0x01u8 | 0x02 | 0x04 | 0x08 | 0x10 == 0x1f) by (bit_vector);
            assert(forall|p: Phase| is_phase_enabled_spec(0x1f, p)) by {
                assert(0x1fu8 & 0x01 == 0x01) by (bit_vector);
                assert(0x1fu8 & 0x02 == 0x02) by (bit_vector);
                assert(0x1fu8 & 0x04 == 0x04) by (bit_vector);
                assert(0x1fu8 & 0x08 == 0x08) by (bit_vector);
                assert(0x1fu8 & 0x10 == 0x10) by (bit_vector);
            }
        }
        m
    }

    /// A short, stable name for the phase.
    pub fn as_str(&self) -> (s: &'static str)
        ensures
            s@ == self.name_spec(),
    {
        match self {
            Phase::RequestFilter => "request_filter",
            Phase::UpstreamProxyFilter => "upstream_proxy_filter",
            Phase::PreUpstreamRequest => "pre_upstream_request",
            Phase::PostUpstreamResponse => "post_upstream_response",
            Phase::PreDownstreamResponse => "pre_downstream_response",
        }
    }

    pub open spec fn name_spec(self) -> Seq<char> {
        match self {
            Phase::RequestFilter => "request_filter"@,
            Phase::UpstreamProxyFilter => "upstream_proxy_filter"@,
            Phase::PreUpstreamRequest => "pre_upstream_request"@,
            Phase::PostUpstreamResponse => "post_upstream_response"@,
            Phase::PreDownstreamResponse => "pre_downstream_response"@,
        }
    }
}

/// Whether `phase` is a member of the set encoded by `phase_mask`.
pub open spec fn is_phase_enabled_spec(phase_mask: PhaseMask, phase: Phase) -> bool {
    phase_mask & phase.mask_spec() == phase.mask_spec()
}

pub fn is_phase_enabled(phase_mask: PhaseMask, phase: &Phase) -> (r: bool)
    ensures
        r == is_phase_enabled_spec(phase_mask, *phase),
{
    let m = phase.mask();
    (phase_mask & m) == m
}

/// A phase is enabled in a mask exactly when the phase's own bit is set
/// in the mask; in particular, the empty mask enables no phase.
pub proof fn lemma_phase_mask_enabled(m: PhaseMask, p: Phase)
    ensures
        is_phase_enabled_spec(m, p) <==> ((m >> p.bit_index()) & 1) == 1,
        !is_phase_enabled_spec(0, p),
{
    match p {
        Phase::RequestFilter => {
            assert((m & 0x01 == 0x01) <==> ((m >> 0) & 1) == 1) by (bit_vector);
            assert(0u8 & 0x01 != 0x01) by (bit_vector);
        },
        Phase::UpstreamProxyFilter => {
            assert((m & 0x02 == 0x02) <==> ((m >> 1) & 1) == 1) by (bit_vector);
            assert(0u8 & 0x02 != 0x02) by (bit_vector);
        },
        Phase::PreUpstreamRequest => {
            assert((m & 0x04 == 0x04) <==> ((m >> 2) & 1) == 1) by (bit_vector);
            assert(0u8 & 0x04 != 0x04) by (bit_vector);
        },
        Phase::PostUpstreamResponse => {
            assert((m & 0x08 == 0x08) <==> ((m >> 3) & 1) == 1) by (bit_vector);
            assert(0u8 & 0x08 != 0x08) by (bit_vector);
        },
        Phase::PreDownstreamResponse => {
            assert((m & 0x10 == 0x10) <==> ((m >> 4) & 1) == 1) by (bit_vector);
            assert(0u8 & 0x10 != 0x10) by (bit_vector);
        },
    }
}

} // verus!
