//! Declarative configuration records the gateway is built from.

use vstd::prelude::*;

use crate::headers::HeaderEntry;
use crate::hook::HookMask;
use crate::interceptor_name::InterceptorName;
use crate::phase::PhaseMask;
use crate::query::Query;
use crate::router::Downstream;
use crate::router::InetAddress;

verus! {

/// One configured interceptor entry: parsed once from the gateway's
/// static configuration, immutable afterwards; each entry feeds exactly
/// one interceptor construction.
pub struct InterceptorConfig {
    /// Which interceptor kind to build; the builder is looked up from
    /// the closed registry.
    pub name: InterceptorName,
    /// Whether the entry takes part in the pipeline at all.
    pub enabled: bool,
    /// The phases the interceptor subscribes to.
    pub phase_mask: PhaseMask,
    /// The hooks the interceptor subscribes to, if any.
    pub hook_mask: Option<HookMask>,
    /// The per-request applicability predicate, if any.
    pub filter: Option<Query>,
    /// The free-form configuration payload, if any.
    pub config: Option<Query>,
}

/// The data carried by an interceptor entry.
#[verifier::ext_equal]
pub struct InterceptorConfigView {
    pub name: InterceptorName,
    pub enabled: bool,
    pub phase_mask: PhaseMask,
    pub hook_mask: Option<HookMask>,
    pub filter: Option<Seq<HeaderEntry>>,
    pub config: Option<Seq<HeaderEntry>>,
}

impl View for InterceptorConfig {
    type V = InterceptorConfigView;

    open spec fn view(&self) -> InterceptorConfigView {
        InterceptorConfigView {
            name: self.name,
            enabled: self.enabled,
            phase_mask: self.phase_mask,
            hook_mask: self.hook_mask,
            filter: match self.filter {
                Some(q) => Some(q@),
                None => None,
            },
            config: match self.config {
                Some(q) => Some(q@),
                None => None,
            },
        }
    }
}

/// The static configuration of one gateway: its name, where it
/// listens, which downstream hosts it accepts, and the ordered
/// interceptor entries its pipeline is built from.
pub struct GatewayConfig {
    pub name: String,
    pub bind_addresses: Vec<InetAddress>,
    pub downstreams: Vec<Downstream>,
    pub interceptors: Vec<InterceptorConfig>,
}

} // verus!
