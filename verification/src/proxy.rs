//! The per-gateway proxy state and the request validation that runs
//! ahead of the interceptor pipeline.

use vstd::prelude::*;
use vstd::utf8::encode_utf8;

use crate::config::GatewayConfig;
use crate::error::GatewayResult;
use crate::strutil::bytes_eq;

verus! {

/// The downstream hosts a gateway accepts, built once per
/// configuration generation.  Hosts are matched exactly; richer
/// pattern syntaxes live with the collaborator that compiles them.
pub struct PatternRegistry {
    hosts: Vec<String>,
}

/// Whether `host` names one of the registered hosts, byte for byte.
pub open spec fn host_allowed_spec(hosts: Seq<Seq<char>>, host: Seq<u8>) -> bool {
    exists|i: int| 0 <= i < hosts.len() && encode_utf8(#[trigger] hosts[i]) == host
}

impl View for PatternRegistry {
    type V = Seq<Seq<char>>;

    closed spec fn view(&self) -> Seq<Seq<char>> {
        Seq::new(self.hosts@.len(), |i: int| self.hosts@[i]@)
    }
}

impl PatternRegistry {
    /// A registry accepting exactly the given hosts.
    pub fn build(hosts: Vec<String>) -> (r: PatternRegistry)
        ensures
            r@ == Seq::new(hosts@.len(), |i: int| hosts@[i]@),
    {
        let r = PatternRegistry { hosts };
        proof {
            assert(r@ =~= Seq::new(r.hosts@.len(), |i: int| r.hosts@[i]@));
        }
        r
    }

    /// Whether the host is accepted.
    pub fn is_allowed(&self, host: &[u8]) -> (r: bool)
        ensures
            r == host_allowed_spec(self@, host@),
    {
        let n = self.hosts.len();
        let mut i: usize = 0;
        while i < n
            invariant
                n == self.hosts@.len(),
                n == self@.len(),
                i <= n,
                forall|k: int| 0 <= k < i ==> encode_utf8(#[trigger] self@[k]) != host@,
            decreases n - i,
        {
            if bytes_eq(self.hosts[i].as_str().as_bytes(), host) {
                proof {
                    assert(encode_utf8(self@[i as int]) == host@);
                }
                return true;
            }
            i += 1;
        }
        false
    }
}

/// What the host check ahead of the pipeline decides: a request
/// without a host header is rejected outright, one whose host the
/// gateway does not serve is forbidden, and the rest proceed into the
/// pipeline.
#[derive(Clone, Copy, PartialEq, Eq, Structural, Debug)]
pub enum HostDecision {
    MissingHost,
    Forbidden,
    Allowed,
}

impl HostDecision {
    /// The terminal response status this decision asks the driver to
    /// write, or nothing when the request proceeds.
    pub fn response_status(&self) -> (r: Option<u16>)
        ensures
            *self == HostDecision::MissingHost ==> r == Some(400u16),
            *self == HostDecision::Forbidden ==> r == Some(403u16),
            *self == HostDecision::Allowed ==> r is None,
    {
        match self {
            HostDecision::MissingHost => Some(400),
            HostDecision::Forbidden => Some(403),
            HostDecision::Allowed => None,
        }
    }
}

/// What the host check decides for a given host header.
pub open spec fn host_decision_spec(hosts: Seq<Seq<char>>, host: Option<Seq<u8>>) -> HostDecision {
    match host {
        None => HostDecision::MissingHost,
        Some(h) => if host_allowed_spec(hosts, h) {
            HostDecision::Allowed
        } else {
            HostDecision::Forbidden
        },
    }
}

/// The data carried by a gateway proxy.
#[verifier::ext_equal]
pub struct ProxyView {
    pub name: Seq<char>,
    pub hosts: Seq<Seq<char>>,
}

/// One gateway's proxy state: its name and the downstream hosts it
/// accepts.
pub struct Proxy {
    name: String,
    ds_host_pattern_registry: PatternRegistry,
}

impl View for Proxy {
    type V = ProxyView;

    closed spec fn view(&self) -> ProxyView {
        ProxyView { name: self.name@, hosts: self.ds_host_pattern_registry@ }
    }
}

impl Proxy {
    /// Build the proxy state for one gateway from its configuration:
    /// the name is taken over and the host registry is built from the
    /// configured downstreams.
    pub fn build(gateway_config: &GatewayConfig) -> (r: GatewayResult<Proxy>)
        ensures
            r matches Ok(p) && p@ == (ProxyView {
                name: gateway_config.name@,
                hosts: Seq::new(
                    gateway_config.downstreams@.len(),
                    |i: int| gateway_config.downstreams@[i].host@,
                ),
            }),
    {
        let mut hosts: Vec<String> = Vec::new();
        let n = gateway_config.downstreams.len();
        let mut i: usize = 0;
        while i < n
            invariant
                n == gateway_config.downstreams@.len(),
                i <= n,
                hosts@.len() == i,
                forall|k: int|
                    0 <= k < i ==> (#[trigger] hosts@[k])@ == gateway_config.downstreams@[k].host@,
            decreases n - i,
        {
            hosts.push(gateway_config.downstreams[i].host.clone());
            i += 1;
        }
        let p = Proxy {
            name: gateway_config.name.clone(),
            ds_host_pattern_registry: PatternRegistry::build(hosts),
        };
        proof {
            assert(p@ =~~= (ProxyView {
                name: gateway_config.name@,
                hosts: Seq::new(
                    gateway_config.downstreams@.len(),
                    |i: int| gateway_config.downstreams@[i].host@,
                ),
            }));
        }
        Ok(p)
    }

    /// The gateway's configured name.
    pub fn name(&self) -> (r: &str)
        ensures
            r@ == self@.name,
    {
        self.name.as_str()
    }

    /// Whether the downstream host is one this gateway serves.
    pub fn is_valid_ds_host(&self, host: &[u8]) -> (r: bool)
        ensures
            r == host_allowed_spec(self@.hosts, host@),
    {
        self.ds_host_pattern_registry.is_allowed(host)
    }

    /// The decision the gateway takes on a request's host header
    /// before any interceptor runs.
    pub fn request_filter_decision(&self, host: Option<&Vec<u8>>) -> (d: HostDecision)
        ensures
            d == host_decision_spec(
                self@.hosts,
                match host {
                    Some(h) => Some(h@),
                    None => None,
                },
            ),
    {
        match host {
            None => HostDecision::MissingHost,
            Some(h) => {
                if self.is_valid_ds_host(h.as_slice()) {
                    HostDecision::Allowed
                } else {
                    HostDecision::Forbidden
                }
            },
        }
    }
}

} // verus!
