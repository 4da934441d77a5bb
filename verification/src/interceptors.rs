//! The interceptor kinds the core registry can construct, their
//! builders, and the configuration-to-instance wiring.

use vstd::prelude::*;
use vstd::string::StrSliceExecFns;
use vstd::string::StringSliceAdditionalSpecFns;

use crate::config::InterceptorConfig;
use crate::config::InterceptorConfigView;
use crate::error::GatewayError;
use crate::error::GatewayResult;
use crate::error::PhaseResult;
use crate::headers::hbuf_insert_spec;
use crate::hook::Hook;
use crate::hook::HookMask;
use crate::interceptor::Interceptor;
use crate::interceptor_name::InterceptorName;
use crate::phase::Phase;
use crate::phase::PhaseMask;
use crate::query::query_matches;
use crate::query::query_matches_spec;
use crate::query::Query;
use crate::session::Session;
use crate::session::SessionView;
use crate::strutil::clone_bytes;

verus! {

/// The bytes the server-version interceptor stages under the `server`
/// header.
pub open spec fn server_version_bytes() -> Seq<u8> {
    "dakia".spec_bytes()
}

/// Announces the gateway in a `server` response header.  In every
/// phase it is enabled and matched for, and on the pre-flush hook, it
/// stages `server` into the downstream header buffer and lets the
/// pipeline continue.
#[derive(Debug)]
pub struct ServerVersionInterceptor {
    pub phase_mask: PhaseMask,
    pub hook_mask: HookMask,
    pub filter: Option<Query>,
    pub version: Vec<u8>,
}

impl ServerVersionInterceptor {
    /// Stage the `server` header on the downstream buffer.
    fn stage(&self, session: &mut Session)
        ensures
            final(session)@ == (SessionView {
                ds_hbuf: hbuf_insert_spec(old(session)@.ds_hbuf, "server"@, self.version@),
                ..old(session)@
            }),
    {
        session.set_ds_header("server".to_owned(), clone_bytes(&self.version));
    }
}

impl Interceptor for ServerVersionInterceptor {
    open spec fn phase_mask_spec(&self) -> PhaseMask {
        self.phase_mask
    }

    open spec fn hook_mask_spec(&self) -> HookMask {
        self.hook_mask
    }

    open spec fn filter_spec(&self, s: SessionView) -> GatewayResult<bool> {
        match self.filter {
            None => Ok(true),
            Some(q) => query_matches_spec(q@, s.ds_req),
        }
    }

    open spec fn phase_handler_spec(&self, p: Phase, s: SessionView) -> (SessionView, PhaseResult) {
        (
            (SessionView { ds_hbuf: hbuf_insert_spec(s.ds_hbuf, "server"@, self.version@), ..s }),
            Ok(false),
        )
    }

    open spec fn hook_handler_spec(&self, h: Hook, s: SessionView) -> (
        SessionView,
        PhaseResult,
    ) {
        (
            (SessionView { ds_hbuf: hbuf_insert_spec(s.ds_hbuf, "server"@, self.version@), ..s }),
            Ok(false),
        )
    }

    fn phase_mask(&self) -> PhaseMask {
        self.phase_mask
    }

    fn hook_mask(&self) -> HookMask {
        self.hook_mask
    }

    fn filter(&self, session: &Session) -> GatewayResult<bool> {
        match &self.filter {
            None => Ok(true),
            Some(q) => query_matches(q, session),
        }
    }

    fn request_filter(&self, session: &mut Session) -> PhaseResult {
        self.stage(session);
        Ok(false)
    }

    fn upstream_proxy_filter(&self, session: &mut Session) -> PhaseResult {
        self.stage(session);
        Ok(false)
    }

    fn pre_upstream_request(&self, session: &mut Session) -> PhaseResult {
        self.stage(session);
        Ok(false)
    }

    fn post_upstream_response(&self, session: &mut Session) -> PhaseResult {
        self.stage(session);
        Ok(false)
    }

    fn pre_downstream_response(&self, session: &mut Session) -> PhaseResult {
        self.stage(session);
        Ok(false)
    }

    fn pre_downstream_response_hook(&self, session: &mut Session) -> PhaseResult {
        self.stage(session);
        Ok(false)
    }
}

/// What a correctly built server-version interceptor looks like for a
/// given configuration entry: masks and filter come from the entry,
/// the staged bytes are the fixed version.
pub open spec fn server_version_built_from(
    i: ServerVersionInterceptor,
    c: InterceptorConfigView,
) -> bool {
    &&& i.phase_mask == c.phase_mask
    &&& i.hook_mask == (match c.hook_mask {
        Some(m) => m,
        None => 0,
    })
    &&& (match i.filter {
        Some(q) => c.filter == Some(q@),
        None => c.filter is None,
    })
    &&& i.version@ == server_version_bytes()
}

/// One builder per interceptor kind: it validates the configuration
/// entry and constructs the shared, read-only instance once, at
/// gateway startup or reload.
pub trait InterceptorBuilder {
    type Built: Interceptor;

    /// Whether this builder accepts the entry.
    spec fn build_succeeds(&self, c: InterceptorConfigView) -> bool;

    /// What a successfully built instance looks like for the entry.
    spec fn built_ok(&self, c: InterceptorConfigView, b: Self::Built) -> bool;

    /// Which error a rejected entry produces.
    spec fn build_error(&self, c: InterceptorConfigView) -> GatewayError;

    fn build(&self, interceptor_config: InterceptorConfig) -> (r: GatewayResult<Self::Built>)
        ensures
            match r {
                Ok(b) => self.build_succeeds(interceptor_config@) && self.built_ok(
                    interceptor_config@,
                    b,
                ),
                Err(e) => !self.build_succeeds(interceptor_config@) && e == self.build_error(
                    interceptor_config@,
                ),
            },
    ;
}

/// Builds [`ServerVersionInterceptor`]; it needs nothing beyond the
/// entry itself, so every entry is accepted.
pub struct ServerVersionInterceptorBuilder {}

impl Default for ServerVersionInterceptorBuilder {
    fn default() -> (r: Self)
        ensures
            r == (ServerVersionInterceptorBuilder {  }),
    {
        ServerVersionInterceptorBuilder {  }
    }
}

impl InterceptorBuilder for ServerVersionInterceptorBuilder {
    type Built = ServerVersionInterceptor;

    open spec fn build_succeeds(&self, c: InterceptorConfigView) -> bool {
        true
    }

    open spec fn built_ok(&self, c: InterceptorConfigView, b: ServerVersionInterceptor) -> bool {
        server_version_built_from(b, c)
    }

    open spec fn build_error(&self, c: InterceptorConfigView) -> GatewayError {
        GatewayError::UnsupportedInterceptor { interceptor: c.name }
    }

    fn build(&self, interceptor_config: InterceptorConfig) -> (r: GatewayResult<
        ServerVersionInterceptor,
    >) {
        let hook_mask: HookMask = match interceptor_config.hook_mask {
            Some(m) => m,
            None => 0,
        };
        Ok(
            ServerVersionInterceptor {
                phase_mask: interceptor_config.phase_mask,
                hook_mask,
                filter: interceptor_config.filter,
                version: "dakia".as_bytes_vec(),
            },
        )
    }
}

/// Building the same configuration entry twice yields two instances
/// with identical declared phase mask and hook mask, identical
/// filter-evaluation behavior on identical inputs, and identical
/// handler behavior.
pub proof fn lemma_builder_idempotent(
    c: InterceptorConfigView,
    i1: ServerVersionInterceptor,
    i2: ServerVersionInterceptor,
)
    requires
        server_version_built_from(i1, c),
        server_version_built_from(i2, c),
    ensures
        i1.phase_mask_spec() == i2.phase_mask_spec(),
        i1.hook_mask_spec() == i2.hook_mask_spec(),
        forall|s: SessionView| i1.filter_spec(s) == i2.filter_spec(s),
        forall|p: Phase, s: SessionView|
            #[trigger] i1.phase_handler_spec(p, s) == i2.phase_handler_spec(p, s),
        forall|h: Hook, s: SessionView|
            #[trigger] i1.hook_handler_spec(h, s) == i2.hook_handler_spec(h, s),
{
    assert forall|s: SessionView| i1.filter_spec(s) == i2.filter_spec(s) by {
        match i1.filter {
            None => {},
            Some(q1) => {
                assert(i2.filter matches Some(q2) && q2@ == q1@);
            },
        }
    }
    assert forall|p: Phase, s: SessionView|
        #[trigger] i1.phase_handler_spec(p, s) == i2.phase_handler_spec(p, s) by {
        assert(i1.phase_handler_spec(p, s).0 =~~= i2.phase_handler_spec(p, s).0);
    }
    assert forall|h: Hook, s: SessionView|
        #[trigger] i1.hook_handler_spec(h, s) == i2.hook_handler_spec(h, s) by {
        assert(i1.hook_handler_spec(h, s).0 =~~= i2.hook_handler_spec(h, s).0);
    }
}

/// The interceptor kinds the core registry can hand out, behind one
/// type so a configured list can hold any mix of them.
#[derive(Debug)]
pub enum BuiltInterceptor {
    ServerVersion(ServerVersionInterceptor),
}

impl Interceptor for BuiltInterceptor {
    open spec fn phase_mask_spec(&self) -> PhaseMask {
        match self {
            BuiltInterceptor::ServerVersion(i) => i.phase_mask_spec(),
        }
    }

    open spec fn hook_mask_spec(&self) -> HookMask {
        match self {
            BuiltInterceptor::ServerVersion(i) => i.hook_mask_spec(),
        }
    }

    open spec fn filter_spec(&self, s: SessionView) -> GatewayResult<bool> {
        match self {
            BuiltInterceptor::ServerVersion(i) => i.filter_spec(s),
        }
    }

    open spec fn phase_handler_spec(&self, p: Phase, s: SessionView) -> (SessionView, PhaseResult) {
        match self {
            BuiltInterceptor::ServerVersion(i) => i.phase_handler_spec(p, s),
        }
    }

    open spec fn hook_handler_spec(&self, h: Hook, s: SessionView) -> (
        SessionView,
        PhaseResult,
    ) {
        match self {
            BuiltInterceptor::ServerVersion(i) => i.hook_handler_spec(h, s),
        }
    }

    fn phase_mask(&self) -> PhaseMask {
        match self {
            BuiltInterceptor::ServerVersion(i) => i.phase_mask(),
        }
    }

    fn hook_mask(&self) -> HookMask {
        match self {
            BuiltInterceptor::ServerVersion(i) => i.hook_mask(),
        }
    }

    fn filter(&self, session: &Session) -> GatewayResult<bool> {
        match self {
            BuiltInterceptor::ServerVersion(i) => i.filter(session),
        }
    }

    fn request_filter(&self, session: &mut Session) -> PhaseResult {
        match self {
            BuiltInterceptor::ServerVersion(i) => i.request_filter(session),
        }
    }

    fn upstream_proxy_filter(&self, session: &mut Session) -> PhaseResult {
        match self {
            BuiltInterceptor::ServerVersion(i) => i.upstream_proxy_filter(session),
        }
    }

    fn pre_upstream_request(&self, session: &mut Session) -> PhaseResult {
        match self {
            BuiltInterceptor::ServerVersion(i) => i.pre_upstream_request(session),
        }
    }

    fn post_upstream_response(&self, session: &mut Session) -> PhaseResult {
        match self {
            BuiltInterceptor::ServerVersion(i) => i.post_upstream_response(session),
        }
    }

    fn pre_downstream_response(&self, session: &mut Session) -> PhaseResult {
        match self {
            BuiltInterceptor::ServerVersion(i) => i.pre_downstream_response(session),
        }
    }

    fn pre_downstream_response_hook(&self, session: &mut Session) -> PhaseResult {
        match self {
            BuiltInterceptor::ServerVersion(i) => i.pre_downstream_response_hook(session),
        }
    }
}

/// Look the entry's kind up in the closed registry and build it.
///
/// The file-serving kind reads from the filesystem, which lives
/// outside this core; drivers that want it supply their own
/// implementation of the interceptor contract and compose it into
/// their list.
pub fn build_interceptor(interceptor_config: InterceptorConfig) -> (r: GatewayResult<
    BuiltInterceptor,
>)
    ensures
        match r {
            Ok(b) => interceptor_config@.name == InterceptorName::ServerVersion && (
            b matches BuiltInterceptor::ServerVersion(i) && server_version_built_from(
                i,
                interceptor_config@,
            )),
            Err(e) => interceptor_config@.name == InterceptorName::UseFile && e == (
            GatewayError::UnsupportedInterceptor { interceptor: InterceptorName::UseFile }),
        },
{
    match interceptor_config.name {
        InterceptorName::ServerVersion => {
            let builder = ServerVersionInterceptorBuilder::default();
            match builder.build(interceptor_config) {
                Ok(i) => Ok(BuiltInterceptor::ServerVersion(i)),
                Err(e) => Err(e),
            }
        },
        InterceptorName::UseFile => Err(
            GatewayError::UnsupportedInterceptor { interceptor: InterceptorName::UseFile },
        ),
    }
}

/// Whether a configuration entry takes part in the pipeline.
pub open spec fn config_enabled(c: InterceptorConfig) -> bool {
    c.enabled
}

/// Build the pipeline from the configured entries, in order, skipping
/// disabled ones.  Fails exactly when an enabled entry names a kind
/// the registry cannot build.
pub fn build_interceptors(configs: Vec<InterceptorConfig>) -> (r: GatewayResult<
    Vec<BuiltInterceptor>,
>)
    ensures
        ({
            let en = configs@.filter(|c: InterceptorConfig| config_enabled(c));
            match r {
                Ok(list) => list@.len() == en.len() && forall|i: int|
                    0 <= i < en.len() ==> (#[trigger] en[i]).name == InterceptorName::ServerVersion
                        && ((#[trigger] list@[i]) matches BuiltInterceptor::ServerVersion(b)
                        && server_version_built_from(b, en[i]@)),
                Err(e) => (exists|i: int|
                    0 <= i < en.len() && (#[trigger] en[i]).name == InterceptorName::UseFile) && e
                    == (GatewayError::UnsupportedInterceptor {
                    interceptor: InterceptorName::UseFile,
                }),
            }
        }),
{
    let ghost all = configs@;
    let mut remaining = configs;
    let mut out: Vec<BuiltInterceptor> = Vec::new();
    let ghost mut processed: Seq<InterceptorConfig> = Seq::empty();
    proof {
        reveal(Seq::filter);
        assert(processed.filter(|c: InterceptorConfig| config_enabled(c)) =~= Seq::<
            InterceptorConfig,
        >::empty());
    }
    let mut i: usize = 0;
    let n = remaining.len();
    while i < n
        invariant
            all == configs@,
            n == all.len(),
            i <= n,
            remaining@ == all.skip(i as int),
            processed == all.take(i as int),
            ({
                let en = processed.filter(|c: InterceptorConfig| config_enabled(c));
                out@.len() == en.len() && forall|k: int|
                    0 <= k < en.len() ==> (#[trigger] en[k]).name
                        == InterceptorName::ServerVersion && ((#[trigger] out@[k]) matches
                    BuiltInterceptor::ServerVersion(b) && server_version_built_from(b, en[k]@))
            }),
        decreases n - i,
    {
        let ghost en_pre = processed.filter(|c: InterceptorConfig| config_enabled(c));
        let c = remaining.remove(0);
        proof {
            assert(c == all[i as int]);
            assert(remaining@ =~= all.skip(i as int + 1));
            assert(all.take(i as int + 1) =~= all.take(i as int).push(c));
            assert(all.take(i as int + 1).drop_last() =~= all.take(i as int));
        }
        if c.enabled {
            proof {
                reveal(Seq::filter);
                assert(all.take(i as int + 1).filter(|x: InterceptorConfig| config_enabled(x))
                    =~= en_pre.push(c));
            }
            match build_interceptor(c) {
                Ok(b) => {
                    out.push(b);
                },
                Err(e) => {
                    proof {
                        let en_all = all.filter(|x: InterceptorConfig| config_enabled(x));
                        let en_now = all.take(i as int + 1).filter(
                            |x: InterceptorConfig| config_enabled(x),
                        );
                        assert(en_now[en_now.len() - 1] == c);
                        let k = lemma_filter_take_prefix(all, i as int + 1, en_now.len() - 1);
                        assert(en_all[k].name == InterceptorName::UseFile);
                    }
                    return Err(e);
                },
            }
        } else {
            proof {
                reveal(Seq::filter);
                assert(all.take(i as int + 1).filter(|x: InterceptorConfig| config_enabled(x))
                    =~= en_pre);
            }
        }
        proof {
            processed = all.take(i as int + 1);
        }
        i += 1;
    }
    proof {
        assert(all.take(n as int) =~= all);
    }
    Ok(out)
}

/// An element of a prefix's filtering is an element of the whole
/// sequence's filtering; the returned value is its index there.
proof fn lemma_filter_take_prefix(s: Seq<InterceptorConfig>, m: int, j: int) -> (k: int)
    requires
        0 <= m <= s.len(),
        0 <= j < s.take(m).filter(|x: InterceptorConfig| config_enabled(x)).len(),
    ensures
        0 <= k < s.filter(|x: InterceptorConfig| config_enabled(x)).len(),
        s.filter(|x: InterceptorConfig| config_enabled(x))[k] == s.take(m).filter(
            |x: InterceptorConfig| config_enabled(x),
        )[j],
    decreases s.len() - m,
{
    reveal(Seq::filter);
    if m == s.len() {
        assert(s.take(m) =~= s);
        j
    } else {
        assert(s.take(m + 1).drop_last() =~= s.take(m));
        let en_m = s.take(m).filter(|x: InterceptorConfig| config_enabled(x));
        let en_m1 = s.take(m + 1).filter(|x: InterceptorConfig| config_enabled(x));
        if config_enabled(s[m]) {
            assert(en_m1 =~= en_m.push(s[m]));
        } else {
            assert(en_m1 =~= en_m);
        }
        assert(en_m1[j] == en_m[j]);
        lemma_filter_take_prefix(s, m + 1, j)
    }
}

} // verus!
