//! The per-request facade over the real request/response objects.
//!
//! A `Session` is created fresh for every phase invocation.  It holds
//! the real downstream request header, optionally the real upstream
//! request and response headers once they exist, two staging buffers
//! for header mutations, a staged response status, and a small model of
//! the downstream transport: the response header handed over for
//! writing, the body chunks written, and the body chunks the driver has
//! made available for reading.  The driver around the gateway performs
//! the actual socket I/O from and into that transport state between
//! phase invocations.

use vstd::prelude::*;

use pingora_http::RequestHeader;
use pingora_http::ResponseHeader;

use crate::error::GatewayError;
use crate::error::GatewayResult;
use crate::ext_headers::empty_headers;
use crate::ext_headers::header_name_count;
use crate::ext_headers::resp_header_name_count;
use crate::ext_headers::HEADER_NAME_CAPACITY;
use crate::ext_headers::header_key;
use crate::ext_headers::header_name_ok;
use crate::ext_headers::header_value_ok;
use crate::ext_headers::resp_build;
use crate::ext_headers::resp_insert_header;
use crate::ext_headers::req_header_bytes;
use crate::ext_headers::req_method_str;
use crate::ext_headers::req_path_str;
use crate::ext_headers::req_query_str;
use crate::ext_headers::req_headers;
use crate::ext_headers::req_method;
use crate::ext_headers::req_path;
use crate::ext_headers::req_query;
use crate::ext_headers::resp_headers;
use crate::ext_headers::resp_status;
use crate::headers::hbuf_insert_spec;
use crate::headers::HeaderBuffer;
use crate::headers::HeaderEntry;
use crate::hook::is_hook_enabled;
use crate::hook::is_hook_enabled_spec;
use crate::hook::Hook;
use crate::interceptor::Interceptor;
use crate::phase::is_phase_enabled;
use crate::phase::is_phase_enabled_spec;
use crate::phase::Phase;
use crate::error::PhaseResult;

verus! {

/// What the logic reads of a request header object.
#[verifier::ext_equal]
pub struct ReqView {
    pub method: Seq<char>,
    pub path: Seq<char>,
    pub query: Option<Seq<char>>,
    pub headers: Map<Seq<char>, Seq<u8>>,
}

/// The model of a request header object.
pub open spec fn req_view(h: RequestHeader) -> ReqView {
    ReqView {
        method: req_method(h),
        path: req_path(h),
        query: req_query(h),
        headers: req_headers(h),
    }
}

/// What the logic reads of a response header object.
#[verifier::ext_equal]
pub struct RespView {
    pub status: u16,
    pub headers: Map<Seq<char>, Seq<u8>>,
}

/// The model of a response header object.
pub open spec fn resp_view(h: ResponseHeader) -> RespView {
    RespView { status: resp_status(h), headers: resp_headers(h) }
}

/// The whole state a session stages and mediates, as one mathematical
/// value.
#[verifier::ext_equal]
pub struct SessionView {
    /// The phase this session is bound to.
    pub phase: Phase,
    /// The real downstream request.
    pub ds_req: ReqView,
    /// The real upstream request, once attached.
    pub us_req: Option<ReqView>,
    /// The real upstream response, once attached.
    pub us_res: Option<RespView>,
    /// Headers staged for the downstream response.
    pub ds_hbuf: Seq<HeaderEntry>,
    /// Headers staged for the upstream request.
    pub us_hbuf: Seq<HeaderEntry>,
    /// The staged downstream response status.
    pub ds_status: u16,
    /// Whether connection keep-alive has been disabled.
    pub keepalive_disabled: bool,
    /// The downstream response header handed to the transport, if any.
    pub written_ds_header: Option<RespView>,
    /// Downstream body chunks handed to the transport, with their
    /// end-of-stream marks.
    pub written_ds_body: Seq<(Option<Seq<u8>>, bool)>,
    /// Downstream request body chunks the driver has made available.
    pub pending_ds_body: Seq<Option<Seq<u8>>>,
}

/// The state of a freshly built session.
pub open spec fn fresh_session_view(phase: Phase, ds_req: ReqView) -> SessionView {
    SessionView {
        phase,
        ds_req,
        us_req: None,
        us_res: None,
        ds_hbuf: Seq::empty(),
        us_hbuf: Seq::empty(),
        ds_status: 200,
        keepalive_disabled: false,
        written_ds_header: None,
        written_ds_body: Seq::empty(),
        pending_ds_body: Seq::empty(),
    }
}

/// A staged status code, kept within the range the response header
/// type accepts.
struct StagedStatus {
    code: u16,
}

impl StagedStatus {
    #[verifier::type_invariant]
    spec fn wf(self) -> bool {
        100 <= self.code <= 999
    }

    fn new(code: u16) -> (r: StagedStatus)
        requires
            100 <= code <= 999,
        ensures
            r.code == code,
    {
        StagedStatus { code }
    }

    fn get(&self) -> (r: u16)
        ensures
            r == self.code,
            100 <= r <= 999,
    {
        proof {
            use_type_invariant(self);
        }
        self.code
    }
}

/// The per-request, per-phase facade.
pub struct Session {
    phase: Phase,
    ds_req: RequestHeader,
    upstream_req: Option<RequestHeader>,
    upstream_res: Option<ResponseHeader>,
    ds_hbuf: HeaderBuffer,
    us_hbuf: HeaderBuffer,
    ds_status_code: StagedStatus,
    keepalive_disabled: bool,
    written_ds_header: Option<ResponseHeader>,
    written_ds_body: Vec<(Option<Vec<u8>>, bool)>,
    pending_ds_body: Vec<Option<Vec<u8>>>,
}

/// The model of an optional body chunk.
pub open spec fn opt_bytes_view(b: Option<Vec<u8>>) -> Option<Seq<u8>> {
    match b {
        Some(v) => Some(v@),
        None => None,
    }
}

impl View for Session {
    type V = SessionView;

    closed spec fn view(&self) -> SessionView {
        SessionView {
            phase: self.phase,
            ds_req: req_view(self.ds_req),
            us_req: match self.upstream_req {
                Some(h) => Some(req_view(h)),
                None => None,
            },
            us_res: match self.upstream_res {
                Some(h) => Some(resp_view(h)),
                None => None,
            },
            ds_hbuf: self.ds_hbuf@,
            us_hbuf: self.us_hbuf@,
            ds_status: self.ds_status_code.code,
            keepalive_disabled: self.keepalive_disabled,
            written_ds_header: match self.written_ds_header {
                Some(h) => Some(resp_view(h)),
                None => None,
            },
            written_ds_body: Seq::new(
                self.written_ds_body@.len(),
                |i: int|
                    (opt_bytes_view(self.written_ds_body@[i].0), self.written_ds_body@[i].1),
            ),
            pending_ds_body: Seq::new(
                self.pending_ds_body@.len(),
                |i: int| opt_bytes_view(self.pending_ds_body@[i]),
            ),
        }
    }
}

impl Session {
    /// A session bound to `phase`, wrapping the real downstream request.
    pub fn build(phase: Phase, ds_req: RequestHeader) -> (s: Session)
        ensures
            s@ == fresh_session_view(phase, req_view(ds_req)),
    {
        let s = Session {
            phase,
            ds_req,
            upstream_req: None,
            upstream_res: None,
            ds_hbuf: HeaderBuffer::new(),
            us_hbuf: HeaderBuffer::new(),
            ds_status_code: StagedStatus::new(200),
            keepalive_disabled: false,
            written_ds_header: None,
            written_ds_body: Vec::new(),
            pending_ds_body: Vec::new(),
        };
        proof {
            assert(s@ =~~= fresh_session_view(phase, req_view(ds_req)));
        }
        s
    }

    /// The phase this session is bound to.
    pub fn phase(&self) -> (p: Phase)
        ensures
            p == self@.phase,
    {
        self.phase
    }

    /// Attach the real upstream request.
    pub fn upstream_request(&mut self, upstream_request: RequestHeader)
        ensures
            final(self)@ == (SessionView {
                us_req: Some(req_view(upstream_request)),
                ..old(self)@
            }),
    {
        self.upstream_req = Some(upstream_request);
        proof {
            assert(self@ =~~= (SessionView {
                us_req: Some(req_view(upstream_request)),
                ..old(self)@
            }));
        }
    }

    /// Attach the real upstream response.
    pub fn upstream_response(&mut self, upstream_response: ResponseHeader)
        ensures
            final(self)@ == (SessionView {
                us_res: Some(resp_view(upstream_response)),
                ..old(self)@
            }),
    {
        self.upstream_res = Some(upstream_response);
        proof {
            assert(self@ =~~= (SessionView {
                us_res: Some(resp_view(upstream_response)),
                ..old(self)@
            }));
        }
    }

    /// Hand the upstream request back to the driver.
    pub fn take_upstream_request(&mut self) -> (r: Option<RequestHeader>)
        ensures
            final(self)@ == (SessionView { us_req: None, ..old(self)@ }),
            match r {
                Some(h) => old(self)@.us_req == Some(req_view(h)),
                None => old(self)@.us_req is None,
            },
    {
        let mut slot: Option<RequestHeader> = None;
        core::mem::swap(&mut slot, &mut self.upstream_req);
        proof {
            assert(self@ =~~= (SessionView { us_req: None, ..old(self)@ }));
        }
        slot
    }

    /// Hand the upstream response back to the driver.
    pub fn take_upstream_response(&mut self) -> (r: Option<ResponseHeader>)
        ensures
            final(self)@ == (SessionView { us_res: None, ..old(self)@ }),
            match r {
                Some(h) => old(self)@.us_res == Some(resp_view(h)),
                None => old(self)@.us_res is None,
            },
    {
        let mut slot: Option<ResponseHeader> = None;
        core::mem::swap(&mut slot, &mut self.upstream_res);
        proof {
            assert(self@ =~~= (SessionView { us_res: None, ..old(self)@ }));
        }
        slot
    }

    /// Hand the committed downstream response header to the driver.
    pub fn take_written_ds_header(&mut self) -> (r: Option<ResponseHeader>)
        ensures
            final(self)@ == (SessionView { written_ds_header: None, ..old(self)@ }),
            match r {
                Some(h) => old(self)@.written_ds_header == Some(resp_view(h)),
                None => old(self)@.written_ds_header is None,
            },
    {
        let mut slot: Option<ResponseHeader> = None;
        core::mem::swap(&mut slot, &mut self.written_ds_header);
        proof {
            assert(self@ =~~= (SessionView { written_ds_header: None, ..old(self)@ }));
        }
        slot
    }

    /// The downstream request method.
    pub fn ds_req_method(&self) -> (r: GatewayResult<&str>)
        ensures
            r matches Ok(m) && m@ == self@.ds_req.method,
    {
        Ok(req_method_str(&self.ds_req))
    }

    /// The upstream request method; fails when the upstream request is
    /// not attached.
    pub fn us_req_method(&self) -> (r: GatewayResult<&str>)
        ensures
            match self@.us_req {
                Some(u) => r matches Ok(m) && m@ == u.method,
                None => r matches Err(e) && e == (GatewayError::UpstreamRequestUnavailable {
                    phase: self@.phase,
                }),
            },
    {
        match &self.upstream_req {
            Some(h) => Ok(req_method_str(h)),
            None => Err(
                GatewayError::UpstreamRequestUnavailable { phase: self.phase },
            ),
        }
    }

    /// The downstream request path.
    pub fn ds_req_path(&self) -> (r: &str)
        ensures
            r@ == self@.ds_req.path,
    {
        req_path_str(&self.ds_req)
    }

    /// The downstream request query, if any.
    pub fn ds_req_query(&self) -> (r: GatewayResult<Option<&str>>)
        ensures
            r matches Ok(q) && (match q {
                Some(qs) => self@.ds_req.query == Some(qs@),
                None => self@.ds_req.query is None,
            }),
    {
        Ok(req_query_str(&self.ds_req))
    }

    /// The upstream request query, if any; fails when the upstream
    /// request is not attached.
    pub fn us_req_query(&self) -> (r: GatewayResult<Option<&str>>)
        ensures
            match self@.us_req {
                Some(u) => r matches Ok(q) && (match q {
                    Some(qs) => u.query == Some(qs@),
                    None => u.query is None,
                }),
                None => r matches Err(e) && e == (GatewayError::UpstreamRequestUnavailable {
                    phase: self@.phase,
                }),
            },
    {
        match &self.upstream_req {
            Some(h) => Ok(req_query_str(h)),
            None => Err(
                GatewayError::UpstreamRequestUnavailable { phase: self.phase },
            ),
        }
    }

    /// The downstream request path joined with its query.
    pub fn ds_req_path_and_query(&self) -> (r: String)
        ensures
            r@ == path_and_query_spec(self@.ds_req),
    {
        let mut out: String = req_path_str(&self.ds_req).to_owned();
        match req_query_str(&self.ds_req) {
            Some(q) => {
                out.append("?");
                out.append(q);
            },
            None => {},
        }
        out
    }

    /// The upstream request path joined with its query; fails when the
    /// upstream request is not attached.
    pub fn us_req_path_and_query(&self) -> (r: GatewayResult<String>)
        ensures
            match self@.us_req {
                Some(u) => r matches Ok(pq) && pq@ == path_and_query_spec(u),
                None => r matches Err(e) && e == (GatewayError::UpstreamRequestUnavailable {
                    phase: self@.phase,
                }),
            },
    {
        match &self.upstream_req {
            Some(h) => {
                let mut out: String = req_path_str(h).to_owned();
                match req_query_str(h) {
                    Some(q) => {
                        out.append("?");
                        out.append(q);
                    },
                    None => {},
                }
                Ok(out)
            },
            None => Err(
                GatewayError::UpstreamRequestUnavailable { phase: self.phase },
            ),
        }
    }

    /// The first downstream request header stored under `header_name`.
    pub fn ds_req_header(&self, header_name: &str) -> (r: GatewayResult<Option<&[u8]>>)
        ensures
            r matches Ok(v) && (match v {
                Some(b) => self@.ds_req.headers.contains_key(header_key(header_name@))
                    && b@ == self@.ds_req.headers[header_key(header_name@)],
                None => !self@.ds_req.headers.contains_key(header_key(header_name@)),
            }),
    {
        Ok(req_header_bytes(&self.ds_req, header_name))
    }

    /// The first upstream request header stored under `header_name`;
    /// fails when the upstream request is not attached.
    pub fn us_req_header(&self, header_name: &str) -> (r: GatewayResult<Option<&[u8]>>)
        ensures
            match self@.us_req {
                Some(u) => r matches Ok(v) && (match v {
                    Some(b) => u.headers.contains_key(header_key(header_name@))
                        && b@ == u.headers[header_key(header_name@)],
                    None => !u.headers.contains_key(header_key(header_name@)),
                }),
                None => r matches Err(e) && e == (GatewayError::UpstreamRequestUnavailable {
                    phase: self@.phase,
                }),
            },
    {
        match &self.upstream_req {
            Some(h) => Ok(req_header_bytes(h, header_name)),
            None => Err(
                GatewayError::UpstreamRequestUnavailable { phase: self.phase },
            ),
        }
    }

    /// Stage a header for the upstream request.
    pub fn set_us_header(&mut self, header_name: String, header_value: Vec<u8>)
        ensures
            final(self)@ == (SessionView {
                us_hbuf: hbuf_insert_spec(old(self)@.us_hbuf, header_name@, header_value@),
                ..old(self)@
            }),
    {
        self.us_hbuf.insert(header_name, header_value);
        proof {
            assert(self@ =~~= (SessionView {
                us_hbuf: hbuf_insert_spec(old(self)@.us_hbuf, header_name@, header_value@),
                ..old(self)@
            }));
        }
    }

    /// Stage a header for the downstream response.
    pub fn set_ds_header(&mut self, header_name: String, header_value: Vec<u8>)
        ensures
            final(self)@ == (SessionView {
                ds_hbuf: hbuf_insert_spec(old(self)@.ds_hbuf, header_name@, header_value@),
                ..old(self)@
            }),
    {
        self.ds_hbuf.insert(header_name, header_value);
        proof {
            assert(self@ =~~= (SessionView {
                ds_hbuf: hbuf_insert_spec(old(self)@.ds_hbuf, header_name@, header_value@),
                ..old(self)@
            }));
        }
    }

    /// Stage the downstream response status.  Status codes must lie in
    /// the range the response header type accepts.
    pub fn set_res_status(&mut self, status_code: u16)
        requires
            100 <= status_code <= 999,
        ensures
            final(self)@ == (SessionView { ds_status: status_code, ..old(self)@ }),
    {
        self.ds_status_code = StagedStatus::new(status_code);
        proof {
            assert(self@ =~~= (SessionView { ds_status: status_code, ..old(self)@ }));
        }
    }

    /// The staged downstream response status.
    pub fn res_status(&self) -> (r: u16)
        ensures
            r == self@.ds_status,
    {
        self.ds_status_code.get()
    }

    /// Whether keep-alive has been disabled on this session.
    pub fn is_keepalive_disabled(&self) -> (r: bool)
        ensures
            r == self@.keepalive_disabled,
    {
        self.keepalive_disabled
    }

    /// The headers currently staged for the downstream response.
    pub fn ds_header_buffer(&self) -> (b: &HeaderBuffer)
        ensures
            b@ == self@.ds_hbuf,
    {
        &self.ds_hbuf
    }

    /// The headers currently staged for the upstream request.
    pub fn us_header_buffer(&self) -> (b: &HeaderBuffer)
        ensures
            b@ == self@.us_hbuf,
    {
        &self.us_hbuf
    }

    /// Hand a downstream response body chunk to the transport.
    pub fn write_ds_res_body(&mut self, body: Option<Vec<u8>>, end_of_stream: bool) -> (r:
        GatewayResult<()>)
        ensures
            r is Ok,
            final(self)@ == (SessionView {
                written_ds_body: old(self)@.written_ds_body.push(
                    (opt_bytes_view(body), end_of_stream),
                ),
                ..old(self)@
            }),
    {
        let ghost b_view = opt_bytes_view(body);
        self.written_ds_body.push((body, end_of_stream));
        proof {
            assert(self@ =~~= (SessionView {
                written_ds_body: old(self)@.written_ds_body.push((b_view, end_of_stream)),
                ..old(self)@
            }));
        }
        Ok(())
    }

    /// The next downstream request body chunk the driver made
    /// available, or nothing when none is queued.
    pub fn read_ds_req_body(&mut self) -> (r: GatewayResult<Option<Vec<u8>>>)
        ensures
            old(self)@.pending_ds_body.len() == 0 ==> (r matches Ok(b) && b is None && final(
                self)@ == old(self)@),
            old(self)@.pending_ds_body.len() > 0 ==> (r matches Ok(b) && opt_bytes_view(b) == old(
                self)@.pending_ds_body[0] && final(self)@ == (SessionView {
                pending_ds_body: old(self)@.pending_ds_body.skip(1),
                ..old(self)@
            })),
    {
        if self.pending_ds_body.len() == 0 {
            proof {
                assert(self@ =~~= old(self)@);
            }
            Ok(None)
        } else {
            let chunk = self.pending_ds_body.remove(0);
            proof {
                assert(self@ =~~= (SessionView {
                    pending_ds_body: old(self)@.pending_ds_body.skip(1),
                    ..old(self)@
                }));
            }
            Ok(chunk)
        }
    }

    /// Hand the body chunks written so far to the driver, in order.
    pub fn take_written_ds_body(&mut self) -> (r: Vec<(Option<Vec<u8>>, bool)>)
        ensures
            final(self)@ == (SessionView { written_ds_body: Seq::empty(), ..old(self)@ }),
            r@.len() == old(self)@.written_ds_body.len(),
            forall|i: int|
                0 <= i < r@.len() ==> (opt_bytes_view((#[trigger] r@[i]).0), r@[i].1) == old(
                    self,
                )@.written_ds_body[i],
    {
        let mut out: Vec<(Option<Vec<u8>>, bool)> = Vec::new();
        core::mem::swap(&mut out, &mut self.written_ds_body);
        proof {
            assert(self@ =~~= (SessionView { written_ds_body: Seq::empty(), ..old(self)@ }));
        }
        out
    }

    /// Queue a downstream request body chunk for the session to read;
    /// called by the driver that owns the real transport.
    pub fn provide_ds_req_body(&mut self, chunk: Option<Vec<u8>>)
        ensures
            final(self)@ == (SessionView {
                pending_ds_body: old(self)@.pending_ds_body.push(opt_bytes_view(chunk)),
                ..old(self)@
            }),
    {
        let ghost c_view = opt_bytes_view(chunk);
        self.pending_ds_body.push(chunk);
        proof {
            assert(self@ =~~= (SessionView {
                pending_ds_body: old(self)@.pending_ds_body.push(c_view),
                ..old(self)@
            }));
        }
    }
}

/// The path of a request joined with its query, as it appears on the
/// request line.
pub open spec fn path_and_query_spec(rv: ReqView) -> Seq<char> {
    match rv.query {
        Some(q) => rv.path + "?"@ + q,
        None => rv.path,
    }
}

/// What running the phase pipeline over `list` does to session state
/// `s`: interceptors are visited in list order; one whose phase mask
/// excludes the current phase, or whose filter declines, is skipped; a
/// filter error aborts; otherwise the handler for the current phase
/// runs, and the first handler that returns `true` short-circuits the
/// rest.
pub open spec fn run_phase_spec<I: Interceptor>(list: Seq<I>, s: SessionView) -> (
    SessionView,
    PhaseResult,
)
    decreases list.len(),
{
    if list.len() == 0 {
        (s, Ok(false))
    } else {
        let head = list[0];
        if !is_phase_enabled_spec(head.phase_mask_spec(), s.phase) {
            run_phase_spec(list.skip(1), s)
        } else {
            match head.filter_spec(s) {
                Err(e) => (s, Err(e)),
                Ok(false) => run_phase_spec(list.skip(1), s),
                Ok(true) => {
                    let out = head.phase_handler_spec(s.phase, s);
                    match out.1 {
                        Err(e) => (out.0, Err(e)),
                        Ok(true) => (out.0, Ok(true)),
                        Ok(false) => run_phase_spec(list.skip(1), out.0),
                    }
                },
            }
        }
    }
}

/// What running the hook pipeline over `list` does to session state
/// `s`: the identical algorithm to the phase pipeline, keyed on hook
/// enablement; the first hook handler that returns `true`
/// short-circuits the rest, and a filter or handler error aborts.
pub open spec fn run_hook_spec<I: Interceptor>(list: Seq<I>, hook: Hook, s: SessionView) -> (
    SessionView,
    PhaseResult,
)
    decreases list.len(),
{
    if list.len() == 0 {
        (s, Ok(false))
    } else {
        let head = list[0];
        if !is_hook_enabled_spec(head.hook_mask_spec(), hook) {
            run_hook_spec(list.skip(1), hook, s)
        } else {
            match head.filter_spec(s) {
                Err(e) => (s, Err(e)),
                Ok(false) => run_hook_spec(list.skip(1), hook, s),
                Ok(true) => {
                    let out = head.hook_handler_spec(hook, s);
                    match out.1 {
                        Err(e) => (out.0, Err(e)),
                        Ok(true) => (out.0, Ok(true)),
                        Ok(false) => run_hook_spec(list.skip(1), hook, out.0),
                    }
                },
            }
        }
    }
}

/// Positions shifted up by one, for relating a tail pipeline's trace
/// to the whole list's.
pub open spec fn shift_positions(t: Seq<int>) -> Seq<int> {
    t.map_values(|x: int| x + 1)
}

/// The positions, in visiting order, of the interceptors whose phase
/// handler the pipeline invokes, starting from session state `s`.
pub open spec fn run_phase_trace<I: Interceptor>(list: Seq<I>, s: SessionView) -> Seq<int>
    decreases list.len(),
{
    if list.len() == 0 {
        Seq::empty()
    } else {
        let head = list[0];
        if !is_phase_enabled_spec(head.phase_mask_spec(), s.phase) {
            shift_positions(run_phase_trace(list.skip(1), s))
        } else {
            match head.filter_spec(s) {
                Err(e) => Seq::empty(),
                Ok(false) => shift_positions(run_phase_trace(list.skip(1), s)),
                Ok(true) => {
                    let out = head.phase_handler_spec(s.phase, s);
                    match out.1 {
                        Err(e) => seq![0],
                        Ok(true) => seq![0],
                        Ok(false) => seq![0] + shift_positions(
                            run_phase_trace(list.skip(1), out.0),
                        ),
                    }
                },
            }
        }
    }
}

/// The pipeline's handler accounting: every invoked position lies in
/// the list and the positions are strictly increasing, so each
/// interceptor's handler is invoked at most once, and invocations
/// happen in list order.
pub proof fn lemma_run_phase_trace_in_order<I: Interceptor>(list: Seq<I>, s: SessionView)
    ensures
        forall|a: int|
            0 <= a < run_phase_trace(list, s).len() ==> 0 <= #[trigger] run_phase_trace(
                list,
                s,
            )[a] < list.len(),
        forall|a: int, b: int|
            0 <= a < b < run_phase_trace(list, s).len() ==> run_phase_trace(list, s)[a]
                < run_phase_trace(list, s)[b],
    decreases list.len(),
{
    if list.len() == 0 {
    } else {
        let head = list[0];
        let t = run_phase_trace(list, s);
        if !is_phase_enabled_spec(head.phase_mask_spec(), s.phase) {
            lemma_run_phase_trace_in_order(list.skip(1), s);
            let u = run_phase_trace(list.skip(1), s);
            assert(forall|k: int| 0 <= k < u.len() ==> t[k] == #[trigger] u[k] + 1);
        } else {
            match head.filter_spec(s) {
                Err(e) => {},
                Ok(false) => {
                    lemma_run_phase_trace_in_order(list.skip(1), s);
                    let u = run_phase_trace(list.skip(1), s);
                    assert(forall|k: int| 0 <= k < u.len() ==> t[k] == #[trigger] u[k] + 1);
                },
                Ok(true) => {
                    let out = head.phase_handler_spec(s.phase, s);
                    match out.1 {
                        Err(e) => {},
                        Ok(true) => {},
                        Ok(false) => {
                            lemma_run_phase_trace_in_order(list.skip(1), out.0);
                            let u = run_phase_trace(list.skip(1), out.0);
                            assert(t[0] == 0);
                            assert(forall|k: int|
                                0 <= k < u.len() ==> t[k + 1] == #[trigger] u[k] + 1);
                        },
                    }
                },
            }
        }
    }
}

impl Session {
    /// Run the phase pipeline for this session's phase over the shared
    /// interceptor list.
    pub fn execute_interceptors_phase<I: Interceptor>(&mut self, interceptors: &[I]) -> (r:
        PhaseResult)
        ensures
            run_phase_spec(interceptors@, old(self)@) == (final(self)@, r),
    {
        proof {
            assert(interceptors@.skip(0) =~= interceptors@);
        }
        let n = interceptors.len();
        let mut idx: usize = 0;
        while idx < n
            invariant
                n == interceptors@.len(),
                idx <= n,
                run_phase_spec(interceptors@, old(self)@) == run_phase_spec(
                    interceptors@.skip(idx as int),
                    self@,
                ),
            decreases n - idx,
        {
            let ghost s_pre = self@;
            let ghost rest = interceptors@.skip(idx as int);
            proof {
                assert(rest[0] == interceptors@[idx as int]);
                assert(rest.skip(1) =~= interceptors@.skip(idx as int + 1));
            }
            let ic = &interceptors[idx];
            let m = ic.phase_mask();
            let enabled = is_phase_enabled(m, &self.phase);
            if enabled {
                let matched = match ic.filter(self) {
                    Ok(b) => b,
                    Err(e) => {
                        proof {
                            assert(run_phase_spec(rest, s_pre) == (
                                s_pre,
                                Err::<bool, GatewayError>(e),
                            ));
                        }
                        return Err(e);
                    },
                };
                if matched {
                    let hr = match self.phase {
                        Phase::RequestFilter => ic.request_filter(self),
                        Phase::UpstreamProxyFilter => ic.upstream_proxy_filter(self),
                        Phase::PreUpstreamRequest => ic.pre_upstream_request(self),
                        Phase::PostUpstreamResponse => ic.post_upstream_response(self),
                        Phase::PreDownstreamResponse => ic.pre_downstream_response(self),
                    };
                    proof {
                        assert(ic.phase_handler_spec(s_pre.phase, s_pre) == (self@, hr));
                    }
                    match hr {
                        Err(e) => {
                            proof {
                                assert(run_phase_spec(rest, s_pre) == (
                                    self@,
                                    Err::<bool, GatewayError>(e),
                                ));
                            }
                            return Err(e);
                        },
                        Ok(true) => {
                            proof {
                                assert(run_phase_spec(rest, s_pre) == (
                                    self@,
                                    Ok::<bool, GatewayError>(true),
                                ));
                            }
                            return Ok(true);
                        },
                        Ok(false) => {
                            proof {
                                assert(run_phase_spec(rest, s_pre) == run_phase_spec(
                                    rest.skip(1),
                                    self@,
                                ));
                            }
                        },
                    }
                } else {
                    proof {
                        assert(run_phase_spec(rest, s_pre) == run_phase_spec(
                            rest.skip(1),
                            s_pre,
                        ));
                    }
                }
            } else {
                proof {
                    assert(run_phase_spec(rest, s_pre) == run_phase_spec(rest.skip(1), s_pre));
                }
            }
            idx += 1;
        }
        proof {
            assert(interceptors@.skip(n as int) =~= Seq::<I>::empty());
        }
        Ok(false)
    }

    /// Run the hook pipeline for `hook` over the shared interceptor
    /// list.  `Ok(true)` means a hook handler short-circuited the
    /// remainder.
    pub fn execute_interceptors_hook<I: Interceptor>(&mut self, hook: Hook, interceptors: &[I])
        -> (r: PhaseResult)
        ensures
            run_hook_spec(interceptors@, hook, old(self)@) == (final(self)@, r),
            final(self)@.phase == old(self)@.phase,
    {
        proof {
            assert(interceptors@.skip(0) =~= interceptors@);
        }
        let n = interceptors.len();
        let mut idx: usize = 0;
        while idx < n
            invariant
                n == interceptors@.len(),
                idx <= n,
                run_hook_spec(interceptors@, hook, old(self)@) == run_hook_spec(
                    interceptors@.skip(idx as int),
                    hook,
                    self@,
                ),
                self@.phase == old(self)@.phase,
            decreases n - idx,
        {
            let ghost s_pre = self@;
            let ghost rest = interceptors@.skip(idx as int);
            proof {
                assert(rest[0] == interceptors@[idx as int]);
                assert(rest.skip(1) =~= interceptors@.skip(idx as int + 1));
            }
            let ic = &interceptors[idx];
            let m = ic.hook_mask();
            let enabled = is_hook_enabled(m, &hook);
            if enabled {
                let matched = match ic.filter(self) {
                    Ok(b) => b,
                    Err(e) => {
                        proof {
                            assert(run_hook_spec(rest, hook, s_pre) == (
                                s_pre,
                                Err::<bool, GatewayError>(e),
                            ));
                        }
                        return Err(e);
                    },
                };
                if matched {
                    let hr = match hook {
                        Hook::PreDownstreamResponseHeaderFlush => ic
                            .pre_downstream_response_hook(self),
                    };
                    proof {
                        assert(ic.hook_handler_spec(hook, s_pre) == (self@, hr));
                    }
                    match hr {
                        Err(e) => {
                            proof {
                                assert(run_hook_spec(rest, hook, s_pre) == (
                                    self@,
                                    Err::<bool, GatewayError>(e),
                                ));
                            }
                            return Err(e);
                        },
                        Ok(true) => {
                            proof {
                                assert(run_hook_spec(rest, hook, s_pre) == (
                                    self@,
                                    Ok::<bool, GatewayError>(true),
                                ));
                            }
                            return Ok(true);
                        },
                        Ok(false) => {
                            proof {
                                assert(run_hook_spec(rest, hook, s_pre) == run_hook_spec(
                                    rest.skip(1),
                                    hook,
                                    self@,
                                ));
                            }
                        },
                    }
                } else {
                    proof {
                        assert(run_hook_spec(rest, hook, s_pre) == run_hook_spec(
                            rest.skip(1),
                            hook,
                            s_pre,
                        ));
                    }
                }
            } else {
                proof {
                    assert(run_hook_spec(rest, hook, s_pre) == run_hook_spec(
                        rest.skip(1),
                        hook,
                        s_pre,
                    ));
                }
            }
            idx += 1;
        }
        proof {
            assert(interceptors@.skip(n as int) =~= Seq::<I>::empty());
        }
        Ok(false)
    }
}

/// Whether the header types accept this staged entry.
pub open spec fn entry_ok(e: HeaderEntry) -> bool {
    header_name_ok(e.0) && header_value_ok(e.1)
}

/// Whether the header types accept every staged entry.
pub open spec fn entries_ok(s: Seq<HeaderEntry>) -> bool {
    forall|i: int| 0 <= i < s.len() ==> entry_ok(#[trigger] s[i])
}

/// The index of the first staged entry the header types reject, or the
/// length when all are accepted.
pub open spec fn first_bad_entry(s: Seq<HeaderEntry>) -> int
    decreases s.len(),
{
    if s.len() == 0 {
        0
    } else if entry_ok(s[0]) {
        1 + first_bad_entry(s.skip(1))
    } else {
        0
    }
}

/// The header map after inserting the staged entries in order, each
/// under its normalized name.
pub open spec fn insert_entries_spec(
    m: Map<Seq<char>, Seq<u8>>,
    s: Seq<HeaderEntry>,
) -> Map<Seq<char>, Seq<u8>>
    decreases s.len(),
{
    if s.len() == 0 {
        m
    } else {
        insert_entries_spec(m.insert(header_key(s[0].0), s[0].1), s.skip(1))
    }
}

/// Folding one more entry at the end is one more insertion.
pub proof fn lemma_insert_entries_snoc(
    m: Map<Seq<char>, Seq<u8>>,
    s: Seq<HeaderEntry>,
    e: HeaderEntry,
)
    ensures
        insert_entries_spec(m, s.push(e)) == insert_entries_spec(m, s).insert(
            header_key(e.0),
            e.1,
        ),
    decreases s.len(),
{
    if s.len() == 0 {
        reveal_with_fuel(insert_entries_spec, 2);
        assert(s.push(e).skip(1) =~= Seq::<HeaderEntry>::empty());
        assert(s.push(e)[0] == e);
    } else {
        assert(s.push(e)[0] == s[0]);
        assert(s.push(e).skip(1) =~= s.skip(1).push(e));
        lemma_insert_entries_snoc(m.insert(header_key(s[0].0), s[0].1), s.skip(1), e);
    }
}

/// When everything before `i` is accepted and `i` is rejected, `i` is
/// the first rejected index.
pub proof fn lemma_first_bad_at(s: Seq<HeaderEntry>, i: int)
    requires
        0 <= i < s.len(),
        forall|k: int| 0 <= k < i ==> entry_ok(#[trigger] s[k]),
        !entry_ok(s[i]),
    ensures
        first_bad_entry(s) == i,
    decreases s.len(),
{
    if entry_ok(s[0]) {
        assert(i > 0);
        assert(forall|k: int| 0 <= k < i - 1 ==> entry_ok(#[trigger] s.skip(1)[k]));
        lemma_first_bad_at(s.skip(1), i - 1);
    } else {
        assert(i == 0);
    }
}

/// When every entry is accepted, the first rejected index is the
/// length.
pub proof fn lemma_entries_ok_first_bad(s: Seq<HeaderEntry>)
    requires
        entries_ok(s),
    ensures
        first_bad_entry(s) == s.len(),
    decreases s.len(),
{
    if s.len() > 0 {
        assert(entry_ok(s[0]));
        assert(forall|k: int| 0 <= k < s.skip(1).len() ==> entry_ok(#[trigger] s.skip(1)[k]));
        lemma_entries_ok_first_bad(s.skip(1));
    }
}

/// Every staged name reaches the folded map.
pub proof fn lemma_insert_entries_covers(m: Map<Seq<char>, Seq<u8>>, s: Seq<HeaderEntry>, k: int)
    requires
        0 <= k < s.len(),
    ensures
        insert_entries_spec(m, s).contains_key(header_key(s[k].0)),
    decreases s.len(),
{
    let last = s[s.len() - 1];
    let butlast = s.take(s.len() - 1);
    assert(s =~= butlast.push(last));
    lemma_insert_entries_snoc(m, butlast, last);
    if k < s.len() - 1 {
        lemma_insert_entries_covers(m, butlast, k);
        assert(butlast[k] == s[k]);
    }
}

/// A staged entry that no later entry shadows determines the folded
/// map's value at its normalized name.
pub proof fn lemma_insert_entries_lookup(
    m: Map<Seq<char>, Seq<u8>>,
    s: Seq<HeaderEntry>,
    k: int,
)
    requires
        0 <= k < s.len(),
        forall|j: int| k < j < s.len() ==> header_key((#[trigger] s[j]).0) != header_key(s[k].0),
    ensures
        insert_entries_spec(m, s).contains_key(header_key(s[k].0)),
        insert_entries_spec(m, s)[header_key(s[k].0)] == s[k].1,
    decreases s.len(),
{
    let last = s[s.len() - 1];
    let butlast = s.take(s.len() - 1);
    assert(s =~= butlast.push(last));
    lemma_insert_entries_snoc(m, butlast, last);
    if k == s.len() - 1 {
    } else {
        assert(header_key(last.0) != header_key(s[k].0));
        assert(forall|j: int| k < j < butlast.len()
            ==> header_key((#[trigger] butlast[j]).0) != header_key(butlast[k].0));
        lemma_insert_entries_lookup(m, butlast, k);
        assert(butlast[k] == s[k]);
    }
}

/// What committing the staged headers as a fresh downstream response
/// does: on success the staging buffer is emptied and a new response
/// object, carrying the staged status and every staged entry, is
/// handed to the transport; a rejected entry aborts the commit with
/// the buffer emptied and nothing written.  A buffer larger than the
/// header object's name capacity is refused up front, before anything
/// is touched.
pub open spec fn commit_ds_spec(v: SessionView) -> (SessionView, GatewayResult<()>) {
    if v.ds_hbuf.len() > HEADER_NAME_CAPACITY as int {
        (v, Err(GatewayError::HeaderCapacityExceeded))
    } else if entries_ok(v.ds_hbuf) {
        (
            (SessionView {
                ds_hbuf: Seq::empty(),
                written_ds_header: Some(RespView {
                    status: v.ds_status,
                    headers: insert_entries_spec(empty_headers(), v.ds_hbuf),
                }),
                ..v
            }),
            Ok(()),
        )
    } else {
        ((SessionView { ds_hbuf: Seq::empty(), ..v }), Err(GatewayError::InvalidHeader))
    }
}

/// What merging the staged headers into the existing upstream response
/// does: entries are inserted in order into the real upstream response
/// object up to the first rejected one; no new downstream response
/// object is created.  Fails when the upstream response is not
/// attached, or when the object's names plus the staged entries would
/// pass the object's name capacity; both failures leave the session
/// untouched.
pub open spec fn commit_us_spec(v: SessionView) -> (SessionView, GatewayResult<()>) {
    match v.us_res {
        None => (v, Err(GatewayError::UpstreamResponseUnavailable { phase: v.phase })),
        Some(rv) => if header_name_count(rv.headers) < 0 || header_name_count(rv.headers)
            + v.ds_hbuf.len() > HEADER_NAME_CAPACITY as int {
            (v, Err(GatewayError::HeaderCapacityExceeded))
        } else {
            (
            (SessionView {
                ds_hbuf: Seq::empty(),
                us_res: Some(RespView {
                    status: rv.status,
                    headers: insert_entries_spec(
                        rv.headers,
                        v.ds_hbuf.take(first_bad_entry(v.ds_hbuf)),
                    ),
                }),
                ..v
            }),
            if entries_ok(v.ds_hbuf) {
                Ok(())
            } else {
                Err(GatewayError::InvalidHeader)
            },
            )
        },
    }
}

/// What flushing downstream headers does: keep-alive is disabled, the
/// pre-flush hook pipeline runs (a hook short-circuit stops only the
/// remaining hooks; the commit still follows), and then the staged
/// headers are committed in the way the bound phase demands: as a fresh downstream
/// response in `RequestFilter`, `UpstreamProxyFilter` and
/// `PreDownstreamResponse`; as a merge into the existing upstream
/// response in `PostUpstreamResponse`; and not at all in
/// `PreUpstreamRequest`, where flushing is an error.
pub open spec fn flush_spec<I: Interceptor>(list: Seq<I>, v: SessionView) -> (
    SessionView,
    GatewayResult<()>,
) {
    let hooked = run_hook_spec(
        list,
        Hook::PreDownstreamResponseHeaderFlush,
        SessionView { keepalive_disabled: true, ..v },
    );
    match hooked.1 {
        Err(e) => (hooked.0, Err(e)),
        Ok(_) => match v.phase {
            Phase::RequestFilter | Phase::UpstreamProxyFilter | Phase::PreDownstreamResponse =>
                commit_ds_spec(hooked.0),
            Phase::PreUpstreamRequest => (
                hooked.0,
                Err(GatewayError::InvalidDownstreamFlush { phase: Phase::PreUpstreamRequest }),
            ),
            Phase::PostUpstreamResponse => commit_us_spec(hooked.0),
        },
    }
}

impl Session {
    /// Build a fresh downstream response from the staged status and
    /// buffer and hand it to the transport.
    fn flush_header_in_ds(&mut self) -> (r: GatewayResult<()>)
        ensures
            commit_ds_spec(old(self)@) == (final(self)@, r),
    {
        let ghost v0 = old(self)@;
        if self.ds_hbuf.len() > HEADER_NAME_CAPACITY {
            return Err(GatewayError::HeaderCapacityExceeded);
        }
        let status = self.ds_status_code.get();
        let mut header = resp_build(status);
        let staged = self.ds_hbuf.drain();
        let entries = staged.into_entries();
        proof {
            assert(self@ =~~= (SessionView { ds_hbuf: Seq::empty(), ..v0 }));
        }
        let ghost ev = v0.ds_hbuf;
        let n = entries.len();
        let mut i: usize = 0;
        while i < n
            invariant
                v0 == old(self)@,
                ev == v0.ds_hbuf,
                n == entries@.len(),
                n == ev.len(),
                n <= HEADER_NAME_CAPACITY,
                forall|k: int|
                    0 <= k < n ==> ((#[trigger] entries@[k]).0@, entries@[k].1@) == ev[k],
                i <= n,
                forall|k: int| 0 <= k < i ==> entry_ok(#[trigger] ev[k]),
                resp_status(header) == v0.ds_status,
                resp_headers(header) == insert_entries_spec(empty_headers(), ev.take(i as int)),
                resp_headers(header).dom().finite(),
                resp_headers(header).dom().len() <= i,
                self@ == (SessionView { ds_hbuf: Seq::empty(), ..v0 }),
            decreases n - i,
        {
            let ghost dom_pre = resp_headers(header).dom();
            match resp_insert_header(&mut header, entries[i].0.as_str(), entries[i].1.as_slice()) {
                Ok(_) => {
                    proof {
                        broadcast use vstd::set::group_set_axioms;

                        assert(ev.take(i as int + 1) =~= ev.take(i as int).push(ev[i as int]));
                        lemma_insert_entries_snoc(empty_headers(), ev.take(i as int), ev[i as int]);
                        assert(resp_headers(header).dom() == dom_pre.insert(
                            header_key(ev[i as int].0),
                        ));
                    }
                    i += 1;
                },
                Err(e) => {
                    proof {
                        assert(!entry_ok(ev[i as int]));
                        assert(!entries_ok(ev));
                    }
                    return Err(e);
                },
            }
        }
        proof {
            assert(ev.take(n as int) =~= ev);
            assert(entries_ok(ev));
        }
        self.written_ds_header = Some(header);
        proof {
            assert(self@ =~~= commit_ds_spec(v0).0);
        }
        Ok(())
    }

    /// Merge the staged buffer into the already-present upstream
    /// response header object.
    fn flush_header_in_us_res(&mut self) -> (r: GatewayResult<()>)
        ensures
            commit_us_spec(old(self)@) == (final(self)@, r),
    {
        let ghost v0 = old(self)@;
        let mut slot: Option<ResponseHeader> = None;
        core::mem::swap(&mut slot, &mut self.upstream_res);
        let mut header = match slot {
            None => {
                proof {
                    assert(self@ =~~= v0);
                }
                return Err(GatewayError::UpstreamResponseUnavailable { phase: self.phase });
            },
            Some(h) => h,
        };
        let ghost rv = v0.us_res->Some_0;
        let existing = resp_header_name_count(&header);
        let staged_len = self.ds_hbuf.len();
        if staged_len > HEADER_NAME_CAPACITY || existing > HEADER_NAME_CAPACITY - staged_len {
            self.upstream_res = Some(header);
            proof {
                assert(self@ =~~= v0);
            }
            return Err(GatewayError::HeaderCapacityExceeded);
        }
        let staged = self.ds_hbuf.drain();
        let entries = staged.into_entries();
        proof {
            assert(self@ =~~= (SessionView { ds_hbuf: Seq::empty(), us_res: None, ..v0 }));
        }
        let ghost ev = v0.ds_hbuf;
        let n = entries.len();
        let mut i: usize = 0;
        while i < n
            invariant
                v0 == old(self)@,
                ev == v0.ds_hbuf,
                v0.us_res == Some(rv),
                n == entries@.len(),
                n == ev.len(),
                rv.headers.dom().finite(),
                rv.headers.dom().len() + n <= HEADER_NAME_CAPACITY,
                forall|k: int|
                    0 <= k < n ==> ((#[trigger] entries@[k]).0@, entries@[k].1@) == ev[k],
                i <= n,
                forall|k: int| 0 <= k < i ==> entry_ok(#[trigger] ev[k]),
                resp_status(header) == rv.status,
                resp_headers(header) == insert_entries_spec(rv.headers, ev.take(i as int)),
                resp_headers(header).dom().finite(),
                resp_headers(header).dom().len() <= rv.headers.dom().len() + i,
                self@ == (SessionView { ds_hbuf: Seq::empty(), us_res: None, ..v0 }),
            decreases n - i,
        {
            let ghost dom_pre = resp_headers(header).dom();
            match resp_insert_header(&mut header, entries[i].0.as_str(), entries[i].1.as_slice()) {
                Ok(_) => {
                    proof {
                        broadcast use vstd::set::group_set_axioms;

                        assert(ev.take(i as int + 1) =~= ev.take(i as int).push(ev[i as int]));
                        lemma_insert_entries_snoc(rv.headers, ev.take(i as int), ev[i as int]);
                        assert(resp_headers(header).dom() == dom_pre.insert(
                            header_key(ev[i as int].0),
                        ));
                    }
                    i += 1;
                },
                Err(e) => {
                    proof {
                        assert(!entry_ok(ev[i as int]));
                        assert(!entries_ok(ev));
                        lemma_first_bad_at(ev, i as int);
                    }
                    self.upstream_res = Some(header);
                    proof {
                        assert(self@ =~~= commit_us_spec(v0).0);
                    }
                    return Err(e);
                },
            }
        }
        proof {
            assert(entries_ok(ev));
            lemma_entries_ok_first_bad(ev);
            assert(ev.take(n as int) =~= ev);
        }
        self.upstream_res = Some(header);
        proof {
            assert(self@ =~~= commit_us_spec(v0).0);
        }
        Ok(())
    }

    /// Flush the staged downstream headers.
    ///
    /// Keep-alive is disabled first, unconditionally: a workaround for
    /// a defect in the underlying transport, kept in this one place so
    /// it can be removed when the transport no longer needs it.  The
    /// pre-flush hook pipeline then runs, giving interceptors a last
    /// chance to stage headers, and the staged buffer is committed in
    /// the way the bound phase demands.
    pub fn flush_ds_header<I: Interceptor>(&mut self, interceptors: &[I]) -> (r: GatewayResult<
        (),
    >)
        ensures
            flush_spec(interceptors@, old(self)@) == (final(self)@, r),
    {
        let ghost v0 = old(self)@;
        self.keepalive_disabled = true;
        proof {
            assert(self@ =~~= (SessionView { keepalive_disabled: true, ..v0 }));
        }
        let ghost v1 = self@;
        match self.execute_interceptors_hook(Hook::PreDownstreamResponseHeaderFlush, interceptors) {
            Err(e) => {
                return Err(e);
            },
            Ok(_) => {},
        }
        proof {
            assert(self@.phase == v0.phase);
        }
        match self.phase {
            Phase::RequestFilter | Phase::UpstreamProxyFilter | Phase::PreDownstreamResponse => self
                .flush_header_in_ds(),
            Phase::PreUpstreamRequest => Err(
                GatewayError::InvalidDownstreamFlush { phase: Phase::PreUpstreamRequest },
            ),
            Phase::PostUpstreamResponse => self.flush_header_in_us_res(),
        }
    }
}

/// Flushing downstream headers during `PreUpstreamRequest` fails, for
/// any session state and any interceptor list: there is no downstream
/// response to write to at that point.
pub proof fn lemma_flush_fails_in_pre_upstream_request<I: Interceptor>(
    list: Seq<I>,
    v: SessionView,
)
    requires
        v.phase == Phase::PreUpstreamRequest,
    ensures
        flush_spec(list, v).1 is Err,
{
    let hooked = run_hook_spec(
        list,
        Hook::PreDownstreamResponseHeaderFlush,
        SessionView { keepalive_disabled: true, ..v },
    );
    match hooked.1 {
        Err(e) => {},
        Ok(_) => {},
    }
}

/// Committing staged headers during `PostUpstreamResponse` never
/// creates a new downstream response object: it only adds or
/// overwrites entries on the existing upstream response header object,
/// in staging order.
pub proof fn lemma_commit_upstream_no_new_response(v: SessionView)
    ensures
        commit_us_spec(v).0.written_ds_header == v.written_ds_header,
        commit_us_spec(v).1 is Ok ==> (v.us_res matches Some(rv)
            && commit_us_spec(v).0.us_res == Some(RespView {
            status: rv.status,
            headers: insert_entries_spec(rv.headers, v.ds_hbuf),
        })),
{
    match v.us_res {
        None => {},
        Some(rv) => {
            if entries_ok(v.ds_hbuf) {
                lemma_entries_ok_first_bad(v.ds_hbuf);
                assert(v.ds_hbuf.take(v.ds_hbuf.len() as int) =~= v.ds_hbuf);
            }
        },
    }
}

/// Flushing during `PostUpstreamResponse` creates no downstream
/// response beyond what the hook pipeline itself staged: the commit
/// step leaves the transport's written header exactly as the hook
/// pipeline left it.
pub proof fn lemma_flush_post_upstream_no_new_response<I: Interceptor>(
    list: Seq<I>,
    v: SessionView,
)
    requires
        v.phase == Phase::PostUpstreamResponse,
    ensures
        flush_spec(list, v).0.written_ds_header == run_hook_spec(
            list,
            Hook::PreDownstreamResponseHeaderFlush,
            SessionView { keepalive_disabled: true, ..v },
        ).0.written_ds_header,
{
    let hooked = run_hook_spec(
        list,
        Hook::PreDownstreamResponseHeaderFlush,
        SessionView { keepalive_disabled: true, ..v },
    );
    match hooked.1 {
        Err(e) => {},
        Ok(_) => {
            lemma_commit_upstream_no_new_response(hooked.0);
        },
    }
}

/// After a successful downstream commit the staging buffer is empty
/// and the fresh response object carries the staged status and, for
/// every staged entry, its normalized name; an entry that no later
/// entry shadows determines the value under its name.
pub proof fn lemma_commit_ds_delivers(v: SessionView, k: int)
    requires
        commit_ds_spec(v).1 is Ok,
        0 <= k < v.ds_hbuf.len(),
    ensures
        commit_ds_spec(v).0.ds_hbuf.len() == 0,
        commit_ds_spec(v).0.written_ds_header matches Some(rv) && rv.status == v.ds_status
            && rv.headers.contains_key(header_key(v.ds_hbuf[k].0)),
        (forall|j: int|
            k < j < v.ds_hbuf.len() ==> header_key((#[trigger] v.ds_hbuf[j]).0) != header_key(
                v.ds_hbuf[k].0,
            )) ==> commit_ds_spec(v).0.written_ds_header->Some_0.headers[header_key(
            v.ds_hbuf[k].0,
        )] == v.ds_hbuf[k].1,
{
    lemma_insert_entries_covers(empty_headers(), v.ds_hbuf, k);
    if forall|j: int|
        k < j < v.ds_hbuf.len() ==> header_key((#[trigger] v.ds_hbuf[j]).0) != header_key(
            v.ds_hbuf[k].0,
        ) {
        lemma_insert_entries_lookup(empty_headers(), v.ds_hbuf, k);
    }
}

} // verus!
