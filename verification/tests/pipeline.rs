use std::cell::Cell;

use pingora_http::RequestHeader;
use pingora_http::ResponseHeader;

use dakia::config::InterceptorConfig;
use dakia::error::GatewayError;
use dakia::hook::Hook;
use dakia::interceptor::Interceptor;
use dakia::interceptor_name::InterceptorName;
use dakia::interceptors::build_interceptor;
use dakia::interceptors::build_interceptors;
use dakia::interceptors::BuiltInterceptor;
use dakia::phase::Phase;
use dakia::query::query_matches;
use dakia::query::Query;
use dakia::session::Session;

/// A configurable interceptor for driving the executor from tests,
/// with call counters.
struct ProbeInterceptor {
    phase_mask: u8,
    hook_mask: u8,
    matches: bool,
    short_circuit: bool,
    hook_short_circuit: bool,
    header: Option<(String, Vec<u8>)>,
    filter_calls: Cell<u32>,
    handler_calls: Cell<u32>,
    hook_calls: Cell<u32>,
}

impl ProbeInterceptor {
    fn new(phase_mask: u8, matches: bool, short_circuit: bool) -> Self {
        ProbeInterceptor {
            phase_mask,
            hook_mask: 0,
            matches,
            short_circuit,
            hook_short_circuit: false,
            header: None,
            filter_calls: Cell::new(0),
            handler_calls: Cell::new(0),
            hook_calls: Cell::new(0),
        }
    }

    fn handle(&self, session: &mut Session) -> Result<bool, GatewayError> {
        self.handler_calls.set(self.handler_calls.get() + 1);
        if let Some((name, value)) = &self.header {
            session.set_ds_header(name.clone(), value.clone());
        }
        Ok(self.short_circuit)
    }
}

impl Interceptor for ProbeInterceptor {
    fn phase_mask(&self) -> u8 {
        self.phase_mask
    }

    fn hook_mask(&self) -> u8 {
        self.hook_mask
    }

    fn filter(&self, _session: &Session) -> Result<bool, GatewayError> {
        self.filter_calls.set(self.filter_calls.get() + 1);
        Ok(self.matches)
    }

    fn request_filter(&self, session: &mut Session) -> Result<bool, GatewayError> {
        self.handle(session)
    }

    fn upstream_proxy_filter(&self, session: &mut Session) -> Result<bool, GatewayError> {
        self.handle(session)
    }

    fn pre_upstream_request(&self, session: &mut Session) -> Result<bool, GatewayError> {
        self.handle(session)
    }

    fn post_upstream_response(&self, session: &mut Session) -> Result<bool, GatewayError> {
        self.handle(session)
    }

    fn pre_downstream_response(&self, session: &mut Session) -> Result<bool, GatewayError> {
        self.handle(session)
    }

    fn pre_downstream_response_hook(&self, session: &mut Session) -> Result<bool, GatewayError> {
        self.hook_calls.set(self.hook_calls.get() + 1);
        if let Some((name, value)) = &self.header {
            session.set_ds_header(name.clone(), value.clone());
        }
        Ok(self.hook_short_circuit)
    }
}

fn request(method: &str, target: &[u8]) -> RequestHeader {
    RequestHeader::build(method, target, None).unwrap()
}

#[test]
fn session_reads_downstream_request() {
    let mut req = request("GET", b"/a/b?x=1");
    req.insert_header("host", "example.com").unwrap();
    let session = Session::build(Phase::RequestFilter, req);
    assert_eq!(session.ds_req_method().unwrap(), "GET");
    assert_eq!(session.ds_req_path(), "/a/b");
    assert_eq!(session.ds_req_query().unwrap(), Some("x=1"));
    assert_eq!(session.ds_req_path_and_query(), "/a/b?x=1");
    assert_eq!(
        session.ds_req_header("host").unwrap(),
        Some(b"example.com".as_slice())
    );
    assert_eq!(session.ds_req_header("Host").unwrap(), Some(b"example.com".as_slice()));
    assert_eq!(session.ds_req_header("missing").unwrap(), None);
}

#[test]
fn session_without_query_joins_path_only() {
    let session = Session::build(Phase::RequestFilter, request("POST", b"/only"));
    assert_eq!(session.ds_req_query().unwrap(), None);
    assert_eq!(session.ds_req_path_and_query(), "/only");
}

#[test]
fn upstream_accessors_fail_before_attachment() {
    let session = Session::build(Phase::RequestFilter, request("GET", b"/"));
    assert_eq!(
        session.us_req_method().unwrap_err(),
        GatewayError::UpstreamRequestUnavailable { phase: Phase::RequestFilter }
    );
    assert!(session.us_req_query().is_err());
    assert!(session.us_req_path_and_query().is_err());
    assert_eq!(
        session.us_req_header("host").unwrap_err(),
        GatewayError::UpstreamRequestUnavailable { phase: Phase::RequestFilter }
    );
}

#[test]
fn upstream_accessors_work_after_attachment() {
    let mut session = Session::build(Phase::PreUpstreamRequest, request("GET", b"/"));
    let mut us = request("PUT", b"/up?q=2");
    us.insert_header("x-up", "yes").unwrap();
    session.upstream_request(us);
    assert_eq!(session.us_req_method().unwrap(), "PUT");
    assert_eq!(session.us_req_query().unwrap(), Some("q=2"));
    assert_eq!(session.us_req_path_and_query().unwrap(), "/up?q=2");
    assert_eq!(session.us_req_header("x-up").unwrap(), Some(b"yes".as_slice()));
    let back = session.take_upstream_request().unwrap();
    assert_eq!(back.method.as_str(), "PUT");
}

#[test]
fn body_model_round_trip() {
    let mut session = Session::build(Phase::RequestFilter, request("POST", b"/"));
    assert_eq!(session.read_ds_req_body().unwrap(), None);
    session.provide_ds_req_body(Some(b"abc".to_vec()));
    assert_eq!(session.read_ds_req_body().unwrap(), Some(b"abc".to_vec()));
    assert_eq!(session.read_ds_req_body().unwrap(), None);
    session.write_ds_res_body(Some(b"out".to_vec()), true).unwrap();
    let written = session.take_written_ds_body();
    assert_eq!(written, vec![(Some(b"out".to_vec()), true)]);
}

#[test]
fn scenario_single_interceptor_stages_header() {
    // One enabled interceptor on RequestFilter whose filter always
    // matches: after the phase pipeline and a flush, the real
    // downstream response carries the staged header and the pipeline
    // did not short-circuit.
    let mut ic = ProbeInterceptor::new(Phase::RequestFilter.mask(), true, false);
    ic.header = Some(("x-test".to_string(), b"1".to_vec()));
    let list = vec![ic];
    let mut session = Session::build(Phase::RequestFilter, request("GET", b"/"));
    let outcome = session.execute_interceptors_phase(&list).unwrap();
    assert!(!outcome);
    assert_eq!(list[0].handler_calls.get(), 1);
    assert!(!session.is_keepalive_disabled());
    session.flush_ds_header(&list).unwrap();
    assert!(session.is_keepalive_disabled());
    assert!(session.ds_header_buffer().is_empty());
    let written = session.take_written_ds_header().unwrap();
    assert_eq!(written.status.as_u16(), 200);
    assert_eq!(written.headers.get("x-test").unwrap().as_bytes(), b"1");
}

#[test]
fn scenario_filter_never_matches() {
    // The handler of a non-matching interceptor is never invoked.
    let mut ic = ProbeInterceptor::new(Phase::RequestFilter.mask(), false, false);
    ic.header = Some(("x-test".to_string(), b"1".to_vec()));
    let list = vec![ic];
    let mut session = Session::build(Phase::RequestFilter, request("GET", b"/"));
    let outcome = session.execute_interceptors_phase(&list).unwrap();
    assert!(!outcome);
    assert!(list[0].filter_calls.get() >= 1);
    assert_eq!(list[0].handler_calls.get(), 0);
    assert!(session.ds_header_buffer().is_empty());
}

#[test]
fn scenario_short_circuit_stops_pipeline() {
    // Two interceptors enabled for RequestFilter; the first returns
    // true, so the second handler never runs.
    let first = ProbeInterceptor::new(Phase::RequestFilter.mask(), true, true);
    let second = ProbeInterceptor::new(Phase::RequestFilter.mask(), true, false);
    let list = vec![first, second];
    let mut session = Session::build(Phase::RequestFilter, request("GET", b"/"));
    let outcome = session.execute_interceptors_phase(&list).unwrap();
    assert!(outcome);
    assert_eq!(list[0].handler_calls.get(), 1);
    assert_eq!(list[1].handler_calls.get(), 0);
    assert_eq!(list[1].filter_calls.get(), 0);
}

#[test]
fn phase_mask_excludes_interceptor() {
    let ic = ProbeInterceptor::new(Phase::PostUpstreamResponse.mask(), true, false);
    let list = vec![ic];
    let mut session = Session::build(Phase::RequestFilter, request("GET", b"/"));
    let outcome = session.execute_interceptors_phase(&list).unwrap();
    assert!(!outcome);
    assert_eq!(list[0].filter_calls.get(), 0);
    assert_eq!(list[0].handler_calls.get(), 0);
}

#[test]
fn flush_fails_in_pre_upstream_request() {
    // Flushing downstream headers during PreUpstreamRequest always
    // fails, whatever is staged.
    let list: Vec<ProbeInterceptor> = vec![];
    let mut session = Session::build(Phase::PreUpstreamRequest, request("GET", b"/"));
    session.set_ds_header("x-test".to_string(), b"1".to_vec());
    let err = session.flush_ds_header(&list).unwrap_err();
    assert_eq!(err, GatewayError::InvalidDownstreamFlush { phase: Phase::PreUpstreamRequest });
    assert!(session.take_written_ds_header().is_none());
}

#[test]
fn flush_in_post_upstream_response_merges_into_upstream() {
    // Flushing during PostUpstreamResponse creates no new response
    // object: the staged entries are merged into the existing
    // upstream response header object.
    let list: Vec<ProbeInterceptor> = vec![];
    let mut session = Session::build(Phase::PostUpstreamResponse, request("GET", b"/"));
    let mut us_res = ResponseHeader::build(502, None).unwrap();
    us_res.insert_header("x-old", "keep").unwrap();
    session.upstream_response(us_res);
    session.set_ds_header("x-new".to_string(), b"added".to_vec());
    session.flush_ds_header(&list).unwrap();
    assert!(session.take_written_ds_header().is_none());
    assert!(session.ds_header_buffer().is_empty());
    let merged = session.take_upstream_response().unwrap();
    assert_eq!(merged.status.as_u16(), 502);
    assert_eq!(merged.headers.get("x-old").unwrap().as_bytes(), b"keep");
    assert_eq!(merged.headers.get("x-new").unwrap().as_bytes(), b"added");
}

#[test]
fn flush_in_post_upstream_response_without_attachment_fails() {
    let list: Vec<ProbeInterceptor> = vec![];
    let mut session = Session::build(Phase::PostUpstreamResponse, request("GET", b"/"));
    let err = session.flush_ds_header(&list).unwrap_err();
    assert_eq!(
        err,
        GatewayError::UpstreamResponseUnavailable { phase: Phase::PostUpstreamResponse }
    );
}

#[test]
fn flush_rejects_invalid_header_name() {
    let list: Vec<ProbeInterceptor> = vec![];
    let mut session = Session::build(Phase::RequestFilter, request("GET", b"/"));
    session.set_ds_header("bad name\n".to_string(), b"1".to_vec());
    let err = session.flush_ds_header(&list).unwrap_err();
    assert_eq!(err, GatewayError::InvalidHeader);
    assert!(session.take_written_ds_header().is_none());
    assert!(session.ds_header_buffer().is_empty());
}

#[test]
fn flush_uses_staged_status() {
    let list: Vec<ProbeInterceptor> = vec![];
    let mut session = Session::build(Phase::PreDownstreamResponse, request("GET", b"/"));
    session.set_res_status(404);
    assert_eq!(session.res_status(), 404);
    session.flush_ds_header(&list).unwrap();
    let written = session.take_written_ds_header().unwrap();
    assert_eq!(written.status.as_u16(), 404);
}

#[test]
fn hook_pipeline_runs_before_flush() {
    // A hook subscriber gets a last chance to stage headers before
    // the commit.
    let mut ic = ProbeInterceptor::new(0, true, false);
    ic.hook_mask = Hook::PreDownstreamResponseHeaderFlush.mask();
    ic.header = Some(("x-hook".to_string(), b"late".to_vec()));
    let list = vec![ic];
    let mut session = Session::build(Phase::RequestFilter, request("GET", b"/"));
    session.flush_ds_header(&list).unwrap();
    assert_eq!(list[0].hook_calls.get(), 1);
    let written = session.take_written_ds_header().unwrap();
    assert_eq!(written.headers.get("x-hook").unwrap().as_bytes(), b"late");
}

#[test]
fn hook_disabled_interceptor_skipped() {
    let mut ic = ProbeInterceptor::new(0, true, false);
    ic.header = Some(("x-hook".to_string(), b"late".to_vec()));
    let list = vec![ic];
    let mut session = Session::build(Phase::RequestFilter, request("GET", b"/"));
    session.flush_ds_header(&list).unwrap();
    assert_eq!(list[0].hook_calls.get(), 0);
    let written = session.take_written_ds_header().unwrap();
    assert!(written.headers.get("x-hook").is_none());
}

#[test]
fn set_us_header_stages_only() {
    let mut session = Session::build(Phase::PreUpstreamRequest, request("GET", b"/"));
    session.set_us_header("x-up".to_string(), b"v".to_vec());
    assert_eq!(session.us_header_buffer().get("x-up").unwrap().as_slice(), b"v");
    assert!(session.ds_header_buffer().is_empty());
}

#[test]
fn server_version_interceptor_stages_server_header() {
    let config = InterceptorConfig {
        name: InterceptorName::ServerVersion,
        enabled: true,
        phase_mask: Phase::RequestFilter.mask(),
        hook_mask: None,
        filter: None,
        config: None,
    };
    let built = build_interceptor(config).unwrap();
    let list = vec![built];
    let mut session = Session::build(Phase::RequestFilter, request("GET", b"/"));
    let outcome = session.execute_interceptors_phase(&list).unwrap();
    assert!(!outcome);
    session.flush_ds_header(&list).unwrap();
    let written = session.take_written_ds_header().unwrap();
    assert_eq!(written.headers.get("server").unwrap().as_bytes(), b"dakia");
}

#[test]
fn server_version_filter_respects_query() {
    let mut filter = Query::new();
    filter.insert("path".to_string(), b"/match".to_vec());
    let config = InterceptorConfig {
        name: InterceptorName::ServerVersion,
        enabled: true,
        phase_mask: Phase::RequestFilter.mask(),
        hook_mask: None,
        filter: Some(filter),
        config: None,
    };
    let built = build_interceptor(config).unwrap();
    let list = vec![built];

    let mut hit = Session::build(Phase::RequestFilter, request("GET", b"/match"));
    hit.execute_interceptors_phase(&list).unwrap();
    assert_eq!(hit.ds_header_buffer().len(), 1);

    let mut miss = Session::build(Phase::RequestFilter, request("GET", b"/other"));
    miss.execute_interceptors_phase(&list).unwrap();
    assert!(miss.ds_header_buffer().is_empty());
}

#[test]
fn builder_idempotence_observable() {
    // Building the same entry twice yields instances with identical
    // declared masks and identical filter behavior on the same input.
    let entry = || InterceptorConfig {
        name: InterceptorName::ServerVersion,
        enabled: true,
        phase_mask: 0x0b,
        hook_mask: Some(0x01),
        filter: None,
        config: None,
    };
    let i1 = build_interceptor(entry()).unwrap();
    let i2 = build_interceptor(entry()).unwrap();
    assert_eq!(i1.phase_mask(), i2.phase_mask());
    assert_eq!(i1.phase_mask(), 0x0b);
    assert_eq!(i1.hook_mask(), i2.hook_mask());
    assert_eq!(i1.hook_mask(), 0x01);
    let session = Session::build(Phase::RequestFilter, request("GET", b"/"));
    assert_eq!(i1.filter(&session).unwrap(), i2.filter(&session).unwrap());
}

#[test]
fn registry_rejects_use_file() {
    let config = InterceptorConfig {
        name: InterceptorName::UseFile,
        enabled: true,
        phase_mask: 0x01,
        hook_mask: None,
        filter: None,
        config: None,
    };
    let err = build_interceptor(config).unwrap_err();
    assert_eq!(err, GatewayError::UnsupportedInterceptor { interceptor: InterceptorName::UseFile });
}

#[test]
fn build_interceptors_skips_disabled() {
    let enabled = InterceptorConfig {
        name: InterceptorName::ServerVersion,
        enabled: true,
        phase_mask: 0x01,
        hook_mask: None,
        filter: None,
        config: None,
    };
    let disabled = InterceptorConfig {
        name: InterceptorName::UseFile,
        enabled: false,
        phase_mask: 0x01,
        hook_mask: None,
        filter: None,
        config: None,
    };
    let list = build_interceptors(vec![disabled, enabled]).unwrap();
    assert_eq!(list.len(), 1);
    let BuiltInterceptor::ServerVersion(ref sv) = list[0];
    assert_eq!(sv.phase_mask, 0x01);
}

#[test]
fn query_matching_conditions() {
    let session = Session::build(Phase::RequestFilter, {
        let mut r = request("GET", b"/a?x=1");
        r.insert_header("x-k", "v").unwrap();
        r
    });

    let mut q_path = Query::new();
    q_path.insert("path".to_string(), b"/a".to_vec());
    assert!(query_matches(&q_path, &session).unwrap());

    let mut q_method = Query::new();
    q_method.insert("method".to_string(), b"POST".to_vec());
    assert!(!query_matches(&q_method, &session).unwrap());

    let mut q_header = Query::new();
    q_header.insert("header.x-k".to_string(), b"v".to_vec());
    assert!(query_matches(&q_header, &session).unwrap());

    let mut q_conj = Query::new();
    q_conj.insert("path".to_string(), b"/a".to_vec());
    q_conj.insert("header.x-k".to_string(), b"other".to_vec());
    assert!(!query_matches(&q_conj, &session).unwrap());

    let mut q_bad = Query::new();
    q_bad.insert("weird".to_string(), b"1".to_vec());
    assert_eq!(query_matches(&q_bad, &session).unwrap_err(), GatewayError::UnknownFilterKey);

    let q_empty = Query::new();
    assert!(query_matches(&q_empty, &session).unwrap());
}

#[test]
fn hook_short_circuit_stops_hook_pipeline() {
    // The hook pipeline uses the same algorithm as the phase pipeline:
    // the first hook handler returning true stops the rest, and the
    // flush still commits what was staged so far.
    let mut first = ProbeInterceptor::new(0, true, false);
    first.hook_mask = Hook::PreDownstreamResponseHeaderFlush.mask();
    first.hook_short_circuit = true;
    first.header = Some(("x-first".to_string(), b"1".to_vec()));
    let mut second = ProbeInterceptor::new(0, true, false);
    second.hook_mask = Hook::PreDownstreamResponseHeaderFlush.mask();
    second.header = Some(("x-second".to_string(), b"2".to_vec()));
    let list = vec![first, second];
    let mut session = Session::build(Phase::RequestFilter, request("GET", b"/"));
    session.flush_ds_header(&list).unwrap();
    assert_eq!(list[0].hook_calls.get(), 1);
    assert_eq!(list[1].hook_calls.get(), 0);
    assert_eq!(list[1].filter_calls.get(), 0);
    let written = session.take_written_ds_header().unwrap();
    assert_eq!(written.headers.get("x-first").unwrap().as_bytes(), b"1");
    assert!(written.headers.get("x-second").is_none());
}

#[test]
fn hook_executor_returns_short_circuit_signal() {
    let mut ic = ProbeInterceptor::new(0, true, false);
    ic.hook_mask = Hook::PreDownstreamResponseHeaderFlush.mask();
    ic.hook_short_circuit = true;
    let list = vec![ic];
    let mut session = Session::build(Phase::RequestFilter, request("GET", b"/"));
    let signal = session
        .execute_interceptors_hook(Hook::PreDownstreamResponseHeaderFlush, &list)
        .unwrap();
    assert!(signal);
    let quiet = ProbeInterceptor::new(0, true, false);
    let list2 = vec![quiet];
    let signal2 = session
        .execute_interceptors_hook(Hook::PreDownstreamResponseHeaderFlush, &list2)
        .unwrap();
    assert!(!signal2);
}

#[test]
fn flush_rejects_over_capacity_upstream_merge() {
    // An upstream response already carrying as many distinct names as
    // the commit bound allows leaves no room for staged entries.
    let list: Vec<ProbeInterceptor> = vec![];
    let mut session = Session::build(Phase::PostUpstreamResponse, request("GET", b"/"));
    let mut us_res = ResponseHeader::build(200, None).unwrap();
    for i in 0..0x1000 {
        us_res.insert_header(format!("x-n-{i}"), "v").unwrap();
    }
    session.upstream_response(us_res);
    session.set_ds_header("x-extra".to_string(), b"1".to_vec());
    let err = session.flush_ds_header(&list).unwrap_err();
    assert_eq!(err, GatewayError::HeaderCapacityExceeded);
    // Nothing was committed and the staged entry is still there.
    assert_eq!(session.ds_header_buffer().len(), 1);
    let merged = session.take_upstream_response().unwrap();
    assert!(merged.headers.get("x-extra").is_none());
}
