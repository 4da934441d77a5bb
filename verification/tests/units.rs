use dakia::config::InterceptorConfig;
use dakia::error::GatewayError;
use dakia::headers::HeaderBuffer;
use dakia::hook::is_hook_enabled;
use dakia::hook::Hook;
use dakia::interceptor_name::InterceptorName;
use dakia::phase::is_phase_enabled;
use dakia::phase::Phase;
use dakia::proxy::HostDecision;
use dakia::proxy::PatternRegistry;
use dakia::proxy::Proxy;
use dakia::query::Query;
use dakia::rewrite::extract_headers;
use dakia::rewrite::RewriteParts;
use dakia::router::InetAddress;
use dakia::config::GatewayConfig;
use dakia::router::Downstream;

#[test]
fn phase_masks_are_distinct_bits() {
    assert_eq!(Phase::RequestFilter.mask(), 0x01);
    assert_eq!(Phase::UpstreamProxyFilter.mask(), 0x02);
    assert_eq!(Phase::PreUpstreamRequest.mask(), 0x04);
    assert_eq!(Phase::PostUpstreamResponse.mask(), 0x08);
    assert_eq!(Phase::PreDownstreamResponse.mask(), 0x10);
}

#[test]
fn all_phase_mask_enables_every_phase() {
    let m = Phase::all_phase_mask();
    assert_eq!(m, 0x1f);
    for p in [
        Phase::RequestFilter,
        Phase::UpstreamProxyFilter,
        Phase::PreUpstreamRequest,
        Phase::PostUpstreamResponse,
        Phase::PreDownstreamResponse,
    ] {
        assert!(is_phase_enabled(m, &p));
    }
}

#[test]
fn empty_mask_enables_no_phase() {
    for p in [
        Phase::RequestFilter,
        Phase::UpstreamProxyFilter,
        Phase::PreUpstreamRequest,
        Phase::PostUpstreamResponse,
        Phase::PreDownstreamResponse,
    ] {
        assert!(!is_phase_enabled(0, &p));
    }
}

#[test]
fn phase_enablement_checks_single_bit() {
    let m = Phase::RequestFilter.mask() | Phase::PostUpstreamResponse.mask();
    assert!(is_phase_enabled(m, &Phase::RequestFilter));
    assert!(!is_phase_enabled(m, &Phase::UpstreamProxyFilter));
    assert!(is_phase_enabled(m, &Phase::PostUpstreamResponse));
    assert!(!is_phase_enabled(m, &Phase::PreDownstreamResponse));
}

#[test]
fn hook_mask_enablement() {
    assert_eq!(Hook::PreDownstreamResponseHeaderFlush.mask(), 0x01);
    assert_eq!(Hook::all_hook_mask(), 0x01);
    assert!(is_hook_enabled(0x01, &Hook::PreDownstreamResponseHeaderFlush));
    assert!(!is_hook_enabled(0x00, &Hook::PreDownstreamResponseHeaderFlush));
}

#[test]
fn phase_and_interceptor_names() {
    assert_eq!(Phase::RequestFilter.as_str(), "request_filter");
    assert_eq!(Phase::UpstreamProxyFilter.as_str(), "upstream_proxy_filter");
    assert_eq!(Phase::PreUpstreamRequest.as_str(), "pre_upstream_request");
    assert_eq!(Phase::PostUpstreamResponse.as_str(), "post_upstream_response");
    assert_eq!(Phase::PreDownstreamResponse.as_str(), "pre_downstream_response");
    assert_eq!(InterceptorName::ServerVersion.as_str(), "server_version");
    assert_eq!(InterceptorName::UseFile.as_str(), "use_file");
}

#[test]
fn header_buffer_keeps_most_recent_value() {
    let mut buf = HeaderBuffer::new();
    buf.insert("x-a".to_string(), b"one".to_vec());
    buf.insert("x-a".to_string(), b"two".to_vec());
    assert_eq!(buf.len(), 1);
    assert_eq!(buf.get("x-a").unwrap().as_slice(), b"two");
}

#[test]
fn header_buffer_keeps_insertion_order() {
    let mut buf = HeaderBuffer::new();
    buf.insert("x-a".to_string(), b"1".to_vec());
    buf.insert("x-b".to_string(), b"2".to_vec());
    buf.insert("x-a".to_string(), b"3".to_vec());
    assert_eq!(buf.len(), 2);
    assert_eq!(buf.entry(0).0.as_str(), "x-a");
    assert_eq!(buf.entry(0).1.as_slice(), b"3");
    assert_eq!(buf.entry(1).0.as_str(), "x-b");
    assert!(buf.get("x-c").is_none());
}

#[test]
fn header_buffer_drain_empties() {
    let mut buf = HeaderBuffer::new();
    buf.insert("x-a".to_string(), b"1".to_vec());
    let drained = buf.drain();
    assert!(buf.is_empty());
    assert_eq!(drained.len(), 1);
}

#[test]
fn extract_headers_strips_prefixes() {
    let mut q = Query::new();
    q.insert("header.x-a".to_string(), b"1".to_vec());
    q.insert("req.header.x-b".to_string(), b"2".to_vec());
    q.insert("us.req.header.x-c".to_string(), b"3".to_vec());
    q.insert("path".to_string(), b"/p".to_vec());
    let buf = extract_headers(&q).unwrap();
    assert_eq!(buf.len(), 3);
    assert_eq!(buf.get("x-a").unwrap().as_slice(), b"1");
    assert_eq!(buf.get("x-b").unwrap().as_slice(), b"2");
    assert_eq!(buf.get("x-c").unwrap().as_slice(), b"3");
    assert!(buf.get("path").is_none());
}

#[test]
fn extract_headers_last_write_wins_across_prefixes() {
    let mut q = Query::new();
    q.insert("header.x-a".to_string(), b"1".to_vec());
    q.insert("req.header.x-a".to_string(), b"2".to_vec());
    let buf = extract_headers(&q).unwrap();
    assert_eq!(buf.len(), 1);
    assert_eq!(buf.get("x-a").unwrap().as_slice(), b"2");
}

#[test]
fn rewrite_parts_requires_payload() {
    let config = InterceptorConfig {
        name: InterceptorName::ServerVersion,
        enabled: true,
        phase_mask: 0x01,
        hook_mask: None,
        filter: None,
        config: None,
    };
    let err = RewriteParts::build(&config).unwrap_err();
    assert_eq!(
        err,
        GatewayError::MissingInterceptorConfig { interceptor: InterceptorName::ServerVersion }
    );
    assert!(!err.message().is_empty());
}

#[test]
fn rewrite_parts_picks_up_path_and_headers() {
    let mut payload = Query::new();
    payload.insert("path".to_string(), b"/new".to_vec());
    payload.insert("header.x-a".to_string(), b"1".to_vec());
    let config = InterceptorConfig {
        name: InterceptorName::ServerVersion,
        enabled: true,
        phase_mask: 0x01,
        hook_mask: None,
        filter: None,
        config: Some(payload),
    };
    let parts = RewriteParts::build(&config).unwrap();
    assert_eq!(parts.path.as_deref(), Some(b"/new".as_slice()));
    assert_eq!(parts.header_buffer.get("x-a").unwrap().as_slice(), b"1");
}

#[test]
fn inet_address_formats_host_and_port() {
    let addr = InetAddress { host: "localhost".to_string(), port: 8080 };
    assert_eq!(addr.get_formatted_address(), "localhost:8080");
    let addr2 = InetAddress { host: "0.0.0.0".to_string(), port: 7 };
    assert_eq!(addr2.get_formatted_address(), "0.0.0.0:7");
}

#[test]
fn pattern_registry_matches_exact_hosts() {
    let reg = PatternRegistry::build(vec!["example.com".to_string(), "other.io".to_string()]);
    assert!(reg.is_allowed(b"example.com"));
    assert!(reg.is_allowed(b"other.io"));
    assert!(!reg.is_allowed(b"evil.com"));
    assert!(!reg.is_allowed(b"example.co"));
}

#[test]
fn proxy_host_decision() {
    let config = GatewayConfig {
        name: "gw".to_string(),
        bind_addresses: vec![],
        downstreams: vec![Downstream { host: "example.com".to_string() }],
        interceptors: vec![],
    };
    let proxy = Proxy::build(&config).unwrap();
    assert_eq!(proxy.name(), "gw");
    assert!(proxy.is_valid_ds_host(b"example.com"));
    assert!(!proxy.is_valid_ds_host(b"nope.com"));
    let missing = proxy.request_filter_decision(None);
    assert_eq!(missing, HostDecision::MissingHost);
    assert_eq!(missing.response_status(), Some(400));
    let forbidden = proxy.request_filter_decision(Some(&b"nope.com".to_vec()));
    assert_eq!(forbidden, HostDecision::Forbidden);
    assert_eq!(forbidden.response_status(), Some(403));
    let allowed = proxy.request_filter_decision(Some(&b"example.com".to_vec()));
    assert_eq!(allowed, HostDecision::Allowed);
    assert_eq!(allowed.response_status(), None);
}
