//! Precomputed state for the request-rewrite interceptor kind: the
//! target path and the headers to stage, pulled out of the entry's
//! configuration payload once at build time.

use vstd::prelude::*;

use crate::config::InterceptorConfig;
use crate::error::GatewayError;
use crate::error::GatewayResult;
use crate::headers::hbuf_get_spec;
use crate::headers::hbuf_insert_spec;
use crate::headers::HeaderBuffer;
use crate::headers::HeaderEntry;
use crate::query::Query;
use crate::strutil::clone_bytes;
use crate::strutil::is_str_prefix;
use crate::strutil::strip_str_prefix;

verus! {

/// The header name a payload key stands for, if it addresses a header:
/// `header.<n>`, `req.header.<n>` and `us.req.header.<n>` all stand
/// for `<n>`.
pub open spec fn rewrite_header_name(key: Seq<char>) -> Option<Seq<char>> {
    if is_str_prefix(key, "us.req.header."@) {
        Some(key.subrange("us.req.header."@.len() as int, key.len() as int))
    } else if is_str_prefix(key, "req.header."@) {
        Some(key.subrange("req.header."@.len() as int, key.len() as int))
    } else if is_str_prefix(key, "header."@) {
        Some(key.subrange("header."@.len() as int, key.len() as int))
    } else {
        None
    }
}

/// Folding the payload pairs into a header buffer: each pair whose key
/// addresses a header is staged under the addressed name, in payload
/// order; other pairs are ignored.
pub open spec fn extract_fold(acc: Seq<HeaderEntry>, q: Seq<HeaderEntry>) -> Seq<HeaderEntry>
    decreases q.len(),
{
    if q.len() == 0 {
        acc
    } else {
        let acc2 = match rewrite_header_name(q[0].0) {
            Some(name) => hbuf_insert_spec(acc, name, q[0].1),
            None => acc,
        };
        extract_fold(acc2, q.skip(1))
    }
}

/// The header buffer the payload describes.
pub open spec fn extract_headers_spec(q: Seq<HeaderEntry>) -> Seq<HeaderEntry> {
    extract_fold(Seq::empty(), q)
}

/// Collect the headers a rewrite payload wants staged.
pub fn extract_headers(rewrite_config: &Query) -> (r: GatewayResult<HeaderBuffer>)
    ensures
        r matches Ok(b) && b@ == extract_headers_spec(rewrite_config@),
{
    let mut header_buf = HeaderBuffer::new();
    proof {
        assert(rewrite_config@.skip(0) =~= rewrite_config@);
    }
    let n = rewrite_config.len();
    let mut i: usize = 0;
    while i < n
        invariant
            n == rewrite_config@.len(),
            i <= n,
            extract_headers_spec(rewrite_config@) == extract_fold(
                header_buf@,
                rewrite_config@.skip(i as int),
            ),
        decreases n - i,
    {
        let ghost rest = rewrite_config@.skip(i as int);
        proof {
            assert(rest[0] == rewrite_config@[i as int]);
            assert(rest.skip(1) =~= rewrite_config@.skip(i as int + 1));
        }
        let pair = rewrite_config.pair(i);
        let stripped = match strip_str_prefix(pair.0.as_str(), "us.req.header.") {
            Some(name) => Some(name),
            None => match strip_str_prefix(pair.0.as_str(), "req.header.") {
                Some(name) => Some(name),
                None => strip_str_prefix(pair.0.as_str(), "header."),
            },
        };
        match stripped {
            Some(name) => {
                proof {
                    assert(rewrite_header_name(rest[0].0) == Some(name@)) by {
                        assert(pair.0@.subrange(
                            "us.req.header."@.len() as int,
                            pair.0@.len() as int,
                        ) == pair.0@.skip("us.req.header."@.len() as int)) by {
                            assert(pair.0@.subrange(
                                "us.req.header."@.len() as int,
                                pair.0@.len() as int,
                            ) =~= pair.0@.skip("us.req.header."@.len() as int));
                        }
                        assert(pair.0@.subrange("req.header."@.len() as int, pair.0@.len() as int)
                            == pair.0@.skip("req.header."@.len() as int)) by {
                            assert(pair.0@.subrange(
                                "req.header."@.len() as int,
                                pair.0@.len() as int,
                            ) =~= pair.0@.skip("req.header."@.len() as int));
                        }
                        assert(pair.0@.subrange("header."@.len() as int, pair.0@.len() as int)
                            == pair.0@.skip("header."@.len() as int)) by {
                            assert(pair.0@.subrange("header."@.len() as int, pair.0@.len() as int)
                                =~= pair.0@.skip("header."@.len() as int));
                        }
                    }
                }
                header_buf.insert(name, clone_bytes(&pair.1));
            },
            None => {
                proof {
                    assert(rewrite_header_name(rest[0].0) is None);
                }
            },
        }
        i += 1;
    }
    proof {
        assert(rewrite_config@.skip(n as int) =~= Seq::<HeaderEntry>::empty());
    }
    Ok(header_buf)
}

/// The rewrite interceptor's precomputed parts.
#[derive(Debug)]
pub struct RewriteParts {
    /// The path to rewrite the upstream request to, if the payload
    /// names one.
    pub path: Option<Vec<u8>>,
    /// The headers to stage, keyed by their addressed names.
    pub header_buffer: HeaderBuffer,
}

impl RewriteParts {
    /// Pull the rewrite parts out of the entry's configuration
    /// payload; an entry without a payload is a configuration error
    /// naming the offending interceptor.
    pub fn build(interceptor_config: &InterceptorConfig) -> (r: GatewayResult<RewriteParts>)
        ensures
            match interceptor_config@.config {
                Some(qv) => r matches Ok(p) && p.header_buffer@ == extract_headers_spec(qv) && (
                match hbuf_get_spec(qv, "path"@) {
                    Some(v) => p.path matches Some(pv) && pv@ == v,
                    None => p.path is None,
                }),
                None => r matches Err(e) && e == (GatewayError::MissingInterceptorConfig {
                    interceptor: interceptor_config@.name,
                }),
            },
    {
        match &interceptor_config.config {
            Some(rewrite) => {
                let header_buffer = match extract_headers(rewrite) {
                    Ok(b) => b,
                    Err(e) => {
                        return Err(e);
                    },
                };
                let path = match rewrite.get("path") {
                    Some(v) => Some(clone_bytes(v)),
                    None => None,
                };
                Ok(RewriteParts { path, header_buffer })
            },
            None => Err(
                GatewayError::MissingInterceptorConfig { interceptor: interceptor_config.name },
            ),
        }
    }
}

} // verus!
