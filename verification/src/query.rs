//! The minimal query form the gateway core consumes.
//!
//! Richer query languages live outside the core; what the core needs
//! of a query is an ordered key/value mapping it can iterate and look
//! bytes up in, and a conjunction of exact-match conditions it can
//! evaluate against the downstream request when the query is used as
//! an interceptor filter.  Condition keys: `path` and `method` match
//! the corresponding request attribute byte for byte, and
//! `header.<name>` matches the request header stored under `<name>`;
//! any other key is a filter evaluation error.

use vstd::prelude::*;
use vstd::utf8::encode_utf8;

use crate::error::GatewayError;
use crate::error::GatewayResult;
use crate::ext_headers::header_key;
use crate::headers::hbuf_get_spec;
use crate::headers::hbuf_insert_spec;
use crate::headers::HeaderBuffer;
use crate::headers::HeaderEntry;
use crate::session::ReqView;
use crate::session::Session;
use crate::strutil::bytes_eq;
use crate::strutil::is_str_prefix;
use crate::strutil::str_eq;
use crate::strutil::strip_str_prefix;

verus! {

/// An ordered key/value record: the opaque payload attached to an
/// interceptor entry, either as its filter or as its free-form
/// configuration.  Keys are unique; the staging buffer already is an
/// insertion-ordered unique-key mapping, so it carries the pairs.
#[derive(Debug)]
pub struct Query {
    pairs: HeaderBuffer,
}

impl View for Query {
    type V = Seq<HeaderEntry>;

    closed spec fn view(&self) -> Seq<HeaderEntry> {
        self.pairs@
    }
}

impl Query {
    /// An empty query.
    pub fn new() -> (q: Query)
        ensures
            q@ == Seq::<HeaderEntry>::empty(),
    {
        Query { pairs: HeaderBuffer::new() }
    }

    /// Add `key -> value`; an existing key keeps its position and
    /// takes the new value.
    pub fn insert(&mut self, key: String, value: Vec<u8>)
        ensures
            final(self)@ == hbuf_insert_spec(old(self)@, key@, value@),
    {
        self.pairs.insert(key, value);
    }

    /// The bytes stored under `key`, if any.
    pub fn get(&self, key: &str) -> (r: Option<&Vec<u8>>)
        ensures
            match r {
                Some(v) => hbuf_get_spec(self@, key@) == Some(v@),
                None => hbuf_get_spec(self@, key@) is None,
            },
    {
        self.pairs.get(key)
    }

    /// How many pairs the query holds.
    pub fn len(&self) -> (n: usize)
        ensures
            n == self@.len(),
    {
        self.pairs.len()
    }

    /// The pair at position `i`, in insertion order.
    pub fn pair(&self, i: usize) -> (e: &(String, Vec<u8>))
        requires
            i < self@.len(),
        ensures
            (e.0@, e.1@) == self@[i as int],
    {
        self.pairs.entry(i)
    }
}

/// What one condition decides against a request: `path` and `method`
/// compare byte for byte, `header.<name>` compares the header stored
/// under `<name>`, and any other key is an evaluation error.
pub open spec fn condition_spec(key: Seq<char>, value: Seq<u8>, rv: ReqView) -> GatewayResult<
    bool,
> {
    if key == "path"@ {
        Ok(encode_utf8(rv.path) == value)
    } else if key == "method"@ {
        Ok(encode_utf8(rv.method) == value)
    } else if is_str_prefix(key, "header."@) {
        let name = key.subrange("header."@.len() as int, key.len() as int);
        Ok(rv.headers.contains_key(header_key(name)) && rv.headers[header_key(name)] == value)
    } else {
        Err(GatewayError::UnknownFilterKey)
    }
}

/// What a whole query decides against a request: the conjunction of
/// its conditions, evaluated in order; the first failing condition
/// decides, and the first erroneous one aborts.  The empty query
/// matches.
pub open spec fn query_matches_spec(q: Seq<HeaderEntry>, rv: ReqView) -> GatewayResult<bool>
    decreases q.len(),
{
    if q.len() == 0 {
        Ok(true)
    } else {
        match condition_spec(q[0].0, q[0].1, rv) {
            Err(e) => Err(e),
            Ok(false) => Ok(false),
            Ok(true) => query_matches_spec(q.skip(1), rv),
        }
    }
}

/// Evaluate one condition against the session's downstream request.
fn evaluate_condition(key: &String, value: &Vec<u8>, session: &Session) -> (r: GatewayResult<
    bool,
>)
    ensures
        r == condition_spec(key@, value@, session@.ds_req),
{
    if str_eq(key.as_str(), "path") {
        let path = session.ds_req_path();
        Ok(bytes_eq(path.as_bytes(), value.as_slice()))
    } else if str_eq(key.as_str(), "method") {
        let method = match session.ds_req_method() {
            Ok(m) => m,
            Err(e) => {
                return Err(e);
            },
        };
        Ok(bytes_eq(method.as_bytes(), value.as_slice()))
    } else {
        match strip_str_prefix(key.as_str(), "header.") {
            Some(name) => {
                proof {
                    assert(key@.subrange("header."@.len() as int, key@.len() as int) =~= key@.skip(
                        "header."@.len() as int,
                    ));
                }
                match session.ds_req_header(name.as_str()) {
                    Ok(Some(b)) => Ok(bytes_eq(b, value.as_slice())),
                    Ok(None) => Ok(false),
                    Err(e) => Err(e),
                }
            },
            None => Err(GatewayError::UnknownFilterKey),
        }
    }
}

/// Whether the query matches the session's downstream request.
pub fn query_matches(q: &Query, session: &Session) -> (r: GatewayResult<bool>)
    ensures
        r == query_matches_spec(q@, session@.ds_req),
{
    proof {
        assert(q@.skip(0) =~= q@);
    }
    let n = q.len();
    let mut i: usize = 0;
    while i < n
        invariant
            n == q@.len(),
            i <= n,
            query_matches_spec(q@, session@.ds_req) == query_matches_spec(
                q@.skip(i as int),
                session@.ds_req,
            ),
        decreases n - i,
    {
        let ghost rest = q@.skip(i as int);
        proof {
            assert(rest[0] == q@[i as int]);
            assert(rest.skip(1) =~= q@.skip(i as int + 1));
        }
        let pair = q.pair(i);
        match evaluate_condition(&pair.0, &pair.1, session) {
            Err(e) => {
                return Err(e);
            },
            Ok(false) => {
                return Ok(false);
            },
            Ok(true) => {},
        }
        i += 1;
    }
    proof {
        assert(q@.skip(n as int) =~= Seq::<HeaderEntry>::empty());
    }
    Ok(true)
}

} // verus!
