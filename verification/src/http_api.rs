//! Decision logic and exact response bodies of the HTTP surface.
//!
//! Two operations exist: a health check, answered from a probe
//! roundtrip to the publisher, and a snapshot lookup for a channel
//! about to be subscribed to, answered from a lookup roundtrip.  Every
//! business outcome is a status 200 with a JSON body; only roundtrip
//! failures and unrenderable documents surface as a bare 500.

use vstd::prelude::*;
use vstd::string::*;

use crate::channel::RoundtripError;
use crate::json::{append_json_string, render_data, spec_json_of_data, spec_json_string};
use crate::model::MongoDBData;
use crate::text::{spec_dec, spec_has_prefix, str_eq, str_strip_prefix, u64_dec};

verus! {

/// A business error of the subscribe endpoint, as the pub/sub proxy
/// protocol names them.
#[derive(Debug, Clone, Copy, PartialEq, Eq, Structural)]
pub enum CentrifugoProxyError {
    UnsupportedProtocol,
    UnsupportedEncoding,
    BadChannelNamespace,
    InternalError,
}

/// The numeric code of a proxy error.
pub open spec fn spec_proxy_error_code(e: CentrifugoProxyError) -> int {
    match e {
        CentrifugoProxyError::UnsupportedProtocol => 1000,
        CentrifugoProxyError::UnsupportedEncoding => 1001,
        CentrifugoProxyError::BadChannelNamespace => 1002,
        CentrifugoProxyError::InternalError => 1003,
    }
}

/// The fixed message of a proxy error.
pub open spec fn spec_proxy_error_message(e: CentrifugoProxyError) -> Seq<char> {
    match e {
        CentrifugoProxyError::UnsupportedProtocol => "unsupported protocol"@,
        CentrifugoProxyError::UnsupportedEncoding => "unsupported encoding"@,
        CentrifugoProxyError::BadChannelNamespace => "bad channel namespace"@,
        CentrifugoProxyError::InternalError => "internal error"@,
    }
}

/// The error body of the subscribe endpoint.
pub open spec fn spec_error_body(e: CentrifugoProxyError) -> Seq<char> {
    seq!['{', '"', 'e', 'r', 'r', 'o', 'r', '"', ':', '{', '"', 'c', 'o', 'd', 'e', '"', ':']
        + spec_dec(spec_proxy_error_code(e)) + seq![',', '"', 'm', 'e', 's', 's', 'a', 'g', 'e',
        '"', ':'] + spec_json_string(spec_proxy_error_message(e)) + seq!['}', '}']
}

/// The success body of the subscribe endpoint, around the JSON of the
/// document -- or of an empty object, never null, when there is none.
pub open spec fn spec_result_body(data_json: Seq<char>) -> Seq<char> {
    seq!['{', '"', 'r', 'e', 's', 'u', 'l', 't', '"', ':', '{', '"', 'd', 'a', 't', 'a', '"', ':']
        + data_json + seq!['}', '}']
}

impl CentrifugoProxyError {
    /// The numeric code carried in the error body.
    pub fn code(&self) -> (r: u16)
        ensures
            r as int == spec_proxy_error_code(*self),
    {
        match self {
            CentrifugoProxyError::UnsupportedProtocol => 1000,
            CentrifugoProxyError::UnsupportedEncoding => 1001,
            CentrifugoProxyError::BadChannelNamespace => 1002,
            CentrifugoProxyError::InternalError => 1003,
        }
    }

    /// The fixed message carried in the error body.
    pub fn message(&self) -> (r: &'static str)
        ensures
            r@ == spec_proxy_error_message(*self),
    {
        match self {
            CentrifugoProxyError::UnsupportedProtocol => "unsupported protocol",
            CentrifugoProxyError::UnsupportedEncoding => "unsupported encoding",
            CentrifugoProxyError::BadChannelNamespace => "bad channel namespace",
            CentrifugoProxyError::InternalError => "internal error",
        }
    }

    /// The exact JSON error body.
    pub fn to_json_body(&self) -> (r: String)
        ensures
            r@ == spec_error_body(*self),
    {
        let mut out = String::new();
        out.append("{\"error\":{\"code\":");
        let rendered_code = u64_dec(self.code() as u64);
        out.append(rendered_code.as_str());
        out.append(",\"message\":");
        append_json_string(&mut out, self.message());
        out.append("}}");
        proof {
            reveal_strlit("{\"error\":{\"code\":");
            reveal_strlit(",\"message\":");
            reveal_strlit("}}");
            assert(out@ =~= spec_error_body(*self));
        }
        out
    }
}

/// The body of a subscribe request, already decoded from JSON.
#[derive(Debug)]
pub struct SubscribeRequest {
    pub protocol: String,
    pub encoding: String,
    pub channel: String,
}

/// What the subscribe endpoint decides before any lookup is attempted.
#[derive(Debug)]
pub enum SubscribeStep {
    /// A client input error, answered without a lookup.
    Reject(CentrifugoProxyError),
    /// Look up this document id.
    Lookup(String),
}

/// Validates a subscribe request: the protocol and encoding must both
/// be `json`, and the requested channel must carry the configured
/// namespace prefix; the document id is the channel minus that prefix.
pub fn subscribe_decision(req: &SubscribeRequest, namespace_prefix: &str) -> (r: SubscribeStep)
    ensures
        req.protocol@ != "json"@ ==> r matches SubscribeStep::Reject(
            CentrifugoProxyError::UnsupportedProtocol,
        ),
        req.protocol@ == "json"@ && req.encoding@ != "json"@ ==> r matches SubscribeStep::Reject(
            CentrifugoProxyError::UnsupportedEncoding,
        ),
        req.protocol@ == "json"@ && req.encoding@ == "json"@ && !spec_has_prefix(
            req.channel@,
            namespace_prefix@,
        ) ==> r matches SubscribeStep::Reject(CentrifugoProxyError::BadChannelNamespace),
        req.protocol@ == "json"@ && req.encoding@ == "json"@ && spec_has_prefix(
            req.channel@,
            namespace_prefix@,
        ) ==> (r matches SubscribeStep::Lookup(id) && id@ == req.channel@.skip(
            namespace_prefix@.len() as int,
        )),
{
    if !str_eq(req.protocol.as_str(), "json") {
        return SubscribeStep::Reject(CentrifugoProxyError::UnsupportedProtocol);
    }
    if !str_eq(req.encoding.as_str(), "json") {
        return SubscribeStep::Reject(CentrifugoProxyError::UnsupportedEncoding);
    }
    match str_strip_prefix(req.channel.as_str(), namespace_prefix) {
        Some(document_id) => SubscribeStep::Lookup(document_id),
        None => SubscribeStep::Reject(CentrifugoProxyError::BadChannelNamespace),
    }
}

/// The body answering a lookup reply: a lookup failure becomes the
/// internal proxy error, a missing document an empty object, and a
/// found document its JSON.  `None` only when a stored timestamp
/// cannot be rendered.
pub fn subscribe_response(lookup: &Result<Option<MongoDBData>, ()>) -> (r: Option<String>)
    ensures
        *lookup is Err ==> (r matches Some(s) && s@ == spec_error_body(
            CentrifugoProxyError::InternalError,
        )),
        *lookup matches Ok(found) ==> match found {
            None => (r matches Some(s) && s@ == spec_result_body(seq!['{', '}'])),
            Some(data) => match spec_json_of_data(data@) {
                Some(dj) => (r matches Some(s) && s@ == spec_result_body(dj)),
                None => r is None,
            },
        },
{
    match lookup {
        Err(_) => Some(CentrifugoProxyError::InternalError.to_json_body()),
        Ok(None) => {
            let out = String::from_str("{\"result\":{\"data\":{}}}");
            proof {
                reveal_strlit("{\"result\":{\"data\":{}}}");
                assert(out@ =~= spec_result_body(seq!['{', '}']));
            }
            Some(out)
        },
        Ok(Some(data)) => {
            match render_data(data) {
                Some(data_json) => {
                    let mut out = String::from_str("{\"result\":{\"data\":");
                    out.append(data_json.as_str());
                    out.append("}}");
                    proof {
                        reveal_strlit("{\"result\":{\"data\":");
                        reveal_strlit("}}");
                        assert(out@ =~= spec_result_body(data_json@));
                    }
                    Some(out)
                },
                None => None,
            }
        },
    }
}

/// The status and body answering the whole lookup roundtrip: a
/// roundtrip failure is a bare 500; a served lookup is a 200 with its
/// business body, unless the document cannot be rendered.
pub fn subscribe_response_of_roundtrip(
    roundtrip: &Result<Result<Option<MongoDBData>, ()>, RoundtripError>,
) -> (r: (u16, Option<String>))
    ensures
        *roundtrip is Err ==> r.0 == 500 && r.1 is None,
        *roundtrip matches Ok(lookup) ==> match lookup {
            Err(_) => r.0 == 200 && (r.1 matches Some(s) && s@ == spec_error_body(
                CentrifugoProxyError::InternalError,
            )),
            Ok(None) => r.0 == 200 && (r.1 matches Some(s) && s@ == spec_result_body(
                seq!['{', '}'],
            )),
            Ok(Some(data)) => match spec_json_of_data(data@) {
                Some(dj) => r.0 == 200 && (r.1 matches Some(s) && s@ == spec_result_body(dj)),
                None => r.0 == 500 && r.1 is None,
            },
        },
{
    match roundtrip {
        Err(_) => (500, None),
        Ok(lookup) => {
            match subscribe_response(lookup) {
                Some(body) => (200, Some(body)),
                None => (500, None),
            }
        },
    }
}

/// The status answering a health probe.
pub open spec fn spec_health_status(outcome: Result<bool, RoundtripError>) -> int {
    if outcome == Ok::<bool, RoundtripError>(true) {
        204
    } else {
        500
    }
}

/// The health endpoint's status: no content when the probe roundtrip
/// delivered a healthy outcome, an internal error on an unhealthy
/// outcome and on any roundtrip failure.
pub fn health_response(outcome: &Result<bool, RoundtripError>) -> (status: u16)
    ensures
        status as int == spec_health_status(*outcome),
{
    match outcome {
        Ok(true) => 204,
        Ok(false) => 500,
        Err(_) => 500,
    }
}

/// Law: the health endpoint is idempotent: equal probe outcomes map to
/// equal statuses, and under a healthy publisher every call answers
/// 204.
pub proof fn lemma_health_idempotent(
    a: Result<bool, RoundtripError>,
    b: Result<bool, RoundtripError>,
)
    requires
        a == b,
    ensures
        spec_health_status(a) == spec_health_status(b),
        a == Ok::<bool, RoundtripError>(true) ==> spec_health_status(a) == 204,
{
}

} // verus!
