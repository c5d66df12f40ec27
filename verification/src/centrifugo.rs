//! Publisher-side logic: the exact request bodies posted to the
//! pub/sub broker and the classification of the broker's replies.
//!
//! The publisher drains the update queue, posting each payload to the
//! broker addressed at its channel, and answers health probes with a
//! no-op publish to a reserved sentinel channel.  A publish failure is
//! logged and the update dropped: delivery is at most once.

use vstd::prelude::*;
use vstd::string::*;

use crate::json::{append_json_string, render_data, spec_json_of_data, spec_json_string};
use crate::model::{
    spec_channel_of, spec_timestamps_of, spec_values_of, MongoDBData, MongoDBDataView, UpdateEvent,
};

verus! {

/// The broker's reply to a publish call, already decoded: a success
/// acknowledgement or a structured error.
#[derive(Debug)]
pub enum PublishResponse {
    Ack,
    Error { code: u16, message: String },
}

/// The body of a publish call: the channel addressed and the payload.
pub open spec fn spec_publish_body(channel: Seq<char>, data_json: Seq<char>) -> Seq<char> {
    seq!['{', '"', 'c', 'h', 'a', 'n', 'n', 'e', 'l', '"', ':'] + spec_json_string(channel)
        + seq![',', '"', 'd', 'a', 't', 'a', '"', ':'] + data_json + seq!['}']
}

/// Builds the exact body of a publish call from the channel name and
/// the already-rendered JSON of the payload.
pub fn publish_request_body(channel: &str, data_json: &str) -> (r: String)
    ensures
        r@ == spec_publish_body(channel@, data_json@),
{
    let mut out = String::new();
    out.append("{\"channel\":");
    append_json_string(&mut out, channel);
    out.append(",\"data\":");
    out.append(data_json);
    out.append("}");
    proof {
        reveal_strlit("{\"channel\":");
        reveal_strlit(",\"data\":");
        reveal_strlit("}");
        assert(out@ =~= spec_publish_body(channel@, data_json@));
    }
    out
}

/// Whether a publish call succeeded: it did exactly when the broker
/// answered a success status and an acknowledgement body; any non-2xx
/// status, undecodable body, or structured broker error is a failure.
pub open spec fn spec_publish_outcome(status: u16, body: Option<PublishResponse>) -> Result<
    (),
    (),
> {
    if 200 <= status < 300 && body matches Some(PublishResponse::Ack) {
        Ok(())
    } else {
        Err(())
    }
}

/// Classifies the broker's reply to a publish call.  `body` is `None`
/// when the reply could not be decoded.
pub fn publish_outcome(status: u16, body: Option<PublishResponse>) -> (r: Result<(), ()>)
    ensures
        r == spec_publish_outcome(status, body),
{
    if status < 200 || status >= 300 {
        return Err(());
    }
    match body {
        Some(PublishResponse::Ack) => Ok(()),
        Some(PublishResponse::Error { .. }) => Err(()),
        None => Err(()),
    }
}

/// One step of the publisher's update loop: an incoming event becomes
/// the channel it addresses and the exact body to post there.  The
/// update is dropped only when one of its timestamps cannot be
/// rendered.
pub fn tags_update_step(event: UpdateEvent) -> (r: Option<(String, String)>)
    ensures
        ({
            let payload = MongoDBDataView {
                val: spec_values_of(event@.updated_fields),
                ts: spec_timestamps_of(event@.updated_fields),
            };
            match spec_json_of_data(payload) {
                Some(dj) => r matches Some(p) && p.0@ == spec_channel_of(event@) && p.1@
                    == spec_publish_body(spec_channel_of(event@), dj),
                None => r is None,
            }
        }),
{
    let ghost payload = MongoDBDataView {
        val: spec_values_of(event@.updated_fields),
        ts: spec_timestamps_of(event@.updated_fields),
    };
    let (channel, data) = event.into_centrifugo();
    proof {
        assert(data@ =~= payload);
    }
    match render_data(&data) {
        Some(data_json) => {
            let body = publish_request_body(channel.as_str(), data_json.as_str());
            Some((channel, body))
        },
        None => None,
    }
}

/// The health probe of the publisher: a no-op publish of a null
/// payload to the reserved sentinel channel, validating end-to-end
/// reachability of the broker.
pub fn health_probe_request() -> (r: (String, String))
    ensures
        r.0@ == "_"@,
        r.1@ == spec_publish_body("_"@, "null"@),
{
    let channel = String::from_str("_");
    let body = publish_request_body("_", "null");
    (channel, body)
}

/// The reply written into a health probe's reply slot: whether the
/// probe publish succeeded.
pub fn health_reply(outcome: &Result<(), ()>) -> (r: bool)
    ensures
        r == (*outcome is Ok),
{
    outcome.is_ok()
}

} // verus!
