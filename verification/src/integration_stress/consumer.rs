use vstd::prelude::*;

use crate::integration_stress::metrics::{recv_applied, CorrelatorState};

verus! {

/// The string members named `first` and `second` of a JSON object, as `serde_json` reads the
/// bytes `payload`: `None` when the bytes are not JSON, and a member that is missing or not
/// a string is `None`.
pub uninterp spec fn json_id_fields(payload: Seq<u8>, first: Seq<char>, second: Seq<char>) -> Option<(Option<Seq<char>>, Option<Seq<char>>)>;

/// The characters of an optional string.
pub open spec fn text_view(s: Option<String>) -> Option<Seq<char>> {
    match s {
        Some(t) => Some(t@),
        None => None,
    }
}

/// Reads the string members named `first` and `second` of a JSON event, by
/// `serde_json::from_slice` into a `serde_json::Value` (then `Value::get` and `Value::as_str`
/// on those members). Trusted: the result depends on the bytes and the two names alone and
/// is named `json_id_fields`; what JSON `serde_json` accepts is left unsaid.
#[verifier::external_body]
fn read_id_fields(payload: &[u8], first: &str, second: &str) -> (r: Option<(Option<String>, Option<String>)>)
    ensures
        match (r, json_id_fields(payload@, first@, second@)) {
            (None, None) => true,
            (Some((a, b)), Some((x, y))) => text_view(a) == x && text_view(b) == y,
            _ => false,
        },
{
    match serde_json::from_slice::<serde_json::Value>(payload) {
        Ok(value) => Some((
            value.get(first).and_then(serde_json::Value::as_str).map(|s| s.to_string()),
            value.get(second).and_then(serde_json::Value::as_str).map(|s| s.to_string()),
        )),
        Err(_) => None,
    }
}

/// Whether a Kafka message carries an event the correlator counts: a JSON payload with both
/// an `order_id` and an `event_id` string member.
pub open spec fn counted_event(payload: Option<Seq<u8>>) -> Option<(Seq<char>, Seq<char>)> {
    match payload {
        None => None,
        Some(bytes) => match json_id_fields(bytes, "order_id"@, "event_id"@) {
            Some((Some(order_id), Some(event_id))) => Some((order_id, event_id)),
            _ => None,
        },
    }
}

/// Hands one Kafka message, received at `recv_at_us`, to the correlator: a message without
/// payload, one that is not JSON, and one without both ids are passed over. Returns whether
/// the message was counted.
pub fn handle_message(state: &mut CorrelatorState, payload: Option<&[u8]>, recv_at_us: u64) -> (r: bool)
    requires
        old(state).wf(),
        old(state).received_count() < u64::MAX,
        old(state).matched_count() < u64::MAX,
    ensures
        final(state).wf(),
        r == counted_event(match payload {
            None => None,
            Some(p) => Some(p@),
        }) is Some,
        !r ==> *final(state) == *old(state),
        r ==> (counted_event(Some(payload.unwrap()@)) matches Some((order_id, event_id)) && recv_applied(
            *old(state),
            *final(state),
            order_id,
            event_id,
            recv_at_us,
        )),
{
    let bytes = match payload {
        Some(p) => p,
        None => return false,
    };
    match read_id_fields(bytes, "order_id", "event_id") {
        Some((Some(order_id), Some(event_id))) => {
            state.on_recv(order_id, event_id, recv_at_us);
            true
        },
        _ => false,
    }
}

} // verus!
