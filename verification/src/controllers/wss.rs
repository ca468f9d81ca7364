//! The requests by which other services push events to users: what each one
//! does once its parts have been taken from the request.

use crate::json::Payload;
use crate::service::registry::ConnectionRegistry;
use crate::service::wss::{addressed, fanout, targets, wire_data};
use crate::service::wss::{Delivery, WssError, WssService};
use vstd::prelude::*;

verus! {

/// The query of a push request: the tag of the event.
pub struct QueryEventType {
    pub kind: String,
}

/// The body of a broadcast request: the users to reach and the data of the
/// event.
pub struct BroadcastBody {
    pub ids: Vec<i32>,
    pub body: Payload,
}

/// The controller of the push requests.
pub struct WssController;

impl WssController {
    /// Sends one event to every connection that the user `id` has open. The
    /// request succeeds whether or not the user has any; it fails only on data
    /// that is no JSON.
    pub fn send(registry: &ConnectionRegistry, id: i32, query: QueryEventType, payload: Payload) -> (
    outcome: Result<Vec<Delivery>, WssError>)
        ensures
            match outcome {
                Ok(report) => wire_data(payload@) is Some && addressed(report@) == targets(
                    registry@,
                    id,
                ),
                Err(e) => wire_data(payload@) is None && e == WssError::Serialize,
            },
    {
        match WssService::serialize(query.kind, payload) {
            Ok(message) => WssService::send(registry, id, message.as_str()),
            Err(e) => Err(e),
        }
    }

    /// Sends one event to every user that the body names, each independently
    /// of the others. It fails only on data that is no JSON.
    pub fn broadcast(registry: &ConnectionRegistry, query: QueryEventType, payload: BroadcastBody) -> (
    outcome: Result<Vec<Delivery>, WssError>)
        ensures
            match outcome {
                Ok(report) => wire_data(payload.body@) is Some && addressed(report@) == fanout(
                    registry@,
                    payload.ids@,
                ),
                Err(e) => wire_data(payload.body@) is None && e == WssError::Serialize,
            },
    {
        WssService::broadcast(registry, payload.ids, query.kind, payload.body)
    }
}

} // verus!
