//! Fan-out of ephemeral log events to attached viewers.
//!
//! Delivery rides tokio's bounded broadcast channel: producers never
//! block, a lagging or absent subscriber just misses entries, and nothing
//! here is load-bearing for correctness. The channel is created by the
//! application; this module builds each event and hands it over.

use vstd::prelude::*;
use crate::clock::now_local_rfc3339;
use crate::status::LogMessage;

verus! {

#[verifier::external_type_specification]
#[verifier::external_body]
#[verifier::reject_recursive_types(T)]
pub struct ExBroadcastSender<T>(tokio::sync::broadcast::Sender<T>);

/// Relies on tokio's broadcast `Sender::send`: fan-out to current
/// subscribers, never blocking; an error only means nobody is listening,
/// and is ignored, as delivery is at most once and best-effort.
#[verifier::external_body]
fn broadcast_log(tx: &tokio::sync::broadcast::Sender<LogMessage>, m: LogMessage) {
    let _ = tx.send(m);
}

/// Builds a log event at the current local time and hands it to the
/// broadcast channel, if one is attached. Never blocks and never fails.
pub fn send_log(
    tx: &Option<tokio::sync::broadcast::Sender<LogMessage>>,
    level: &str,
    message: &str,
) {
    match tx {
        Some(t) => {
            let entry = LogMessage::new(
                String::from_str(level),
                String::from_str(message),
                now_local_rfc3339(),
            );
            broadcast_log(t, entry);
        },
        None => (),
    }
}

} // verus!
