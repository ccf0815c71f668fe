//! The event WebSocket: its limits, and when the forwarder stops.
use vstd::prelude::*;
use crate::hardware::{opt_parse_u64, opt_parse_usize, opt_str, parse_u64_str, parse_usize_str};

verus! {

/// Limits of one WebSocket client.
#[derive(Debug, Clone, Copy, PartialEq, Eq, Structural)]
pub struct WsLimits {
    pub max_message_bytes: usize,
    pub max_pending_messages: usize,
    pub max_dropped_messages: u64,
}

/// Limits from their settings: 64 KiB messages, 64 queued messages, 50 drops;
/// an unreadable setting counts as absent.
pub fn ws_limits(message_bytes: Option<&str>, pending: Option<&str>, dropped: Option<&str>) -> (r: WsLimits)
    ensures
        r.max_message_bytes == (match opt_parse_usize(opt_str(message_bytes)) { Some(v) => v, None => 65536usize }),
        r.max_pending_messages == (match opt_parse_usize(opt_str(pending)) { Some(v) => v, None => 64usize }),
        r.max_dropped_messages == (match opt_parse_u64(opt_str(dropped)) { Some(v) => v, None => 50u64 }),
{
    WsLimits {
        max_message_bytes: match message_bytes { Some(s) => match parse_usize_str(s) { Some(v) => v, None => 65536 }, None => 65536 },
        max_pending_messages: match pending { Some(s) => match parse_usize_str(s) { Some(v) => v, None => 64 }, None => 64 },
        max_dropped_messages: match dropped { Some(s) => match parse_u64_str(s) { Some(v) => v, None => 50 }, None => 50 },
    }
}

/// What the forwarder does with a serialised event.
#[derive(Debug, Clone, Copy, PartialEq, Eq, Structural)]
pub enum ForwardStep {
    /// Too large: counted as dropped, and the forwarder goes on.
    Drop,
    /// Handed to the client's queue.
    Send,
}

/// Events over the message limit are dropped.
pub fn forward_payload(dropped: u64, payload_len: usize, limits: WsLimits) -> (r: (ForwardStep, u64))
    requires
        dropped < u64::MAX,
    ensures
        payload_len > limits.max_message_bytes ==> r == (ForwardStep::Drop, (dropped + 1) as u64),
        payload_len <= limits.max_message_bytes ==> r == (ForwardStep::Send, dropped),
{
    if payload_len > limits.max_message_bytes {
        (ForwardStep::Drop, dropped + 1)
    } else {
        (ForwardStep::Send, dropped)
    }
}

/// After a send: a full queue counts a drop; the forwarder stops once the
/// drops reach the limit.
pub fn after_send(dropped: u64, queued: bool, limits: WsLimits) -> (r: (u64, bool))
    requires
        dropped < u64::MAX,
    ensures
        r.0 == (if queued { dropped as int } else { dropped + 1 }),
        r.1 == (r.0 >= limits.max_dropped_messages),
{
    let d = if queued { dropped } else { dropped + 1 };
    (d, d >= limits.max_dropped_messages)
}

/// A lagging receiver counts a drop, and stops at the limit.
pub fn after_lag(dropped: u64, limits: WsLimits) -> (r: (u64, bool))
    requires
        dropped < u64::MAX,
    ensures
        r.0 == dropped + 1,
        r.1 == (r.0 >= limits.max_dropped_messages),
{
    let d = dropped + 1;
    (d, d >= limits.max_dropped_messages)
}

} // verus!
