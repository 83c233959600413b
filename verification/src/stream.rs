//! Forwarding broadcast alerts to a websocket client: what is sent for each
//! event of the alert channel, and when forwarding stops.

use vstd::prelude::*;
use vstd::string::*;

verus! {

/// What the alert channel yields to a forwarding task.
pub enum ChannelEvent {
    /// An alert arrived; its JSON text, or the text of the error that
    /// serialising it raised.
    Alert(Result<String, String>),
    /// The task fell behind and this many alerts were dropped.
    Lagged(u64),
    /// Every sender is gone.
    Closed,
}

/// What the forwarding task does next.
#[derive(Debug, PartialEq, Eq)]
pub enum StreamStep {
    /// Send this text frame to the client, then go on.
    Send(String),
    /// Receive the next event.
    Continue,
    /// End the forwarding.
    Stop,
}

/// The frame sent in place of an alert that could not be serialised.
pub open spec fn error_payload_text(error: Seq<char>) -> Seq<char> {
    "{\"error\":\""@ + error + "\"}"@
}

/// Builds the frame `{"error":"<error>"}` (the text is not escaped).
pub fn error_payload(error: &str) -> (r: String)
    ensures
        r@ == error_payload_text(error@),
{
    let mut r = "{\"error\":\"".to_owned();
    r.append(error);
    r.append("\"}");
    r
}

/// What a channel event leads to: an alert is sent (its JSON, or the error
/// frame), a lag is passed over, a closed channel ends the forwarding.
pub fn on_channel_event(event: ChannelEvent) -> (step: StreamStep)
    ensures
        match event {
            ChannelEvent::Alert(Ok(json)) => step matches StreamStep::Send(t) && t@ == json@,
            ChannelEvent::Alert(Err(e)) => step matches StreamStep::Send(t)
                && t@ == error_payload_text(e@),
            ChannelEvent::Lagged(_) => step is Continue,
            ChannelEvent::Closed => step is Stop,
        },
{
    match event {
        ChannelEvent::Alert(Ok(json)) => StreamStep::Send(json),
        ChannelEvent::Alert(Err(e)) => StreamStep::Send(error_payload(e.as_str())),
        ChannelEvent::Lagged(_) => StreamStep::Continue,
        ChannelEvent::Closed => StreamStep::Stop,
    }
}

/// What follows a send: receiving again if the frame was delivered, the
/// end of the forwarding if the client could not be written to.
pub fn on_send_result(delivered: bool) -> (step: StreamStep)
    ensures
        delivered ==> step is Continue,
        !delivered ==> step is Stop,
{
    if delivered {
        StreamStep::Continue
    } else {
        StreamStep::Stop
    }
}

} // verus!
