//! Frame dispatch for one connection session.
//!
//! The caller owns the socket and the receive loop: it races the next
//! inbound frame against a short idle tick used only to re-check the stop
//! flag.  Each frame it reads is handed to `handle_frame`, which decides
//! — with no I/O of its own — what the session does with it.

use vstd::prelude::*;

verus! {

use crate::frames::parse_trade_frame;
use crate::frames::spec_parse_trade_frame;
use crate::frames::PriceEvent;

/// One inbound item of the receive loop, as the transport reports it.
pub enum InboundFrame {
    /// A text frame, as raw bytes.
    Text { payload: Vec<u8> },
    /// A protocol ping carrying a payload to echo.
    Ping { payload: Vec<u8> },
    /// The stream ended cleanly.
    Closed,
    /// A transport-level failure.
    TransportError { message: String },
    /// Any other frame kind.
    Other,
}

/// What the session does with one inbound frame.
pub enum FrameAction {
    /// Push these price events to the sink, in order.
    Deliver { events: Vec<PriceEvent> },
    /// Answer the ping with a pong of the same payload.
    Pong { payload: Vec<u8> },
    /// The session is over: a clean disconnect.
    EndDisconnected,
    /// The session is over: a transport error, to be classified.
    EndError { message: String },
    /// Not a trade frame: read on.
    Ignore,
}

/// Decides what one inbound frame means for the session: a recognized
/// trade frame yields its events in arrival order; a ping is answered
/// with a pong of the same payload; a clean end of stream is a
/// disconnect; a transport error ends the session with its message; and
/// every other frame — malformed ones included — is silently ignored.
pub fn handle_frame(frame: InboundFrame) -> (r: FrameAction)
    ensures
        match frame {
            InboundFrame::Text { payload } => match spec_parse_trade_frame(payload@) {
                Some(evs) => (r matches FrameAction::Deliver { events } && events@ == evs),
                None => r is Ignore,
            },
            InboundFrame::Ping { payload } => (r matches FrameAction::Pong { payload: p }
                && p@ == payload@),
            InboundFrame::Closed => r is EndDisconnected,
            InboundFrame::TransportError { message } => (r matches FrameAction::EndError {
                message: m,
            } && m@ == message@),
            InboundFrame::Other => r is Ignore,
        },
{
    match frame {
        InboundFrame::Text { payload } => {
            match parse_trade_frame(payload.as_slice()) {
                Some(events) => FrameAction::Deliver { events },
                None => FrameAction::Ignore,
            }
        },
        InboundFrame::Ping { payload } => FrameAction::Pong { payload },
        InboundFrame::Closed => FrameAction::EndDisconnected,
        InboundFrame::TransportError { message } => FrameAction::EndError { message },
        InboundFrame::Other => FrameAction::Ignore,
    }
}

} // verus!
