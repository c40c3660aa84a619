//! Live market-data streaming engine for a single traded instrument.
//!
//! The crate verifies the decision logic of the engine: the reconnection
//! policy with exponential backoff, the update-rate throttle, the trade
//! aggregator that turns ticks into fixed-interval candlesticks, the
//! classification of transport errors into fatal and recoverable ones, the
//! connection lifecycle state machine, and the wire grammar of the control
//! and trade frames.  All I/O (the socket itself, sleeping, the clock used
//! to stamp events) stays with the caller, which drives the state machine
//! by reporting what happened and performing the actions it asks for.

pub mod candles;
pub mod classify;
mod clock;
pub mod engine;
pub mod errorlog;
pub mod frames;
pub mod policy;
pub mod session;
pub mod symbols;
pub mod throttle;
pub mod timeframe;
