//! Background delivery of webhook messages.
//!
//! The worker's decisions are a state machine: `Worker::step` takes the event
//! that the last action produced (a message dequeued, a response, a transport
//! failure, a finished backoff sleep) and returns the next action to perform.
//! The queue, the HTTP client and the timer are driven by the caller.
pub mod laws;
pub mod machine;
pub mod message;
pub mod shutdown;
