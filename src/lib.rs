//! A single-threaded broadcast channel whose delivery protocol is verified.
//!
//! [`Shared`] is the state that a publisher and its subscribers share: the
//! current message id, the per-subscriber records, and the suspension handles
//! of the operations waiting on them. Each step of the protocol (publish,
//! receive, cancel, depart, close) is a method on it whose contract is stated
//! over [`ChannelView`].

mod slots;
mod waker;

pub mod channel;
pub mod laws;

pub use channel::{next_message_id, ChannelView, Progress, SendError, Shared};
