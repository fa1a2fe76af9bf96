//! Loopback UDP messaging: a sender that delivers one message to a fixed set
//! of local ports, and a receiver that polls one of those ports until it is
//! interrupted. The decisions of both programs are verified state machines;
//! the sockets, the clock and the signal stay with the caller.

pub mod decode;
pub mod endpoints;
pub mod receiver;
pub mod sender;
