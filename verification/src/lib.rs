//! An incremental implementation of the Telnet wire protocol: an event model,
//! IAC escaping, a streaming parser, an encoder, and a handler/relay layer
//! that intercepts events flowing between two connected parties.
pub mod codec;
pub mod escape;
pub mod event;
pub mod handler;
pub mod op;
pub mod parser;
pub mod relay;

pub use crate::codec::Error;
pub use crate::event::Event;
pub use crate::op::Cmd;
pub use crate::op::KnownOpt;
pub use crate::op::Opt;
pub use crate::parser::Parser;
