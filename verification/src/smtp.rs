//! The client side of the mail transfer protocol.

pub mod args;
pub mod client;
pub mod command;
pub mod laws;
pub mod message;
pub mod parse;
pub mod response;

pub use command::Command;
pub use message::Message;
pub use response::ResponseCode;
