//! Outbound delivery engine of a mail transfer agent.
//!
//! The crate holds the address model, the reply classifier, the SMTP
//! command model, the client-side protocol state machine, MX-aware host
//! selection, domain-based recipient grouping and the synthesis of
//! undeliverable-mail notifications.  Every function is pure with respect
//! to the outside world: transports and name servers are driven by the
//! embedding program, which feeds their results in as plain values.

pub mod config;
pub mod delivery;
pub mod dispatch;
pub mod dispatcher;
pub mod error;
pub mod resolver;
pub mod text;
pub mod smtp;
