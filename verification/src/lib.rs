//! Connection establishment against an endpoint that is either a literal
//! socket address or a host name with a port.
//!
//! The library holds the decisions of one call: whether to resolve, which
//! addresses to attempt and when, which attempts to abandon, and what the
//! single outcome is. The caller performs the socket and resolver work and
//! reports each completion back as an event.

pub mod endpoint;
pub mod machine;
pub mod dispatch;
pub mod laws;
