//! Message routing and delivery reliability for a small peer-to-peer
//! messaging network: the wire format, the delivery cache, the gateway's
//! registry and router, and the peer node's handlers and send session.
pub mod wire;
pub mod cache;
pub mod registry;
pub mod gateway;
pub mod peer;
pub mod sender;
