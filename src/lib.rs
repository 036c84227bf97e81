//! Message-oriented duplex connections over a raw stream socket or a WebSocket.
//!
//! The verified core is the length-prefixed frame codec (`codec`), the driver
//! state machine that both transports share (`session`), the caller-facing
//! handle and its two queues (`client`), the certificate trust policy
//! (`trust`), and what an HTTP request carries (`http_request`).

pub mod codec;
pub mod client;
pub mod error;
pub mod http_request;
pub mod session;
pub mod trust;

