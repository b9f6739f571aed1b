//! Launcher shim: starts a backend process, discovers its listening address
//! through a handshake file, confirms liveness through a health endpoint, and
//! latches the discovered base URL for the host shell to query.

pub mod base_url;
pub mod errors;
pub mod handshake;
pub mod invocation;
pub mod latch;
pub mod poller;

pub use errors::boxed_err;
pub use errors::SetupError;
pub use handshake::parse_handshake;
pub use handshake::HandshakeRecord;
pub use latch::BaseUrlLatch;
pub use poller::poll_step;
pub use poller::publish_poll_outcome;
pub use poller::PollEvent;
pub use poller::PollState;
pub use poller::Stage;
