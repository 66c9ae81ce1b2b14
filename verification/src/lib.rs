//! A verified core for a small SOCKS4 proxy: the wire codec for the
//! eight-byte request and reply headers and the zero-terminated client
//! id, and the session state machine that drives the handshake and the
//! lock-step relay loop. Socket I/O lives outside the library; callers
//! perform each requested action and feed the outcome back as an event.

pub mod codec;
pub mod headline;
pub mod session;
