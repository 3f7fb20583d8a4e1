//! User-space client logic for the Apple System Management Controller (SMC)
//! key/value interface.
//!
//! The SMC exposes a directory of 32-bit four-character keys, each carrying a
//! small typed payload (thermal sensors among them).  Talking to it means
//! exchanging a fixed-layout wire record over a kernel IPC channel.  This
//! crate holds everything about that exchange that can be reasoned about as
//! pure logic: the four-character key codec, the wire-record construction,
//! the interpretation of replies and the error taxonomy, the memoised
//! metadata cache, and the sensor discovery and filtering policy.
//!
//! The one thing the library does not do itself is the kernel call.  That is
//! abstracted as the [`client::SmcPort`] trait: a transport that submits one
//! wire record and hands back a status code and a reply record.  An embedding
//! provides a port backed by the real kernel connection; a test provides a
//! scripted one.  Every contract here holds for any port whatsoever.

pub mod client;
pub mod error;
pub mod fourcc;
pub mod sensors;
pub mod wire;
