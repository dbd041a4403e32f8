//! A real-time chat fanout core: identities, the registry of live
//! connections, per-recipient framing of events, and the session lifecycle.

pub mod allocator;
pub mod event;
pub mod mailbox;
pub mod registry;
pub mod broadcaster;
pub mod session;
pub mod server;
