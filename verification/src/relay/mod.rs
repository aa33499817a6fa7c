//! The relay: mailboxes, queues, invite bundles, and what it answers on a socket.
pub mod disk;
pub mod disk_laws;
pub mod frame_laws;
pub mod laws;
pub mod mailbox;
pub mod onion;
pub mod shelves;
pub mod socket;
pub mod state;
