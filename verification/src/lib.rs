//! Axeno: private messaging over relays that see only sealed envelopes.
//!
//! `relay` is the server. It opens mailboxes to whoever holds their receive token, takes in
//! envelopes for a delivery token, keeps them until they are acknowledged, and hosts sealed
//! invites. The other modules are the client.
//!
//! The client keeps everything it knows in one `store::MessagingStore`. `routes` looks after the
//! mailboxes of this side, `contacts` after those of the others. `invites` and `codes` make the
//! codes by which two people meet. `outbound` decides what a message needs before it leaves,
//! `inbound` and `senders` what becomes of one that came in, `ledger` which envelopes were
//! handled already. `link`, `requests` and `certificates` are the client's side of a connection
//! to a relay. `identity` and `vault` protect what lies on disk.
//!
//! The modules whose names end in `laws` hold what is true of several of these together.
pub mod certificates;
pub mod client_laws;
pub mod codes;
pub mod connection_laws;
pub mod connections;
pub mod contact_laws;
pub mod contacts;
pub mod encoding;
pub mod events;
pub mod frames;
pub mod identity;
pub mod ids;
pub mod inbound;
pub mod invite_laws;
pub mod invites;
pub mod key_laws;
pub mod keys;
pub mod ledger;
pub mod link;
pub mod link_laws;
pub mod message_laws;
pub mod messages;
pub mod outbound;
pub mod overview;
pub mod padding;
pub mod payloads;
pub mod plaintext;
pub mod pow;
pub mod primitives;
pub mod relay;
pub mod requests;
pub mod route_laws;
pub mod routes;
pub mod safety;
pub mod senders;
pub mod seqs;
pub mod settings;
pub mod store;
pub mod strmap;
pub mod text;
pub mod text_laws;
pub mod urls;
pub mod vault;
