//! Core logic of the Rustaria game: identifiers and registries, id tables, block
//! lookup, tile connections, the client's handshake, command parsing, checked
//! coordinate arithmetic, render enum tables and atlas layout.

pub mod ty;

pub use ty::{checked_add_signed_u32, checked_add_signed_u8, Error, MultiDeref, Offset, SS, WS};
pub mod id_table;
pub mod cmd;
pub mod identifier;
pub mod gl;
pub mod buffer;
pub mod texture;
pub mod program;
pub mod atlas;
pub mod tile;
pub mod perf;
pub mod network;
pub mod block;
pub mod order;
pub mod registry;
pub mod world;
pub mod mesher;
pub mod backend;
pub mod variant;
pub mod handshake;
pub mod uniform;
