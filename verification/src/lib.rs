//! Parts of a Minecraft server and its tools.
//!
//! `packet` holds what packets are told apart by, `chunk` the chunks of a world
//! and what clients are told of them, `capture` files that hold the packets of a
//! connection, and `inspector` a proxy that shows and captures packets.

pub mod capture;
pub mod chunk;
pub mod inspector;
pub mod packet;
pub mod text;
