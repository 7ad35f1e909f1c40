//! Chunks: what they hold, how they change, and what clients are told of them.
//!
//! `model` says what a chunk is and what each change makes of it; `loaded` stores
//! one, shows it to clients and tells them of its changes. `init`, `message` and
//! `send` say what is sent. `laws` states what holds throughout, `told` what clients
//! know, and `shown` what holds of the packets that show a chunk. `effects` says of
//! each change, cell by cell, what it does and leaves alone; `heights`, `stored` and
//! `sent` what height maps, containers, messages and packets hold; `asked` what may be
//! asked of a chunk; and `calls` and `results` what its functions do and hand back.

pub mod asked;
pub mod block;
pub mod calls;
pub mod effects;
pub mod heightmap;
pub mod heights;
pub mod init;
pub mod keys;
pub mod laws;
pub mod light;
pub mod loaded;
pub mod message;
pub mod model;
pub mod palette;
pub mod results;
pub mod send;
pub mod sent;
pub mod shown;
pub mod stored;
pub mod told;
pub mod unloaded;
