//! Asset decoding and terrain render planning for a heightfield driving game.
pub mod bytes;
pub mod compact;
pub mod level;
pub mod model;
pub mod splay;
pub mod terrain;

