//! A robot searching a fixed-size grid for food, the wire messages that drive
//! it, and the framing and session logic of the server that serves it.
pub mod frame;
pub mod render;
pub mod session;
pub mod wire;
pub mod world;

pub use world::{MoveError, RobotMovement, Tile, World, WorldState, WorldUpdate};
