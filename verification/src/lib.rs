//! The movement and matchmaking core of a small arcade game.
//!
//! A player roams a tile map, grabs wandering pandas and throws them toward
//! each other. Pandas that come to rest near each other fall in love, a stork
//! is dispatched, and a new panda is delivered. A bamboo stock is eaten down by
//! the wandering pandas and ends the session once it is gone.
//!
//! Every quantity is an integer in a fixed unit: whole pixels for collider
//! positions, thousandths of a pixel per second for velocities, microseconds
//! for time, and billionths of a pixel for the distance covered in one frame.
//! The collision world, the clock, the keyboard and the screen live with the
//! caller: each step here takes what they reported and answers with the new
//! state and the motion to carry out.

pub mod animation;
pub mod game;
pub mod heading;
pub mod match_engine;
pub mod mover;
pub mod panda_factory;
pub mod player;
pub mod resource_clock;
pub mod rng;
pub mod soundtrack;
pub mod stork_factory;
pub mod text;
pub mod tilemap;
pub mod tuning;
pub mod units;
