//! The state engine of a shared circular-arena paddle game.
//!
//! All lengths and angles are fixed-point integers: `fixed::SCALE` units make one
//! distance unit (or one radian), and a `fixed::Heading` carries an angle with its
//! cosine and sine.
//!
//! - `sim`: players, the ball and the game state, with the tick and the player
//!   operations.
//! - `connection`: the per-connection protocol as a transition function.
//! - `feed`: catching a lagging snapshot subscription up to the newest snapshot.
pub mod connection;
pub mod feed;
pub mod fixed;
pub mod sim;
