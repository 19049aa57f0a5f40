//! Authoritative simulation core of a small multiplayer arena: the world
//! model, the rules that advance it, the input sequencer, the wire protocol,
//! the registry of connections, and the client's prediction.
//!
//! Real-valued quantities are carried as [`scalar::Scalar`] bit patterns.
//! The library copies, orders and transmits them and decides everything that
//! is a matter of integers and booleans: who is hit, what is removed, who
//! comes back into play, which input counts, when an asteroid is due and
//! where it appears. Sums, products, distances and angles are the caller's:
//! it hands them in as values ([`frame::Frame`], [`frame::Steering`],
//! [`asteroid::Launch`]) or as functions that the library calls where the
//! values are needed ([`game_world::GameWorld::tick`]).

pub mod scalar;
pub mod utils;
pub mod packet;
pub mod player;
pub mod bullet;
pub mod asteroid;
pub mod frame;
pub mod game_world;
pub mod rules;
pub mod tick;
pub mod laws;
pub mod varint;
pub mod record;
pub mod snapshot;
pub mod prediction;
pub mod scene;
pub mod registry;
pub mod driver;
pub mod game_state;
pub mod auth;
