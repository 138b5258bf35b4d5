//! A turn-based text adventure engine: a party of characters explores a
//! graph of locations, equips what it finds, and resolves group combat.
//! The world catalog is immutable after load; everything a playthrough
//! changes lives in the player's progress state.
pub mod character;
pub mod enemy;
pub mod object;
pub mod parsexec;
pub mod text;
pub mod worlddata;
pub mod player;
