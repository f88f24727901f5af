//! The authoritative core of a multiplayer voxel-world server: the wire
//! codec, the world grid with its player registry, the command handlers and
//! the scheduler table. Every function here computes on plain values; the
//! sockets, the world file and the timer live with the program around it.
//!
//! A handler changes the world and returns a list of [`effect::Effect`]s:
//! the bytes to write to players' connections, the lines to print, the
//! bytes to write to the world file. The program performs them in order.

pub mod connection;
pub mod effect;
pub mod packet;
pub mod persist;
pub mod player;
pub mod scheduler;
pub mod text;
pub mod walk;
pub mod world;
pub mod world_command;
