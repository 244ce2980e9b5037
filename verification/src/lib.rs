//! Game rules, spatial bookkeeping and wire encoding of a Slither.io server.

pub mod config;
pub mod food;
pub mod packet;
pub mod sector;
pub mod server;
pub mod snake;
pub mod world;

mod seqs;
