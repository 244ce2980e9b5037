//! World parameters and the server's command-line configuration.

use vstd::prelude::*;

verus! {

/// Identifier of a snake in the world.
pub type SnakeId = u16;

/// Parameters that shape how the world is populated.
#[derive(Debug, Clone)]
pub struct WorldConfig {
    pub bots: u16,
    pub snake_average_length: u16,
    pub snake_min_length: u16,
}

impl Default for WorldConfig {
    fn default() -> (c: Self)
        ensures
            c.bots == 0,
            c.snake_average_length == 2,
            c.snake_min_length == 2,
    {
        WorldConfig { bots: 0, snake_average_length: 2, snake_min_length: 2 }
    }
}

impl WorldConfig {
    pub const GAME_RADIUS: u16 = 21600;
    pub const MAX_SNAKE_PARTS: u16 = 411;
    pub const SECTOR_SIZE: u16 = 300;
    /// Twice the world radius over the sector size.
    pub const SECTOR_COUNT_ALONG_EDGE: u16 = 144;
    /// The world radius less one sector.
    pub const DEATH_RADIUS: u16 = 21300;
    pub const SECTOR_DIAG_SIZE: u16 = 425;
    pub const MOVE_STEP_DISTANCE: u16 = 42;
    pub const FRAME_TIME_MS: u64 = 8;
    pub const PROTOCOL_VERSION: u8 = 8;
}

/// The server's configuration as given on the command line.
#[derive(Debug, Clone)]
pub struct Config {
    pub port: u16,
    pub bots: u16,
    pub avg_len: u16,
    pub min_len: u16,
    pub verbose: bool,
    pub debug: bool,
}

impl Config {
    /// The world parameters that this configuration asks for.
    pub fn world_config(&self) -> (w: WorldConfig)
        ensures
            w.bots == self.bots,
            w.snake_average_length == self.avg_len,
            w.snake_min_length == self.min_len,
    {
        WorldConfig { bots: self.bots, snake_average_length: self.avg_len, snake_min_length: self.min_len }
    }
}

} // verus!
