//! A two-player, round-based tile-drafting game: a central board owns the
//! tile bag, the factory displays and the shared pool; players hold private
//! pattern lines and a wall grid, scored by adjacency runs, a penalty table,
//! and end-of-game bonuses.

pub mod board;
pub mod color;
pub mod messages;
pub mod player;
pub mod scoring;
pub mod wall;

pub use board::GameBoard;
pub use color::TileColor;
pub use messages::{AzoolRequest, AzoolRequestType, AzoolResponse, BoardView, InvalidMoveError};
pub use player::Player;
pub use wall::Wall;
