//! Rule engine for a settlers-style hex-board trading game: the grid's
//! coordinate algebra and canonicalization, the board with its banks and
//! placement rules, the players, the setup round, and the turn/action state
//! machine that validates and applies every play.
pub mod board;
pub mod coords;
pub mod hands;
pub mod player;
pub mod rng;
pub mod setup;
pub mod state;
