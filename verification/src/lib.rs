//! Five in a row on a fifteen by fifteen board: the rules of the game, and three
//! strategies that propose moves.
//!
//! [`game`] holds the game itself and [`position`] the mathematical model that its
//! contracts are stated over. [`ai`] holds the strategies. They build on [`cells`],
//! which lists the cells that a strategy chooses from, on [`search`], the bookkeeping
//! of the search strategy, on [`outlook`], which says what the verdict of a search
//! means, and on [`chance`], which makes the calls into the random number generator.

pub mod ai;
pub mod cells;
pub mod chance;
pub mod game;
pub mod outlook;
pub mod position;
pub mod search;
