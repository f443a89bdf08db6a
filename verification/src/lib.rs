//! A verified falling-block grid engine: tetromino shapes under rotation,
//! gravity-based placement on a 10 x 20 board, line clearing, board
//! statistics, an offline placement planner and an online referee session.

pub mod shape;
pub mod grid;
pub mod commands;
pub mod planner;
pub mod referee;
