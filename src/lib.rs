pub mod environment;
pub mod rl;
pub mod tictactoe;
