pub mod coord;
pub mod piece;
pub mod player;
pub mod ply;
pub mod board;
pub mod attack;
pub mod movegen;
pub mod legal;
pub mod status;
pub mod play;
pub mod shape;
pub mod perft;
pub mod engine;
pub mod fen;
pub mod laws;
pub mod notation;
pub mod game;
