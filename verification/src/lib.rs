//! Turns chess game archives into per-move training planes.

pub mod engine;
pub mod game;
pub mod pipeline;
pub mod planes;
pub mod reading;
pub mod replay;
pub mod segmenter;
pub mod text;
