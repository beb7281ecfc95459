pub mod bot;
pub mod engine;
pub mod games;
pub mod state;
