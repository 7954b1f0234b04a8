pub mod chain;
pub mod config;
pub mod gate;
pub mod graph;
pub mod profile;
pub mod resolver;
pub mod stage;
pub mod state;
