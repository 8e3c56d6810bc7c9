pub mod text;
pub mod cli;
pub mod cwd;
pub mod order;
pub mod config;
pub mod tmux;
