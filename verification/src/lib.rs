pub mod agent;
pub mod checks;
pub mod cli;
pub mod config;
pub mod exec;
pub mod opnsense;
pub mod pattern;
pub mod platform;
pub mod plugin;
pub mod scripts;
pub mod setup;
pub mod sorted;
pub mod text;
