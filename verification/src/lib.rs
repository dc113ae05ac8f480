pub mod text;
pub mod ordered_map;
pub mod state;
pub mod closure;
pub mod manage;
pub mod profile;
pub mod web;
pub mod modrinth;
pub mod sourceforge;
pub mod provider;
pub mod resolve;
pub mod resolver;
pub mod digest;
pub mod install;
pub mod setup;
pub mod cli;
pub mod laws;
