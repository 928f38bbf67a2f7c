//! RustAgent: the verified core of a Minecraft mod management agent.

pub mod agent;
pub mod archive;
pub mod cli;
pub mod closure;
pub mod config;
pub mod curseforge;
pub mod database;
pub mod digest;
pub mod history;
pub mod json;
pub mod laws;
pub mod llm;
pub mod manifest;
pub mod modrinth;
pub mod number;
pub mod order;
pub mod pipeline;
pub mod sample;
pub mod selftest;
pub mod settings_file;
pub mod sidecar;
pub mod text;
pub mod tools;
pub mod ui;
