//! Crust: the verified core of a terminal coding agent.

pub mod text;
pub mod message;
pub mod system;
pub mod session;
pub mod manager;
pub mod context;
pub mod registry;
pub mod words;
pub mod json;
pub mod langgraph;
pub mod util;
pub mod cores;
pub mod commands;
pub mod skills;
pub mod events;
pub mod turn;
pub mod scoped;
pub mod spaces;
pub mod approval;
pub mod tools;
pub mod workspace;
pub mod console;
pub mod screen;
pub mod cli;
pub mod gateway;
pub mod settings;
pub mod params;
pub mod remote;
