//! Verified core of a terminal chat agent.

pub mod auth;
pub mod cli;
pub mod config;
pub mod conversation;
pub mod encoding;
pub mod json;
pub mod layout;
pub mod lines;
pub mod login;
pub mod number;
pub mod offsets;
pub mod openai;
pub mod paste;
pub mod paths;
pub mod screen;
pub mod storage;
pub mod text;
pub mod time;
pub mod ui;
pub mod views;
pub mod wrap;
