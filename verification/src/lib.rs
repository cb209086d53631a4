//! Gack: the verified core of a compact terminal Git panel.
pub mod action;
pub mod cli;
pub mod commands;
pub mod config;
pub mod display;
pub mod editor;
pub mod git;
pub mod model;
pub mod operations;
pub mod path;
pub mod rail;
pub mod session;
pub mod text;
pub mod watch;
