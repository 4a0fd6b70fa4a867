//! Verified core of SkipUAC: the string, naming, program-list and
//! decision logic behind the elevated-shortcut manager.

pub mod adding;
pub mod autostart;
pub mod catalog;
pub mod cli;
pub mod elevate;
pub mod icon;
pub mod model;
pub mod naming;
pub mod shortcut;
pub mod storage;
pub mod tasks;
pub mod text;
pub mod unicode;
pub mod wait;
