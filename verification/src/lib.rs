//! Capture and export decisions of the archiver, with verified contracts.

pub mod args;
pub mod capture;
pub mod command;
pub mod export;
pub mod file;
pub mod game;
pub mod iphone;
pub mod live;
pub mod log;
pub mod rvi;
pub mod text;
