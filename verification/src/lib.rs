//! A viewer for satellite scenes with a radar loop on top: the rules it follows
//! and the data it keeps, without the window, the network and the GPU.

pub mod app;
pub mod binary;
pub mod clock;
pub mod data;
pub mod http;
pub mod renderer;
pub mod text;
pub mod tiles;
pub mod ui;
