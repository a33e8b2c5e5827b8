//! A display-mode switching library: given a possibly-partial display
//! specification (resolution, aspect ratio, refresh rate) and a catalog of
//! concrete hardware modes, deterministically select the best matching mode
//! under an "exact" or "closest" matching policy.

pub mod cli;
pub mod display;
pub mod parser;
pub mod platform;
pub mod profile;
pub mod render;

