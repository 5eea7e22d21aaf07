//! Console commands and LED ring logic of the S-CAM badge.

pub mod debug;
pub mod deps;
pub mod leds;
pub mod photo;
pub mod qr;
pub mod shell;
pub mod text;
pub mod upload;
