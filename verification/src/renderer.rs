//! Turning document text into something that can be drawn.

pub mod html;
