//! A configurable HTTP responder's core: one configured answer for every
//! request, a small body template language, and a traffic log in three
//! levels of detail.
//!
//! - [`config`]: the configuration, checked once and read by every request.
//! - [`header`]: header fields and the `key:value` form they are given in.
//! - [`template`] and [`render`]: the body template and its rendering.
//! - [`response`]: the response that every request gets.
//! - [`wire`]: its headers in the header map that the server sends.
//! - [`exchange`]: the steps of one exchange as the logger follows it.
//! - [`logger`], [`display`] and [`style`]: the log block of an exchange.
//! - [`text`]: characters, lines, order and decimal numbers.

mod clock;
pub mod config;
pub mod display;
pub mod exchange;
pub mod header;
pub mod logger;
pub mod render;
pub mod response;
pub mod style;
pub mod template;
pub mod text;
pub mod wire;
