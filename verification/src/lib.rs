//! Keeps a hardware light in step with the desktop accent color.
//!
//! The crate holds the decisions of the synchronisation daemon and none of
//! its effects. Whoever drives it looks up the accent color, runs the vendor
//! tool, talks to the controller server and feeds the status display, and
//! hands each outcome to the crate as a plain value.
//!
//! - [`color`]: byte colors and their hexadecimal text.
//! - [`app`]: the engine, which applies a color only when it is not the one
//!   applied already.
//! - [`executor`]: one apply operation, which leaves the keyboard brightness
//!   as it found it, and the layout of an update for a controller server.
//! - [`brightness`]: the brightness levels and the status line that reports
//!   them.
//! - [`portal`], [`kde`]: what the desktop says about its accent color.
//! - [`env`], [`env_check`]: the checks before startup.
//! - [`tray`], [`installer`]: the status display and the service unit.
//! - [`text`]: whitespace and letter case, shared by the parsers.

pub mod app;
pub mod brightness;
pub mod color;
pub mod env;
pub mod env_check;
pub mod executor;
pub mod installer;
pub mod kde;
pub mod portal;
pub mod text;
pub mod tray;
