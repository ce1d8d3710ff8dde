//! Layout and shape engine of a multi-monitor status bar.
//!
//! The crate computes everything a bar draws: which display regions carry a
//! bar, where each content item starts, which polygons make up a separator
//! glyph and which drawing requests result, in order. Talking to the display
//! server is left to the caller, who hands over plain values (resource ids,
//! measured text widths) and carries out the requests that come back.
//!
//! - [`resolver`] picks and orders the regions that carry a bar.
//! - [`shape`] generates the polygons of the separator glyphs.
//! - [`layout`] gives every item its width and its cursor.
//! - [`cache`] keeps one drawing context per color.
//! - [`bar`] holds the content types and the bar itself, which turns a run
//!   of items into drawing requests.
//! - [`setup`], [`xft`] and [`wire`] hold regions, requests, colors and font
//!   metrics, and the numbers of a request as the protocol carries them.
//! - [`analyse`] turns input into the runs of each display.

pub mod analyse;
pub mod bar;
pub mod cache;
pub mod layout;
pub mod resolver;
pub mod setup;
pub mod shape;
pub mod wire;
pub mod xft;
