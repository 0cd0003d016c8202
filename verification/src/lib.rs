//! Core of a concurrent file-system scanner that finds files by extension.
//!
//! The crate holds the rules of a scan as verified functions on plain values:
//! how each root is walked, which entries qualify, how many metadata fetches
//! may be in flight, how the records of all roots are gathered, and how the
//! final list is ordered and rendered. The program around it walks the disk
//! and moves the messages.
//!
//! - [`record`]: the configuration of a scan and the records it produces.
//! - [`filter`]: the extension filter.
//! - [`throttle`]: the pool of permits that gates metadata fetches.
//! - [`walker`]: the decisions taken at each entry of a walk.
//! - [`builder`]: one configured walker of the `ignore` crate per root.
//! - [`collector`]: the sink that gathers what the walkers send.
//! - [`order`]: the order of the final list.
//! - [`scan`]: a whole scan over finished walks, and what holds of it.
//! - [`text`]: numbers as decimal text.
//! - [`render`] and [`table`]: the report.
//! - [`executor`]: laying out the command for a configured script.
//! - [`hasher`]: check sums of byte strings.

pub mod record;
pub mod filter;
pub mod throttle;
pub mod walker;
pub mod builder;
pub mod collector;
pub mod order;
pub mod scan;
pub mod text;
pub mod render;
pub mod table;
pub mod executor;
pub mod hasher;
