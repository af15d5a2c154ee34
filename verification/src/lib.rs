//! An album-centred client of a music daemon, without the wires.
//!
//! The crate holds the library of songs and albums, the order in which it is
//! presented, the grouping of the daemon's songs into albums, the layout in
//! which the library is stored, the state of the daemon as it is known here,
//! the course that every command takes, and the panes of the screen with
//! the keys that walk them. Nothing here performs input or output: a caller
//! carries the requests to the daemon, tells how they ended, hands over what
//! the daemon says, writes the bytes, and draws the panes.
//!
//! - [`model`], [`order`], [`sort`]: songs, albums and the library; how
//!   they rank; stable sorting.
//! - [`tags`], [`number`], [`grouping`]: reading a song's record from its
//!   tags, and building the library from the records.
//! - [`codec`]: the stored layout of a library, and the proof that reading
//!   gives back what was written.
//! - [`state`]: finding the daemon's current song in the library.
//! - [`plan`], [`client`]: the stages of a command, and the commands.
//! - [`input`], [`ui`], [`windows`]: keys, the screen, and its panes.
//! - [`time`]: spans of time.

pub mod client;
pub mod codec;
pub mod grouping;
pub mod input;
pub mod model;
pub mod number;
pub mod order;
pub mod plan;
pub mod sort;
pub mod state;
pub mod tags;
pub mod time;
pub mod ui;
pub mod windows;
