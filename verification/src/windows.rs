//! The panes of the screen: what each shows, and how its list is walked.
//! Drawing them is left to the caller.

pub mod album_window;
pub mod area;
pub mod bar_window;
pub mod info_window;
pub mod rows;
pub mod scroll;
pub mod status_window;
pub mod title_window;
pub mod volume_window;
