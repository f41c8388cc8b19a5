//! Icon theme resolution and caching.
//!
//! Given a symbolic icon name, a pixel size and a display scale factor, the
//! engine locates the best matching icon file of a freedesktop icon theme and
//! remembers the answer. Every function is stated over a snapshot of the
//! files it may consult, so a lookup is a function of its arguments.
//!
//! The modules, from the leaves up: [`text`] and [`files`] hold the helpers
//! on characters and paths; [`sizing`], [`descriptor`] and [`theme`] the
//! themes and how they are read; [`search`] the lookup in a theme;
//! [`icons`] the caching engine and [`guarantees`] what holds of it. The
//! remaining modules hold what the shell around the engine needs:
//! [`location`], [`thumbnails`], [`trash`], [`send_to`], and the values of
//! [`models`] and [`ipc`].

pub mod descriptor;
pub mod files;
pub mod guarantees;
pub mod icons;
pub mod ipc;
pub mod location;
pub mod models;
pub mod search;
pub mod send_to;
pub mod sizing;
pub mod text;
pub mod theme;
pub mod thumbnails;
pub mod trash;
