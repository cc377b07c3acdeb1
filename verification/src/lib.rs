//! Builds installable desktop-wallpaper packages from a tree of manifests.
//!
//! The crate resolves the authors that each directory inherits, normalises
//! the wallpapers that a manifest declares, decides where every image is
//! staged, and describes the desktop-environment documents to write. It never
//! touches the file system: callers hand in what they read and carry out the
//! copies and writes that the library asks for.

pub mod error;
pub mod format;
pub mod generate;
pub mod input;
pub mod license;
pub mod locale;
pub mod localized;
pub mod meta;
pub mod ordered;
pub mod resolution;
pub mod text;
pub mod walk;
