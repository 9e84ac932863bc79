//! Packaging of a Rust application for Linux distributions: the decisions
//! behind the `.deb`, AppImage and xbps outputs and the command line that
//! selects them.
//!
//! - `cli`: the options of `cargo prod` and the packagers they select;
//! - `deb`: the options of a `.deb` build and the order of its work, as a
//!   state machine that a driver feeds with the outcome of each piece of work;
//! - `appimage`: the AppImage settings in Cargo.toml, the build directory
//!   named on the command line, the libraries to bundle and the files written;
//! - `xbps`: the xbps build template;
//! - `text`: decimal rendering, lines and other text building blocks.
pub mod appimage;
pub mod cli;
pub mod deb;
pub mod text;
pub mod xbps;
