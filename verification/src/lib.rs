//! Segmentation control for a camera recorder.
//!
//! A camera delivers one endless stream of packets. The recorder stores it as
//! a row of container files, each covering one period of the wall clock, and
//! keeps the file it has just left open a little longer, so that packets near
//! a cut land in both files. This crate holds the decisions of that recorder:
//! which streams are stored, when a file is cut, which files a packet goes to
//! and with which time bases, and which failures end the run. Reading the
//! camera and writing the files is left to the caller, who performs the
//! commands of [`segmenter::Segmenter`] one by one and reports how each went.
//!
//! - [`clock`]: readings of the wall clock, rotation boundaries, file names.
//! - [`input`]: the streams of a source and the choice of those that are
//!   stored.
//! - [`output`]: a file that is being written.
//! - [`protocol`]: the commands to the caller and the events from it.
//! - [`model`]: the controller as a transition system.
//! - [`segmenter`]: the controller that runs, proved to follow the model.
//! - [`laws`]: what holds of every run.

pub mod camera;
pub mod clock;
pub mod error;
pub mod input;
pub mod laws;
pub mod model;
pub mod output;
pub mod protocol;
pub mod segmenter;
