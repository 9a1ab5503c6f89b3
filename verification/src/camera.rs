//! What is configured for a camera and for the folder its files go to.

use vstd::prelude::*;

verus! {

/// One camera: the name that its files carry and the address of its stream.
#[derive(Debug)]
pub struct Camera {
    /// Name of the camera, a part of every file name.
    pub name: String,
    /// Address from which the source is opened.
    pub url: String,
}

/// What all cameras share.
#[derive(Debug)]
pub struct CamerasMetadata {
    /// Folder that receives the files.
    pub folder: String,
    /// Format description for the time in a file name, in the syntax of the
    /// `time` crate, such as `[year]-[month]-[day]_[hour]-[minute]`.
    pub time_format: String,
    /// Seconds that the clock of the file names is ahead of UTC.
    pub offset: i32,
}

} // verus!
