//! The kinds of failure that stitching reports.

use vstd::prelude::*;

verus! {

/// Why stitching failed.
#[derive(Clone, Copy, Debug, PartialEq, Eq, Structural)]
pub enum StitcherError {
    /// A file could not be read or written.
    Io,
    /// An image could not be decoded or encoded.
    ImageError,
    /// The inputs named on the command line are inconsistent or incomplete.
    CommandLineParsingError,
    /// The images do not all have the same width and height.
    SizeMismatch,
    /// The number of images differs from the number of cells of the grid.
    GridArityMismatch,
}

} // verus!
