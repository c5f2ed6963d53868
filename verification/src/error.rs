//! Error kinds of the renderer.

use vstd::prelude::*;

verus! {

/// What can go wrong while producing an image.
///
/// - `Configuration`: fewer than two colour ranges were defined before
///   rendering; a caller mistake, reported before any work is done.
/// - `NumericConversion`: a computed size exceeds the 32-bit signed fields
///   of the bitmap container; the file bytes are refused before any are
///   produced.  File I/O failures are left to the caller that writes the
///   bytes out.
#[derive(Clone, Copy, Debug, PartialEq, Eq, Structural)]
pub enum RenderError {
    Configuration,
    NumericConversion,
}

} // verus!
