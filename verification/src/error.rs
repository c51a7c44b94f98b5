use vstd::prelude::*;

verus! {

/// Failure conditions of the geometry pipeline. Each variant carries the
/// offending input values so a caller can locate the bad record.
#[derive(Clone, Copy, Debug, PartialEq, Eq, Structural)]
pub enum NetError {
    /// A coordinate lies outside the supported geographic bounding box.
    /// The fields hold the rejected scaled longitude and latitude.
    OutOfBounds { lon: i32, lat: i32 },
    /// A normalization interval has zero width, so the linear mapping onto
    /// the output range is undefined.
    DegenerateInterval { from: i32, to: i32 },
}

} // verus!
