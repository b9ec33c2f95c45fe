//! What can be wrong with a log without ending the reading of it. The
//! format of the log is not guaranteed, and what is left of a flawed log is
//! still worth having: a flaw is passed over, never reported as a failure.

use vstd::prelude::*;

verus! {

/// A flaw that is passed over.
#[derive(Clone, Copy, Debug, PartialEq, Eq, Structural)]
pub enum Flaw {
    /// A line follows none of the phrasings that open or close an
    /// invocation. It is read as a line that leaves the tree as it is.
    ParseAmbiguous,
    /// A schema does not accept a payload. The schema gives no event.
    DecodeMismatch,
    /// A return closes no invocation that was seen to open. It is ignored.
    MalformedFrameNesting,
}

} // verus!
