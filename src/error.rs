//! Errors of the decoder.

use vstd::prelude::*;

verus! {

/// Why a decode failed or an element was left out.
#[derive(Debug, Clone, Copy, PartialEq, Eq, Structural)]
pub enum ParseError {
    /// Short read, bad magic, bad ACL header, out-of-range offset or date.
    MalformedInput,
    /// An attribute of an unknown ADS type; the attribute is skipped.
    UnsupportedAdsType,
    /// An ACE of a type the decoder does not handle; the ACE is skipped.
    UnsupportedAceType,
    /// A cross-reference that points outside the tables it refers to.
    InvariantViolation,
}

} // verus!
