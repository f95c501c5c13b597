//! The byte by which a verdict crosses a foreign-function boundary:
//! `1` for accepted, `0` for rejected, and nothing else.

use vstd::prelude::*;

verus! {

/// A verdict byte that is neither `0` nor `1`.
#[derive(Clone, Copy, Debug, PartialEq, Eq, Structural)]
pub struct UnspecifiedVerdict {
    pub byte: u8,
}

/// The byte that stands for a verdict.
pub open spec fn verdict_byte(accepted: bool) -> u8 {
    if accepted {
        1
    } else {
        0
    }
}

/// The verdict that a byte stands for, if it stands for one.
pub open spec fn byte_verdict(byte: u8) -> Option<bool> {
    if byte == 1 {
        Some(true)
    } else if byte == 0 {
        Some(false)
    } else {
        None
    }
}

pub fn verdict_to_byte(accepted: bool) -> (byte: u8)
    ensures
        byte == verdict_byte(accepted),
{
    if accepted {
        1
    } else {
        0
    }
}

/// Reads a verdict byte. A byte other than `0` and `1` is reported as such
/// and never taken for a rejection.
pub fn verdict_from_byte(byte: u8) -> (verdict: Result<bool, UnspecifiedVerdict>)
    ensures
        match verdict {
            Ok(accepted) => byte_verdict(byte) == Some(accepted),
            Err(e) => byte_verdict(byte) is None && e.byte == byte,
        },
{
    if byte == 1 {
        Ok(true)
    } else if byte == 0 {
        Ok(false)
    } else {
        Err(UnspecifiedVerdict { byte })
    }
}

/// A verdict survives the trip through its byte.
pub proof fn lemma_verdict_round_trip(accepted: bool)
    ensures
        byte_verdict(verdict_byte(accepted)) == Some(accepted),
{
}

} // verus!
