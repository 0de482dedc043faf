//! Errors reported by the codecs.

use vstd::prelude::*;

verus! {

/// Why a wire buffer or an editable document could not be turned into a value.
///
/// Every codec failure is terminal for the record being converted: no
/// partially decoded value is ever handed out.
#[derive(Clone, Copy, Debug, PartialEq, Eq, Structural)]
pub enum CodecError {
    /// A buffer or a list does not have the fixed length that its record requires.
    Size { expected: usize, actual: usize },
    /// A DPI value is not a multiple of the step, or does not fit the wire byte.
    Range { value: u16 },
    /// A wire byte that no button action is assigned to.
    UnknownAction { code: u8 },
    /// A wire byte that no LED effect is assigned to.
    UnknownLedEffect { code: u8 },
    /// A wire byte that no report rate is assigned to.
    UnknownReportRate { code: u8 },
    /// A colour that is not written as six hexadecimal digits.
    InvalidColor,
}

} // verus!
