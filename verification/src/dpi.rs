//! Sensor resolution, stored as one byte that counts steps of fifty DPI.

use vstd::prelude::*;

use crate::error::CodecError;

verus! {

/// The DPI that one unit of the wire byte stands for.
pub const DPI_STEP: u16 = 50;

/// The largest DPI that a wire byte can express: 255 steps.
pub const DPI_MAX: u16 = 12750;

/// A resolution as the mouse stores it: a count of steps. Zero means that the
/// entry is disabled.
#[derive(Clone, Copy, Debug, PartialEq, Eq, Structural)]
pub struct Dpi(pub u8);

impl Dpi {
    /// The DPI that this value reads as.
    pub open spec fn spec_to_human(self) -> u16 {
        (self.0 * DPI_STEP) as u16
    }

    /// Whether a DPI can be stored: a whole number of steps, 255 at most.
    pub open spec fn representable(dpi: u16) -> bool {
        dpi % DPI_STEP == 0 && dpi / DPI_STEP <= 255
    }

    /// The stored form of a DPI, or the range error that carries it.
    pub open spec fn spec_from_human(dpi: u16) -> Result<Dpi, CodecError> {
        if Dpi::representable(dpi) {
            Ok(Dpi((dpi / DPI_STEP) as u8))
        } else {
            Err(CodecError::Range { value: dpi })
        }
    }

    /// The DPI that this value reads as: the wire byte times the step.
    #[verifier::when_used_as_spec(spec_to_human)]
    pub fn to_human(self) -> (dpi: u16)
        ensures
            dpi == self.spec_to_human(),
            dpi == self.0 * 50,
    {
        let steps: u16 = self.0 as u16;
        steps * DPI_STEP
    }

    /// Stores a DPI. A value that is not a multiple of the step, or that is
    /// above [`DPI_MAX`], is rejected; nothing is rounded.
    pub fn from_human(dpi: u16) -> (r: Result<Dpi, CodecError>)
        ensures
            r == Dpi::spec_from_human(dpi),
            r is Ok <==> dpi % 50 == 0 && dpi <= DPI_MAX,
    {
        if dpi % DPI_STEP != 0 || dpi / DPI_STEP > 255 {
            Err(CodecError::Range { value: dpi })
        } else {
            Ok(Dpi((dpi / DPI_STEP) as u8))
        }
    }

    /// Reading a stored value and storing it again gives the same byte.
    pub proof fn lemma_human_round_trip(self)
        ensures
            Dpi::spec_from_human(self.spec_to_human()) == Ok::<Dpi, CodecError>(self),
            self.spec_to_human() == self.0 * 50,
    {
    }

    /// A DPI that can be stored is read back unchanged.
    pub proof fn lemma_wire_round_trip(dpi: u16)
        requires
            Dpi::representable(dpi),
        ensures
            Dpi::spec_from_human(dpi) matches Ok(d) && d.spec_to_human() == dpi,
    {
    }
}

} // verus!
