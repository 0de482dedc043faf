//! The LED effect and the report rate: two small enumerations, one byte each
//! on the wire.

use vstd::prelude::*;

use crate::error::CodecError;

verus! {

/// How the LED behaves.
#[derive(Clone, Copy, Debug, PartialEq, Eq, Structural)]
pub enum LedEffect {
    Solid,
    Breath,
    Cycle,
}

impl LedEffect {
    /// The wire byte of an effect.
    pub open spec fn spec_code(self) -> u8 {
        match self {
            LedEffect::Solid => 0,
            LedEffect::Breath => 1,
            LedEffect::Cycle => 2,
        }
    }

    /// The effect that a wire byte stands for, if any.
    pub open spec fn spec_from_code(code: u8) -> Option<LedEffect> {
        if code == 0 {
            Some(LedEffect::Solid)
        } else if code == 1 {
            Some(LedEffect::Breath)
        } else if code == 2 {
            Some(LedEffect::Cycle)
        } else {
            None
        }
    }

    /// The wire byte of the effect.
    #[verifier::when_used_as_spec(spec_code)]
    pub fn code(self) -> (c: u8)
        ensures
            c == self.spec_code(),
    {
        match self {
            LedEffect::Solid => 0,
            LedEffect::Breath => 1,
            LedEffect::Cycle => 2,
        }
    }

    /// Decodes a wire byte; a byte outside the table is an error that carries it.
    pub fn from_code(code: u8) -> (r: Result<LedEffect, CodecError>)
        ensures
            r == match LedEffect::spec_from_code(code) {
                Some(e) => Ok::<LedEffect, CodecError>(e),
                None => Err(CodecError::UnknownLedEffect { code }),
            },
    {
        match code {
            0 => Ok(LedEffect::Solid),
            1 => Ok(LedEffect::Breath),
            2 => Ok(LedEffect::Cycle),
            _ => Err(CodecError::UnknownLedEffect { code }),
        }
    }

    /// Every effect is found again under its own code.
    pub proof fn lemma_code_round_trip(self)
        ensures
            LedEffect::spec_from_code(self.spec_code()) == Some(self),
    {
    }

    /// A byte that decodes is the code of the effect it decodes to.
    pub proof fn lemma_from_code_inverse(code: u8)
        ensures
            LedEffect::spec_from_code(code) matches Some(e) ==> e.spec_code() == code,
    {
    }
}

/// How often the mouse reports, in reports per second.
#[derive(Clone, Copy, Debug, PartialEq, Eq, Structural)]
pub enum ReportRate {
    Hz1000,
    Hz500,
    Hz333,
    Hz250,
    Hz200,
    Hz166,
    Hz142,
    Hz125,
}

impl ReportRate {
    /// The wire byte of a rate.
    pub open spec fn spec_code(self) -> u8 {
        match self {
            ReportRate::Hz1000 => 0,
            ReportRate::Hz500 => 1,
            ReportRate::Hz333 => 2,
            ReportRate::Hz250 => 3,
            ReportRate::Hz200 => 4,
            ReportRate::Hz166 => 5,
            ReportRate::Hz142 => 6,
            ReportRate::Hz125 => 7,
        }
    }

    /// The rate that a wire byte stands for, if any.
    pub open spec fn spec_from_code(code: u8) -> Option<ReportRate> {
        if code == 0 {
            Some(ReportRate::Hz1000)
        } else if code == 1 {
            Some(ReportRate::Hz500)
        } else if code == 2 {
            Some(ReportRate::Hz333)
        } else if code == 3 {
            Some(ReportRate::Hz250)
        } else if code == 4 {
            Some(ReportRate::Hz200)
        } else if code == 5 {
            Some(ReportRate::Hz166)
        } else if code == 6 {
            Some(ReportRate::Hz142)
        } else if code == 7 {
            Some(ReportRate::Hz125)
        } else {
            None
        }
    }

    /// The wire byte of the rate.
    #[verifier::when_used_as_spec(spec_code)]
    pub fn code(self) -> (c: u8)
        ensures
            c == self.spec_code(),
    {
        match self {
            ReportRate::Hz1000 => 0,
            ReportRate::Hz500 => 1,
            ReportRate::Hz333 => 2,
            ReportRate::Hz250 => 3,
            ReportRate::Hz200 => 4,
            ReportRate::Hz166 => 5,
            ReportRate::Hz142 => 6,
            ReportRate::Hz125 => 7,
        }
    }

    /// Decodes a wire byte; a byte outside the table is an error that carries it.
    pub fn from_code(code: u8) -> (r: Result<ReportRate, CodecError>)
        ensures
            r == match ReportRate::spec_from_code(code) {
                Some(e) => Ok::<ReportRate, CodecError>(e),
                None => Err(CodecError::UnknownReportRate { code }),
            },
    {
        match code {
            0 => Ok(ReportRate::Hz1000),
            1 => Ok(ReportRate::Hz500),
            2 => Ok(ReportRate::Hz333),
            3 => Ok(ReportRate::Hz250),
            4 => Ok(ReportRate::Hz200),
            5 => Ok(ReportRate::Hz166),
            6 => Ok(ReportRate::Hz142),
            7 => Ok(ReportRate::Hz125),
            _ => Err(CodecError::UnknownReportRate { code }),
        }
    }

    /// Every rate is found again under its own code.
    pub proof fn lemma_code_round_trip(self)
        ensures
            ReportRate::spec_from_code(self.spec_code()) == Some(self),
    {
    }

    /// A byte that decodes is the code of the rate it decodes to.
    pub proof fn lemma_from_code_inverse(code: u8)
        ensures
            ReportRate::spec_from_code(code) matches Some(e) ==> e.spec_code() == code,
    {
    }
}

} // verus!
