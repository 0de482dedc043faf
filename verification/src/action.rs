//! The action that a button performs, and its one-byte wire code.

use vstd::prelude::*;

use crate::error::CodecError;

verus! {

/// The number of actions that the code table assigns.
pub const NUM_ACTIONS: u8 = 29;

/// What a button does when it is pressed.
///
/// The wire codes follow the device's own numbering, which is written out in
/// [`ButtonAction::spec_code`]: the DPI block starts at `0x11`, and the block
/// that `GShift` opens at `0x17`.
#[derive(Clone, Copy, Debug, PartialEq, Eq, Structural)]
pub enum ButtonAction {
    /// An ordinary keystroke: the key code, with the modifiers held.
    Key,
    LeftClick,
    RightClick,
    WheelClick,
    WheelLeft,
    WheelRight,
    M10,
    M11,
    M12,
    M13,
    M14,
    M15,
    M16,
    M17,
    M18,
    M19,
    M20,
    /// Steps through the DPI table upwards and stops at its last entry.
    DPIUp,
    /// Steps through the DPI table downwards and stops at its first entry.
    DPIDown,
    /// Steps through the DPI table upwards and wraps around.
    DPICycle,
    /// Switches to the next profile.
    ProfileCycle,
    /// Applies the shift DPI while the button is held.
    DPIShift,
    /// Goes back to the default entry of the DPI table.
    DPIDefault,
    /// Activates the second layer of button mappings while the button is held.
    GShift,
    /// Same effect as `M11`.
    M11a,
    /// Same effect as `M12`.
    M12a,
    X1A,
    X1B,
    X1C,
}

impl ButtonAction {
    /// The wire byte of an action.
    pub open spec fn spec_code(self) -> u8 {
        match self {
            ButtonAction::Key => 0x00,
            ButtonAction::LeftClick => 0x01,
            ButtonAction::RightClick => 0x02,
            ButtonAction::WheelClick => 0x03,
            ButtonAction::WheelLeft => 0x04,
            ButtonAction::WheelRight => 0x05,
            ButtonAction::M10 => 0x06,
            ButtonAction::M11 => 0x07,
            ButtonAction::M12 => 0x08,
            ButtonAction::M13 => 0x09,
            ButtonAction::M14 => 0x0A,
            ButtonAction::M15 => 0x0B,
            ButtonAction::M16 => 0x0C,
            ButtonAction::M17 => 0x0D,
            ButtonAction::M18 => 0x0E,
            ButtonAction::M19 => 0x0F,
            ButtonAction::M20 => 0x10,
            ButtonAction::DPIUp => 0x11,
            ButtonAction::DPIDown => 0x12,
            ButtonAction::DPICycle => 0x13,
            ButtonAction::ProfileCycle => 0x14,
            ButtonAction::DPIShift => 0x15,
            ButtonAction::DPIDefault => 0x16,
            ButtonAction::GShift => 0x17,
            ButtonAction::M11a => 0x18,
            ButtonAction::M12a => 0x19,
            ButtonAction::X1A => 0x1A,
            ButtonAction::X1B => 0x1B,
            ButtonAction::X1C => 0x1C,
        }
    }

    /// The action that a wire byte stands for, if any.
    pub open spec fn spec_from_code(code: u8) -> Option<ButtonAction> {
        match code {
            0x00 => Some(ButtonAction::Key),
            0x01 => Some(ButtonAction::LeftClick),
            0x02 => Some(ButtonAction::RightClick),
            0x03 => Some(ButtonAction::WheelClick),
            0x04 => Some(ButtonAction::WheelLeft),
            0x05 => Some(ButtonAction::WheelRight),
            0x06 => Some(ButtonAction::M10),
            0x07 => Some(ButtonAction::M11),
            0x08 => Some(ButtonAction::M12),
            0x09 => Some(ButtonAction::M13),
            0x0A => Some(ButtonAction::M14),
            0x0B => Some(ButtonAction::M15),
            0x0C => Some(ButtonAction::M16),
            0x0D => Some(ButtonAction::M17),
            0x0E => Some(ButtonAction::M18),
            0x0F => Some(ButtonAction::M19),
            0x10 => Some(ButtonAction::M20),
            0x11 => Some(ButtonAction::DPIUp),
            0x12 => Some(ButtonAction::DPIDown),
            0x13 => Some(ButtonAction::DPICycle),
            0x14 => Some(ButtonAction::ProfileCycle),
            0x15 => Some(ButtonAction::DPIShift),
            0x16 => Some(ButtonAction::DPIDefault),
            0x17 => Some(ButtonAction::GShift),
            0x18 => Some(ButtonAction::M11a),
            0x19 => Some(ButtonAction::M12a),
            0x1A => Some(ButtonAction::X1A),
            0x1B => Some(ButtonAction::X1B),
            0x1C => Some(ButtonAction::X1C),
            _ => None,
        }
    }

    /// The action that an editable document leaves out.
    pub open spec fn spec_is_default(&self) -> bool {
        *self == ButtonAction::Key
    }

    /// Whether this is the action that an editable document leaves out.
    #[verifier::when_used_as_spec(spec_is_default)]
    pub fn is_default(&self) -> (b: bool)
        ensures
            b == self.spec_is_default(),
    {
        matches!(*self, ButtonAction::Key)
    }

    /// The wire byte of the action.
    #[verifier::when_used_as_spec(spec_code)]
    pub fn code(self) -> (c: u8)
        ensures
            c == self.spec_code(),
    {
        match self {
            ButtonAction::Key => 0x00,
            ButtonAction::LeftClick => 0x01,
            ButtonAction::RightClick => 0x02,
            ButtonAction::WheelClick => 0x03,
            ButtonAction::WheelLeft => 0x04,
            ButtonAction::WheelRight => 0x05,
            ButtonAction::M10 => 0x06,
            ButtonAction::M11 => 0x07,
            ButtonAction::M12 => 0x08,
            ButtonAction::M13 => 0x09,
            ButtonAction::M14 => 0x0A,
            ButtonAction::M15 => 0x0B,
            ButtonAction::M16 => 0x0C,
            ButtonAction::M17 => 0x0D,
            ButtonAction::M18 => 0x0E,
            ButtonAction::M19 => 0x0F,
            ButtonAction::M20 => 0x10,
            ButtonAction::DPIUp => 0x11,
            ButtonAction::DPIDown => 0x12,
            ButtonAction::DPICycle => 0x13,
            ButtonAction::ProfileCycle => 0x14,
            ButtonAction::DPIShift => 0x15,
            ButtonAction::DPIDefault => 0x16,
            ButtonAction::GShift => 0x17,
            ButtonAction::M11a => 0x18,
            ButtonAction::M12a => 0x19,
            ButtonAction::X1A => 0x1A,
            ButtonAction::X1B => 0x1B,
            ButtonAction::X1C => 0x1C,
        }
    }

    /// Decodes a wire byte. A byte that the table does not assign is reported
    /// with the byte itself; it is never replaced by the default action.
    pub fn from_code(code: u8) -> (r: Result<ButtonAction, CodecError>)
        ensures
            r == match ButtonAction::spec_from_code(code) {
                Some(a) => Ok::<ButtonAction, CodecError>(a),
                None => Err(CodecError::UnknownAction { code }),
            },
    {
        match code {
            0x00 => Ok(ButtonAction::Key),
            0x01 => Ok(ButtonAction::LeftClick),
            0x02 => Ok(ButtonAction::RightClick),
            0x03 => Ok(ButtonAction::WheelClick),
            0x04 => Ok(ButtonAction::WheelLeft),
            0x05 => Ok(ButtonAction::WheelRight),
            0x06 => Ok(ButtonAction::M10),
            0x07 => Ok(ButtonAction::M11),
            0x08 => Ok(ButtonAction::M12),
            0x09 => Ok(ButtonAction::M13),
            0x0A => Ok(ButtonAction::M14),
            0x0B => Ok(ButtonAction::M15),
            0x0C => Ok(ButtonAction::M16),
            0x0D => Ok(ButtonAction::M17),
            0x0E => Ok(ButtonAction::M18),
            0x0F => Ok(ButtonAction::M19),
            0x10 => Ok(ButtonAction::M20),
            0x11 => Ok(ButtonAction::DPIUp),
            0x12 => Ok(ButtonAction::DPIDown),
            0x13 => Ok(ButtonAction::DPICycle),
            0x14 => Ok(ButtonAction::ProfileCycle),
            0x15 => Ok(ButtonAction::DPIShift),
            0x16 => Ok(ButtonAction::DPIDefault),
            0x17 => Ok(ButtonAction::GShift),
            0x18 => Ok(ButtonAction::M11a),
            0x19 => Ok(ButtonAction::M12a),
            0x1A => Ok(ButtonAction::X1A),
            0x1B => Ok(ButtonAction::X1B),
            0x1C => Ok(ButtonAction::X1C),
            _ => Err(CodecError::UnknownAction { code }),
        }
    }

    /// Every action is found again under its own code.
    pub proof fn lemma_code_round_trip(self)
        ensures
            ButtonAction::spec_from_code(self.spec_code()) == Some(self),
    {
    }

    /// A byte that decodes is the code of the action it decodes to, and the
    /// assigned bytes are exactly those below [`NUM_ACTIONS`].
    pub proof fn lemma_from_code_inverse(code: u8)
        ensures
            ButtonAction::spec_from_code(code) matches Some(a) ==> a.spec_code() == code,
            ButtonAction::spec_from_code(code) is Some <==> code < NUM_ACTIONS,
    {
    }
}

impl Default for ButtonAction {
    /// The ordinary keystroke.
    fn default() -> (a: ButtonAction)
        ensures
            a == ButtonAction::Key,
    {
        ButtonAction::Key
    }
}

} // verus!
