//! The control value that reports and selects the active profile and
//! resolution: four bytes under a report identifier of its own.

use vstd::prelude::*;
use vstd::string::StringExecFns;

verus! {

/// The report identifier of the control value.
pub const ACTIVE_PROFILE_REPORT_ID: u8 = 0xF0;

/// The number of bytes that the control value takes on the wire.
pub const ACTIVE_PROFILE_SIZE: usize = 4;

/// The flag that asks the device to switch to the profile in the profile field.
pub const SET_PROFILE: u8 = 0x80;

/// The flag that asks the device to switch to the resolution in the resolution field.
pub const SET_RESOLUTION: u8 = 0x40;

/// The control value.
///
/// The info byte holds, from the highest bit down: the set-profile flag, the
/// set-resolution flag, two bits of profile index, one unused bit, two bits
/// of resolution index, one unused bit. In a value that was read from the
/// device the two flags mean nothing.
#[derive(Clone, Copy, Debug, PartialEq, Eq, Structural)]
pub struct ActiveProfile {
    pub id: u8,
    pub info: u8,
    pub unused: u16,
}

/// The decimal digit of a field of two bits.
pub open spec fn index_digit(index: u8) -> char {
    (index + 0x30) as char
}

/// The digit of an index, as a text of one character.
fn digit_text(index: u8) -> (text: &'static str)
    requires
        index < 4,
    ensures
        text@ == seq![index_digit(index)],
{
    proof {
        reveal_strlit("0");
        reveal_strlit("1");
        reveal_strlit("2");
        reveal_strlit("3");
    }
    let text = match index {
        0 => "0",
        1 => "1",
        2 => "2",
        _ => "3",
    };
    assert(text@ =~= seq![index_digit(index)]);
    text
}

impl ActiveProfile {
    /// The profile index: bits 5 and 4 of the info byte.
    pub open spec fn spec_profile(&self) -> u8 {
        (self.info >> 4) & 3
    }

    /// The resolution index: bits 2 and 1 of the info byte.
    pub open spec fn spec_resolution(&self) -> u8 {
        (self.info >> 1) & 3
    }

    /// The wire form: identifier, info byte, and the two unused bytes, low
    /// byte first.
    pub open spec fn wire(self) -> Seq<u8> {
        seq![self.id, self.info, (self.unused & 0xFF) as u8, (self.unused >> 8) as u8]
    }

    /// The text that shows the two indices of a value.
    pub open spec fn spec_to_string(&self) -> Seq<char> {
        "ActiveProfile { profile: "@ + seq![index_digit(self.spec_profile())] + ", resolution: "@
            + seq![index_digit(self.spec_resolution())] + " }"@
    }

    /// The index of the active profile. The flags and the unused bits play
    /// no part.
    #[verifier::when_used_as_spec(spec_profile)]
    pub fn profile(&self) -> (index: u8)
        ensures
            index == self.spec_profile(),
            index < 4,
    {
        let info = self.info;
        assert((info >> 4) & 3 < 4) by (bit_vector);
        (self.info >> 4) & 3
    }

    /// The index of the active resolution. The flags and the unused bits
    /// play no part.
    #[verifier::when_used_as_spec(spec_resolution)]
    pub fn resolution(&self) -> (index: u8)
        ensures
            index == self.spec_resolution(),
            index < 4,
    {
        let info = self.info;
        assert((info >> 1) & 3 < 4) by (bit_vector);
        (self.info >> 1) & 3
    }

    /// The request to make a profile the active one: the set-profile flag,
    /// the index in the profile field, and nothing else. An index above
    /// three is cut to its two low bits; none is rejected.
    pub fn profile_request(id: u8, profile: u8) -> (request: ActiveProfile)
        ensures
            request.id == id,
            request.info == SET_PROFILE | ((profile & 3) << 4),
            request.unused == 0,
            request.spec_profile() == profile & 3,
            request.spec_resolution() == 0,
            request.info & SET_PROFILE == SET_PROFILE,
            request.info & SET_RESOLUTION == 0,
            profile < 4 ==> request.spec_profile() == profile && request.info == 0x80 + 16
                * profile,
    {
        let field: u8 = profile & 3;
        let info: u8 = SET_PROFILE | (field << 4);
        assert(field == profile & 3u8 && info == 0x80u8 | (field << 4) ==> (info >> 4) & 3 == profile
            & 3 && (info >> 1) & 3 == 0 && info & 0x80 == 0x80 && info & 0x40 == 0 && (profile < 4
            ==> (info >> 4) & 3 == profile && info == 0x80 + 16 * profile)) by (bit_vector);
        ActiveProfile { id, info, unused: 0 }
    }

    /// The request to make a resolution the active one: the set-resolution
    /// flag, the index in the resolution field, and nothing else. An index
    /// above three is cut to its two low bits; none is rejected.
    pub fn resolution_request(id: u8, resolution: u8) -> (request: ActiveProfile)
        ensures
            request.id == id,
            request.info == SET_RESOLUTION | ((resolution & 3) << 1),
            request.unused == 0,
            request.spec_resolution() == resolution & 3,
            request.spec_profile() == 0,
            request.info & SET_RESOLUTION == SET_RESOLUTION,
            request.info & SET_PROFILE == 0,
            resolution < 4 ==> request.spec_resolution() == resolution && request.info == 0x40 + 2
                * resolution,
    {
        let field: u8 = resolution & 3;
        let info: u8 = SET_RESOLUTION | (field << 1);
        assert(field == resolution & 3u8 && info == 0x40u8 | (field << 1) ==> (info >> 1) & 3
            == resolution & 3 && (info >> 4) & 3 == 0 && info & 0x40 == 0x40 && info & 0x80 == 0
            && (resolution < 4 ==> (info >> 1) & 3 == resolution && info == 0x40 + 2
            * resolution)) by (bit_vector);
        ActiveProfile { id, info, unused: 0 }
    }

    /// The control value that four wire bytes hold. Every four bytes are one.
    pub fn from_bytes(bytes: &[u8; ACTIVE_PROFILE_SIZE]) -> (value: ActiveProfile)
        ensures
            value.id == bytes@[0],
            value.info == bytes@[1],
            value.wire() == bytes@,
    {
        let low: u16 = bytes[2] as u16;
        let high: u16 = bytes[3] as u16;
        let unused: u16 = low | (high << 8);
        assert(unused == low | (high << 8) && low < 256 && high < 256 ==> (unused & 0xFF) == low
            && (unused >> 8) == high) by (bit_vector);
        let value = ActiveProfile { id: bytes[0], info: bytes[1], unused };
        assert(value.wire() =~= bytes@);
        value
    }

    /// The four wire bytes of the control value.
    pub fn to_bytes(&self) -> (out: [u8; ACTIVE_PROFILE_SIZE])
        ensures
            out@ == self.wire(),
    {
        let unused = self.unused;
        assert((unused & 0xFF) < 256 && (unused >> 8) < 256) by (bit_vector);
        let out: [u8; ACTIVE_PROFILE_SIZE] = [
            self.id,
            self.info,
            (self.unused & 0xFF) as u8,
            (self.unused >> 8) as u8,
        ];
        assert(out@ =~= self.wire());
        out
    }

    /// Shows the two indices, as in `ActiveProfile { profile: 1, resolution: 2 }`.
    #[allow(clippy::inherent_to_string)]
    pub fn to_string(&self) -> (text: String)
        ensures
            text@ == self.spec_to_string(),
    {
        let mut text = String::from_str("ActiveProfile { profile: ");
        text.append(digit_text(self.profile()));
        text.append(", resolution: ");
        text.append(digit_text(self.resolution()));
        text.append(" }");
        assert(text@ =~= self.spec_to_string());
        text
    }
}

} // verus!
