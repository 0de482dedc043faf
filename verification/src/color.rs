//! LED colours: three bytes on the wire, six hexadecimal digits in an
//! editable document.

use vstd::prelude::*;

use crate::error::CodecError;
use crate::hexstr::{decode_triple, encode_upper, hex_bytes, is_hex, is_upper_hex, upper_hex};
use crate::hexstr::{lemma_hex_round_trip, lemma_upper_hex_canonical};

verus! {

/// The number of bytes that a colour takes on the wire.
pub const COLOR_SIZE: usize = 3;

/// An LED colour.
#[derive(Clone, Copy, Debug, PartialEq, Eq, Structural)]
pub struct Color {
    pub red: u8,
    pub green: u8,
    pub blue: u8,
}

impl Color {
    /// The wire form: red, green, blue.
    pub open spec fn wire(self) -> Seq<u8> {
        seq![self.red, self.green, self.blue]
    }

    /// The colour that three wire bytes hold.
    pub open spec fn spec_from_wire(bytes: Seq<u8>) -> Color {
        Color { red: bytes[0], green: bytes[1], blue: bytes[2] }
    }

    /// The text form: six upper-case hexadecimal digits, no separators.
    pub open spec fn spec_to_hex(self) -> Seq<char> {
        upper_hex(self.wire())
    }

    /// The colour that a text spells: six hexadecimal digits, of either case.
    pub open spec fn spec_from_hex(text: Seq<char>) -> Result<Color, CodecError> {
        if text.len() == 6 && is_hex(text) {
            Ok(Color::spec_from_wire(hex_bytes(text)))
        } else {
            Err(CodecError::InvalidColor)
        }
    }

    /// Whether a text is one that [`Color::to_hex`] writes.
    pub open spec fn canonical_hex(text: Seq<char>) -> bool {
        text.len() == 6 && is_upper_hex(text)
    }

    /// The three wire bytes.
    pub fn to_bytes(&self) -> (out: [u8; COLOR_SIZE])
        ensures
            out@ == self.wire(),
    {
        let out: [u8; COLOR_SIZE] = [self.red, self.green, self.blue];
        assert(out@ =~= self.wire());
        out
    }

    /// The colour that three wire bytes hold. Every triple is a colour.
    pub fn from_bytes(bytes: &[u8; COLOR_SIZE]) -> (c: Color)
        ensures
            c == Color::spec_from_wire(bytes@),
            c.wire() == bytes@,
    {
        let c = Color { red: bytes[0], green: bytes[1], blue: bytes[2] };
        assert(c.wire() =~= bytes@);
        c
    }

    /// Writes the colour as six upper-case hexadecimal digits.
    pub fn to_hex(&self) -> (text: String)
        ensures
            text@ == self.spec_to_hex(),
            Color::canonical_hex(text@),
    {
        let bytes = self.to_bytes();
        proof {
            lemma_hex_round_trip(self.wire());
        }
        encode_upper(bytes.as_slice())
    }

    /// Reads a colour from six hexadecimal digits. Both cases are accepted;
    /// any other text is rejected.
    pub fn from_hex(text: &str) -> (r: Result<Color, CodecError>)
        ensures
            r == Color::spec_from_hex(text@),
    {
        match decode_triple(text) {
            Ok(bytes) => Ok(Color::from_bytes(&bytes)),
            Err(_) => Err(CodecError::InvalidColor),
        }
    }

    /// A colour survives the wire.
    pub proof fn lemma_wire_round_trip(self)
        ensures
            self.wire().len() == COLOR_SIZE,
            Color::spec_from_wire(self.wire()) == self,
    {
    }

    /// A colour is read back from the text that was written for it.
    pub proof fn lemma_hex_round_trip(self)
        ensures
            Color::canonical_hex(self.spec_to_hex()),
            Color::spec_from_hex(self.spec_to_hex()) == Ok::<Color, CodecError>(self),
    {
        lemma_hex_round_trip(self.wire());
    }

    /// Six upper-case digits are written again exactly as they were read.
    pub proof fn lemma_canonical_hex_round_trip(text: Seq<char>)
        requires
            Color::canonical_hex(text),
        ensures
            Color::spec_from_hex(text) matches Ok(c) && c.spec_to_hex() == text,
    {
        lemma_upper_hex_canonical(text);
        let c = Color::spec_from_wire(hex_bytes(text));
        assert(c.wire() =~= hex_bytes(text));
    }
}

} // verus!
