//! One button mapping: what the button does, the modifiers held with it, and
//! a key code. Three bytes on the wire; in an editable document each part is
//! left out while it has its default.

use vstd::prelude::*;

use crate::action::ButtonAction;
use crate::error::CodecError;
use crate::modifier::{Modifier, Modifiers};

verus! {

/// The number of bytes that a button mapping takes on the wire.
pub const BUTTON_SIZE: usize = 3;

/// One button mapping.
#[derive(Clone, Copy, Debug, PartialEq, Eq, Structural)]
pub struct Button {
    pub action: ButtonAction,
    pub modifiers: Modifiers,
    /// The key code that is sent when the action is a keystroke. Zero is no key.
    pub key: u8,
}

/// A button mapping as an editable document holds it. A part that is `None`
/// stands for its default: the keystroke action, no modifiers, no key.
#[derive(Clone, Debug, PartialEq, Eq)]
pub struct HumanButton {
    pub action: Option<ButtonAction>,
    pub modifiers: Option<Vec<Modifier>>,
    pub key: Option<u8>,
}

/// The mathematical content of a [`HumanButton`].
pub struct HumanButtonView {
    pub action: Option<ButtonAction>,
    pub modifiers: Option<Seq<Modifier>>,
    pub key: Option<u8>,
}

impl View for HumanButton {
    type V = HumanButtonView;

    open spec fn view(&self) -> HumanButtonView {
        HumanButtonView {
            action: self.action,
            modifiers: match self.modifiers {
                Some(list) => Some(list@),
                None => None,
            },
            key: self.key,
        }
    }
}

impl HumanButtonView {
    /// Whether the mapping is written the way [`Button::to_human`] writes it:
    /// no part holds its default, and the modifiers are named once each, in
    /// the order of declaration.
    pub open spec fn sparse(self) -> bool {
        &&& self.action != Some(ButtonAction::Key)
        &&& self.modifiers matches Some(list) ==> list.len() > 0 && Modifiers::strictly_ordered(
            list,
        )
        &&& self.key != Some(0u8)
    }
}

impl Button {
    /// The wire form: action code, modifier bits, key code.
    pub open spec fn wire(self) -> Seq<u8> {
        seq![self.action.spec_code(), self.modifiers.bits, self.key]
    }

    /// The mapping that three wire bytes hold, or the error for an action
    /// byte that is not assigned. The other two bytes are always accepted.
    pub open spec fn spec_decode(bytes: Seq<u8>) -> Result<Button, CodecError> {
        match ButtonAction::spec_from_code(bytes[0]) {
            Some(action) => Ok(
                Button { action, modifiers: Modifiers { bits: bytes[1] }, key: bytes[2] },
            ),
            None => Err(CodecError::UnknownAction { code: bytes[0] }),
        }
    }

    /// The editable form: each part that has its default is left out.
    pub open spec fn spec_to_human(self) -> HumanButtonView {
        HumanButtonView {
            action: if self.action == ButtonAction::Key {
                None
            } else {
                Some(self.action)
            },
            modifiers: if self.modifiers.bits == 0 {
                None
            } else {
                Some(self.modifiers.ordered())
            },
            key: if self.key == 0 {
                None
            } else {
                Some(self.key)
            },
        }
    }

    /// The mapping that an editable form stands for: each part that is left
    /// out gets its default.
    pub open spec fn spec_from_human(h: HumanButtonView) -> Button {
        Button {
            action: match h.action {
                Some(action) => action,
                None => ButtonAction::Key,
            },
            modifiers: match h.modifiers {
                Some(list) => Modifiers::of(list),
                None => Modifiers { bits: 0 },
            },
            key: match h.key {
                Some(key) => key,
                None => 0,
            },
        }
    }

    /// The three wire bytes of the mapping.
    pub fn encode(&self) -> (out: [u8; BUTTON_SIZE])
        ensures
            out@ == self.wire(),
    {
        let out: [u8; BUTTON_SIZE] = [self.action.code(), self.modifiers.bits, self.key];
        assert(out@ =~= self.wire());
        out
    }

    /// Reads a mapping from its three wire bytes. It fails only on an action
    /// byte that is not assigned.
    pub fn decode(bytes: &[u8; BUTTON_SIZE]) -> (r: Result<Button, CodecError>)
        ensures
            r == Button::spec_decode(bytes@),
            r matches Ok(b) ==> b.wire() == bytes@,
    {
        match ButtonAction::from_code(bytes[0]) {
            Ok(action) => {
                let b = Button { action, modifiers: Modifiers { bits: bytes[1] }, key: bytes[2] };
                proof {
                    ButtonAction::lemma_from_code_inverse(bytes[0]);
                    assert(b.wire() =~= bytes@);
                }
                Ok(b)
            },
            Err(e) => Err(e),
        }
    }

    /// Writes the mapping for an editable document, leaving out each part
    /// that has its default.
    pub fn to_human(&self) -> (h: HumanButton)
        ensures
            h@ == self.spec_to_human(),
            h@.sparse(),
    {
        let action = if self.action.is_default() {
            None
        } else {
            Some(self.action)
        };
        let modifiers = if self.modifiers.is_empty() {
            None
        } else {
            Some(self.modifiers.to_list())
        };
        let key = if self.key == 0 {
            None
        } else {
            Some(self.key)
        };
        proof {
            self.lemma_human_round_trip();
        }
        HumanButton { action, modifiers, key }
    }

    /// Reads a mapping from an editable document, filling each part that was
    /// left out with its default. A part may also be given with its default.
    pub fn from_human(h: &HumanButton) -> (b: Button)
        ensures
            b == Button::spec_from_human(h@),
    {
        let action = match h.action {
            Some(action) => action,
            None => ButtonAction::Key,
        };
        let modifiers = match &h.modifiers {
            Some(list) => Modifiers::from_list(list.as_slice()),
            None => Modifiers::empty(),
        };
        let key = match h.key {
            Some(key) => key,
            None => 0,
        };
        Button { action, modifiers, key }
    }

    /// A mapping survives the wire.
    pub proof fn lemma_wire_round_trip(self)
        ensures
            self.wire().len() == BUTTON_SIZE,
            Button::spec_decode(self.wire()) == Ok::<Button, CodecError>(self),
    {
        self.action.lemma_code_round_trip();
    }

    /// Three bytes that decode are the wire form of what they decode to.
    pub proof fn lemma_decode_inverse(bytes: Seq<u8>)
        requires
            bytes.len() == BUTTON_SIZE,
        ensures
            Button::spec_decode(bytes) matches Ok(b) ==> b.wire() == bytes,
    {
        ButtonAction::lemma_from_code_inverse(bytes[0]);
        if let Ok(b) = Button::spec_decode(bytes) {
            assert(b.wire() =~= bytes);
        }
    }

    /// The editable form of a mapping is sparse and stands for that mapping.
    pub proof fn lemma_human_round_trip(self)
        ensures
            self.spec_to_human().sparse(),
            Button::spec_from_human(self.spec_to_human()) == self,
    {
        self.modifiers.lemma_list_round_trip();
        self.modifiers.lemma_empty();
    }

    /// A sparse editable form is written again exactly as it was read.
    pub proof fn lemma_sparse_round_trip(h: HumanButtonView)
        requires
            h.sparse(),
        ensures
            Button::spec_from_human(h).spec_to_human() == h,
    {
        let b = Button::spec_from_human(h);
        match h.modifiers {
            Some(list) => {
                Modifiers::lemma_ordered_canonical(list);
                b.modifiers.lemma_empty();
            },
            None => {},
        }
    }
}

impl Default for Button {
    /// The mapping that does nothing: a keystroke without modifiers or key.
    fn default() -> (b: Button)
        ensures
            b == (Button { action: ButtonAction::Key, modifiers: Modifiers { bits: 0 }, key: 0 }),
    {
        Button { action: ButtonAction::Key, modifiers: Modifiers { bits: 0 }, key: 0 }
    }
}

} // verus!
