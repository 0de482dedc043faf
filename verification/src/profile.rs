//! One profile: a complete configuration of the mouse, 154 bytes on the wire.

use vstd::prelude::*;

use crate::action::ButtonAction;
use crate::button::{Button, BUTTON_SIZE};
use crate::color::{Color, COLOR_SIZE};
use crate::dpi::Dpi;
use crate::error::CodecError;
use crate::led::{LedEffect, ReportRate};
use crate::modifier::Modifiers;

verus! {

/// The number of buttons in each of the two layers.
pub const NUM_BUTTONS: usize = 20;

/// The number of entries in the DPI table.
pub const NUM_DPI: usize = 4;

/// The number of bytes that a profile takes on the wire.
pub const PROFILE_SIZE: usize = 154;

/// The length of the first reserved range.
pub const UNKNOWN1_SIZE: usize = 5;

/// The length of the second reserved range.
pub const UNKNOWN2_SIZE: usize = 13;

/// The offset of the report identifier. The fields of the wire record
/// follow one another without padding, in the order of these offsets.
pub const OFFSET_ID: usize = 0;

/// The offset of the LED colour: three bytes.
pub const OFFSET_LED_COLOR: usize = 1;

/// The offset of the LED effect.
pub const OFFSET_LED_EFFECT: usize = 4;

/// The offset of the LED duration.
pub const OFFSET_LED_DURATION: usize = 5;

/// The offset of the first reserved range: five bytes.
pub const OFFSET_UNKNOWN1: usize = 6;

/// The offset of the report rate.
pub const OFFSET_REPORT_RATE: usize = 11;

/// The offset of the shift DPI.
pub const OFFSET_DPI_SHIFT: usize = 12;

/// The offset of the default entry of the DPI table.
pub const OFFSET_DPI_DEFAULT: usize = 13;

/// The offset of the DPI table: four bytes.
pub const OFFSET_DPIS: usize = 14;

/// The offset of the second reserved range: thirteen bytes.
pub const OFFSET_UNKNOWN2: usize = 18;

/// The offset of the first layer: twenty buttons of three bytes.
pub const OFFSET_BUTTONS: usize = 31;

/// The offset of the LED colour of the second layer: three bytes.
pub const OFFSET_G_LED_COLOR: usize = 91;

/// The offset of the second layer: twenty buttons of three bytes.
pub const OFFSET_G_BUTTONS: usize = 94;

/// One complete configuration of the mouse.
///
/// The two reserved ranges have no known meaning. They are carried through
/// unchanged and never interpreted.
#[derive(Clone, Copy, Debug, PartialEq, Eq)]
pub struct Profile {
    /// The report identifier under which the device keeps this profile.
    pub id: u8,
    pub led_color: Color,
    pub led_effect: LedEffect,
    /// The period of the LED effect, in seconds.
    pub led_duration: u8,
    pub unknown1: [u8; UNKNOWN1_SIZE],
    pub report_rate: ReportRate,
    /// The resolution while a DPI-shift button is held.
    pub dpi_shift: Dpi,
    /// The entry of the DPI table that is active at first, counted from one.
    pub dpi_default: u8,
    pub dpis: [Dpi; NUM_DPI],
    pub unknown2: [u8; UNKNOWN2_SIZE],
    pub buttons: [Button; NUM_BUTTONS],
    /// The LED colour while the second layer is active.
    pub g_led_color: Color,
    /// The second layer: the mapping of each button while a G-shift button is held.
    pub g_buttons: [Button; NUM_BUTTONS],
}

/// The mathematical content of a [`Profile`].
#[verifier::ext_equal]
pub struct ProfileView {
    pub id: u8,
    pub led_color: Color,
    pub led_effect: LedEffect,
    pub led_duration: u8,
    pub unknown1: Seq<u8>,
    pub report_rate: ReportRate,
    pub dpi_shift: Dpi,
    pub dpi_default: u8,
    pub dpis: Seq<Dpi>,
    pub unknown2: Seq<u8>,
    pub buttons: Seq<Button>,
    pub g_led_color: Color,
    pub g_buttons: Seq<Button>,
}

impl View for Profile {
    type V = ProfileView;

    open spec fn view(&self) -> ProfileView {
        ProfileView {
            id: self.id,
            led_color: self.led_color,
            led_effect: self.led_effect,
            led_duration: self.led_duration,
            unknown1: self.unknown1@,
            report_rate: self.report_rate,
            dpi_shift: self.dpi_shift,
            dpi_default: self.dpi_default,
            dpis: self.dpis@,
            unknown2: self.unknown2@,
            buttons: self.buttons@,
            g_led_color: self.g_led_color,
            g_buttons: self.g_buttons@,
        }
    }
}

/// The three wire bytes of the button slot `index` in a layer that starts at `base`.
pub open spec fn button_slot(bytes: Seq<u8>, base: int, index: int) -> Seq<u8> {
    bytes.subrange(base + BUTTON_SIZE * index, base + BUTTON_SIZE * index + BUTTON_SIZE)
}

/// The byte at place `k` of a layer on the wire: the buttons one after
/// another, three bytes each.
pub open spec fn layer_byte(buttons: Seq<Button>, k: int) -> u8 {
    buttons[k / BUTTON_SIZE as int].wire()[k % BUTTON_SIZE as int]
}

/// The error of the first of `count` button slots that does not decode, if
/// there is one.
pub open spec fn buttons_error(bytes: Seq<u8>, base: int, count: nat) -> Option<CodecError>
    decreases count,
{
    if count == 0 {
        None
    } else {
        match buttons_error(bytes, base, (count - 1) as nat) {
            Some(e) => Some(e),
            None => match Button::spec_decode(button_slot(bytes, base, count - 1)) {
                Ok(_) => None,
                Err(e) => Some(e),
            },
        }
    }
}

/// The buttons of a layer that starts at `base`, where every slot decodes.
pub open spec fn buttons_at(bytes: Seq<u8>, base: int) -> Seq<Button> {
    Seq::new(
        NUM_BUTTONS as nat,
        |i: int| Button::spec_decode(button_slot(bytes, base, i)).unwrap(),
    )
}

impl ProfileView {
    /// Every list has the length that the record fixes.
    pub open spec fn wf(self) -> bool {
        &&& self.unknown1.len() == UNKNOWN1_SIZE
        &&& self.dpis.len() == NUM_DPI
        &&& self.unknown2.len() == UNKNOWN2_SIZE
        &&& self.buttons.len() == NUM_BUTTONS
        &&& self.g_buttons.len() == NUM_BUTTONS
    }

    /// The byte at an offset of the wire record: the layout, field by field.
    pub open spec fn wire_byte(self, i: int) -> u8 {
        if i < OFFSET_LED_COLOR {
            self.id
        } else if i < OFFSET_LED_EFFECT {
            self.led_color.wire()[i - OFFSET_LED_COLOR]
        } else if i < OFFSET_LED_DURATION {
            self.led_effect.spec_code()
        } else if i < OFFSET_UNKNOWN1 {
            self.led_duration
        } else if i < OFFSET_REPORT_RATE {
            self.unknown1[i - OFFSET_UNKNOWN1]
        } else if i < OFFSET_DPI_SHIFT {
            self.report_rate.spec_code()
        } else if i < OFFSET_DPI_DEFAULT {
            self.dpi_shift.0
        } else if i < OFFSET_DPIS {
            self.dpi_default
        } else if i < OFFSET_UNKNOWN2 {
            self.dpis[i - OFFSET_DPIS].0
        } else if i < OFFSET_BUTTONS {
            self.unknown2[i - OFFSET_UNKNOWN2]
        } else if i < OFFSET_G_LED_COLOR {
            layer_byte(self.buttons, i - OFFSET_BUTTONS)
        } else if i < OFFSET_G_BUTTONS {
            self.g_led_color.wire()[i - OFFSET_G_LED_COLOR]
        } else {
            layer_byte(self.g_buttons, i - OFFSET_G_BUTTONS)
        }
    }

    /// The wire record of a profile.
    pub open spec fn wire(self) -> Seq<u8> {
        Seq::new(PROFILE_SIZE as nat, |i: int| self.wire_byte(i))
    }

    /// The profile that a wire record holds, or the first reason why it holds
    /// none: a wrong length, then, in the order of the layout, a byte that
    /// its enumeration does not assign.
    #[verifier::opaque]
    pub open spec fn spec_decode(bytes: Seq<u8>) -> Result<ProfileView, CodecError> {
        if bytes.len() != PROFILE_SIZE {
            Err(CodecError::Size { expected: PROFILE_SIZE, actual: bytes.len() as usize })
        } else if LedEffect::spec_from_code(bytes[OFFSET_LED_EFFECT as int]) is None {
            Err(CodecError::UnknownLedEffect { code: bytes[OFFSET_LED_EFFECT as int] })
        } else if ReportRate::spec_from_code(bytes[OFFSET_REPORT_RATE as int]) is None {
            Err(CodecError::UnknownReportRate { code: bytes[OFFSET_REPORT_RATE as int] })
        } else if let Some(e) = buttons_error(bytes, OFFSET_BUTTONS as int, NUM_BUTTONS as nat) {
            Err(e)
        } else if let Some(e) = buttons_error(bytes, OFFSET_G_BUTTONS as int, NUM_BUTTONS as nat) {
            Err(e)
        } else {
            Ok(
                ProfileView {
                    id: bytes[OFFSET_ID as int],
                    led_color: Color::spec_from_wire(
                        bytes.subrange(OFFSET_LED_COLOR as int, OFFSET_LED_EFFECT as int),
                    ),
                    led_effect: LedEffect::spec_from_code(bytes[OFFSET_LED_EFFECT as int]).unwrap(),
                    led_duration: bytes[OFFSET_LED_DURATION as int],
                    unknown1: bytes.subrange(OFFSET_UNKNOWN1 as int, OFFSET_REPORT_RATE as int),
                    report_rate: ReportRate::spec_from_code(
                        bytes[OFFSET_REPORT_RATE as int],
                    ).unwrap(),
                    dpi_shift: Dpi(bytes[OFFSET_DPI_SHIFT as int]),
                    dpi_default: bytes[OFFSET_DPI_DEFAULT as int],
                    dpis: Seq::new(NUM_DPI as nat, |i: int| Dpi(bytes[OFFSET_DPIS + i])),
                    unknown2: bytes.subrange(OFFSET_UNKNOWN2 as int, OFFSET_BUTTONS as int),
                    buttons: buttons_at(bytes, OFFSET_BUTTONS as int),
                    g_led_color: Color::spec_from_wire(
                        bytes.subrange(OFFSET_G_LED_COLOR as int, OFFSET_G_BUTTONS as int),
                    ),
                    g_buttons: buttons_at(bytes, OFFSET_G_BUTTONS as int),
                },
            )
        }
    }

    /// The same profile under another identifier.
    pub open spec fn with_id(self, id: u8) -> ProfileView {
        ProfileView { id, ..self }
    }

    /// Whether the second layer agrees with the first about the G-shift
    /// buttons: a button that activates the layer must stay what it is while
    /// the layer is active.
    pub open spec fn gshift_consistent(self) -> bool {
        forall|i: int|
            0 <= i < self.buttons.len() && (#[trigger] self.buttons[i]).action
                == ButtonAction::GShift ==> self.g_buttons[i].action == ButtonAction::GShift
    }

    /// The profile after the G-shift action has been carried over: wherever
    /// a button of the first layer is a G-shift button, the button at the
    /// same place in the second layer has that action too. Nothing else
    /// changes.
    pub open spec fn propagated(self) -> ProfileView {
        ProfileView {
            g_buttons: Seq::new(
                self.g_buttons.len(),
                |i: int|
                    if self.buttons[i].action == ButtonAction::GShift {
                        Button { action: ButtonAction::GShift, ..self.g_buttons[i] }
                    } else {
                        self.g_buttons[i]
                    },
            ),
            ..self
        }
    }

    /// A record that decodes is the wire record of the profile it decodes to.
    pub proof fn lemma_decode_inverse(bytes: Seq<u8>)
        ensures
            ProfileView::spec_decode(bytes) matches Ok(p) ==> p.wf() && p.wire() == bytes,
    {
        reveal(ProfileView::spec_decode);
        if let Ok(p) = ProfileView::spec_decode(bytes) {
            LedEffect::lemma_from_code_inverse(bytes[OFFSET_LED_EFFECT as int]);
            ReportRate::lemma_from_code_inverse(bytes[OFFSET_REPORT_RATE as int]);
            lemma_buttons_error_none(bytes, OFFSET_BUTTONS as int, NUM_BUTTONS as nat);
            lemma_buttons_error_none(bytes, OFFSET_G_BUTTONS as int, NUM_BUTTONS as nat);
            assert forall|i: int| 0 <= i < PROFILE_SIZE implies p.wire_byte(i) == bytes[i] by {
                if OFFSET_BUTTONS <= i < OFFSET_G_LED_COLOR {
                    let k = (i - OFFSET_BUTTONS) / BUTTON_SIZE as int;
                    let slot = button_slot(bytes, OFFSET_BUTTONS as int, k);
                    Button::lemma_decode_inverse(slot);
                    assert(Button::spec_decode(slot) is Ok);
                    assert(slot[(i - OFFSET_BUTTONS) % BUTTON_SIZE as int] == bytes[i]);
                } else if OFFSET_G_BUTTONS <= i {
                    let k = (i - OFFSET_G_BUTTONS) / BUTTON_SIZE as int;
                    let slot = button_slot(bytes, OFFSET_G_BUTTONS as int, k);
                    Button::lemma_decode_inverse(slot);
                    assert(Button::spec_decode(slot) is Ok);
                    assert(slot[(i - OFFSET_G_BUTTONS) % BUTTON_SIZE as int] == bytes[i]);
                }
            }
            assert(p.wire() =~= bytes);
        }
    }

    /// Every well-formed profile is read back from its own wire record.
    pub proof fn lemma_wire_round_trip(self)
        requires
            self.wf(),
        ensures
            self.wire().len() == PROFILE_SIZE,
            ProfileView::spec_decode(self.wire()) == Ok::<ProfileView, CodecError>(self),
    {
        reveal(ProfileView::spec_decode);
        let bytes = self.wire();
        self.led_effect.lemma_code_round_trip();
        self.report_rate.lemma_code_round_trip();
        self.lemma_layer_round_trip(NUM_BUTTONS as nat);
        let p = ProfileView::spec_decode(bytes).unwrap();
        assert(p.led_color == self.led_color);
        assert(p.g_led_color == self.g_led_color);
        assert(p.unknown1 =~= self.unknown1);
        assert(p.unknown2 =~= self.unknown2);
        assert(p.dpis =~= self.dpis);
        assert(p.buttons =~= self.buttons);
        assert(p.g_buttons =~= self.g_buttons);
        assert(p =~= self);
    }

    /// In the wire record of a profile, each button slot of both layers
    /// decodes to the button that was written there.
    pub proof fn lemma_layer_round_trip(self, count: nat)
        requires
            self.wf(),
            count <= NUM_BUTTONS,
        ensures
            buttons_error(self.wire(), OFFSET_BUTTONS as int, count) is None,
            buttons_error(self.wire(), OFFSET_G_BUTTONS as int, count) is None,
            forall|i: int|
                0 <= i < NUM_BUTTONS ==> #[trigger] Button::spec_decode(
                    button_slot(self.wire(), OFFSET_BUTTONS as int, i),
                ) == Ok::<Button, CodecError>(self.buttons[i]),
            forall|i: int|
                0 <= i < NUM_BUTTONS ==> #[trigger] Button::spec_decode(
                    button_slot(self.wire(), OFFSET_G_BUTTONS as int, i),
                ) == Ok::<Button, CodecError>(self.g_buttons[i]),
        decreases count,
    {
        let bytes = self.wire();
        assert forall|i: int| 0 <= i < NUM_BUTTONS implies #[trigger] Button::spec_decode(
            button_slot(bytes, OFFSET_BUTTONS as int, i),
        ) == Ok::<Button, CodecError>(self.buttons[i]) by {
            self.buttons[i].lemma_wire_round_trip();
            assert(button_slot(bytes, OFFSET_BUTTONS as int, i) =~= self.buttons[i].wire());
        }
        assert forall|i: int| 0 <= i < NUM_BUTTONS implies #[trigger] Button::spec_decode(
            button_slot(bytes, OFFSET_G_BUTTONS as int, i),
        ) == Ok::<Button, CodecError>(self.g_buttons[i]) by {
            self.g_buttons[i].lemma_wire_round_trip();
            assert(button_slot(bytes, OFFSET_G_BUTTONS as int, i) =~= self.g_buttons[i].wire());
        }
        if count > 0 {
            self.lemma_layer_round_trip((count - 1) as nat);
        }
    }

    /// Carrying the G-shift action over a second time changes nothing, and
    /// what comes out is consistent.
    pub proof fn lemma_propagate_idempotent(self)
        requires
            self.wf(),
        ensures
            self.propagated().wf(),
            self.propagated().gshift_consistent(),
            self.propagated().propagated() == self.propagated(),
    {
        let once = self.propagated();
        let twice = once.propagated();
        assert(twice.g_buttons =~= once.g_buttons);
        assert(twice =~= once);
    }

    /// Carrying the G-shift action over leaves a consistent profile as it is.
    pub proof fn lemma_propagate_consistent(self)
        requires
            self.wf(),
            self.gshift_consistent(),
        ensures
            self.propagated() == self,
    {
        let once = self.propagated();
        assert forall|i: int| 0 <= i < NUM_BUTTONS implies once.g_buttons[i]
            == self.g_buttons[i] by {
            if self.buttons[i].action == ButtonAction::GShift {
                assert(self.g_buttons[i].action == ButtonAction::GShift);
            }
        }
        assert(once.g_buttons =~= self.g_buttons);
        assert(once =~= self);
    }
}

/// Once a button slot fails to decode, looking at further slots does not
/// change the error.
pub proof fn lemma_buttons_error_stable(bytes: Seq<u8>, base: int, found: nat, count: nat)
    requires
        found <= count,
        buttons_error(bytes, base, found) is Some,
    ensures
        buttons_error(bytes, base, count) == buttons_error(bytes, base, found),
    decreases count,
{
    if found < count {
        lemma_buttons_error_stable(bytes, base, found, (count - 1) as nat);
    }
}

/// Where no error is found among `count` slots, each of them decodes.
pub proof fn lemma_buttons_error_none(bytes: Seq<u8>, base: int, count: nat)
    requires
        buttons_error(bytes, base, count) is None,
    ensures
        forall|i: int|
            0 <= i < count ==> (#[trigger] Button::spec_decode(button_slot(bytes, base, i))) is Ok,
    decreases count,
{
    if count > 0 {
        lemma_buttons_error_none(bytes, base, (count - 1) as nat);
    }
}

/// Copies `N` bytes of a buffer, starting at `offset`.
fn read_array<const N: usize>(bytes: &[u8], offset: usize) -> (out: [u8; N])
    requires
        offset + N <= bytes@.len(),
    ensures
        out@ == bytes@.subrange(offset as int, offset + N),
{
    let mut out = [0u8; N];
    let len: usize = bytes.len();
    let mut k: usize = 0;
    while k < N
        invariant
            k <= N,
            offset + N <= bytes@.len() == len,
            forall|j: int| 0 <= j < k ==> out@[j] == bytes@[offset + j],
        decreases N - k,
    {
        out[k] = bytes[offset + k];
        k += 1;
    }
    assert(out@ =~= bytes@.subrange(offset as int, offset + N));
    out
}

/// Decodes the twenty button slots of a layer that starts at `base`, and
/// stops at the first slot that does not decode.
fn read_buttons(bytes: &[u8], base: usize) -> (r: Result<[Button; NUM_BUTTONS], CodecError>)
    requires
        base + NUM_BUTTONS * BUTTON_SIZE <= bytes@.len(),
    ensures
        match buttons_error(bytes@, base as int, NUM_BUTTONS as nat) {
            Some(e) => r == Err::<[Button; NUM_BUTTONS], CodecError>(e),
            None => r is Ok && r.unwrap()@ == buttons_at(bytes@, base as int),
        },
{
    let blank = Button { action: ButtonAction::Key, modifiers: Modifiers { bits: 0 }, key: 0 };
    let mut out = [blank; NUM_BUTTONS];
    let len: usize = bytes.len();
    let mut i: usize = 0;
    while i < NUM_BUTTONS
        invariant
            i <= NUM_BUTTONS,
            base + NUM_BUTTONS * BUTTON_SIZE <= bytes@.len() == len,
            buttons_error(bytes@, base as int, i as nat) is None,
            forall|j: int|
                0 <= j < i ==> out@[j] == Button::spec_decode(
                    button_slot(bytes@, base as int, j),
                ).unwrap(),
        decreases NUM_BUTTONS - i,
    {
        let at: usize = base + BUTTON_SIZE * i;
        let raw: [u8; BUTTON_SIZE] = [bytes[at], bytes[at + 1], bytes[at + 2]];
        assert(raw@ =~= button_slot(bytes@, base as int, i as int));
        match Button::decode(&raw) {
            Ok(b) => {
                out[i] = b;
            },
            Err(e) => {
                proof {
                    assert(buttons_error(bytes@, base as int, (i + 1) as nat) == Some(e));
                    lemma_buttons_error_stable(
                        bytes@,
                        base as int,
                        (i + 1) as nat,
                        NUM_BUTTONS as nat,
                    );
                }
                return Err(e);
            },
        }
        i += 1;
    }
    assert(out@ =~= buttons_at(bytes@, base as int));
    Ok(out)
}

/// Writes a run of bytes into a record at `offset`; the rest of the record stays.
fn write_bytes(out: &mut [u8; PROFILE_SIZE], offset: usize, src: &[u8])
    requires
        offset + src@.len() <= PROFILE_SIZE,
    ensures
        forall|i: int|
            0 <= i < PROFILE_SIZE ==> final(out)@[i] == if offset <= i < offset + src@.len() {
                src@[i - offset]
            } else {
                old(out)@[i]
            },
{
    let mut k: usize = 0;
    while k < src.len()
        invariant
            k <= src@.len(),
            offset + src@.len() <= PROFILE_SIZE,
            forall|i: int|
                0 <= i < PROFILE_SIZE ==> out@[i] == if offset <= i < offset + k {
                    src@[i - offset]
                } else {
                    old(out)@[i]
                },
        decreases src@.len() - k,
    {
        out[offset + k] = src[k];
        k += 1;
    }
}

/// Writes the twenty button slots of a layer into a record at `base`; the
/// rest of the record stays.
fn write_buttons(out: &mut [u8; PROFILE_SIZE], base: usize, buttons: &[Button; NUM_BUTTONS])
    requires
        base + NUM_BUTTONS * BUTTON_SIZE <= PROFILE_SIZE,
    ensures
        forall|i: int|
            0 <= i < PROFILE_SIZE ==> final(out)@[i] == if base <= i < base + NUM_BUTTONS
                * BUTTON_SIZE {
                layer_byte(buttons@, i - base)
            } else {
                old(out)@[i]
            },
{
    let mut k: usize = 0;
    while k < NUM_BUTTONS
        invariant
            k <= NUM_BUTTONS,
            base + NUM_BUTTONS * BUTTON_SIZE <= PROFILE_SIZE,
            forall|i: int|
                0 <= i < PROFILE_SIZE ==> out@[i] == if base <= i < base + BUTTON_SIZE * k {
                    layer_byte(buttons@, i - base)
                } else {
                    old(out)@[i]
                },
        decreases NUM_BUTTONS - k,
    {
        let raw = buttons[k].encode();
        let at: usize = base + BUTTON_SIZE * k;
        out[at] = raw[0];
        out[at + 1] = raw[1];
        out[at + 2] = raw[2];
        k += 1;
    }
}

impl Profile {
    /// The content of a profile is always well-formed, and two profiles with
    /// the same content are the same profile.
    pub proof fn lemma_view(self, other: Profile)
        ensures
            self@.wf(),
            self@ == other@ ==> self == other,
    {
        if self@ == other@ {
            assert(self.unknown1 =~= other.unknown1);
            assert(self.dpis =~= other.dpis);
            assert(self.unknown2 =~= other.unknown2);
            assert(self.buttons =~= other.buttons);
            assert(self.g_buttons =~= other.g_buttons);
        }
    }

    /// A profile of zero bytes and default settings, to fill a collection
    /// before its slots are read.
    pub(crate) fn blank() -> (p: Profile)
        ensures
            p.id == 0,
    {
        let color = Color { red: 0, green: 0, blue: 0 };
        let button = Button { action: ButtonAction::Key, modifiers: Modifiers { bits: 0 }, key: 0 };
        Profile {
            id: 0,
            led_color: color,
            led_effect: LedEffect::Solid,
            led_duration: 0,
            unknown1: [0u8; UNKNOWN1_SIZE],
            report_rate: ReportRate::Hz1000,
            dpi_shift: Dpi(0),
            dpi_default: 0,
            dpis: [Dpi(0); NUM_DPI],
            unknown2: [0u8; UNKNOWN2_SIZE],
            buttons: [button; NUM_BUTTONS],
            g_led_color: color,
            g_buttons: [button; NUM_BUTTONS],
        }
    }

    /// The outcome of a decoding, with the profile taken by its content.
    pub open spec fn result_view(r: Result<Profile, CodecError>) -> Result<
        ProfileView,
        CodecError,
    > {
        match r {
            Ok(p) => Ok(p@),
            Err(e) => Err(e),
        }
    }

    /// Reads a profile from its wire record.
    ///
    /// A buffer of any other length than [`PROFILE_SIZE`] is a size error.
    /// Otherwise each field is read at its offset; the two reserved ranges
    /// are copied as they are. A byte that its enumeration does not assign
    /// is an error, the first one in the order of the layout.
    pub fn decode(bytes: &[u8]) -> (r: Result<Profile, CodecError>)
        ensures
            Profile::result_view(r) == ProfileView::spec_decode(bytes@),
            bytes@.len() != PROFILE_SIZE ==> r == Err::<Profile, CodecError>(
                CodecError::Size { expected: PROFILE_SIZE, actual: bytes@.len() as usize },
            ),
            r matches Ok(p) ==> p@.wire() == bytes@,
    {
        reveal(ProfileView::spec_decode);
        if bytes.len() != PROFILE_SIZE {
            return Err(CodecError::Size { expected: PROFILE_SIZE, actual: bytes.len() });
        }
        let led_effect = match LedEffect::from_code(bytes[OFFSET_LED_EFFECT]) {
            Ok(effect) => effect,
            Err(e) => {
                return Err(e);
            },
        };
        let report_rate = match ReportRate::from_code(bytes[OFFSET_REPORT_RATE]) {
            Ok(rate) => rate,
            Err(e) => {
                return Err(e);
            },
        };
        let buttons = match read_buttons(bytes, OFFSET_BUTTONS) {
            Ok(buttons) => buttons,
            Err(e) => {
                return Err(e);
            },
        };
        let g_buttons = match read_buttons(bytes, OFFSET_G_BUTTONS) {
            Ok(buttons) => buttons,
            Err(e) => {
                return Err(e);
            },
        };
        let led_raw: [u8; COLOR_SIZE] = read_array(bytes, OFFSET_LED_COLOR);
        let g_led_raw: [u8; COLOR_SIZE] = read_array(bytes, OFFSET_G_LED_COLOR);
        let mut dpis = [Dpi(0); NUM_DPI];
        let mut k: usize = 0;
        while k < NUM_DPI
            invariant
                k <= NUM_DPI,
                bytes@.len() == PROFILE_SIZE,
                forall|j: int| 0 <= j < k ==> dpis@[j] == Dpi(bytes@[OFFSET_DPIS + j]),
            decreases NUM_DPI - k,
        {
            dpis[k] = Dpi(bytes[OFFSET_DPIS + k]);
            k += 1;
        }
        let p = Profile {
            id: bytes[OFFSET_ID],
            led_color: Color::from_bytes(&led_raw),
            led_effect,
            led_duration: bytes[OFFSET_LED_DURATION],
            unknown1: read_array(bytes, OFFSET_UNKNOWN1),
            report_rate,
            dpi_shift: Dpi(bytes[OFFSET_DPI_SHIFT]),
            dpi_default: bytes[OFFSET_DPI_DEFAULT],
            dpis,
            unknown2: read_array(bytes, OFFSET_UNKNOWN2),
            buttons,
            g_led_color: Color::from_bytes(&g_led_raw),
            g_buttons,
        };
        proof {
            assert(p@ =~= ProfileView::spec_decode(bytes@).unwrap());
            ProfileView::lemma_decode_inverse(bytes@);
        }
        Ok(p)
    }

    /// Writes the wire record of the profile: always [`PROFILE_SIZE`] bytes.
    /// The identifier is written as the profile holds it.
    pub fn encode(&self) -> (out: [u8; PROFILE_SIZE])
        ensures
            out@ == self@.wire(),
    {
        let mut out = [0u8; PROFILE_SIZE];
        let mut dpis = [0u8; NUM_DPI];
        let mut k: usize = 0;
        while k < NUM_DPI
            invariant
                k <= NUM_DPI,
                forall|j: int| 0 <= j < k ==> dpis@[j] == self.dpis@[j].0,
            decreases NUM_DPI - k,
        {
            dpis[k] = self.dpis[k].0;
            k += 1;
        }
        let led_color = self.led_color.to_bytes();
        let g_led_color = self.g_led_color.to_bytes();
        out[OFFSET_ID] = self.id;
        write_bytes(&mut out, OFFSET_LED_COLOR, led_color.as_slice());
        out[OFFSET_LED_EFFECT] = self.led_effect.code();
        out[OFFSET_LED_DURATION] = self.led_duration;
        write_bytes(&mut out, OFFSET_UNKNOWN1, self.unknown1.as_slice());
        out[OFFSET_REPORT_RATE] = self.report_rate.code();
        out[OFFSET_DPI_SHIFT] = self.dpi_shift.0;
        out[OFFSET_DPI_DEFAULT] = self.dpi_default;
        write_bytes(&mut out, OFFSET_DPIS, dpis.as_slice());
        write_bytes(&mut out, OFFSET_UNKNOWN2, self.unknown2.as_slice());
        write_buttons(&mut out, OFFSET_BUTTONS, &self.buttons);
        write_bytes(&mut out, OFFSET_G_LED_COLOR, g_led_color.as_slice());
        write_buttons(&mut out, OFFSET_G_BUTTONS, &self.g_buttons);
        assert(out@ =~= self@.wire());
        out
    }

    /// Carries the G-shift action over to the second layer: wherever a
    /// button of the first layer is a G-shift button, the button at the same
    /// place in the second layer gets that action, and keeps its modifiers
    /// and its key. Everything else stays as it is.
    ///
    /// A profile that was edited has to go through this before it is written
    /// to the device or to a snapshot. Doing it again changes nothing.
    pub fn propagate_gshift(&mut self)
        ensures
            final(self)@ == old(self)@.propagated(),
            final(self)@.gshift_consistent(),
    {
        let mut g_buttons = self.g_buttons;
        let mut i: usize = 0;
        while i < NUM_BUTTONS
            invariant
                i <= NUM_BUTTONS,
                forall|j: int| 0 <= j < i ==> g_buttons@[j] == self@.propagated().g_buttons[j],
                forall|j: int| i <= j < NUM_BUTTONS ==> g_buttons@[j] == self.g_buttons@[j],
            decreases NUM_BUTTONS - i,
        {
            if matches!(self.buttons[i].action, ButtonAction::GShift) {
                let mut button = g_buttons[i];
                button.action = ButtonAction::GShift;
                g_buttons[i] = button;
            }
            i += 1;
        }
        proof {
            assert(g_buttons@ =~= self@.propagated().g_buttons);
            self@.lemma_propagate_idempotent();
        }
        let ghost before = self@;
        self.g_buttons = g_buttons;
        assert(self@ =~= before.propagated());
    }
}

/// The layout fills the record exactly: each field starts where the one
/// before it ends, and the last one ends at [`PROFILE_SIZE`].
pub proof fn lemma_layout()
    ensures
        OFFSET_LED_COLOR == OFFSET_ID + 1,
        OFFSET_LED_EFFECT == OFFSET_LED_COLOR + COLOR_SIZE,
        OFFSET_LED_DURATION == OFFSET_LED_EFFECT + 1,
        OFFSET_UNKNOWN1 == OFFSET_LED_DURATION + 1,
        OFFSET_REPORT_RATE == OFFSET_UNKNOWN1 + UNKNOWN1_SIZE,
        OFFSET_DPI_SHIFT == OFFSET_REPORT_RATE + 1,
        OFFSET_DPI_DEFAULT == OFFSET_DPI_SHIFT + 1,
        OFFSET_DPIS == OFFSET_DPI_DEFAULT + 1,
        OFFSET_UNKNOWN2 == OFFSET_DPIS + NUM_DPI,
        OFFSET_BUTTONS == OFFSET_UNKNOWN2 + UNKNOWN2_SIZE,
        OFFSET_G_LED_COLOR == OFFSET_BUTTONS + NUM_BUTTONS * BUTTON_SIZE,
        OFFSET_G_BUTTONS == OFFSET_G_LED_COLOR + COLOR_SIZE,
        PROFILE_SIZE == OFFSET_G_BUTTONS + NUM_BUTTONS * BUTTON_SIZE,
{
}

} // verus!
