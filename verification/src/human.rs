//! The editable form of a profile: what a person reads and changes.
//!
//! It leaves out what only the device needs, writes colours as hexadecimal
//! digits and resolutions in DPI, and writes each button sparsely.

use vstd::prelude::*;

use crate::action::ButtonAction;
use crate::button::{Button, HumanButton, HumanButtonView};
use crate::color::Color;
use crate::dpi::Dpi;
use crate::error::CodecError;
use crate::led::{LedEffect, ReportRate};
use crate::modifier::Modifiers;
use crate::profile::{Profile, ProfileView};
use crate::profile::{NUM_BUTTONS, NUM_DPI, UNKNOWN1_SIZE, UNKNOWN2_SIZE};

verus! {

/// A profile as an editable document holds it.
///
/// The identifier and the two reserved ranges have no place in it. Colours
/// are six hexadecimal digits, resolutions are in DPI, and each button is
/// written sparsely.
#[derive(Clone, Debug, PartialEq, Eq)]
pub struct HumanProfile {
    pub led_color: String,
    pub led_effect: LedEffect,
    pub led_duration: u8,
    pub report_rate: ReportRate,
    pub dpi_shift: u16,
    pub dpi_default: u8,
    pub dpis: [u16; NUM_DPI],
    pub buttons: Vec<HumanButton>,
    pub g_led_color: String,
    pub g_buttons: Vec<HumanButton>,
}

/// The mathematical content of a [`HumanProfile`].
#[verifier::ext_equal]
pub struct HumanProfileView {
    pub led_color: Seq<char>,
    pub led_effect: LedEffect,
    pub led_duration: u8,
    pub report_rate: ReportRate,
    pub dpi_shift: u16,
    pub dpi_default: u8,
    pub dpis: Seq<u16>,
    pub buttons: Seq<HumanButtonView>,
    pub g_led_color: Seq<char>,
    pub g_buttons: Seq<HumanButtonView>,
}

/// The content of a list of editable button mappings.
pub open spec fn human_buttons_view(list: Seq<HumanButton>) -> Seq<HumanButtonView> {
    Seq::new(list.len(), |i: int| list[i]@)
}

impl View for HumanProfile {
    type V = HumanProfileView;

    open spec fn view(&self) -> HumanProfileView {
        HumanProfileView {
            led_color: self.led_color@,
            led_effect: self.led_effect,
            led_duration: self.led_duration,
            report_rate: self.report_rate,
            dpi_shift: self.dpi_shift,
            dpi_default: self.dpi_default,
            dpis: self.dpis@,
            buttons: human_buttons_view(self.buttons@),
            g_led_color: self.g_led_color@,
            g_buttons: human_buttons_view(self.g_buttons@),
        }
    }
}

/// The error of the first of `count` table entries that cannot be stored, if
/// there is one.
pub open spec fn dpis_error(dpis: Seq<u16>, count: nat) -> Option<CodecError>
    decreases count,
{
    if count == 0 {
        None
    } else {
        match dpis_error(dpis, (count - 1) as nat) {
            Some(e) => Some(e),
            None => match Dpi::spec_from_human(dpis[count - 1]) {
                Ok(_) => None,
                Err(e) => Some(e),
            },
        }
    }
}

impl HumanProfileView {
    /// Whether the document is written the way [`Profile::to_human`] writes
    /// it: colours in upper case, resolutions that can be stored, twenty
    /// sparse buttons in each layer.
    pub open spec fn canonical(self) -> bool {
        &&& Color::canonical_hex(self.led_color)
        &&& Color::canonical_hex(self.g_led_color)
        &&& Dpi::representable(self.dpi_shift)
        &&& self.dpis.len() == NUM_DPI
        &&& forall|i: int| 0 <= i < NUM_DPI ==> Dpi::representable(#[trigger] self.dpis[i])
        &&& self.buttons.len() == NUM_BUTTONS
        &&& forall|i: int| 0 <= i < NUM_BUTTONS ==> (#[trigger] self.buttons[i]).sparse()
        &&& self.g_buttons.len() == NUM_BUTTONS
        &&& forall|i: int| 0 <= i < NUM_BUTTONS ==> (#[trigger] self.g_buttons[i]).sparse()
    }

    /// Whether the second layer agrees with the first about the G-shift
    /// buttons, so that carrying the action over will change nothing.
    pub open spec fn gshift_consistent(self) -> bool {
        forall|i: int|
            0 <= i < self.buttons.len() && (#[trigger] self.buttons[i]).action == Some(
                ButtonAction::GShift,
            ) ==> self.g_buttons[i].action == Some(ButtonAction::GShift)
    }
}

impl ProfileView {
    /// The profile with the fields that an editable document does not hold
    /// set to zero: the identifier and the two reserved ranges.
    pub open spec fn without_wire_only(self) -> ProfileView {
        ProfileView {
            id: 0,
            unknown1: Seq::new(UNKNOWN1_SIZE as nat, |i: int| 0u8),
            unknown2: Seq::new(UNKNOWN2_SIZE as nat, |i: int| 0u8),
            ..self
        }
    }

    /// The editable form of a profile.
    pub open spec fn spec_to_human(self) -> HumanProfileView {
        HumanProfileView {
            led_color: self.led_color.spec_to_hex(),
            led_effect: self.led_effect,
            led_duration: self.led_duration,
            report_rate: self.report_rate,
            dpi_shift: self.dpi_shift.spec_to_human(),
            dpi_default: self.dpi_default,
            dpis: Seq::new(self.dpis.len(), |i: int| self.dpis[i].spec_to_human()),
            buttons: Seq::new(self.buttons.len(), |i: int| self.buttons[i].spec_to_human()),
            g_led_color: self.g_led_color.spec_to_hex(),
            g_buttons: Seq::new(self.g_buttons.len(), |i: int| self.g_buttons[i].spec_to_human()),
        }
    }

    /// The profile that an editable document stands for, or the first reason
    /// why it stands for none, in the order of the fields: a colour that is
    /// not six hexadecimal digits, a resolution that cannot be stored, a
    /// layer that does not have twenty buttons. The fields that the document
    /// does not hold are zero.
    #[verifier::opaque]
    pub open spec fn spec_from_human(h: HumanProfileView) -> Result<ProfileView, CodecError> {
        if let Err(e) = Color::spec_from_hex(h.led_color) {
            Err(e)
        } else if let Err(e) = Dpi::spec_from_human(h.dpi_shift) {
            Err(e)
        } else if let Some(e) = dpis_error(h.dpis, NUM_DPI as nat) {
            Err(e)
        } else if h.buttons.len() != NUM_BUTTONS {
            Err(CodecError::Size { expected: NUM_BUTTONS, actual: h.buttons.len() as usize })
        } else if let Err(e) = Color::spec_from_hex(h.g_led_color) {
            Err(e)
        } else if h.g_buttons.len() != NUM_BUTTONS {
            Err(CodecError::Size { expected: NUM_BUTTONS, actual: h.g_buttons.len() as usize })
        } else {
            Ok(
                ProfileView {
                    id: 0,
                    led_color: Color::spec_from_hex(h.led_color).unwrap(),
                    led_effect: h.led_effect,
                    led_duration: h.led_duration,
                    unknown1: Seq::new(UNKNOWN1_SIZE as nat, |i: int| 0u8),
                    report_rate: h.report_rate,
                    dpi_shift: Dpi::spec_from_human(h.dpi_shift).unwrap(),
                    dpi_default: h.dpi_default,
                    dpis: Seq::new(
                        NUM_DPI as nat,
                        |i: int| Dpi::spec_from_human(h.dpis[i]).unwrap(),
                    ),
                    unknown2: Seq::new(UNKNOWN2_SIZE as nat, |i: int| 0u8),
                    buttons: Seq::new(
                        NUM_BUTTONS as nat,
                        |i: int| Button::spec_from_human(h.buttons[i]),
                    ),
                    g_led_color: Color::spec_from_hex(h.g_led_color).unwrap(),
                    g_buttons: Seq::new(
                        NUM_BUTTONS as nat,
                        |i: int| Button::spec_from_human(h.g_buttons[i]),
                    ),
                },
            )
        }
    }

    /// The editable form of a profile is canonical, and stands for that
    /// profile but for the fields that it does not hold.
    pub proof fn lemma_human_round_trip(self)
        requires
            self.wf(),
        ensures
            self.spec_to_human().canonical(),
            ProfileView::spec_from_human(self.spec_to_human()) == Ok::<ProfileView, CodecError>(
                self.without_wire_only(),
            ),
    {
        reveal(ProfileView::spec_from_human);
        let h = self.spec_to_human();
        self.led_color.lemma_hex_round_trip();
        self.g_led_color.lemma_hex_round_trip();
        self.dpi_shift.lemma_human_round_trip();
        assert forall|i: int| 0 <= i < NUM_DPI implies Dpi::representable(#[trigger] h.dpis[i])
            && Dpi::spec_from_human(h.dpis[i]) == Ok::<Dpi, CodecError>(self.dpis[i]) by {
            self.dpis[i].lemma_human_round_trip();
        }
        assert forall|i: int| 0 <= i < NUM_BUTTONS implies (#[trigger] h.buttons[i]).sparse()
            && Button::spec_from_human(h.buttons[i]) == self.buttons[i] by {
            self.buttons[i].lemma_human_round_trip();
        }
        assert forall|i: int| 0 <= i < NUM_BUTTONS implies (#[trigger] h.g_buttons[i]).sparse()
            && Button::spec_from_human(h.g_buttons[i]) == self.g_buttons[i] by {
            self.g_buttons[i].lemma_human_round_trip();
        }
        lemma_dpis_error_none(h.dpis, NUM_DPI as nat);
        let p = ProfileView::spec_from_human(h).unwrap();
        let q = self.without_wire_only();
        assert(p.dpis =~= q.dpis);
        assert(p.buttons =~= q.buttons);
        assert(p.g_buttons =~= q.g_buttons);
        assert(p =~= q);
    }

    /// What is read from an editable document is well-formed.
    pub proof fn lemma_from_human_wf(h: HumanProfileView)
        ensures
            ProfileView::spec_from_human(h) matches Ok(p) ==> p.wf(),
    {
        reveal(ProfileView::spec_from_human);
    }

    /// A canonical document is read, survives the wire, and is written again
    /// exactly as it was.
    pub proof fn lemma_canonical_round_trip(h: HumanProfileView)
        requires
            h.canonical(),
        ensures
            ProfileView::spec_from_human(h) matches Ok(p) && p.wf() && ProfileView::spec_decode(
                p.wire(),
            ) == Ok::<ProfileView, CodecError>(p) && p.spec_to_human() == h,
    {
        reveal(ProfileView::spec_from_human);
        Color::lemma_canonical_hex_round_trip(h.led_color);
        Color::lemma_canonical_hex_round_trip(h.g_led_color);
        Dpi::lemma_wire_round_trip(h.dpi_shift);
        assert forall|i: int| 0 <= i < NUM_DPI implies (#[trigger] Dpi::spec_from_human(
            h.dpis[i],
        )) is Ok by {
            assert(Dpi::representable(h.dpis[i]));
        }
        lemma_dpis_error_none(h.dpis, NUM_DPI as nat);
        let p = ProfileView::spec_from_human(h).unwrap();
        p.lemma_wire_round_trip();
        let back = p.spec_to_human();
        assert forall|i: int| 0 <= i < NUM_DPI implies back.dpis[i] == h.dpis[i] by {
            assert(Dpi::representable(h.dpis[i]));
            Dpi::lemma_wire_round_trip(h.dpis[i]);
        }
        assert forall|i: int| 0 <= i < NUM_BUTTONS implies back.buttons[i] == h.buttons[i] by {
            assert(h.buttons[i].sparse());
            Button::lemma_sparse_round_trip(h.buttons[i]);
        }
        assert forall|i: int| 0 <= i < NUM_BUTTONS implies back.g_buttons[i]
            == h.g_buttons[i] by {
            assert(h.g_buttons[i].sparse());
            Button::lemma_sparse_round_trip(h.g_buttons[i]);
        }
        assert(back.dpis =~= h.dpis);
        assert(back.buttons =~= h.buttons);
        assert(back.g_buttons =~= h.g_buttons);
        assert(back =~= h);
    }

    /// A canonical document whose layers agree about the G-shift buttons is
    /// read, given an identifier, made consistent, carried over the wire,
    /// and written again exactly as it was.
    pub proof fn lemma_prepared_round_trip(h: HumanProfileView, id: u8)
        requires
            h.canonical(),
            h.gshift_consistent(),
        ensures
            ProfileView::spec_from_human(h) matches Ok(p) && ({
                let sent = p.with_id(id).propagated();
                &&& sent.wf()
                &&& sent.id == id
                &&& ProfileView::spec_decode(sent.wire()) == Ok::<ProfileView, CodecError>(sent)
                &&& sent.spec_to_human() == h
            }),
    {
        ProfileView::lemma_canonical_round_trip(h);
        reveal(ProfileView::spec_from_human);
        let p = ProfileView::spec_from_human(h).unwrap();
        let q = p.with_id(id);
        assert forall|i: int|
            0 <= i < q.buttons.len() && (#[trigger] q.buttons[i]).action
                == ButtonAction::GShift implies q.g_buttons[i].action == ButtonAction::GShift by {
            assert(h.buttons[i].sparse());
            assert(h.buttons[i].action == Some(ButtonAction::GShift));
        }
        q.lemma_propagate_consistent();
        q.lemma_wire_round_trip();
        assert(q.spec_to_human() =~= p.spec_to_human());
    }
}

/// Once a table entry cannot be stored, looking at further entries does not
/// change the error.
pub proof fn lemma_dpis_error_stable(dpis: Seq<u16>, found: nat, count: nat)
    requires
        found <= count,
        dpis_error(dpis, found) is Some,
    ensures
        dpis_error(dpis, count) == dpis_error(dpis, found),
    decreases count,
{
    if found < count {
        lemma_dpis_error_stable(dpis, found, (count - 1) as nat);
    }
}

/// No error is found among `count` table entries exactly where each of them
/// can be stored.
pub proof fn lemma_dpis_error_none(dpis: Seq<u16>, count: nat)
    ensures
        dpis_error(dpis, count) is None <==> forall|i: int|
            0 <= i < count ==> (#[trigger] Dpi::spec_from_human(dpis[i])) is Ok,
    decreases count,
{
    if count > 0 {
        lemma_dpis_error_none(dpis, (count - 1) as nat);
        if dpis_error(dpis, count) is Some {
            if dpis_error(dpis, (count - 1) as nat) is None {
                assert(Dpi::spec_from_human(dpis[count - 1]) is Err);
            }
        }
    }
}

/// Stores the four entries of a DPI table, and stops at the first entry that
/// cannot be stored.
fn table_from_human(table: &[u16; NUM_DPI]) -> (r: Result<[Dpi; NUM_DPI], CodecError>)
    ensures
        match dpis_error(table@, NUM_DPI as nat) {
            Some(e) => r == Err::<[Dpi; NUM_DPI], CodecError>(e),
            None => r is Ok && r.unwrap()@ == Seq::new(
                NUM_DPI as nat,
                |i: int| Dpi::spec_from_human(table@[i]).unwrap(),
            ),
        },
{
    let mut dpis = [Dpi(0); NUM_DPI];
    let mut k: usize = 0;
    while k < NUM_DPI
        invariant
            k <= NUM_DPI,
            dpis_error(table@, k as nat) is None,
            forall|j: int|
                0 <= j < k ==> Dpi::spec_from_human(table@[j]) == Ok::<Dpi, CodecError>(dpis@[j]),
        decreases NUM_DPI - k,
    {
        match Dpi::from_human(table[k]) {
            Ok(dpi) => {
                dpis[k] = dpi;
            },
            Err(e) => {
                proof {
                    assert(dpis_error(table@, (k + 1) as nat) == Some(e));
                    lemma_dpis_error_stable(table@, (k + 1) as nat, NUM_DPI as nat);
                }
                return Err(e);
            },
        }
        k += 1;
    }
    assert(dpis@ =~= Seq::new(NUM_DPI as nat, |i: int| Dpi::spec_from_human(table@[i]).unwrap()));
    Ok(dpis)
}

/// Writes each button of a layer for an editable document.
fn layer_to_human(buttons: &[Button; NUM_BUTTONS]) -> (list: Vec<HumanButton>)
    ensures
        human_buttons_view(list@) == Seq::new(
            NUM_BUTTONS as nat,
            |i: int| buttons@[i].spec_to_human(),
        ),
{
    let mut list: Vec<HumanButton> = Vec::new();
    let mut i: usize = 0;
    while i < NUM_BUTTONS
        invariant
            i <= NUM_BUTTONS,
            list@.len() == i,
            forall|j: int| 0 <= j < i ==> (#[trigger] list@[j])@ == buttons@[j].spec_to_human(),
        decreases NUM_BUTTONS - i,
    {
        list.push(buttons[i].to_human());
        i += 1;
    }
    assert(human_buttons_view(list@) =~= Seq::new(
        NUM_BUTTONS as nat,
        |i: int| buttons@[i].spec_to_human(),
    ));
    list
}

/// Reads the twenty buttons of a layer from an editable document.
fn layer_from_human(list: &Vec<HumanButton>) -> (buttons: [Button; NUM_BUTTONS])
    requires
        list@.len() == NUM_BUTTONS,
    ensures
        buttons@ == Seq::new(
            NUM_BUTTONS as nat,
            |i: int| Button::spec_from_human(human_buttons_view(list@)[i]),
        ),
{
    let blank = Button { action: ButtonAction::Key, modifiers: Modifiers { bits: 0 }, key: 0 };
    let mut buttons = [blank; NUM_BUTTONS];
    let mut i: usize = 0;
    while i < NUM_BUTTONS
        invariant
            i <= NUM_BUTTONS,
            list@.len() == NUM_BUTTONS,
            forall|j: int| 0 <= j < i ==> buttons@[j] == Button::spec_from_human(list@[j]@),
        decreases NUM_BUTTONS - i,
    {
        buttons[i] = Button::from_human(&list[i]);
        i += 1;
    }
    assert(buttons@ =~= Seq::new(
        NUM_BUTTONS as nat,
        |i: int| Button::spec_from_human(human_buttons_view(list@)[i]),
    ));
    buttons
}

impl Profile {
    /// Writes the profile for an editable document. The identifier and the
    /// two reserved ranges are not part of it.
    pub fn to_human(&self) -> (h: HumanProfile)
        ensures
            h@ == self@.spec_to_human(),
            h@.canonical(),
    {
        let mut dpis = [0u16; NUM_DPI];
        let mut k: usize = 0;
        while k < NUM_DPI
            invariant
                k <= NUM_DPI,
                forall|j: int| 0 <= j < k ==> dpis@[j] == self.dpis@[j].spec_to_human(),
            decreases NUM_DPI - k,
        {
            dpis[k] = self.dpis[k].to_human();
            k += 1;
        }
        let h = HumanProfile {
            led_color: self.led_color.to_hex(),
            led_effect: self.led_effect,
            led_duration: self.led_duration,
            report_rate: self.report_rate,
            dpi_shift: self.dpi_shift.to_human(),
            dpi_default: self.dpi_default,
            dpis,
            buttons: layer_to_human(&self.buttons),
            g_led_color: self.g_led_color.to_hex(),
            g_buttons: layer_to_human(&self.g_buttons),
        };
        proof {
            assert(h@.dpis =~= self@.spec_to_human().dpis);
            assert(h@ =~= self@.spec_to_human());
            self@.lemma_human_round_trip();
        }
        h
    }

    /// Reads a profile from an editable document.
    ///
    /// The identifier and the two reserved ranges come out as zero: the
    /// identifier is assigned by the collection. The first field that cannot
    /// be read decides the error: a colour that is not six hexadecimal
    /// digits, a resolution that is not a multiple of fifty or is too large,
    /// a layer that does not have twenty buttons.
    pub fn from_human(h: &HumanProfile) -> (r: Result<Profile, CodecError>)
        ensures
            Profile::result_view(r) == ProfileView::spec_from_human(h@),
    {
        reveal(ProfileView::spec_from_human);
        let led_color = match Color::from_hex(h.led_color.as_str()) {
            Ok(color) => color,
            Err(e) => {
                return Err(e);
            },
        };
        let dpi_shift = match Dpi::from_human(h.dpi_shift) {
            Ok(dpi) => dpi,
            Err(e) => {
                return Err(e);
            },
        };
        let dpis = match table_from_human(&h.dpis) {
            Ok(dpis) => dpis,
            Err(e) => {
                return Err(e);
            },
        };
        if h.buttons.len() != NUM_BUTTONS {
            return Err(CodecError::Size { expected: NUM_BUTTONS, actual: h.buttons.len() });
        }
        let g_led_color = match Color::from_hex(h.g_led_color.as_str()) {
            Ok(color) => color,
            Err(e) => {
                return Err(e);
            },
        };
        if h.g_buttons.len() != NUM_BUTTONS {
            return Err(CodecError::Size { expected: NUM_BUTTONS, actual: h.g_buttons.len() });
        }
        let p = Profile {
            id: 0,
            led_color,
            led_effect: h.led_effect,
            led_duration: h.led_duration,
            unknown1: [0u8; UNKNOWN1_SIZE],
            report_rate: h.report_rate,
            dpi_shift,
            dpi_default: h.dpi_default,
            dpis,
            unknown2: [0u8; UNKNOWN2_SIZE],
            buttons: layer_from_human(&h.buttons),
            g_led_color,
            g_buttons: layer_from_human(&h.g_buttons),
        };
        proof {
            let v = ProfileView::spec_from_human(h@).unwrap();
            assert(p@.unknown1 =~= v.unknown1);
            assert(p@.unknown2 =~= v.unknown2);
            assert(p@.dpis =~= v.dpis);
            assert(p@.buttons =~= v.buttons);
            assert(p@.g_buttons =~= v.g_buttons);
            assert(p@ =~= v);
        }
        Ok(p)
    }
}

} // verus!
