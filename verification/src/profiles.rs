//! The three profiles that the mouse holds, as one collection. Its wire form
//! is also the form of a snapshot file.

use vstd::prelude::*;

use crate::error::CodecError;
use crate::human::{HumanProfile, HumanProfileView};
use crate::profile::{Profile, ProfileView, PROFILE_SIZE};

verus! {

/// The number of profiles that the mouse holds.
pub const NUM_PROFILES: usize = 3;

/// The number of bytes that the collection takes: the profiles one after
/// another, nothing before, between or after them.
pub const PROFILES_SIZE: usize = NUM_PROFILES * PROFILE_SIZE;

/// The report identifier of each profile slot, in the order of the slots.
pub const PROFILE_REPORT_ID: [u8; NUM_PROFILES] = [0xF3, 0xF4, 0xF5];

/// The profiles of the mouse, in the order of their slots.
#[derive(Clone, Copy, Debug, PartialEq, Eq)]
pub struct Profiles {
    pub profiles: [Profile; NUM_PROFILES],
}

/// The mathematical content of [`Profiles`].
#[verifier::ext_equal]
pub struct ProfilesView {
    pub profiles: Seq<ProfileView>,
}

impl View for Profiles {
    type V = ProfilesView;

    open spec fn view(&self) -> ProfilesView {
        ProfilesView { profiles: Seq::new(NUM_PROFILES as nat, |i: int| self.profiles@[i]@) }
    }
}

/// The profiles as an editable document holds them.
#[derive(Clone, Debug, PartialEq, Eq)]
pub struct HumanProfiles {
    pub profiles: Vec<HumanProfile>,
}

/// The mathematical content of [`HumanProfiles`].
#[verifier::ext_equal]
pub struct HumanProfilesView {
    pub profiles: Seq<HumanProfileView>,
}

impl View for HumanProfiles {
    type V = HumanProfilesView;

    open spec fn view(&self) -> HumanProfilesView {
        HumanProfilesView { profiles: Seq::new(self.profiles@.len(), |i: int| self.profiles@[i]@) }
    }
}

/// The wire record of the profile slot `index` in the bytes of a collection.
pub open spec fn profile_slot(bytes: Seq<u8>, index: int) -> Seq<u8> {
    bytes.subrange(PROFILE_SIZE * index, PROFILE_SIZE * index + PROFILE_SIZE)
}

/// The error of the first of `count` profile slots that does not decode, if
/// there is one.
pub open spec fn slots_error(bytes: Seq<u8>, count: nat) -> Option<CodecError>
    decreases count,
{
    if count == 0 {
        None
    } else {
        match slots_error(bytes, (count - 1) as nat) {
            Some(e) => Some(e),
            None => match ProfileView::spec_decode(profile_slot(bytes, count - 1)) {
                Ok(_) => None,
                Err(e) => Some(e),
            },
        }
    }
}

/// The error of the first of `count` editable profiles that cannot be read,
/// if there is one.
pub open spec fn documents_error(documents: Seq<HumanProfileView>, count: nat) -> Option<
    CodecError,
>
    decreases count,
{
    if count == 0 {
        None
    } else {
        match documents_error(documents, (count - 1) as nat) {
            Some(e) => Some(e),
            None => match ProfileView::spec_from_human(documents[count - 1]) {
                Ok(_) => None,
                Err(e) => Some(e),
            },
        }
    }
}

impl HumanProfilesView {
    /// Whether the document holds three canonical profiles.
    pub open spec fn canonical(self) -> bool {
        &&& self.profiles.len() == NUM_PROFILES
        &&& forall|i: int| 0 <= i < NUM_PROFILES ==> (#[trigger] self.profiles[i]).canonical()
    }

    /// Whether in every profile the second layer agrees with the first about
    /// the G-shift buttons.
    pub open spec fn gshift_consistent(self) -> bool {
        forall|i: int|
            0 <= i < self.profiles.len() ==> (#[trigger] self.profiles[i]).gshift_consistent()
    }
}

impl ProfilesView {
    /// There are three profiles, each of them well-formed.
    pub open spec fn wf(self) -> bool {
        &&& self.profiles.len() == NUM_PROFILES
        &&& forall|i: int| 0 <= i < NUM_PROFILES ==> (#[trigger] self.profiles[i]).wf()
    }

    /// The wire form: slot `i` takes the bytes from `i * PROFILE_SIZE` up to
    /// `(i + 1) * PROFILE_SIZE`.
    pub open spec fn wire(self) -> Seq<u8> {
        Seq::new(
            PROFILES_SIZE as nat,
            |i: int| self.profiles[i / PROFILE_SIZE as int].wire()[i % PROFILE_SIZE as int],
        )
    }

    /// The collection that a buffer holds, or the first reason why it holds
    /// none: a wrong length, then the error of the first slot that does not
    /// decode.
    pub open spec fn spec_decode(bytes: Seq<u8>) -> Result<ProfilesView, CodecError> {
        if bytes.len() != PROFILES_SIZE {
            Err(CodecError::Size { expected: PROFILES_SIZE, actual: bytes.len() as usize })
        } else if let Some(e) = slots_error(bytes, NUM_PROFILES as nat) {
            Err(e)
        } else {
            Ok(
                ProfilesView {
                    profiles: Seq::new(
                        NUM_PROFILES as nat,
                        |i: int| ProfileView::spec_decode(profile_slot(bytes, i)).unwrap(),
                    ),
                },
            )
        }
    }

    /// The collection with each identifier taken from [`PROFILE_REPORT_ID`]
    /// by the place of the profile. What the identifiers were before makes
    /// no difference.
    pub open spec fn with_fixed_ids(self) -> ProfilesView {
        ProfilesView {
            profiles: Seq::new(
                self.profiles.len(),
                |i: int| self.profiles[i].with_id(PROFILE_REPORT_ID[i]),
            ),
        }
    }

    /// The collection with the G-shift action carried over in every profile.
    pub open spec fn propagated(self) -> ProfilesView {
        ProfilesView {
            profiles: Seq::new(self.profiles.len(), |i: int| self.profiles[i].propagated()),
        }
    }

    /// The collection with the fields that an editable document does not
    /// hold set to zero in every profile.
    pub open spec fn without_wire_only(self) -> ProfilesView {
        ProfilesView {
            profiles: Seq::new(self.profiles.len(), |i: int| self.profiles[i].without_wire_only()),
        }
    }

    /// The editable form of the collection.
    pub open spec fn spec_to_human(self) -> HumanProfilesView {
        HumanProfilesView {
            profiles: Seq::new(self.profiles.len(), |i: int| self.profiles[i].spec_to_human()),
        }
    }

    /// The collection that an editable document stands for, or the first
    /// reason why it stands for none: another number of profiles than three,
    /// then the error of the first profile that cannot be read.
    pub open spec fn spec_from_human(h: HumanProfilesView) -> Result<ProfilesView, CodecError> {
        if h.profiles.len() != NUM_PROFILES {
            Err(CodecError::Size { expected: NUM_PROFILES, actual: h.profiles.len() as usize })
        } else if let Some(e) = documents_error(h.profiles, NUM_PROFILES as nat) {
            Err(e)
        } else {
            Ok(
                ProfilesView {
                    profiles: Seq::new(
                        NUM_PROFILES as nat,
                        |i: int| ProfileView::spec_from_human(h.profiles[i]).unwrap(),
                    ),
                },
            )
        }
    }

    /// The collection that an edited document stands for, ready to be
    /// written: read, then given its identifiers, then made consistent about
    /// the G-shift buttons.
    pub open spec fn spec_from_human_for_write(h: HumanProfilesView) -> Result<
        ProfilesView,
        CodecError,
    > {
        match ProfilesView::spec_from_human(h) {
            Ok(c) => Ok(c.with_fixed_ids().propagated()),
            Err(e) => Err(e),
        }
    }

    /// A buffer that decodes is the wire form of the collection it decodes to.
    pub proof fn lemma_decode_inverse(bytes: Seq<u8>)
        ensures
            ProfilesView::spec_decode(bytes) matches Ok(c) ==> c.wf() && c.wire() == bytes,
    {
        if let Ok(c) = ProfilesView::spec_decode(bytes) {
            lemma_slots_error_none(bytes, NUM_PROFILES as nat);
            assert forall|i: int| 0 <= i < NUM_PROFILES implies (#[trigger] c.profiles[i]).wf()
                && c.profiles[i].wire() == profile_slot(bytes, i) by {
                assert(ProfileView::spec_decode(profile_slot(bytes, i)) is Ok);
                ProfileView::lemma_decode_inverse(profile_slot(bytes, i));
            }
            c.lemma_joined(bytes);
        }
    }

    /// The wire form of a collection is the buffer whose slots are the wire
    /// records of its profiles.
    pub proof fn lemma_joined(self, bytes: Seq<u8>)
        requires
            self.profiles.len() == NUM_PROFILES,
            bytes.len() == PROFILES_SIZE,
            forall|i: int|
                0 <= i < NUM_PROFILES ==> (#[trigger] self.profiles[i]).wire() == profile_slot(
                    bytes,
                    i,
                ),
        ensures
            self.wire() == bytes,
    {
        assert forall|k: int| 0 <= k < PROFILES_SIZE implies self.wire()[k] == bytes[k] by {
            let i = k / PROFILE_SIZE as int;
            let j = k % PROFILE_SIZE as int;
            assert(0 <= i < NUM_PROFILES && 0 <= j < PROFILE_SIZE && k == PROFILE_SIZE * i + j);
            let record = self.profiles[i].wire();
            assert(record == profile_slot(bytes, i));
            assert(profile_slot(bytes, i)[j] == bytes[k]);
            assert(self.wire()[k] == record[j]);
        }
        assert(self.wire() =~= bytes);
    }

    /// Every well-formed collection is read back from its own wire form.
    pub proof fn lemma_wire_round_trip(self)
        requires
            self.wf(),
        ensures
            self.wire().len() == PROFILES_SIZE,
            ProfilesView::spec_decode(self.wire()) == Ok::<ProfilesView, CodecError>(self),
    {
        let bytes = self.wire();
        assert forall|i: int| 0 <= i < NUM_PROFILES implies #[trigger] ProfileView::spec_decode(
            profile_slot(bytes, i),
        ) == Ok::<ProfileView, CodecError>(self.profiles[i]) by {
            self.lemma_slot(i);
            self.profiles[i].lemma_wire_round_trip();
        }
        lemma_slots_error_none(bytes, NUM_PROFILES as nat);
        let c = ProfilesView::spec_decode(bytes).unwrap();
        assert(c.profiles =~= self.profiles);
        assert(c =~= self);
    }

    /// A slot of the wire form is the wire record of the profile in that slot.
    pub proof fn lemma_slot(self, index: int)
        requires
            0 <= index < NUM_PROFILES,
            self.profiles.len() == NUM_PROFILES,
        ensures
            profile_slot(self.wire(), index) == self.profiles[index].wire(),
    {
        let slot = profile_slot(self.wire(), index);
        let record = self.profiles[index].wire();
        assert forall|j: int| 0 <= j < PROFILE_SIZE implies slot[j] == record[j] by {
            let k = PROFILE_SIZE * index + j;
            assert(k / PROFILE_SIZE as int == index && k % PROFILE_SIZE as int == j) by {
                vstd::arithmetic::div_mod::lemma_fundamental_div_mod_converse(
                    k,
                    PROFILE_SIZE as int,
                    index,
                    j,
                );
            }
        }
        assert(slot =~= record);
    }

    /// After the identifiers have been assigned, each is the one of its
    /// slot, whatever it was before; and assigning them again changes nothing.
    pub proof fn lemma_fix_ids(self, other: ProfilesView)
        requires
            self.profiles.len() == other.profiles.len(),
            forall|i: int|
                0 <= i < self.profiles.len() ==> (#[trigger] self.profiles[i]).with_id(0)
                    == other.profiles[i].with_id(0),
        ensures
            self.with_fixed_ids() == other.with_fixed_ids(),
            self.with_fixed_ids().with_fixed_ids() == self.with_fixed_ids(),
            forall|i: int|
                0 <= i < self.profiles.len() ==> (#[trigger] self.with_fixed_ids().profiles[i]).id
                    == PROFILE_REPORT_ID[i],
    {
        let a = self.with_fixed_ids();
        let b = other.with_fixed_ids();
        assert forall|i: int| 0 <= i < self.profiles.len() implies a.profiles[i]
            == b.profiles[i] by {
            let x = self.profiles[i].with_id(0);
            let y = other.profiles[i].with_id(0);
            assert(x == y);
            assert(a.profiles[i] == x.with_id(PROFILE_REPORT_ID[i]));
            assert(b.profiles[i] == y.with_id(PROFILE_REPORT_ID[i]));
        }
        assert(a.profiles =~= b.profiles);
        assert(a.with_fixed_ids().profiles =~= a.profiles);
    }

    /// Carrying the G-shift action over a second time changes nothing.
    pub proof fn lemma_propagate_idempotent(self)
        requires
            self.wf(),
        ensures
            self.propagated().wf(),
            self.propagated().propagated() == self.propagated(),
            forall|i: int|
                0 <= i < NUM_PROFILES ==> (#[trigger] self.propagated().profiles[i])
                    .gshift_consistent(),
    {
        let once = self.propagated();
        assert forall|i: int| 0 <= i < NUM_PROFILES implies (#[trigger] once.profiles[i]).wf()
            && once.profiles[i].gshift_consistent() && once.profiles[i].propagated()
            == once.profiles[i] by {
            self.profiles[i].lemma_propagate_idempotent();
        }
        assert(once.propagated().profiles =~= once.profiles);
    }

    /// The editable form of a collection is canonical, and stands for that
    /// collection but for the fields that it does not hold.
    pub proof fn lemma_human_round_trip(self)
        requires
            self.wf(),
        ensures
            self.spec_to_human().canonical(),
            ProfilesView::spec_from_human(self.spec_to_human()) == Ok::<ProfilesView, CodecError>(
                self.without_wire_only(),
            ),
    {
        let h = self.spec_to_human();
        assert forall|i: int| 0 <= i < NUM_PROFILES implies (#[trigger] h.profiles[i]).canonical()
            && ProfileView::spec_from_human(h.profiles[i]) == Ok::<ProfileView, CodecError>(
            self.profiles[i].without_wire_only(),
        ) by {
            self.profiles[i].lemma_human_round_trip();
        }
        lemma_documents_error_none(h.profiles, NUM_PROFILES as nat);
        let c = ProfilesView::spec_from_human(h).unwrap();
        assert(c.profiles =~= self.without_wire_only().profiles);
    }

    /// A canonical document is read, carried over the wire, and written
    /// again exactly as it was.
    pub proof fn lemma_canonical_round_trip(h: HumanProfilesView)
        requires
            h.canonical(),
        ensures
            ProfilesView::spec_from_human(h) matches Ok(c) && c.wf() && ProfilesView::spec_decode(
                c.wire(),
            ) == Ok::<ProfilesView, CodecError>(c) && c.spec_to_human() == h,
    {
        assert forall|i: int| 0 <= i < NUM_PROFILES implies (#[trigger] ProfileView::spec_from_human(
            h.profiles[i],
        )) is Ok by {
            assert(h.profiles[i].canonical());
            ProfileView::lemma_canonical_round_trip(h.profiles[i]);
        }
        lemma_documents_error_none(h.profiles, NUM_PROFILES as nat);
        let c = ProfilesView::spec_from_human(h).unwrap();
        assert forall|i: int| 0 <= i < NUM_PROFILES implies (#[trigger] c.profiles[i]).wf()
            && c.profiles[i].spec_to_human() == h.profiles[i] by {
            assert(h.profiles[i].canonical());
            ProfileView::lemma_canonical_round_trip(h.profiles[i]);
        }
        c.lemma_wire_round_trip();
        assert(c.spec_to_human().profiles =~= h.profiles);
    }

    /// The way of an edited document to the device and back: a canonical
    /// document whose layers agree about the G-shift buttons is read and
    /// made ready, is carried over the wire, and is written again exactly as
    /// it was.
    pub proof fn lemma_prepared_round_trip(h: HumanProfilesView)
        requires
            h.canonical(),
            h.gshift_consistent(),
        ensures
            ProfilesView::spec_from_human_for_write(h) matches Ok(sent) && sent.wf()
                && ProfilesView::spec_decode(sent.wire()) == Ok::<ProfilesView, CodecError>(sent)
                && sent.spec_to_human() == h,
    {
        ProfilesView::lemma_canonical_round_trip(h);
        let c = ProfilesView::spec_from_human(h).unwrap();
        let sent = c.with_fixed_ids().propagated();
        assert forall|i: int| 0 <= i < NUM_PROFILES implies (#[trigger] sent.profiles[i]).wf()
            && sent.profiles[i].spec_to_human() == h.profiles[i] by {
            assert(h.profiles[i].canonical());
            assert(h.profiles[i].gshift_consistent());
            ProfileView::lemma_prepared_round_trip(h.profiles[i], PROFILE_REPORT_ID[i]);
        }
        sent.lemma_wire_round_trip();
        assert(sent.spec_to_human().profiles =~= h.profiles);
    }

    /// Whatever an edited document held, what is made ready from it has the
    /// identifiers of its slots and consistent layers, and making it ready
    /// again would change nothing.
    pub proof fn lemma_prepared(h: HumanProfilesView)
        ensures
            ProfilesView::spec_from_human_for_write(h) matches Ok(sent) ==> sent.wf()
                && sent.with_fixed_ids().propagated() == sent && forall|i: int|
                0 <= i < NUM_PROFILES ==> (#[trigger] sent.profiles[i]).id == PROFILE_REPORT_ID[i]
                    && sent.profiles[i].gshift_consistent(),
    {
        if let Ok(c) = ProfilesView::spec_from_human(h) {
            lemma_documents_error_none(h.profiles, NUM_PROFILES as nat);
            let fixed = c.with_fixed_ids();
            let sent = fixed.propagated();
            assert forall|i: int| 0 <= i < NUM_PROFILES implies (#[trigger] fixed.profiles[i]).wf() by {
                ProfileView::lemma_from_human_wf(h.profiles[i]);
            }
            fixed.lemma_propagate_idempotent();
            assert(sent.with_fixed_ids().profiles =~= sent.profiles);
        }
    }
}

/// Writes the wire record of one profile into its slot of a buffer; the
/// other slots stay.
fn write_record(out: &mut [u8; PROFILES_SIZE], index: usize, record: &[u8; PROFILE_SIZE])
    requires
        index < NUM_PROFILES,
    ensures
        profile_slot(final(out)@, index as int) == record@,
        forall|j: int|
            0 <= j < NUM_PROFILES && j != index ==> profile_slot(final(out)@, j) == profile_slot(
                old(out)@,
                j,
            ),
{
    let base: usize = PROFILE_SIZE * index;
    let mut k: usize = 0;
    while k < PROFILE_SIZE
        invariant
            k <= PROFILE_SIZE,
            index < NUM_PROFILES,
            base == PROFILE_SIZE * index,
            forall|i: int|
                0 <= i < PROFILES_SIZE ==> out@[i] == if base <= i < base + k {
                    record@[i - base]
                } else {
                    old(out)@[i]
                },
        decreases PROFILE_SIZE - k,
    {
        out[base + k] = record[k];
        k += 1;
    }
    assert(profile_slot(out@, index as int) =~= record@);
    assert forall|j: int| 0 <= j < NUM_PROFILES && j != index implies profile_slot(out@, j)
        == profile_slot(old(out)@, j) by {
        assert(profile_slot(out@, j) =~= profile_slot(old(out)@, j));
    }
}

impl Profiles {
    /// The content of a collection is always well-formed, and two
    /// collections with the same content are the same collection.
    pub proof fn lemma_view(self, other: Profiles)
        ensures
            self@.wf(),
            self@ == other@ ==> self == other,
    {
        assert forall|i: int| 0 <= i < NUM_PROFILES implies (#[trigger] self@.profiles[i]).wf() by {
            self.profiles@[i].lemma_view(other.profiles@[i]);
        }
        if self@ == other@ {
            assert forall|i: int| 0 <= i < NUM_PROFILES implies self.profiles@[i]
                == other.profiles@[i] by {
                assert(self@.profiles[i] == other@.profiles[i]);
                self.profiles@[i].lemma_view(other.profiles@[i]);
            }
            assert(self.profiles =~= other.profiles);
        }
    }

    /// The outcome of a decoding, with the collection taken by its content.
    pub open spec fn result_view(r: Result<Profiles, CodecError>) -> Result<
        ProfilesView,
        CodecError,
    > {
        match r {
            Ok(c) => Ok(c@),
            Err(e) => Err(e),
        }
    }

    /// Reads the collection from a buffer: from the three feature reports
    /// one after another, or from a snapshot file, which has the same bytes.
    ///
    /// A buffer of any other length than [`PROFILES_SIZE`] is a size error;
    /// nothing is read from a part of a buffer. The slots are decoded in
    /// their order, and the first one that fails decides the error.
    pub fn decode(bytes: &[u8]) -> (r: Result<Profiles, CodecError>)
        ensures
            Profiles::result_view(r) == ProfilesView::spec_decode(bytes@),
            bytes@.len() != PROFILES_SIZE ==> r == Err::<Profiles, CodecError>(
                CodecError::Size { expected: PROFILES_SIZE, actual: bytes@.len() as usize },
            ),
            r matches Ok(c) ==> c@.wire() == bytes@,
    {
        if bytes.len() != PROFILES_SIZE {
            return Err(CodecError::Size { expected: PROFILES_SIZE, actual: bytes.len() });
        }
        let mut profiles = [Profile::blank(); NUM_PROFILES];
        let mut i: usize = 0;
        while i < NUM_PROFILES
            invariant
                i <= NUM_PROFILES,
                bytes@.len() == PROFILES_SIZE,
                slots_error(bytes@, i as nat) is None,
                forall|j: int|
                    0 <= j < i ==> ProfileView::spec_decode(profile_slot(bytes@, j)) == Ok::<
                        ProfileView,
                        CodecError,
                    >((#[trigger] profiles@[j])@),
            decreases NUM_PROFILES - i,
        {
            let slot = &bytes[PROFILE_SIZE * i..PROFILE_SIZE * i + PROFILE_SIZE];
            assert(slot@ == profile_slot(bytes@, i as int));
            match Profile::decode(slot) {
                Ok(p) => {
                    profiles[i] = p;
                },
                Err(e) => {
                    proof {
                        assert(slots_error(bytes@, (i + 1) as nat) == Some(e));
                        lemma_slots_error_stable(bytes@, (i + 1) as nat, NUM_PROFILES as nat);
                    }
                    return Err(e);
                },
            }
            i += 1;
        }
        let c = Profiles { profiles };
        proof {
            assert(c@.profiles =~= ProfilesView::spec_decode(bytes@).unwrap().profiles);
            ProfilesView::lemma_decode_inverse(bytes@);
        }
        Ok(c)
    }

    /// Writes the collection: the wire record of each profile, in the order
    /// of the slots. This is what goes to the device, report by report, and
    /// what a snapshot file holds.
    pub fn encode(&self) -> (out: [u8; PROFILES_SIZE])
        ensures
            out@ == self@.wire(),
    {
        let mut out = [0u8; PROFILES_SIZE];
        let mut i: usize = 0;
        while i < NUM_PROFILES
            invariant
                i <= NUM_PROFILES,
                forall|j: int|
                    0 <= j < i ==> profile_slot(out@, j) == (#[trigger] self.profiles@[j])@.wire(),
            decreases NUM_PROFILES - i,
        {
            let record = self.profiles[i].encode();
            write_record(&mut out, i, &record);
            i += 1;
        }
        proof {
            self@.lemma_joined(out@);
        }
        out
    }

    /// Gives every profile the report identifier of its slot, whatever
    /// identifier it had. A collection that was read from an editable
    /// document has to go through this before it is written anywhere.
    pub fn fix_ids(&mut self)
        ensures
            final(self)@ == old(self)@.with_fixed_ids(),
            forall|i: int|
                0 <= i < NUM_PROFILES ==> (#[trigger] final(self).profiles@[i]).id
                    == PROFILE_REPORT_ID[i] && final(self).profiles@[i]@ == old(
                    self,
                ).profiles@[i]@.with_id(PROFILE_REPORT_ID[i]),
    {
        let ghost before = *self;
        let mut profiles = self.profiles;
        let mut i: usize = 0;
        while i < NUM_PROFILES
            invariant
                i <= NUM_PROFILES,
                forall|j: int|
                    0 <= j < i ==> (#[trigger] profiles@[j]).id == PROFILE_REPORT_ID[j]
                        && profiles@[j]@ == before.profiles@[j]@.with_id(PROFILE_REPORT_ID[j]),
                forall|j: int| i <= j < NUM_PROFILES ==> profiles@[j] == before.profiles@[j],
            decreases NUM_PROFILES - i,
        {
            let mut profile = profiles[i];
            profile.id = PROFILE_REPORT_ID[i];
            profiles[i] = profile;
            i += 1;
        }
        self.profiles = profiles;
        assert(self@.profiles =~= before@.with_fixed_ids().profiles);
    }

    /// Carries the G-shift action over to the second layer in every profile.
    /// A collection that was edited has to go through this before it is
    /// written anywhere. Doing it again changes nothing.
    pub fn propagate_gshift(&mut self)
        ensures
            final(self)@ == old(self)@.propagated(),
            forall|i: int|
                0 <= i < NUM_PROFILES ==> (#[trigger] final(self).profiles@[i])@
                    .gshift_consistent() && final(self).profiles@[i]@ == old(
                    self,
                ).profiles@[i]@.propagated(),
    {
        let ghost before = *self;
        let mut profiles = self.profiles;
        let mut i: usize = 0;
        while i < NUM_PROFILES
            invariant
                i <= NUM_PROFILES,
                forall|j: int|
                    0 <= j < i ==> (#[trigger] profiles@[j])@ == before.profiles@[j]@.propagated()
                        && profiles@[j]@.gshift_consistent(),
                forall|j: int| i <= j < NUM_PROFILES ==> profiles@[j] == before.profiles@[j],
            decreases NUM_PROFILES - i,
        {
            let mut profile = profiles[i];
            profile.propagate_gshift();
            profiles[i] = profile;
            i += 1;
        }
        self.profiles = profiles;
        assert(self@.profiles =~= before@.propagated().profiles);
    }

    /// Writes the collection for an editable document.
    pub fn to_human(&self) -> (h: HumanProfiles)
        ensures
            h@ == self@.spec_to_human(),
            h@.canonical(),
    {
        let mut list: Vec<HumanProfile> = Vec::new();
        let mut i: usize = 0;
        while i < NUM_PROFILES
            invariant
                i <= NUM_PROFILES,
                list@.len() == i,
                forall|j: int|
                    0 <= j < i ==> (#[trigger] list@[j])@ == self.profiles@[j]@.spec_to_human()
                        && list@[j]@.canonical(),
            decreases NUM_PROFILES - i,
        {
            list.push(self.profiles[i].to_human());
            i += 1;
        }
        let h = HumanProfiles { profiles: list };
        assert(h@.profiles =~= self@.spec_to_human().profiles);
        h
    }

    /// Reads the collection from an editable document: three profiles, each
    /// read as [`Profile::from_human`] reads it. The first profile that
    /// cannot be read decides the error. The identifiers come out as zero
    /// and the second layers as they were written: what is read here still
    /// has to go through [`Profiles::fix_ids`] and
    /// [`Profiles::propagate_gshift`].
    pub fn from_human(h: &HumanProfiles) -> (r: Result<Profiles, CodecError>)
        ensures
            Profiles::result_view(r) == ProfilesView::spec_from_human(h@),
    {
        if h.profiles.len() != NUM_PROFILES {
            return Err(CodecError::Size { expected: NUM_PROFILES, actual: h.profiles.len() });
        }
        let mut profiles = [Profile::blank(); NUM_PROFILES];
        let mut i: usize = 0;
        while i < NUM_PROFILES
            invariant
                i <= NUM_PROFILES,
                h.profiles@.len() == NUM_PROFILES,
                documents_error(h@.profiles, i as nat) is None,
                forall|j: int|
                    0 <= j < i ==> ProfileView::spec_from_human(h@.profiles[j]) == Ok::<
                        ProfileView,
                        CodecError,
                    >((#[trigger] profiles@[j])@),
            decreases NUM_PROFILES - i,
        {
            match Profile::from_human(&h.profiles[i]) {
                Ok(p) => {
                    profiles[i] = p;
                },
                Err(e) => {
                    proof {
                        assert(documents_error(h@.profiles, (i + 1) as nat) == Some(e));
                        lemma_documents_error_stable(
                            h@.profiles,
                            (i + 1) as nat,
                            NUM_PROFILES as nat,
                        );
                    }
                    return Err(e);
                },
            }
            i += 1;
        }
        let c = Profiles { profiles };
        assert(c@.profiles =~= ProfilesView::spec_from_human(h@).unwrap().profiles);
        Ok(c)
    }

    /// Reads the collection from an edited document and makes it ready to be
    /// written to the device or to a snapshot: every profile gets the
    /// identifier of its slot, and the G-shift action is carried over to the
    /// second layer. Neither step can be left out this way.
    pub fn from_human_for_write(h: &HumanProfiles) -> (r: Result<Profiles, CodecError>)
        ensures
            Profiles::result_view(r) == ProfilesView::spec_from_human_for_write(h@),
            r matches Ok(c) ==> forall|i: int|
                0 <= i < NUM_PROFILES ==> (#[trigger] c.profiles@[i]).id == PROFILE_REPORT_ID[i]
                    && c.profiles@[i]@.gshift_consistent(),
    {
        match Profiles::from_human(h) {
            Ok(read) => {
                let mut c = read;
                c.fix_ids();
                c.propagate_gshift();
                Ok(c)
            },
            Err(e) => Err(e),
        }
    }
}

/// Once a profile slot fails to decode, looking at further slots does not
/// change the error.
pub proof fn lemma_slots_error_stable(bytes: Seq<u8>, found: nat, count: nat)
    requires
        found <= count,
        slots_error(bytes, found) is Some,
    ensures
        slots_error(bytes, count) == slots_error(bytes, found),
    decreases count,
{
    if found < count {
        lemma_slots_error_stable(bytes, found, (count - 1) as nat);
    }
}

/// No error is found among `count` profile slots exactly where each of them
/// decodes.
pub proof fn lemma_slots_error_none(bytes: Seq<u8>, count: nat)
    ensures
        slots_error(bytes, count) is None <==> forall|i: int|
            0 <= i < count ==> (#[trigger] ProfileView::spec_decode(profile_slot(bytes, i))) is Ok,
    decreases count,
{
    if count > 0 {
        lemma_slots_error_none(bytes, (count - 1) as nat);
        if slots_error(bytes, count) is Some {
            if slots_error(bytes, (count - 1) as nat) is None {
                assert(ProfileView::spec_decode(profile_slot(bytes, count - 1)) is Err);
            }
        }
    }
}

/// Once an editable profile cannot be read, looking at further profiles does
/// not change the error.
pub proof fn lemma_documents_error_stable(
    documents: Seq<HumanProfileView>,
    found: nat,
    count: nat,
)
    requires
        found <= count,
        documents_error(documents, found) is Some,
    ensures
        documents_error(documents, count) == documents_error(documents, found),
    decreases count,
{
    if found < count {
        lemma_documents_error_stable(documents, found, (count - 1) as nat);
    }
}

/// No error is found among `count` editable profiles exactly where each of
/// them can be read.
pub proof fn lemma_documents_error_none(documents: Seq<HumanProfileView>, count: nat)
    ensures
        documents_error(documents, count) is None <==> forall|i: int|
            0 <= i < count ==> (#[trigger] ProfileView::spec_from_human(documents[i])) is Ok,
    decreases count,
{
    if count > 0 {
        lemma_documents_error_none(documents, (count - 1) as nat);
        if documents_error(documents, count) is Some {
            if documents_error(documents, (count - 1) as nat) is None {
                assert(ProfileView::spec_from_human(documents[count - 1]) is Err);
            }
        }
    }
}

/// The collection takes three times the bytes of a profile.
pub proof fn lemma_size()
    ensures
        PROFILES_SIZE == 462,
        PROFILES_SIZE == NUM_PROFILES * PROFILE_SIZE,
{
}

} // verus!
