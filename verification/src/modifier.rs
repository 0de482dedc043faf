//! Keyboard modifiers held together with a key: a set of eight flags, one bit
//! each on the wire, a list of names in an editable document.

use vstd::prelude::*;

verus! {

/// The number of modifier flags.
pub const NUM_MODIFIERS: u8 = 8;

/// A keyboard modifier. The order of declaration is the order of the bits,
/// lowest first, and the order in which a set is listed.
#[derive(Clone, Copy, Debug, PartialEq, Eq, Structural)]
pub enum Modifier {
    Ctrl,
    Shift,
    Alt,
    Meta,
    RCtrl,
    RShift,
    RAlt,
    RMeta,
}

impl Modifier {
    /// The place of a flag in the order of declaration.
    pub open spec fn spec_position(self) -> u8 {
        match self {
            Modifier::Ctrl => 0,
            Modifier::Shift => 1,
            Modifier::Alt => 2,
            Modifier::Meta => 3,
            Modifier::RCtrl => 4,
            Modifier::RShift => 5,
            Modifier::RAlt => 6,
            Modifier::RMeta => 7,
        }
    }

    /// The flag at a place in the order of declaration.
    pub open spec fn spec_at(position: u8) -> Modifier {
        match position {
            0 => Modifier::Ctrl,
            1 => Modifier::Shift,
            2 => Modifier::Alt,
            3 => Modifier::Meta,
            4 => Modifier::RCtrl,
            5 => Modifier::RShift,
            6 => Modifier::RAlt,
            _ => Modifier::RMeta,
        }
    }

    /// The bit of a flag in the wire byte.
    pub open spec fn spec_mask(self) -> u8 {
        match self {
            Modifier::Ctrl => 0x01,
            Modifier::Shift => 0x02,
            Modifier::Alt => 0x04,
            Modifier::Meta => 0x08,
            Modifier::RCtrl => 0x10,
            Modifier::RShift => 0x20,
            Modifier::RAlt => 0x40,
            Modifier::RMeta => 0x80,
        }
    }

    /// The bit of a flag in the wire byte.
    #[verifier::when_used_as_spec(spec_mask)]
    pub fn mask(self) -> (bit: u8)
        ensures
            bit == self.spec_mask(),
    {
        match self {
            Modifier::Ctrl => 0x01,
            Modifier::Shift => 0x02,
            Modifier::Alt => 0x04,
            Modifier::Meta => 0x08,
            Modifier::RCtrl => 0x10,
            Modifier::RShift => 0x20,
            Modifier::RAlt => 0x40,
            Modifier::RMeta => 0x80,
        }
    }

    /// The flag at a place in the order of declaration.
    #[verifier::when_used_as_spec(spec_at)]
    fn at(position: u8) -> (m: Modifier)
        requires
            position < NUM_MODIFIERS,
        ensures
            m == Modifier::spec_at(position),
            m.spec_position() == position,
    {
        match position {
            0 => Modifier::Ctrl,
            1 => Modifier::Shift,
            2 => Modifier::Alt,
            3 => Modifier::Meta,
            4 => Modifier::RCtrl,
            5 => Modifier::RShift,
            6 => Modifier::RAlt,
            _ => Modifier::RMeta,
        }
    }

    /// The flag at a place has that place.
    pub proof fn lemma_at(position: u8)
        requires
            position < NUM_MODIFIERS,
        ensures
            Modifier::spec_at(position).spec_position() == position,
    {
    }

    /// Places and flags correspond one to one, and the bit of a flag is the
    /// bit at its place.
    pub proof fn lemma_position(self)
        ensures
            self.spec_position() < NUM_MODIFIERS,
            Modifier::spec_at(self.spec_position()) == self,
            self.spec_mask() == 1u8 << self.spec_position(),
    {
        assert(1u8 << 0u8 == 0x01 && 1u8 << 1u8 == 0x02 && 1u8 << 2u8 == 0x04 && 1u8 << 3u8 == 0x08
            && 1u8 << 4u8 == 0x10 && 1u8 << 5u8 == 0x20 && 1u8 << 6u8 == 0x40 && 1u8 << 7u8
            == 0x80) by (bit_vector);
    }
}

/// A set of modifiers, held as the wire byte: one bit per flag.
#[derive(Clone, Copy, Debug, PartialEq, Eq, Structural)]
pub struct Modifiers {
    pub bits: u8,
}

impl View for Modifiers {
    type V = Set<Modifier>;

    open spec fn view(&self) -> Set<Modifier> {
        Set::new(|m: Modifier| self.spec_contains(m))
    }
}

impl Modifiers {
    /// Whether a flag is in the set: its bit is on.
    pub open spec fn spec_contains(self, m: Modifier) -> bool {
        self.bits & m.spec_mask() != 0
    }

    /// The bit of a flag if a list names it, and no bit otherwise.
    pub open spec fn flag(list: Seq<Modifier>, m: Modifier) -> u8 {
        if list.contains(m) {
            m.spec_mask()
        } else {
            0
        }
    }

    /// The set that a list of names stands for. Neither the order of the
    /// names nor a repeated name makes a difference.
    pub open spec fn of(list: Seq<Modifier>) -> Modifiers {
        Modifiers {
            bits: Modifiers::flag(list, Modifier::Ctrl) | Modifiers::flag(list, Modifier::Shift)
                | Modifiers::flag(list, Modifier::Alt) | Modifiers::flag(list, Modifier::Meta)
                | Modifiers::flag(list, Modifier::RCtrl) | Modifiers::flag(list, Modifier::RShift)
                | Modifiers::flag(list, Modifier::RAlt) | Modifiers::flag(list, Modifier::RMeta),
        }
    }

    /// The members among the first `count` flags, in the order of declaration.
    pub open spec fn listed_below(self, count: nat) -> Seq<Modifier>
        decreases count,
    {
        if count == 0 {
            Seq::empty()
        } else {
            let rest = self.listed_below((count - 1) as nat);
            let m = Modifier::spec_at((count - 1) as u8);
            if self.spec_contains(m) {
                rest.push(m)
            } else {
                rest
            }
        }
    }

    /// The members in the order of declaration: the list that stands for the
    /// set in an editable document.
    pub open spec fn ordered(self) -> Seq<Modifier> {
        self.listed_below(NUM_MODIFIERS as nat)
    }

    /// Whether a list names each flag at most once, in the order of
    /// declaration.
    pub open spec fn strictly_ordered(list: Seq<Modifier>) -> bool {
        forall|i: int, j: int|
            0 <= i < j < list.len() ==> (#[trigger] list[i]).spec_position() < (
            #[trigger] list[j]).spec_position()
    }

    /// The set without members.
    pub fn empty() -> (s: Modifiers)
        ensures
            s.bits == 0,
            s@ == Set::<Modifier>::empty(),
            forall|m: Modifier| !(#[trigger] s.spec_contains(m)),
    {
        let s = Modifiers { bits: 0 };
        proof {
            assert forall|m: Modifier| !s.spec_contains(m) by {
                let k = m.spec_mask();
                assert(0u8 & k == 0) by (bit_vector);
            }
            assert(s@ =~= Set::<Modifier>::empty());
        }
        s
    }

    /// Whether a flag is in the set.
    #[verifier::when_used_as_spec(spec_contains)]
    pub fn contains(self, m: Modifier) -> (b: bool)
        ensures
            b == self.spec_contains(m),
            b == self@.contains(m),
    {
        self.bits & m.mask() != 0
    }

    /// Whether no flag is in the set.
    pub fn is_empty(&self) -> (b: bool)
        ensures
            b == (self.bits == 0),
            b == (self@ == Set::<Modifier>::empty()),
            b == (self.ordered().len() == 0),
    {
        proof {
            self.lemma_empty();
        }
        self.bits == 0
    }

    /// Puts a flag into the set; the other flags stay as they are.
    pub fn insert(&mut self, m: Modifier)
        ensures
            final(self).bits == old(self).bits | m.spec_mask(),
            final(self)@ == old(self)@.insert(m),
    {
        let ghost before = *self;
        self.bits = self.bits | m.mask();
        proof {
            let after = *self;
            assert forall|x: Modifier| after@.contains(x) == before@.insert(m).contains(x) by {
                Modifiers::lemma_insert(before.bits, m, x);
                assert(after == Modifiers { bits: before.bits | m.spec_mask() });
                assert(before == Modifiers { bits: before.bits });
            }
            assert(after@ =~= before@.insert(m));
        }
    }

    /// The set that a list of names stands for.
    pub fn from_list(list: &[Modifier]) -> (s: Modifiers)
        ensures
            s == Modifiers::of(list@),
            s@ == list@.to_set(),
    {
        let mut s = Modifiers::empty();
        let mut i: usize = 0;
        while i < list.len()
            invariant
                i <= list.len(),
                forall|m: Modifier|
                    #![trigger s.spec_contains(m)]
                    s.spec_contains(m) == list@.take(i as int).contains(m),
            decreases list.len() - i,
        {
            let ghost before = s;
            s.insert(list[i]);
            proof {
                let head = list@.take(i as int);
                let next = list@.take(i + 1);
                assert(next =~= head.push(list@[i as int]));
                assert forall|m: Modifier| s.spec_contains(m) == next.contains(m) by {
                    Modifiers::lemma_insert(before.bits, list@[i as int], m);
                    assert(s == Modifiers { bits: before.bits | list@[i as int].spec_mask() });
                    assert(before == Modifiers { bits: before.bits });
                    if head.contains(m) {
                        let k = choose|k: int| 0 <= k < head.len() && head[k] == m;
                        assert(next[k] == m);
                    }
                    if m == list@[i as int] {
                        assert(next[i as int] == m);
                    }
                }
            }
            i += 1;
        }
        proof {
            assert(list@.take(i as int) =~= list@);
            Modifiers::lemma_of_contains(list@);
            Modifiers::lemma_flags_decide(s, Modifiers::of(list@));
            assert(s@ =~= list@.to_set());
        }
        s
    }

    /// The members as a list: each once, in the order of declaration.
    pub fn to_list(&self) -> (list: Vec<Modifier>)
        ensures
            list@ == self.ordered(),
            Modifiers::strictly_ordered(list@),
            forall|m: Modifier| #[trigger] list@.contains(m) == self.spec_contains(m),
    {
        proof {
            self.lemma_listed_below(NUM_MODIFIERS as nat);
            assert forall|m: Modifier| #[trigger]
                self.ordered().contains(m) == self.spec_contains(m) by {
                m.lemma_position();
            }
        }
        let mut list: Vec<Modifier> = Vec::new();
        let mut k: u8 = 0;
        while k < NUM_MODIFIERS
            invariant
                k <= NUM_MODIFIERS,
                list@ == self.listed_below(k as nat),
            decreases NUM_MODIFIERS - k,
        {
            let m = Modifier::at(k);
            if self.contains(m) {
                list.push(m);
            }
            k += 1;
        }
        list
    }

    /// Turning on the bit of one flag changes the membership of that flag only.
    pub proof fn lemma_insert(bits: u8, added: Modifier, m: Modifier)
        ensures
            (Modifiers { bits: bits | added.spec_mask() }).spec_contains(m) == ((Modifiers {
                bits,
            }).spec_contains(m) || m == added),
    {
        added.lemma_position();
        m.lemma_position();
        let i = added.spec_position();
        let j = m.spec_position();
        assert(i < 8 && j < 8 ==> (((bits | (1u8 << i)) & (1u8 << j)) != 0) == ((bits & (1u8 << j))
            != 0 || i == j)) by (bit_vector);
    }

    /// Two sets with the same members are the same byte.
    pub proof fn lemma_flags_decide(a: Modifiers, b: Modifiers)
        requires
            forall|m: Modifier| #[trigger] a.spec_contains(m) == b.spec_contains(m),
        ensures
            a == b,
    {
        let x = a.bits;
        let y = b.bits;
        assert(a.spec_contains(Modifier::Ctrl) == b.spec_contains(Modifier::Ctrl));
        assert(a.spec_contains(Modifier::Shift) == b.spec_contains(Modifier::Shift));
        assert(a.spec_contains(Modifier::Alt) == b.spec_contains(Modifier::Alt));
        assert(a.spec_contains(Modifier::Meta) == b.spec_contains(Modifier::Meta));
        assert(a.spec_contains(Modifier::RCtrl) == b.spec_contains(Modifier::RCtrl));
        assert(a.spec_contains(Modifier::RShift) == b.spec_contains(Modifier::RShift));
        assert(a.spec_contains(Modifier::RAlt) == b.spec_contains(Modifier::RAlt));
        assert(a.spec_contains(Modifier::RMeta) == b.spec_contains(Modifier::RMeta));
        assert(x == y) by (bit_vector)
            requires
                (x & 0x01 != 0) == (y & 0x01 != 0),
                (x & 0x02 != 0) == (y & 0x02 != 0),
                (x & 0x04 != 0) == (y & 0x04 != 0),
                (x & 0x08 != 0) == (y & 0x08 != 0),
                (x & 0x10 != 0) == (y & 0x10 != 0),
                (x & 0x20 != 0) == (y & 0x20 != 0),
                (x & 0x40 != 0) == (y & 0x40 != 0),
                (x & 0x80 != 0) == (y & 0x80 != 0),
        ;
    }

    /// The set of a list holds exactly the flags that the list names.
    pub proof fn lemma_of_contains(list: Seq<Modifier>)
        ensures
            forall|m: Modifier|
                #![trigger Modifiers::of(list).spec_contains(m)]
                #![trigger list.contains(m)]
                Modifiers::of(list).spec_contains(m) == list.contains(m),
            Modifiers::of(list)@ == list.to_set(),
    {
        let t0 = Modifiers::flag(list, Modifier::Ctrl);
        let t1 = Modifiers::flag(list, Modifier::Shift);
        let t2 = Modifiers::flag(list, Modifier::Alt);
        let t3 = Modifiers::flag(list, Modifier::Meta);
        let t4 = Modifiers::flag(list, Modifier::RCtrl);
        let t5 = Modifiers::flag(list, Modifier::RShift);
        let t6 = Modifiers::flag(list, Modifier::RAlt);
        let t7 = Modifiers::flag(list, Modifier::RMeta);
        let all = t0 | t1 | t2 | t3 | t4 | t5 | t6 | t7;
        assert(((all & 0x01 != 0) == (t0 != 0)) && ((all & 0x02 != 0) == (t1 != 0)) && ((all & 0x04
            != 0) == (t2 != 0)) && ((all & 0x08 != 0) == (t3 != 0)) && ((all & 0x10 != 0) == (t4
            != 0)) && ((all & 0x20 != 0) == (t5 != 0)) && ((all & 0x40 != 0) == (t6 != 0)) && ((all
            & 0x80 != 0) == (t7 != 0))) by (bit_vector)
            requires
                all == t0 | t1 | t2 | t3 | t4 | t5 | t6 | t7,
                t0 == 0 || t0 == 0x01,
                t1 == 0 || t1 == 0x02,
                t2 == 0 || t2 == 0x04,
                t3 == 0 || t3 == 0x08,
                t4 == 0 || t4 == 0x10,
                t5 == 0 || t5 == 0x20,
                t6 == 0 || t6 == 0x40,
                t7 == 0 || t7 == 0x80,
        ;
        assert forall|m: Modifier| Modifiers::of(list).spec_contains(m) == list.contains(m) by {
            assert(Modifiers::of(list).bits == all);
        }
        assert(Modifiers::of(list)@ =~= list.to_set());
    }

    /// The listing of a set names exactly its members among the flags it has
    /// come to, each once and in the order of declaration.
    pub proof fn lemma_listed_below(self, count: nat)
        requires
            count <= NUM_MODIFIERS,
        ensures
            Modifiers::strictly_ordered(self.listed_below(count)),
            forall|m: Modifier|
                #![trigger self.listed_below(count).contains(m)]
                self.listed_below(count).contains(m) == (self.spec_contains(m)
                    && m.spec_position() < count),
        decreases count,
    {
        let list = self.listed_below(count);
        if count == 0 {
            assert forall|m: Modifier| !list.contains(m) by {
                if list.contains(m) {
                    let k = choose|k: int| 0 <= k < list.len() && list[k] == m;
                }
            }
        } else {
            let rest = self.listed_below((count - 1) as nat);
            let last = Modifier::spec_at((count - 1) as u8);
            self.lemma_listed_below((count - 1) as nat);
            Modifier::lemma_at((count - 1) as u8);
            assert(last.spec_position() == count - 1);
            assert forall|m: Modifier|
                list.contains(m) == (self.spec_contains(m) && m.spec_position() < count) by {
                m.lemma_position();
                if list.contains(m) {
                    let k = choose|k: int| 0 <= k < list.len() && list[k] == m;
                    if k < rest.len() {
                        assert(rest[k] == m);
                        assert(rest.contains(m));
                    } else {
                        assert(m == last);
                    }
                }
                if self.spec_contains(m) && m.spec_position() < count {
                    if m.spec_position() < count - 1 {
                        assert(rest.contains(m));
                        let k = choose|k: int| 0 <= k < rest.len() && rest[k] == m;
                        assert(list[k] == m);
                    } else {
                        assert(m == last);
                        assert(list[rest.len() as int] == m);
                    }
                }
            }
            assert forall|i: int, j: int| 0 <= i < j < list.len() implies (#[trigger] list[i])
                .spec_position() < (#[trigger] list[j]).spec_position() by {
                if j == rest.len() {
                    assert(list[i] == rest[i]);
                    assert(rest.contains(rest[i]));
                    assert(list[j] == last);
                } else {
                    assert(list[i] == rest[i]);
                    assert(list[j] == rest[j]);
                }
            }
        }
    }

    /// A set is found again from its own listing.
    pub proof fn lemma_list_round_trip(self)
        ensures
            Modifiers::strictly_ordered(self.ordered()),
            Modifiers::of(self.ordered()) == self,
    {
        self.lemma_listed_below(NUM_MODIFIERS as nat);
        Modifiers::lemma_of_contains(self.ordered());
        assert forall|m: Modifier|
            Modifiers::of(self.ordered()).spec_contains(m) == self.spec_contains(m) by {
            m.lemma_position();
        }
        Modifiers::lemma_flags_decide(Modifiers::of(self.ordered()), self);
    }

    /// The empty set is the zero byte, and the only set with an empty listing.
    pub proof fn lemma_empty(self)
        ensures
            (self.bits == 0) == (self@ == Set::<Modifier>::empty()),
            (self.bits == 0) == (self.ordered().len() == 0),
    {
        let zero = Modifiers { bits: 0 };
        assert forall|m: Modifier| !zero.spec_contains(m) by {
            let k = m.spec_mask();
            assert(0u8 & k == 0) by (bit_vector);
        }
        self.lemma_listed_below(NUM_MODIFIERS as nat);
        if self.bits == 0 {
            assert(self@ =~= Set::<Modifier>::empty());
            if self.ordered().len() > 0 {
                assert(self.ordered().contains(self.ordered()[0]));
            }
        } else {
            if self@ == Set::<Modifier>::empty() || self.ordered().len() == 0 {
                assert forall|m: Modifier| self.spec_contains(m) == zero.spec_contains(m) by {
                    m.lemma_position();
                    if self@ == Set::<Modifier>::empty() {
                        assert(!self@.contains(m));
                    } else {
                        if self.spec_contains(m) {
                            assert(self.ordered().contains(m));
                        }
                    }
                }
                Modifiers::lemma_flags_decide(self, zero);
            }
        }
    }

    /// A list that names each flag at most once, in the order of declaration,
    /// is the listing of the set it stands for.
    pub proof fn lemma_ordered_canonical(list: Seq<Modifier>)
        requires
            Modifiers::strictly_ordered(list),
        ensures
            Modifiers::of(list).ordered() == list,
    {
        Modifiers::lemma_of_contains(list);
        let n = Modifiers::lemma_prefix(list, NUM_MODIFIERS as nat);
        if n < list.len() {
            list[n].lemma_position();
        }
        assert(list.take(n) =~= list);
    }

    /// The listing up to a place is a prefix of a strictly ordered list: the
    /// names before that place.
    proof fn lemma_prefix(list: Seq<Modifier>, count: nat) -> (n: int)
        requires
            Modifiers::strictly_ordered(list),
            count <= NUM_MODIFIERS,
            forall|m: Modifier|
                #![trigger list.contains(m)]
                Modifiers::of(list).spec_contains(m) == list.contains(m),
        ensures
            0 <= n <= list.len(),
            Modifiers::of(list).listed_below(count) == list.take(n),
            forall|i: int| 0 <= i < n ==> (#[trigger] list[i]).spec_position() < count,
            forall|i: int| n <= i < list.len() ==> (#[trigger] list[i]).spec_position() >= count,
        decreases count,
    {
        let set = Modifiers::of(list);
        if count == 0 {
            assert(set.listed_below(0) =~= list.take(0));
            0
        } else {
            let n = Modifiers::lemma_prefix(list, (count - 1) as nat);
            let m = Modifier::spec_at((count - 1) as u8);
            m.lemma_position();
            if n < list.len() && list[n].spec_position() == count - 1 {
                list[n].lemma_position();
                assert(list[n] == m);
                assert(list.contains(m));
                assert(list.take(n + 1) =~= list.take(n).push(m));
                assert forall|i: int| n + 1 <= i < list.len() implies (#[trigger] list[i])
                    .spec_position() >= count by {
                    assert(list[n].spec_position() < list[i].spec_position());
                }
                n + 1
            } else {
                if list.contains(m) {
                    let k = choose|k: int| 0 <= k < list.len() && list[k] == m;
                    if k >= n {
                        assert(list[k].spec_position() >= count - 1);
                        if k > n {
                            assert(list[n].spec_position() < list[k].spec_position());
                        }
                    }
                }
                n
            }
        }
    }
}

} // verus!
