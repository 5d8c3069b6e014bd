//! Selections of button lights, held as a bitset, and the directions of the lights.
use vstd::prelude::*;

use crate::bits::{
    bit64, highest_bit64, lemma_bit64_bound, lemma_bit64_ext, lemma_bit64_ops, lemma_seq64,
    lemma_seq64_drop_highest, lemma_seq64_drop_lowest, lemma_seq64_empty, lemma_seq64_gap,
    lemma_set64_step, lowest_bit64, seq64, set64,
    usize_seq_to_set,
};
use crate::button::Button;
use crate::buttons::Buttons;
use crate::random::choose_multiple;

verus! {

/// A selection of button lights on the tablet. There are 10 buttons with 4 lights each for a total
/// of 40 lights.
///
/// # Ordering
///
/// The order is in [`Button`] order from Button::B0 to Button::B9 where each button has 4 lights
/// together in the following order: "Top", "Left", "Right", "Bottom".
///
/// Its model is the set of the indices of the selected lights, each in `0..40`.
#[derive(Debug, Copy, Clone, PartialEq, Eq, Structural, PartialOrd, Ord, Hash)]
pub struct Lights {
    // bitset where lowest order bit represents the first button
    bits: u64,
}

impl View for Lights {
    type V = Set<int>;

    closed spec fn view(&self) -> Set<int> {
        set64(self.bits, 40)
    }
}

proof fn lemma_lights_constants(i: u64)
    by (bit_vector)
    requires
        i < 64,
    ensures
        ((0xff_ffff_ffffu64 >> i) & 1u64 == 1u64) == (i < 40),
        ((0x11_1111_1111u64 >> i) & 1u64 == 1u64) == (i < 40 && i % 4 == 0),
        ((0x22_2222_2222u64 >> i) & 1u64 == 1u64) == (i < 40 && i % 4 == 1),
        ((0x44_4444_4444u64 >> i) & 1u64 == 1u64) == (i < 40 && i % 4 == 2),
        ((0x88_8888_8888u64 >> i) & 1u64 == 1u64) == (i < 40 && i % 4 == 3),
{
}

/// The positions of the bits of the constant selections.
proof fn lemma_lights_constant_sets()
    ensures
        set64(0xff_ffff_ffffu64, 40) == Set::new(|i: int| 0 <= i < 40),
        set64(0x11_1111_1111u64, 40) == Set::new(|i: int| 0 <= i < 40 && i % 4 == 0),
        set64(0x22_2222_2222u64, 40) == Set::new(|i: int| 0 <= i < 40 && i % 4 == 1),
        set64(0x44_4444_4444u64, 40) == Set::new(|i: int| 0 <= i < 40 && i % 4 == 2),
        set64(0x88_8888_8888u64, 40) == Set::new(|i: int| 0 <= i < 40 && i % 4 == 3),
        set64(0u64, 40) == Set::<int>::empty(),
{
    assert forall|i: int| 0 <= i < 64 implies #[trigger] bit64(0xff_ffff_ffffu64, i) == (i < 40) by {
        lemma_lights_constants(i as u64);
    }
    assert forall|i: int| 0 <= i < 64 implies #[trigger] bit64(0x11_1111_1111u64, i) == (i < 40 && i % 4 == 0) by {
        lemma_lights_constants(i as u64);
    }
    assert forall|i: int| 0 <= i < 64 implies #[trigger] bit64(0x22_2222_2222u64, i) == (i < 40 && i % 4 == 1) by {
        lemma_lights_constants(i as u64);
    }
    assert forall|i: int| 0 <= i < 64 implies #[trigger] bit64(0x44_4444_4444u64, i) == (i < 40 && i % 4 == 2) by {
        lemma_lights_constants(i as u64);
    }
    assert forall|i: int| 0 <= i < 64 implies #[trigger] bit64(0x88_8888_8888u64, i) == (i < 40 && i % 4 == 3) by {
        lemma_lights_constants(i as u64);
    }
    lemma_bit64_ops(0, 0);
    assert(set64(0xff_ffff_ffffu64, 40) =~= Set::new(|i: int| 0 <= i < 40));
    assert(set64(0x11_1111_1111u64, 40) =~= Set::new(|i: int| 0 <= i < 40 && i % 4 == 0));
    assert(set64(0x22_2222_2222u64, 40) =~= Set::new(|i: int| 0 <= i < 40 && i % 4 == 1));
    assert(set64(0x44_4444_4444u64, 40) =~= Set::new(|i: int| 0 <= i < 40 && i % 4 == 2));
    assert(set64(0x88_8888_8888u64, 40) =~= Set::new(|i: int| 0 <= i < 40 && i % 4 == 3));
    assert(set64(0u64, 40) =~= Set::<int>::empty());
}

impl Lights {
    /// The number of lights on Boppo. Each button has four lights.
    ///
    /// NOTE: that this is not the number of lights in this selection which is obtained by calling
    /// `self.len()`.
    pub const COUNT: usize = 40;

    #[verifier::type_invariant]
    spec fn wf(self) -> bool {
        self.bits < 0x100_0000_0000
    }

    /// The bits of this selection, as [`Lights::as_bitset`] returns them.
    pub closed spec fn spec_bits(self) -> u64 {
        self.bits
    }

    /// The indices of the selected buttons in increasing order.
    pub closed spec fn index_seq(self) -> Seq<int> {
        seq64(self.bits, 40)
    }

    /// The model of a selection: a finite set of indices below 40, which `index_seq` lists in
    /// increasing order.
    pub proof fn lemma_view_facts(self)
        ensures
            self@.finite(),
            forall|i: int| #[trigger] self@.contains(i) ==> 0 <= i < 40,
            forall|k: int| 0 <= k < self.index_seq().len() ==> 0 <= #[trigger] self.index_seq()[k] < 40,
            self.index_seq().to_set() == self@,
            self.index_seq().len() == self@.len(),
            self.index_seq().no_duplicates(),
            forall|k: int, l: int|
                0 <= k < l < self.index_seq().len() ==> #[trigger] self.index_seq()[k]
                    < #[trigger] self.index_seq()[l],
            self@ == set64(self.spec_bits(), 40),
    {
        lemma_seq64(self.bits, 40);
    }

    /// Two selections of the same buttons are equal.
    pub proof fn lemma_view_determines(a: Lights, b: Lights)
        requires
            a.spec_bits() < 0x100_0000_0000,
            b.spec_bits() < 0x100_0000_0000,
            a@ == b@,
        ensures
            a == b,
    {
        lemma_bit64_bound(a.bits, b.bits);
        lemma_bit64_bound(b.bits, a.bits);
        assert forall|i: int| 0 <= i < 64 implies bit64(a.bits, i) == bit64(b.bits, i) by {
            if i < 40 {
                assert(a@.contains(i) == b@.contains(i));
                assert(a@.contains(i) == bit64(a.bits, i));
                assert(b@.contains(i) == bit64(b.bits, i));
            } else {
                assert(!bit64(a.bits, i));
                assert(!bit64(b.bits, i));
            }
        }
        lemma_bit64_ext(a.bits, b.bits);
    }

    /// Returns a selection containing all indices marked true in `arr`.
    ///
    /// Not defined when `arr.len() > Lights::COUNT`: `requires` rules it out.
    #[must_use]
    pub fn from_slice(arr: &[bool]) -> (r: Lights)
        requires
            arr.len() <= 40,
        ensures
            r@ == Set::new(|i: int| 0 <= i < arr.len() && arr[i]),
    {
        let mut bits: u64 = 0;
        let mut i: usize = 0;
        proof {
            lemma_bit64_ops(0, 0);
        }
        while i < arr.len()
            invariant
                arr.len() <= 40,
                i <= arr.len(),
                bits < 0x100_0000_0000,
                forall|j: int| 0 <= j < 64 ==> #[trigger] bit64(bits, j) == (j < i && arr[j]),
            decreases arr.len() - i,
        {
            if arr[i] {
                let old_bits = bits;
                bits = bits | (1u64 << (i as u64));
                proof {
                    lemma_bit64_ops(old_bits, 1u64 << (i as u64));
                    lemma_bit64_ops(0, i as u64);
                    lemma_bit64_bound(old_bits, 1u64 << (i as u64));
                }
            }
            i = i + 1;
        }
        let r = Lights { bits };
        assert(r@ =~= Set::new(|i: int| 0 <= i < arr.len() && arr[i]));
        r
    }

    /// Returns a [`Lights`] with only the light at `light_index` selected.
    ///
    /// Not defined when `light_index >= Lights::COUNT`: `requires` rules it out.
    #[must_use]
    pub fn from_index(light_index: usize) -> (r: Lights)
        requires
            light_index < 40,
        ensures
            r@ == set![light_index as int],
    {
        let bits = 1u64 << (light_index as u64);
        proof {
            lemma_bit64_ops(0, light_index as u64);
            lemma_bit64_bound(0, 0);
        }
        let r = Lights { bits };
        assert(r@ =~= set![light_index as int]);
        r
    }

    /// Returns a new [`Lights`] constructed from the button indices in `indexes`.
    ///
    /// Not defined when `indexes` holds an index `>= Lights::COUNT`: `requires` rules it out.
    pub fn from_indices(indexes: &[usize]) -> (r: Lights)
        requires
            forall|k: int| 0 <= k < indexes.len() ==> #[trigger] indexes[k] < 40,
        ensures
            r@ == usize_seq_to_set(indexes@),
    {
        let mut bits: u64 = 0;
        let mut k: usize = 0;
        proof {
            lemma_bit64_ops(0, 0);
        }
        while k < indexes.len()
            invariant
                k <= indexes.len(),
                forall|k: int| 0 <= k < indexes.len() ==> #[trigger] indexes[k] < 40,
                bits < 0x100_0000_0000,
                forall|j: int|
                    0 <= j < 64 ==> #[trigger] bit64(bits, j) == exists|l: int|
                        0 <= l < k && indexes[l] == j,
            decreases indexes.len() - k,
        {
            let index = indexes[k];
            let old_bits = bits;
            bits = bits | (1u64 << (index as u64));
            proof {
                lemma_bit64_ops(old_bits, 1u64 << (index as u64));
                lemma_bit64_ops(0, index as u64);
                lemma_bit64_bound(old_bits, 1u64 << (index as u64));
                assert forall|j: int| 0 <= j < 64 implies #[trigger] bit64(bits, j) == exists|l: int|
                    0 <= l < k + 1 && indexes[l] == j by {
                    assert(bit64(bits, j) == (bit64(old_bits, j) || j == index));
                    assert(bit64(old_bits, j) == exists|l: int| 0 <= l < k && indexes[l] == j);
                    if j == index {
                        assert(indexes[k as int] == j);
                    }
                    if exists|l: int| 0 <= l < k + 1 && indexes[l] == j {
                        let l = choose|l: int| 0 <= l < k + 1 && indexes[l] == j;
                        if l < k {
                            assert(exists|l2: int| 0 <= l2 < k && indexes[l2] == j);
                        }
                    }
                }
            }
            k = k + 1;
        }
        let r = Lights { bits };
        proof {
            let s = indexes@.map_values(|x: usize| x as int);
            assert forall|j: int| r@.contains(j) == s.to_set().contains(j) by {
                if r@.contains(j) {
                    let l = choose|l: int| 0 <= l < k && indexes[l] == j;
                    assert(s[l] == j);
                }
                if s.to_set().contains(j) {
                    let l = choose|l: int| 0 <= l < s.len() && s[l] == j;
                    assert(indexes[l] == j);
                    assert(0 <= j < 40);
                }
            }
            assert(r@ =~= usize_seq_to_set(indexes@));
        }
        r
    }

    /// Returns a new [`Lights`] with `bits`. Each bit in `bits` represents whether an individual
    /// light has been selected. The least significant bit selects the top light of
    /// [`Button::B0`].
    ///
    /// Not defined when `bits >> Lights::COUNT != 0`: `requires` rules it out.
    #[must_use]
    pub fn from_bitset(bits: u64) -> (r: Lights)
        requires
            bits < 0x100_0000_0000,
        ensures
            r@ == set64(bits, 40),
            r.spec_bits() == bits,
    {
        Lights { bits }
    }

    /// Returns a [`Lights`] with every light selected.
    #[must_use]
    pub fn all() -> (r: Lights)
        ensures
            r@ == Set::new(|i: int| 0 <= i < 40),
    {
        proof {
            lemma_lights_constant_sets();
        }
        Lights { bits: 0xff_ffff_ffff }
    }

    /// Returns a [`Lights`] with no light selected.
    #[must_use]
    pub fn none() -> (r: Lights)
        ensures
            r@ == Set::<int>::empty(),
    {
        proof {
            lemma_lights_constant_sets();
        }
        Lights { bits: 0 }
    }

    /// Returns the number of lights in this selection.
    #[must_use]
    pub fn len(&self) -> (n: u32)
        ensures
            n == self@.len(),
    {
        let mut n: u32 = 0;
        let mut i: u64 = 0;
        proof {
            assert(set64(self.bits, 0) =~= Set::<int>::empty());
        }
        while i < 40
            invariant
                i <= 40,
                n == set64(self.bits, i as int).len(),
                set64(self.bits, i as int).finite(),
                set64(self.bits, i as int).len() <= i,
            decreases 40 - i,
        {
            proof {
                lemma_set64_step(self.bits, i as int);
            }
            if (self.bits >> i) & 1 == 1 {
                n = n + 1;
            }
            i = i + 1;
        }
        n
    }

    /// Returns `true` if no lights are selected.
    #[must_use]
    pub fn is_empty(&self) -> (b: bool)
        ensures
            b == (self@ == Set::<int>::empty()),
    {
        proof {
            use_type_invariant(self);
            lemma_lights_constant_sets();
        }
        let b = self.bits == 0;
        proof {
            if !b && self@ == Set::<int>::empty() {
                Self::lemma_view_determines(*self, Lights { bits: 0 });
            }
        }
        b
    }

    /// Returns `true` if `other` selects only lights that `self` selects.
    #[must_use]
    pub fn is_superset(&self, other: Self) -> (b: bool)
        ensures
            b == other@.subset_of(self@),
    {
        proof {
            use_type_invariant(self);
            use_type_invariant(&other);
            lemma_bit64_ops(self.bits, other.bits);
            lemma_bit64_bound(self.bits, other.bits);
            lemma_bit64_bound(other.bits, self.bits);
        }
        let b = (self.bits | other.bits) == self.bits;
        proof {
            if other@.subset_of(self@) {
                assert forall|i: int| 0 <= i < 64 implies bit64(self.bits | other.bits, i) == bit64(
                    self.bits,
                    i,
                ) by {
                    if i < 40 && bit64(other.bits, i) {
                        assert(other@.contains(i));
                    }
                }
                lemma_bit64_ext(self.bits | other.bits, self.bits);
            }
            if b {
                assert forall|i: int| other@.contains(i) implies self@.contains(i) by {
                    assert(bit64(self.bits | other.bits, i));
                }
            }
        }
        b
    }

    /// Returns `true` if `other` selects only lights that `self` selects (the same test as
    /// [`Lights::is_superset`]).
    #[must_use]
    pub fn is_subset(&self, other: Self) -> (b: bool)
        ensures
            b == other@.subset_of(self@),
    {
        self.is_superset(other)
    }

    /// Returns a double-ended iterator over the indices of every light in this selection,
    /// lowest first.
    #[must_use]
    pub fn indices(&self) -> (it: LightIndices)
        ensures
            it@ == self.index_seq(),
    {
        proof {
            use_type_invariant(self);
            lemma_bit64_bound(self.bits, self.bits);
            lemma_seq64_gap(self.bits, 40, 64);
        }
        LightIndices { bits: self.bits }
    }

    /// Returns the inversion of the current selection.
    #[must_use]
    pub fn invert(&self) -> (r: Lights)
        ensures
            r == Lights::invert_spec_of(*self),
            r@ == Set::new(|i: int| 0 <= i < 40 && !self@.contains(i)),
    {
        let bits = (!self.bits) & 0xff_ffff_ffff;
        proof {
            lemma_bit64_ops(!self.bits, 0xff_ffff_ffff);
            lemma_bit64_ops(self.bits, 0);
            lemma_bit64_bound(self.bits, 0);
            lemma_lights_constant_sets();
            assert forall|i: int| 0 <= i < 40 implies #[trigger] bit64(0xff_ffff_ffffu64, i) by {
                assert(set64(0xff_ffff_ffffu64, 40).contains(i));
            }
        }
        let r = Lights { bits };
        assert(r@ =~= Set::new(|i: int| 0 <= i < 40 && !self@.contains(i)));
        r
    }

    /// Randomly choose `n` of the lights that are active in `self`.
    ///
    /// Not defined when `n > Lights::COUNT`: `requires` rules it out.
    #[must_use]
    pub fn choose_n_randomly(&self, n: usize) -> (r: Lights)
        requires
            n <= 40,
        ensures
            r@.subset_of(self@),
            r@.len() == if n < self@.len() { n as int } else { self@.len() as int },
    {
        let items = self.indices().into_vec();
        let ghost seq = self.index_seq();
        proof {
            self.lemma_view_facts();
            assert(items@.no_duplicates()) by {
                assert forall|k: int, l: int|
                    0 <= k < items.len() && 0 <= l < items.len() && k != l implies items[k]
                    != items[l] by {
                    assert(items[k] == seq[k] && items[l] == seq[l]);
                }
            }
        }
        let picked = choose_multiple(items, n);
        proof {
            assert forall|k: int| 0 <= k < picked.len() implies #[trigger] picked[k] < 40 by {
                let l = choose|l: int| 0 <= l < items.len() && items[l] == picked[k];
                assert(items[l] == seq[l]);
            }
        }
        let r = Self::from_indices(picked.as_slice());
        proof {
            let s = picked@.map_values(|x: usize| x as int);
            assert(s.no_duplicates()) by {
                assert forall|k: int, l: int| 0 <= k < s.len() && 0 <= l < s.len() && k != l implies s[k]
                    != s[l] by {
                    assert(picked[k] != picked[l]);
                }
            }
            s.unique_seq_to_set();
            assert forall|j: int| r@.contains(j) implies self@.contains(j) by {
                let k = choose|k: int| 0 <= k < s.len() && s[k] == j;
                assert(items@.contains(picked[k]));
                let l = choose|l: int| 0 <= l < items.len() && items[l] == picked[k];
                assert(items[l] == seq[l]);
                assert(seq.to_set().contains(seq[l]));
            }
        }
        r
    }

    /// Return the Lights as if the device was rotated 180 degrees: light `i` becomes light
    /// `39 - i`.
    #[must_use]
    pub fn rotate_180(&self) -> (r: Lights)
        ensures
            r@ == Set::new(|i: int| 0 <= i < 40 && self@.contains(39 - i)),
    {
        let mut bits: u64 = 0;
        let mut i: u64 = 0;
        proof {
            lemma_bit64_ops(0, 0);
        }
        while i < 40
            invariant
                i <= 40,
                bits < 0x100_0000_0000,
                forall|j: int|
                    0 <= j < 64 ==> #[trigger] bit64(bits, j) == (0 <= j < 40 && 39 - j < i
                        && bit64(self.bits, 39 - j)),
            decreases 40 - i,
        {
            if (self.bits >> i) & 1 == 1 {
                let old_bits = bits;
                bits = bits | (1u64 << (39 - i));
                proof {
                    lemma_bit64_ops(old_bits, 1u64 << ((39 - i) as u64));
                    lemma_bit64_ops(0, (39 - i) as u64);
                    lemma_bit64_bound(old_bits, 1u64 << ((39 - i) as u64));
                }
            }
            i = i + 1;
        }
        let r = Lights { bits };
        assert(r@ =~= Set::new(|i: int| 0 <= i < 40 && self@.contains(39 - i)));
        r
    }

    /// All 4 lights of `button`.
    #[must_use]
    pub fn all_from_button(button: Button) -> (r: Lights)
        ensures
            r@ == Set::new(|i: int| 0 <= i < 40 && i / 4 == button.spec_index()),
    {
        let shift = (button.index() * 4) as u64;
        let bits = 0b1111u64 << shift;
        proof {
            lemma_nibble(shift);
        }
        let r = Lights::from_bitset(bits);
        assert(r@ =~= Set::new(|i: int| 0 <= i < 40 && i / 4 == button.spec_index()));
        r
    }

    /// Returns a new [`Lights`] with only the lights in the `dir` direction from this selection.
    #[must_use]
    pub fn only(self, dir: LightDir) -> (r: Lights)
        ensures
            r@ == Set::new(|i: int| self@.contains(i) && i % 4 == dir.spec_index()),
    {
        let mask = dir.light_on_all_buttons().as_bitset();
        proof {
            use_type_invariant(&self);
            lemma_bit64_ops(self.bits, mask);
            lemma_bit64_bound(self.bits, mask);
        }
        let r = Lights::from_bitset(self.as_bitset() & mask);
        proof {
            assert forall|i: int| r@.contains(i) == (self@.contains(i) && i % 4 == dir.spec_index()) by {
                if 0 <= i < 40 {
                    assert(set64(mask, 40).contains(i) == bit64(mask, i));
                    assert(bit64(self.bits & mask, i) == (bit64(self.bits, i) && bit64(mask, i)));
                }
            }
        }
        assert(r@ =~= Set::new(|i: int| self@.contains(i) && i % 4 == dir.spec_index()));
        r
    }

    /// A compact representation: the least significant bit is set when the top light of button 0
    /// is selected.
    #[must_use]
    pub fn as_bitset(&self) -> (bits: u64)
        ensures
            bits == self.spec_bits(),
            bits < 0x100_0000_0000,
            set64(bits, 40) == self@,
    {
        proof {
            use_type_invariant(self);
        }
        self.bits
    }

}

/// An iterator over the indices of the lights of a selection, lowest first, that can also be
/// consumed from the highest end.
pub struct LightIndices {
    bits: u64,
}

impl View for LightIndices {
    type V = Seq<int>;

    /// The indices not yet returned, in increasing order.
    closed spec fn view(&self) -> Seq<int> {
        seq64(self.bits, 64)
    }
}

impl LightIndices {
    #[verifier::type_invariant]
    spec fn wf(self) -> bool {
        self.bits < 0x100_0000_0000
    }

    /// Returns the lowest index not yet returned.
    pub fn next(&mut self) -> (r: Option<usize>)
        ensures
            old(self)@.len() == 0 ==> r is None && final(self)@ == old(self)@,
            old(self)@.len() > 0 ==> r == Some(old(self)@[0] as usize) && final(self)@ == old(
                self,
            )@.drop_first(),
            r matches Some(i) ==> i < 40,
            forall|k: int| 0 <= k < old(self)@.len() ==> 0 <= #[trigger] old(self)@[k] < 40,
    {
        proof {
            use_type_invariant(&*self);
            lemma_seq64_empty(self.bits);
            lemma_bit64_bound(self.bits, 0);
            lemma_seq64(self.bits, 64);
        }
        if self.bits == 0 {
            None
        } else {
            let t = lowest_bit64(self.bits);
            proof {
                lemma_seq64_drop_lowest(self.bits, t, 64);
                lemma_bit64_ops(self.bits, 1u64 << t);
                lemma_bit64_ops(0, t);
                lemma_bit64_bound(self.bits, 1u64 << t);
            }
            self.bits = self.bits ^ (1u64 << t);
            Some(t as usize)
        }
    }

    /// Returns the highest index not yet returned.
    pub fn next_back(&mut self) -> (r: Option<usize>)
        ensures
            old(self)@.len() == 0 ==> r is None && final(self)@ == old(self)@,
            old(self)@.len() > 0 ==> r == Some(old(self)@.last() as usize) && final(self)@ == old(
                self,
            )@.drop_last(),
            r matches Some(i) ==> i < 40,
            forall|k: int| 0 <= k < old(self)@.len() ==> 0 <= #[trigger] old(self)@[k] < 40,
    {
        proof {
            use_type_invariant(&*self);
            lemma_seq64_empty(self.bits);
            lemma_bit64_bound(self.bits, 0);
            lemma_seq64(self.bits, 64);
        }
        if self.bits == 0 {
            None
        } else {
            let h = highest_bit64(self.bits);
            proof {
                lemma_seq64_drop_highest(self.bits, h, 64);
                lemma_bit64_ops(self.bits, 1u64 << h);
                lemma_bit64_ops(0, h);
                lemma_bit64_bound(self.bits, 1u64 << h);
            }
            self.bits = self.bits ^ (1u64 << h);
            Some(h as usize)
        }
    }

    /// Collects the indices not yet returned, lowest first.
    pub fn into_vec(self) -> (v: Vec<usize>)
        ensures
            v@.len() == self@.len(),
            forall|k: int| 0 <= k < v.len() ==> v[k] == self@[k],
    {
        let mut it = self;
        let mut v: Vec<usize> = Vec::new();
        let ghost whole = self@;
        proof {
            assert(whole =~= v@.map_values(|x: usize| x as int) + it@);
        }
        while it.bits != 0
            invariant
                whole == v@.map_values(|x: usize| x as int) + it@,
            decreases it@.len(),
        {
            proof {
                lemma_seq64_empty(it.bits);
            }
            let ghost before_v = v@;
            let ghost before_it = it@;
            if let Some(i) = it.next() {
                v.push(i);
                proof {
                    assert(v@.map_values(|x: usize| x as int) =~= before_v.map_values(
                        |x: usize| x as int,
                    ).push(i as int));
                    assert(before_it =~= seq![i as int] + it@);
                    assert(whole =~= v@.map_values(|x: usize| x as int) + it@);
                }
            }
        }
        proof {
            lemma_seq64_empty(it.bits);
            assert(whole =~= v@.map_values(|x: usize| x as int));
            assert forall|k: int| 0 <= k < v.len() implies v[k] == whole[k] by {
                assert(v@.map_values(|x: usize| x as int)[k] == v[k] as int);
            }
        }
        v
    }
}



impl vstd::std_specs::convert::FromSpecImpl<Button> for Lights {
    open spec fn obeys_from_spec() -> bool {
        true
    }

    open spec fn from_spec(v: Button) -> Lights {
        Lights::button_lights_spec(v)
    }
}

impl From<Button> for Lights {
    /// All 4 lights of `button`.
    fn from(button: Button) -> (r: Lights) {
        let r = Lights::all_from_button(button);
        proof {
            use_type_invariant(&r);
            Lights::lemma_button_lights_spec(button, r);
        }
        r
    }
}

impl vstd::std_specs::convert::FromSpecImpl<Buttons> for Lights {
    open spec fn obeys_from_spec() -> bool {
        true
    }

    open spec fn from_spec(v: Buttons) -> Lights {
        Lights::buttons_lights_spec(v)
    }
}

impl From<Buttons> for Lights {
    /// Every light of every button in `buttons`.
    fn from(buttons: Buttons) -> (r: Lights) {
        let r = buttons.lights();
        proof {
            use_type_invariant(&r);
            Lights::lemma_buttons_lights_spec(buttons, r);
        }
        r
    }
}

impl Lights {
    /// The selection of all 4 lights of `button`.
    pub closed spec fn button_lights_spec(button: Button) -> Lights {
        Lights { bits: (0b1111u64 << (4 * button.spec_index()) as u64) }
    }

    /// The selection of every light of every button in `buttons`.
    pub closed spec fn buttons_lights_spec(buttons: Buttons) -> Lights {
        Lights { bits: choose|b: u64| b < 0x100_0000_0000 && set64(b, 40) == Set::new(|i: int| 0 <= i < 40 && buttons@.contains(i / 4)) }
    }

    proof fn lemma_button_lights_spec(button: Button, r: Lights)
        requires
            r@ == Set::new(|i: int| 0 <= i < 40 && i / 4 == button.spec_index()),
            r.bits < 0x100_0000_0000,
        ensures
            r == Lights::button_lights_spec(button),
    {
        let s = (4 * button.spec_index()) as u64;
        lemma_nibble(s);
        let other = Lights::button_lights_spec(button);
        assert forall|i: int| 0 <= i < 64 implies bit64(r.bits, i) == bit64(other.bits, i) by {
            lemma_bit64_bound(r.bits, 0);
            if i < 40 {
                assert(r@.contains(i) == (i / 4 == button.spec_index()));
            }
        }
        lemma_bit64_ext(r.bits, other.bits);
    }

    proof fn lemma_buttons_lights_spec(buttons: Buttons, r: Lights)
        requires
            r@ == Set::new(|i: int| 0 <= i < 40 && buttons@.contains(i / 4)),
            r.bits < 0x100_0000_0000,
        ensures
            r == Lights::buttons_lights_spec(buttons),
    {
        let other = Lights::buttons_lights_spec(buttons);
        assert(r.bits < 0x100_0000_0000 && set64(r.bits, 40) == Set::new(|i: int| 0 <= i < 40 && buttons@.contains(i / 4)));
        lemma_bit64_bound(r.bits, other.bits);
        lemma_bit64_bound(other.bits, r.bits);
        assert forall|i: int| 0 <= i < 64 implies bit64(r.bits, i) == bit64(other.bits, i) by {
            if i < 40 {
                assert(set64(r.bits, 40).contains(i) == set64(other.bits, 40).contains(i));
            }
        }
        lemma_bit64_ext(r.bits, other.bits);
    }
}

proof fn lemma_nibble_point(s: u64, j: u64)
    by (bit_vector)
    requires
        s <= 36,
        j < 64,
    ensures
        ((15u64 << s) >> j) & 1u64 == 1u64 <==> s <= j && j < s + 4,
        (15u64 << s) < 0x100_0000_0000u64,
{
}

/// The four bits that `0b1111 << s` sets: those of the lights of one button when `s` is four
/// times the button's index.
pub proof fn lemma_nibble(s: u64)
    requires
        s <= 36,
    ensures
        forall|j: int| #[trigger] bit64(15u64 << s, j) == (s <= j < s + 4),
        (15u64 << s) < 0x100_0000_0000u64,
{
    lemma_nibble_point(s, 0);
    assert forall|j: int| #[trigger] bit64(15u64 << s, j) == (s <= j < s + 4) by {
        if 0 <= j < 64 {
            lemma_nibble_point(s, j as u64);
        }
    }
}

/// The directions lights are positioned around the buttons.
///
/// When [`Row::Top`][crate::Row::Top] (e.g. [`Button::B0`]) is further away from the user than
/// [`Row::Bottom`][crate::Row::Bottom] (e.g. [`Button::B5`]), [`LightDir::Top`] is also the
/// furthest from the user and [`LightDir::Bottom`] is the closest.
#[derive(Debug, Copy, Clone, PartialEq, Eq, Structural, PartialOrd, Ord, Hash)]
pub enum LightDir {
    /// The light furthest from the user.
    Top,
    /// The light on the left.
    Left,
    /// The light on the right.
    Right,
    /// The light closest to the user.
    Bottom,
}

/// The direction that comes after direction `i` going clockwise (Top, Right, Bottom, Left).
pub open spec fn clockwise_dir_index(i: int) -> int {
    if i == 0 {
        2
    } else if i == 2 {
        3
    } else if i == 3 {
        1
    } else {
        0
    }
}

impl LightDir {
    /// The position of this light among the four lights of a button: Top 0, Left 1, Right 2,
    /// Bottom 3.
    pub open spec fn spec_index(self) -> int {
        match self {
            LightDir::Top => 0,
            LightDir::Left => 1,
            LightDir::Right => 2,
            LightDir::Bottom => 3,
        }
    }

    /// The position of this light among the four lights of a button.
    pub fn index(self) -> (i: usize)
        ensures
            i == self.spec_index(),
    {
        match self {
            LightDir::Top => 0,
            LightDir::Left => 1,
            LightDir::Right => 2,
            LightDir::Bottom => 3,
        }
    }

    /// Returns all four [`LightDir`] variants, ordered clockwise starting at [`LightDir::Top`].
    #[must_use]
    pub fn all_clockwise_from_top() -> (dirs: [LightDir; 4])
        ensures
            dirs[0] == LightDir::Top,
            forall|k: int| 0 <= k < 3 ==> (#[trigger] dirs[k + 1]).spec_index() == clockwise_dir_index(
                dirs[k].spec_index(),
            ),
    {
        [LightDir::Top, LightDir::Right, LightDir::Bottom, LightDir::Left]
    }

    /// Returns the next [`LightDir`] clockwise from `self`.
    #[must_use]
    pub fn clockwise(self) -> (d: LightDir)
        ensures
            d.spec_index() == clockwise_dir_index(self.spec_index()),
    {
        match self {
            LightDir::Top => LightDir::Right,
            LightDir::Left => LightDir::Top,
            LightDir::Right => LightDir::Bottom,
            LightDir::Bottom => LightDir::Left,
        }
    }

    /// Returns the next [`LightDir`] counter-clockwise from `self`.
    #[must_use]
    pub fn counter_clockwise(self) -> (d: LightDir)
        ensures
            clockwise_dir_index(d.spec_index()) == self.spec_index(),
    {
        match self {
            LightDir::Top => LightDir::Left,
            LightDir::Left => LightDir::Bottom,
            LightDir::Right => LightDir::Top,
            LightDir::Bottom => LightDir::Right,
        }
    }

    /// Returns [`Some`] if `idx < 4`, [`None`] otherwise. Converts `idx` to the corresponding
    /// [`LightDir`] variant.
    #[must_use]
    pub fn from_index(idx: usize) -> (d: Option<LightDir>)
        ensures
            idx < 4 <==> d is Some,
            d matches Some(dir) ==> dir.spec_index() == idx,
    {
        match idx {
            0 => Some(LightDir::Top),
            1 => Some(LightDir::Left),
            2 => Some(LightDir::Right),
            3 => Some(LightDir::Bottom),
            _ => None,
        }
    }

    /// Returns a [`Lights`] with every light that corresponds to this [`LightDir`] selected.
    #[must_use]
    pub fn light_on_all_buttons(self) -> (r: Lights)
        ensures
            r@ == Set::new(|i: int| 0 <= i < 40 && i % 4 == self.spec_index()),
    {
        proof {
            lemma_lights_constant_sets();
        }
        Lights::from_bitset(
            match self {
                LightDir::Top => 0x11_1111_1111,
                LightDir::Left => 0x22_2222_2222,
                LightDir::Right => 0x44_4444_4444,
                LightDir::Bottom => 0x88_8888_8888,
            },
        )
    }
}

/// Turning clockwise and then counter-clockwise returns to the same direction, and four clockwise
/// turns come back to the start.
pub proof fn lemma_light_dir_turns(a: LightDir, b: LightDir, c: LightDir)
    requires
        b.spec_index() == clockwise_dir_index(a.spec_index()),
        clockwise_dir_index(c.spec_index()) == b.spec_index(),
    ensures
        c == a,
        clockwise_dir_index(
            clockwise_dir_index(clockwise_dir_index(clockwise_dir_index(a.spec_index()))),
        ) == a.spec_index(),
{
}


impl vstd::std_specs::ops::BitAndSpecImpl for Lights {
    open spec fn obeys_bitand_spec() -> bool {
        true
    }

    open spec fn bitand_req(self, rhs: Lights) -> bool {
        true
    }

    open spec fn bitand_spec(self, rhs: Lights) -> Lights {
        Lights::bitand_spec_of(self, rhs)
    }
}

impl core::ops::BitAnd for Lights {
    type Output = Lights;

    /// The selections of both `self` and `rhs`.
    fn bitand(self, rhs: Lights) -> (r: Lights)
        ensures
            r@ == self@.intersect(rhs@),
    {
        proof {
            use_type_invariant(&self);
            use_type_invariant(&rhs);
            lemma_bit64_bound(self.bits, rhs.bits);
            Lights::lemma_set_ops(self, rhs);
        }
        Lights { bits: self.bits & rhs.bits }
    }
}

impl vstd::std_specs::ops::BitOrSpecImpl for Lights {
    open spec fn obeys_bitor_spec() -> bool {
        true
    }

    open spec fn bitor_req(self, rhs: Lights) -> bool {
        true
    }

    open spec fn bitor_spec(self, rhs: Lights) -> Lights {
        Lights::bitor_spec_of(self, rhs)
    }
}

impl core::ops::BitOr for Lights {
    type Output = Lights;

    /// The selections of either `self` or `rhs`.
    fn bitor(self, rhs: Lights) -> (r: Lights)
        ensures
            r@ == self@.union(rhs@),
    {
        proof {
            use_type_invariant(&self);
            use_type_invariant(&rhs);
            lemma_bit64_bound(self.bits, rhs.bits);
            Lights::lemma_set_ops(self, rhs);
        }
        Lights { bits: self.bits | rhs.bits }
    }
}

impl vstd::std_specs::ops::BitXorSpecImpl for Lights {
    open spec fn obeys_bitxor_spec() -> bool {
        true
    }

    open spec fn bitxor_req(self, rhs: Lights) -> bool {
        true
    }

    open spec fn bitxor_spec(self, rhs: Lights) -> Lights {
        Lights::bitxor_spec_of(self, rhs)
    }
}

impl core::ops::BitXor for Lights {
    type Output = Lights;

    /// The selections of exactly one of `self` and `rhs`.
    fn bitxor(self, rhs: Lights) -> (r: Lights)
        ensures
            r@ == self@.difference(rhs@).union(rhs@.difference(self@)),
    {
        proof {
            use_type_invariant(&self);
            use_type_invariant(&rhs);
            lemma_bit64_bound(self.bits, rhs.bits);
            Lights::lemma_set_ops(self, rhs);
        }
        Lights { bits: self.bits ^ rhs.bits }
    }
}

impl Lights {
    /// The selection of what `a` does not select.
    pub closed spec fn invert_spec_of(a: Lights) -> Lights {
        Lights { bits: (!a.bits) & 0xff_ffff_ffff }
    }

    /// The selection of both `a` and `b`.
    pub closed spec fn bitand_spec_of(a: Lights, b: Lights) -> Lights {
        Lights { bits: a.bits & b.bits }
    }

    /// The selection of either `a` or `b`.
    pub closed spec fn bitor_spec_of(a: Lights, b: Lights) -> Lights {
        Lights { bits: a.bits | b.bits }
    }

    /// The selection of exactly one of `a` and `b`.
    pub closed spec fn bitxor_spec_of(a: Lights, b: Lights) -> Lights {
        Lights { bits: a.bits ^ b.bits }
    }

    /// What `&`, `|` and `^` select.
    pub proof fn lemma_set_ops(a: Lights, b: Lights)
        ensures
            Lights::bitand_spec_of(a, b)@ == a@.intersect(b@),
            Lights::bitor_spec_of(a, b)@ == a@.union(b@),
            Lights::bitxor_spec_of(a, b)@ == a@.difference(b@).union(b@.difference(a@)),
    {
        lemma_bit64_ops(a.bits, b.bits);
        assert(Lights::bitand_spec_of(a, b)@ =~= a@.intersect(b@));
        assert(Lights::bitor_spec_of(a, b)@ =~= a@.union(b@));
        assert(Lights::bitxor_spec_of(a, b)@ =~= a@.difference(b@).union(b@.difference(a@)));
    }
}

impl vstd::std_specs::ops::NotSpecImpl for Lights {
    open spec fn obeys_not_spec() -> bool {
        true
    }

    open spec fn not_req(self) -> bool {
        true
    }

    open spec fn not_spec(self) -> Lights {
        Lights::invert_spec_of(self)
    }
}

impl core::ops::BitAndAssign for Lights {
    /// Keeps only the selections that `rhs` also has.
    fn bitand_assign(&mut self, rhs: Lights)
        ensures
            final(self)@ == old(self)@.intersect(rhs@),
    {
        *self = *self & rhs;
    }
}

impl core::ops::BitOrAssign for Lights {
    /// Adds the selections of `rhs`.
    fn bitor_assign(&mut self, rhs: Lights)
        ensures
            final(self)@ == old(self)@.union(rhs@),
    {
        *self = *self | rhs;
    }
}

impl core::ops::BitXorAssign for Lights {
    /// Keeps the selections of exactly one of `self` and `rhs`.
    fn bitxor_assign(&mut self, rhs: Lights)
        ensures
            final(self)@ == old(self)@.difference(rhs@).union(rhs@.difference(old(self)@)),
    {
        *self = *self ^ rhs;
    }
}

impl core::ops::Not for Lights {
    type Output = Lights;

    /// The inversion of the selection, as [`Lights::invert`] gives it.
    fn not(self) -> (r: Lights)
        ensures
            r@ == Set::new(|i: int| 0 <= i < 40 && !self@.contains(i)),
    {
        self.invert()
    }
}


proof fn lemma_invert_bits_64(a: u64)
    by (bit_vector)
    requires
        a < 0x100_0000_0000,
    ensures
        (!((!a) & 0xff_ffff_ffff)) & 0xff_ffff_ffff == a,
{
}

/// Inverting a selection twice gives it back.
pub proof fn lemma_lights_invert_involution(a: Lights)
    requires
        a.spec_bits() < 0x100_0000_0000,
    ensures
        Lights::invert_spec_of(Lights::invert_spec_of(a)) == a,
{
    lemma_invert_bits_64(a.spec_bits());
}

/// A selection and its inversion split the 40 positions between them.
pub proof fn lemma_lights_invert_len(a: Lights)
    ensures
        Lights::invert_spec_of(a)@.disjoint(a@),
        Lights::invert_spec_of(a)@ + a@ == vstd::set_lib::set_int_range(0, 40),
        Lights::invert_spec_of(a)@.len() + a@.len() == 40,
{
    let inv = Lights::invert_spec_of(a);
    lemma_bit64_ops(!a.spec_bits(), 0xff_ffff_ffff);
    lemma_bit64_ops(a.spec_bits(), 0);
    lemma_lights_constant_sets();
    assert forall|i: int| 0 <= i < 40 implies #[trigger] bit64(0xff_ffff_ffffu64, i) by {
        assert(set64(0xff_ffff_ffffu64, 40).contains(i));
    }
    inv.lemma_view_facts();
    a.lemma_view_facts();
    assert(inv@ =~= Set::new(|i: int| 0 <= i < 40 && !a@.contains(i)));
    assert(inv@ + a@ =~= vstd::set_lib::set_int_range(0, 40));
    vstd::set_lib::lemma_int_range(0, 40);
    vstd::set_lib::lemma_set_disjoint_lens(inv@, a@);
}

/// Rotating a selection by 180 degrees twice gives it back.
pub proof fn lemma_lights_rotate_180_involution(a: Lights, b: Lights, c: Lights)
    requires
        a.spec_bits() < 0x100_0000_0000,
        c.spec_bits() < 0x100_0000_0000,
        b@ == Set::new(|i: int| 0 <= i < 40 && a@.contains(39 - i)),
        c@ == Set::new(|i: int| 0 <= i < 40 && b@.contains(39 - i)),
    ensures
        c == a,
{
    a.lemma_view_facts();
    assert(c@ =~= a@);
    Lights::lemma_view_determines(c, a);
}

} // verus!
