//! Selections of several buttons, held as a bitset.
use vstd::prelude::*;

use crate::bits::{
    bit16, bit64, highest_bit16, lemma_bit16_bound, lemma_bit16_ext, lemma_bit16_ops, lemma_bit64_bound,
    lemma_bit64_ops, lemma_seq16, lemma_seq16_drop_highest, lemma_seq16_drop_lowest,
    lemma_seq16_empty, lemma_seq16_gap, lemma_set16_step, lowest_bit16, seq16, set16,
    usize_seq_to_set,
};
use crate::button::{Button, Column, Row};
use crate::lights::{lemma_nibble, LightDir, Lights};
use crate::random::choose_multiple;

verus! {

/// A selection of multiple [`Button`s][`Button`].
///
/// Its model is the set of the indices of the selected buttons, each in `0..10`.
#[derive(Debug, Copy, Clone, PartialEq, Eq, Structural, PartialOrd, Ord, Hash)]
pub struct Buttons {
    // bitset where lowest order bit represents the first button
    bits: u16,
}

impl View for Buttons {
    type V = Set<int>;

    closed spec fn view(&self) -> Set<int> {
        set16(self.bits, 10)
    }
}

proof fn lemma_buttons_constants(i: u16)
    by (bit_vector)
    requires
        i < 16,
    ensures
        ((1023u16 >> i) & 1u16 == 1u16) == (i < 10),
        ((0x1fu16 >> i) & 1u16 == 1u16) == (i < 5),
        ((0x3e0u16 >> i) & 1u16 == 1u16) == (5 <= i && i < 10),
{
}

/// The positions of the bits of the three constant selections.
proof fn lemma_buttons_constant_sets()
    ensures
        set16(1023u16, 10) == Set::new(|i: int| 0 <= i < 10),
        set16(0x1fu16, 10) == Set::new(|i: int| 0 <= i < 10 && i / 5 == 0),
        set16(0x3e0u16, 10) == Set::new(|i: int| 0 <= i < 10 && i / 5 == 1),
        set16(0u16, 10) == Set::<int>::empty(),
{
    assert forall|i: int| 0 <= i < 16 implies #[trigger] bit16(1023u16, i) == (i < 10) by {
        lemma_buttons_constants(i as u16);
    }
    assert forall|i: int| 0 <= i < 16 implies #[trigger] bit16(0x1fu16, i) == (i < 5) by {
        lemma_buttons_constants(i as u16);
    }
    assert forall|i: int| 0 <= i < 16 implies #[trigger] bit16(0x3e0u16, i) == (5 <= i < 10) by {
        lemma_buttons_constants(i as u16);
    }
    lemma_bit16_ops(0, 0);
    assert(set16(1023u16, 10) =~= Set::new(|i: int| 0 <= i < 10));
    assert(set16(0x1fu16, 10) =~= Set::new(|i: int| 0 <= i < 10 && i / 5 == 0));
    assert(set16(0x3e0u16, 10) =~= Set::new(|i: int| 0 <= i < 10 && i / 5 == 1));
    assert(set16(0u16, 10) =~= Set::<int>::empty());
}

impl Buttons {
    #[verifier::type_invariant]
    spec fn wf(self) -> bool {
        self.bits < 1024
    }

    /// The bits of this selection, as [`Buttons::as_bitset`] returns them.
    pub closed spec fn spec_bits(self) -> u16 {
        self.bits
    }

    /// The indices of the selected buttons in increasing order.
    pub closed spec fn index_seq(self) -> Seq<int> {
        seq16(self.bits, 10)
    }

    /// The model of a selection: a finite set of indices below 10, which `index_seq` lists in
    /// increasing order.
    pub proof fn lemma_view_facts(self)
        ensures
            self@.finite(),
            forall|i: int| #[trigger] self@.contains(i) ==> 0 <= i < 10,
            forall|k: int| 0 <= k < self.index_seq().len() ==> 0 <= #[trigger] self.index_seq()[k] < 10,
            self.index_seq().to_set() == self@,
            self.index_seq().len() == self@.len(),
            self.index_seq().no_duplicates(),
            forall|k: int, l: int|
                0 <= k < l < self.index_seq().len() ==> #[trigger] self.index_seq()[k]
                    < #[trigger] self.index_seq()[l],
            self@ == set16(self.spec_bits(), 10),
    {
        lemma_seq16(self.bits, 10);
    }

    /// Two selections of the same buttons are equal.
    pub proof fn lemma_view_determines(a: Buttons, b: Buttons)
        requires
            a.spec_bits() < 1024,
            b.spec_bits() < 1024,
            a@ == b@,
        ensures
            a == b,
    {
        lemma_bit16_bound(a.bits, b.bits);
        lemma_bit16_bound(b.bits, a.bits);
        assert forall|i: int| 0 <= i < 16 implies bit16(a.bits, i) == bit16(b.bits, i) by {
            if i < 10 {
                assert(a@.contains(i) == b@.contains(i));
                assert(a@.contains(i) == bit16(a.bits, i));
                assert(b@.contains(i) == bit16(b.bits, i));
            } else {
                assert(!bit16(a.bits, i));
                assert(!bit16(b.bits, i));
            }
        }
        lemma_bit16_ext(a.bits, b.bits);
    }

    /// Returns a selection containing all indices marked true in `arr`.
    ///
    /// Not defined when `arr.len() > Button::COUNT`: `requires` rules it out.
    #[must_use]
    pub fn from_slice(arr: &[bool]) -> (r: Buttons)
        requires
            arr.len() <= 10,
        ensures
            r@ == Set::new(|i: int| 0 <= i < arr.len() && arr[i]),
    {
        let mut bits: u16 = 0;
        let mut i: usize = 0;
        proof {
            lemma_bit16_ops(0, 0);
        }
        while i < arr.len()
            invariant
                arr.len() <= 10,
                i <= arr.len(),
                bits < 1024,
                forall|j: int| 0 <= j < 16 ==> #[trigger] bit16(bits, j) == (j < i && arr[j]),
            decreases arr.len() - i,
        {
            if arr[i] {
                let old_bits = bits;
                bits = bits | (1u16 << (i as u16));
                proof {
                    lemma_bit16_ops(old_bits, 1u16 << (i as u16));
                    lemma_bit16_ops(0, i as u16);
                    lemma_bit16_bound(old_bits, 1u16 << (i as u16));
                }
            }
            i = i + 1;
        }
        let r = Buttons { bits };
        assert(r@ =~= Set::new(|i: int| 0 <= i < arr.len() && arr[i]));
        r
    }

    /// Returns a new [`Buttons`] at index `button_index`.
    ///
    /// Not defined when `button_index >= Button::COUNT`: `requires` rules it out.
    #[must_use]
    pub fn from_index(button_index: usize) -> (r: Buttons)
        requires
            button_index < 10,
        ensures
            r@ == set![button_index as int],
    {
        let bits = 1u16 << (button_index as u16);
        proof {
            lemma_bit16_ops(0, button_index as u16);
            lemma_bit16_bound(0, 0);
        }
        let r = Buttons { bits };
        assert(r@ =~= set![button_index as int]);
        r
    }

    /// Returns a new [`Buttons`] constructed from the button indices in `indexes`.
    ///
    /// Not defined when `indexes` holds an index `>= Button::COUNT`: `requires` rules it out.
    pub fn from_indices(indexes: &[usize]) -> (r: Buttons)
        requires
            forall|k: int| 0 <= k < indexes.len() ==> #[trigger] indexes[k] < 10,
        ensures
            r@ == usize_seq_to_set(indexes@),
    {
        let mut bits: u16 = 0;
        let mut k: usize = 0;
        proof {
            lemma_bit16_ops(0, 0);
        }
        while k < indexes.len()
            invariant
                k <= indexes.len(),
                forall|k: int| 0 <= k < indexes.len() ==> #[trigger] indexes[k] < 10,
                bits < 1024,
                forall|j: int|
                    0 <= j < 16 ==> #[trigger] bit16(bits, j) == exists|l: int|
                        0 <= l < k && indexes[l] == j,
            decreases indexes.len() - k,
        {
            let index = indexes[k];
            let old_bits = bits;
            bits = bits | (1u16 << (index as u16));
            proof {
                lemma_bit16_ops(old_bits, 1u16 << (index as u16));
                lemma_bit16_ops(0, index as u16);
                lemma_bit16_bound(old_bits, 1u16 << (index as u16));
                assert forall|j: int| 0 <= j < 16 implies #[trigger] bit16(bits, j) == exists|l: int|
                    0 <= l < k + 1 && indexes[l] == j by {
                    assert(bit16(bits, j) == (bit16(old_bits, j) || j == index));
                    assert(bit16(old_bits, j) == exists|l: int| 0 <= l < k && indexes[l] == j);
                    if j == index {
                        assert(indexes[k as int] == j);
                    }
                    if exists|l: int| 0 <= l < k + 1 && indexes[l] == j {
                        let l = choose|l: int| 0 <= l < k + 1 && indexes[l] == j;
                        if l < k {
                            assert(exists|l2: int| 0 <= l2 < k && indexes[l2] == j);
                        }
                    }
                }
            }
            k = k + 1;
        }
        let r = Buttons { bits };
        proof {
            let s = indexes@.map_values(|x: usize| x as int);
            assert forall|j: int| r@.contains(j) == s.to_set().contains(j) by {
                if r@.contains(j) {
                    let l = choose|l: int| 0 <= l < k && indexes[l] == j;
                    assert(s[l] == j);
                }
                if s.to_set().contains(j) {
                    let l = choose|l: int| 0 <= l < s.len() && s[l] == j;
                    assert(indexes[l] == j);
                    assert(0 <= j < 10);
                }
            }
            assert(r@ =~= usize_seq_to_set(indexes@));
        }
        r
    }

    /// The selection of the buttons at `indexes`, or `None` when one of them is no button index:
    /// how a list of numbers read from JSON becomes a selection.
    pub fn from_checked_indices(indexes: &[u64]) -> (r: Option<Buttons>)
        ensures
            r is Some <==> forall|k: int| 0 <= k < indexes.len() ==> #[trigger] indexes[k] < 10,
            r matches Some(b) ==> b@ == indexes@.map_values(|x: u64| x as int).to_set(),
    {
        let mut checked: Vec<usize> = Vec::new();
        let mut k: usize = 0;
        while k < indexes.len()
            invariant
                k <= indexes.len(),
                checked.len() == k,
                forall|l: int| 0 <= l < k ==> #[trigger] indexes[l] < 10,
                forall|l: int| 0 <= l < k ==> #[trigger] checked[l] == indexes[l],
            decreases indexes.len() - k,
        {
            if indexes[k] >= 10 {
                assert(!(indexes[k as int] < 10));
                return None;
            }
            checked.push(indexes[k] as usize);
            k = k + 1;
        }
        let r = Self::from_indices(checked.as_slice());
        proof {
            let a = checked@.map_values(|x: usize| x as int);
            let b = indexes@.map_values(|x: u64| x as int);
            assert(a =~= b);
        }
        Some(r)
    }

    /// Returns a new [`Buttons`] with `bits`. Each bit in `bits` represents whether an individual
    /// button has been selected. The 0th bit selects [`Button::B0`].
    ///
    /// Not defined when `bits >> Button::COUNT != 0`: `requires` rules it out.
    #[must_use]
    pub fn from_bitset(bits: u16) -> (r: Buttons)
        requires
            bits < 1024,
        ensures
            r@ == set16(bits, 10),
            r.spec_bits() == bits,
    {
        Buttons { bits }
    }

    /// Returns a [`Buttons`] with every button selected.
    #[must_use]
    pub fn all() -> (r: Buttons)
        ensures
            r@ == Set::new(|i: int| 0 <= i < 10),
    {
        proof {
            lemma_buttons_constant_sets();
        }
        Buttons { bits: 1023 }
    }

    /// Returns a [`Buttons`] with no button selected.
    #[must_use]
    pub fn none() -> (r: Buttons)
        ensures
            r@ == Set::<int>::empty(),
    {
        proof {
            lemma_buttons_constant_sets();
        }
        Buttons { bits: 0 }
    }

    /// Returns a [`Buttons`] with only the buttons in `row` selected.
    #[must_use]
    pub fn row(row: Row) -> (r: Buttons)
        ensures
            r@ == Set::new(|i: int| 0 <= i < 10 && i / 5 == row.spec_index()),
    {
        proof {
            lemma_buttons_constant_sets();
        }
        match row {
            Row::Top => Buttons { bits: 0x1f },
            Row::Bottom => Buttons { bits: 0x3e0 },
        }
    }

    /// Returns the two buttons in `col` (one per row).
    #[must_use]
    pub fn column(col: Column) -> (r: Buttons)
        ensures
            r@ == set![col.spec_index(), col.spec_index() + 5],
    {
        let c = col.index();
        let indexes = [c, 5 + c];
        let r = Self::from_indices(&indexes);
        proof {
            let s = indexes@;
            assert(s.map_values(|x: usize| x as int)[0] == col.spec_index());
            assert(s.map_values(|x: usize| x as int)[1] == col.spec_index() + 5);
            assert(r@ =~= set![col.spec_index(), col.spec_index() + 5]);
        }
        r
    }

    /// Returns the number of buttons in this selection.
    #[must_use]
    pub fn len(&self) -> (n: u32)
        ensures
            n == self@.len(),
    {
        let mut n: u32 = 0;
        let mut i: u16 = 0;
        proof {
            assert(set16(self.bits, 0) =~= Set::<int>::empty());
        }
        while i < 10
            invariant
                i <= 10,
                n == set16(self.bits, i as int).len(),
                set16(self.bits, i as int).finite(),
                set16(self.bits, i as int).len() <= i,
            decreases 10 - i,
        {
            proof {
                lemma_set16_step(self.bits, i as int);
            }
            if (self.bits >> i) & 1 == 1 {
                n = n + 1;
            }
            i = i + 1;
        }
        n
    }

    /// Returns `true` if no buttons are selected.
    #[must_use]
    pub fn is_empty(&self) -> (b: bool)
        ensures
            b == (self@ == Set::<int>::empty()),
    {
        proof {
            use_type_invariant(self);
            lemma_buttons_constant_sets();
        }
        let b = self.bits == 0;
        proof {
            if !b && self@ == Set::<int>::empty() {
                Self::lemma_view_determines(*self, Buttons { bits: 0 });
            }
        }
        b
    }

    /// Returns `true` if this selection contains `button`.
    #[must_use]
    pub fn contains(&self, button: Button) -> (b: bool)
        ensures
            b == self@.contains(button.spec_index()),
    {
        (self.bits >> (button.index() as u16)) & 1 == 1
    }

    /// Returns `true` if `other` selects only buttons that `self` selects.
    #[must_use]
    pub fn is_superset(&self, other: Self) -> (b: bool)
        ensures
            b == other@.subset_of(self@),
    {
        proof {
            use_type_invariant(self);
            use_type_invariant(&other);
            lemma_bit16_ops(self.bits, other.bits);
            lemma_bit16_bound(self.bits, other.bits);
            lemma_bit16_bound(other.bits, self.bits);
        }
        let b = (self.bits | other.bits) == self.bits;
        proof {
            if other@.subset_of(self@) {
                assert forall|i: int| 0 <= i < 16 implies bit16(self.bits | other.bits, i) == bit16(
                    self.bits,
                    i,
                ) by {
                    if i < 10 && bit16(other.bits, i) {
                        assert(other@.contains(i));
                    }
                }
                lemma_bit16_ext(self.bits | other.bits, self.bits);
            }
            if b {
                assert forall|i: int| other@.contains(i) implies self@.contains(i) by {
                    assert(bit16(self.bits | other.bits, i));
                }
            }
        }
        b
    }

    /// Returns `true` if `self` selects only buttons that `other` selects.
    #[must_use]
    pub fn is_subset(&self, other: Self) -> (b: bool)
        ensures
            b == self@.subset_of(other@),
    {
        other.is_superset(*self)
    }

    /// Returns a double-ended iterator over the indices of every [`Button`] in this selection,
    /// lowest first.
    #[must_use]
    pub fn indices(&self) -> (it: ButtonIndices)
        ensures
            it@ == self.index_seq(),
    {
        proof {
            use_type_invariant(self);
            lemma_bit16_bound(self.bits, self.bits);
            lemma_seq16_gap(self.bits, 10, 16);
        }
        ButtonIndices { bits: self.bits }
    }

    /// Returns a double-ended iterator over every [`Button`] in this selection, lowest first.
    #[must_use]
    pub fn buttons(&self) -> (it: ButtonsIter)
        ensures
            it@ == self.index_seq(),
    {
        self.iter()
    }

    /// Returns the inversion of the current selection.
    #[must_use]
    pub fn invert(&self) -> (r: Buttons)
        ensures
            r == Buttons::invert_spec_of(*self),
            r@ == Set::new(|i: int| 0 <= i < 10 && !self@.contains(i)),
    {
        let bits = (!self.bits) & 1023;
        proof {
            lemma_bit16_ops(!self.bits, 1023);
            lemma_bit16_ops(self.bits, 0);
            lemma_bit16_bound(self.bits, 0);
            lemma_buttons_constant_sets();
            assert forall|i: int| 0 <= i < 10 implies #[trigger] bit16(1023u16, i) by {
                assert(set16(1023u16, 10).contains(i));
            }
        }
        let r = Buttons { bits };
        assert(r@ =~= Set::new(|i: int| 0 <= i < 10 && !self@.contains(i)));
        r
    }

    /// Randomly choose `n` of the buttons that are active in `self`.
    ///
    /// Not defined when `n > Button::COUNT`: `requires` rules it out.
    #[must_use]
    pub fn choose_n_randomly(&self, n: usize) -> (r: Buttons)
        requires
            n <= 10,
        ensures
            r@.subset_of(self@),
            r@.len() == if n < self@.len() { n as int } else { self@.len() as int },
    {
        let items = self.indices().into_vec();
        let ghost seq = self.index_seq();
        proof {
            self.lemma_view_facts();
            assert(items@.no_duplicates()) by {
                assert forall|k: int, l: int|
                    0 <= k < items.len() && 0 <= l < items.len() && k != l implies items[k]
                    != items[l] by {
                    assert(items[k] == seq[k] && items[l] == seq[l]);
                }
            }
        }
        let picked = choose_multiple(items, n);
        proof {
            assert forall|k: int| 0 <= k < picked.len() implies #[trigger] picked[k] < 10 by {
                let l = choose|l: int| 0 <= l < items.len() && items[l] == picked[k];
                assert(items[l] == seq[l]);
            }
        }
        let r = Self::from_indices(picked.as_slice());
        proof {
            let s = picked@.map_values(|x: usize| x as int);
            assert(s.no_duplicates()) by {
                assert forall|k: int, l: int| 0 <= k < s.len() && 0 <= l < s.len() && k != l implies s[k]
                    != s[l] by {
                    assert(picked[k] != picked[l]);
                }
            }
            s.unique_seq_to_set();
            assert forall|j: int| r@.contains(j) implies self@.contains(j) by {
                let k = choose|k: int| 0 <= k < s.len() && s[k] == j;
                assert(items@.contains(picked[k]));
                let l = choose|l: int| 0 <= l < items.len() && items[l] == picked[k];
                assert(items[l] == seq[l]);
                assert(seq.to_set().contains(seq[l]));
            }
        }
        r
    }

    /// Randomly choose one [`Button`] from those active in `self`.
    ///
    /// Not defined on an empty selection: `requires` rules it out.
    #[must_use]
    pub fn choose_one_randomly(&self) -> (b: Button)
        requires
            self@ != Set::<int>::empty(),
        ensures
            self@.contains(b.spec_index()),
    {
        proof {
            self.lemma_view_facts();
            if self@.len() == 0 {
                assert(self@ =~= Set::<int>::empty());
            }
        }
        let chosen = self.choose_n_randomly(1);
        let bits = chosen.as_bitset();
        proof {
            chosen.lemma_view_facts();
            lemma_bit16_ops(0, 0);
            if bits == 0 {
                assert(chosen@ =~= Set::<int>::empty());
            }
        }
        let t = lowest_bit16(bits);
        proof {
            lemma_bit16_bound(bits, bits);
            assert(chosen@.contains(t as int));
        }
        Button::from_index(t as usize)
    }

    /// Return the Buttons as if the device was rotated 180 degrees: button `i` becomes button
    /// `9 - i`.
    #[must_use]
    pub fn rotate_180(&self) -> (r: Buttons)
        ensures
            r@ == Set::new(|i: int| 0 <= i < 10 && self@.contains(9 - i)),
    {
        let mut bits: u16 = 0;
        let mut i: u16 = 0;
        proof {
            lemma_bit16_ops(0, 0);
        }
        while i < 10
            invariant
                i <= 10,
                bits < 1024,
                forall|j: int|
                    0 <= j < 16 ==> #[trigger] bit16(bits, j) == (0 <= j < 10 && 9 - j < i
                        && bit16(self.bits, 9 - j)),
            decreases 10 - i,
        {
            if (self.bits >> i) & 1 == 1 {
                let old_bits = bits;
                bits = bits | (1u16 << (9 - i));
                proof {
                    lemma_bit16_ops(old_bits, 1u16 << ((9 - i) as u16));
                    lemma_bit16_ops(0, (9 - i) as u16);
                    lemma_bit16_bound(old_bits, 1u16 << ((9 - i) as u16));
                }
            }
            i = i + 1;
        }
        let r = Buttons { bits };
        assert(r@ =~= Set::new(|i: int| 0 <= i < 10 && self@.contains(9 - i)));
        r
    }

    /// A compact representation: the least significant bit is set when button 0 is selected.
    #[must_use]
    pub fn as_bitset(&self) -> (bits: u16)
        ensures
            bits == self.spec_bits(),
            bits < 1024,
            set16(bits, 10) == self@,
    {
        proof {
            use_type_invariant(self);
        }
        self.bits
    }

    /// Returns a [`Lights`] containing every light for every [`Button`] in this selection.
    #[must_use]
    pub fn lights(self) -> (l: Lights)
        ensures
            l@ == Set::new(|i: int| 0 <= i < 40 && self@.contains(i / 4)),
    {
        let input = self.bits as u64;
        let mut result: u64 = 0;
        let mut i: u64 = 0;
        proof {
            lemma_bit64_ops(0, 0);
        }
        while i < 10
            invariant
                i <= 10,
                input == self.bits as u64,
                result < 0x100_0000_0000u64,
                forall|j: int|
                    0 <= j < 64 ==> #[trigger] bit64(result, j) == (0 <= j < 4 * i && bit16(
                        self.bits,
                        j / 4,
                    )),
            decreases 10 - i,
        {
            proof {
                lemma_widen_bit(self.bits, i as u16);
            }
            if (input & (1u64 << i)) != 0 {
                let old_result = result;
                result = result | (0b1111u64 << (4 * i));
                proof {
                    lemma_nibble((4 * i) as u64);
                    lemma_bit64_ops(old_result, 0b1111u64 << (4 * i));
                    lemma_bit64_bound(old_result, 0b1111u64 << (4 * i));
                }
            }
            i = i + 1;
        }
        let l = Lights::from_bitset(result);
        assert(l@ =~= Set::new(|i: int| 0 <= i < 40 && self@.contains(i / 4)));
        l
    }

    /// Returns a [`Lights`] containing only the light at `dir` for every [`Button`] in this
    /// selection.
    #[must_use]
    pub fn lights_on(self, dir: LightDir) -> (l: Lights)
        ensures
            l@ == Set::new(
                |i: int| 0 <= i < 40 && self@.contains(i / 4) && i % 4 == dir.spec_index(),
            ),
    {
        let lights: Lights = self.lights();
        let l = lights.only(dir);
        assert(l@ =~= Set::new(
            |i: int| 0 <= i < 40 && self@.contains(i / 4) && i % 4 == dir.spec_index(),
        ));
        l
    }

    /// Returns an iterator over every [`Button`] in this selection, lowest first.
    #[must_use]
    pub fn iter(&self) -> (it: ButtonsIter)
        ensures
            it@ == self.index_seq(),
    {
        let indices = self.indices();
        ButtonsIter { indices }
    }
}

proof fn lemma_widen_bit_point(v: u16, i: u16)
    by (bit_vector)
    requires
        i < 10,
    ensures
        ((v as u64) & (1u64 << (i as u64)) != 0) == ((v >> i) & 1u16 == 1u16),
{
}

/// Testing bit `i` of a button bitset through its widened `u64` copy.
proof fn lemma_widen_bit(v: u16, i: u16)
    requires
        i < 10,
    ensures
        ((v as u64) & (1u64 << (i as u64)) != 0) == bit16(v, i as int),
{
    lemma_widen_bit_point(v, i);
}

/// An iterator over the indices of the buttons of a selection, lowest first, that can also be
/// consumed from the highest end.
pub struct ButtonIndices {
    bits: u16,
}

impl View for ButtonIndices {
    type V = Seq<int>;

    /// The indices not yet returned, in increasing order.
    closed spec fn view(&self) -> Seq<int> {
        seq16(self.bits, 16)
    }
}

impl ButtonIndices {
    #[verifier::type_invariant]
    spec fn wf(self) -> bool {
        self.bits < 1024
    }

    /// Returns the lowest index not yet returned.
    pub fn next(&mut self) -> (r: Option<usize>)
        ensures
            old(self)@.len() == 0 ==> r is None && final(self)@ == old(self)@,
            old(self)@.len() > 0 ==> r == Some(old(self)@[0] as usize) && final(self)@ == old(
                self,
            )@.drop_first(),
            r matches Some(i) ==> i < 10,
            forall|k: int| 0 <= k < old(self)@.len() ==> 0 <= #[trigger] old(self)@[k] < 10,
    {
        proof {
            use_type_invariant(&*self);
            lemma_seq16_empty(self.bits);
            lemma_bit16_bound(self.bits, 0);
            lemma_seq16(self.bits, 16);
        }
        if self.bits == 0 {
            None
        } else {
            let t = lowest_bit16(self.bits);
            proof {
                lemma_seq16_drop_lowest(self.bits, t, 16);
                lemma_bit16_ops(self.bits, 1u16 << t);
                lemma_bit16_ops(0, t);
                lemma_bit16_bound(self.bits, 1u16 << t);
            }
            self.bits = self.bits ^ (1u16 << t);
            Some(t as usize)
        }
    }

    /// Returns the highest index not yet returned.
    pub fn next_back(&mut self) -> (r: Option<usize>)
        ensures
            old(self)@.len() == 0 ==> r is None && final(self)@ == old(self)@,
            old(self)@.len() > 0 ==> r == Some(old(self)@.last() as usize) && final(self)@ == old(
                self,
            )@.drop_last(),
            r matches Some(i) ==> i < 10,
            forall|k: int| 0 <= k < old(self)@.len() ==> 0 <= #[trigger] old(self)@[k] < 10,
    {
        proof {
            use_type_invariant(&*self);
            lemma_seq16_empty(self.bits);
            lemma_bit16_bound(self.bits, 0);
            lemma_seq16(self.bits, 16);
        }
        if self.bits == 0 {
            None
        } else {
            let h = highest_bit16(self.bits);
            proof {
                lemma_seq16_drop_highest(self.bits, h, 16);
                lemma_bit16_ops(self.bits, 1u16 << h);
                lemma_bit16_ops(0, h);
                lemma_bit16_bound(self.bits, 1u16 << h);
            }
            self.bits = self.bits ^ (1u16 << h);
            Some(h as usize)
        }
    }

    /// Collects the indices not yet returned, lowest first.
    pub fn into_vec(self) -> (v: Vec<usize>)
        ensures
            v@.len() == self@.len(),
            forall|k: int| 0 <= k < v.len() ==> v[k] == self@[k],
    {
        let mut it = self;
        let mut v: Vec<usize> = Vec::new();
        let ghost whole = self@;
        proof {
            assert(whole =~= v@.map_values(|x: usize| x as int) + it@);
        }
        while it.bits != 0
            invariant
                whole == v@.map_values(|x: usize| x as int) + it@,
            decreases it@.len(),
        {
            proof {
                lemma_seq16_empty(it.bits);
            }
            let ghost before_v = v@;
            let ghost before_it = it@;
            if let Some(i) = it.next() {
                v.push(i);
                proof {
                    assert(v@.map_values(|x: usize| x as int) =~= before_v.map_values(
                        |x: usize| x as int,
                    ).push(i as int));
                    assert(before_it =~= seq![i as int] + it@);
                    assert(whole =~= v@.map_values(|x: usize| x as int) + it@);
                }
            }
        }
        proof {
            lemma_seq16_empty(it.bits);
            assert(whole =~= v@.map_values(|x: usize| x as int));
            assert forall|k: int| 0 <= k < v.len() implies v[k] == whole[k] by {
                assert(v@.map_values(|x: usize| x as int)[k] == v[k] as int);
            }
        }
        v
    }
}

/// An iterator over the [`Button`]s in a [`Buttons`] selection, in index order.
pub struct ButtonsIter {
    indices: ButtonIndices,
}

impl View for ButtonsIter {
    type V = Seq<int>;

    /// The indices of the buttons not yet returned, in increasing order.
    closed spec fn view(&self) -> Seq<int> {
        self.indices@
    }
}

impl ButtonsIter {
    /// Returns the lowest button not yet returned.
    pub fn next(&mut self) -> (r: Option<Button>)
        ensures
            old(self)@.len() == 0 ==> r is None && final(self)@ == old(self)@,
            old(self)@.len() > 0 ==> r is Some && r.unwrap().spec_index() == old(self)@[0]
                && final(self)@ == old(self)@.drop_first(),
    {
        match self.indices.next() {
            Some(i) => Some(Button::from_index(i)),
            None => None,
        }
    }

    /// Returns the highest button not yet returned.
    pub fn next_back(&mut self) -> (r: Option<Button>)
        ensures
            old(self)@.len() == 0 ==> r is None && final(self)@ == old(self)@,
            old(self)@.len() > 0 ==> r is Some && r.unwrap().spec_index() == old(self)@.last()
                && final(self)@ == old(self)@.drop_last(),
    {
        match self.indices.next_back() {
            Some(i) => Some(Button::from_index(i)),
            None => None,
        }
    }
}


impl vstd::std_specs::ops::BitAndSpecImpl for Buttons {
    open spec fn obeys_bitand_spec() -> bool {
        true
    }

    open spec fn bitand_req(self, rhs: Buttons) -> bool {
        true
    }

    open spec fn bitand_spec(self, rhs: Buttons) -> Buttons {
        Buttons::bitand_spec_of(self, rhs)
    }
}

impl core::ops::BitAnd for Buttons {
    type Output = Buttons;

    /// The selections of both `self` and `rhs`.
    fn bitand(self, rhs: Buttons) -> (r: Buttons)
        ensures
            r@ == self@.intersect(rhs@),
    {
        proof {
            use_type_invariant(&self);
            use_type_invariant(&rhs);
            lemma_bit16_bound(self.bits, rhs.bits);
            Buttons::lemma_set_ops(self, rhs);
        }
        Buttons { bits: self.bits & rhs.bits }
    }
}

impl vstd::std_specs::ops::BitOrSpecImpl for Buttons {
    open spec fn obeys_bitor_spec() -> bool {
        true
    }

    open spec fn bitor_req(self, rhs: Buttons) -> bool {
        true
    }

    open spec fn bitor_spec(self, rhs: Buttons) -> Buttons {
        Buttons::bitor_spec_of(self, rhs)
    }
}

impl core::ops::BitOr for Buttons {
    type Output = Buttons;

    /// The selections of either `self` or `rhs`.
    fn bitor(self, rhs: Buttons) -> (r: Buttons)
        ensures
            r@ == self@.union(rhs@),
    {
        proof {
            use_type_invariant(&self);
            use_type_invariant(&rhs);
            lemma_bit16_bound(self.bits, rhs.bits);
            Buttons::lemma_set_ops(self, rhs);
        }
        Buttons { bits: self.bits | rhs.bits }
    }
}

impl vstd::std_specs::ops::BitXorSpecImpl for Buttons {
    open spec fn obeys_bitxor_spec() -> bool {
        true
    }

    open spec fn bitxor_req(self, rhs: Buttons) -> bool {
        true
    }

    open spec fn bitxor_spec(self, rhs: Buttons) -> Buttons {
        Buttons::bitxor_spec_of(self, rhs)
    }
}

impl core::ops::BitXor for Buttons {
    type Output = Buttons;

    /// The selections of exactly one of `self` and `rhs`.
    fn bitxor(self, rhs: Buttons) -> (r: Buttons)
        ensures
            r@ == self@.difference(rhs@).union(rhs@.difference(self@)),
    {
        proof {
            use_type_invariant(&self);
            use_type_invariant(&rhs);
            lemma_bit16_bound(self.bits, rhs.bits);
            Buttons::lemma_set_ops(self, rhs);
        }
        Buttons { bits: self.bits ^ rhs.bits }
    }
}

impl Buttons {
    /// The selection of what `a` does not select.
    pub closed spec fn invert_spec_of(a: Buttons) -> Buttons {
        Buttons { bits: (!a.bits) & 1023 }
    }

    /// The selection of both `a` and `b`.
    pub closed spec fn bitand_spec_of(a: Buttons, b: Buttons) -> Buttons {
        Buttons { bits: a.bits & b.bits }
    }

    /// The selection of either `a` or `b`.
    pub closed spec fn bitor_spec_of(a: Buttons, b: Buttons) -> Buttons {
        Buttons { bits: a.bits | b.bits }
    }

    /// The selection of exactly one of `a` and `b`.
    pub closed spec fn bitxor_spec_of(a: Buttons, b: Buttons) -> Buttons {
        Buttons { bits: a.bits ^ b.bits }
    }

    /// What `&`, `|` and `^` select.
    pub proof fn lemma_set_ops(a: Buttons, b: Buttons)
        ensures
            Buttons::bitand_spec_of(a, b)@ == a@.intersect(b@),
            Buttons::bitor_spec_of(a, b)@ == a@.union(b@),
            Buttons::bitxor_spec_of(a, b)@ == a@.difference(b@).union(b@.difference(a@)),
    {
        lemma_bit16_ops(a.bits, b.bits);
        assert(Buttons::bitand_spec_of(a, b)@ =~= a@.intersect(b@));
        assert(Buttons::bitor_spec_of(a, b)@ =~= a@.union(b@));
        assert(Buttons::bitxor_spec_of(a, b)@ =~= a@.difference(b@).union(b@.difference(a@)));
    }
}

impl vstd::std_specs::ops::NotSpecImpl for Buttons {
    open spec fn obeys_not_spec() -> bool {
        true
    }

    open spec fn not_req(self) -> bool {
        true
    }

    open spec fn not_spec(self) -> Buttons {
        Buttons::invert_spec_of(self)
    }
}

impl core::ops::BitAndAssign for Buttons {
    /// Keeps only the selections that `rhs` also has.
    fn bitand_assign(&mut self, rhs: Buttons)
        ensures
            final(self)@ == old(self)@.intersect(rhs@),
    {
        *self = *self & rhs;
    }
}

impl core::ops::BitOrAssign for Buttons {
    /// Adds the selections of `rhs`.
    fn bitor_assign(&mut self, rhs: Buttons)
        ensures
            final(self)@ == old(self)@.union(rhs@),
    {
        *self = *self | rhs;
    }
}

impl core::ops::BitXorAssign for Buttons {
    /// Keeps the selections of exactly one of `self` and `rhs`.
    fn bitxor_assign(&mut self, rhs: Buttons)
        ensures
            final(self)@ == old(self)@.difference(rhs@).union(rhs@.difference(old(self)@)),
    {
        *self = *self ^ rhs;
    }
}

impl core::ops::Not for Buttons {
    type Output = Buttons;

    /// The inversion of the selection, as [`Buttons::invert`] gives it.
    fn not(self) -> (r: Buttons)
        ensures
            r@ == Set::new(|i: int| 0 <= i < 10 && !self@.contains(i)),
    {
        self.invert()
    }
}


impl vstd::std_specs::convert::FromSpecImpl<Button> for Buttons {
    open spec fn obeys_from_spec() -> bool {
        true
    }

    open spec fn from_spec(v: Button) -> Buttons {
        Buttons::single_spec(v)
    }
}

impl From<Button> for Buttons {
    /// The selection of `button` alone.
    fn from(button: Button) -> (r: Buttons)
        ensures
            r@ == set![button.spec_index()],
    {
        let r = Buttons::from_index(button.index());
        proof {
            use_type_invariant(&r);
            Buttons::lemma_single_spec(button);
            Buttons::lemma_view_determines(r, Buttons::single_spec(button));
        }
        r
    }
}

impl Buttons {
    /// The selection of `button` alone.
    pub closed spec fn single_spec(button: Button) -> Buttons {
        Buttons { bits: 1u16 << (button.spec_index() as u16) }
    }

    proof fn lemma_single_spec(button: Button)
        ensures
            Buttons::single_spec(button).bits < 1024,
            Buttons::single_spec(button)@ == set![button.spec_index()],
    {
        let i = button.spec_index() as u16;
        lemma_bit16_ops(0, i);
        lemma_bit16_bound(0, 0);
        assert(Buttons::single_spec(button)@ =~= set![button.spec_index()]);
    }
}


proof fn lemma_invert_bits_16(a: u16)
    by (bit_vector)
    requires
        a < 1024,
    ensures
        (!((!a) & 1023)) & 1023 == a,
{
}

/// Inverting a selection twice gives it back.
pub proof fn lemma_buttons_invert_involution(a: Buttons)
    requires
        a.spec_bits() < 1024,
    ensures
        Buttons::invert_spec_of(Buttons::invert_spec_of(a)) == a,
{
    lemma_invert_bits_16(a.spec_bits());
}

/// A selection and its inversion split the 10 positions between them.
pub proof fn lemma_buttons_invert_len(a: Buttons)
    ensures
        Buttons::invert_spec_of(a)@.disjoint(a@),
        Buttons::invert_spec_of(a)@ + a@ == vstd::set_lib::set_int_range(0, 10),
        Buttons::invert_spec_of(a)@.len() + a@.len() == 10,
{
    let inv = Buttons::invert_spec_of(a);
    lemma_bit16_ops(!a.spec_bits(), 1023);
    lemma_bit16_ops(a.spec_bits(), 0);
    lemma_buttons_constant_sets();
    assert forall|i: int| 0 <= i < 10 implies #[trigger] bit16(1023u16, i) by {
        assert(set16(1023u16, 10).contains(i));
    }
    inv.lemma_view_facts();
    a.lemma_view_facts();
    assert(inv@ =~= Set::new(|i: int| 0 <= i < 10 && !a@.contains(i)));
    assert(inv@ + a@ =~= vstd::set_lib::set_int_range(0, 10));
    vstd::set_lib::lemma_int_range(0, 10);
    vstd::set_lib::lemma_set_disjoint_lens(inv@, a@);
}

/// Rotating a selection by 180 degrees twice gives it back.
pub proof fn lemma_buttons_rotate_180_involution(a: Buttons, b: Buttons, c: Buttons)
    requires
        a.spec_bits() < 1024,
        c.spec_bits() < 1024,
        b@ == Set::new(|i: int| 0 <= i < 10 && a@.contains(9 - i)),
        c@ == Set::new(|i: int| 0 <= i < 10 && b@.contains(9 - i)),
    ensures
        c == a,
{
    a.lemma_view_facts();
    assert(c@ =~= a@);
    Buttons::lemma_view_determines(c, a);
}

} // verus!
