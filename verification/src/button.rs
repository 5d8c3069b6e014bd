//! The ten top buttons, their rows and their columns.
use vstd::prelude::*;

use crate::buttons::Buttons;
use crate::lights::{LightDir, Lights};

verus! {

/// One of the 10 top buttons.
///
/// Button 0 is the top left. 4 is the top right. 5 is the bottom left and 9 is
/// the bottom right. (English lexographical order).
///
/// ```text
/// 0 1 2 3 4
/// 5 6 7 8 9
/// ```
#[derive(Debug, Copy, Clone, PartialEq, Eq, Structural, PartialOrd, Ord, Hash)]
pub enum Button {
    /// [`Row::Top`], [`Column::C0`]
    B0,
    /// [`Row::Top`], [`Column::C1`]
    B1,
    /// [`Row::Top`], [`Column::C2`]
    B2,
    /// [`Row::Top`], [`Column::C3`]
    B3,
    /// [`Row::Top`], [`Column::C4`]
    B4,
    /// [`Row::Bottom`], [`Column::C0`]
    B5,
    /// [`Row::Bottom`], [`Column::C1`]
    B6,
    /// [`Row::Bottom`], [`Column::C2`]
    B7,
    /// [`Row::Bottom`], [`Column::C3`]
    B8,
    /// [`Row::Bottom`], [`Column::C4`]
    B9,
}

/// The number of light-up buttons on top of Boppo.
pub const BUTTON_COUNT: usize = 10;

/// The button that follows button `i` going clockwise around the tablet:
/// along the top row to the right, then along the bottom row to the left.
pub open spec fn clockwise_index(i: int) -> int {
    if i < 4 {
        i + 1
    } else if i == 4 {
        9
    } else if i == 5 {
        0
    } else {
        i - 1
    }
}

/// The button that follows button `i` going counterclockwise around the tablet.
pub open spec fn counterclockwise_index(i: int) -> int {
    if i == 0 {
        5
    } else if i < 5 {
        i - 1
    } else if i < 9 {
        i + 1
    } else {
        4
    }
}

impl Button {
    /// The number of light-up buttons on top of Boppo.
    pub const COUNT: usize = 10;

    /// The index of this button, `0` for [`Button::B0`] up to `9` for [`Button::B9`].
    pub open spec fn spec_index(self) -> int {
        match self {
            Button::B0 => 0,
            Button::B1 => 1,
            Button::B2 => 2,
            Button::B3 => 3,
            Button::B4 => 4,
            Button::B5 => 5,
            Button::B6 => 6,
            Button::B7 => 7,
            Button::B8 => 8,
            Button::B9 => 9,
        }
    }

    /// Converts an `index` to its corresponding [`Button`].
    ///
    /// Not defined when `index >= Button::COUNT`: `requires` rules it out.
    #[must_use]
    pub fn from_index(index: usize) -> (b: Button)
        requires
            index < 10,
        ensures
            b.spec_index() == index,
    {
        match index {
            0 => Button::B0,
            1 => Button::B1,
            2 => Button::B2,
            3 => Button::B3,
            4 => Button::B4,
            5 => Button::B5,
            6 => Button::B6,
            7 => Button::B7,
            8 => Button::B8,
            _ => Button::B9,
        }
    }

    /// Returns the [`Button`] at `row`, `col`.
    #[must_use]
    pub fn from_row_col(row: Row, col: Column) -> (b: Button)
        ensures
            b.spec_index() == row.spec_index() * 5 + col.spec_index(),
    {
        Button::from_index(row.index() * 5 + col.index())
    }

    /// Returns a random [`Button`].
    #[must_use]
    pub fn random() -> (b: Button)
        ensures
            0 <= b.spec_index() < 10,
    {
        let all = Buttons::all();
        proof {
            all.lemma_view_facts();
            assert(all@.contains(0));
        }
        all.choose_one_randomly()
    }

    /// Returns this button's index.
    #[must_use]
    pub fn index(self) -> (i: usize)
        ensures
            i == self.spec_index(),
            i < 10,
    {
        match self {
            Button::B0 => 0,
            Button::B1 => 1,
            Button::B2 => 2,
            Button::B3 => 3,
            Button::B4 => 4,
            Button::B5 => 5,
            Button::B6 => 6,
            Button::B7 => 7,
            Button::B8 => 8,
            Button::B9 => 9,
        }
    }

    /// Returns this button's [`Row`]: [`Row::Top`] for buttons 0 to 4.
    #[must_use]
    pub fn row(self) -> (r: Row)
        ensures
            r.spec_index() == self.spec_index() / 5,
    {
        if self.index() < 5 {
            Row::Top
        } else {
            Row::Bottom
        }
    }

    /// Returns this button's [`Column`].
    #[must_use]
    pub fn col(self) -> (c: Column)
        ensures
            c.spec_index() == self.spec_index() % 5,
    {
        if self.row().index() == 0 {
            Column::from_index(self.index())
        } else {
            Column::from_index(self.index() - 5)
        }
    }

    /// Return the button clockwise of this button.
    #[must_use]
    pub fn next_clockwise(self) -> (b: Button)
        ensures
            b.spec_index() == clockwise_index(self.spec_index()),
    {
        match self {
            Button::B0 | Button::B1 | Button::B2 | Button::B3 => self.right().unwrap(),
            Button::B4 => Button::B9,
            Button::B5 => Button::B0,
            Button::B6 | Button::B7 | Button::B8 | Button::B9 => self.left().unwrap(),
        }
    }

    /// Return the button counterclockwise of this button.
    #[must_use]
    pub fn next_counterclockwise(self) -> (b: Button)
        ensures
            b.spec_index() == counterclockwise_index(self.spec_index()),
    {
        match self {
            Button::B0 => Button::B5,
            Button::B1 | Button::B2 | Button::B3 | Button::B4 => self.left().unwrap(),
            Button::B5 | Button::B6 | Button::B7 | Button::B8 => self.right().unwrap(),
            Button::B9 => Button::B4,
        }
    }

    /// The button above this one (if any).
    #[must_use]
    pub fn above(self) -> (b: Option<Button>)
        ensures
            self.spec_index() >= 5 <==> b is Some,
            b matches Some(a) ==> a.spec_index() == self.spec_index() - 5,
    {
        if self.index() > 4 {
            Some(Button::from_index(self.index() - 5))
        } else {
            None
        }
    }

    /// The button below this one (if any).
    #[must_use]
    pub fn below(self) -> (b: Option<Button>)
        ensures
            self.spec_index() < 5 <==> b is Some,
            b matches Some(a) ==> a.spec_index() == self.spec_index() + 5,
    {
        if self.index() < 5 {
            Some(Button::from_index(self.index() + 5))
        } else {
            None
        }
    }

    /// The button to the left of this one (if any).
    #[must_use]
    pub fn left(self) -> (b: Option<Button>)
        ensures
            self.spec_index() % 5 != 0 <==> b is Some,
            b matches Some(a) ==> a.spec_index() == self.spec_index() - 1,
    {
        if matches!(self, Button::B0 | Button::B5) {
            None
        } else {
            Some(Button::from_index(self.index() - 1))
        }
    }

    /// The button to the right of this one (if any).
    #[must_use]
    pub fn right(self) -> (b: Option<Button>)
        ensures
            self.spec_index() % 5 != 4 <==> b is Some,
            b matches Some(a) ==> a.spec_index() == self.spec_index() + 1,
    {
        if matches!(self, Button::B4 | Button::B9) {
            None
        } else {
            Some(Button::from_index(self.index() + 1))
        }
    }

    /// Return the button where this button would be if Boppo is rotated 180 degrees around its
    /// center.
    #[must_use]
    pub fn rotate_180(self) -> (b: Button)
        ensures
            b.spec_index() == 9 - self.spec_index(),
    {
        Button::from_index(Button::COUNT - 1 - self.index())
    }

    /// Returns a [`Buttons`] with only this button selected.
    #[must_use]
    pub fn to_buttons(self) -> (s: Buttons)
        ensures
            s@ == set![self.spec_index()],
    {
        Buttons::from_index(self.index())
    }

    /// Returns a [`Lights`] with only this button's lights selected.
    #[must_use]
    pub fn to_lights(self) -> (s: Lights)
        ensures
            s@ == Set::new(|i: int| 0 <= i < 40 && i / 4 == self.spec_index()),
    {
        Lights::all_from_button(self)
    }

    /// Returns the light at `dir` on this button.
    #[must_use]
    pub fn light_at(self, dir: LightDir) -> (s: Lights)
        ensures
            s@ == set![4 * self.spec_index() + dir.spec_index()],
    {
        let s = self.to_lights().only(dir);
        assert(s@ =~= set![4 * self.spec_index() + dir.spec_index()]);
        s
    }
}

/// A row of [`Button`]s.
#[derive(Debug, Copy, Clone, PartialEq, Eq, Structural, PartialOrd, Ord, Hash)]
pub enum Row {
    /// [`Button::B0`] through [`Button::B4`]
    Top,
    /// [`Button::B5`] through [`Button::B9`]
    Bottom,
}

impl Row {
    /// The number of rows of top buttons on Boppo.
    pub const COUNT: usize = 2;

    /// The index of this row: 0 for [`Row::Top`], 1 for [`Row::Bottom`].
    pub open spec fn spec_index(self) -> int {
        match self {
            Row::Top => 0,
            Row::Bottom => 1,
        }
    }

    /// Returns the index of this row, 0 ([`Top`][Row::Top]) or 1 ([`Bottom`][Row::Bottom]).
    #[must_use]
    pub fn index(&self) -> (i: usize)
        ensures
            i == self.spec_index(),
    {
        match self {
            Row::Top => 0,
            Row::Bottom => 1,
        }
    }

    /// Returns [`Row::Top`] if `idx == 0`, and [`Row::Bottom`] if `idx == 1`.
    ///
    /// Not defined on any other `idx`: `requires` rules it out.
    #[must_use]
    pub fn from_index(idx: usize) -> (r: Row)
        requires
            idx < 2,
        ensures
            r.spec_index() == idx,
    {
        if idx == 0 {
            Row::Top
        } else {
            Row::Bottom
        }
    }

    /// Returns the opposite row to this one.
    #[must_use]
    pub fn opposite(&self) -> (r: Row)
        ensures
            r.spec_index() == 1 - self.spec_index(),
    {
        match self {
            Row::Top => Row::Bottom,
            Row::Bottom => Row::Top,
        }
    }
}

/// A column of [`Buttons`]. When the side buttons face the user, [`Column::C0`] is the leftmost
/// column, and [`Column::C4`] is the rightmost column.
#[derive(Debug, Copy, Clone, PartialEq, Eq, Structural, PartialOrd, Ord, Hash)]
pub enum Column {
    /// The leftmost column.
    C0,
    /// The second column from the left.
    C1,
    /// The middle column.
    C2,
    /// The second column from the right.
    C3,
    /// The rightmost column.
    C4,
}

impl Column {
    /// The number of columns of top buttons on Boppo.
    pub const COUNT: usize = 5;

    /// The index of this column, 0 (leftmost) to 4 (rightmost).
    pub open spec fn spec_index(self) -> int {
        match self {
            Column::C0 => 0,
            Column::C1 => 1,
            Column::C2 => 2,
            Column::C3 => 3,
            Column::C4 => 4,
        }
    }

    /// Returns the index of this column.
    #[must_use]
    pub fn index(&self) -> (i: usize)
        ensures
            i == self.spec_index(),
    {
        match self {
            Column::C0 => 0,
            Column::C1 => 1,
            Column::C2 => 2,
            Column::C3 => 3,
            Column::C4 => 4,
        }
    }

    /// Returns the corresponding column for the given `idx`.
    ///
    /// Not defined when `idx` exceeds `4`: `requires` rules it out.
    #[must_use]
    pub fn from_index(idx: usize) -> (c: Column)
        requires
            idx < 5,
        ensures
            c.spec_index() == idx,
    {
        match idx {
            0 => Column::C0,
            1 => Column::C1,
            2 => Column::C2,
            3 => Column::C3,
            _ => Column::C4,
        }
    }

    /// Returns an array containing all five [`Column`] variants, ordered left-to-right.
    #[must_use]
    pub fn all() -> (cs: [Column; 5])
        ensures
            forall|i: int| 0 <= i < 5 ==> (#[trigger] cs[i]).spec_index() == i,
    {
        [Column::C0, Column::C1, Column::C2, Column::C3, Column::C4]
    }
}

/// A button is determined by its index.
pub proof fn lemma_index_determines_button(a: Button, b: Button)
    ensures
        a.spec_index() == b.spec_index() ==> a == b,
        0 <= a.spec_index() < 10,
{
}

/// Moving clockwise and then counterclockwise (or the other way round) returns to the same button.
pub proof fn lemma_clockwise_inverse(a: Button, b: Button, c: Button)
    requires
        b.spec_index() == clockwise_index(a.spec_index()) && c.spec_index()
            == counterclockwise_index(b.spec_index()) || b.spec_index() == counterclockwise_index(
            a.spec_index(),
        ) && c.spec_index() == clockwise_index(b.spec_index()),
    ensures
        c == a,
{
}

/// The button reached from button `i` after `k` clockwise steps.
pub open spec fn clockwise_steps(i: int, k: nat) -> int
    decreases k,
{
    if k == 0 {
        i
    } else {
        clockwise_index(clockwise_steps(i, (k - 1) as nat))
    }
}

/// Going clockwise visits every button once before coming back: from any button, ten steps lead
/// back to it, and one to nine steps never do.
pub proof fn lemma_clockwise_cycle(b: Button)
    ensures
        forall|k: nat| 0 < k < 10 ==> #[trigger] clockwise_steps(b.spec_index(), k) != b.spec_index(),
        clockwise_steps(b.spec_index(), 10) == b.spec_index(),
{
    reveal_with_fuel(clockwise_steps, 11);
}

/// The neighbours of buttons agree with each other: `b` is below `a` exactly when `a` is above
/// `b`, and `b` is right of `a` exactly when `a` is left of `b`.
pub proof fn lemma_neighbours(a: Button, b: Button)
    ensures
        (a.spec_index() < 5 && b.spec_index() == a.spec_index() + 5) <==> (b.spec_index() >= 5
            && a.spec_index() == b.spec_index() - 5),
        (a.spec_index() % 5 != 4 && b.spec_index() == a.spec_index() + 1) <==> (b.spec_index() % 5
            != 0 && a.spec_index() == b.spec_index() - 1),
{
}

/// Rotating by 180 degrees twice gives back the same button.
pub proof fn lemma_rotate_180_involution(a: Button, b: Button, c: Button)
    requires
        b.spec_index() == 9 - a.spec_index(),
        c.spec_index() == 9 - b.spec_index(),
    ensures
        c == a,
{
}

/// A button is found again from its row and its column.
pub proof fn lemma_row_col_round_trip(b: Button, r: Row, c: Column, d: Button)
    requires
        r.spec_index() == b.spec_index() / 5,
        c.spec_index() == b.spec_index() % 5,
        d.spec_index() == r.spec_index() * 5 + c.spec_index(),
    ensures
        d == b,
{
}

/// Going clockwise follows the edge of the tablet: along the top row to the right, from the top
/// right corner down to the bottom right, along the bottom row to the left, and from the bottom
/// left corner up to the top left. Counterclockwise goes the same ring the other way: to the left
/// along the top row, down from the top left, to the right along the bottom row, up from the
/// bottom right.
pub proof fn lemma_clockwise_follows_the_edge(b: Button)
    ensures
        b.spec_index() / 5 == 0 && b.spec_index() % 5 != 4 ==> clockwise_index(b.spec_index())
            == b.spec_index() + 1,
        b.spec_index() == 4 ==> clockwise_index(b.spec_index()) == b.spec_index() + 5,
        b.spec_index() / 5 == 1 && b.spec_index() % 5 != 0 ==> clockwise_index(b.spec_index())
            == b.spec_index() - 1,
        b.spec_index() == 5 ==> clockwise_index(b.spec_index()) == b.spec_index() - 5,
        b.spec_index() / 5 == 0 && b.spec_index() % 5 != 0 ==> counterclockwise_index(
            b.spec_index(),
        ) == b.spec_index() - 1,
        b.spec_index() == 0 ==> counterclockwise_index(b.spec_index()) == b.spec_index() + 5,
        b.spec_index() / 5 == 1 && b.spec_index() % 5 != 4 ==> counterclockwise_index(
            b.spec_index(),
        ) == b.spec_index() + 1,
        b.spec_index() == 9 ==> counterclockwise_index(b.spec_index()) == b.spec_index() - 5,
{
}

} // verus!
