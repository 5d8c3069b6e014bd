//! An off-screen buffer holding one color for each light of the tablet.
use vstd::prelude::*;

use crate::bits::{bit64, set64};
use crate::buttons::Buttons;
use crate::color::{Color, RGB, RGBA};
use crate::lights::Lights;

verus! {

/// An "off-screen" buffer storing a color for each light on the tablet.
///
/// These colors can be modified with a similar API as [`Buttons`] but will not have any effect
/// until they are flushed to the lights.
#[derive(Clone, PartialEq)]
pub struct Framebuffer<C: Color = RGB> {
    /// A color for each Light on the tablet. The ordering is the same as [`Lights`].
    pub colors: [C; 40],
}

/// [`Framebuffer`] using [`RGBA`] as its pixel type.
pub type FramebufferRGBA = Framebuffer<RGBA>;

/// The colors after the `k`-th button of `order` (for each `k` below `n`) had all four of its
/// lights set to `vals[k]`.
pub open spec fn button_colors_after<C>(old: Seq<C>, order: Seq<int>, vals: Seq<C>, n: int) -> Seq<C> {
    Seq::new(
        old.len(),
        |i: int|
            if exists|k: int| 0 <= k < n && order[k] == i / 4 {
                vals[choose|k: int| 0 <= k < n && order[k] == i / 4]
            } else {
                old[i]
            },
    )
}

/// What [`Framebuffer::set_buttons_colors`] leaves (`after`, from `before`): the `k`-th lowest
/// selected button gets `colors[k]` on all four of its lights, as long as there are both buttons
/// and colors left; every light of any other button keeps its color.
pub proof fn lemma_button_colors<C>(before: Seq<C>, buttons: Buttons, colors: Seq<C>, after: Seq<C>)
    requires
        before.len() == 40,
        after == button_colors_after(
            before,
            buttons.index_seq(),
            colors,
            if colors.len() < buttons@.len() {
                colors.len() as int
            } else {
                buttons@.len() as int
            },
        ),
    ensures
        after.len() == 40,
        forall|k: int, j: int|
            0 <= k < colors.len() && 0 <= k < buttons.index_seq().len() && 0 <= j < 4
                ==> #[trigger] after[4 * buttons.index_seq()[k] + j] == colors[k],
        forall|k: int, l: int|
            0 <= k < l < buttons.index_seq().len() ==> #[trigger] buttons.index_seq()[k]
                < #[trigger] buttons.index_seq()[l],
        forall|i: int|
            0 <= i < 40 && !buttons@.contains(i / 4) ==> #[trigger] after[i] == before[i],
        forall|k: int, j: int|
            colors.len() <= k < buttons.index_seq().len() && 0 <= j < 4 ==> #[trigger] after[4
                * buttons.index_seq()[k] + j] == before[4 * buttons.index_seq()[k] + j],
{
    buttons.lemma_view_facts();
    let order = buttons.index_seq();
    let n = if colors.len() < buttons@.len() {
        colors.len() as int
    } else {
        buttons@.len() as int
    };
    assert forall|k: int, j: int|
        0 <= k < colors.len() && 0 <= k < order.len() && 0 <= j < 4 implies #[trigger] after[4
        * order[k] + j] == colors[k] by {
        let i = 4 * order[k] + j;
        assert(i / 4 == order[k]);
        assert(0 <= k < n && order[k] == i / 4);
        let kk = choose|kk: int| 0 <= kk < n && order[kk] == i / 4;
        if kk != k {
            assert(order[kk] != order[k]);
        }
    }
    assert forall|i: int| 0 <= i < 40 && !buttons@.contains(i / 4) implies #[trigger] after[i]
        == before[i] by {
        if exists|kk: int| 0 <= kk < n && order[kk] == i / 4 {
            let kk = choose|kk: int| 0 <= kk < n && order[kk] == i / 4;
            assert(order.to_set().contains(order[kk]));
        }
    }
    assert forall|k: int, j: int|
        colors.len() <= k < order.len() && 0 <= j < 4 implies #[trigger] after[4 * order[k] + j]
        == before[4 * order[k] + j] by {
        let i = 4 * order[k] + j;
        assert(i / 4 == order[k]);
        if exists|kk: int| 0 <= kk < n && order[kk] == i / 4 {
            let kk = choose|kk: int| 0 <= kk < n && order[kk] == i / 4;
            assert(kk < k);
            assert(order[kk] != order[k]);
        }
    }
}

impl<C: Color> Framebuffer<C> {
    /// Create a new Framebuffer with all pixels set to OFF (Black).
    pub fn new() -> (fb: Self)
        ensures
            forall|i: int| 0 <= i < 40 ==> #[trigger] fb.colors[i] == C::spec_off(),
    {
        let off = C::off();
        Self { colors: [off; 40] }
    }

    /// Set every light in `selection` to `color`.
    pub fn set_color(&mut self, selection: Lights, color: C)
        ensures
            forall|i: int|
                0 <= i < 40 ==> #[trigger] final(self).colors[i] == if selection@.contains(i) {
                    color
                } else {
                    old(self).colors[i]
                },
    {
        let bits = selection.as_bitset();
        let mut i: u64 = 0;
        while i < 40
            invariant
                i <= 40,
                set64(bits, 40) == selection@,
                forall|j: int|
                    0 <= j < 40 ==> #[trigger] self.colors[j] == if j < i && selection@.contains(
                        j,
                    ) {
                        color
                    } else {
                        old(self).colors[j]
                    },
            decreases 40 - i,
        {
            if (bits >> i) & 1 == 1 {
                self.colors[i as usize] = color;
            }
            proof {
                assert(selection@.contains(i as int) == bit64(bits, i as int));
            }
            i = i + 1;
        }
    }

    /// Set every button in `buttons` to the corresponding color in `colors`, lowest button first,
    /// up until either all buttons selected in `buttons` have been used, or all colors in `colors`
    /// have been used.
    pub fn set_buttons_colors(&mut self, buttons: Buttons, colors: &[C])
        ensures
            final(self).colors@ == button_colors_after(
                old(self).colors@,
                buttons.index_seq(),
                colors@,
                if colors.len() < buttons@.len() {
                    colors.len() as int
                } else {
                    buttons@.len() as int
                },
            ),
    {
        let mut it = buttons.buttons();
        let count = buttons.len() as usize;
        let mut k: usize = 0;
        let ghost order = buttons.index_seq();
        proof {
            buttons.lemma_view_facts();
            assert(self.colors@ =~= button_colors_after(old(self).colors@, order, colors@, 0));
        }
        while k < colors.len() && k < count
            invariant
                k <= colors.len(),
                count == order.len(),
                order == buttons.index_seq(),
                order.no_duplicates(),
                forall|l: int| 0 <= l < order.len() ==> 0 <= #[trigger] order[l] < 10,
                k <= order.len(),
                it@ == order.subrange(k as int, order.len() as int),
                self.colors@ == button_colors_after(old(self).colors@, order, colors@, k as int),
            decreases colors.len() - k,
        {
            let ghost b = order[k as int];
            if let Some(button) = it.next() {
                assert(button.spec_index() == b);
                self.set_color(Lights::all_from_button(button), colors[k]);
                proof {
                    assert(it@ =~= order.subrange(k + 1, order.len() as int));
                    let goal = button_colors_after(old(self).colors@, order, colors@, k + 1);
                    let prev = button_colors_after(old(self).colors@, order, colors@, k as int);
                    assert forall|i: int| 0 <= i < 40 implies self.colors@[i] == goal[i] by {
                        if i / 4 == b {
                            assert(0 <= k < k + 1 && order[k as int] == i / 4);
                            let kk = choose|kk: int| 0 <= kk < k + 1 && order[kk] == i / 4;
                            assert(kk == k);
                        } else {
                            assert(self.colors@[i] == prev[i]);
                            if exists|kk: int| 0 <= kk < k + 1 && order[kk] == i / 4 {
                                let kk = choose|kk: int| 0 <= kk < k + 1 && order[kk] == i / 4;
                                assert(kk != k);
                                assert(0 <= kk < k && order[kk] == i / 4);
                                let k2 = choose|k2: int| 0 <= k2 < k && order[k2] == i / 4;
                                assert(k2 == kk);
                            }
                        }
                    }
                    assert(self.colors@ =~= goal);
                }
            }
            k = k + 1;
        }
    }

    /// Set every light to the corresponding color in `colors`.
    pub fn set_all_colors(&mut self, colors: &[C; 40])
        ensures
            final(self).colors@ == colors@,
    {
        self.colors = *colors;
    }

    /// Clear the framebuffer from all data to revert all lights to off for future re-use.
    /// Note : This function does not flush the buffer to the lights, but only clears the buffer
    /// data.
    pub fn clear(&mut self)
        ensures
            forall|i: int| 0 <= i < 40 ==> #[trigger] final(self).colors[i] == C::spec_off(),
    {
        let off = C::off();
        self.colors = [off; 40];
    }

    /// Blend `self` with `rhs`, using `blend_fn`, which is given the two colors of each light and
    /// the light's index.
    pub fn blend<W: Fn(C, C, usize) -> C>(&self, rhs: &Self, blend_fn: W) -> (fb: Self)
        requires
            forall|i: usize|
                i < 40 ==> #[trigger] blend_fn.requires((self.colors[i as int], rhs.colors[i as int], i)),
        ensures
            forall|i: usize|
                i < 40 ==> #[trigger] blend_fn.ensures(
                    (self.colors[i as int], rhs.colors[i as int], i),
                    fb.colors[i as int],
                ),
    {
        let off = C::off();
        let mut colors = [off; 40];
        let mut i: usize = 0;
        while i < 40
            invariant
                i <= 40,
                forall|j: usize|
                    j < 40 ==> #[trigger] blend_fn.requires(
                        (self.colors[j as int], rhs.colors[j as int], j),
                    ),
                forall|j: usize|
                    j < i ==> #[trigger] blend_fn.ensures(
                        (self.colors[j as int], rhs.colors[j as int], j),
                        colors[j as int],
                    ),
            decreases 40 - i,
        {
            colors[i] = blend_fn(self.colors[i], rhs.colors[i], i);
            i = i + 1;
        }
        Framebuffer { colors }
    }

    /// Combine each light of `self` with the same light of `rhs`, which may hold another kind of
    /// color, using `combine_fn`: it is given the light's index, the color of `self` and the
    /// color of `rhs`, in that order. This is how [`Framebuffer`]s are blended into the colors
    /// currently set.
    pub fn combine<D: Color, W: Fn(usize, C, D) -> C>(&self, rhs: &Framebuffer<D>, combine_fn: W) -> (fb:
        Self)
        requires
            forall|i: usize|
                i < 40 ==> #[trigger] combine_fn.requires((i, self.colors[i as int], rhs.colors[i as int])),
        ensures
            forall|i: usize|
                i < 40 ==> #[trigger] combine_fn.ensures(
                    (i, self.colors[i as int], rhs.colors[i as int]),
                    fb.colors[i as int],
                ),
    {
        let off = C::off();
        let mut colors = [off; 40];
        let mut i: usize = 0;
        while i < 40
            invariant
                i <= 40,
                forall|j: usize|
                    j < 40 ==> #[trigger] combine_fn.requires(
                        (j, self.colors[j as int], rhs.colors[j as int]),
                    ),
                forall|j: usize|
                    j < i ==> #[trigger] combine_fn.ensures(
                        (j, self.colors[j as int], rhs.colors[j as int]),
                        colors[j as int],
                    ),
            decreases 40 - i,
        {
            colors[i] = combine_fn(i, self.colors[i], rhs.colors[i]);
            i = i + 1;
        }
        Framebuffer { colors }
    }

    /// Dim `self` with `dim_fn`, which is given the color of each light and the light's index.
    pub fn dim<W: Fn(C, usize) -> C>(&self, dim_fn: W) -> (fb: Self)
        requires
            forall|i: usize| i < 40 ==> #[trigger] dim_fn.requires((self.colors[i as int], i)),
        ensures
            forall|i: usize|
                i < 40 ==> #[trigger] dim_fn.ensures((self.colors[i as int], i), fb.colors[i as int]),
    {
        let off = C::off();
        let mut colors = [off; 40];
        let mut i: usize = 0;
        while i < 40
            invariant
                i <= 40,
                forall|j: usize| j < 40 ==> #[trigger] dim_fn.requires((self.colors[j as int], j)),
                forall|j: usize|
                    j < i ==> #[trigger] dim_fn.ensures((self.colors[j as int], j), colors[j as int]),
            decreases 40 - i,
        {
            colors[i] = dim_fn(self.colors[i], i);
            i = i + 1;
        }
        Framebuffer { colors }
    }

    /// Apply `f` to each pixel in this buffer.
    pub fn map<V: Color, F: Fn(C) -> V>(&self, f: F) -> (fb: Framebuffer<V>)
        requires
            forall|i: int| 0 <= i < 40 ==> #[trigger] f.requires((self.colors[i],)),
        ensures
            forall|i: int| 0 <= i < 40 ==> #[trigger] f.ensures((self.colors[i],), fb.colors[i]),
    {
        let off = V::off();
        let mut colors = [off; 40];
        let mut i: usize = 0;
        while i < 40
            invariant
                i <= 40,
                forall|j: int| 0 <= j < 40 ==> #[trigger] f.requires((self.colors[j],)),
                forall|j: int| 0 <= j < i ==> #[trigger] f.ensures((self.colors[j],), colors[j]),
            decreases 40 - i,
        {
            colors[i] = f(self.colors[i]);
            i = i + 1;
        }
        Framebuffer { colors }
    }
}

impl<C: Color> Default for Framebuffer<C> {
    /// A buffer with every light off.
    fn default() -> (fb: Self)
        ensures
            forall|i: int| 0 <= i < 40 ==> #[trigger] fb.colors[i] == C::spec_off(),
    {
        Self::new()
    }
}

impl Framebuffer<RGB> {
    /// Convert `self` to `Framebuffer<RGBA>`, using `a` as the alpha value for each pixel.
    pub fn with_alpha(self, a: u8) -> (fb: Framebuffer<RGBA>)
        ensures
            forall|i: int|
                0 <= i < 40 ==> #[trigger] fb.colors[i] == (RGBA {
                    r: self.colors[i].r,
                    g: self.colors[i].g,
                    b: self.colors[i].b,
                    a,
                }),
    {
        let mut colors = [RGBA::off(); 40];
        let mut i: usize = 0;
        while i < 40
            invariant
                i <= 40,
                forall|j: int|
                    0 <= j < i ==> #[trigger] colors[j] == (RGBA {
                        r: self.colors[j].r,
                        g: self.colors[j].g,
                        b: self.colors[j].b,
                        a,
                    }),
            decreases 40 - i,
        {
            colors[i] = self.colors[i].with_alpha(a);
            i = i + 1;
        }
        Framebuffer { colors }
    }
}

impl Framebuffer<RGBA> {
    /// Convert `self` to `Framebuffer<RGB>`, ignoring alpha values.
    pub fn to_rgb(&self) -> (fb: Framebuffer<RGB>)
        ensures
            forall|i: int|
                0 <= i < 40 ==> #[trigger] fb.colors[i] == (RGB {
                    r: self.colors[i].r,
                    g: self.colors[i].g,
                    b: self.colors[i].b,
                }),
    {
        let mut colors = [RGB::off(); 40];
        let mut i: usize = 0;
        while i < 40
            invariant
                i <= 40,
                forall|j: int|
                    0 <= j < i ==> #[trigger] colors[j] == (RGB {
                        r: self.colors[j].r,
                        g: self.colors[j].g,
                        b: self.colors[j].b,
                    }),
            decreases 40 - i,
        {
            colors[i] = self.colors[i].rgb();
            i = i + 1;
        }
        Framebuffer { colors }
    }
}

/// Giving a buffer an alpha with [`Framebuffer::with_alpha`] and dropping it again with
/// [`Framebuffer::to_rgb`] gives back the same colors.
pub proof fn lemma_with_alpha_to_rgb(
    fb: Framebuffer<RGB>,
    a: u8,
    with: Framebuffer<RGBA>,
    back: Framebuffer<RGB>,
)
    requires
        forall|i: int|
            0 <= i < 40 ==> #[trigger] with.colors[i] == (RGBA {
                r: fb.colors[i].r,
                g: fb.colors[i].g,
                b: fb.colors[i].b,
                a,
            }),
        forall|i: int|
            0 <= i < 40 ==> #[trigger] back.colors[i] == (RGB {
                r: with.colors[i].r,
                g: with.colors[i].g,
                b: with.colors[i].b,
            }),
    ensures
        back.colors@ == fb.colors@,
{
    assert forall|i: int| 0 <= i < 40 implies back.colors@[i] == fb.colors@[i] by {
        assert(with.colors[i] == (RGBA { r: fb.colors[i].r, g: fb.colors[i].g, b: fb.colors[i].b, a }));
        assert(back.colors[i] == (RGB { r: with.colors[i].r, g: with.colors[i].g, b: with.colors[i].b }));
    }
    assert(back.colors@ =~= fb.colors@);
}

impl<C: Color + core::ops::Add<Output = C>> vstd::std_specs::ops::AddSpecImpl for Framebuffer<C> {
    /// What `add` gives is stated on `add` itself, light by light.
    open spec fn obeys_add_spec() -> bool {
        false
    }

    /// The sum of the colors of each light must be defined.
    open spec fn add_req(self, rhs: Framebuffer<C>) -> bool {
        forall|i: int|
            0 <= i < 40 ==> #[trigger] vstd::std_specs::ops::AddSpec::add_req(
                self.colors[i],
                rhs.colors[i],
            )
    }

    open spec fn add_spec(self, rhs: Framebuffer<C>) -> Framebuffer<C> {
        arbitrary()
    }
}

impl<C: Color + core::ops::Add<Output = C>> core::ops::Add for Framebuffer<C> {
    type Output = Self;

    /// The sum of the colors of each light, as the colors' own `add` computes it.
    fn add(self, rhs: Framebuffer<C>) -> (fb: Self)
        ensures
            forall|i: int|
                0 <= i < 40 ==> (<C as vstd::std_specs::ops::AddSpec>::obeys_add_spec() ==> #[trigger] fb.colors[i]
                    == vstd::std_specs::ops::AddSpec::add_spec(self.colors[i], rhs.colors[i])),
    {
        let off = C::off();
        let mut colors = [off; 40];
        let mut i: usize = 0;
        while i < 40
            invariant
                i <= 40,
                forall|j: int|
                    0 <= j < 40 ==> #[trigger] vstd::std_specs::ops::AddSpec::add_req(
                        self.colors[j],
                        rhs.colors[j],
                    ),
                forall|j: int|
                    0 <= j < i ==> (<C as vstd::std_specs::ops::AddSpec>::obeys_add_spec() ==> #[trigger] colors[j]
                    == vstd::std_specs::ops::AddSpec::add_spec(self.colors[j], rhs.colors[j])),
            decreases 40 - i,
        {
            colors[i] = self.colors[i].add(rhs.colors[i]);
            i = i + 1;
        }
        Framebuffer { colors }
    }
}

impl<C: Color + core::ops::Sub<Output = C>> vstd::std_specs::ops::SubSpecImpl for Framebuffer<C> {
    /// What `sub` gives is stated on `sub` itself, light by light.
    open spec fn obeys_sub_spec() -> bool {
        false
    }

    /// The difference of the colors of each light must be defined.
    open spec fn sub_req(self, rhs: Framebuffer<C>) -> bool {
        forall|i: int|
            0 <= i < 40 ==> #[trigger] vstd::std_specs::ops::SubSpec::sub_req(
                self.colors[i],
                rhs.colors[i],
            )
    }

    open spec fn sub_spec(self, rhs: Framebuffer<C>) -> Framebuffer<C> {
        arbitrary()
    }
}

impl<C: Color + core::ops::Sub<Output = C>> core::ops::Sub for Framebuffer<C> {
    type Output = Self;

    /// The difference of the colors of each light, as the colors' own `sub` computes it.
    fn sub(self, rhs: Framebuffer<C>) -> (fb: Self)
        ensures
            forall|i: int|
                0 <= i < 40 ==> (<C as vstd::std_specs::ops::SubSpec>::obeys_sub_spec() ==> #[trigger] fb.colors[i]
                    == vstd::std_specs::ops::SubSpec::sub_spec(self.colors[i], rhs.colors[i])),
    {
        let off = C::off();
        let mut colors = [off; 40];
        let mut i: usize = 0;
        while i < 40
            invariant
                i <= 40,
                forall|j: int|
                    0 <= j < 40 ==> #[trigger] vstd::std_specs::ops::SubSpec::sub_req(
                        self.colors[j],
                        rhs.colors[j],
                    ),
                forall|j: int|
                    0 <= j < i ==> (<C as vstd::std_specs::ops::SubSpec>::obeys_sub_spec() ==> #[trigger] colors[j]
                    == vstd::std_specs::ops::SubSpec::sub_spec(self.colors[j], rhs.colors[j])),
            decreases 40 - i,
        {
            colors[i] = self.colors[i].sub(rhs.colors[i]);
            i = i + 1;
        }
        Framebuffer { colors }
    }
}

impl<C: Color + core::ops::Mul<Output = C>> vstd::std_specs::ops::MulSpecImpl for Framebuffer<C> {
    /// What `mul` gives is stated on `mul` itself, light by light.
    open spec fn obeys_mul_spec() -> bool {
        false
    }

    /// The product of the colors of each light must be defined.
    open spec fn mul_req(self, rhs: Framebuffer<C>) -> bool {
        forall|i: int|
            0 <= i < 40 ==> #[trigger] vstd::std_specs::ops::MulSpec::mul_req(
                self.colors[i],
                rhs.colors[i],
            )
    }

    open spec fn mul_spec(self, rhs: Framebuffer<C>) -> Framebuffer<C> {
        arbitrary()
    }
}

impl<C: Color + core::ops::Mul<Output = C>> core::ops::Mul for Framebuffer<C> {
    type Output = Self;

    /// The product of the colors of each light, as the colors' own `mul` computes it.
    fn mul(self, rhs: Framebuffer<C>) -> (fb: Self)
        ensures
            forall|i: int|
                0 <= i < 40 ==> (<C as vstd::std_specs::ops::MulSpec>::obeys_mul_spec() ==> #[trigger] fb.colors[i]
                    == vstd::std_specs::ops::MulSpec::mul_spec(self.colors[i], rhs.colors[i])),
    {
        let off = C::off();
        let mut colors = [off; 40];
        let mut i: usize = 0;
        while i < 40
            invariant
                i <= 40,
                forall|j: int|
                    0 <= j < 40 ==> #[trigger] vstd::std_specs::ops::MulSpec::mul_req(
                        self.colors[j],
                        rhs.colors[j],
                    ),
                forall|j: int|
                    0 <= j < i ==> (<C as vstd::std_specs::ops::MulSpec>::obeys_mul_spec() ==> #[trigger] colors[j]
                    == vstd::std_specs::ops::MulSpec::mul_spec(self.colors[j], rhs.colors[j])),
            decreases 40 - i,
        {
            colors[i] = self.colors[i].mul(rhs.colors[i]);
            i = i + 1;
        }
        Framebuffer { colors }
    }
}

impl<C: Color + core::ops::Div<Output = C>> vstd::std_specs::ops::DivSpecImpl for Framebuffer<C> {
    /// What `div` gives is stated on `div` itself, light by light.
    open spec fn obeys_div_spec() -> bool {
        false
    }

    /// The quotient of the colors of each light must be defined.
    open spec fn div_req(self, rhs: Framebuffer<C>) -> bool {
        forall|i: int|
            0 <= i < 40 ==> #[trigger] vstd::std_specs::ops::DivSpec::div_req(
                self.colors[i],
                rhs.colors[i],
            )
    }

    open spec fn div_spec(self, rhs: Framebuffer<C>) -> Framebuffer<C> {
        arbitrary()
    }
}

impl<C: Color + core::ops::Div<Output = C>> core::ops::Div for Framebuffer<C> {
    type Output = Self;

    /// The quotient of the colors of each light, as the colors' own `div` computes it.
    fn div(self, rhs: Framebuffer<C>) -> (fb: Self)
        ensures
            forall|i: int|
                0 <= i < 40 ==> (<C as vstd::std_specs::ops::DivSpec>::obeys_div_spec() ==> #[trigger] fb.colors[i]
                    == vstd::std_specs::ops::DivSpec::div_spec(self.colors[i], rhs.colors[i])),
    {
        let off = C::off();
        let mut colors = [off; 40];
        let mut i: usize = 0;
        while i < 40
            invariant
                i <= 40,
                forall|j: int|
                    0 <= j < 40 ==> #[trigger] vstd::std_specs::ops::DivSpec::div_req(
                        self.colors[j],
                        rhs.colors[j],
                    ),
                forall|j: int|
                    0 <= j < i ==> (<C as vstd::std_specs::ops::DivSpec>::obeys_div_spec() ==> #[trigger] colors[j]
                    == vstd::std_specs::ops::DivSpec::div_spec(self.colors[j], rhs.colors[j])),
            decreases 40 - i,
        {
            colors[i] = self.colors[i].div(rhs.colors[i]);
            i = i + 1;
        }
        Framebuffer { colors }
    }
}


} // verus!
