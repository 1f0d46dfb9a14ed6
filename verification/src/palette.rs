//! Expanding the sparse base color table into the full 256-entry palette.
//!
//! Each base color index `i` in `0..64` owns the four output slots
//! `4*i + j` for `j` in `0..4`; slot `j` scales the red, green and blue
//! channels by `multiplier(j) / 255` (truncating division) and copies the
//! alpha channel verbatim.  Base indices without an entry yield fully
//! transparent black in all four of their slots.

use vstd::arithmetic::div_mod::lemma_div_is_ordered;
use vstd::arithmetic::mul::lemma_mul_inequality;
use vstd::prelude::*;

verus! {

/// One palette entry: red, green, blue and alpha, each `0..=255`.
/// Alpha is always `0` (fully transparent) or `255` (fully opaque) for
/// palettes built from the base color table.
#[derive(Clone, Copy, Debug, PartialEq, Eq, Structural)]
pub struct Rgba {
    pub r: u8,
    pub g: u8,
    pub b: u8,
    pub a: u8,
}

impl Rgba {
    /// Fully transparent black, the entry of every unmapped palette slot.
    pub fn transparent() -> (c: Rgba)
        ensures
            c == spec_transparent(),
    {
        Rgba { r: 0, g: 0, b: 0, a: 0 }
    }
}

pub open spec fn spec_transparent() -> Rgba {
    Rgba { r: 0, g: 0, b: 0, a: 0 }
}

/// The brightness multiplier of shade slot `j`: the four shading variants
/// (dark, normal, light, darker) the map format defines per logical color.
pub open spec fn spec_multiplier(j: int) -> int {
    if j == 0 {
        180
    } else if j == 1 {
        220
    } else if j == 2 {
        255
    } else {
        135
    }
}

fn multiplier(j: usize) -> (m: u16)
    requires
        j < 4,
    ensures
        m as int == spec_multiplier(j as int),
{
    if j == 0 {
        180
    } else if j == 1 {
        220
    } else if j == 2 {
        255
    } else {
        135
    }
}

/// One scaled channel: `(c * m) / 255`, truncating.
pub open spec fn spec_shade_channel(c: int, m: int) -> int {
    (c * m) / 255
}

proof fn lemma_shade_channel_bound(c: int, m: int)
    requires
        0 <= c <= 255,
        0 <= m <= 255,
    ensures
        0 <= spec_shade_channel(c, m) <= 255,
{
    lemma_mul_inequality(c, 255, m);
    assert(255 * m <= 255 * 255) by (nonlinear_arith)
        requires
            m <= 255,
    ;
    lemma_div_is_ordered(c * m, 65025, 255);
    assert(c * m >= 0) by (nonlinear_arith)
        requires
            c >= 0 && m >= 0,
    ;
}

/// The palette entry of shade slot `j` for base color `base`; `None` is an
/// unmapped base index and yields transparent black.
pub open spec fn spec_shade(base: Option<Rgba>, j: int) -> Rgba {
    match base {
        None => spec_transparent(),
        Some(c) => Rgba {
            r: spec_shade_channel(c.r as int, spec_multiplier(j)) as u8,
            g: spec_shade_channel(c.g as int, spec_multiplier(j)) as u8,
            b: spec_shade_channel(c.b as int, spec_multiplier(j)) as u8,
            a: c.a,
        },
    }
}

fn shade_channel(c: u8, m: u16) -> (r: u8)
    requires
        m <= 255,
    ensures
        r as int == spec_shade_channel(c as int, m as int),
{
    proof {
        lemma_shade_channel_bound(c as int, m as int);
    }
    ((c as u32 * m as u32) / 255) as u8
}

fn shade(base: Option<Rgba>, j: usize) -> (r: Rgba)
    requires
        j < 4,
    ensures
        r == spec_shade(base, j as int),
{
    match base {
        None => Rgba::transparent(),
        Some(c) => {
            let m = multiplier(j);
            Rgba { r: shade_channel(c.r, m), g: shade_channel(c.g, m), b: shade_channel(c.b, m), a: c.a }
        },
    }
}

/// The first entry of `base` with index `i`, if any: the sparse lookup that
/// `generate_palette` performs for every base index.
pub open spec fn spec_base_lookup(base: Seq<(u8, Rgba)>, i: int) -> Option<Rgba>
    decreases base.len(),
{
    if base.len() == 0 {
        None
    } else if base[0].0 == i {
        Some(base[0].1)
    } else {
        spec_base_lookup(base.drop_first(), i)
    }
}

proof fn lemma_base_lookup_step(base: Seq<(u8, Rgba)>, k: int, i: int)
    requires
        0 <= k < base.len(),
        base[k].0 != i,
        spec_base_lookup(base.skip(k), i) == spec_base_lookup(base, i),
    ensures
        spec_base_lookup(base.skip(k + 1), i) == spec_base_lookup(base, i),
{
    assert(base.skip(k).drop_first() =~= base.skip(k + 1));
}

fn base_lookup(base: &Vec<(u8, Rgba)>, i: u8) -> (r: Option<Rgba>)
    ensures
        r == spec_base_lookup(base@, i as int),
{
    let mut k: usize = 0;
    proof {
        assert(base@.skip(0) =~= base@);
    }
    while k < base.len()
        invariant
            k <= base@.len(),
            spec_base_lookup(base@.skip(k as int), i as int) == spec_base_lookup(base@, i as int),
        decreases base@.len() - k,
    {
        let (key, color) = base[k];
        if key == i {
            assert(base@.skip(k as int)[0] == base@[k as int]);
            return Some(color);
        }
        proof {
            assert(base@.skip(k as int)[0] == base@[k as int]);
            lemma_base_lookup_step(base@, k as int, i as int);
        }
        k = k + 1;
    }
    proof {
        assert(base@.skip(k as int) =~= Seq::<(u8, Rgba)>::empty());
    }
    None
}

/// A full palette: one [`Rgba`] entry for each of the 256 possible stored
/// color bytes.
#[derive(Debug)]
pub struct Palette {
    pub entries: Vec<Rgba>,
}

impl Palette {
    /// A palette is well formed when it has exactly 256 entries.
    pub open spec fn wf(&self) -> bool {
        self.entries@.len() == 256
    }

    /// The entry selected by one stored color byte.
    pub fn get(&self, i: u8) -> (c: &Rgba)
        requires
            self.wf(),
        ensures
            *c == self.entries@[i as int],
    {
        &self.entries[i as usize]
    }
}

/// Expands the sparse base color table into the dense 256-entry palette:
/// slot `4*i + j` holds shade `j` of base color `i` (transparent black where
/// `i` is unmapped).  Total over every input; no error conditions.
pub fn generate_palette(base_colors: &Vec<(u8, Rgba)>) -> (p: Palette)
    ensures
        p.wf(),
        forall|i: int, j: int|
            0 <= i < 64 && 0 <= j < 4 ==> p.entries@[4 * i + j] == spec_shade(
                spec_base_lookup(base_colors@, i),
                j,
            ),
{
    let mut entries: Vec<Rgba> = Vec::new();
    let mut i: usize = 0;
    while i < 64
        invariant
            i <= 64,
            entries@.len() == 4 * i,
            forall|a: int, b: int|
                0 <= a < i && 0 <= b < 4 ==> entries@[4 * a + b] == spec_shade(
                    spec_base_lookup(base_colors@, a),
                    b,
                ),
        decreases 64 - i,
    {
        let base = base_lookup(base_colors, i as u8);
        let mut j: usize = 0;
        while j < 4
            invariant
                j <= 4,
                i < 64,
                base == spec_base_lookup(base_colors@, i as int),
                entries@.len() == 4 * i + j,
                forall|a: int, b: int|
                    0 <= a < i && 0 <= b < 4 ==> entries@[4 * a + b] == spec_shade(
                        spec_base_lookup(base_colors@, a),
                        b,
                    ),
                forall|b: int|
                    0 <= b < j ==> entries@[4 * i + b] == spec_shade(
                        spec_base_lookup(base_colors@, i as int),
                        b,
                    ),
            decreases 4 - j,
        {
            entries.push(shade(base, j));
            j = j + 1;
        }
        i = i + 1;
    }
    Palette { entries }
}


/// The published base color table for save format 2699: the sparse map of
/// base color indices to their colors, all fully opaque.
pub open spec fn spec_base_colors_2699() -> Seq<(u8, Rgba)> {
    seq![
        (1u8, Rgba { r: 127, g: 178, b: 56, a: 255 }),
        (2u8, Rgba { r: 247, g: 233, b: 163, a: 255 }),
        (3u8, Rgba { r: 199, g: 199, b: 199, a: 255 }),
        (4u8, Rgba { r: 255, g: 0, b: 0, a: 255 }),
        (5u8, Rgba { r: 160, g: 160, b: 255, a: 255 }),
        (6u8, Rgba { r: 167, g: 167, b: 167, a: 255 }),
        (7u8, Rgba { r: 0, g: 124, b: 0, a: 255 }),
        (8u8, Rgba { r: 255, g: 255, b: 255, a: 255 }),
        (9u8, Rgba { r: 164, g: 168, b: 184, a: 255 }),
        (10u8, Rgba { r: 151, g: 109, b: 77, a: 255 }),
        (11u8, Rgba { r: 112, g: 112, b: 112, a: 255 }),
        (12u8, Rgba { r: 64, g: 64, b: 255, a: 255 }),
        (13u8, Rgba { r: 143, g: 119, b: 72, a: 255 }),
        (14u8, Rgba { r: 255, g: 252, b: 245, a: 255 }),
        (15u8, Rgba { r: 216, g: 127, b: 51, a: 255 }),
        (16u8, Rgba { r: 178, g: 76, b: 216, a: 255 }),
        (17u8, Rgba { r: 102, g: 153, b: 216, a: 255 }),
        (18u8, Rgba { r: 229, g: 229, b: 51, a: 255 }),
        (19u8, Rgba { r: 127, g: 204, b: 25, a: 255 }),
        (20u8, Rgba { r: 242, g: 127, b: 165, a: 255 }),
        (21u8, Rgba { r: 76, g: 76, b: 76, a: 255 }),
        (22u8, Rgba { r: 153, g: 153, b: 153, a: 255 }),
        (23u8, Rgba { r: 76, g: 127, b: 153, a: 255 }),
        (24u8, Rgba { r: 127, g: 63, b: 178, a: 255 }),
        (25u8, Rgba { r: 51, g: 76, b: 178, a: 255 }),
        (26u8, Rgba { r: 102, g: 76, b: 51, a: 255 }),
        (27u8, Rgba { r: 102, g: 127, b: 51, a: 255 }),
        (28u8, Rgba { r: 153, g: 51, b: 51, a: 255 }),
        (29u8, Rgba { r: 25, g: 25, b: 25, a: 255 }),
        (30u8, Rgba { r: 250, g: 238, b: 77, a: 255 }),
        (31u8, Rgba { r: 92, g: 219, b: 213, a: 255 }),
        (32u8, Rgba { r: 74, g: 128, b: 255, a: 255 }),
        (33u8, Rgba { r: 0, g: 217, b: 58, a: 255 }),
        (34u8, Rgba { r: 129, g: 86, b: 49, a: 255 }),
        (35u8, Rgba { r: 112, g: 2, b: 0, a: 255 }),
        (36u8, Rgba { r: 209, g: 177, b: 161, a: 255 }),
        (37u8, Rgba { r: 159, g: 82, b: 36, a: 255 }),
        (38u8, Rgba { r: 149, g: 87, b: 108, a: 255 }),
        (39u8, Rgba { r: 112, g: 108, b: 138, a: 255 }),
        (40u8, Rgba { r: 186, g: 133, b: 36, a: 255 }),
        (41u8, Rgba { r: 103, g: 117, b: 53, a: 255 }),
        (42u8, Rgba { r: 160, g: 77, b: 78, a: 255 }),
        (43u8, Rgba { r: 57, g: 41, b: 35, a: 255 }),
        (44u8, Rgba { r: 135, g: 107, b: 98, a: 255 }),
        (45u8, Rgba { r: 87, g: 92, b: 92, a: 255 }),
        (46u8, Rgba { r: 122, g: 73, b: 88, a: 255 }),
        (47u8, Rgba { r: 76, g: 62, b: 92, a: 255 }),
        (48u8, Rgba { r: 76, g: 50, b: 35, a: 255 }),
        (49u8, Rgba { r: 76, g: 82, b: 42, a: 255 }),
        (50u8, Rgba { r: 142, g: 60, b: 46, a: 255 }),
        (51u8, Rgba { r: 37, g: 22, b: 16, a: 255 }),
        (52u8, Rgba { r: 189, g: 48, b: 49, a: 255 }),
        (53u8, Rgba { r: 148, g: 63, b: 97, a: 255 }),
        (54u8, Rgba { r: 92, g: 25, b: 29, a: 255 }),
        (55u8, Rgba { r: 22, g: 126, b: 134, a: 255 }),
        (56u8, Rgba { r: 58, g: 142, b: 140, a: 255 }),
        (57u8, Rgba { r: 86, g: 44, b: 62, a: 255 }),
        (58u8, Rgba { r: 20, g: 180, b: 133, a: 255 }),
        (59u8, Rgba { r: 100, g: 100, b: 100, a: 255 }),
        (60u8, Rgba { r: 216, g: 175, b: 147, a: 255 }),
        (61u8, Rgba { r: 127, g: 167, b: 150, a: 255 }),
    ]
}

/// Builds the published base color table for save format 2699.
pub fn base_colors_2699() -> (r: Vec<(u8, Rgba)>)
    ensures
        r@ == spec_base_colors_2699(),
{
    let table: Vec<(u8, Rgba)> = vec![
        (1u8, Rgba { r: 127, g: 178, b: 56, a: 255 }),
        (2u8, Rgba { r: 247, g: 233, b: 163, a: 255 }),
        (3u8, Rgba { r: 199, g: 199, b: 199, a: 255 }),
        (4u8, Rgba { r: 255, g: 0, b: 0, a: 255 }),
        (5u8, Rgba { r: 160, g: 160, b: 255, a: 255 }),
        (6u8, Rgba { r: 167, g: 167, b: 167, a: 255 }),
        (7u8, Rgba { r: 0, g: 124, b: 0, a: 255 }),
        (8u8, Rgba { r: 255, g: 255, b: 255, a: 255 }),
        (9u8, Rgba { r: 164, g: 168, b: 184, a: 255 }),
        (10u8, Rgba { r: 151, g: 109, b: 77, a: 255 }),
        (11u8, Rgba { r: 112, g: 112, b: 112, a: 255 }),
        (12u8, Rgba { r: 64, g: 64, b: 255, a: 255 }),
        (13u8, Rgba { r: 143, g: 119, b: 72, a: 255 }),
        (14u8, Rgba { r: 255, g: 252, b: 245, a: 255 }),
        (15u8, Rgba { r: 216, g: 127, b: 51, a: 255 }),
        (16u8, Rgba { r: 178, g: 76, b: 216, a: 255 }),
        (17u8, Rgba { r: 102, g: 153, b: 216, a: 255 }),
        (18u8, Rgba { r: 229, g: 229, b: 51, a: 255 }),
        (19u8, Rgba { r: 127, g: 204, b: 25, a: 255 }),
        (20u8, Rgba { r: 242, g: 127, b: 165, a: 255 }),
        (21u8, Rgba { r: 76, g: 76, b: 76, a: 255 }),
        (22u8, Rgba { r: 153, g: 153, b: 153, a: 255 }),
        (23u8, Rgba { r: 76, g: 127, b: 153, a: 255 }),
        (24u8, Rgba { r: 127, g: 63, b: 178, a: 255 }),
        (25u8, Rgba { r: 51, g: 76, b: 178, a: 255 }),
        (26u8, Rgba { r: 102, g: 76, b: 51, a: 255 }),
        (27u8, Rgba { r: 102, g: 127, b: 51, a: 255 }),
        (28u8, Rgba { r: 153, g: 51, b: 51, a: 255 }),
        (29u8, Rgba { r: 25, g: 25, b: 25, a: 255 }),
        (30u8, Rgba { r: 250, g: 238, b: 77, a: 255 }),
        (31u8, Rgba { r: 92, g: 219, b: 213, a: 255 }),
        (32u8, Rgba { r: 74, g: 128, b: 255, a: 255 }),
        (33u8, Rgba { r: 0, g: 217, b: 58, a: 255 }),
        (34u8, Rgba { r: 129, g: 86, b: 49, a: 255 }),
        (35u8, Rgba { r: 112, g: 2, b: 0, a: 255 }),
        (36u8, Rgba { r: 209, g: 177, b: 161, a: 255 }),
        (37u8, Rgba { r: 159, g: 82, b: 36, a: 255 }),
        (38u8, Rgba { r: 149, g: 87, b: 108, a: 255 }),
        (39u8, Rgba { r: 112, g: 108, b: 138, a: 255 }),
        (40u8, Rgba { r: 186, g: 133, b: 36, a: 255 }),
        (41u8, Rgba { r: 103, g: 117, b: 53, a: 255 }),
        (42u8, Rgba { r: 160, g: 77, b: 78, a: 255 }),
        (43u8, Rgba { r: 57, g: 41, b: 35, a: 255 }),
        (44u8, Rgba { r: 135, g: 107, b: 98, a: 255 }),
        (45u8, Rgba { r: 87, g: 92, b: 92, a: 255 }),
        (46u8, Rgba { r: 122, g: 73, b: 88, a: 255 }),
        (47u8, Rgba { r: 76, g: 62, b: 92, a: 255 }),
        (48u8, Rgba { r: 76, g: 50, b: 35, a: 255 }),
        (49u8, Rgba { r: 76, g: 82, b: 42, a: 255 }),
        (50u8, Rgba { r: 142, g: 60, b: 46, a: 255 }),
        (51u8, Rgba { r: 37, g: 22, b: 16, a: 255 }),
        (52u8, Rgba { r: 189, g: 48, b: 49, a: 255 }),
        (53u8, Rgba { r: 148, g: 63, b: 97, a: 255 }),
        (54u8, Rgba { r: 92, g: 25, b: 29, a: 255 }),
        (55u8, Rgba { r: 22, g: 126, b: 134, a: 255 }),
        (56u8, Rgba { r: 58, g: 142, b: 140, a: 255 }),
        (57u8, Rgba { r: 86, g: 44, b: 62, a: 255 }),
        (58u8, Rgba { r: 20, g: 180, b: 133, a: 255 }),
        (59u8, Rgba { r: 100, g: 100, b: 100, a: 255 }),
        (60u8, Rgba { r: 216, g: 175, b: 147, a: 255 }),
        (61u8, Rgba { r: 127, g: 167, b: 150, a: 255 }),
    ];
    proof {
        assert(table@ =~= spec_base_colors_2699());
    }
    table
}

/// Shading is monotone in the multiplier: because the per-slot multipliers
/// order as `135 < 180 < 220 < 255`, the darker-alt slot `3` never exceeds
/// slot `0`, which never exceeds slot `1`, which never exceeds slot `2`, in
/// each of the red, green and blue channels; alpha is the same in all four.
pub proof fn lemma_shade_channel_monotone(c: int, m1: int, m2: int)
    requires
        0 <= c <= 255,
        0 <= m1 <= m2,
    ensures
        spec_shade_channel(c, m1) <= spec_shade_channel(c, m2),
{
    lemma_mul_inequality(m1, m2, c);
    assert(c * m1 == m1 * c) by (nonlinear_arith);
    assert(c * m2 == m2 * c) by (nonlinear_arith);
    lemma_div_is_ordered(c * m1, c * m2, 255);
}

/// The shade-order law for a whole mapped base color: channels fall
/// monotonically along the multiplier ordering `135 < 180 < 220 < 255`,
/// and the alpha channel is copied verbatim into every slot.
pub proof fn lemma_palette_shade_order(c: Rgba)
    ensures
        spec_shade(Some(c), 3).r <= spec_shade(Some(c), 0).r <= spec_shade(Some(c), 1).r
            <= spec_shade(Some(c), 2).r,
        spec_shade(Some(c), 3).g <= spec_shade(Some(c), 0).g <= spec_shade(Some(c), 1).g
            <= spec_shade(Some(c), 2).g,
        spec_shade(Some(c), 3).b <= spec_shade(Some(c), 0).b <= spec_shade(Some(c), 1).b
            <= spec_shade(Some(c), 2).b,
        forall|j: int| 0 <= j < 4 ==> spec_shade(Some(c), j).a == c.a,
        spec_shade(Some(c), 2).r == c.r && spec_shade(Some(c), 2).g == c.g && spec_shade(
            Some(c),
            2,
        ).b == c.b,
{
    let channels = seq![c.r as int, c.g as int, c.b as int];
    assert forall|k: int| 0 <= k < 3 implies {
        &&& spec_shade_channel(channels[k], 135) <= spec_shade_channel(channels[k], 180)
        &&& spec_shade_channel(channels[k], 180) <= spec_shade_channel(channels[k], 220)
        &&& spec_shade_channel(channels[k], 220) <= spec_shade_channel(channels[k], 255)
        &&& spec_shade_channel(channels[k], 255) == channels[k]
    } by {
        lemma_shade_channel_monotone(channels[k], 135, 180);
        lemma_shade_channel_monotone(channels[k], 180, 220);
        lemma_shade_channel_monotone(channels[k], 220, 255);
        lemma_shade_channel_bound(channels[k], 255);
    }
    assert(channels[0] == c.r as int);
    assert(channels[1] == c.g as int);
    assert(channels[2] == c.b as int);
}

} // verus!
