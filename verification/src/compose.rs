//! The draw compositor: from the trail field to a colour image.
//!
//! Every pixel is written anew from the cell under it and from nothing else,
//! so the image never carries anything over from an earlier frame.

use vstd::prelude::*;
use crate::field::TrailField;

verus! {

/// One pixel: red, green, blue and opacity.
#[derive(Clone, Copy, Debug, PartialEq, Eq, Structural)]
pub struct Color {
    /// Red.
    pub r: u8,
    /// Green.
    pub g: u8,
    /// Blue.
    pub b: u8,
    /// Opacity.
    pub a: u8,
}

/// The brightness of a value: linear from black at zero to white at the ceiling.
pub open spec fn spec_tone(v: int, ceiling: int) -> int {
    (v * 255) / ceiling
}

/// The colour of a value: an opaque grey of its brightness.
pub open spec fn spec_color(v: u32, ceiling: u32) -> Color {
    let t = spec_tone(v as int, ceiling as int) as u8;
    Color { r: t, g: t, b: t, a: 255 }
}

/// The image of a grid: the colour of every cell, in the order of the cells.
pub open spec fn spec_compose(cells: Seq<u32>, ceiling: u32) -> Seq<Color> {
    Seq::new(cells.len(), |i: int| spec_color(cells[i], ceiling))
}

/// Brightness never falls as the value rises; zero is black and the ceiling white.
pub proof fn lemma_tone_monotone(a: int, b: int, ceiling: int)
    by (nonlinear_arith)
    requires
        0 <= a <= b <= ceiling,
        0 < ceiling,
    ensures
        0 <= spec_tone(a, ceiling) <= spec_tone(b, ceiling) <= 255,
        spec_tone(0, ceiling) == 0,
        spec_tone(ceiling, ceiling) == 255,
{
    assert(a * 255 <= b * 255 <= ceiling * 255);
    assert((ceiling * 255) / ceiling == 255);
}

/// The brightness of a value.
pub fn tone(v: u32, ceiling: u32) -> (t: u8)
    requires
        v <= ceiling,
        0 < ceiling,
    ensures
        t == spec_tone(v as int, ceiling as int),
{
    proof {
        lemma_tone_monotone(v as int, v as int, ceiling as int);
    }
    let scaled: u64 = (v as u64) * 255;
    (scaled / (ceiling as u64)) as u8
}

/// The colour of a value.
pub fn color_of(v: u32, ceiling: u32) -> (c: Color)
    requires
        v <= ceiling,
        0 < ceiling,
    ensures
        c == spec_color(v, ceiling),
{
    let t: u8 = tone(v, ceiling);
    Color { r: t, g: t, b: t, a: 255 }
}

/// Writes the image of the field into `image`, over whatever it held.
pub fn compose(field: &TrailField, image: &mut Vec<Color>)
    requires
        field.wf(),
    ensures
        final(image)@ == spec_compose(field@, field.spec_ceiling()),
{
    proof {
        field.lemma_wf();
    }
    let w: usize = field.width();
    let h: usize = field.height();
    let ceiling: u32 = field.ceiling();
    image.clear();
    let mut y: usize = 0;
    while y < h
        invariant
            field.wf(),
            w == field.spec_width(),
            h == field.spec_height(),
            ceiling == field.spec_ceiling(),
            ceiling >= 1,
            field@.len() == w * h,
            y <= h,
            image@.len() == y * w,
            forall|i: int|
                0 <= i < image@.len() ==> #[trigger] image@[i] == spec_color(field@[i], ceiling),
        decreases h - y,
    {
        let mut x: usize = 0;
        while x < w
            invariant
                field.wf(),
                w == field.spec_width(),
                h == field.spec_height(),
                ceiling == field.spec_ceiling(),
                ceiling >= 1,
                field@.len() == w * h,
                y < h,
                x <= w,
                image@.len() == y * w + x,
                forall|i: int|
                    0 <= i < image@.len() ==> #[trigger] image@[i] == spec_color(
                        field@[i],
                        ceiling,
                    ),
            decreases w - x,
        {
            let v: u32 = field.get(x, y);
            image.push(color_of(v, ceiling));
            x = x + 1;
        }
        proof {
            assert((y + 1) * w == y * w + w) by (nonlinear_arith);
        }
        y = y + 1;
    }
    proof {
        assert(image@.len() == field@.len()) by (nonlinear_arith)
            requires
                image@.len() == y * w,
                field@.len() == w * h,
                y == h,
        ;
        assert(image@ =~= spec_compose(field@, field.spec_ceiling()));
    }
}

} // verus!
