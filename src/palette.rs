//! The colour table used to tell regions apart on a chart.
use vstd::prelude::*;

verus! {

/// Number of distinct colours in the table; indices wrap around it.
pub const PALETTE_SIZE: usize = 21;

/// The fixed, high-contrast colour table shared by every chart panel.
pub struct GraphPalette;

/// The colour table, as `(red, green, blue)` triples.
pub open spec fn palette_colors() -> Seq<(u8, u8, u8)> {
    seq![
        (230u8, 25u8, 75u8),
        (60u8, 180u8, 75u8),
        (255u8, 225u8, 25u8),
        (0u8, 130u8, 200u8),
        (245u8, 130u8, 48u8),
        (145u8, 30u8, 180u8),
        (70u8, 240u8, 240u8),
        (240u8, 50u8, 230u8),
        (210u8, 245u8, 60u8),
        (250u8, 190u8, 190u8),
        (0u8, 128u8, 128u8),
        (230u8, 190u8, 255u8),
        (170u8, 110u8, 40u8),
        (155u8, 250u8, 200u8),
        (128u8, 0u8, 0u8),
        (170u8, 255u8, 195u8),
        (128u8, 128u8, 0u8),
        (255u8, 215u8, 180u8),
        (0u8, 0u8, 128u8),
        (128u8, 128u8, 128u8),
        (0u8, 0u8, 0u8),
    ]
}

impl GraphPalette {
    /// The colour for the region drawn at position `index`: the table is
    /// reused cyclically once every colour has been handed out.
    pub fn pick(index: usize) -> (r: (u8, u8, u8))
        ensures
            r == palette_colors()[(index % PALETTE_SIZE) as int],
    {
        let i = index % PALETTE_SIZE;
        if i == 0 {
            (230, 25, 75)
        } else if i == 1 {
            (60, 180, 75)
        } else if i == 2 {
            (255, 225, 25)
        } else if i == 3 {
            (0, 130, 200)
        } else if i == 4 {
            (245, 130, 48)
        } else if i == 5 {
            (145, 30, 180)
        } else if i == 6 {
            (70, 240, 240)
        } else if i == 7 {
            (240, 50, 230)
        } else if i == 8 {
            (210, 245, 60)
        } else if i == 9 {
            (250, 190, 190)
        } else if i == 10 {
            (0, 128, 128)
        } else if i == 11 {
            (230, 190, 255)
        } else if i == 12 {
            (170, 110, 40)
        } else if i == 13 {
            (155, 250, 200)
        } else if i == 14 {
            (128, 0, 0)
        } else if i == 15 {
            (170, 255, 195)
        } else if i == 16 {
            (128, 128, 0)
        } else if i == 17 {
            (255, 215, 180)
        } else if i == 18 {
            (0, 0, 128)
        } else if i == 19 {
            (128, 128, 128)
        } else {
            (0, 0, 0)
        }
    }
}

} // verus!
