//! Facts about where sprite pixels land on the wrapping screen.
use vstd::prelude::*;

use crate::model::{sprite_col_at, sprite_row_at};

verus! {

/// The pixel that sprite row `r`, column `c` lands on when the sprite's top
/// left corner is at (`xc`, `yc`).
pub open spec fn pixel_of(xc: u8, yc: u8, r: int, c: int) -> int {
    (xc + c) % 64 + 64 * ((yc + r) % 32)
}

/// Sprite row `r`, column `c` lands on a pixel of the screen, that pixel
/// shows row `r` and column `c`, and no other pixel does.
pub proof fn lemma_pixel_of(xc: u8, yc: u8, r: int, c: int)
    requires
        0 <= r < 32,
        0 <= c < 64,
    ensures
        0 <= pixel_of(xc, yc, r, c) < 2048,
        sprite_row_at(yc, pixel_of(xc, yc, r, c)) == r,
        sprite_col_at(xc, pixel_of(xc, yc, r, c)) == c,
        forall|p: int|
            0 <= p < 2048 && sprite_row_at(yc, p) == r && sprite_col_at(xc, p) == c ==> p
                == pixel_of(xc, yc, r, c),
{
    let px = (xc + c) % 64;
    let py = (yc + r) % 32;
    let idx = px + 64 * py;
    assert(idx / 64 == py);
    assert(idx % 64 == px);
    assert((py - yc) % 32 == r);
    assert((px - xc) % 64 == c);
    assert forall|p: int|
        0 <= p < 2048 && sprite_row_at(yc, p) == r && sprite_col_at(xc, p) == c implies p == idx by {
        assert(p == p % 64 + 64 * (p / 64));
        assert(p / 64 == py);
        assert(p % 64 == px);
    }
}

} // verus!
