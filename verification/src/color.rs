use vstd::prelude::*;

verus! {

/// An exact triple of 8-bit channels; equality is by exact triple value.
#[derive(Clone, Copy, Debug, PartialEq, Eq, Structural)]
pub struct Color {
    pub r: u8,
    pub g: u8,
    pub b: u8,
}

/// Squared Euclidean distance between two colors in RGB space.
pub open spec fn dist2(a: Color, b: Color) -> int {
    (a.r - b.r) * (a.r - b.r) + (a.g - b.g) * (a.g - b.g) + (a.b - b.b) * (a.b - b.b)
}

/// A squared distance is never negative.
pub proof fn lemma_dist2_nonneg(a: Color, b: Color)
    ensures
        dist2(a, b) >= 0,
{
    let rd = a.r - b.r;
    let gd = a.g - b.g;
    let bd = a.b - b.b;
    assert(rd * rd >= 0 && gd * gd >= 0 && bd * bd >= 0) by (nonlinear_arith);
}

/// Distance zero holds exactly between a color and itself.
pub proof fn lemma_dist2_zero(a: Color, b: Color)
    ensures
        dist2(a, b) == 0 <==> a == b,
{
    let rd = a.r - b.r;
    let gd = a.g - b.g;
    let bd = a.b - b.b;
    assert(rd * rd >= 0 && gd * gd >= 0 && bd * bd >= 0) by (nonlinear_arith);
    if dist2(a, b) == 0 {
        assert(rd * rd == 0 && gd * gd == 0 && bd * bd == 0);
        assert(rd == 0 && gd == 0 && bd == 0) by (nonlinear_arith)
            requires
                rd * rd == 0 && gd * gd == 0 && bd * bd == 0,
        ;
    }
    if a == b {
        assert(rd == 0 && gd == 0 && bd == 0);
        assert(rd * rd == 0 && gd * gd == 0 && bd * bd == 0) by (nonlinear_arith)
            requires
                rd == 0 && gd == 0 && bd == 0,
        ;
    }
}

/// Computes `dist2`; differences are at most 255 in magnitude, so the sum of
/// the three squares is at most 195075 and fits an `i32`.
pub fn dist2_exec(a: Color, b: Color) -> (d: i32)
    ensures
        d == dist2(a, b),
{
    let rd: i32 = a.r as i32 - b.r as i32;
    let gd: i32 = a.g as i32 - b.g as i32;
    let bd: i32 = a.b as i32 - b.b as i32;
    assert(0 <= rd * rd <= 65025 && 0 <= gd * gd <= 65025 && 0 <= bd * bd <= 65025)
        by (nonlinear_arith)
        requires
            -255 <= rd <= 255 && -255 <= gd <= 255 && -255 <= bd <= 255,
    ;
    rd * rd + gd * gd + bd * bd
}

} // verus!
