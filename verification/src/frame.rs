//! Per-frame layout decisions: how many compute workgroups each pass
//! dispatches, and where each of the three scene lights comes from.

use vstd::prelude::*;

verus! {

/// `n / d` rounded up.
pub open spec fn ceil_div(n: int, d: int) -> int
    recommends
        d > 0,
{
    (n + d - 1) / d
}

fn div_ceil_u32(n: u32, d: u32) -> (r: u32)
    requires
        d > 0,
    ensures
        r == ceil_div(n as int, d as int),
{
    let q = n / d;
    proof {
        let ni = n as int;
        let di = d as int;
        vstd::arithmetic::div_mod::lemma_fundamental_div_mod(ni, di);
        let qi = ni / di;
        let ri = ni % di;
        assert(qi * di == di * qi && (qi + 1) * di == di * qi + di) by (nonlinear_arith);
        if ri == 0 {
            vstd::arithmetic::div_mod::lemma_fundamental_div_mod_converse(ni + di - 1, di, qi, di - 1);
        } else {
            vstd::arithmetic::div_mod::lemma_fundamental_div_mod_converse(ni + di - 1, di, qi + 1, ri - 1);
            assert(qi < u32::MAX) by (nonlinear_arith)
                requires
                    ni == di * qi + ri,
                    0 < ri < di,
                    ni <= u32::MAX,
                    qi >= 0,
            {
            }
        }
    }
    if n % d == 0 {
        q
    } else {
        q + 1
    }
}

/// Workgroup counts of the compute passes of one frame.
pub struct DispatchGrid {
    /// Refraction pass: 2-D tiles over the frame.
    pub refract: (u32, u32),
    /// Horizontal blur: row segments of one workgroup width, every row.
    pub blur_horizontal: (u32, u32),
    /// Vertical blur: column segments of one workgroup height, every column.
    pub blur_vertical: (u32, u32),
}

/// Workgroup counts that cover a `size` frame with the given workgroup
/// sizes (refraction `refract_wg`, horizontal blur width `blur_w`, vertical
/// blur height `blur_h`).
pub fn dispatch_grid(size: (u32, u32), refract_wg: (u32, u32), blur_w: u32, blur_h: u32) -> (g:
    DispatchGrid)
    requires
        refract_wg.0 > 0,
        refract_wg.1 > 0,
        blur_w > 0,
        blur_h > 0,
    ensures
        g.refract == (
            ceil_div(size.0 as int, refract_wg.0 as int) as u32,
            ceil_div(size.1 as int, refract_wg.1 as int) as u32,
        ),
        g.blur_horizontal == (ceil_div(size.0 as int, blur_w as int) as u32, size.1),
        g.blur_vertical == (size.0, ceil_div(size.1 as int, blur_h as int) as u32),
{
    DispatchGrid {
        refract: (div_ceil_u32(size.0, refract_wg.0), div_ceil_u32(size.1, refract_wg.1)),
        blur_horizontal: (div_ceil_u32(size.0, blur_w), size.1),
        blur_vertical: (size.0, div_ceil_u32(size.1, blur_h)),
    }
}

/// Law: the workgroups cover the frame and no whole workgroup lies beyond
/// it: `count * group >= n` and `(count - 1) * group < n`.
pub proof fn lemma_ceil_div_covers(n: int, d: int)
    requires
        n >= 0,
        d > 0,
    ensures
        ceil_div(n, d) * d >= n,
        (ceil_div(n, d) - 1) * d < n,
{
    let q = ceil_div(n, d);
    vstd::arithmetic::div_mod::lemma_fundamental_div_mod(n + d - 1, d);
    assert(q * d >= n && (q - 1) * d < n) by (nonlinear_arith)
        requires
            n + d - 1 == d * q + (n + d - 1) % d,
            0 <= (n + d - 1) % d < d,
            d > 0,
    {
    }
}

/// Where one of the three scene lights comes from.
#[derive(PartialEq, Eq, Structural, Debug, Clone, Copy)]
pub enum LightSlot {
    /// The configured light of this index.
    Configured(usize),
    /// The fallback light of this slot.
    Fallback(usize),
}

/// Slot `i` takes the `i`-th configured light while there is one, the
/// fallback light otherwise (configured lights past the third are ignored).
pub open spec fn light_slot(i: int, configured: int) -> LightSlot {
    if i < configured {
        LightSlot::Configured(i as usize)
    } else {
        LightSlot::Fallback(i as usize)
    }
}

/// The sources of the three scene lights, given how many lights the
/// configuration lists.
pub fn light_slots(configured: usize) -> (r: Vec<LightSlot>)
    ensures
        r@.len() == 3,
        forall|i: int| 0 <= i < 3 ==> #[trigger] r@[i] == light_slot(i, configured as int),
        forall|i: int| 0 <= i < 3 && i < configured ==> #[trigger] r@[i] == LightSlot::Configured(
            i as usize,
        ),
        forall|i: int| 0 <= i < 3 && i >= configured ==> #[trigger] r@[i] == LightSlot::Fallback(
            i as usize,
        ),
{
    let mut r: Vec<LightSlot> = Vec::new();
    let mut i: usize = 0;
    while i < 3
        invariant
            i <= 3,
            r@.len() == i,
            forall|j: int| 0 <= j < i ==> #[trigger] r@[j] == light_slot(j, configured as int),
        decreases 3 - i,
    {
        if i < configured {
            r.push(LightSlot::Configured(i));
        } else {
            r.push(LightSlot::Fallback(i));
        }
        i = i + 1;
    }
    r
}

} // verus!
