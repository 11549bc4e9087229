//! The built-in 32x32 tray icon: a green play triangle on a dark disc with a
//! green rim, on a transparent background.
//!
//! Pixel geometry is computed in half-pixel units (pixel `x` has its centre
//! at `2x + 1`), which makes every distance and edge test exact.
use vstd::prelude::*;

verus! {

/// Twice the signed area of `(a, b, p)` in half-pixel units.
pub open spec fn cross2(px: int, py: int, ax: int, ay: int, bx: int, by: int) -> int {
    (bx - ax) * (py - ay) - (by - ay) * (px - ax)
}

/// The point lies in (or on) the play triangle with corners (9, 13), (9, 25)
/// and (24, 19).
pub open spec fn in_play_triangle(px: int, py: int) -> bool {
    let d1 = cross2(px, py, 18, 26, 18, 50);
    let d2 = cross2(px, py, 18, 50, 48, 38);
    let d3 = cross2(px, py, 48, 38, 18, 26);
    let neg = d1 < 0 || d2 < 0 || d3 < 0;
    let pos = d1 > 0 || d2 > 0 || d3 > 0;
    !(neg && pos)
}

/// Squared distance (in half-pixel units) of the centre of pixel `(x, y)` from
/// the icon centre.
pub open spec fn dist2(x: int, y: int) -> int {
    (2 * x + 1 - 32) * (2 * x + 1 - 32) + (2 * y + 1 - 32) * (2 * y + 1 - 32)
}

/// The RGBA color of pixel `(x, y)`.
pub open spec fn icon_pixel(x: int, y: int) -> (u8, u8, u8, u8) {
    let d = dist2(x, y);
    if in_play_triangle(2 * x + 1, 2 * y + 1) && d <= 841 {
        (0, 255, 0, 255)
    } else if d <= 900 {
        (42, 42, 42, 255)
    } else if d <= 1089 {
        (0, 170, 0, 255)
    } else {
        (0, 0, 0, 0)
    }
}

/// Byte `i` of the icon's RGBA data (row by row, four bytes per pixel).
pub open spec fn icon_byte(i: int) -> u8 {
    let p = i / 4;
    let c = icon_pixel(p % 32, p / 32);
    let k = i % 4;
    if k == 0 {
        c.0
    } else if k == 1 {
        c.1
    } else if k == 2 {
        c.2
    } else {
        c.3
    }
}

fn pixel(x: i64, y: i64) -> (r: (u8, u8, u8, u8))
    requires
        0 <= x < 32,
        0 <= y < 32,
    ensures
        r == icon_pixel(x as int, y as int),
{
    let px = 2 * x + 1;
    let py = 2 * y + 1;
    let d1 = (18 - 18) * (py - 26) - (50 - 26) * (px - 18);
    let d2 = (48 - 18) * (py - 50) - (38 - 50) * (px - 18);
    let d3 = (18 - 48) * (py - 38) - (26 - 38) * (px - 48);
    let neg = d1 < 0 || d2 < 0 || d3 < 0;
    let pos = d1 > 0 || d2 > 0 || d3 > 0;
    let dx = px - 32;
    let dy = py - 32;
    assert(0 <= dx * dx <= 961) by (nonlinear_arith)
        requires
            -31 <= dx <= 31,
    ;
    assert(0 <= dy * dy <= 961) by (nonlinear_arith)
        requires
            -31 <= dy <= 31,
    ;
    let d = dx * dx + dy * dy;
    if !(neg && pos) && d <= 841 {
        (0, 255, 0, 255)
    } else if d <= 900 {
        (42, 42, 42, 255)
    } else if d <= 1089 {
        (0, 170, 0, 255)
    } else {
        (0, 0, 0, 0)
    }
}

/// The icon as 32x32 RGBA bytes.
pub fn build_icon_fallback_rgba() -> (r: Vec<u8>)
    ensures
        r.len() == 32 * 32 * 4,
        forall|i: int| 0 <= i < 32 * 32 * 4 ==> r@[i] == icon_byte(i),
{
    let mut r: Vec<u8> = Vec::new();
    let mut p: i64 = 0;
    while p < 1024
        invariant
            0 <= p <= 1024,
            r.len() == 4 * p,
            forall|i: int| 0 <= i < r.len() ==> r@[i] == icon_byte(i),
        decreases 1024 - p,
    {
        let c = pixel(p % 32, p / 32);
        let ghost base = r.len() as int;
        r.push(c.0);
        r.push(c.1);
        r.push(c.2);
        r.push(c.3);
        assert forall|i: int| 0 <= i < r.len() implies r@[i] == icon_byte(i) by {
            if i >= base {
                assert(i / 4 == p);
                assert(i % 4 == i - base);
            }
        }
        p += 1;
    }
    r
}

} // verus!
