use vstd::prelude::*;

use crate::error::ApplicationError;

verus! {

/// Largest number of pixels a preview render may cover.
pub const MAX_RENDER_PIXELS: usize = 2000000;

/// `r` is the integer square root of `x`: the largest whole number whose square is at most `x`.
pub open spec fn is_floor_sqrt(r: int, x: int) -> bool {
    0 <= r && r * r <= x && x < (r + 1) * (r + 1)
}

/// Side length after uniform downscaling: `floor(side * sqrt(budget / (side * other)))`,
/// which equals the integer square root of `side * budget / other`, at least 1.
pub open spec fn scaled_side(side: int, other: int, r: int) -> bool {
    let q = side * MAX_RENDER_PIXELS as int / other;
    &&& r >= 1
    &&& q < (r + 1) * (r + 1)
    &&& (r * r <= q || r == 1)
}

/// Integer square root by bisection, for values below 2^86.
fn floor_sqrt(x: u128) -> (r: u128)
    requires
        x < 0x40_0000_0000_0000_0000_0000,
    ensures
        is_floor_sqrt(r as int, x as int),
        r < 0x800_0000_0000,
{
    let mut lo: u128 = 0;
    let mut hi: u128 = 0x800_0000_0000;
    assert(hi * hi == 0x40_0000_0000_0000_0000_0000) by (nonlinear_arith)
        requires
            hi == 0x800_0000_0000,
    ;
    while hi - lo > 1
        invariant
            lo < hi,
            hi <= 0x800_0000_0000,
            hi * hi <= 0x40_0000_0000_0000_0000_0000,
            lo * lo <= x,
            x < hi * hi,
        decreases hi - lo,
    {
        let mid = lo + (hi - lo) / 2;
        assert(mid * mid <= hi * hi) by (nonlinear_arith)
            requires
                0 <= mid <= hi,
        ;
        if mid * mid <= x {
            lo = mid;
        } else {
            hi = mid;
        }
    }
    assert(hi == lo + 1);
    lo
}

/// Caps a requested render size to the pixel budget, keeping the aspect ratio.
///
/// Returns `(width, height, pixel_count)`. A request within the budget comes back unchanged;
/// a larger one is scaled by one factor on both sides (floored, at least 1 each), and the
/// reported pixel count never exceeds the budget. An overflowing `width * height` is rejected.
pub fn render_target(width: usize, height: usize) -> (r: Result<(usize, usize, usize), ApplicationError>)
    ensures
        r is Err <==> width * height > usize::MAX,
        r is Err ==> r->Err_0.is_invalid_input(),
        width * height <= MAX_RENDER_PIXELS ==> r == Ok::<(usize, usize, usize), ApplicationError>(
            (width, height, (width * height) as usize),
        ),
        MAX_RENDER_PIXELS < width * height <= usize::MAX ==> r is Ok && {
            let (w, h, n) = r->Ok_0;
            &&& scaled_side(width as int, height as int, w as int)
            &&& scaled_side(height as int, width as int, h as int)
            &&& n == if w * h <= MAX_RENDER_PIXELS {
                w * h
            } else {
                MAX_RENDER_PIXELS as int
            }
            &&& w <= width && h <= height
        },
{
    let requested = match width.checked_mul(height) {
        Some(n) => n,
        None => {
            return Err(ApplicationError::InvalidInput(String::from_str("preview dimensions overflow")));
        },
    };
    if requested <= MAX_RENDER_PIXELS {
        return Ok((width, height, requested));
    }
    let budget: u128 = MAX_RENDER_PIXELS as u128;
    let w128: u128 = width as u128;
    let h128: u128 = height as u128;
    assert(w128 * budget <= 0xFFFF_FFFF_FFFF_FFFF * 2000000) by (nonlinear_arith)
        requires
            w128 <= 0xFFFF_FFFF_FFFF_FFFF,
            budget == 2000000,
    ;
    assert(h128 * budget <= 0xFFFF_FFFF_FFFF_FFFF * 2000000) by (nonlinear_arith)
        requires
            h128 <= 0xFFFF_FFFF_FFFF_FFFF,
            budget == 2000000,
    ;
    assert(width > 0 && height > 0) by (nonlinear_arith)
        requires
            requested == width * height,
            requested > 2000000,
    ;
    let qw = w128 * budget / h128;
    let qh = h128 * budget / w128;
    proof {
        vstd::arithmetic::div_mod::lemma_div_is_ordered(
            (w128 * budget) as int,
            (w128 * budget) as int,
            h128 as int,
        );
    }
    let sw = floor_sqrt(qw);
    let sh = floor_sqrt(qh);
    let rw128: u128 = if sw < 1 { 1 } else { sw };
    let rh128: u128 = if sh < 1 { 1 } else { sh };
    proof {
        // The scaled sides never exceed the requested ones.
        assert(budget < w128 * h128);
        assert(sw <= w128) by {
            if sw > w128 {
                assert(sw * sw >= (w128 + 1) * (w128 + 1)) by (nonlinear_arith)
                    requires
                        sw > w128,
                ;
                assert(w128 * budget < w128 * w128 * h128) by (nonlinear_arith)
                    requires
                        budget < w128 * h128,
                        w128 > 0,
                ;
                vstd::arithmetic::div_mod::lemma_multiply_divide_lt(
                    (w128 * budget) as int,
                    h128 as int,
                    (w128 * w128) as int,
                );
                assert((w128 + 1) * (w128 + 1) > w128 * w128) by (nonlinear_arith);
            }
        }
        assert(sh <= h128) by {
            if sh > h128 {
                assert(sh * sh >= (h128 + 1) * (h128 + 1)) by (nonlinear_arith)
                    requires
                        sh > h128,
                ;
                assert(h128 * budget < h128 * h128 * w128) by (nonlinear_arith)
                    requires
                        budget < w128 * h128,
                        h128 > 0,
                ;
                vstd::arithmetic::div_mod::lemma_multiply_divide_lt(
                    (h128 * budget) as int,
                    w128 as int,
                    (h128 * h128) as int,
                );
                assert((h128 + 1) * (h128 + 1) > h128 * h128) by (nonlinear_arith);
            }
        }
        assert(rw128 * rh128 <= w128 * h128) by (nonlinear_arith)
            requires
                rw128 <= w128,
                rh128 <= h128,
        ;
        assert(scaled_side(width as int, height as int, rw128 as int));
        assert(scaled_side(height as int, width as int, rh128 as int));
    }
    let render_width = rw128 as usize;
    let render_height = rh128 as usize;
    let pixels = render_width * render_height;
    let count = if pixels <= MAX_RENDER_PIXELS { pixels } else { MAX_RENDER_PIXELS };
    Ok((render_width, render_height, count))
}

/// When both floored sides are at least 1, the scaled size fits the pixel budget.
pub proof fn lemma_scaled_fits_budget(width: int, height: int, w: int, h: int)
    requires
        width > 0,
        height > 0,
        scaled_side(width, height, w),
        scaled_side(height, width, h),
        width * MAX_RENDER_PIXELS as int / height >= 1,
        height * MAX_RENDER_PIXELS as int / width >= 1,
    ensures
        w * h <= MAX_RENDER_PIXELS,
{
    let b = MAX_RENDER_PIXELS as int;
    let qw = width * b / height;
    let qh = height * b / width;
    assert(w * w <= qw) by {
        if w == 1 {
            assert(w * w == 1) by (nonlinear_arith)
                requires
                    w == 1,
            ;
        }
    }
    assert(h * h <= qh) by {
        if h == 1 {
            assert(h * h == 1) by (nonlinear_arith)
                requires
                    h == 1,
            ;
        }
    }
    vstd::arithmetic::div_mod::lemma_fundamental_div_mod(width * b, height);
    vstd::arithmetic::div_mod::lemma_fundamental_div_mod(height * b, width);
    assert(height * qw <= width * b) by (nonlinear_arith)
        requires
            width * b == height * qw + (width * b) % height,
            0 <= (width * b) % height,
    ;
    assert(width * qh <= height * b) by (nonlinear_arith)
        requires
            height * b == width * qh + (height * b) % width,
            0 <= (height * b) % width,
    ;
    let aw = w * w * height;
    let ah = h * h * width;
    assert(aw <= width * b) by (nonlinear_arith)
        requires
            w * w <= qw,
            height * qw <= width * b,
            height > 0,
            aw == w * w * height,
    ;
    assert(ah <= height * b) by (nonlinear_arith)
        requires
            h * h <= qh,
            width * qh <= height * b,
            width > 0,
            ah == h * h * width,
    ;
    assert(aw * ah <= (width * b) * (height * b)) by (nonlinear_arith)
        requires
            0 <= aw <= width * b,
            0 <= ah <= height * b,
    ;
    assert(aw * ah == w * h * (w * h) * (width * height)) by (nonlinear_arith)
        requires
            aw == w * w * height,
            ah == h * h * width,
    ;
    assert((width * b) * (height * b) == b * b * (width * height)) by (nonlinear_arith);
    assert(width * height > 0) by (nonlinear_arith)
        requires
            width > 0,
            height > 0,
    ;
    assert(w * h * (w * h) <= b * b) by (nonlinear_arith)
        requires
            w * h * (w * h) * (width * height) <= b * b * (width * height),
            width * height > 0,
    ;
    assert(w * h <= b) by (nonlinear_arith)
        requires
            w * h * (w * h) <= b * b,
            b > 0,
            w >= 1,
            h >= 1,
    ;
}

/// Downscaling keeps the aspect ratio to within one pixel on either side:
/// `w / (h + 1) < width / height < (w + 1) / h`, whenever both floored sides are at least 1.
pub proof fn lemma_scaled_keeps_aspect(width: int, height: int, w: int, h: int)
    requires
        width > 0,
        height > 0,
        scaled_side(width, height, w),
        scaled_side(height, width, h),
        width * MAX_RENDER_PIXELS as int / height >= 1,
        height * MAX_RENDER_PIXELS as int / width >= 1,
    ensures
        w * height < (h + 1) * width,
        h * width < (w + 1) * height,
{
    let b = MAX_RENDER_PIXELS as int;
    let qw = width * b / height;
    let qh = height * b / width;
    assert(w * w <= qw) by {
        if w == 1 {
            assert(w * w == 1) by (nonlinear_arith)
                requires
                    w == 1,
            ;
        }
    }
    assert(h * h <= qh) by {
        if h == 1 {
            assert(h * h == 1) by (nonlinear_arith)
                requires
                    h == 1,
            ;
        }
    }
    vstd::arithmetic::div_mod::lemma_fundamental_div_mod(width * b, height);
    vstd::arithmetic::div_mod::lemma_fundamental_div_mod(height * b, width);
    // w^2 * height <= width * b, and (h + 1)^2 * width > height * b.
    assert(w * w * height <= width * b) by (nonlinear_arith)
        requires
            w * w <= qw,
            width * b == height * qw + (width * b) % height,
            0 <= (width * b) % height,
            height > 0,
    ;
    assert((h + 1) * (h + 1) * width > height * b) by (nonlinear_arith)
        requires
            qh < (h + 1) * (h + 1),
            height * b == width * qh + (height * b) % width,
            (height * b) % width < width,
            width > 0,
    ;
    assert(h * h * width <= height * b) by (nonlinear_arith)
        requires
            h * h <= qh,
            height * b == width * qh + (height * b) % width,
            0 <= (height * b) % width,
            width > 0,
    ;
    assert((w + 1) * (w + 1) * height > width * b) by (nonlinear_arith)
        requires
            qw < (w + 1) * (w + 1),
            width * b == height * qw + (width * b) % height,
            (width * b) % height < height,
            height > 0,
    ;
    // Squaring both sides of each claim turns it into these products.
    assert((w * height) * (w * height) < ((h + 1) * width) * ((h + 1) * width)) by (nonlinear_arith)
        requires
            w * w * height <= width * b,
            (h + 1) * (h + 1) * width > height * b,
            width > 0,
            height > 0,
    ;
    assert((h * width) * (h * width) < ((w + 1) * height) * ((w + 1) * height)) by (nonlinear_arith)
        requires
            h * h * width <= height * b,
            (w + 1) * (w + 1) * height > width * b,
            width > 0,
            height > 0,
    ;
    assert(w * height < (h + 1) * width) by (nonlinear_arith)
        requires
            (w * height) * (w * height) < ((h + 1) * width) * ((h + 1) * width),
            w * height >= 0,
            (h + 1) * width >= 0,
    ;
    assert(h * width < (w + 1) * height) by (nonlinear_arith)
        requires
            (h * width) * (h * width) < ((w + 1) * height) * ((w + 1) * height),
            h * width >= 0,
            (w + 1) * height >= 0,
    ;
}

/// The size a renderer works at for a requested target: a zero width or height is rejected
/// as invalid input before any other work; otherwise the target is capped to the budget as
/// `render_target` does.
pub fn plan_render_size(target_width: u32, target_height: u32) -> (r: Result<(usize, usize, usize), ApplicationError>)
    ensures
        target_width == 0 || target_height == 0 ==> r is Err && r->Err_0.is_invalid_input(),
        target_width > 0 && target_height > 0 && target_width * target_height > usize::MAX ==> r is Err
            && r->Err_0.is_invalid_input(),
        target_width > 0 && target_height > 0 && target_width * target_height <= usize::MAX ==> r is Ok && ({
            let (w, h, n) = r->Ok_0;
            &&& target_width * target_height <= MAX_RENDER_PIXELS ==> w == target_width && h
                == target_height && n == target_width * target_height
            &&& target_width * target_height > MAX_RENDER_PIXELS ==> scaled_side(
                target_width as int,
                target_height as int,
                w as int,
            ) && scaled_side(target_height as int, target_width as int, h as int) && n <= MAX_RENDER_PIXELS
        }),
{
    if target_width == 0 || target_height == 0 {
        return Err(
            ApplicationError::InvalidInput(
                String::from_str("preview target dimensions must be non-zero"),
            ),
        );
    }
    render_target(target_width as usize, target_height as usize)
}

} // verus!
