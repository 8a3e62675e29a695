use vstd::prelude::*;

use crate::pixels::{byte_of, packed};

verus! {

pub const WINDOW_WIDTH: usize = 1120;
pub const WINDOW_HEIGHT: usize = 700;
pub const CANVAS_MARGIN: usize = 24;
pub const WORKAREA_TOP: usize = 94;
pub const WORKAREA_BOTTOM_MARGIN: usize = 28;
pub const SPLIT_GUTTER: usize = 24;
pub const CONTROL_PANEL_WIDTH: usize = 300;
pub const CONTROL_INSET: usize = 18;
pub const SLIDER_HEIGHT: usize = 54;
pub const SLIDER_GAP: usize = 14;

/// `a - b`, or 0 when `b` is larger.
pub open spec fn sat_sub(a: int, b: int) -> int {
    if a >= b {
        a - b
    } else {
        0
    }
}

/// `a + b`, or `usize::MAX` when the sum does not fit.
pub open spec fn sat_add(a: int, b: int) -> int {
    if a + b <= usize::MAX {
        a + b
    } else {
        usize::MAX as int
    }
}

/// The six tone sliders of the editor.
#[derive(Debug, Clone, Copy, PartialEq, Eq, Structural)]
pub enum SliderField {
    Exposure,
    Contrast,
    Temperature,
    Tint,
    Highlights,
    Shadows,
}

/// Parameter name of a slider, as used in persisted edits.
pub fn field_name(field: SliderField) -> (r: &'static str)
    ensures
        r@ == match field {
            SliderField::Exposure => "exposure"@,
            SliderField::Contrast => "contrast"@,
            SliderField::Temperature => "temperature"@,
            SliderField::Tint => "tint"@,
            SliderField::Highlights => "highlights"@,
            SliderField::Shadows => "shadows"@,
        },
{
    match field {
        SliderField::Exposure => "exposure",
        SliderField::Contrast => "contrast",
        SliderField::Temperature => "temperature",
        SliderField::Tint => "tint",
        SliderField::Highlights => "highlights",
        SliderField::Shadows => "shadows",
    }
}

/// Upper-case caption drawn above a slider.
pub fn slider_label(field: SliderField) -> (r: &'static str)
    ensures
        r@ == match field {
            SliderField::Exposure => "EXPOSURE"@,
            SliderField::Contrast => "CONTRAST"@,
            SliderField::Temperature => "TEMPERATURE"@,
            SliderField::Tint => "TINT"@,
            SliderField::Highlights => "HIGHLIGHTS"@,
            SliderField::Shadows => "SHADOWS"@,
        },
{
    match field {
        SliderField::Exposure => "EXPOSURE",
        SliderField::Contrast => "CONTRAST",
        SliderField::Temperature => "TEMPERATURE",
        SliderField::Tint => "TINT",
        SliderField::Highlights => "HIGHLIGHTS",
        SliderField::Shadows => "SHADOWS",
    }
}

/// One-line description of what a slider changes.
pub fn slider_effect(field: SliderField) -> (r: &'static str)
    ensures
        r@ == match field {
            SliderField::Exposure => "overall brightness"@,
            SliderField::Contrast => "light-dark separation"@,
            SliderField::Temperature => "warm to cool color balance"@,
            SliderField::Tint => "green to magenta balance"@,
            SliderField::Highlights => "bright area detail"@,
            SliderField::Shadows => "dark area detail"@,
        },
{
    match field {
        SliderField::Exposure => "overall brightness",
        SliderField::Contrast => "light-dark separation",
        SliderField::Temperature => "warm to cool color balance",
        SliderField::Tint => "green to magenta balance",
        SliderField::Highlights => "bright area detail",
        SliderField::Shadows => "dark area detail",
    }
}

/// Delays saving an edit until input has been quiet for a while.
pub struct DebouncedAutosave {
    pub debounce_ms: u64,
    pub dirty_since_ms: Option<u64>,
}

impl DebouncedAutosave {
    pub fn new(debounce_ms: u64) -> (r: DebouncedAutosave)
        ensures
            r.debounce_ms == debounce_ms,
            r.dirty_since_ms is None,
    {
        DebouncedAutosave { debounce_ms, dirty_since_ms: None }
    }

    /// Records an unsaved change at `now_ms`; the quiet period restarts.
    pub fn mark_dirty(&mut self, now_ms: u64)
        ensures
            final(self).dirty_since_ms == Some(now_ms),
            final(self).debounce_ms == old(self).debounce_ms,
    {
        self.dirty_since_ms = Some(now_ms);
    }

    /// A save is due when a change is pending and at least the debounce period has passed
    /// since it (elapsed time saturating at zero).
    pub fn should_flush(&self, now_ms: u64) -> (r: bool)
        ensures
            r == match self.dirty_since_ms {
                Some(since) => sat_sub(now_ms as int, since as int) >= self.debounce_ms,
                None => false,
            },
    {
        match self.dirty_since_ms {
            Some(since) => now_ms.saturating_sub(since) >= self.debounce_ms,
            None => false,
        }
    }

    /// Forgets the pending change.
    pub fn clear(&mut self)
        ensures
            final(self).dirty_since_ms is None,
            final(self).debounce_ms == old(self).debounce_ms,
    {
        self.dirty_since_ms = None;
    }

    pub fn is_dirty(&self) -> (r: bool)
        ensures
            r == self.dirty_since_ms is Some,
    {
        self.dirty_since_ms.is_some()
    }
}

pub fn preview_panel_left() -> (r: usize)
    ensures
        r == CANVAS_MARGIN,
{
    CANVAS_MARGIN
}

pub fn preview_panel_top() -> (r: usize)
    ensures
        r == WORKAREA_TOP,
{
    WORKAREA_TOP
}

/// Right edge of the preview panel: the control panel and its gutter sit to its right.
pub fn preview_panel_right(width: usize) -> (r: usize)
    ensures
        r == sat_sub(width as int, (CANVAS_MARGIN + CONTROL_PANEL_WIDTH + SPLIT_GUTTER) as int),
{
    width.saturating_sub(CANVAS_MARGIN + CONTROL_PANEL_WIDTH + SPLIT_GUTTER)
}

pub fn preview_panel_bottom(height: usize) -> (r: usize)
    ensures
        r == sat_sub(height as int, WORKAREA_BOTTOM_MARGIN as int),
{
    height.saturating_sub(WORKAREA_BOTTOM_MARGIN)
}

pub fn control_panel_left(width: usize) -> (r: usize)
    ensures
        r == sat_add(
            sat_sub(width as int, (CANVAS_MARGIN + CONTROL_PANEL_WIDTH + SPLIT_GUTTER) as int),
            SPLIT_GUTTER as int,
        ),
{
    preview_panel_right(width).saturating_add(SPLIT_GUTTER)
}

pub fn control_panel_right(width: usize) -> (r: usize)
    ensures
        r == sat_sub(width as int, CANVAS_MARGIN as int),
{
    width.saturating_sub(CANVAS_MARGIN)
}

pub fn control_panel_top() -> (r: usize)
    ensures
        r == WORKAREA_TOP,
{
    WORKAREA_TOP
}

pub fn control_panel_bottom(height: usize) -> (r: usize)
    ensures
        r == sat_sub(height as int, WORKAREA_BOTTOM_MARGIN as int),
{
    height.saturating_sub(WORKAREA_BOTTOM_MARGIN)
}

/// Left end of every slider track: inset from the control panel's left edge.
pub fn slider_left(width: usize) -> (r: usize)
    ensures
        r == sat_add(
            sat_add(
                sat_sub(width as int, (CANVAS_MARGIN + CONTROL_PANEL_WIDTH + SPLIT_GUTTER) as int),
                SPLIT_GUTTER as int,
            ),
            CONTROL_INSET as int,
        ),
{
    control_panel_left(width).saturating_add(CONTROL_INSET)
}

/// Right end of every slider track: inset from the control panel's right edge.
pub fn slider_right(width: usize) -> (r: usize)
    ensures
        r == sat_sub(sat_sub(width as int, CANVAS_MARGIN as int), CONTROL_INSET as int),
{
    control_panel_right(width).saturating_sub(CONTROL_INSET)
}

/// Writes one pixel of a row-major canvas `width` pixels wide; a point outside the canvas's
/// whole rows is ignored.
pub fn set_pixel(buffer: &mut Vec<u32>, width: usize, x: usize, y: usize, color: u32)
    requires
        width > 0,
    ensures
        final(buffer)@.len() == old(buffer)@.len(),
        x < width && y < (old(buffer)@.len() as int) / (width as int) ==> final(buffer)@ == old(buffer)@.update(
            y * width + x,
            color,
        ),
        !(x < width && y < (old(buffer)@.len() as int) / (width as int)) ==> final(buffer)@ == old(buffer)@,
{
    let height = buffer.len() / width;
    if x < width && y < height {
        proof {
            assert(y * width + x < height * width) by (nonlinear_arith)
                requires
                    y < height,
                    x < width,
            ;
            vstd::arithmetic::div_mod::lemma_fundamental_div_mod(buffer@.len() as int, width as int);
            assert(height * width <= buffer@.len()) by (nonlinear_arith)
                requires
                    buffer@.len() == width * height + (buffer@.len() as int) % (width as int),
                    (buffer@.len() as int) % (width as int) >= 0,
            ;
        }
        buffer.set(y * width + x, color);
    }
}

/// Each channel of a packed colour lowered by `amount`, stopping at 0.
pub fn darken_color(color: u32, amount: u8) -> (r: u32)
    ensures
        r == packed(
            sat_sub(byte_of(color, 2) as int, amount as int) as u8,
            sat_sub(byte_of(color, 1) as int, amount as int) as u8,
            sat_sub(byte_of(color, 0) as int, amount as int) as u8,
        ),
{
    let c = crate::pixels::unpack_rgb(color);
    let r = c[0].saturating_sub(amount);
    let g = c[1].saturating_sub(amount);
    let b = c[2].saturating_sub(amount);
    crate::pixels::pack_rgb(r, g, b)
}

/// Each channel of a packed colour raised by `amount`, stopping at 255.
pub fn lighten_color(color: u32, amount: u8) -> (r: u32)
    ensures
        r == packed(
            (if byte_of(color, 2) + amount > 255 { 255 } else { byte_of(color, 2) + amount }) as u8,
            (if byte_of(color, 1) + amount > 255 { 255 } else { byte_of(color, 1) + amount }) as u8,
            (if byte_of(color, 0) + amount > 255 { 255 } else { byte_of(color, 0) + amount }) as u8,
        ),
{
    let c = crate::pixels::unpack_rgb(color);
    let r = c[0].saturating_add(amount);
    let g = c[1].saturating_add(amount);
    let b = c[2].saturating_add(amount);
    crate::pixels::pack_rgb(r, g, b)
}

/// Where a slider sits in the control panel and the colour of its track.
#[derive(Debug, Clone, Copy)]
pub struct SliderSpec {
    pub field: SliderField,
    pub top: usize,
    pub color: u32,
}

/// The six sliders in display order, stacked from 126 pixels below the panel's top at a
/// fixed stride of slider height plus gap.
pub fn slider_specs() -> (r: [SliderSpec; 6])
    ensures
        forall|i: int|
            0 <= i < 6 ==> #[trigger] r@[i].top == WORKAREA_TOP + 126 + i * (SLIDER_HEIGHT
                + SLIDER_GAP),
        r@[0].field == SliderField::Exposure && r@[0].color == 0xFF996C,
        r@[1].field == SliderField::Contrast && r@[1].color == 0x9CD8BE,
        r@[2].field == SliderField::Temperature && r@[2].color == 0xFFD58F,
        r@[3].field == SliderField::Tint && r@[3].color == 0x8A95D8,
        r@[4].field == SliderField::Highlights && r@[4].color == 0xD8E2F0,
        r@[5].field == SliderField::Shadows && r@[5].color == 0xBEA6E8,
{
    let start = control_panel_top() + 126;
    let stride = SLIDER_HEIGHT + SLIDER_GAP;
    let r = [
        SliderSpec { field: SliderField::Exposure, top: start, color: 0xFF996C },
        SliderSpec { field: SliderField::Contrast, top: start + stride, color: 0x9CD8BE },
        SliderSpec { field: SliderField::Temperature, top: start + stride * 2, color: 0xFFD58F },
        SliderSpec { field: SliderField::Tint, top: start + stride * 3, color: 0x8A95D8 },
        SliderSpec { field: SliderField::Highlights, top: start + stride * 4, color: 0xD8E2F0 },
        SliderSpec { field: SliderField::Shadows, top: start + stride * 5, color: 0xBEA6E8 },
    ];
    assert forall|i: int| 0 <= i < 6 implies #[trigger] r@[i].top == WORKAREA_TOP + 126 + i * (
    SLIDER_HEIGHT + SLIDER_GAP) by {
        if i == 0 {
        } else if i == 1 {
        } else if i == 2 {
        } else if i == 3 {
        } else if i == 4 {
        } else {
        }
    }
    r
}

/// Point `(x, y)` lies in the rectangle at `(left, top)` of size `w` by `h`, whose far
/// edges saturate at `usize::MAX`.
pub open spec fn in_rect(x: int, y: int, left: int, top: int, w: int, h: int) -> bool {
    left <= x < sat_add(left, w) && top <= y < sat_add(top, h)
}

/// Fills a rectangle of a row-major canvas `width` pixels wide; the parts outside the
/// canvas's whole rows are ignored.
pub fn fill_rect(
    buffer: &mut Vec<u32>,
    width: usize,
    left: usize,
    top: usize,
    w: usize,
    h: usize,
    color: u32,
)
    requires
        width > 0,
    ensures
        final(buffer)@.len() == old(buffer)@.len(),
        forall|x: int, y: int|
            0 <= x < width && 0 <= y && (y + 1) * width <= old(buffer)@.len() ==> #[trigger] final(buffer)@[y * width + x] == if in_rect(x, y, left as int, top as int, w as int, h as int) {
                color
            } else {
                old(buffer)@[y * width + x]
            },
        forall|i: int|
            (old(buffer)@.len() as int) / (width as int) * width <= i < old(buffer)@.len()
                ==> #[trigger] final(buffer)@[i] == old(buffer)@[i],
{
    let len = buffer.len();
    let height = len / width;
    let right = left.saturating_add(w);
    let bottom = top.saturating_add(h);
    let x_end = if right < width {
        right
    } else {
        width
    };
    let y_end = if bottom < height {
        bottom
    } else {
        height
    };
    let ghost initial = buffer@;
    proof {
        vstd::arithmetic::div_mod::lemma_fundamental_div_mod(initial.len() as int, width as int);
        assert(height * width <= initial.len()) by (nonlinear_arith)
            requires
                initial.len() == width * height + (initial.len() as int) % (width as int),
                (initial.len() as int) % (width as int) >= 0,
        ;
    }
    let mut y: usize = top;
    while y < y_end
        invariant
            width > 0,
            height == (initial.len() as int) / (width as int),
            height * width <= initial.len(),
            y_end <= height,
            x_end <= width,
            right == sat_add(left as int, w as int),
            bottom == sat_add(top as int, h as int),
            x_end == if right < width { right } else { width },
            y_end == if bottom < height { bottom } else { height },
            top <= y,
            y <= y_end || y == top,
            initial.len() <= usize::MAX,
            buffer@.len() == initial.len(),
            forall|xx: int, yy: int|
                0 <= xx < width && 0 <= yy < height ==> #[trigger] buffer@[yy * width + xx] == if top
                    <= yy < y && in_rect(xx, yy, left as int, top as int, w as int, h as int) {
                    color
                } else {
                    initial[yy * width + xx]
                },
            forall|i: int| height * width <= i < initial.len() ==> #[trigger] buffer@[i] == initial[i],
        decreases y_end - y,
    {
        let mut x: usize = left;
        while x < x_end
            invariant
                width > 0,
                height * width <= initial.len(),
                y < y_end,
                y_end <= height,
                x_end <= width,
                top <= y,
                right == sat_add(left as int, w as int),
                bottom == sat_add(top as int, h as int),
                x_end == if right < width { right } else { width },
                y_end == if bottom < height { bottom } else { height },
                left <= x,
                x <= x_end || x == left,
                initial.len() <= usize::MAX,
                buffer@.len() == initial.len(),
                forall|xx: int, yy: int|
                    0 <= xx < width && 0 <= yy < height ==> #[trigger] buffer@[yy * width + xx]
                        == if (top <= yy < y && in_rect(xx, yy, left as int, top as int, w as int, h as int))
                        || (yy == y && left <= xx < x) {
                        color
                    } else {
                        initial[yy * width + xx]
                    },
                forall|i: int| height * width <= i < initial.len() ==> #[trigger] buffer@[i] == initial[i],
            decreases x_end - x,
        {
            proof {
                assert(y * width + x < height * width) by (nonlinear_arith)
                    requires
                        y < height,
                        x < width,
                ;
            }
            let ghost before = buffer@;
            buffer.set(y * width + x, color);
            proof {
                assert forall|xx: int, yy: int|
                    0 <= xx < width && 0 <= yy < height implies #[trigger] buffer@[yy * width + xx]
                    == if (top <= yy < y && in_rect(xx, yy, left as int, top as int, w as int, h as int))
                    || (yy == y && left <= xx < x + 1) {
                    color
                } else {
                    initial[yy * width + xx]
                } by {
                    if yy != y || xx != x {
                        assert(yy * width + xx != y * width + x) by (nonlinear_arith)
                            requires
                                yy != y || xx != x,
                                0 <= xx < width,
                                0 <= x < width,
                                0 <= yy,
                                0 <= y,
                        ;
                        assert(yy * width + xx < height * width) by (nonlinear_arith)
                            requires
                                yy < height,
                                0 <= xx < width,
                        ;
                        assert(buffer@ == before.update(y * width + x, color));
                        assert(buffer@[yy * width + xx] == before[yy * width + xx]);
                    }
                }
                assert forall|i: int| height * width <= i < initial.len() implies #[trigger] buffer@[i]
                    == initial[i] by {
                    assert(buffer@[i] == before[i]);
                }
            }
            x = x + 1;
        }
        proof {
            assert forall|xx: int, yy: int|
                0 <= xx < width && 0 <= yy < height implies #[trigger] buffer@[yy * width + xx] == if top
                <= yy < y + 1 && in_rect(xx, yy, left as int, top as int, w as int, h as int) {
                color
            } else {
                initial[yy * width + xx]
            } by {
                if yy == y {
                    assert(in_rect(xx, yy, left as int, top as int, w as int, h as int) <==> left <= xx
                        < x);
                }
            }
        }
        y = y + 1;
    }
    proof {
        assert forall|x: int, y: int|
            0 <= x < width && 0 <= y && (y + 1) * width <= initial.len() implies #[trigger] buffer@[y
            * width + x] == if in_rect(x, y, left as int, top as int, w as int, h as int) {
            color
        } else {
            initial[y * width + x]
        } by {
            assert(y < height) by {
                vstd::arithmetic::div_mod::lemma_div_is_ordered(
                    (y + 1) * width,
                    initial.len() as int,
                    width as int,
                );
                vstd::arithmetic::div_mod::lemma_div_multiples_vanish(y + 1, width as int);
                assert((y + 1) * width == width * (y + 1)) by (nonlinear_arith);
            }
        }
    }
}

} // verus!
