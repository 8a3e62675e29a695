use vstd::prelude::*;
use vstd::arithmetic::div_mod::lemma_multiply_divide_lt;

verus! {

/// The packed 0x00RRGGBB value of one pixel.
pub open spec fn packed(red: u8, green: u8, blue: u8) -> u32 {
    (red as u32 * 65536 + green as u32 * 256 + blue as u32) as u32
}

/// Byte `k` (0 = least significant) of a 32-bit value.
pub open spec fn byte_of(value: u32, k: int) -> u8 {
    ((value as int / pow256(k)) % 256) as u8
}

pub open spec fn pow256(k: int) -> int
    decreases k,
{
    if k <= 0 {
        1
    } else {
        256 * pow256(k - 1)
    }
}

pub fn pack_rgb(red: u8, green: u8, blue: u8) -> (r: u32)
    ensures
        r == packed(red, green, blue),
{
    let r = ((red as u32) << 16) | ((green as u32) << 8) | (blue as u32);
    assert(((red as u32) << 16) | ((green as u32) << 8) | (blue as u32) == red as u32 * 65536
        + green as u32 * 256 + blue as u32) by (bit_vector);
    r
}

/// Splits a packed pixel into its red, green and blue channels; the top byte is ignored.
pub fn unpack_rgb(pixel: u32) -> (r: [u8; 3])
    ensures
        r@ == seq![byte_of(pixel, 2), byte_of(pixel, 1), byte_of(pixel, 0)],
{
    let red = ((pixel >> 16) & 0xFF) as u8;
    let green = ((pixel >> 8) & 0xFF) as u8;
    let blue = (pixel & 0xFF) as u8;
    assert((pixel >> 16) & 0xFF == (pixel / 65536) % 256) by (bit_vector);
    assert((pixel >> 8) & 0xFF == (pixel / 256) % 256) by (bit_vector);
    assert(pixel & 0xFF == pixel % 256) by (bit_vector);
    proof {
        reveal_with_fuel(pow256, 3);
    }
    let r = [red, green, blue];
    assert(r@ =~= seq![byte_of(pixel, 2), byte_of(pixel, 1), byte_of(pixel, 0)]);
    r
}

/// Lays the pixels out as bytes, four per pixel, least significant byte first.
pub fn source_pixels_as_le_bytes(pixels: &[u32]) -> (bytes: Vec<u8>)
    requires
        pixels@.len() * 4 <= usize::MAX,
    ensures
        bytes@.len() == pixels@.len() * 4,
        forall|i: int, k: int|
            0 <= i < pixels@.len() && 0 <= k < 4 ==> #[trigger] bytes@[4 * i + k] == byte_of(
                pixels@[i],
                k,
            ),
{
    let mut bytes: Vec<u8> = Vec::with_capacity(pixels.len() * 4);
    let mut i: usize = 0;
    proof {
        reveal_with_fuel(pow256, 4);
    }
    while i < pixels.len()
        invariant
            i <= pixels@.len(),
            pixels@.len() * 4 <= usize::MAX,
            bytes@.len() == 4 * i,
            pow256(0) == 1 && pow256(1) == 256 && pow256(2) == 65536 && pow256(3) == 16777216,
            forall|j: int, k: int|
                0 <= j < i && 0 <= k < 4 ==> #[trigger] bytes@[4 * j + k] == byte_of(
                    pixels@[j],
                    k,
                ),
        decreases pixels@.len() - i,
    {
        let p = pixels[i];
        assert(p & 0xFF == p % 256) by (bit_vector);
        assert((p >> 8) & 0xFF == (p / 256) % 256) by (bit_vector);
        assert((p >> 16) & 0xFF == (p / 65536) % 256) by (bit_vector);
        assert((p >> 24) & 0xFF == (p / 16777216) % 256) by (bit_vector);
        bytes.push((p & 0xFF) as u8);
        bytes.push(((p >> 8) & 0xFF) as u8);
        bytes.push(((p >> 16) & 0xFF) as u8);
        bytes.push(((p >> 24) & 0xFF) as u8);
        assert forall|j: int, k: int| 0 <= j < i + 1 && 0 <= k < 4 implies #[trigger] bytes@[4 * j
            + k] == byte_of(pixels@[j], k) by {
            if j < i {
                assert(4 * j + k < 4 * i);
            }
        }
        i = i + 1;
    }
    bytes
}

/// Index into the source of the nearest-neighbour sample for destination index `d`.
pub open spec fn nearest_index(d: int, src_dim: int, dst_dim: int) -> int {
    d * src_dim / dst_dim
}

/// The packed pixel at `(x, y)` of a row-major RGB8 buffer of the given width.
pub open spec fn rgb_at(rgb: Seq<u8>, width: int, x: int, y: int) -> u32 {
    let base = 3 * (y * width + x);
    packed(rgb[base], rgb[base + 1], rgb[base + 2])
}

/// Nearest-neighbour resample of a row-major RGB8 buffer to `dst_width` by `dst_height`
/// packed pixels: each destination pixel takes the source pixel at
/// `(x * src_width / dst_width, y * src_height / dst_height)`.
pub fn resample_nearest(
    rgb: &[u8],
    src_width: usize,
    src_height: usize,
    dst_width: usize,
    dst_height: usize,
) -> (pixels: Vec<u32>)
    requires
        src_width > 0,
        src_height > 0,
        dst_width > 0,
        dst_height > 0,
        rgb@.len() == 3 * src_width * src_height,
        dst_width * dst_height <= usize::MAX,
        dst_width * src_width <= usize::MAX,
        dst_height * src_height <= usize::MAX,
    ensures
        pixels@.len() == dst_width * dst_height,
        forall|x: int, y: int|
            0 <= x < dst_width && 0 <= y < dst_height ==> #[trigger] pixels@[y * dst_width + x]
                == rgb_at(
                rgb@,
                src_width as int,
                nearest_index(x, src_width as int, dst_width as int),
                nearest_index(y, src_height as int, dst_height as int),
            ),
{
    let rgb_len = rgb.len();
    let mut pixels: Vec<u32> = Vec::new();
    let mut y: usize = 0;
    while y < dst_height
        invariant
            y <= dst_height,
            src_width > 0 && src_height > 0 && dst_width > 0 && dst_height > 0,
            rgb@.len() == 3 * src_width * src_height,
            rgb_len == rgb@.len(),
            dst_width * dst_height <= usize::MAX,
            dst_width * src_width <= usize::MAX,
            dst_height * src_height <= usize::MAX,
            pixels@.len() == y * dst_width,
            forall|xx: int, yy: int|
                0 <= xx < dst_width && 0 <= yy < y ==> #[trigger] pixels@[yy * dst_width + xx]
                    == rgb_at(
                    rgb@,
                    src_width as int,
                    nearest_index(xx, src_width as int, dst_width as int),
                    nearest_index(yy, src_height as int, dst_height as int),
                ),
        decreases dst_height - y,
    {
        proof {
            assert(y * src_height <= dst_height * src_height) by (nonlinear_arith)
                requires
                    y < dst_height,
            ;
            assert(y * src_height < dst_height * src_height) by (nonlinear_arith)
                requires
                    y < dst_height,
                    src_height > 0,
            ;
            lemma_multiply_divide_lt(y * src_height, dst_height as int, src_height as int);
        }
        let src_y = y * src_height / dst_height;
        let mut x: usize = 0;
        while x < dst_width
            invariant
                x <= dst_width,
                y < dst_height,
                src_y == nearest_index(y as int, src_height as int, dst_height as int),
                src_y < src_height,
                src_width > 0 && src_height > 0 && dst_width > 0 && dst_height > 0,
                rgb@.len() == 3 * src_width * src_height,
                rgb_len == rgb@.len(),
                dst_width * dst_height <= usize::MAX,
                dst_width * src_width <= usize::MAX,
                pixels@.len() == y * dst_width + x,
                forall|xx: int, yy: int|
                    0 <= xx < dst_width && 0 <= yy < y ==> #[trigger] pixels@[yy * dst_width + xx]
                        == rgb_at(
                        rgb@,
                        src_width as int,
                        nearest_index(xx, src_width as int, dst_width as int),
                        nearest_index(yy, src_height as int, dst_height as int),
                    ),
                forall|xx: int|
                    0 <= xx < x ==> #[trigger] pixels@[y * dst_width + xx] == rgb_at(
                        rgb@,
                        src_width as int,
                        nearest_index(xx, src_width as int, dst_width as int),
                        src_y as int,
                    ),
            decreases dst_width - x,
        {
            proof {
                assert(x * src_width <= dst_width * src_width) by (nonlinear_arith)
                    requires
                        x < dst_width,
                ;
                assert(x * src_width < dst_width * src_width) by (nonlinear_arith)
                    requires
                        x < dst_width,
                        src_width > 0,
                ;
                lemma_multiply_divide_lt(x * src_width, dst_width as int, src_width as int);
            }
            let src_x = x * src_width / dst_width;
            proof {
                assert(src_y * src_width + src_x < src_width * src_height) by (nonlinear_arith)
                    requires
                        src_y < src_height,
                        src_x < src_width,
                ;
                assert(3 * (src_y * src_width + src_x) + 2 < 3 * src_width * src_height) by (nonlinear_arith)
                    requires
                        src_y * src_width + src_x < src_width * src_height,
                ;
            }
            let base = 3 * (src_y * src_width + src_x);
            let p = pack_rgb(rgb[base], rgb[base + 1], rgb[base + 2]);
            proof {
                assert(y * dst_width + x < dst_width * dst_height) by (nonlinear_arith)
                    requires
                        y < dst_height,
                        x < dst_width,
                ;
            }
            pixels.push(p);
            proof {
                assert forall|xx: int, yy: int|
                    0 <= xx < dst_width && 0 <= yy < y implies #[trigger] pixels@[yy * dst_width
                    + xx] == rgb_at(
                    rgb@,
                    src_width as int,
                    nearest_index(xx, src_width as int, dst_width as int),
                    nearest_index(yy, src_height as int, dst_height as int),
                ) by {
                    assert(yy * dst_width + xx < y * dst_width) by (nonlinear_arith)
                        requires
                            yy < y,
                            xx < dst_width,
                    ;
                }
            }
            x = x + 1;
        }
        proof {
            assert forall|xx: int, yy: int|
                0 <= xx < dst_width && 0 <= yy < y + 1 implies #[trigger] pixels@[yy * dst_width
                + xx] == rgb_at(
                rgb@,
                src_width as int,
                nearest_index(xx, src_width as int, dst_width as int),
                nearest_index(yy, src_height as int, dst_height as int),
            ) by {
                if yy == y {
                } else {
                }
            }
            assert((y + 1) * dst_width == y * dst_width + dst_width) by (nonlinear_arith);
        }
        y = y + 1;
    }
    assert(pixels@.len() == dst_width * dst_height) by (nonlinear_arith)
        requires
            pixels@.len() == y * dst_width,
            y == dst_height,
    ;
    pixels
}

} // verus!
