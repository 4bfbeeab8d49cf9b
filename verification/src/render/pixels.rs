//! Pixel buffers with four bytes per pixel and the blending done on them.

use vstd::prelude::*;

verus! {

/// A rectangle of premultiplied RGBA pixels, stored row by row.
#[derive(Debug)]
pub struct Bitmap {
    pub width: u32,
    pub height: u32,
    pub pixels: Vec<u8>,
}

/// An axis-aligned rectangle in physical pixels.
#[derive(Clone, Copy, Debug, PartialEq, Eq, Structural)]
pub struct PixelRect {
    pub x: i32,
    pub y: i32,
    pub width: i32,
    pub height: i32,
}

impl PixelRect {
    /// Whether the pixel at column `x` and row `y` lies in the rectangle.
    pub open spec fn contains(self, x: int, y: int) -> bool {
        &&& self.x <= x < self.x + self.width
        &&& self.y <= y < self.y + self.height
    }
}

impl Clone for Bitmap {
    fn clone(&self) -> (result: Self)
        ensures
            result.width == self.width,
            result.height == self.height,
            result.pixels@ == self.pixels@,
    {
        let pixels = self.pixels.clone();
        Bitmap { width: self.width, height: self.height, pixels }
    }
}

impl Bitmap {
    /// The buffer holds exactly four bytes for each pixel.
    pub open spec fn wf(&self) -> bool {
        self.pixels@.len() == self.width * self.height * 4
    }

    /// Channel `c` of the pixel at column `x` and row `y`.
    pub open spec fn channel(&self, x: int, y: int, c: int) -> u8 {
        self.pixels@[channel_index(self.width as int, x, y, c)]
    }

    /// Whether column `x` and row `y` lie in the bitmap.
    pub open spec fn inside(&self, x: int, y: int) -> bool {
        0 <= x < self.width && 0 <= y < self.height
    }
}

/// Offset of channel `c` of the pixel at column `x` and row `y`.
pub open spec fn channel_index(width: int, x: int, y: int, c: int) -> int {
    (y * width + x) * 4 + c
}

/// A premultiplied source channel added to what `alpha` lets through of a target.
pub open spec fn layered(source: int, alpha: int, target: int) -> int {
    let sum = source + target * (255 - alpha) / 255;
    if sum > 255 {
        255
    } else {
        sum
    }
}

/// The value of one channel after drawing a premultiplied source: a fully
/// transparent source leaves the target alone.
pub open spec fn over(source: int, alpha: int, target: int) -> int {
    if alpha == 0 {
        target
    } else {
        layered(source, alpha, target)
    }
}

/// The value of one color channel after mixing a straight color into a target.
pub open spec fn mixed(color: int, alpha: int, target: int) -> int {
    (color * alpha + target * (255 - alpha)) / 255
}

/// The alpha channel after mixing a color of opacity `alpha` into a target.
pub open spec fn mixed_alpha(alpha: int, target: int) -> int {
    let sum = alpha + target * (255 - alpha) / 255;
    if sum > 255 {
        255
    } else {
        sum
    }
}

/// A pixel inside the bitmap has its bytes inside the buffer.
pub proof fn lemma_channel_index_bounds(width: int, height: int, x: int, y: int, c: int)
    requires
        0 <= x < width,
        0 <= y < height,
        0 <= c < 4,
    ensures
        0 <= channel_index(width, x, y, c) < width * height * 4,
        0 <= y * width,
        y * width + x < width * height,
{
    assert(0 <= y * width) by (nonlinear_arith)
        requires
            0 <= y,
            0 <= width,
    ;
    assert(y * width + width <= width * height) by (nonlinear_arith)
        requires
            y + 1 <= height,
            0 <= width,
    ;
}

/// Every byte of the buffer is a channel of one pixel.
pub proof fn lemma_byte_position(width: int, height: int, i: int)
    requires
        0 < width,
        0 <= i < width * height * 4,
    ensures
        0 <= (i / 4) % width < width,
        0 <= (i / 4) / width < height,
        channel_index(width, (i / 4) % width, (i / 4) / width, i % 4) == i,
{
    let p = i / 4;
    vstd::arithmetic::div_mod::lemma_fundamental_div_mod(p, width);
    assert(p < width * height);
    assert(p / width < height) by (nonlinear_arith)
        requires
            0 <= p < width * height,
            0 < width,
    ;
    assert(0 <= p / width) by (nonlinear_arith)
        requires
            0 <= p,
            0 < width,
    ;
    assert(width * (p / width) == (p / width) * width) by (nonlinear_arith);
}

/// Two different channels never share a byte.
pub proof fn lemma_channel_index_injective(
    width: int,
    x1: int,
    y1: int,
    c1: int,
    x2: int,
    y2: int,
    c2: int,
)
    requires
        0 <= x1 < width,
        0 <= x2 < width,
        0 <= c1 < 4,
        0 <= c2 < 4,
        channel_index(width, x1, y1, c1) == channel_index(width, x2, y2, c2),
    ensures
        x1 == x2,
        y1 == y2,
        c1 == c2,
{
    assert(y1 * width + x1 == y2 * width + x2);
    if y1 < y2 {
        assert(y1 * width + width <= y2 * width) by (nonlinear_arith)
            requires
                y1 + 1 <= y2,
                0 <= width,
        ;
    } else if y2 < y1 {
        assert(y2 * width + width <= y1 * width) by (nonlinear_arith)
            requires
                y2 + 1 <= y1,
                0 <= width,
        ;
    }
}

/// `layered` of bytes is a byte, and an opaque source replaces the target.
pub proof fn lemma_layered_byte(source: u8, alpha: u8, target: u8)
    ensures
        0 <= layered(source as int, alpha as int, target as int) <= 255,
        0 <= target * (255 - alpha) <= 65025,
        alpha == 255 ==> layered(source as int, alpha as int, target as int) == source,
{
    assert(0 <= target * (255 - alpha) <= 65025) by (nonlinear_arith)
        requires
            0 <= target <= 255,
            0 <= 255 - alpha <= 255,
    ;
    if alpha == 255 {
        assert(target * (255 - alpha) == 0) by (nonlinear_arith)
            requires
                alpha == 255,
        ;
    }
}

fn blend_channel(source: u8, alpha: u8, target: u8) -> (result: u8)
    ensures
        result == layered(source as int, alpha as int, target as int),
{
    proof {
        lemma_layered_byte(source, alpha, target);
    }
    let inverse: u32 = 255 - alpha as u32;
    let sum: u32 = source as u32 + target as u32 * inverse / 255;
    if sum > 255 {
        255
    } else {
        sum as u8
    }
}

/// Lays the premultiplied pixel `source` over `target`.
pub fn blend_premultiplied(target: [u8; 4], source: [u8; 4]) -> (result: [u8; 4])
    ensures
        forall|c: int|
            0 <= c < 4 ==> #[trigger] result[c] == layered(
                source[c] as int,
                source[3] as int,
                target[c] as int,
            ),
{
    let alpha = source[3];
    [
        blend_channel(source[0], alpha, target[0]),
        blend_channel(source[1], alpha, target[1]),
        blend_channel(source[2], alpha, target[2]),
        blend_channel(source[3], alpha, target[3]),
    ]
}

fn mix_channel(color: u8, alpha: u8, target: u8) -> (result: u8)
    ensures
        result == mixed(color as int, alpha as int, target as int),
{
    assert(0 <= color * alpha + target * (255 - alpha) <= 65025) by (nonlinear_arith)
        requires
            0 <= color <= 255,
            0 <= target <= 255,
            0 <= alpha <= 255,
    ;
    assert(0 <= color * alpha) by (nonlinear_arith);
    assert(0 <= target * (255 - alpha)) by (nonlinear_arith)
        requires
            0 <= target,
            0 <= 255 - alpha,
    ;
    let inverse: u32 = 255 - alpha as u32;
    ((color as u32 * alpha as u32 + target as u32 * inverse) / 255) as u8
}

/// Mixes the straight color `r`, `g`, `b` of opacity `alpha` into `target`.
pub fn blend_pixel(target: [u8; 4], r: u8, g: u8, b: u8, alpha: u8) -> (result: [u8; 4])
    ensures
        result[0] == mixed(r as int, alpha as int, target[0] as int),
        result[1] == mixed(g as int, alpha as int, target[1] as int),
        result[2] == mixed(b as int, alpha as int, target[2] as int),
        result[3] == mixed_alpha(alpha as int, target[3] as int),
{
    [
        mix_channel(r, alpha, target[0]),
        mix_channel(g, alpha, target[1]),
        mix_channel(b, alpha, target[2]),
        blend_channel(alpha, alpha, target[3]),
    ]
}

fn read_pixel(bitmap: &Vec<u8>, width: u32, height: u32, x: u32, y: u32) -> (result: [u8; 4])
    requires
        bitmap@.len() >= width * height * 4,
        x < width,
        y < height,
    ensures
        forall|c: int|
            0 <= c < 4 ==> #[trigger] result[c] == bitmap@[channel_index(
                width as int,
                x as int,
                y as int,
                c,
            )],
{
    proof {
        lemma_channel_index_bounds(width as int, height as int, x as int, y as int, 3);
        lemma_channel_index_bounds(width as int, height as int, x as int, y as int, 0);
        assert(bitmap@.len() == bitmap.len());
    }
    let offset: usize = (y as usize * width as usize + x as usize) * 4;
    [bitmap[offset], bitmap[offset + 1], bitmap[offset + 2], bitmap[offset + 3]]
}

impl Bitmap {
    /// A bitmap of fully transparent pixels.
    pub fn transparent(width: u32, height: u32) -> (result: Self)
        requires
            width * height * 4 <= usize::MAX,
        ensures
            result.wf(),
            result.width == width,
            result.height == height,
            forall|i: int| 0 <= i < result.pixels@.len() ==> result.pixels@[i] == 0,
    {
        assert(0 <= width * height) by (nonlinear_arith);
        let length: usize = width as usize * height as usize * 4;
        Bitmap { width, height, pixels: vec![0u8; length] }
    }

    /// The four channels of one pixel.
    pub fn pixel(&self, x: u32, y: u32) -> (result: [u8; 4])
        requires
            self.wf(),
            x < self.width,
            y < self.height,
        ensures
            forall|c: int|
                0 <= c < 4 ==> #[trigger] result[c] == self.channel(x as int, y as int, c),
    {
        read_pixel(&self.pixels, self.width, self.height, x, y)
    }

    /// Replaces one pixel and nothing else.
    pub fn set_pixel(&mut self, x: u32, y: u32, value: [u8; 4])
        requires
            old(self).wf(),
            x < old(self).width,
            y < old(self).height,
        ensures
            final(self).wf(),
            final(self).width == old(self).width,
            final(self).height == old(self).height,
            forall|i: int, j: int, c: int|
                old(self).inside(i, j) && 0 <= c < 4 ==> #[trigger] final(self).channel(i, j, c)
                    == (if i == x && j == y {
                    value[c]
                } else {
                    old(self).channel(i, j, c)
                }),
    {
        proof {
            lemma_channel_index_bounds(self.width as int, self.height as int, x as int, y as int, 3);
            lemma_channel_index_bounds(self.width as int, self.height as int, x as int, y as int, 0);
            assert(self.pixels@.len() == self.pixels.len());
        }
        let offset: usize = (y as usize * self.width as usize + x as usize) * 4;
        self.pixels.set(offset, value[0]);
        self.pixels.set(offset + 1, value[1]);
        self.pixels.set(offset + 2, value[2]);
        self.pixels.set(offset + 3, value[3]);
        proof {
            assert forall|i: int, j: int, c: int|
                old(self).inside(i, j) && 0 <= c < 4 implies #[trigger] self.channel(i, j, c) == (
            if i == x && j == y {
                value[c]
            } else {
                old(self).channel(i, j, c)
            }) by {
                lemma_channel_index_bounds(self.width as int, self.height as int, i, j, c);
                if !(i == x && j == y) {
                    let w = self.width as int;
                    if channel_index(w, i, j, c) == channel_index(w, x as int, y as int, 0) {
                        lemma_channel_index_injective(w, i, j, c, x as int, y as int, 0);
                    }
                    if channel_index(w, i, j, c) == channel_index(w, x as int, y as int, 1) {
                        lemma_channel_index_injective(w, i, j, c, x as int, y as int, 1);
                    }
                    if channel_index(w, i, j, c) == channel_index(w, x as int, y as int, 2) {
                        lemma_channel_index_injective(w, i, j, c, x as int, y as int, 2);
                    }
                    if channel_index(w, i, j, c) == channel_index(w, x as int, y as int, 3) {
                        lemma_channel_index_injective(w, i, j, c, x as int, y as int, 3);
                    }
                }
            }
        }
    }
}

/// Whether some pixel is not fully transparent.
pub fn has_visible_pixels(bitmap: &Bitmap) -> (result: bool)
    ensures
        result == exists|i: int|
            0 <= i && i * 4 + 3 < bitmap.pixels@.len() && #[trigger] bitmap.pixels@[i * 4 + 3] != 0,
{
    let mut i: usize = 0;
    let count: usize = bitmap.pixels.len() / 4;
    while i < count
        invariant
            i <= count,
            count * 4 <= usize::MAX,
            count == bitmap.pixels@.len() / 4,
            forall|k: int| 0 <= k < i ==> #[trigger] bitmap.pixels@[k * 4 + 3] == 0,
        decreases count - i,
    {
        if bitmap.pixels[i * 4 + 3] != 0 {
            assert(bitmap.pixels@[i as int * 4 + 3] != 0);
            return true;
        }
        i += 1;
    }
    false
}

/// Whether the source pixel drawn at (`x`, `y`) is visible through the clip.
pub open spec fn covered(
    x: int,
    y: int,
    target_x: int,
    target_y: int,
    source_width: int,
    source_height: int,
    clip: PixelRect,
) -> bool {
    &&& clip.contains(x, y)
    &&& target_x <= x < target_x + source_width
    &&& target_y <= y < target_y + source_height
}

fn least(a: i64, b: i64) -> (result: i64)
    ensures
        result == if a <= b {
            a
        } else {
            b
        },
{
    if a <= b {
        a
    } else {
        b
    }
}

fn greatest(a: i64, b: i64) -> (result: i64)
    ensures
        result == if a >= b {
            a
        } else {
            b
        },
{
    if a >= b {
        a
    } else {
        b
    }
}

/// Draws a premultiplied image at (`target_x`, `target_y`), inside `clip` only.
pub fn draw_premultiplied_clipped(
    canvas: &mut Bitmap,
    target_x: i32,
    target_y: i32,
    source_width: u32,
    source_height: u32,
    source: &Vec<u8>,
    clip: PixelRect,
)
    requires
        old(canvas).wf(),
        source@.len() >= source_width * source_height * 4,
    ensures
        final(canvas).wf(),
        final(canvas).width == old(canvas).width,
        final(canvas).height == old(canvas).height,
        forall|x: int, y: int, c: int|
            old(canvas).inside(x, y) && 0 <= c < 4 ==> #[trigger] final(canvas).channel(x, y, c)
                == (if covered(
                x,
                y,
                target_x as int,
                target_y as int,
                source_width as int,
                source_height as int,
                clip,
            ) {
                over(
                    source@[channel_index(source_width as int, x - target_x, y - target_y, c)] as int,
                    source@[channel_index(source_width as int, x - target_x, y - target_y, 3)] as int,
                    old(canvas).channel(x, y, c) as int,
                )
            } else {
                old(canvas).channel(x, y, c) as int
            }),
{
    let left: i64 = greatest(greatest(clip.x as i64, 0), target_x as i64);
    let top: i64 = greatest(greatest(clip.y as i64, 0), target_y as i64);
    let right: i64 = least(
        least(clip.x as i64 + clip.width as i64, canvas.width as i64),
        target_x as i64 + source_width as i64,
    );
    let bottom: i64 = least(
        least(clip.y as i64 + clip.height as i64, canvas.height as i64),
        target_y as i64 + source_height as i64,
    );
    let mut y: i64 = top;
    while y < bottom
        invariant
            top <= y,
            y <= bottom || y == top,
            0 <= top,
            0 <= left,
            target_x <= left,
            target_y <= top,
            right <= canvas.width,
            bottom <= canvas.height,
            right <= target_x + source_width,
            bottom <= target_y + source_height,
            canvas.wf(),
            canvas.width == old(canvas).width,
            canvas.height == old(canvas).height,
            source@.len() >= source_width * source_height * 4,
            forall|i: int, j: int, c: int|
                old(canvas).inside(i, j) && 0 <= c < 4 ==> #[trigger] canvas.channel(i, j, c) == (
                if left <= i < right && top <= j < y {
                    over(
                        source@[channel_index(source_width as int, i - target_x, j - target_y, c)] as int,
                        source@[channel_index(source_width as int, i - target_x, j - target_y, 3)] as int,
                        old(canvas).channel(i, j, c) as int,
                    )
                } else {
                    old(canvas).channel(i, j, c) as int
                }),
        decreases bottom - y,
    {
        let mut x: i64 = left;
        while x < right
            invariant
                left <= x,
                x <= right || x == left,
                top <= y < bottom,
                0 <= top,
                0 <= left,
                target_x <= left,
                target_y <= top,
                right <= canvas.width,
                bottom <= canvas.height,
                right <= target_x + source_width,
                bottom <= target_y + source_height,
                canvas.wf(),
                canvas.width == old(canvas).width,
                canvas.height == old(canvas).height,
                source@.len() >= source_width * source_height * 4,
                forall|i: int, j: int, c: int|
                    old(canvas).inside(i, j) && 0 <= c < 4 ==> #[trigger] canvas.channel(i, j, c)
                        == (if left <= i < right && (top <= j < y || (j == y && i < x)) {
                        over(
                            source@[channel_index(
                                source_width as int,
                                i - target_x,
                                j - target_y,
                                c,
                            )] as int,
                            source@[channel_index(
                                source_width as int,
                                i - target_x,
                                j - target_y,
                                3,
                            )] as int,
                            old(canvas).channel(i, j, c) as int,
                        )
                    } else {
                        old(canvas).channel(i, j, c) as int
                    }),
            decreases right - x,
        {
            let pixel = read_pixel(
                source,
                source_width,
                source_height,
                (x - target_x as i64) as u32,
                (y - target_y as i64) as u32,
            );
            if pixel[3] != 0 {
                let below = canvas.pixel(x as u32, y as u32);
                let blended = blend_premultiplied(below, pixel);
                canvas.set_pixel(x as u32, y as u32, blended);
            }
            x += 1;
        }
        y += 1;
    }
}

/// Draws a premultiplied image at (`target_x`, `target_y`), clipped to the canvas.
pub fn draw_premultiplied(
    canvas: &mut Bitmap,
    target_x: i32,
    target_y: i32,
    source_width: u32,
    source_height: u32,
    source: &Vec<u8>,
)
    requires
        old(canvas).wf(),
        old(canvas).width <= i32::MAX,
        old(canvas).height <= i32::MAX,
        source@.len() >= source_width * source_height * 4,
    ensures
        final(canvas).wf(),
        final(canvas).width == old(canvas).width,
        final(canvas).height == old(canvas).height,
        forall|x: int, y: int, c: int|
            old(canvas).inside(x, y) && 0 <= c < 4 ==> #[trigger] final(canvas).channel(x, y, c)
                == (if target_x <= x < target_x + source_width && target_y <= y < target_y
                + source_height {
                over(
                    source@[channel_index(source_width as int, x - target_x, y - target_y, c)] as int,
                    source@[channel_index(source_width as int, x - target_x, y - target_y, 3)] as int,
                    old(canvas).channel(x, y, c) as int,
                )
            } else {
                old(canvas).channel(x, y, c) as int
            }),
{
    let clip = PixelRect { x: 0, y: 0, width: canvas.width as i32, height: canvas.height as i32 };
    draw_premultiplied_clipped(
        canvas,
        target_x,
        target_y,
        source_width,
        source_height,
        source,
        clip,
    );
}

/// Mixes a color into the part of a rectangle that lies on the canvas.
///
/// This is what each glyph fragment does to a text bitmap.
pub fn blend_rect(
    canvas: &mut Bitmap,
    x: i32,
    y: i32,
    width: u32,
    height: u32,
    color: [u8; 4],
)
    requires
        old(canvas).wf(),
    ensures
        final(canvas).wf(),
        final(canvas).width == old(canvas).width,
        final(canvas).height == old(canvas).height,
        forall|i: int, j: int, c: int|
            old(canvas).inside(i, j) && 0 <= c < 4 ==> #[trigger] final(canvas).channel(i, j, c)
                == (if color[3] != 0 && x <= i < x + width && y <= j < y + height {
                blended_channel(color, c, old(canvas).channel(i, j, c))
            } else {
                old(canvas).channel(i, j, c) as int
            }),
{
    if color[3] == 0 {
        return;
    }
    let left: i64 = greatest(x as i64, 0);
    let top: i64 = greatest(y as i64, 0);
    let right: i64 = least(x as i64 + width as i64, canvas.width as i64);
    let bottom: i64 = least(y as i64 + height as i64, canvas.height as i64);
    let mut row: i64 = top;
    while row < bottom
        invariant
            color[3] != 0,
            0 <= left,
            0 <= top <= row,
            row <= bottom || row == top,
            right <= canvas.width,
            bottom <= canvas.height,
            canvas.wf(),
            canvas.width == old(canvas).width,
            canvas.height == old(canvas).height,
            forall|i: int, j: int, c: int|
                old(canvas).inside(i, j) && 0 <= c < 4 ==> #[trigger] canvas.channel(i, j, c) == (
                if left <= i < right && top <= j < row {
                    blended_channel(color, c, old(canvas).channel(i, j, c))
                } else {
                    old(canvas).channel(i, j, c) as int
                }),
        decreases bottom - row,
    {
        let mut column: i64 = left;
        while column < right
            invariant
                0 <= left <= column,
                column <= right || column == left,
                0 <= top <= row < bottom,
                right <= canvas.width,
                bottom <= canvas.height,
                canvas.wf(),
                canvas.width == old(canvas).width,
                canvas.height == old(canvas).height,
                forall|i: int, j: int, c: int|
                    old(canvas).inside(i, j) && 0 <= c < 4 ==> #[trigger] canvas.channel(i, j, c)
                        == (if left <= i < right && (top <= j < row || (j == row && i < column)) {
                        blended_channel(color, c, old(canvas).channel(i, j, c))
                    } else {
                        old(canvas).channel(i, j, c) as int
                    }),
            decreases right - column,
        {
            let below = canvas.pixel(column as u32, row as u32);
            let blended = blend_pixel(below, color[0], color[1], color[2], color[3]);
            canvas.set_pixel(column as u32, row as u32, blended);
            column += 1;
        }
        row += 1;
    }
}

/// One channel of the result of `blend_pixel` with the straight color `color`.
pub open spec fn blended_channel(color: [u8; 4], c: int, target: u8) -> int {
    if c == 3 {
        mixed_alpha(color[3] as int, target as int)
    } else {
        mixed(color[c] as int, color[3] as int, target as int)
    }
}

/// The source column or row that a scaled column or row is taken from.
pub open spec fn nearest(position: int, source_length: int, target_length: int) -> int {
    position * source_length / target_length
}

/// A scaled position always comes from inside the source.
pub proof fn lemma_nearest_inside(position: int, source_length: int, target_length: int)
    requires
        0 <= position < target_length,
        0 < source_length,
    ensures
        0 <= nearest(position, source_length, target_length) < source_length,
        0 <= position * source_length < target_length * source_length,
{
    assert(0 <= position * source_length) by (nonlinear_arith)
        requires
            0 <= position,
            0 < source_length,
    ;
    assert(position * source_length < target_length * source_length) by (nonlinear_arith)
        requires
            position < target_length,
            0 < source_length,
    ;
    let product = position * source_length;
    assert(0 <= product / target_length < source_length) by (nonlinear_arith)
        requires
            0 <= product < target_length * source_length,
            0 < target_length,
    ;
}

/// Whether pixels are those of a square icon, made from an icon of another size
/// by taking the nearest pixels; one of the right size is left as it is.
pub open spec fn is_scaled(
    result: Seq<u8>,
    source: Seq<u8>,
    source_width: u32,
    source_height: u32,
    target_size: u32,
) -> bool {
    if source_width == target_size && source_height == target_size {
        result == source
    } else {
        &&& result.len() == target_size * target_size * 4
        &&& forall|x: int, y: int, c: int|
            0 <= x < target_size && 0 <= y < target_size && 0 <= c < 4
                ==> #[trigger] result[channel_index(target_size as int, x, y, c)]
                == source[channel_index(
                source_width as int,
                nearest(x, source_width as int, target_size as int),
                nearest(y, source_height as int, target_size as int),
                c,
            )]
    }
}

/// Whether an icon can be scaled.
pub open spec fn can_scale(
    source: Seq<u8>,
    source_width: u32,
    source_height: u32,
    target_size: u32,
) -> bool {
    &&& target_size * target_size * 4 <= u32::MAX
    &&& (source_width != target_size || source_height != target_size) && target_size > 0 ==> {
        &&& source_width > 0
        &&& source_height > 0
        &&& source.len() >= source_width * source_height * 4
    }
}

/// Scales an image to a square by taking the nearest source pixel.
///
/// An image that already has the wanted size is copied as it is.
pub fn scale_pixels(source: &Vec<u8>, source_width: u32, source_height: u32, target_size: u32) -> (result:
    Vec<u8>)
    requires
        can_scale(source@, source_width, source_height, target_size),
    ensures
        is_scaled(result@, source@, source_width, source_height, target_size),
{
    if source_width == target_size && source_height == target_size {
        return source.clone();
    }
    let mut scaled = Bitmap::transparent(target_size, target_size);
    let mut y: u32 = 0;
    while y < target_size
        invariant
            y <= target_size,
            scaled.wf(),
            scaled.width == target_size,
            scaled.height == target_size,
            target_size > 0 ==> source_width > 0 && source_height > 0 && source@.len()
                >= source_width * source_height * 4,
            forall|i: int, j: int, c: int|
                0 <= i < target_size && 0 <= j < y && 0 <= c < 4 ==> #[trigger] scaled.channel(i, j, c)
                    == source@[channel_index(
                    source_width as int,
                    nearest(i, source_width as int, target_size as int),
                    nearest(j, source_height as int, target_size as int),
                    c,
                )],
        decreases target_size - y,
    {
        proof {
            lemma_nearest_inside(y as int, source_height as int, target_size as int);
            assert(target_size * source_height <= 0xffff_ffff * 0xffff_ffff) by (nonlinear_arith)
                requires
                    target_size <= 0xffff_ffff,
                    source_height <= 0xffff_ffff,
            ;
        }
        let source_y: u32 = (y as u64 * source_height as u64 / target_size as u64) as u32;
        let mut x: u32 = 0;
        while x < target_size
            invariant
                x <= target_size,
                y < target_size,
                source_y == nearest(y as int, source_height as int, target_size as int),
                source_y < source_height,
                scaled.wf(),
                scaled.width == target_size,
                scaled.height == target_size,
                source_width > 0,
                source@.len() >= source_width * source_height * 4,
                forall|i: int, j: int, c: int|
                    0 <= i < target_size && (0 <= j < y || (j == y && i < x)) && 0 <= c < 4
                        ==> #[trigger] scaled.channel(i, j, c) == source@[channel_index(
                        source_width as int,
                        nearest(i, source_width as int, target_size as int),
                        nearest(j, source_height as int, target_size as int),
                        c,
                    )],
            decreases target_size - x,
        {
            proof {
                lemma_nearest_inside(x as int, source_width as int, target_size as int);
                assert(target_size * source_width <= 0xffff_ffff * 0xffff_ffff)
                    by (nonlinear_arith)
                    requires
                        target_size <= 0xffff_ffff,
                        source_width <= 0xffff_ffff,
                ;
            }
            let source_x: u32 = (x as u64 * source_width as u64 / target_size as u64) as u32;
            let pixel = read_pixel(source, source_width, source_height, source_x, source_y);
            scaled.set_pixel(x, y, pixel);
            x += 1;
        }
        y += 1;
    }
    proof {
        assert forall|x: int, y: int, c: int|
            0 <= x < target_size && 0 <= y < target_size && 0 <= c < 4 implies #[trigger] scaled.pixels@[channel_index(
            target_size as int,
            x,
            y,
            c,
        )] == source@[channel_index(
            source_width as int,
            nearest(x, source_width as int, target_size as int),
            nearest(y, source_height as int, target_size as int),
            c,
        )] by {
            assert(scaled.channel(x, y, c) == scaled.pixels@[channel_index(
                target_size as int,
                x,
                y,
                c,
            )]);
        }
    }
    scaled.pixels
}

/// Drawing a fully transparent pixel leaves the target as it was.
pub proof fn law_transparent_source_is_invisible(source: int, target: int)
    ensures
        over(source, 0, target) == target,
{
}

/// Drawing an opaque pixel replaces the target.
pub proof fn law_opaque_source_replaces(source: u8, target: u8)
    ensures
        over(source as int, 255, target as int) == source,
{
    lemma_layered_byte(source, 255, target);
}

/// Scaling by a whole factor repeats each source pixel that many times.
pub proof fn law_whole_factor_repeats(position: int, source_length: int, factor: int)
    requires
        0 <= position < source_length * factor,
        0 < source_length,
        0 < factor,
    ensures
        nearest(position, source_length, source_length * factor) == position / factor,
{
    vstd::arithmetic::div_mod::lemma_div_denominator(
        position * source_length,
        source_length,
        factor,
    );
    assert(position * source_length / source_length == position) by {
        vstd::arithmetic::div_mod::lemma_div_multiples_vanish(position, source_length);
        assert(position * source_length == source_length * position) by (nonlinear_arith);
    }
}

} // verus!
