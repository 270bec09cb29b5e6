//! What a framebuffer looks like after each drawing operation: the
//! mathematical model that the contracts of the screen are stated over.

use crate::font::{raster_of, GLYPH_HEIGHT, GLYPH_WIDTH};
use crate::screen::{
    FrameBufferInfo, PixelFormat, DASH_LENGTH, DASH_PERIOD, LARGE_SCALE, LARGE_THRESHOLD,
    LINE_SHADE, LINE_SPACING, SCORE_LEFT, SCORE_RIGHT, SCORE_Y,
};
use vstd::prelude::*;

verus! {

/// What a `ScreenWriter` stands for in contracts: the bytes of the buffer,
/// its geometry and the text cursor.
pub struct Surface {
    pub pixels: Seq<u8>,
    pub info: FrameBufferInfo,
    pub x_pos: usize,
    pub y_pos: usize,
}

/// Byte at which pixel `(x, y)` starts.
pub open spec fn byte_offset(info: FrameBufferInfo, x: int, y: int) -> int {
    (y * info.stride + x) * info.bytes_per_pixel
}

/// The bytes of a pixel of colour `(r, g, b)` in the given channel order.
pub open spec fn channel_bytes(format: PixelFormat, r: u8, g: u8, b: u8) -> Seq<u8> {
    match format {
        PixelFormat::Rgb => seq![r, g, b, 0u8],
        PixelFormat::Bgr => seq![b, g, r, 0u8],
        PixelFormat::Other => seq![0u8, 0u8, 0u8, 0u8],
    }
}

/// The bytes of a glyph pixel of the given intensity: a green tint, with
/// red and blue at a quarter and a half of it in the order of the channels.
pub open spec fn glyph_bytes(format: PixelFormat, intensity: u8) -> Seq<u8> {
    match format {
        PixelFormat::Rgb => seq![(intensity / 4) as u8, intensity, (intensity / 2) as u8, 0u8],
        PixelFormat::Bgr => seq![(intensity / 2) as u8, intensity, (intensity / 4) as u8, 0u8],
        PixelFormat::Other => seq![0u8, 0u8, 0u8, 0u8],
    }
}

/// `pixels` with the first `n` bytes of `color` stored from byte `at` on.
pub open spec fn store(pixels: Seq<u8>, at: int, color: Seq<u8>, n: int) -> Seq<u8> {
    Seq::new(
        pixels.len(),
        |k: int|
            if at <= k < at + n {
                color[k - at]
            } else {
                pixels[k]
            },
    )
}

/// The character that shows the decimal digit `d`.
pub open spec fn digit_char(d: int) -> char {
    (48 + d) as u8 as char
}

/// The decimal digits of `n`, most significant first.
pub open spec fn decimal(n: nat) -> Seq<char>
    decreases n,
{
    if n < 10 {
        seq![digit_char(n as int)]
    } else {
        decimal(n / 10).push(digit_char((n % 10) as int))
    }
}

impl Surface {
    /// Same geometry and as many bytes as `other`.
    pub open spec fn same_geometry(self, other: Surface) -> bool {
        self.info == other.info && self.pixels.len() == other.pixels.len()
    }

    /// Every visible pixel has bytes of its own in the buffer: the channel
    /// order is known, a pixel has one to four bytes, a line is no longer
    /// than the stride, and the buffer holds every visible line.
    pub open spec fn regular(self) -> bool {
        &&& self.info.pixel_format != PixelFormat::Other
        &&& 1 <= self.info.bytes_per_pixel <= 4
        &&& self.info.width <= self.info.stride
        &&& self.info.stride * self.info.height * self.info.bytes_per_pixel <= self.pixels.len()
    }

    /// Whether `(x, y)` is on the screen.
    pub open spec fn visible(self, x: int, y: int) -> bool {
        0 <= x < self.info.width && 0 <= y < self.info.height
    }

    /// The bytes of the pixel at `(x, y)`.
    pub open spec fn pixel_at(self, x: int, y: int) -> Seq<u8> {
        self.pixels.subrange(
            byte_offset(self.info, x, y),
            byte_offset(self.info, x, y) + self.info.bytes_per_pixel,
        )
    }

    /// The bytes that a pixel of colour `(r, g, b)` has on this surface.
    pub open spec fn shown(self, r: u8, g: u8, b: u8) -> Seq<u8> {
        channel_bytes(self.info.pixel_format, r, g, b).take(self.info.bytes_per_pixel as int)
    }

    /// The bytes that a glyph pixel of the given intensity has on this
    /// surface.
    pub open spec fn shown_glyph(self, intensity: u8) -> Seq<u8> {
        glyph_bytes(self.info.pixel_format, intensity).take(self.info.bytes_per_pixel as int)
    }

    /// All bytes zero and the cursor at the origin.
    pub open spec fn cleared(self) -> Surface {
        Surface { pixels: Seq::new(self.pixels.len(), |k: int| 0u8), x_pos: 0, y_pos: 0, ..self }
    }

    /// Whether a colour written at `(x, y)` reaches the buffer: the
    /// coordinate is visible, the channel order is known, and the pixel's
    /// bytes lie inside the buffer.
    pub open spec fn accepts_pixel(self, x: int, y: int) -> bool {
        &&& 0 <= x < self.info.width
        &&& 0 <= y < self.info.height
        &&& self.info.pixel_format != PixelFormat::Other
        &&& self.info.bytes_per_pixel <= 4
        &&& byte_offset(self.info, x, y) + self.info.bytes_per_pixel <= self.pixels.len()
    }

    /// The surface after colour `(r, g, b)` is drawn at `(x, y)`: the bytes
    /// of that pixel change if the surface accepts it, nothing otherwise.
    pub open spec fn with_pixel(self, x: int, y: int, r: u8, g: u8, b: u8) -> Surface {
        if self.accepts_pixel(x, y) {
            Surface {
                pixels: store(
                    self.pixels,
                    byte_offset(self.info, x, y),
                    channel_bytes(self.info.pixel_format, r, g, b),
                    self.info.bytes_per_pixel as int,
                ),
                ..self
            }
        } else {
            self
        }
    }

    /// The surface after `n` pixels are drawn from `(x, y)` rightwards.
    pub open spec fn with_row(self, x: int, y: int, n: int, r: u8, g: u8, b: u8) -> Surface
        decreases n,
    {
        if n <= 0 {
            self
        } else {
            self.with_row(x, y, n - 1, r, g, b).with_pixel(x + n - 1, y, r, g, b)
        }
    }

    /// The surface after a filled rectangle of `w` by `h` pixels is drawn
    /// with its top-left corner at `(x, y)`, row by row from the top.
    pub open spec fn with_rect(self, x: int, y: int, w: int, h: int, r: u8, g: u8, b: u8) -> Surface
        decreases h,
    {
        if h <= 0 {
            self
        } else {
            self.with_rect(x, y, w, h - 1, r, g, b).with_row(x, y + h - 1, w, r, g, b)
        }
    }

    /// Whether a glyph pixel can be written at `(x, y)`: the channel order
    /// is known and the pixel's bytes lie inside the buffer.
    pub open spec fn takes_text_pixel(self, x: int, y: int) -> bool {
        &&& self.info.pixel_format != PixelFormat::Other
        &&& 1 <= self.info.bytes_per_pixel <= 4
        &&& 0 <= x
        &&& 0 <= y
        &&& byte_offset(self.info, x, y) + self.info.bytes_per_pixel <= self.pixels.len()
    }

    /// The surface after a glyph pixel of the given intensity is written at
    /// `(x, y)`.
    pub open spec fn with_text_pixel(self, x: int, y: int, intensity: u8) -> Surface {
        Surface {
            pixels: store(
                self.pixels,
                byte_offset(self.info, x, y),
                glyph_bytes(self.info.pixel_format, intensity),
                self.info.bytes_per_pixel as int,
            ),
            ..self
        }
    }

    /// Whether text can be drawn: the channel order is known, a pixel has
    /// one to four bytes, a glyph fits on the screen, and the buffer holds
    /// every visible line.
    pub open spec fn supports_text(self) -> bool {
        &&& self.info.pixel_format != PixelFormat::Other
        &&& 1 <= self.info.bytes_per_pixel <= 4
        &&& GLYPH_WIDTH <= self.info.width <= self.info.stride
        &&& GLYPH_HEIGHT <= self.info.height
        &&& self.info.stride * self.info.height * self.info.bytes_per_pixel <= self.pixels.len()
    }

    /// The cursor at the start of the next line. The line count saturates
    /// at the largest `usize`.
    pub open spec fn newline(self) -> Surface {
        Surface {
            x_pos: 0,
            y_pos: if self.y_pos + GLYPH_HEIGHT + LINE_SPACING <= usize::MAX {
                (self.y_pos + GLYPH_HEIGHT + LINE_SPACING) as usize
            } else {
                usize::MAX
            },
            ..self
        }
    }

    /// The cursor at the start of its line.
    pub open spec fn carriage_return(self) -> Surface {
        Surface { x_pos: 0, ..self }
    }

    /// The surface after the first `n` pixels of `row` are written from
    /// `(x, y)` rightwards.
    pub open spec fn with_glyph_row(self, row: Seq<u8>, x: int, y: int, n: int) -> Surface
        decreases n,
    {
        if n <= 0 {
            self
        } else {
            self.with_glyph_row(row, x, y, n - 1).with_text_pixel(x + n - 1, y, row[n - 1])
        }
    }

    /// The surface after the first `n` rows of `raster` are written with
    /// the top-left corner at `(x, y)`.
    pub open spec fn with_glyph_rows(self, raster: Seq<Seq<u8>>, x: int, y: int, n: int) -> Surface
        decreases n,
    {
        if n <= 0 {
            self
        } else {
            self.with_glyph_rows(raster, x, y, n - 1).with_glyph_row(
                raster[n - 1],
                x,
                y + n - 1,
                raster[n - 1].len() as int,
            )
        }
    }

    /// The surface after `raster` is written at the cursor and the cursor
    /// has moved `width` pixels to the right.
    pub open spec fn with_glyph(self, raster: Seq<Seq<u8>>, width: int) -> Surface {
        Surface {
            x_pos: (self.x_pos + width) as usize,
            ..self.with_glyph_rows(
                raster,
                self.x_pos as int,
                self.y_pos as int,
                raster.len() as int,
            )
        }
    }

    /// The surface after a glyph of `width` by `height` pixels is placed:
    /// the cursor wraps to the next line when the glyph would pass the right
    /// edge, the screen is cleared when the glyph would then pass the bottom
    /// edge, and the glyph is written at the cursor.
    pub open spec fn with_placed_glyph(self, raster: Seq<Seq<u8>>, width: int, height: int) -> Surface {
        let wrapped = if self.x_pos + width > self.info.width {
            self.newline()
        } else {
            self
        };
        let recycled = if wrapped.y_pos + height > self.info.height {
            wrapped.cleared()
        } else {
            wrapped
        };
        recycled.with_glyph(raster, width)
    }

    /// The surface after `c` is written: a line feed and a carriage return
    /// move the cursor, a character the font knows is placed, any other
    /// leaves the surface as it is.
    pub open spec fn with_char(self, c: char) -> Surface {
        if c == '\n' {
            self.newline()
        } else if c == '\r' {
            self.carriage_return()
        } else {
            match raster_of(c) {
                Some(raster) => self.with_placed_glyph(
                    raster,
                    GLYPH_WIDTH as int,
                    GLYPH_HEIGHT as int,
                ),
                None => self,
            }
        }
    }

    /// The surface after the characters of `text` are written in order.
    pub open spec fn with_text(self, text: Seq<char>) -> Surface
        decreases text.len(),
    {
        if text.len() == 0 {
            self
        } else {
            self.with_text(text.drop_last()).with_char(text.last())
        }
    }

    /// The surface after `num` is written in decimal with the cursor
    /// starting at `(x, y)`.
    pub open spec fn with_number(self, num: nat, x: usize, y: usize) -> Surface {
        (Surface { x_pos: x, y_pos: y, ..self }).with_text(decimal(num))
    }

    /// Horizontal middle of the screen.
    pub open spec fn mid_x(self) -> int {
        self.info.width as int / 2
    }

    /// The surface after both scores are written on line `SCORE_Y`: the
    /// first `SCORE_LEFT` pixels left of the middle, at the left edge if the
    /// screen is narrower than that, the second `SCORE_RIGHT` pixels right
    /// of the middle.
    pub open spec fn with_score(self, player1_score: nat, player2_score: nat) -> Surface {
        let left = if self.mid_x() >= SCORE_LEFT {
            (self.mid_x() - SCORE_LEFT) as usize
        } else {
            0usize
        };
        let right = (self.mid_x() + SCORE_RIGHT) as usize;
        self.with_number(player1_score, left, SCORE_Y).with_number(player2_score, right, SCORE_Y)
    }

    /// The surface after the lines `0..n` of a dashed vertical line are
    /// drawn in column `x`: of every `DASH_PERIOD` lines the first
    /// `DASH_LENGTH` are drawn.
    pub open spec fn with_dashed_column(self, x: int, n: int) -> Surface
        decreases n,
    {
        if n <= 0 {
            self
        } else if (n - 1) % (DASH_PERIOD as int) < DASH_LENGTH {
            self.with_dashed_column(x, n - 1).with_pixel(
                x,
                n - 1,
                LINE_SHADE,
                LINE_SHADE,
                LINE_SHADE,
            )
        } else {
            self.with_dashed_column(x, n - 1)
        }
    }

    /// The surface after the dashed centre line is drawn from top to bottom.
    pub open spec fn with_center_line(self) -> Surface {
        self.with_dashed_column(self.mid_x(), self.info.height as int)
    }

    /// The surface after the first `n` pixels of the glyph row `row` are
    /// drawn enlarged from `(x, y)` rightwards: a square of side
    /// `LARGE_SCALE` for every pixel of intensity `LARGE_THRESHOLD` or more.
    pub open spec fn with_large_row(
        self,
        row: Seq<u8>,
        x: int,
        y: int,
        n: int,
        r: u8,
        g: u8,
        b: u8,
    ) -> Surface
        decreases n,
    {
        if n <= 0 {
            self
        } else if row[n - 1] >= LARGE_THRESHOLD {
            self.with_large_row(row, x, y, n - 1, r, g, b).with_rect(
                x + LARGE_SCALE * (n - 1),
                y,
                LARGE_SCALE as int,
                LARGE_SCALE as int,
                r,
                g,
                b,
            )
        } else {
            self.with_large_row(row, x, y, n - 1, r, g, b)
        }
    }

    /// The surface after the first `n` rows of `raster` are drawn enlarged
    /// with the top-left corner at `(x, y)`.
    pub open spec fn with_large_rows(
        self,
        raster: Seq<Seq<u8>>,
        x: int,
        y: int,
        n: int,
        r: u8,
        g: u8,
        b: u8,
    ) -> Surface
        decreases n,
    {
        if n <= 0 {
            self
        } else {
            self.with_large_rows(raster, x, y, n - 1, r, g, b).with_large_row(
                raster[n - 1],
                x,
                y + LARGE_SCALE * (n - 1),
                raster[n - 1].len() as int,
                r,
                g,
                b,
            )
        }
    }

    /// The surface after `text` is drawn enlarged in colour `(r, g, b)` with
    /// its top-left corner at `(x, y)`. Every character takes a cell of
    /// `LARGE_SCALE * GLYPH_WIDTH` pixels; one the font does not know leaves
    /// its cell as it is. The cursor stays where it is.
    pub open spec fn with_large_text(
        self,
        text: Seq<char>,
        x: int,
        y: int,
        r: u8,
        g: u8,
        b: u8,
    ) -> Surface
        decreases text.len(),
    {
        if text.len() == 0 {
            self
        } else {
            let before = self.with_large_text(text.drop_last(), x, y, r, g, b);
            match raster_of(text.last()) {
                Some(raster) => before.with_large_rows(
                    raster,
                    x + LARGE_SCALE * GLYPH_WIDTH * (text.len() - 1),
                    y,
                    raster.len() as int,
                    r,
                    g,
                    b,
                ),
                None => before,
            }
        }
    }
}

/// With at least one byte per pixel, the byte offset of a pixel is at least
/// its index and at least the index at which its line starts.
pub proof fn lemma_offset_grows(info: FrameBufferInfo, x: int, y: int)
    requires
        0 <= x,
        0 <= y,
        info.bytes_per_pixel >= 1,
    ensures
        0 <= y * info.stride <= y * info.stride + x <= byte_offset(info, x, y),
{
    let stride = info.stride as int;
    let bpp = info.bytes_per_pixel as int;
    assert(0 <= y * stride) by (nonlinear_arith)
        requires
            0 <= y,
            0 <= stride,
    ;
    let index = y * stride + x;
    assert(index <= index * bpp) by (nonlinear_arith)
        requires
            0 <= index,
            1 <= bpp,
    ;
}

/// The bytes of the visible lines do not decrease when a factor grows.
pub proof fn lemma_visible_bytes(info: FrameBufferInfo)
    ensures
        info.bytes_per_pixel >= 1 ==> info.stride * info.height <= info.stride * info.height
            * info.bytes_per_pixel,
{
    let pixels = info.stride * info.height;
    let bpp = info.bytes_per_pixel as int;
    assert(0 <= pixels) by (nonlinear_arith)
        requires
            pixels == info.stride * info.height,
    ;
    if bpp >= 1 {
        assert(pixels <= pixels * bpp) by (nonlinear_arith)
            requires
                0 <= pixels,
                1 <= bpp,
        ;
    }
}

/// Drawing a pixel changes no byte but those of the pixel, which lie inside
/// the buffer, and changes nothing at all where the surface does not accept
/// the pixel; the buffer keeps its size.
pub proof fn lemma_pixel_write_is_confined(s: Surface, x: int, y: int, r: u8, g: u8, b: u8)
    ensures
        s.with_pixel(x, y, r, g, b).same_geometry(s),
        s.with_pixel(x, y, r, g, b).x_pos == s.x_pos,
        s.with_pixel(x, y, r, g, b).y_pos == s.y_pos,
        !s.accepts_pixel(x, y) ==> s.with_pixel(x, y, r, g, b) == s,
        s.accepts_pixel(x, y) ==> 0 <= byte_offset(s.info, x, y) && byte_offset(s.info, x, y)
            + s.info.bytes_per_pixel <= s.pixels.len(),
        forall|k: int|
            0 <= k < s.pixels.len() && !(byte_offset(s.info, x, y) <= k < byte_offset(s.info, x, y)
                + s.info.bytes_per_pixel) ==> s.with_pixel(x, y, r, g, b).pixels[k] == s.pixels[k],
        forall|k: int|
            s.accepts_pixel(x, y) && 0 <= k < s.info.bytes_per_pixel ==> s.with_pixel(
                x,
                y,
                r,
                g,
                b,
            ).pixels[byte_offset(s.info, x, y) + k] == channel_bytes(
                s.info.pixel_format,
                r,
                g,
                b,
            )[k],
{
    if s.accepts_pixel(x, y) {
        let index = y * s.info.stride + x;
        let bpp = s.info.bytes_per_pixel as int;
        assert(0 <= y * s.info.stride) by (nonlinear_arith)
            requires
                0 <= y,
                0 <= s.info.stride,
        ;
        assert(0 <= index * bpp) by (nonlinear_arith)
            requires
                0 <= index,
                0 <= bpp,
        ;
    }
}

/// On a surface that supports text every visible pixel can be written.
pub proof fn lemma_visible_takes_text(s: Surface, x: int, y: int)
    requires
        s.supports_text(),
        0 <= x < s.info.width,
        0 <= y < s.info.height,
    ensures
        s.takes_text_pixel(x, y),
{
    let stride = s.info.stride as int;
    let height = s.info.height as int;
    let bpp = s.info.bytes_per_pixel as int;
    assert((y * stride + x) * bpp + bpp <= stride * height * bpp) by (nonlinear_arith)
        requires
            0 <= x < stride,
            0 <= y < height,
            1 <= bpp,
    ;
}

/// A row at or below the bottom edge leaves the surface as it is.
pub proof fn lemma_row_below_screen(s: Surface, x: int, y: int, n: int, r: u8, g: u8, b: u8)
    requires
        y >= s.info.height,
    ensures
        s.with_row(x, y, n, r, g, b) == s,
    decreases n,
{
    if n > 0 {
        lemma_row_below_screen(s, x, y, n - 1, r, g, b);
    }
}

/// A row that starts at or right of the right edge leaves the surface as it
/// is.
pub proof fn lemma_row_right_of_screen(s: Surface, x: int, y: int, n: int, r: u8, g: u8, b: u8)
    requires
        x >= s.info.width,
    ensures
        s.with_row(x, y, n, r, g, b) == s,
    decreases n,
{
    if n > 0 {
        lemma_row_right_of_screen(s, x, y, n - 1, r, g, b);
    }
}

/// A rectangle whose corner is at or past the right or the bottom edge
/// leaves the surface as it is.
pub proof fn lemma_rect_off_screen(
    s: Surface,
    x: int,
    y: int,
    w: int,
    h: int,
    r: u8,
    g: u8,
    b: u8,
)
    requires
        x >= s.info.width || y >= s.info.height,
    ensures
        s.with_rect(x, y, w, h, r, g, b) == s,
    decreases h,
{
    if h > 0 {
        lemma_rect_off_screen(s, x, y, w, h - 1, r, g, b);
        if x >= s.info.width {
            lemma_row_right_of_screen(s, x, y + h - 1, w, r, g, b);
        } else {
            lemma_row_below_screen(s, x, y + h - 1, w, r, g, b);
        }
    }
}

/// An enlarged glyph row that starts at or past the right or the bottom
/// edge leaves the surface as it is.
pub proof fn lemma_large_row_off_screen(
    s: Surface,
    row: Seq<u8>,
    x: int,
    y: int,
    n: int,
    r: u8,
    g: u8,
    b: u8,
)
    requires
        x >= s.info.width || y >= s.info.height,
    ensures
        s.with_large_row(row, x, y, n, r, g, b) == s,
    decreases n,
{
    if n > 0 {
        lemma_large_row_off_screen(s, row, x, y, n - 1, r, g, b);
        lemma_rect_off_screen(
            s,
            x + LARGE_SCALE * (n - 1),
            y,
            LARGE_SCALE as int,
            LARGE_SCALE as int,
            r,
            g,
            b,
        );
    }
}

/// An enlarged glyph whose corner is at or past the right or the bottom
/// edge leaves the surface as it is.
pub proof fn lemma_large_rows_off_screen(
    s: Surface,
    raster: Seq<Seq<u8>>,
    x: int,
    y: int,
    n: int,
    r: u8,
    g: u8,
    b: u8,
)
    requires
        x >= s.info.width || y >= s.info.height,
    ensures
        s.with_large_rows(raster, x, y, n, r, g, b) == s,
    decreases n,
{
    if n > 0 {
        lemma_large_rows_off_screen(s, raster, x, y, n - 1, r, g, b);
        lemma_large_row_off_screen(
            s,
            raster[n - 1],
            x,
            y + LARGE_SCALE * (n - 1),
            raster[n - 1].len() as int,
            r,
            g,
            b,
        );
    }
}

/// The dashed line keeps the geometry of the surface.
pub proof fn lemma_dashes_keep_info(s: Surface, x: int, n: int)
    ensures
        s.with_dashed_column(x, n).info == s.info,
    decreases n,
{
    if n > 0 {
        lemma_dashes_keep_info(s, x, n - 1);
    }
}

/// Lines at or below the bottom edge add nothing to the dashed line.
pub proof fn lemma_dashes_below_screen(s: Surface, x: int, n: int)
    requires
        n >= s.info.height,
    ensures
        s.with_dashed_column(x, n) == s.with_dashed_column(x, s.info.height as int),
    decreases n,
{
    if n > s.info.height {
        lemma_dashes_below_screen(s, x, n - 1);
        lemma_dashes_keep_info(s, x, n - 1);
    }
}

/// The lines between one dash and the next add nothing to the dashed line.
pub proof fn lemma_dash_gap(s: Surface, x: int, start: int, n: int)
    requires
        0 <= start,
        start % (DASH_PERIOD as int) == 0,
        start + DASH_LENGTH <= n <= start + DASH_PERIOD,
    ensures
        s.with_dashed_column(x, n) == s.with_dashed_column(x, start + DASH_LENGTH),
    decreases n,
{
    if n > start + DASH_LENGTH {
        lemma_dash_gap(s, x, start, n - 1);
    }
}

/// On a regular surface the bytes of a visible pixel lie inside the buffer.
pub proof fn lemma_visible_pixel_in_buffer(s: Surface, x: int, y: int)
    requires
        s.regular(),
        s.visible(x, y),
    ensures
        0 <= byte_offset(s.info, x, y),
        byte_offset(s.info, x, y) + s.info.bytes_per_pixel <= s.pixels.len(),
        s.accepts_pixel(x, y),
{
    let stride = s.info.stride as int;
    let height = s.info.height as int;
    let bpp = s.info.bytes_per_pixel as int;
    assert(0 <= (y * stride + x) * bpp && (y * stride + x) * bpp + bpp <= stride * height * bpp)
        by (nonlinear_arith)
        requires
            0 <= x < stride,
            0 <= y < height,
            1 <= bpp,
    ;
}

/// Two different pixels of a line no longer than the stride share no byte.
pub proof fn lemma_pixels_apart(info: FrameBufferInfo, x: int, y: int, px: int, py: int)
    requires
        0 <= x < info.stride,
        0 <= px < info.stride,
        0 <= y,
        0 <= py,
        x != px || y != py,
        info.bytes_per_pixel >= 1,
    ensures
        byte_offset(info, x, y) + info.bytes_per_pixel <= byte_offset(info, px, py) || byte_offset(
            info,
            px,
            py,
        ) + info.bytes_per_pixel <= byte_offset(info, x, y),
{
    let stride = info.stride as int;
    let bpp = info.bytes_per_pixel as int;
    let p = py * stride + px;
    let q = y * stride + x;
    assert(p != q) by (nonlinear_arith)
        requires
            p == py * stride + px,
            q == y * stride + x,
            0 <= x < stride,
            0 <= px < stride,
            x != px || y != py,
    ;
    assert(p < q ==> (p + 1) * bpp <= q * bpp) by (nonlinear_arith)
        requires
            1 <= bpp,
    ;
    assert(q < p ==> (q + 1) * bpp <= p * bpp) by (nonlinear_arith)
        requires
            1 <= bpp,
    ;
    assert((p + 1) * bpp == p * bpp + bpp && (q + 1) * bpp == q * bpp + bpp) by (nonlinear_arith);
}

/// On a regular surface drawing a pixel gives that pixel its colour and
/// leaves every other visible pixel as it was.
pub proof fn lemma_pixel_is_set(s: Surface, x: int, y: int, r: u8, g: u8, b: u8, px: int, py: int)
    requires
        s.regular(),
        s.visible(px, py),
    ensures
        s.with_pixel(x, y, r, g, b).regular(),
        s.with_pixel(x, y, r, g, b).pixel_at(px, py) == if px == x && py == y {
            s.shown(r, g, b)
        } else {
            s.pixel_at(px, py)
        },
{
    let after = s.with_pixel(x, y, r, g, b);
    lemma_visible_pixel_in_buffer(s, px, py);
    if s.visible(x, y) {
        lemma_visible_pixel_in_buffer(s, x, y);
        if px != x || py != y {
            lemma_pixels_apart(s.info, x, y, px, py);
        }
    }
    assert(after.pixel_at(px, py) =~= if px == x && py == y {
        s.shown(r, g, b)
    } else {
        s.pixel_at(px, py)
    });
}

/// On a regular surface a row gives its colour to the visible pixels from
/// `(x, y)` up to `(x + n, y)` and leaves every other visible pixel as it
/// was.
pub proof fn lemma_row_is_filled(
    s: Surface,
    x: int,
    y: int,
    n: int,
    r: u8,
    g: u8,
    b: u8,
    px: int,
    py: int,
)
    requires
        s.regular(),
        s.visible(px, py),
    ensures
        s.with_row(x, y, n, r, g, b).regular(),
        s.with_row(x, y, n, r, g, b).same_geometry(s),
        s.with_row(x, y, n, r, g, b).pixel_at(px, py) == if py == y && x <= px < x + n {
            s.shown(r, g, b)
        } else {
            s.pixel_at(px, py)
        },
    decreases n,
{
    if n > 0 {
        lemma_row_is_filled(s, x, y, n - 1, r, g, b, px, py);
        lemma_pixel_is_set(s.with_row(x, y, n - 1, r, g, b), x + n - 1, y, r, g, b, px, py);
    }
}

/// On a regular surface a rectangle is filled: the visible pixels inside it
/// have its colour, and every other visible pixel is as it was.
pub proof fn lemma_rect_is_filled(
    s: Surface,
    x: int,
    y: int,
    w: int,
    h: int,
    r: u8,
    g: u8,
    b: u8,
    px: int,
    py: int,
)
    requires
        s.regular(),
        s.visible(px, py),
    ensures
        s.with_rect(x, y, w, h, r, g, b).regular(),
        s.with_rect(x, y, w, h, r, g, b).same_geometry(s),
        s.with_rect(x, y, w, h, r, g, b).pixel_at(px, py) == if x <= px < x + w && y <= py < y
            + h {
            s.shown(r, g, b)
        } else {
            s.pixel_at(px, py)
        },
    decreases h,
{
    if h > 0 {
        lemma_rect_is_filled(s, x, y, w, h - 1, r, g, b, px, py);
        lemma_row_is_filled(s.with_rect(x, y, w, h - 1, r, g, b), x, y + h - 1, w, r, g, b, px, py);
    }
}

/// On a regular surface the centre line is dashed: in the middle column the
/// first `DASH_LENGTH` lines of every `DASH_PERIOD` have the shade of the
/// line, and every other visible pixel is as it was.
pub proof fn lemma_center_line_is_dashed(s: Surface, px: int, py: int)
    requires
        s.regular(),
        s.visible(px, py),
    ensures
        s.with_center_line().same_geometry(s),
        s.with_center_line().pixel_at(px, py) == if px == s.mid_x() && py % (DASH_PERIOD as int)
            < DASH_LENGTH {
            s.shown(LINE_SHADE, LINE_SHADE, LINE_SHADE)
        } else {
            s.pixel_at(px, py)
        },
{
    lemma_dashed_column_is_dashed(s, s.mid_x(), s.info.height as int, px, py);
}

/// On a regular surface the lines `0..n` of a dashed column have the shade
/// of the line where a dash falls, and every other visible pixel is as it
/// was.
pub proof fn lemma_dashed_column_is_dashed(s: Surface, x: int, n: int, px: int, py: int)
    requires
        s.regular(),
        s.visible(px, py),
    ensures
        s.with_dashed_column(x, n).regular(),
        s.with_dashed_column(x, n).same_geometry(s),
        s.with_dashed_column(x, n).pixel_at(px, py) == if px == x && py < n && py % (
        DASH_PERIOD as int) < DASH_LENGTH {
            s.shown(LINE_SHADE, LINE_SHADE, LINE_SHADE)
        } else {
            s.pixel_at(px, py)
        },
    decreases n,
{
    if n > 0 {
        lemma_dashed_column_is_dashed(s, x, n - 1, px, py);
        lemma_pixel_is_set(
            s.with_dashed_column(x, n - 1),
            x,
            n - 1,
            LINE_SHADE,
            LINE_SHADE,
            LINE_SHADE,
            px,
            py,
        );
    }
}

/// On a regular surface writing a glyph pixel on the screen gives that
/// pixel the tint of its intensity and leaves every other visible pixel as
/// it was.
pub proof fn lemma_text_pixel_is_set(s: Surface, x: int, y: int, intensity: u8, px: int, py: int)
    requires
        s.regular(),
        s.visible(x, y),
        s.visible(px, py),
    ensures
        s.takes_text_pixel(x, y),
        s.with_text_pixel(x, y, intensity).same_geometry(s),
        s.with_text_pixel(x, y, intensity).pixel_at(px, py) == if px == x && py == y {
            s.shown_glyph(intensity)
        } else {
            s.pixel_at(px, py)
        },
{
    let after = s.with_text_pixel(x, y, intensity);
    lemma_visible_pixel_in_buffer(s, px, py);
    lemma_visible_pixel_in_buffer(s, x, y);
    if px != x || py != y {
        lemma_pixels_apart(s.info, x, y, px, py);
    }
    assert(after.pixel_at(px, py) =~= if px == x && py == y {
        s.shown_glyph(intensity)
    } else {
        s.pixel_at(px, py)
    });
}

/// On a regular surface a glyph row that lies on the screen gives every
/// pixel it covers the tint of its intensity and leaves every other visible
/// pixel as it was.
pub proof fn lemma_glyph_row_is_drawn(
    s: Surface,
    row: Seq<u8>,
    x: int,
    y: int,
    n: int,
    px: int,
    py: int,
)
    requires
        s.regular(),
        s.visible(px, py),
        0 <= x,
        x + n <= s.info.width,
        0 <= y < s.info.height,
        n <= row.len(),
    ensures
        s.with_glyph_row(row, x, y, n).same_geometry(s),
        s.with_glyph_row(row, x, y, n).pixel_at(px, py) == if py == y && x <= px < x + n {
            s.shown_glyph(row[px - x])
        } else {
            s.pixel_at(px, py)
        },
    decreases n,
{
    if n > 0 {
        lemma_glyph_row_is_drawn(s, row, x, y, n - 1, px, py);
        lemma_text_pixel_is_set(s.with_glyph_row(row, x, y, n - 1), x + n - 1, y, row[n - 1], px, py);
    }
}

/// On a regular surface a raster that lies on the screen is drawn as it
/// is: every pixel it covers has the tint of its intensity, and every other
/// visible pixel is as it was.
pub proof fn lemma_glyph_is_drawn(
    s: Surface,
    raster: Seq<Seq<u8>>,
    x: int,
    y: int,
    n: int,
    px: int,
    py: int,
)
    requires
        s.regular(),
        s.visible(px, py),
        0 <= x,
        0 <= y,
        y + n <= s.info.height,
        n <= raster.len(),
        forall|i: int| 0 <= i < n ==> x + (#[trigger] raster[i]).len() <= s.info.width,
    ensures
        s.with_glyph_rows(raster, x, y, n).same_geometry(s),
        s.with_glyph_rows(raster, x, y, n).pixel_at(px, py) == if y <= py < y + n && x <= px < x
            + raster[py - y].len() {
            s.shown_glyph(raster[py - y][px - x])
        } else {
            s.pixel_at(px, py)
        },
    decreases n,
{
    if n > 0 {
        lemma_glyph_is_drawn(s, raster, x, y, n - 1, px, py);
        lemma_glyph_row_is_drawn(
            s.with_glyph_rows(raster, x, y, n - 1),
            raster[n - 1],
            x,
            y + n - 1,
            raster[n - 1].len() as int,
            px,
            py,
        );
    }
}

/// On a regular surface an enlarged glyph row colours, on the lines `y` and
/// `y + 1`, the two columns of every glyph pixel that is bright enough, and
/// leaves every other visible pixel as it was.
pub proof fn lemma_large_row_is_drawn(
    s: Surface,
    row: Seq<u8>,
    x: int,
    y: int,
    n: int,
    r: u8,
    g: u8,
    b: u8,
    px: int,
    py: int,
)
    requires
        s.regular(),
        s.visible(px, py),
        n <= row.len(),
    ensures
        s.with_large_row(row, x, y, n, r, g, b).regular(),
        s.with_large_row(row, x, y, n, r, g, b).same_geometry(s),
        s.with_large_row(row, x, y, n, r, g, b).pixel_at(px, py) == if y <= py < y + LARGE_SCALE
            && x <= px < x + LARGE_SCALE * n && row[(px - x) / (LARGE_SCALE as int)]
            >= LARGE_THRESHOLD {
            s.shown(r, g, b)
        } else {
            s.pixel_at(px, py)
        },
    decreases n,
{
    if n > 0 {
        lemma_large_row_is_drawn(s, row, x, y, n - 1, r, g, b, px, py);
        let before = s.with_large_row(row, x, y, n - 1, r, g, b);
        if row[n - 1] >= LARGE_THRESHOLD {
            lemma_rect_is_filled(
                before,
                x + LARGE_SCALE * (n - 1),
                y,
                LARGE_SCALE as int,
                LARGE_SCALE as int,
                r,
                g,
                b,
                px,
                py,
            );
        }
    }
}

/// On a regular surface an enlarged raster colours a square of side
/// `LARGE_SCALE` for every glyph pixel that is bright enough, and leaves
/// every other visible pixel as it was.
pub proof fn lemma_large_glyph_is_drawn(
    s: Surface,
    raster: Seq<Seq<u8>>,
    x: int,
    y: int,
    n: int,
    r: u8,
    g: u8,
    b: u8,
    px: int,
    py: int,
)
    requires
        s.regular(),
        s.visible(px, py),
        n <= raster.len(),
    ensures
        s.with_large_rows(raster, x, y, n, r, g, b).regular(),
        s.with_large_rows(raster, x, y, n, r, g, b).same_geometry(s),
        s.with_large_rows(raster, x, y, n, r, g, b).pixel_at(px, py) == if y <= py < y
            + LARGE_SCALE * n && x <= px < x + LARGE_SCALE * raster[(py - y) / (
        LARGE_SCALE as int)].len() && raster[(py - y) / (LARGE_SCALE as int)][(px - x) / (
        LARGE_SCALE as int)] >= LARGE_THRESHOLD {
            s.shown(r, g, b)
        } else {
            s.pixel_at(px, py)
        },
    decreases n,
{
    if n > 0 {
        lemma_large_glyph_is_drawn(s, raster, x, y, n - 1, r, g, b, px, py);
        lemma_large_row_is_drawn(
            s.with_large_rows(raster, x, y, n - 1, r, g, b),
            raster[n - 1],
            x,
            y + LARGE_SCALE * (n - 1),
            raster[n - 1].len() as int,
            r,
            g,
            b,
            px,
            py,
        );
    }
}

} // verus!
