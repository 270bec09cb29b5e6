//! The framebuffer surface: fail-soft pixel drawing, the shapes of the
//! game, and bitmap-font text with a cursor.

use crate::font::{get_raster, Glyph, GLYPH_HEIGHT, GLYPH_WIDTH};
use crate::surface::{
    decimal, digit_char, lemma_dash_gap, lemma_dashes_below_screen, lemma_large_row_off_screen,
    lemma_large_rows_off_screen, lemma_offset_grows, lemma_rect_off_screen,
    lemma_row_below_screen, lemma_visible_bytes, lemma_visible_takes_text, store, Surface,
};
use vstd::prelude::*;

verus! {

/// Channel order of a pixel in the buffer.
#[derive(Clone, Copy, Debug, PartialEq, Eq)]
pub enum PixelFormat {
    /// One byte red, then green, then blue.
    Rgb,
    /// One byte blue, then green, then red.
    Bgr,
    /// Any layout the rasteriser does not know.
    Other,
}

/// Geometry of the framebuffer.
#[derive(Clone, Copy, Debug, PartialEq, Eq)]
pub struct FrameBufferInfo {
    /// Visible pixels per line.
    pub width: usize,
    /// Visible lines.
    pub height: usize,
    /// Channel order of each pixel.
    pub pixel_format: PixelFormat,
    /// Bytes each pixel occupies.
    pub bytes_per_pixel: usize,
    /// Pixels from the start of one line to the start of the next.
    pub stride: usize,
}

/// Width of a paddle in pixels.
pub const PADDLE_WIDTH: usize = 15;

/// Height of a paddle in pixels.
pub const PADDLE_HEIGHT: usize = 100;

/// Side of the square ball in pixels.
pub const BALL_SIZE: usize = 12;

/// Pixels in a dash of the centre line.
pub const DASH_LENGTH: usize = 10;

/// Pixels from the start of one dash of the centre line to the next.
pub const DASH_PERIOD: usize = 20;

/// Brightness of every channel of the centre line.
pub const LINE_SHADE: u8 = 200;

/// Line on which the scores are written.
pub const SCORE_Y: usize = 20;

/// Pixels from the middle of the screen left to the first player's score.
pub const SCORE_LEFT: usize = 40;

/// Pixels from the middle of the screen right to the second player's score.
pub const SCORE_RIGHT: usize = 20;

/// Side of the square of screen pixels that shows one glyph pixel of large
/// text.
pub const LARGE_SCALE: usize = 2;

/// Least intensity at which a glyph pixel of large text is drawn.
pub const LARGE_THRESHOLD: u8 = 128;

/// Additional vertical space between lines of text.
pub const LINE_SPACING: usize = 0;

/// The framebuffer, borrowed for as long as it is drawn on, with its
/// geometry and a text cursor.
pub struct ScreenWriter<'a> {
    framebuffer: &'a mut [u8],
    info: FrameBufferInfo,
    x_pos: usize,
    y_pos: usize,
}

impl<'a> View for ScreenWriter<'a> {
    type V = Surface;

    closed spec fn view(&self) -> Surface {
        Surface {
            pixels: self.framebuffer@,
            info: self.info,
            x_pos: self.x_pos,
            y_pos: self.y_pos,
        }
    }
}

/// `base + step * k`, or `None` when that is no `usize`.
fn stepped(base: usize, step: usize, k: usize) -> (at: Option<usize>)
    ensures
        at matches Some(v) ==> v == base + step * k,
        at is None ==> base + step * k > usize::MAX,
{
    proof {
        assert(0 <= step * k) by (nonlinear_arith)
            requires
                0 <= step,
                0 <= k,
        ;
    }
    match step.checked_mul(k) {
        Some(way) => base.checked_add(way),
        None => None,
    }
}

impl<'a> ScreenWriter<'a> {
    /// Takes over `framebuffer` and clears it to black.
    pub fn new(framebuffer: &'a mut [u8], info: FrameBufferInfo) -> (writer: Self)
        ensures
            writer@ == (Surface { pixels: old(framebuffer)@, info, x_pos: 0, y_pos: 0 }).cleared(),
    {
        let mut writer = Self { framebuffer, info, x_pos: 0, y_pos: 0 };
        writer.clear();
        writer
    }

    /// Erases the screen and puts the cursor back at the origin.
    pub fn clear(&mut self)
        ensures
            final(self)@ == old(self)@.cleared(),
            final(self)@.same_geometry(old(self)@),
    {
        self.x_pos = 0;
        self.y_pos = 0;
        let len: usize = self.framebuffer.len();
        let mut i: usize = 0;
        while i < len
            invariant
                i <= len,
                len == self.framebuffer@.len(),
                len == old(self).framebuffer@.len(),
                self.info == old(self).info,
                self.x_pos == 0,
                self.y_pos == 0,
                forall|k: int| 0 <= k < i ==> self.framebuffer@[k] == 0,
            decreases len - i,
        {
            self.framebuffer[i] = 0;
            i += 1;
        }
        assert(self.framebuffer@ =~= old(self)@.cleared().pixels);
    }

    /// Gives the framebuffer back as it was last drawn.
    pub fn into_buffer(self) -> (framebuffer: &'a mut [u8])
        ensures
            framebuffer@ == self@.pixels,
    {
        self.framebuffer
    }

    /// The bytes of the buffer.
    pub fn buffer(&self) -> (bytes: &[u8])
        ensures
            bytes@ == self@.pixels,
    {
        &*self.framebuffer
    }

    /// The geometry of the buffer.
    pub fn info(&self) -> (info: FrameBufferInfo)
        ensures
            info == self@.info,
    {
        self.info
    }

    /// Column and line of the text cursor.
    pub fn cursor(&self) -> (at: (usize, usize))
        ensures
            at == (self@.x_pos, self@.y_pos),
    {
        (self.x_pos, self.y_pos)
    }

    /// Visible pixels per line.
    pub fn width(&self) -> (w: usize)
        ensures
            w == self@.info.width,
    {
        self.info.width
    }

    /// Visible lines.
    pub fn height(&self) -> (h: usize)
        ensures
            h == self@.info.height,
    {
        self.info.height
    }

    /// Stores the first `n` bytes of `color` from byte `at` on.
    fn store_bytes(&mut self, at: usize, color: [u8; 4], n: usize)
        requires
            n <= 4,
            at + n <= old(self).framebuffer@.len(),
        ensures
            final(self)@ == (Surface {
                pixels: store(old(self)@.pixels, at as int, color@, n as int),
                ..old(self)@
            }),
    {
        let len: usize = self.framebuffer.len();
        let mut k: usize = 0;
        while k < n
            invariant
                k <= n <= 4,
                at + n <= self.framebuffer@.len() == len,
                self.info == old(self).info,
                self.x_pos == old(self).x_pos,
                self.y_pos == old(self).y_pos,
                self.framebuffer@ == store(old(self).framebuffer@, at as int, color@, k as int),
            decreases n - k,
        {
            self.framebuffer[at + k] = color[k];
            k += 1;
        }
    }

    /// Draws colour `(r, g, b)` at `(x, y)`. A coordinate off the screen, a
    /// pixel whose bytes would not lie inside the buffer and an unknown
    /// channel order are skipped without a trace.
    pub fn draw_pixel(&mut self, x: usize, y: usize, r: u8, g: u8, b: u8)
        ensures
            final(self)@ == old(self)@.with_pixel(x as int, y as int, r, g, b),
            final(self)@.same_geometry(old(self)@),
    {
        if x >= self.info.width || y >= self.info.height {
            return ;
        }
        let len: usize = self.framebuffer.len();
        let bytes_per_pixel: usize = self.info.bytes_per_pixel;
        if bytes_per_pixel > 4 {
            return ;
        }
        let color: [u8; 4] = match self.info.pixel_format {
            PixelFormat::Rgb => [r, g, b, 0],
            PixelFormat::Bgr => [b, g, r, 0],
            PixelFormat::Other => {
                return ;
            },
        };
        if bytes_per_pixel == 0 {
            assert(self@.with_pixel(x as int, y as int, r, g, b).pixels =~= self@.pixels);
            return ;
        }
        proof {
            lemma_offset_grows(self.info, x as int, y as int);
        }
        let row_start: usize = match y.checked_mul(self.info.stride) {
            Some(offset) => offset,
            None => {
                return ;
            },
        };
        let pixel_offset: usize = match row_start.checked_add(x) {
            Some(offset) => offset,
            None => {
                return ;
            },
        };
        let offset: usize = match pixel_offset.checked_mul(bytes_per_pixel) {
            Some(offset) => offset,
            None => {
                return ;
            },
        };
        let end: usize = match offset.checked_add(bytes_per_pixel) {
            Some(end) => end,
            None => {
                return ;
            },
        };
        if end > len {
            return ;
        }
        self.store_bytes(offset, color, bytes_per_pixel);
    }

    /// Draws `w` pixels from `(x, y)` rightwards.
    fn fill_row(&mut self, x: usize, y: usize, w: usize, r: u8, g: u8, b: u8)
        ensures
            final(self)@ == old(self)@.with_row(x as int, y as int, w as int, r, g, b),
            final(self)@.same_geometry(old(self)@),
    {
        let mut dx: usize = 0;
        while dx < w
            invariant
                dx <= w,
                self@ == old(self)@.with_row(x as int, y as int, dx as int, r, g, b),
                self@.same_geometry(old(self)@),
            decreases w - dx,
        {
            match x.checked_add(dx) {
                Some(px) => {
                    self.draw_pixel(px, y, r, g, b);
                },
                None => {},
            }
            dx += 1;
        }
    }

    /// Draws a filled rectangle of `w` by `h` pixels with its top-left
    /// corner at `(x, y)`.
    fn fill_rect(&mut self, x: usize, y: usize, w: usize, h: usize, r: u8, g: u8, b: u8)
        ensures
            final(self)@ == old(self)@.with_rect(x as int, y as int, w as int, h as int, r, g, b),
            final(self)@.same_geometry(old(self)@),
    {
        let mut dy: usize = 0;
        while dy < h
            invariant
                dy <= h,
                self@ == old(self)@.with_rect(x as int, y as int, w as int, dy as int, r, g, b),
                self@.same_geometry(old(self)@),
            decreases h - dy,
        {
            match y.checked_add(dy) {
                Some(py) => {
                    self.fill_row(x, py, w, r, g, b);
                },
                None => {
                    proof {
                        lemma_row_below_screen(self@, x as int, y + dy, w as int, r, g, b);
                    }
                },
            }
            dy += 1;
        }
    }

    /// Whether text can be drawn on this surface.
    pub fn can_write_text(&self) -> (ready: bool)
        ensures
            ready == self@.supports_text(),
    {
        let known: bool = match self.info.pixel_format {
            PixelFormat::Rgb => true,
            PixelFormat::Bgr => true,
            PixelFormat::Other => false,
        };
        if !known || self.info.bytes_per_pixel < 1 || self.info.bytes_per_pixel > 4 {
            return false;
        }
        if self.info.width < GLYPH_WIDTH || self.info.width > self.info.stride
            || self.info.height < GLYPH_HEIGHT {
            return false;
        }
        let len: usize = self.framebuffer.len();
        proof {
            lemma_visible_bytes(self.info);
        }
        let pixels: usize = match self.info.stride.checked_mul(self.info.height) {
            Some(pixels) => pixels,
            None => {
                return false;
            },
        };
        match pixels.checked_mul(self.info.bytes_per_pixel) {
            Some(bytes) => bytes <= len,
            None => false,
        }
    }

    /// Moves the cursor to the start of the next line.
    pub fn newline(&mut self)
        ensures
            final(self)@ == old(self)@.newline(),
    {
        self.y_pos = self.y_pos.saturating_add(GLYPH_HEIGHT + LINE_SPACING);
        self.carriage_return()
    }

    /// Moves the cursor to the start of its line.
    pub fn carriage_return(&mut self)
        ensures
            final(self)@ == old(self)@.carriage_return(),
    {
        self.x_pos = 0;
    }

    /// Writes one glyph pixel of the given intensity at `(x, y)`.
    pub fn write_pixel(&mut self, x: usize, y: usize, intensity: u8)
        requires
            old(self)@.takes_text_pixel(x as int, y as int),
        ensures
            final(self)@ == old(self)@.with_text_pixel(x as int, y as int, intensity),
    {
        let len: usize = self.framebuffer.len();
        proof {
            lemma_offset_grows(self.info, x as int, y as int);
        }
        let pixel_offset: usize = y * self.info.stride + x;
        let color: [u8; 4] = match self.info.pixel_format {
            PixelFormat::Rgb => [intensity / 4, intensity, intensity / 2, 0],
            PixelFormat::Bgr => [intensity / 2, intensity, intensity / 4, 0],
            PixelFormat::Other => [0, 0, 0, 0],
        };
        let bytes_per_pixel: usize = self.info.bytes_per_pixel;
        let offset: usize = pixel_offset * bytes_per_pixel;
        self.store_bytes(offset, color, bytes_per_pixel);
    }

    /// Writes `rendered_char` at the cursor and moves the cursor past it.
    pub fn write_rendered_char(&mut self, rendered_char: Glyph)
        requires
            old(self)@.supports_text(),
            rendered_char.wf(),
            old(self)@.x_pos + rendered_char.width <= old(self)@.info.width,
            old(self)@.y_pos + rendered_char.height <= old(self)@.info.height,
        ensures
            final(self)@ == old(self)@.with_glyph(rendered_char@, rendered_char.width as int),
            final(self)@.same_geometry(old(self)@),
    {
        let rows: usize = rendered_char.raster.len();
        let mut y: usize = 0;
        while y < rows
            invariant
                y <= rows == rendered_char@.len(),
                rendered_char.wf(),
                old(self)@.supports_text(),
                old(self)@.x_pos + rendered_char.width <= old(self)@.info.width,
                old(self)@.y_pos + rendered_char.height <= old(self)@.info.height,
                self@ == old(self)@.with_glyph_rows(
                    rendered_char@,
                    old(self)@.x_pos as int,
                    old(self)@.y_pos as int,
                    y as int,
                ),
                self@.info == old(self)@.info,
                self@.pixels.len() == old(self)@.pixels.len(),
                self@.x_pos == old(self)@.x_pos,
                self@.y_pos == old(self)@.y_pos,
            decreases rows - y,
        {
            let row: &[u8] = rendered_char.raster[y];
            let cols: usize = row.len();
            let ghost before = self@;
            assert(row@ == rendered_char@[y as int]);
            let mut x: usize = 0;
            while x < cols
                invariant
                    x <= cols == row@.len() == rendered_char.width,
                    y < rows == rendered_char.height,
                    before.supports_text(),
                    before.x_pos + rendered_char.width <= before.info.width,
                    before.y_pos + rendered_char.height <= before.info.height,
                    self@ == before.with_glyph_row(
                        row@,
                        before.x_pos as int,
                        before.y_pos + y,
                        x as int,
                    ),
                    self@.info == before.info,
                    self@.pixels.len() == before.pixels.len(),
                    self@.x_pos == before.x_pos,
                    self@.y_pos == before.y_pos,
                decreases cols - x,
            {
                proof {
                    lemma_visible_takes_text(self@, self.x_pos + x, self.y_pos + y);
                }
                self.write_pixel(self.x_pos + x, self.y_pos + y, row[x]);
                x += 1;
            }
            y += 1;
        }
        self.x_pos += rendered_char.width;
    }

    /// Places `glyph` at the cursor, on the next line when it would pass the
    /// right edge, on a cleared screen when it would then pass the bottom.
    pub fn write_glyph(&mut self, glyph: Glyph)
        requires
            old(self)@.supports_text(),
            glyph.wf(),
            glyph.width <= old(self)@.info.width,
            glyph.height <= old(self)@.info.height,
        ensures
            final(self)@ == old(self)@.with_placed_glyph(
                glyph@,
                glyph.width as int,
                glyph.height as int,
            ),
            final(self)@.same_geometry(old(self)@),
    {
        let past_right: bool = match self.x_pos.checked_add(glyph.width) {
            Some(right) => right > self.info.width,
            None => true,
        };
        if past_right {
            self.newline();
        }
        let past_bottom: bool = match self.y_pos.checked_add(glyph.height) {
            Some(bottom) => bottom > self.info.height,
            None => true,
        };
        if past_bottom {
            self.clear();
        }
        self.write_rendered_char(glyph);
    }

    /// Writes `c` at the cursor.
    pub fn write_char(&mut self, c: char)
        requires
            old(self)@.supports_text(),
        ensures
            final(self)@ == old(self)@.with_char(c),
            final(self)@.same_geometry(old(self)@),
    {
        match c {
            '\n' => self.newline(),
            '\r' => self.carriage_return(),
            c => {
                match get_raster(c) {
                    Some(bitmap_char) => {
                        self.write_glyph(bitmap_char);
                    },
                    None => {},
                }
            },
        }
    }

    /// Writes the characters of `s` in order.
    pub fn write_str(&mut self, s: &str)
        requires
            old(self)@.supports_text(),
        ensures
            final(self)@ == old(self)@.with_text(s@),
            final(self)@.same_geometry(old(self)@),
    {
        for c in it: s.chars()
            invariant
                it.seq() == s@,
                self@ == old(self)@.with_text(s@.take(it.index() as int)),
                old(self)@.supports_text(),
                self@.same_geometry(old(self)@),
        {
            assert(s@.take(it.index() + 1).drop_last() =~= s@.take(it.index() as int));
            self.write_char(c);
        }
        assert(s@.take(s@.len() as int) =~= s@);
    }

    /// Writes `num` in decimal at the cursor.
    fn write_digits(&mut self, num: usize)
        requires
            old(self)@.supports_text(),
        ensures
            final(self)@ == old(self)@.with_text(decimal(num as nat)),
            final(self)@.same_geometry(old(self)@),
        decreases num,
    {
        let ghost digits = decimal(num as nat);
        if num >= 10 {
            self.write_digits(num / 10);
            assert(digits.drop_last() =~= decimal((num / 10) as nat));
        } else {
            assert(digits.drop_last() =~= Seq::<char>::empty());
            assert(self@.with_text(Seq::<char>::empty()) == self@);
        }
        let digit: u8 = (num % 10) as u8;
        assert(digits.last() == digit_char(digit as int));
        self.write_char((48u8 + digit) as char);
    }

    /// Writes `num` in decimal with the cursor starting at `(x, y)`.
    pub fn write_number(&mut self, num: usize, x: usize, y: usize)
        requires
            old(self)@.supports_text(),
        ensures
            final(self)@ == (Surface { x_pos: x, y_pos: y, ..old(self)@ }).with_text(
                decimal(num as nat),
            ),
            final(self)@.same_geometry(old(self)@),
    {
        self.x_pos = x;
        self.y_pos = y;
        self.write_digits(num);
    }

    /// Draws `glyph` enlarged in colour `(r, g, b)` with its top-left corner
    /// at `(x, y)`. What falls off the screen is left out.
    pub fn draw_large_glyph(&mut self, glyph: Glyph, x: usize, y: usize, r: u8, g: u8, b: u8)
        ensures
            final(self)@ == old(self)@.with_large_rows(
                glyph@,
                x as int,
                y as int,
                glyph@.len() as int,
                r,
                g,
                b,
            ),
            final(self)@.same_geometry(old(self)@),
    {
        let rows: usize = glyph.raster.len();
        let mut i: usize = 0;
        while i < rows
            invariant
                i <= rows == glyph@.len(),
                self@ == old(self)@.with_large_rows(glyph@, x as int, y as int, i as int, r, g, b),
                self@.same_geometry(old(self)@),
            decreases rows - i,
        {
            let row: &[u8] = glyph.raster[i];
            let cols: usize = row.len();
            assert(row@ == glyph@[i as int]);
            let ghost before = self@;
            match stepped(y, LARGE_SCALE, i) {
                Some(py) => {
                    let mut j: usize = 0;
                    while j < cols
                        invariant
                            j <= cols == row@.len(),
                            self@.same_geometry(before),
                            self@ == before.with_large_row(
                                row@,
                                x as int,
                                py as int,
                                j as int,
                                r,
                                g,
                                b,
                            ),
                        decreases cols - j,
                    {
                        if row[j] >= LARGE_THRESHOLD {
                            match stepped(x, LARGE_SCALE, j) {
                                Some(px) => {
                                    self.fill_rect(px, py, LARGE_SCALE, LARGE_SCALE, r, g, b);
                                },
                                None => {
                                    proof {
                                        lemma_rect_off_screen(
                                            self@,
                                            x + LARGE_SCALE * j,
                                            py as int,
                                            LARGE_SCALE as int,
                                            LARGE_SCALE as int,
                                            r,
                                            g,
                                            b,
                                        );
                                    }
                                },
                            }
                        }
                        j += 1;
                    }
                },
                None => {
                    proof {
                        lemma_large_row_off_screen(
                            self@,
                            row@,
                            x as int,
                            y + LARGE_SCALE * i,
                            cols as int,
                            r,
                            g,
                            b,
                        );
                    }
                },
            }
            i += 1;
        }
    }

    /// Draws `text` enlarged in colour `(r, g, b)` with its top-left corner
    /// at `(x, y)`. What falls off the screen is left out.
    pub fn write_large_text(&mut self, text: &str, x: usize, y: usize, r: u8, g: u8, b: u8)
        ensures
            final(self)@ == old(self)@.with_large_text(text@, x as int, y as int, r, g, b),
            final(self)@.same_geometry(old(self)@),
    {
        let mut cell: Option<usize> = Some(x);
        for c in it: text.chars()
            invariant
                it.seq() == text@,
                cell matches Some(cell_x) ==> cell_x == x + LARGE_SCALE * GLYPH_WIDTH * it.index(),
                cell is None ==> x + LARGE_SCALE * GLYPH_WIDTH * it.index() > usize::MAX,
                self@.same_geometry(old(self)@),
                self@ == old(self)@.with_large_text(
                    text@.take(it.index() as int),
                    x as int,
                    y as int,
                    r,
                    g,
                    b,
                ),
        {
            assert(text@.take(it.index() + 1).drop_last() =~= text@.take(it.index() as int));
            match get_raster(c) {
                Some(glyph) => {
                    match cell {
                        Some(cell_x) => {
                            self.draw_large_glyph(glyph, cell_x, y, r, g, b);
                        },
                        None => {
                            proof {
                                lemma_large_rows_off_screen(
                                    self@,
                                    glyph@,
                                    x + LARGE_SCALE * GLYPH_WIDTH * it.index(),
                                    y as int,
                                    glyph@.len() as int,
                                    r,
                                    g,
                                    b,
                                );
                            }
                        },
                    }
                },
                None => {},
            }
            cell =
            match cell {
                Some(cell_x) => cell_x.checked_add(LARGE_SCALE * GLYPH_WIDTH),
                None => None,
            };
        }
        assert(text@.take(text@.len() as int) =~= text@);
    }
}

/// Draws a paddle, `PADDLE_WIDTH` by `PADDLE_HEIGHT` pixels, with its
/// top-left corner at `(x, y)`. Drawing in black erases one.
pub fn draw_paddle(writer: &mut ScreenWriter, x: usize, y: usize, r: u8, g: u8, b: u8)
    ensures
        final(writer)@ == old(writer)@.with_rect(
            x as int,
            y as int,
            PADDLE_WIDTH as int,
            PADDLE_HEIGHT as int,
            r,
            g,
            b,
        ),
        final(writer)@.same_geometry(old(writer)@),
{
    writer.fill_rect(x, y, PADDLE_WIDTH, PADDLE_HEIGHT, r, g, b);
}

/// Draws the ball, a square of side `BALL_SIZE`, with its top-left corner at
/// `(x, y)`. Drawing in black erases it.
pub fn draw_ball(writer: &mut ScreenWriter, x: usize, y: usize, r: u8, g: u8, b: u8)
    ensures
        final(writer)@ == old(writer)@.with_rect(
            x as int,
            y as int,
            BALL_SIZE as int,
            BALL_SIZE as int,
            r,
            g,
            b,
        ),
        final(writer)@.same_geometry(old(writer)@),
{
    writer.fill_rect(x, y, BALL_SIZE, BALL_SIZE, r, g, b);
}

/// Draws the dashed vertical line down the middle of the screen.
pub fn draw_center_line(writer: &mut ScreenWriter)
    ensures
        final(writer)@ == old(writer)@.with_center_line(),
        final(writer)@.same_geometry(old(writer)@),
{
    let mid_x: usize = writer.width() / 2;
    let height: usize = writer.height();
    let mut y: usize = 0;
    while y < height
        invariant
            y <= height == old(writer)@.info.height,
            y % DASH_PERIOD == 0 || y == height,
            mid_x == old(writer)@.mid_x(),
            writer@ == old(writer)@.with_dashed_column(mid_x as int, y as int),
            writer@.same_geometry(old(writer)@),
        decreases height - y,
    {
        let mut dy: usize = 0;
        while dy < DASH_LENGTH
            invariant
                dy <= DASH_LENGTH,
                y < height,
                y % DASH_PERIOD == 0,
                writer@ == old(writer)@.with_dashed_column(mid_x as int, y + dy),
                writer@.same_geometry(old(writer)@),
            decreases DASH_LENGTH - dy,
        {
            match y.checked_add(dy) {
                Some(py) => {
                    writer.draw_pixel(mid_x, py, LINE_SHADE, LINE_SHADE, LINE_SHADE);
                },
                None => {},
            }
            dy += 1;
        }
        proof {
            if height <= y + DASH_LENGTH {
                lemma_dashes_below_screen(old(writer)@, mid_x as int, y + DASH_LENGTH);
            } else if height <= y + DASH_PERIOD {
                lemma_dash_gap(old(writer)@, mid_x as int, y as int, height as int);
            } else {
                lemma_dash_gap(old(writer)@, mid_x as int, y as int, y + DASH_PERIOD);
            }
        }
        if height - y <= DASH_PERIOD {
            y = height;
        } else {
            y += DASH_PERIOD;
        }
    }
}

/// Writes both scores near the top of the screen, left and right of the
/// middle.
pub fn draw_score(writer: &mut ScreenWriter, player1_score: usize, player2_score: usize)
    requires
        old(writer)@.supports_text(),
    ensures
        final(writer)@ == old(writer)@.with_score(player1_score as nat, player2_score as nat),
        final(writer)@.same_geometry(old(writer)@),
{
    let mid_x: usize = writer.width() / 2;
    writer.write_number(player1_score, mid_x.saturating_sub(SCORE_LEFT), SCORE_Y);
    writer.write_number(player2_score, mid_x + SCORE_RIGHT, SCORE_Y);
}

/// The one place the framebuffer surface lives: empty until `init` has
/// run.
pub struct Writer<'a> {
    slot: Option<ScreenWriter<'a>>,
}

impl<'a> Writer<'a> {
    /// The surface held, if `init` has run.
    pub closed spec fn surface(&self) -> Option<Surface> {
        match self.slot {
            Some(writer) => Some(writer@),
            None => None,
        }
    }

    /// A place that holds no surface yet.
    pub fn new() -> (writer: Self)
        ensures
            writer.surface() is None,
    {
        Writer { slot: None }
    }

    /// Whether `init` has run.
    pub fn is_initialized(&self) -> (ready: bool)
        ensures
            ready == self.surface() is Some,
    {
        self.slot.is_some()
    }

    /// Writes the characters of `s` on the surface held.
    pub fn write_str(&mut self, s: &str)
        requires
            old(self).surface() matches Some(surface) && surface.supports_text(),
        ensures
            final(self).surface() == Some(old(self).surface().unwrap().with_text(s@)),
    {
        screenwriter(self).write_str(s);
    }
}

/// The surface held in `writer`.
pub fn screenwriter<'a, 'b>(writer: &'b mut Writer<'a>) -> (screen: &'b mut ScreenWriter<'a>)
    requires
        old(writer).surface() is Some,
    ensures
        screen@ == old(writer).surface().unwrap(),
        final(writer).surface() == Some(final(screen)@),
{
    match &mut writer.slot {
        Some(screen) => screen,
        None => vstd::pervasive::unreached(),
    }
}

/// Puts a cleared surface over `framebuffer` into `writer`.
pub fn init<'a>(writer: &mut Writer<'a>, framebuffer: &'a mut [u8], info: FrameBufferInfo)
    ensures
        final(writer).surface() == Some(
            (Surface { pixels: old(framebuffer)@, info, x_pos: 0, y_pos: 0 }).cleared(),
        ),
{
    writer.slot = Some(ScreenWriter::new(framebuffer, info));
}

} // verus!
