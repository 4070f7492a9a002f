//! Drawing on an RGB565 surface.
use vstd::prelude::*;
use vstd::arithmetic::div_mod::{lemma_fundamental_div_mod, lemma_fundamental_div_mod_converse};

verus! {

/// A pixel with five bits of red, six of green and five of blue.
pub type Rgb565 = u16;

pub const WHITE: Rgb565 = 0xffff;

pub const BLACK: Rgb565 = 0x0000;

/// A surface of pixels in rows that may be padded.
pub struct Surface<'a> {
    pub bytes: &'a mut [u8],
    pub width: usize,
    pub height: usize,
    pub stride: usize,
}

/// A byte of a pixel: the low one comes first.
pub open spec fn pixel_byte(color: Rgb565, part: int) -> u8 {
    if part == 0 {
        (color % 256) as u8
    } else {
        (color / 256) as u8
    }
}

/// The row of a byte.
pub open spec fn row_of(i: int, stride: int) -> int {
    i / stride
}

/// The column of a byte.
pub open spec fn column_of(i: int, stride: int) -> int {
    (i % stride) / 2
}

/// A byte of a pixel in the columns and rows of a rectangle.
pub open spec fn in_rectangle(
    i: int,
    stride: int,
    left: int,
    right: int,
    top: int,
    bottom: int,
) -> bool {
    &&& stride > 0
    &&& top <= row_of(i, stride) < bottom
    &&& left <= column_of(i, stride) < right
}

/// The bytes of a surface after a rectangle was filled.
pub open spec fn filled(
    bytes: Seq<u8>,
    stride: int,
    left: int,
    right: int,
    top: int,
    bottom: int,
    color: Rgb565,
) -> Seq<u8> {
    Seq::new(
        bytes.len(),
        |i: int|
            if in_rectangle(i, stride, left, right, top, bottom) {
                pixel_byte(color, (i % stride) % 2)
            } else {
                bytes[i]
            },
    )
}

/// The smaller of two numbers.
pub open spec fn least_of(a: int, b: int) -> int {
    if a <= b {
        a
    } else {
        b
    }
}

/// A value of five bits spread over eight.
pub open spec fn widen5(v: int) -> int {
    (v * 255 + 15) / 31
}

/// A value of six bits spread over eight.
pub open spec fn widen6(v: int) -> int {
    (v * 255 + 31) / 63
}

/// The red, green and blue parts of a pixel in eight bits each.
pub open spec fn channels(color: Rgb565) -> (int, int, int) {
    (
        widen5(color as int / 2048),
        widen6((color as int / 32) % 64),
        widen5(color as int % 32),
    )
}

/// The pixel of three parts of eight bits each.
pub open spec fn packed(red: int, green: int, blue: int) -> int {
    (red / 8) * 2048 + (green / 4) * 32 + blue / 8
}

/// A mixture of two parts, rounded to the nearest.
pub open spec fn mixed(under: int, over: int, alpha: int) -> int {
    (under * (255 - alpha) + over * alpha + 127) / 255
}

/// A pixel laid over another with a given opacity.
pub open spec fn blended(under: Rgb565, over: Rgb565, alpha: u8) -> int {
    let (ur, ug, ub) = channels(under);
    let (or, og, ob) = channels(over);
    packed(mixed(ur, or, alpha as int), mixed(ug, og, alpha as int), mixed(ub, ob, alpha as int))
}

fn unpack(color: Rgb565) -> (r: (u8, u8, u8))
    ensures
        (r.0 as int, r.1 as int, r.2 as int) == channels(color),
{
    let red: u32 = (color / 2048) as u32;
    let green: u32 = ((color / 32) % 64) as u32;
    let blue: u32 = (color % 32) as u32;
    assert(red < 32);
    (
        ((red * 255 + 15) / 31) as u8,
        ((green * 255 + 31) / 63) as u8,
        ((blue * 255 + 15) / 31) as u8,
    )
}

fn pack(red: u8, green: u8, blue: u8) -> (r: Rgb565)
    ensures
        r == packed(red as int, green as int, blue as int),
{
    (red as u16 / 8) * 2048 + (green as u16 / 4) * 32 + blue as u16 / 8
}

fn mix(under: u8, over: u8, alpha: u8) -> (r: u8)
    ensures
        r == mixed(under as int, over as int, alpha as int),
{
    let u: u32 = under as u32;
    let o: u32 = over as u32;
    let a: u32 = alpha as u32;
    assert(0 <= u * (255 - a) <= 255 * (255 - a)) by (nonlinear_arith)
        requires
            u <= 255,
            a <= 255,
    ;
    assert(0 <= o * a <= 255 * a) by (nonlinear_arith)
        requires
            o <= 255,
            a <= 255,
    ;
    ((u * (255 - a) + o * a + 127) / 255) as u8
}

/// The bytes of one row and column are the two of that pixel.
pub proof fn lemma_pixel_bytes(i: int, stride: int, row: int, column: int)
    requires
        0 <= i,
        0 <= row,
        0 <= column,
        2 * column + 2 <= stride,
    ensures
        (row_of(i, stride) == row && column_of(i, stride) == column) <==> (i == row * stride + 2
            * column || i == row * stride + 2 * column + 1),
        i == row * stride + 2 * column ==> (i % stride) % 2 == 0,
        i == row * stride + 2 * column + 1 ==> (i % stride) % 2 == 1,
{
    lemma_fundamental_div_mod(i, stride);
    assert(stride * (i / stride) == (i / stride) * stride) by (nonlinear_arith);
    if i == row * stride + 2 * column {
        lemma_fundamental_div_mod_converse(i, stride, row, 2 * column);
    }
    if i == row * stride + 2 * column + 1 {
        lemma_fundamental_div_mod_converse(i, stride, row, 2 * column + 1);
    }
}

/// A pixel within the rows lies within the bytes.
pub proof fn lemma_pixel_in_bounds(row: int, column: int, width: int, height: int, stride: int)
    requires
        0 <= row < height,
        0 <= column < width,
        2 * width <= stride,
    ensures
        0 <= row * stride + 2 * column,
        row * stride + 2 * column + 2 <= stride * height,
{
    assert(row * stride + stride <= stride * height) by (nonlinear_arith)
        requires
            0 <= row < height,
            0 <= stride,
    ;
    assert(0 <= row * stride) by (nonlinear_arith)
        requires
            0 <= row,
            0 <= stride,
    ;
}

impl<'a> Surface<'a> {
    /// The bytes of the surface.
    pub open spec fn view(&self) -> Seq<u8> {
        self.bytes@
    }

    /// The width in pixels.
    pub open spec fn spec_width(&self) -> int {
        self.width as int
    }

    /// The height in pixels.
    pub open spec fn spec_height(&self) -> int {
        self.height as int
    }

    /// The distance between rows in bytes.
    pub open spec fn spec_stride(&self) -> int {
        self.stride as int
    }

    /// Every row lies within the bytes and holds its pixels.
    pub open spec fn wf(&self) -> bool {
        &&& self.stride >= 2 * self.width
        &&& self.stride * self.height <= self.bytes@.len()
    }

    /// The same surface with other contents.
    pub open spec fn same_shape(&self, other: &Surface<'a>) -> bool {
        &&& self.spec_width() == other.spec_width()
        &&& self.spec_height() == other.spec_height()
        &&& self.spec_stride() == other.spec_stride()
    }

    /// The surface over a buffer that is large enough for it. When the surface
    /// is given up, the buffer holds what the surface held.
    pub fn new(bytes: &'a mut [u8], width: usize, height: usize, stride: usize) -> (r: Option<
        Surface<'a>,
    >)
        ensures
            match r {
                Some(surface) => {
                    &&& surface.wf()
                    &&& surface@ == old(bytes)@
                    &&& final(surface.bytes)@ == final(bytes)@
                    &&& surface.spec_width() == width
                    &&& surface.spec_height() == height
                    &&& surface.spec_stride() == stride
                    &&& stride >= 2 * width
                    &&& stride * height <= old(bytes)@.len()
                },
                None => {
                    &&& stride < 2 * width || stride * height > old(bytes)@.len()
                    &&& final(bytes)@ == old(bytes)@
                },
            },
    {
        let length: usize = bytes.len();
        let required: usize = match stride.checked_mul(height) {
            Some(required) => required,
            None => return None,
        };
        let row: usize = match width.checked_mul(2) {
            Some(row) => row,
            None => return None,
        };
        if stride >= row && length >= required {
            Some(Surface { bytes, width, height, stride })
        } else {
            None
        }
    }

    /// The width in pixels.
    pub fn width(&self) -> (r: usize)
        ensures
            r == self.spec_width(),
    {
        self.width
    }

    /// The height in pixels.
    pub fn height(&self) -> (r: usize)
        ensures
            r == self.spec_height(),
    {
        self.height
    }

    /// Writes one pixel within the surface.
    fn set(&mut self, row: usize, column: usize, color: Rgb565)
        requires
            old(self).wf(),
            row < old(self).spec_height(),
            column < old(self).spec_width(),
        ensures
            final(self).wf(),
            final(self).same_shape(old(self)),
            final(final(self).bytes)@ == final(old(self).bytes)@,
            final(self)@ == filled(
                old(self)@,
                old(self).spec_stride(),
                column as int,
                column + 1,
                row as int,
                row + 1,
                color,
            ),
    {
        let ghost stride = self.stride as int;
        let ghost before = self.bytes@;
        let length: usize = self.bytes.len();
        proof {
            lemma_pixel_in_bounds(
                row as int,
                column as int,
                self.width as int,
                self.height as int,
                stride,
            );
            assert(row * self.stride <= length) by (nonlinear_arith)
                requires
                    row * stride + 2 * column + 2 <= stride * self.height,
                    stride * self.height <= length,
                    stride == self.stride as int,
                    0 <= column,
            ;
        }
        let offset: usize = row * self.stride + column * 2;
        self.bytes[offset] = (color % 256) as u8;
        self.bytes[offset + 1] = (color / 256) as u8;
        proof {
            let after = filled(
                before,
                stride,
                column as int,
                column + 1,
                row as int,
                row + 1,
                color,
            );
            assert forall|i: int| 0 <= i < before.len() implies self.bytes@[i] == after[i] by {
                lemma_pixel_bytes(i, stride, row as int, column as int);
            }
            assert(self.bytes@ =~= after);
        }
    }

    /// Fills the part of a rectangle that lies on the surface.
    pub fn fill_rect(&mut self, x: usize, y: usize, width: usize, height: usize, color: Rgb565)
        requires
            old(self).wf(),
        ensures
            final(self).wf(),
            final(self).same_shape(old(self)),
            final(final(self).bytes)@ == final(old(self).bytes)@,
            final(self)@ == filled(
                old(self)@,
                old(self).spec_stride(),
                x as int,
                least_of(x + width, old(self).spec_width()),
                y as int,
                least_of(y + height, old(self).spec_height()),
                color,
            ),
    {
        let right_edge: usize = x.saturating_add(width);
        let right: usize = if right_edge < self.width {
            right_edge
        } else {
            self.width
        };
        let bottom_edge: usize = y.saturating_add(height);
        let bottom: usize = if bottom_edge < self.height {
            bottom_edge
        } else {
            self.height
        };
        let ghost before = self.bytes@;
        let ghost stride = self.stride as int;
        let mut row: usize = y;
        assert(self.bytes@ =~= filled(
            before,
            stride,
            x as int,
            right as int,
            y as int,
            y as int,
            color,
        ));
        while row < bottom
            invariant
                self.wf(),
                self.same_shape(old(self)),
                final(self.bytes)@ == final(old(self).bytes)@,
                self.spec_stride() == stride,
                before == old(self)@,
                y <= row,
                row <= bottom || row == y,
                right <= self.spec_width(),
                bottom <= self.spec_height(),
                self@ == filled(
                    before,
                    stride,
                    x as int,
                    right as int,
                    y as int,
                    row as int,
                    color,
                ),
            decreases bottom - row,
        {
            let ghost rows = self@;
            let mut column: usize = x;
            while column < right
                invariant
                    self.wf(),
                    self.same_shape(old(self)),
                    final(self.bytes)@ == final(old(self).bytes)@,
                    self.spec_stride() == stride,
                    before == old(self)@,
                    y <= row < bottom,
                    x <= column,
                    column <= right || column == x,
                    right <= self.spec_width(),
                    bottom <= self.spec_height(),
                    rows == filled(
                        before,
                        stride,
                        x as int,
                        right as int,
                        y as int,
                        row as int,
                        color,
                    ),
                    self@ == filled(
                        rows,
                        stride,
                        x as int,
                        column as int,
                        row as int,
                        row + 1,
                        color,
                    ),
                decreases right - column,
            {
                let ghost columns = self@;
                self.set(row, column, color);
                proof {
                    assert(self@ =~= filled(
                        rows,
                        stride,
                        x as int,
                        column + 1,
                        row as int,
                        row + 1,
                        color,
                    ));
                }
                column = column + 1;
            }
            proof {
                assert(self@ =~= filled(
                    before,
                    stride,
                    x as int,
                    right as int,
                    y as int,
                    row + 1,
                    color,
                ));
            }
            row = row + 1;
        }
        proof {
            assert(self@ =~= filled(
                old(self)@,
                stride,
                x as int,
                least_of(x + width, old(self).spec_width()),
                y as int,
                least_of(y + height, old(self).spec_height()),
                color,
            ));
        }
    }

    /// Fills the whole surface.
    pub fn clear(&mut self, color: Rgb565)
        requires
            old(self).wf(),
        ensures
            final(self).wf(),
            final(self).same_shape(old(self)),
            final(final(self).bytes)@ == final(old(self).bytes)@,
            final(self)@ == filled(
                old(self)@,
                old(self).spec_stride(),
                0,
                old(self).spec_width(),
                0,
                old(self).spec_height(),
                color,
            ),
    {
        self.fill_rect(0, 0, self.width, self.height, color);
    }

    /// Draws the border of a rectangle, as far as it lies on the surface.
    pub fn stroke_rect(
        &mut self,
        x: usize,
        y: usize,
        width: usize,
        height: usize,
        thickness: usize,
        color: Rgb565,
    )
        requires
            old(self).wf(),
        ensures
            final(self).wf(),
            final(self).same_shape(old(self)),
            final(final(self).bytes)@ == final(old(self).bytes)@,
            final(self)@ == stroked(
                old(self)@,
                old(self).spec_width(),
                old(self).spec_height(),
                old(self).spec_stride(),
                x,
                y,
                width,
                height,
                thickness,
                color,
            ),
    {
        self.fill_rect(x, y, width, thickness, color);
        self.fill_rect(
            x,
            y.saturating_add(height.saturating_sub(thickness)),
            width,
            thickness,
            color,
        );
        self.fill_rect(x, y, thickness, height, color);
        self.fill_rect(
            x.saturating_add(width.saturating_sub(thickness)),
            y,
            thickness,
            height,
            color,
        );
    }

    /// Whether a pixel lies on the surface.
    fn is_on(&self, x: i32, y: i32) -> (r: bool)
        ensures
            r == on_surface(self.spec_width(), self.spec_height(), x, y),
            r ==> x < self.spec_width() && y < self.spec_height(),
    {
        let columns: i32 = self.width as i32;
        let rows: i32 = self.height as i32;
        proof {
            let w: usize = self.width;
            let h: usize = self.height;
            assert(x >= 0 && x < (w as i32) ==> (x as usize) < w) by (bit_vector);
            assert(y >= 0 && y < (h as i32) ==> (y as usize) < h) by (bit_vector);
        }
        !(x < 0 || y < 0 || x >= columns || y >= rows)
    }

    /// Writes a pixel, where it lies on the surface.
    pub fn put_pixel(&mut self, x: i32, y: i32, color: Rgb565)
        requires
            old(self).wf(),
        ensures
            final(self).wf(),
            final(self).same_shape(old(self)),
            final(final(self).bytes)@ == final(old(self).bytes)@,
            final(self)@ == (if on_surface(
                old(self).spec_width(),
                old(self).spec_height(),
                x,
                y,
            ) {
                filled(
                    old(self)@,
                    old(self).spec_stride(),
                    x as int,
                    x + 1,
                    y as int,
                    y + 1,
                    color,
                )
            } else {
                old(self)@
            }),
    {
        if self.is_on(x, y) {
            self.set(y as usize, x as usize, color);
        }
    }

    /// The pixel at a place, where it lies on the surface.
    pub fn pixel(&self, x: i32, y: i32) -> (r: Option<Rgb565>)
        requires
            self.wf(),
        ensures
            r == (if on_surface(self.spec_width(), self.spec_height(), x, y) {
                Some(pixel_at(self@, y * self.spec_stride() + 2 * x))
            } else {
                None
            }),
    {
        if !self.is_on(x, y) {
            return None;
        }
        let length: usize = self.bytes.len();
        let row: usize = y as usize;
        let column: usize = x as usize;
        proof {
            lemma_pixel_in_bounds(
                row as int,
                column as int,
                self.width as int,
                self.height as int,
                self.stride as int,
            );
            assert(row * self.stride <= length) by (nonlinear_arith)
                requires
                    row * self.stride + 2 * column + 2 <= self.stride * self.height,
                    self.stride * self.height <= length,
                    0 <= column,
            ;
        }
        let offset: usize = row * self.stride + column * 2;
        Some(self.bytes[offset] as u16 + self.bytes[offset + 1] as u16 * 256)
    }

    /// Lays a pixel over the one that is there, where it lies on the surface.
    pub fn blend_pixel(&mut self, x: i32, y: i32, color: Rgb565, alpha: u8)
        requires
            old(self).wf(),
        ensures
            final(self).wf(),
            final(self).same_shape(old(self)),
            final(final(self).bytes)@ == final(old(self).bytes)@,
            final(self)@ == (if alpha == 0 || !on_surface(
                old(self).spec_width(),
                old(self).spec_height(),
                x,
                y,
            ) {
                old(self)@
            } else {
                filled(
                    old(self)@,
                    old(self).spec_stride(),
                    x as int,
                    x + 1,
                    y as int,
                    y + 1,
                    if alpha == 255 {
                        color
                    } else {
                        blended(
                            pixel_at(old(self)@, y * old(self).spec_stride() + 2 * x),
                            color,
                            alpha,
                        ) as Rgb565
                    },
                )
            }),
    {
        if alpha == 0 || !self.is_on(x, y) {
            return ;
        }
        if alpha == 255 {
            self.set(y as usize, x as usize, color);
            return ;
        }
        let length: usize = self.bytes.len();
        let row: usize = y as usize;
        let column: usize = x as usize;
        proof {
            lemma_pixel_in_bounds(
                row as int,
                column as int,
                self.width as int,
                self.height as int,
                self.stride as int,
            );
            assert(row * self.stride <= length) by (nonlinear_arith)
                requires
                    row * self.stride + 2 * column + 2 <= self.stride * self.height,
                    self.stride * self.height <= length,
                    0 <= column,
            ;
        }
        let offset: usize = row * self.stride + column * 2;
        let under: u16 = self.bytes[offset] as u16 + self.bytes[offset + 1] as u16 * 256;
        let (ur, ug, ub) = unpack(under);
        let (or, og, ob) = unpack(color);
        let pixel: u16 = pack(mix(ur, or, alpha), mix(ug, og, alpha), mix(ub, ob, alpha));
        self.set(row, column, pixel);
    }
}

/// The sum of two sizes, at most the largest size.
pub open spec fn capped_sum(a: int, b: int) -> int {
    least_of(a + b, usize::MAX as int)
}

/// The difference of two sizes, at least zero.
pub open spec fn capped_difference(a: int, b: int) -> int {
    if a < b {
        0
    } else {
        a - b
    }
}

/// The bytes of a surface after the part of a rectangle on it was filled.
pub open spec fn clipped(
    bytes: Seq<u8>,
    surface_width: int,
    surface_height: int,
    stride: int,
    x: int,
    y: int,
    width: int,
    height: int,
    color: Rgb565,
) -> Seq<u8> {
    filled(
        bytes,
        stride,
        x,
        least_of(x + width, surface_width),
        y,
        least_of(y + height, surface_height),
        color,
    )
}

/// The bytes of a surface after the border of a rectangle was drawn: its top,
/// bottom, left and right edges.
pub open spec fn stroked(
    bytes: Seq<u8>,
    surface_width: int,
    surface_height: int,
    stride: int,
    x: usize,
    y: usize,
    width: usize,
    height: usize,
    thickness: usize,
    color: Rgb565,
) -> Seq<u8> {
    let (w, h) = (surface_width, surface_height);
    let bottom = capped_sum(y as int, capped_difference(height as int, thickness as int));
    let right = capped_sum(x as int, capped_difference(width as int, thickness as int));
    let b1 = clipped(
        bytes,
        w,
        h,
        stride,
        x as int,
        y as int,
        width as int,
        thickness as int,
        color,
    );
    let b2 = clipped(
        b1,
        w,
        h,
        stride,
        x as int,
        bottom,
        width as int,
        thickness as int,
        color,
    );
    let b3 = clipped(
        b2,
        w,
        h,
        stride,
        x as int,
        y as int,
        thickness as int,
        height as int,
        color,
    );
    clipped(b3, w, h, stride, right, y as int, thickness as int, height as int, color)
}

/// A pixel of the surface. Its size is compared as a signed 32-bit number.
pub open spec fn on_surface(width: int, height: int, x: i32, y: i32) -> bool {
    0 <= x < (width as i32) && 0 <= y < (height as i32)
}

/// The pixel that begins at a byte.
pub open spec fn pixel_at(bytes: Seq<u8>, offset: int) -> Rgb565 {
    (bytes[offset] + bytes[offset + 1] * 256) as Rgb565
}

/// Drawing never touches what lies outside the drawn rectangle: neither other
/// pixels, nor the padding of rows, nor what follows the surface.
pub proof fn drawing_is_confined(
    bytes: Seq<u8>,
    stride: int,
    left: int,
    right: int,
    top: int,
    bottom: int,
    color: Rgb565,
    i: int,
)
    requires
        0 <= i < bytes.len(),
        !in_rectangle(i, stride, left, right, top, bottom),
    ensures
        filled(bytes, stride, left, right, top, bottom, color)[i] == bytes[i],
        filled(bytes, stride, left, right, top, bottom, color).len() == bytes.len(),
{
}

/// A filled pixel reads back as the color that it was filled with.
pub proof fn filled_pixels_read_back(
    bytes: Seq<u8>,
    stride: int,
    left: int,
    right: int,
    top: int,
    bottom: int,
    color: Rgb565,
    row: int,
    column: int,
)
    requires
        0 <= top <= row < bottom,
        0 <= left <= column < right,
        2 * right <= stride,
        0 <= row * stride,
        row * stride + 2 * column + 2 <= bytes.len(),
    ensures
        pixel_at(
            filled(bytes, stride, left, right, top, bottom, color),
            row * stride + 2 * column,
        ) == color,
{
    let offset = row * stride + 2 * column;
    lemma_pixel_bytes(offset, stride, row, column);
    lemma_pixel_bytes(offset + 1, stride, row, column);
}

/// Packing the parts that a pixel was unpacked into gives the same pixel.
pub proof fn parts_survive_unpacking(color: Rgb565)
    ensures
        ({
            let (red, green, blue) = channels(color);
            packed(red, green, blue) == color
        }),
{
    let v = color as int;
    assert(0 <= v / 2048 < 32);
    assert(forall|x: int| 0 <= x < 32 ==> #[trigger] widen5(x) / 8 == x);
    assert(forall|x: int| 0 <= x < 64 ==> #[trigger] widen6(x) / 4 == x);
    assert(v == (v / 2048) * 2048 + ((v / 32) % 64) * 32 + v % 32);
}

/// A color that is laid over another one with some transparency lies between the two, part by
/// part: without any it is not seen, and laid on fully it is seen alone.
pub proof fn mixed_colors_lie_between(under: int, over: int, alpha: int)
    requires
        0 <= under <= 255,
        0 <= over <= 255,
        0 <= alpha <= 255,
    ensures
        mixed(under, over, 0) == under,
        mixed(under, over, 255) == over,
        under <= over ==> under <= mixed(under, over, alpha) <= over,
        over <= under ==> over <= mixed(under, over, alpha) <= under,
        mixed(under, under, alpha) == under,
{
    assert(under * (255 - alpha) + over * alpha == 255 * under + (over - under) * alpha)
        by (nonlinear_arith);
    assert(under * (255 - alpha) + under * alpha == 255 * under) by (nonlinear_arith);
    if under <= over {
        assert(0 <= (over - under) * alpha <= 255 * (over - under)) by (nonlinear_arith)
            requires
                0 <= over - under,
                0 <= alpha <= 255,
        ;
    } else {
        assert(255 * (over - under) <= (over - under) * alpha <= 0) by (nonlinear_arith)
            requires
                over - under <= 0,
                0 <= alpha <= 255,
        ;
    }
}

/// More of a color brings the mixture closer to it.
pub proof fn more_color_shows_more(under: int, over: int, less: int, more: int)
    requires
        0 <= under <= 255,
        0 <= over <= 255,
        0 <= less <= more <= 255,
    ensures
        under <= over ==> mixed(under, over, less) <= mixed(under, over, more),
        over <= under ==> mixed(under, over, more) <= mixed(under, over, less),
{
    assert(under * (255 - less) + over * less == 255 * under + (over - under) * less)
        by (nonlinear_arith);
    assert(under * (255 - more) + over * more == 255 * under + (over - under) * more)
        by (nonlinear_arith);
    if under <= over {
        assert((over - under) * less <= (over - under) * more) by (nonlinear_arith)
            requires
                0 <= over - under,
                less <= more,
        ;
    }
    if over <= under {
        assert((over - under) * more <= (over - under) * less) by (nonlinear_arith)
            requires
                over - under <= 0,
                less <= more,
        ;
    }
}

/// The parts of a color go from nothing to the full range, and more of a part stays more.
pub proof fn parts_span_the_full_range(a: int, b: int)
    requires
        0 <= a <= b,
    ensures
        widen5(0) == 0,
        widen5(31) == 255,
        widen6(0) == 0,
        widen6(63) == 255,
        widen5(a) <= widen5(b),
        widen6(a) <= widen6(b),
        channels(0xffff) == (255int, 255int, 255int),
        channels(0x0000) == (0int, 0int, 0int),
        channels(0xf800) == (255int, 0int, 0int),
        channels(0x07e0) == (0int, 255int, 0int),
        channels(0x001f) == (0int, 0int, 255int),
{
}

/// A color that is blended over itself does not change.
pub proof fn equal_colors_blend_to_themselves(color: Rgb565, alpha: u8)
    ensures
        blended(color, color, alpha) == color,
{
    let (red, green, blue) = channels(color);
    assert(0 <= red <= 255 && 0 <= green <= 255 && 0 <= blue <= 255);
    mixed_colors_lie_between(red, red, alpha as int);
    mixed_colors_lie_between(green, green, alpha as int);
    mixed_colors_lie_between(blue, blue, alpha as int);
    parts_survive_unpacking(color);
}

/// What one fill does to a place: inside its rectangle it has the color, elsewhere it is as before.
proof fn lemma_filled_pixel(
    bytes: Seq<u8>,
    stride: int,
    left: int,
    right: int,
    top: int,
    bottom: int,
    color: Rgb565,
    row: int,
    column: int,
)
    requires
        0 <= row,
        0 <= column,
        2 * column + 2 <= stride,
        0 <= row * stride,
        row * stride + 2 * column + 2 <= bytes.len(),
    ensures
        filled(bytes, stride, left, right, top, bottom, color).len() == bytes.len(),
        pixel_at(
            filled(bytes, stride, left, right, top, bottom, color),
            row * stride + 2 * column,
        ) == (if left <= column < right && top <= row < bottom {
            color
        } else {
            pixel_at(bytes, row * stride + 2 * column)
        }),
{
    let i = row * stride + 2 * column;
    lemma_pixel_bytes(i, stride, row, column);
    lemma_pixel_bytes(i + 1, stride, row, column);
}

/// Filling a rectangle colors exactly the places inside it that lie on the surface.
pub proof fn fills_color_their_rectangle(
    bytes: Seq<u8>,
    surface_width: int,
    surface_height: int,
    stride: int,
    x: int,
    y: int,
    width: int,
    height: int,
    color: Rgb565,
    row: int,
    column: int,
)
    requires
        0 <= row < surface_height,
        0 <= column < surface_width,
        2 * surface_width <= stride,
        stride * surface_height <= bytes.len(),
    ensures
        pixel_at(
            clipped(bytes, surface_width, surface_height, stride, x, y, width, height, color),
            row * stride + 2 * column,
        ) == (if x <= column < x + width && y <= row < y + height {
            color
        } else {
            pixel_at(bytes, row * stride + 2 * column)
        }),
{
    lemma_pixel_in_bounds(row, column, surface_width, surface_height, stride);
    assert(0 <= row * stride) by (nonlinear_arith)
        requires
            0 <= row,
            0 <= stride,
    ;
    lemma_filled_pixel(
        bytes,
        stride,
        x,
        least_of(x + width, surface_width),
        y,
        least_of(y + height, surface_height),
        color,
        row,
        column,
    );
}

/// The outline of a rectangle covers exactly the places inside it that are closer to one of its
/// edges than its thickness; everything else is as before.
pub proof fn outlines_follow_the_edges(
    bytes: Seq<u8>,
    surface_width: int,
    surface_height: int,
    stride: int,
    x: usize,
    y: usize,
    width: usize,
    height: usize,
    thickness: usize,
    color: Rgb565,
    row: int,
    column: int,
)
    requires
        0 <= row < surface_height,
        0 <= column < surface_width,
        2 * surface_width <= stride,
        stride * surface_height <= bytes.len(),
        thickness <= width,
        thickness <= height,
        x + width <= usize::MAX,
        y + height <= usize::MAX,
    ensures
        pixel_at(
            stroked(
                bytes,
                surface_width,
                surface_height,
                stride,
                x,
                y,
                width,
                height,
                thickness,
                color,
            ),
            row * stride + 2 * column,
        ) == (if x <= column < x + width && y <= row < y + height && (row - y < thickness || y
            + height - row <= thickness || column - x < thickness || x + width - column
            <= thickness) {
            color
        } else {
            pixel_at(bytes, row * stride + 2 * column)
        }),
{
    let (w, h) = (surface_width, surface_height);
    let bottom = y + height - thickness;
    let right = x + width - thickness;
    let b1 = clipped(bytes, w, h, stride, x as int, y as int, width as int, thickness as int, color);
    let b2 = clipped(b1, w, h, stride, x as int, bottom, width as int, thickness as int, color);
    let b3 = clipped(b2, w, h, stride, x as int, y as int, thickness as int, height as int, color);
    fills_color_their_rectangle(
        bytes, w, h, stride, x as int, y as int, width as int, thickness as int, color, row, column,
    );
    fills_color_their_rectangle(
        b1, w, h, stride, x as int, bottom, width as int, thickness as int, color, row, column,
    );
    fills_color_their_rectangle(
        b2, w, h, stride, x as int, y as int, thickness as int, height as int, color, row, column,
    );
    fills_color_their_rectangle(
        b3, w, h, stride, right, y as int, thickness as int, height as int, color, row, column,
    );
}

/// A place lies on the surface where neither its column nor its row is before the first or behind
/// the last one.
pub proof fn places_on_the_surface_are_within_it(width: int, height: int, x: i32, y: i32)
    requires
        0 <= width <= i32::MAX,
        0 <= height <= i32::MAX,
    ensures
        on_surface(width, height, x, y) <==> 0 <= x && x < width && 0 <= y && y < height,
{
}

} // verus!
