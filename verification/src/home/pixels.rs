//! Colors on the panel, and buttons that are seen to be pressed.
use vstd::prelude::*;
use vstd::arithmetic::div_mod::lemma_fundamental_div_mod_converse;
use crate::home::view::{Button, WHITE};
use crate::home::view::{ButtonView, measurable};
use crate::sdk::surface::{Rgb565, Surface};
use crate::sdk::surface::{
    column_of, filled, least_of, lemma_pixel_bytes, lemma_pixel_in_bounds, on_surface, packed, pixel_at,
    pixel_byte, row_of,
};

verus! {

/// The pixel that stands for a color of eight bits a part.
pub open spec fn pixel_of(color: u32) -> int {
    packed(
        (color as int / 65536) % 256,
        (color as int / 256) % 256,
        color as int % 256,
    )
}

/// The pixel that stands for a color.
pub fn pack_color(color: u32) -> (r: Rgb565)
    ensures
        r == pixel_of(color),
{
    let red: u16 = ((color / 65536) % 256) as u16;
    let green: u16 = ((color / 256) % 256) as u16;
    let blue: u16 = (color % 256) as u16;
    (red / 8) * 2048 + (green / 4) * 32 + blue / 8
}

/// The color that a pixel shows.
pub open spec fn color_of(pixel: Rgb565) -> int {
    0xff00_0000 + ((pixel as int / 2048) * 255 / 31) * 65536 + (((pixel as int / 32) % 64) * 255
        / 63) * 256 + (pixel as int % 32) * 255 / 31
}

/// The color that a pixel shows.
pub fn unpack_color(pixel: Rgb565) -> (r: u32)
    ensures
        r == color_of(pixel),
{
    let red: u32 = (pixel / 2048) as u32 * 255 / 31;
    let green: u32 = ((pixel / 32) % 64) as u32 * 255 / 63;
    let blue: u32 = (pixel % 32) as u32 * 255 / 31;
    assert(red <= 255 && green <= 255 && blue <= 255);
    0xff00_0000 + red * 65536 + green * 256 + blue
}

/// A color with its three parts inverted.
pub open spec fn inverted(color: u32) -> int {
    (color as int / 0x0100_0000) * 0x0100_0000 + (0x00ff_ffff - color as int % 0x0100_0000)
}

/// A color with its three parts inverted.
pub fn invert(color: u32) -> (r: u32)
    ensures
        r == inverted(color),
{
    (color / 0x0100_0000) * 0x0100_0000 + (0x00ff_ffff - color % 0x0100_0000)
}

/// Five bits are the same after they were spread over eight.
proof fn lemma_five_bits(v: int)
    requires
        0 <= v < 32,
    ensures
        0 <= v * 255 / 31 <= 255,
        (v * 255 / 31) / 8 == v,
{
}

/// Six bits are the same after they were spread over eight.
proof fn lemma_six_bits(v: int)
    requires
        0 <= v < 64,
    ensures
        0 <= v * 255 / 63 <= 255,
        (v * 255 / 63) / 4 == v,
{
}

/// The parts of a color are where they were put.
proof fn lemma_color_parts(red: int, green: int, blue: int)
    requires
        0 <= red < 256,
        0 <= green < 256,
        0 <= blue < 256,
    ensures
        ({
            let color = 0xff00_0000 + red * 65536 + green * 256 + blue;
            &&& (color / 65536) % 256 == red
            &&& (color / 256) % 256 == green
            &&& color % 256 == blue
            &&& 0 <= color <= u32::MAX
        }),
{
    let color = 0xff00_0000 + red * 65536 + green * 256 + blue;
    lemma_fundamental_div_mod_converse(color, 65536, 0xff00 + red, green * 256 + blue);
    lemma_fundamental_div_mod_converse(0xff00 + red, 256, 0xff, red);
    lemma_fundamental_div_mod_converse(color, 256, 0xff_0000 + red * 256 + green, blue);
    lemma_fundamental_div_mod_converse(
        0xff_0000 + red * 256 + green,
        256,
        0xff00 + red,
        green,
    );
}

/// A pixel is the same after it was read as a color and written again.
pub proof fn pixels_round_trip(pixel: Rgb565)
    ensures
        0 <= color_of(pixel) <= u32::MAX,
        pixel_of(color_of(pixel) as u32) == pixel,
{
    let p = pixel as int;
    lemma_five_bits(p / 2048);
    lemma_six_bits((p / 32) % 64);
    lemma_five_bits(p % 32);
    lemma_color_parts((p / 2048) * 255 / 31, ((p / 32) % 64) * 255 / 63, (p % 32) * 255 / 31);
}

/// The color at a place of a surface; white off it.
pub open spec fn shown_color(bytes: Seq<u8>, width: int, height: int, stride: int, x: int, y: int) -> int {
    if 0 <= x < width && 0 <= y < height {
        color_of(pixel_at(bytes, y * stride + 2 * x))
    } else {
        WHITE as int
    }
}

/// The bytes of a surface with the pixels of some places replaced.
pub open spec fn painted(
    bytes: Seq<u8>,
    width: int,
    height: int,
    stride: int,
    places: spec_fn(int, int) -> bool,
    pixels: spec_fn(int, int) -> Rgb565,
) -> Seq<u8> {
    Seq::new(
        bytes.len(),
        |i: int|
            if stride > 0 && column_of(i, stride) < width && row_of(i, stride) < height && places(
                column_of(i, stride),
                row_of(i, stride),
            ) {
                pixel_byte(pixels(column_of(i, stride), row_of(i, stride)), (i % stride) % 2)
            } else {
                bytes[i]
            },
    )
}

/// The surface has a size that coordinates can name.
pub open spec fn addressable(surface: &Surface) -> bool {
    &&& surface.wf()
    &&& surface.spec_width() <= i32::MAX
    &&& surface.spec_height() <= i32::MAX
}

/// The extent of a button in one direction.
pub open spec fn extent(size: int) -> int {
    if size < 0 {
        0
    } else {
        size
    }
}

/// The bytes of a surface after the part of a rectangle that lies on it was colored.
pub open spec fn colored(
    surface: &Surface,
    x: int,
    y: int,
    width: int,
    height: int,
    color: u32,
) -> Seq<u8> {
    filled(
        surface@,
        surface.spec_stride(),
        x,
        least_of(x + width, surface.spec_width()),
        y,
        least_of(y + height, surface.spec_height()),
        pixel_of(color) as Rgb565,
    )
}

/// Colors the part of a rectangle that lies on the surface.
pub fn rect(surface: &mut Surface, x: i32, y: i32, width: i32, height: i32, color: u32)
    requires
        addressable(old(surface)),
        i32::MIN <= x + width <= i32::MAX,
        i32::MIN <= y + height <= i32::MAX,
    ensures
        final(surface).wf(),
        final(surface).same_shape(old(surface)),
        final(final(surface).bytes)@ == final(old(surface).bytes)@,
        final(surface)@ == colored(
            old(surface),
            x as int,
            y as int,
            width as int,
            height as int,
            color,
        ),
{
    let left: i32 = if x < 0 {
        0
    } else {
        x
    };
    let top: i32 = if y < 0 {
        0
    } else {
        y
    };
    let right: i32 = x + width;
    let bottom: i32 = y + height;
    let ghost before = surface@;
    let ghost stride = surface.spec_stride();
    if left < right && top < bottom {
        surface.fill_rect(
            left as usize,
            top as usize,
            (right - left) as usize,
            (bottom - top) as usize,
            pack_color(color),
        );
    }
    proof {
        let after = colored(
            old(surface),
            x as int,
            y as int,
            width as int,
            height as int,
            color,
        );
        assert forall|i: int| 0 <= i < before.len() implies surface@[i] == after[i] by {
            if stride > 0 {
                lemma_row_column(i, stride);
            }
        }
        assert(surface@ =~= after);
    }
}

/// The colors of the places of a button, row by row.
pub open spec fn button_colors(
    bytes: Seq<u8>,
    width: int,
    height: int,
    stride: int,
    button: ButtonView,
) -> Seq<int> {
    Seq::new(
        (extent(button.width) * extent(button.height)) as nat,
        |k: int|
            shown_color(
                bytes,
                width,
                height,
                stride,
                button.x + k % extent(button.width),
                button.y + k / extent(button.width),
            ),
    )
}

/// The places of a button that come before one of them.
pub open spec fn before_place(button: ButtonView, x: int, y: int) -> spec_fn(int, int) -> bool {
    |px: int, py: int| button.covers(px, py) && (py < y || py == y && px < x)
}

/// The places of a button.
pub open spec fn places_of(button: ButtonView) -> spec_fn(int, int) -> bool {
    |px: int, py: int| button.covers(px, py)
}

/// The inverted pixels of a surface.
pub open spec fn inverted_pixels(bytes: Seq<u8>, stride: int) -> spec_fn(int, int) -> Rgb565 {
    |px: int, py: int|
        pixel_of(inverted(color_of(pixel_at(bytes, py * stride + 2 * px)) as u32) as u32) as Rgb565
}

/// The pixels of saved colors.
pub open spec fn saved_pixels(saved: Seq<u32>, button: ButtonView) -> spec_fn(int, int) -> Rgb565 {
    |px: int, py: int|
        pixel_of(saved[(py - button.y) * button.width + (px - button.x)]) as Rgb565
}

/// Writing one more place of a button.
proof fn lemma_painted_next(
    bytes: Seq<u8>,
    width: int,
    height: int,
    stride: int,
    button: ButtonView,
    pixels: spec_fn(int, int) -> Rgb565,
    x: int,
    y: int,
)
    requires
        button.covers(x, y),
        0 <= x < width,
        0 <= y < height,
    ensures
        ({
            let now = painted(bytes, width, height, stride, before_place(button, x, y), pixels);
            let next = painted(bytes, width, height, stride, before_place(button, x + 1, y), pixels);
            next == filled(now, stride, x, x + 1, y, y + 1, pixels(x, y))
        }),
{
    let now = painted(bytes, width, height, stride, before_place(button, x, y), pixels);
    let next = painted(bytes, width, height, stride, before_place(button, x + 1, y), pixels);
    assert(next =~= filled(now, stride, x, x + 1, y, y + 1, pixels(x, y)));
}

/// A byte has a row and a column that are not negative.
proof fn lemma_row_column(i: int, stride: int)
    requires
        0 <= i,
        stride > 0,
    ensures
        row_of(i, stride) >= 0,
        column_of(i, stride) >= 0,
{
    assert(i / stride >= 0) by (nonlinear_arith)
        requires
            0 <= i,
            stride > 0,
    ;
    assert(i % stride >= 0) by (nonlinear_arith)
        requires
            0 <= i,
            stride > 0,
    ;
}

/// A place off the surface changes nothing.
proof fn lemma_painted_off(
    bytes: Seq<u8>,
    width: int,
    height: int,
    stride: int,
    button: ButtonView,
    pixels: spec_fn(int, int) -> Rgb565,
    x: int,
    y: int,
)
    requires
        !(0 <= x < width && 0 <= y < height),
    ensures
        painted(bytes, width, height, stride, before_place(button, x + 1, y), pixels) == painted(
            bytes,
            width,
            height,
            stride,
            before_place(button, x, y),
            pixels,
        ),
{
    let now = painted(bytes, width, height, stride, before_place(button, x, y), pixels);
    let next = painted(bytes, width, height, stride, before_place(button, x + 1, y), pixels);
    assert forall|i: int| 0 <= i < bytes.len() implies now[i] == next[i] by {
        if stride > 0 {
            lemma_row_column(i, stride);
        }
    }
    assert(now =~= next);
}

/// The place after the last one of a row is the first one of the next.
proof fn lemma_painted_row(
    bytes: Seq<u8>,
    width: int,
    height: int,
    stride: int,
    button: ButtonView,
    pixels: spec_fn(int, int) -> Rgb565,
    x: int,
    y: int,
)
    requires
        x >= button.x + button.width,
    ensures
        painted(bytes, width, height, stride, before_place(button, x, y), pixels) == painted(
            bytes,
            width,
            height,
            stride,
            before_place(button, button.x, y + 1),
            pixels,
        ),
{
    assert(painted(bytes, width, height, stride, before_place(button, x, y), pixels) =~= painted(
        bytes,
        width,
        height,
        stride,
        before_place(button, button.x, y + 1),
        pixels,
    ));
}

/// A place that was not written yet shows what it showed.
proof fn lemma_unpainted(
    bytes: Seq<u8>,
    width: int,
    height: int,
    stride: int,
    button: ButtonView,
    pixels: spec_fn(int, int) -> Rgb565,
    x: int,
    y: int,
)
    requires
        0 <= x < width,
        0 <= y < height,
        2 * width <= stride,
        stride * height <= bytes.len(),
    ensures
        pixel_at(
            painted(bytes, width, height, stride, before_place(button, x, y), pixels),
            y * stride + 2 * x,
        ) == pixel_at(bytes, y * stride + 2 * x),
{
    lemma_pixel_in_bounds(y, x, width, height, stride);
    let at = y * stride + 2 * x;
    lemma_pixel_bytes(at, stride, y, x);
    lemma_pixel_bytes(at + 1, stride, y, x);
}

/// Writing a place of a button leads to the next one.
proof fn lemma_step(
    bytes: Seq<u8>,
    width: int,
    height: int,
    stride: int,
    button: ButtonView,
    pixels: spec_fn(int, int) -> Rgb565,
    x: int,
    y: int,
    after: Seq<u8>,
)
    requires
        button.covers(x, y),
        ({
            let now = painted(bytes, width, height, stride, before_place(button, x, y), pixels);
            after == (if 0 <= x < width && 0 <= y < height {
                filled(now, stride, x, x + 1, y, y + 1, pixels(x, y))
            } else {
                now
            })
        }),
    ensures
        after == painted(
            bytes,
            width,
            height,
            stride,
            before_place(button, x + 1, y),
            pixels,
        ),
{
    if 0 <= x < width && 0 <= y < height {
        lemma_painted_next(bytes, width, height, stride, button, pixels, x, y);
    } else {
        lemma_painted_off(bytes, width, height, stride, button, pixels, x, y);
    }
}

/// Inverts one place, and gives back its color.
fn invert_place(surface: &mut Surface, x: i32, y: i32) -> (color: u32)
    requires
        addressable(old(surface)),
    ensures
        addressable(final(surface)),
        final(surface).same_shape(old(surface)),
        final(final(surface).bytes)@ == final(old(surface).bytes)@,
        color == shown_color(
            old(surface)@,
            old(surface).spec_width(),
            old(surface).spec_height(),
            old(surface).spec_stride(),
            x as int,
            y as int,
        ),
        final(surface)@ == (if 0 <= x < old(surface).spec_width() && 0 <= y < old(
            surface,
        ).spec_height() {
            filled(
                old(surface)@,
                old(surface).spec_stride(),
                x as int,
                x + 1,
                y as int,
                y + 1,
                pixel_of(inverted(color) as u32) as Rgb565,
            )
        } else {
            old(surface)@
        }),
{
    let color = match surface.pixel(x, y) {
        Some(pixel) => unpack_color(pixel),
        None => WHITE,
    };
    surface.put_pixel(x, y, pack_color(invert(color)));
    color
}

/// Writes one place.
fn write_place(surface: &mut Surface, x: i32, y: i32, color: u32)
    requires
        addressable(old(surface)),
    ensures
        addressable(final(surface)),
        final(surface).same_shape(old(surface)),
        final(final(surface).bytes)@ == final(old(surface).bytes)@,
        final(surface)@ == (if 0 <= x < old(surface).spec_width() && 0 <= y < old(
            surface,
        ).spec_height() {
            filled(
                old(surface)@,
                old(surface).spec_stride(),
                x as int,
                x + 1,
                y as int,
                y + 1,
                pixel_of(color) as Rgb565,
            )
        } else {
            old(surface)@
        }),
{
    surface.put_pixel(x, y, pack_color(color));
}

/// Where a place of a button stands in its list.
proof fn lemma_place_index(w: int, row: int, column: int)
    requires
        0 <= column < w,
        0 <= row,
    ensures
        (row * w + column) % w == column,
        (row * w + column) / w == row,
        0 <= row * w + column,
{
    lemma_fundamental_div_mod_converse(
        row * w + column,
        w,
        row,
        column,
    );
    assert(0 <= row * w) by (nonlinear_arith)
        requires
            0 <= row,
            0 <= w,
    ;
}

/// Inverts a button, and gives back its colors.
pub fn press(surface: &mut Surface, button: &Button) -> (saved: Vec<u32>)
    requires
        addressable(old(surface)),
        measurable(*button),
    ensures
        final(surface).wf(),
        final(surface).same_shape(old(surface)),
        final(final(surface).bytes)@ == final(old(surface).bytes)@,
        final(surface)@ == painted(
            old(surface)@,
            old(surface).spec_width(),
            old(surface).spec_height(),
            old(surface).spec_stride(),
            places_of(button@),
            inverted_pixels(old(surface)@, old(surface).spec_stride()),
        ),
        saved@.map_values(|c: u32| c as int) == button_colors(
            old(surface)@,
            old(surface).spec_width(),
            old(surface).spec_height(),
            old(surface).spec_stride(),
            button@,
        ),
{
    let ghost bytes = surface@;
    let ghost width = surface.spec_width();
    let ghost height = surface.spec_height();
    let ghost stride = surface.spec_stride();
    let ghost pixels = inverted_pixels(bytes, stride);
    let ghost b = button@;
    let ghost w = extent(b.width);
    let ghost colors = button_colors(bytes, width, height, stride, b);
    let mut saved: Vec<u32> = Vec::new();
    let right: i32 = button.x + button.width;
    let bottom: i32 = button.y + button.height;
    let mut y: i32 = button.y;
    proof {
        assert(bytes =~= painted(
            bytes,
            width,
            height,
            stride,
            before_place(b, b.x, b.y),
            pixels,
        ));
        assert(0 * w == 0);
    }
    while y < bottom
        invariant
            addressable(surface),
            surface.same_shape(old(surface)),
            final(surface.bytes)@ == final(old(surface).bytes)@,
            bytes == old(surface)@,
            width == old(surface).spec_width(),
            height == old(surface).spec_height(),
            stride == old(surface).spec_stride(),
            2 * width <= stride,
            stride * height <= bytes.len(),
            b == button@,
            w == extent(b.width),
            pixels == inverted_pixels(bytes, stride),
            colors == button_colors(bytes, width, height, stride, b),
            right == b.x + b.width,
            bottom == b.y + b.height,
            b.y <= y,
            y <= bottom || y == b.y,
            surface@ == painted(
                bytes,
                width,
                height,
                stride,
                before_place(b, b.x, y as int),
                pixels,
            ),
            saved@.len() == (y - b.y) * w,
            forall|k: int| 0 <= k < saved@.len() ==> #[trigger] saved@[k] == colors[k],
        decreases bottom - y,
    {
        let mut x: i32 = button.x;
        while x < right
            invariant
                addressable(surface),
                surface.same_shape(old(surface)),
                final(surface.bytes)@ == final(old(surface).bytes)@,
                bytes == old(surface)@,
                width == old(surface).spec_width(),
                height == old(surface).spec_height(),
                stride == old(surface).spec_stride(),
                2 * width <= stride,
                stride * height <= bytes.len(),
                b == button@,
                w == extent(b.width),
                pixels == inverted_pixels(bytes, stride),
                colors == button_colors(bytes, width, height, stride, b),
                right == b.x + b.width,
                bottom == b.y + b.height,
                b.y <= y < bottom,
                b.x <= x,
                x <= right || x == b.x,
                surface@ == painted(
                    bytes,
                    width,
                    height,
                    stride,
                    before_place(b, x as int, y as int),
                    pixels,
                ),
                saved@.len() == (y - b.y) * w + (x - b.x),
                forall|k: int| 0 <= k < saved@.len() ==> #[trigger] saved@[k] == colors[k],
            decreases right - x,
        {
            let ghost k = saved@.len() as int;
            proof {
                lemma_place_index(w, y - b.y, x - b.x);
                assert((y - b.y) * w + (x - b.x) < w * extent(b.height)) by (nonlinear_arith)
                    requires
                        0 <= x - b.x < w,
                        0 <= y - b.y < extent(b.height),
                ;
                assert(extent(b.width) * extent(b.height) == w * extent(b.height));
                assert(colors[k] == shown_color(
                    bytes,
                    width,
                    height,
                    stride,
                    x as int,
                    y as int,
                ));
                if 0 <= x < width && 0 <= y < height {
                    lemma_unpainted(bytes, width, height, stride, b, pixels, x as int, y as int);
                }
            }
            let color = invert_place(surface, x, y);
            proof {
                lemma_step(bytes, width, height, stride, b, pixels, x as int, y as int, surface@);
            }
            saved.push(color);
            x = x + 1;
        }
        proof {
            lemma_painted_row(bytes, width, height, stride, b, pixels, x as int, y as int);
            assert((y - b.y + 1) * w == (y - b.y) * w + w) by (nonlinear_arith);
        }
        y = y + 1;
    }
    proof {
        assert(surface@ =~= painted(bytes, width, height, stride, places_of(b), pixels));
        assert((y - b.y) * w == w * extent(b.height)) by (nonlinear_arith)
            requires
                y - b.y == extent(b.height),
        ;
        assert(saved@.map_values(|c: u32| c as int) =~= colors);
    }
    saved
}

/// Gives a button its colors back.
pub fn release(surface: &mut Surface, button: &Button, saved: &[u32])
    requires
        addressable(old(surface)),
        measurable(*button),
        saved@.len() >= extent(button@.width) * extent(button@.height),
    ensures
        final(surface).wf(),
        final(surface).same_shape(old(surface)),
        final(final(surface).bytes)@ == final(old(surface).bytes)@,
        final(surface)@ == painted(
            old(surface)@,
            old(surface).spec_width(),
            old(surface).spec_height(),
            old(surface).spec_stride(),
            places_of(button@),
            saved_pixels(saved@, button@),
        ),
{
    let ghost bytes = surface@;
    let ghost width = surface.spec_width();
    let ghost height = surface.spec_height();
    let ghost stride = surface.spec_stride();
    let ghost b = button@;
    let ghost pixels = saved_pixels(saved@, b);
    let ghost w = extent(b.width);
    let right: i32 = button.x + button.width;
    let bottom: i32 = button.y + button.height;
    let mut index: usize = 0;
    let mut y: i32 = button.y;
    proof {
        assert(bytes =~= painted(
            bytes,
            width,
            height,
            stride,
            before_place(b, b.x, b.y),
            pixels,
        ));
        assert(0 * w == 0);
    }
    while y < bottom
        invariant
            addressable(surface),
            surface.same_shape(old(surface)),
            final(surface.bytes)@ == final(old(surface).bytes)@,
            bytes == old(surface)@,
            width == old(surface).spec_width(),
            height == old(surface).spec_height(),
            stride == old(surface).spec_stride(),
            b == button@,
            w == extent(b.width),
            pixels == saved_pixels(saved@, b),
            saved@.len() >= extent(b.width) * extent(b.height),
            right == b.x + b.width,
            bottom == b.y + b.height,
            b.y <= y,
            y <= bottom || y == b.y,
            surface@ == painted(
                bytes,
                width,
                height,
                stride,
                before_place(b, b.x, y as int),
                pixels,
            ),
            index == (y - b.y) * w,
        decreases bottom - y,
    {
        let mut x: i32 = button.x;
        while x < right
            invariant
                addressable(surface),
                surface.same_shape(old(surface)),
                final(surface.bytes)@ == final(old(surface).bytes)@,
                bytes == old(surface)@,
                width == old(surface).spec_width(),
                height == old(surface).spec_height(),
                stride == old(surface).spec_stride(),
                b == button@,
                w == extent(b.width),
                pixels == saved_pixels(saved@, b),
                saved@.len() >= extent(b.width) * extent(b.height),
                right == b.x + b.width,
                bottom == b.y + b.height,
                b.y <= y < bottom,
                b.x <= x,
                x <= right || x == b.x,
                surface@ == painted(
                    bytes,
                    width,
                    height,
                    stride,
                    before_place(b, x as int, y as int),
                    pixels,
                ),
                index == (y - b.y) * w + (x - b.x),
            decreases right - x,
        {
            proof {
                assert((y - b.y) * w + (x - b.x) < w * extent(b.height)) by (nonlinear_arith)
                    requires
                        0 <= x - b.x < w,
                        0 <= y - b.y < extent(b.height),
                ;
                assert(w == b.width);
            }
            write_place(surface, x, y, saved[index]);
            proof {
                lemma_step(bytes, width, height, stride, b, pixels, x as int, y as int, surface@);
            }
            index = index + 1;
            x = x + 1;
        }
        proof {
            lemma_painted_row(bytes, width, height, stride, b, pixels, x as int, y as int);
            assert((y - b.y + 1) * w == (y - b.y) * w + w) by (nonlinear_arith);
        }
        y = y + 1;
    }
    proof {
        assert(surface@ =~= painted(bytes, width, height, stride, places_of(b), pixels));
    }
}

/// A button that was pressed and released looks as before, and so does the
/// rest of the surface.
pub proof fn released_buttons_look_as_before(
    bytes: Seq<u8>,
    width: int,
    height: int,
    stride: int,
    button: ButtonView,
    saved: Seq<u32>,
)
    requires
        0 <= width,
        0 <= height,
        2 * width <= stride,
        stride * height <= bytes.len(),
        saved.map_values(|c: u32| c as int) == button_colors(bytes, width, height, stride, button),
    ensures
        ({
            let pressed = painted(
                bytes,
                width,
                height,
                stride,
                places_of(button),
                inverted_pixels(bytes, stride),
            );
            painted(
                pressed,
                width,
                height,
                stride,
                places_of(button),
                saved_pixels(saved, button),
            ) == bytes
        }),
{
    let pressed = painted(
        bytes,
        width,
        height,
        stride,
        places_of(button),
        inverted_pixels(bytes, stride),
    );
    let released = painted(
        pressed,
        width,
        height,
        stride,
        places_of(button),
        saved_pixels(saved, button),
    );
    assert forall|i: int| 0 <= i < bytes.len() implies released[i] == bytes[i] by {
        if stride > 0 {
            lemma_row_column(i, stride);
            let x = column_of(i, stride);
            let y = row_of(i, stride);
            if x < width && y < height && button.covers(x, y) {
                lemma_restored(bytes, width, height, stride, button, saved, i);
            }
        }
    }
    assert(released =~= bytes);
}

/// The saved color of a place is the one that it showed.
proof fn lemma_saved_color(
    bytes: Seq<u8>,
    width: int,
    height: int,
    stride: int,
    button: ButtonView,
    saved: Seq<u32>,
    x: int,
    y: int,
)
    requires
        button.covers(x, y),
        saved.map_values(|c: u32| c as int) == button_colors(bytes, width, height, stride, button),
    ensures
        saved[(y - button.y) * button.width + (x - button.x)] == shown_color(
            bytes,
            width,
            height,
            stride,
            x,
            y,
        ),
{
    let w = button.width;
    let k = (y - button.y) * w + (x - button.x);
    lemma_place_index(w, y - button.y, x - button.x);
    assert(k < w * button.height) by (nonlinear_arith)
        requires
            0 <= x - button.x < w,
            0 <= y - button.y < button.height,
            k == (y - button.y) * w + (x - button.x),
    ;
    let colors = button_colors(bytes, width, height, stride, button);
    assert(colors.len() == w * button.height);
    assert(colors[k] == shown_color(
        bytes,
        width,
        height,
        stride,
        button.x + k % w,
        button.y + k / w,
    ));
    assert(saved.map_values(|c: u32| c as int)[k] == saved[k] as int);
}

/// A byte is that of the pixel in its row and column.
proof fn lemma_byte_of_pixel(bytes: Seq<u8>, width: int, height: int, stride: int, i: int)
    requires
        0 <= i < bytes.len(),
        2 * width <= stride,
        stride * height <= bytes.len(),
        0 <= column_of(i, stride) < width,
        0 <= row_of(i, stride) < height,
    ensures
        pixel_byte(
            pixel_at(bytes, row_of(i, stride) * stride + 2 * column_of(i, stride)),
            (i % stride) % 2,
        ) == bytes[i],
{
    let x = column_of(i, stride);
    let y = row_of(i, stride);
    lemma_pixel_in_bounds(y, x, width, height, stride);
    lemma_pixel_bytes(i, stride, y, x);
    let at = y * stride + 2 * x;
    let low = bytes[at] as int;
    let high = bytes[at + 1] as int;
    lemma_fundamental_div_mod_converse(low + high * 256, 256, high, low);
}

/// A byte of a button is the same after it was pressed and released.
proof fn lemma_restored(
    bytes: Seq<u8>,
    width: int,
    height: int,
    stride: int,
    button: ButtonView,
    saved: Seq<u32>,
    i: int,
)
    requires
        0 <= i < bytes.len(),
        2 * width <= stride,
        stride * height <= bytes.len(),
        0 <= column_of(i, stride) < width,
        0 <= row_of(i, stride) < height,
        button.covers(column_of(i, stride), row_of(i, stride)),
        saved.map_values(|c: u32| c as int) == button_colors(bytes, width, height, stride, button),
    ensures
        pixel_byte(
            saved_pixels(saved, button)(column_of(i, stride), row_of(i, stride)),
            (i % stride) % 2,
        ) == bytes[i],
{
    let x = column_of(i, stride);
    let y = row_of(i, stride);
    lemma_saved_color(bytes, width, height, stride, button, saved, x, y);
    lemma_byte_of_pixel(bytes, width, height, stride, i);
    pixels_round_trip(pixel_at(bytes, y * stride + 2 * x));
}

/// Inverting a color turns each of its three parts round and keeps its opacity; inverted twice, it
/// is what it was.
pub proof fn inverted_colors_are_turned_round(color: u32)
    ensures
        0 <= inverted(color) <= u32::MAX,
        inverted(inverted(color) as u32) == color,
        inverted(color) % 256 == 255 - color as int % 256,
        (inverted(color) / 256) % 256 == 255 - (color as int / 256) % 256,
        (inverted(color) / 65536) % 256 == 255 - (color as int / 65536) % 256,
        inverted(color) / 0x0100_0000 == color as int / 0x0100_0000,
{
    let c = color as int;
    let alpha = c / 0x0100_0000;
    let rest = c % 0x0100_0000;
    let red = rest / 65536;
    let green = (rest / 256) % 256;
    let blue = rest % 256;
    assert(rest == red * 65536 + green * 256 + blue);
    lemma_four_parts(alpha, red, green, blue);
    let turned = alpha * 0x0100_0000 + (255 - red) * 65536 + (255 - green) * 256 + (255 - blue);
    lemma_four_parts(alpha, 255 - red, 255 - green, 255 - blue);
    assert(inverted(color) == turned);
    assert(turned % 0x0100_0000 == 0x00ff_ffff - rest);
}

/// The four bytes of a color are read back from it.
proof fn lemma_four_parts(alpha: int, red: int, green: int, blue: int)
    requires
        0 <= alpha < 256,
        0 <= red < 256,
        0 <= green < 256,
        0 <= blue < 256,
    ensures
        ({
            let color = alpha * 0x0100_0000 + red * 65536 + green * 256 + blue;
            &&& 0 <= color <= u32::MAX
            &&& color / 0x0100_0000 == alpha
            &&& color % 0x0100_0000 == red * 65536 + green * 256 + blue
            &&& (color / 65536) % 256 == red
            &&& (color / 256) % 256 == green
            &&& color % 256 == blue
        }),
{
    let color = alpha * 0x0100_0000 + red * 65536 + green * 256 + blue;
    assert(0 <= red * 65536 + green * 256 + blue < 0x0100_0000);
    assert(color / 65536 == alpha * 256 + red);
    assert((alpha * 256 + red) % 256 == red);
    assert(color / 256 == (alpha * 256 + red) * 256 + green);
    assert(((alpha * 256 + red) * 256 + green) % 256 == green);
}

/// A color becomes a pixel of the surface with the upper bits of its red, green and blue parts, in
/// this order; its opacity does not matter.
pub proof fn colors_become_pixels(red: int, green: int, blue: int, alpha: int)
    requires
        0 <= red < 256,
        0 <= green < 256,
        0 <= blue < 256,
        0 <= alpha < 256,
    ensures
        ({
            let color = (alpha * 0x0100_0000 + red * 0x1_0000 + green * 0x100 + blue) as u32;
            &&& pixel_of(color) / 2048 == red / 8
            &&& (pixel_of(color) / 32) % 64 == green / 4
            &&& pixel_of(color) % 32 == blue / 8
            &&& 0 <= pixel_of(color) <= u16::MAX
        }),
{
    lemma_four_parts(alpha, red, green, blue);
    let (r, g, b) = (red / 8, green / 4, blue / 8);
    assert(0 <= r < 32 && 0 <= g < 64 && 0 <= b < 32);
    let pixel = r * 2048 + g * 32 + b;
    assert(pixel / 2048 == r);
    assert(pixel / 32 == r * 64 + g);
    assert((r * 64 + g) % 64 == g);
    assert(pixel % 32 == b);
}

/// A pixel becomes an opaque color whose parts span the full range.
pub proof fn pixels_become_opaque_colors(pixel: Rgb565)
    ensures
        color_of(pixel) / 0x0100_0000 == 255,
        color_of(0xffff) == 0xffff_ffff,
        color_of(0x0000) == 0xff00_0000,
        color_of(0xf800) == 0xffff_0000,
        color_of(0x07e0) == 0xff00_ff00,
        color_of(0x001f) == 0xff00_00ff,
{
    pixels_round_trip(pixel);
    let p = pixel as int;
    lemma_five_bits(p / 2048);
    lemma_six_bits((p / 32) % 64);
    lemma_five_bits(p % 32);
}

/// Painting changes exactly the places it is about that lie on the surface, and gives them their
/// pixels.
pub proof fn painting_changes_its_places(
    bytes: Seq<u8>,
    width: int,
    height: int,
    stride: int,
    places: spec_fn(int, int) -> bool,
    pixels: spec_fn(int, int) -> Rgb565,
    x: int,
    y: int,
)
    requires
        0 <= x < width,
        0 <= y < height,
        2 * width <= stride,
        stride * height <= bytes.len(),
    ensures
        pixel_at(
            painted(bytes, width, height, stride, places, pixels),
            y * stride + 2 * x,
        ) == (if places(x, y) {
            pixels(x, y)
        } else {
            pixel_at(bytes, y * stride + 2 * x)
        }),
{
    let i = y * stride + 2 * x;
    crate::sdk::surface::lemma_pixel_in_bounds(y, x, width, height, stride);
    crate::sdk::surface::lemma_pixel_bytes(i, stride, y, x);
    crate::sdk::surface::lemma_pixel_bytes(i + 1, stride, y, x);
}

/// A pressed button is seen inverted: each of its places has the pixel of the inverted color, and
/// every other place is as before.
pub proof fn pressed_buttons_are_seen_inverted(
    bytes: Seq<u8>,
    width: int,
    height: int,
    stride: int,
    button: ButtonView,
    x: int,
    y: int,
)
    requires
        0 <= x < width,
        0 <= y < height,
        2 * width <= stride,
        stride * height <= bytes.len(),
    ensures
        ({
            let pressed = painted(
                bytes,
                width,
                height,
                stride,
                places_of(button),
                inverted_pixels(bytes, stride),
            );
            let before = pixel_at(bytes, y * stride + 2 * x);
            let after = pixel_at(pressed, y * stride + 2 * x);
            let inside = button.x <= x < button.x + button.width && button.y <= y < button.y
                + button.height;
            &&& !inside ==> after == before
            &&& inside ==> after == pixel_of(inverted(color_of(before) as u32) as u32) as Rgb565
        }),
{
    painting_changes_its_places(
        bytes,
        width,
        height,
        stride,
        places_of(button),
        inverted_pixels(bytes, stride),
        x,
        y,
    );
}

/// A rectangle of the page colors exactly the places inside it that lie on the surface, also where
/// it begins before the surface or ends behind it.
pub proof fn rectangles_color_their_places(
    surface: &Surface,
    x: int,
    y: int,
    width: int,
    height: int,
    color: u32,
    row: int,
    column: int,
)
    requires
        surface.wf(),
        0 <= row < surface.spec_height(),
        0 <= column < surface.spec_width(),
    ensures
        pixel_at(
            colored(surface, x, y, width, height, color),
            row * surface.spec_stride() + 2 * column,
        ) == (if x <= column < x + width && y <= row < y + height {
            pixel_of(color) as Rgb565
        } else {
            pixel_at(surface@, row * surface.spec_stride() + 2 * column)
        }),
{
    assert(surface.spec_stride() * surface.spec_height() == surface.stride * surface.height);
    crate::sdk::surface::fills_color_their_rectangle(
        surface@,
        surface.spec_width(),
        surface.spec_height(),
        surface.spec_stride(),
        x,
        y,
        width,
        height,
        pixel_of(color) as Rgb565,
        row,
        column,
    );
}

} // verus!
