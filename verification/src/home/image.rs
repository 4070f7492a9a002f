//! Wallpaper images: what a decoded picture holds and how it is read from a PNG file.
use vstd::prelude::*;
use crate::text::{decimal, decimal_text};

verus! {

/// The largest number of bytes that a picture may take once it is decoded.
pub const MAX_DECODED_BYTES: usize = 67_108_864;

/// What the samples of a pixel stand for.
#[derive(Clone, Copy, Debug, PartialEq, Eq, Structural)]
pub enum ColorType {
    Grayscale,
    GrayscaleAlpha,
    Rgb,
    Rgba,
    Indexed,
}

/// Why a wallpaper cannot be shown.
#[derive(Debug, PartialEq, Eq)]
pub enum ImageError {
    /// The file is no PNG picture that can be read, with the reader's own words.
    Undecodable(String),
    /// The picture is empty or too large once decoded, with its size where that can be told.
    OutsideLimit(Option<usize>),
    NotEightBits,
    NotExpanded,
    TooLarge,
    InvalidLength,
}

/// An error of a wallpaper, for contracts.
pub enum ImageErrorView {
    Undecodable(Seq<char>),
    OutsideLimit(Option<usize>),
    NotEightBits,
    NotExpanded,
    TooLarge,
    InvalidLength,
}

impl View for ImageError {
    type V = ImageErrorView;

    open spec fn view(&self) -> ImageErrorView {
        match *self {
            ImageError::Undecodable(words) => ImageErrorView::Undecodable(words@),
            ImageError::OutsideLimit(size) => ImageErrorView::OutsideLimit(size),
            ImageError::NotEightBits => ImageErrorView::NotEightBits,
            ImageError::NotExpanded => ImageErrorView::NotExpanded,
            ImageError::TooLarge => ImageErrorView::TooLarge,
            ImageError::InvalidLength => ImageErrorView::InvalidLength,
        }
    }
}

impl ImageErrorView {
    /// The words that say what is wrong with the wallpaper.
    pub open spec fn text(self) -> Seq<char> {
        match self {
            ImageErrorView::Undecodable(words) => words,
            ImageErrorView::OutsideLimit(Some(size)) => "decoded size "@ + decimal(size as nat)
                + " is outside the safe limit"@,
            ImageErrorView::OutsideLimit(None) => "decoded size is outside the safe limit"@,
            ImageErrorView::NotEightBits => "wallpaper did not decode to 8-bit pixels"@,
            ImageErrorView::NotExpanded => "indexed wallpaper was not expanded"@,
            ImageErrorView::TooLarge => "wallpaper is too large"@,
            ImageErrorView::InvalidLength => "wallpaper pixel buffer has an invalid length"@,
        }
    }
}

impl ImageError {
    /// The words that say what is wrong with the wallpaper.
    pub fn message(&self) -> (r: String)
        ensures
            r@ == self@.text(),
    {
        match self {
            ImageError::Undecodable(words) => words.clone(),
            ImageError::OutsideLimit(Some(size)) => {
                let mut text = "decoded size ".to_owned();
                let number = decimal_text(*size as u64);
                text.append(number.as_str());
                text.append(" is outside the safe limit");
                text
            },
            ImageError::OutsideLimit(None) => "decoded size is outside the safe limit".to_owned(),
            ImageError::NotEightBits => "wallpaper did not decode to 8-bit pixels".to_owned(),
            ImageError::NotExpanded => "indexed wallpaper was not expanded".to_owned(),
            ImageError::TooLarge => "wallpaper is too large".to_owned(),
            ImageError::InvalidLength => "wallpaper pixel buffer has an invalid length".to_owned(),
        }
    }
}

/// A picture in full color, row by row from the top.
#[derive(Debug)]
pub struct ColorImage {
    pub width: usize,
    pub height: usize,
    pub pixels: Vec<[u8; 3]>,
}

impl ColorImage {
    /// A picture that has one color for each of its places.
    pub open spec fn wf(&self) -> bool {
        self.pixels@.len() == self.width * self.height
    }
}

/// A part of a color as it shows through to white.
pub open spec fn over_white(channel: u8, alpha: u8) -> int {
    (channel * alpha + 255 * (255 - alpha)) / 255
}

/// A part of a color as it shows through to white: what is not covered is white.
pub fn composite_white(channel: u8, alpha: u8) -> (r: u8)
    ensures
        r == over_white(channel, alpha),
        alpha == 255 ==> r == channel,
        alpha == 0 ==> r == 255,
{
    let a: u32 = alpha as u32;
    assert(channel * a <= 255 * a) by (nonlinear_arith)
        requires
            channel <= 255,
    ;
    assert(0 <= channel * a) by (nonlinear_arith);
    let c: u32 = channel as u32 * a;
    assert(a == 255 ==> c == channel * 255);
    assert(a == 0 ==> c == 0);
    ((c + 255 * (255 - a)) / 255) as u8
}

/// How many samples a pixel has; none where colors are numbers in a list.
pub open spec fn channels_of(color: ColorType) -> int {
    match color {
        ColorType::Grayscale => 1,
        ColorType::GrayscaleAlpha => 2,
        ColorType::Rgb => 3,
        ColorType::Rgba => 4,
        ColorType::Indexed => 0,
    }
}

/// The three parts of a pixel's color, whose samples start at `at`, over white.
pub open spec fn shown_color(source: Seq<u8>, color: ColorType, at: int) -> (u8, u8, u8) {
    let alpha = match color {
        ColorType::GrayscaleAlpha => source[at + 1],
        ColorType::Rgba => source[at + 3],
        _ => 255,
    };
    let (green, blue) = match color {
        ColorType::Rgb | ColorType::Rgba => (source[at + 1], source[at + 2]),
        _ => (source[at], source[at]),
    };
    (
        over_white(source[at], alpha) as u8,
        over_white(green, alpha) as u8,
        over_white(blue, alpha) as u8,
    )
}

/// The three parts of a color.
pub open spec fn parts(pixel: [u8; 3]) -> (u8, u8, u8) {
    (pixel@[0], pixel@[1], pixel@[2])
}

/// What is wrong with samples that should make a picture of the given size.
pub open spec fn samples_error(
    source: Seq<u8>,
    color: ColorType,
    width: usize,
    height: usize,
) -> Option<ImageErrorView> {
    if color == ColorType::Indexed {
        Some(ImageErrorView::NotExpanded)
    } else if width * height * channels_of(color) > usize::MAX {
        Some(ImageErrorView::TooLarge)
    } else if source.len() != width * height * channels_of(color) {
        Some(ImageErrorView::InvalidLength)
    } else {
        None
    }
}

/// The number of samples of a picture, where it can be counted.
fn sample_count(width: usize, height: usize, channels: usize) -> (r: Option<usize>)
    requires
        1 <= channels <= 4,
    ensures
        match r {
            Some(n) => n == width * height * channels,
            None => width * height * channels > usize::MAX,
        },
{
    match width.checked_mul(height) {
        None => {
            assert(width * height * channels >= width * height) by (nonlinear_arith)
                requires
                    1 <= channels,
                    width * height >= 0,
            ;
            None
        },
        Some(pixels) => pixels.checked_mul(channels),
    }
}

/// The color of the pixel whose samples start at `at`.
fn color_at(source: &[u8], color: ColorType, at: usize) -> (r: [u8; 3])
    requires
        color != ColorType::Indexed,
        at + channels_of(color) <= source@.len(),
    ensures
        parts(r) == shown_color(source@, color, at as int),
{
    let first: u8 = source[at];
    let (green, blue, alpha): (u8, u8, u8) = match color {
        ColorType::Grayscale => (first, first, 255),
        ColorType::GrayscaleAlpha => (first, first, source[at + 1]),
        ColorType::Rgb => (source[at + 1], source[at + 2], 255),
        ColorType::Rgba => (source[at + 1], source[at + 2], source[at + 3]),
        ColorType::Indexed => (first, first, 255),
    };
    [
        composite_white(first, alpha),
        composite_white(green, alpha),
        composite_white(blue, alpha),
    ]
}

/// The colors of a picture's pixels, from its samples.
pub fn to_rgb(source: &[u8], color: ColorType, width: usize, height: usize) -> (r: Result<
    Vec<[u8; 3]>,
    ImageError,
>)
    ensures
        match r {
            Ok(pixels) => {
                &&& samples_error(source@, color, width, height) is None
                &&& pixels@.len() == width * height
                &&& forall|i: int|
                    0 <= i < pixels@.len() ==> parts(#[trigger] pixels@[i]) == shown_color(
                        source@,
                        color,
                        i * channels_of(color),
                    )
            },
            Err(error) => samples_error(source@, color, width, height) == Some(error@),
        },
{
    let channels: usize = match color {
        ColorType::Grayscale => 1,
        ColorType::GrayscaleAlpha => 2,
        ColorType::Rgb => 3,
        ColorType::Rgba => 4,
        ColorType::Indexed => {
            return Err(ImageError::NotExpanded);
        },
    };
    let expected: usize = match sample_count(width, height, channels) {
        Some(n) => n,
        None => {
            return Err(ImageError::TooLarge);
        },
    };
    let length: usize = source.len();
    if length != expected {
        return Err(ImageError::InvalidLength);
    }
    let mut pixels: Vec<[u8; 3]> = Vec::new();
    let mut at: usize = 0;
    let ghost count = width * height;
    assert(0 <= count) by (nonlinear_arith)
        requires
            count == width * height,
    ;
    while at < length
        invariant
            color != ColorType::Indexed,
            channels == channels_of(color),
            length == source@.len(),
            length == count * channels,
            at == pixels@.len() * channels,
            pixels@.len() <= count,
            at <= length,
            forall|i: int|
                0 <= i < pixels@.len() ==> parts(#[trigger] pixels@[i]) == shown_color(
                    source@,
                    color,
                    i * channels_of(color),
                ),
        decreases length - at,
    {
        let ghost done = pixels@.len() as int;
        assert(done < count && (done + 1) * channels <= count * channels && (done + 1) * channels
            == done * channels + channels) by (nonlinear_arith)
            requires
                done * channels < count * channels,
                1 <= channels,
        ;
        pixels.push(color_at(source, color, at));
        at = at + channels;
    }
    assert(pixels@.len() == count) by (nonlinear_arith)
        requires
            pixels@.len() * channels == count * channels,
            1 <= channels,
    ;
    Ok(pixels)
}

/// One decoded picture: how its samples are laid out, and the samples.
///
/// The depth is the number of bits of a sample, and the color number that of the PNG format:
/// 0 for gray, 2 for color, 3 for a color list, 4 and 6 for the first two with alpha.
pub struct PngFrame {
    pub depth: u8,
    pub color: u8,
    pub width: u32,
    pub height: u32,
    pub data: Vec<u8>,
}

/// One decoded picture, for contracts.
pub struct FrameView {
    pub depth: u8,
    pub color: u8,
    pub width: u32,
    pub height: u32,
    pub data: Seq<u8>,
}

impl View for PngFrame {
    type V = FrameView;

    open spec fn view(&self) -> FrameView {
        FrameView {
            depth: self.depth,
            color: self.color,
            width: self.width,
            height: self.height,
            data: self.data@,
        }
    }
}

/// How many bytes a PNG file takes once decoded, or the decoder's words on why it cannot be read.
pub uninterp spec fn png_decoded_size(bytes: Seq<u8>) -> Result<nat, Seq<char>>;

/// The first picture of a PNG file, or the decoder's words on why it cannot be read.
pub uninterp spec fn png_picture(bytes: Seq<u8>) -> Result<FrameView, Seq<char>>;

/// `png::Decoder::read_info` and `png::Reader::output_buffer_size`, with palettes and small
/// samples expanded and wide samples cut to eight bits: the number of bytes of the decoded
/// picture. No number is given for one that is larger than the memory can address.
#[verifier::external_body]
fn decoded_size(bytes: &[u8]) -> (r: Result<Option<usize>, String>)
    ensures
        match r {
            Ok(Some(size)) => png_decoded_size(bytes@) == Ok::<nat, Seq<char>>(size as nat)
                && size <= isize::MAX,
            Ok(None) => png_decoded_size(bytes@) is Ok && png_decoded_size(bytes@)->Ok_0
                > isize::MAX,
            Err(words) => png_decoded_size(bytes@) == Err::<nat, Seq<char>>(words@),
        },
{
    let mut decoder = png::Decoder::new(std::io::Cursor::new(bytes));
    decoder.set_transformations(png::Transformations::EXPAND | png::Transformations::STRIP_16);
    let reader = decoder.read_info().map_err(|error| error.to_string())?;
    Ok(reader.output_buffer_size())
}

/// `png::Reader::next_frame`, with palettes and small samples expanded and wide samples cut to
/// eight bits: the first picture of the file, in a buffer of the size that the reader asks for.
/// The bytes after the picture's own samples are left out.
#[verifier::external_body]
fn first_picture(bytes: &[u8], size: usize) -> (r: Result<PngFrame, String>)
    requires
        png_decoded_size(bytes@) == Ok::<nat, Seq<char>>(size as nat),
        size <= isize::MAX,
    ensures
        match r {
            Ok(frame) => png_picture(bytes@) == Ok::<FrameView, Seq<char>>(frame@),
            Err(words) => png_picture(bytes@) == Err::<FrameView, Seq<char>>(words@),
        },
{
    let mut decoder = png::Decoder::new(std::io::Cursor::new(bytes));
    decoder.set_transformations(png::Transformations::EXPAND | png::Transformations::STRIP_16);
    let mut reader = decoder.read_info().map_err(|error| error.to_string())?;
    let mut data = vec![0; size];
    let output = reader.next_frame(&mut data).map_err(|error| error.to_string())?;
    data.truncate(output.buffer_size());
    let (depth, color) = (output.bit_depth as u8, output.color_type as u8);
    Ok(PngFrame { depth, color, width: output.width, height: output.height, data })
}

/// What the color numbers of the PNG format stand for.
pub open spec fn color_of_number(number: u8) -> ColorType {
    if number == 0 {
        ColorType::Grayscale
    } else if number == 2 {
        ColorType::Rgb
    } else if number == 4 {
        ColorType::GrayscaleAlpha
    } else if number == 6 {
        ColorType::Rgba
    } else {
        ColorType::Indexed
    }
}

/// What the color numbers of the PNG format stand for.
fn color_type(number: u8) -> (r: ColorType)
    ensures
        r == color_of_number(number),
{
    if number == 0 {
        ColorType::Grayscale
    } else if number == 2 {
        ColorType::Rgb
    } else if number == 4 {
        ColorType::GrayscaleAlpha
    } else if number == 6 {
        ColorType::Rgba
    } else {
        ColorType::Indexed
    }
}

/// A decoded size that is neither nothing nor more than a picture may take.
pub open spec fn size_allowed(size: int) -> bool {
    0 < size <= MAX_DECODED_BYTES
}

/// What is wrong with a decoded picture.
pub open spec fn frame_error(frame: FrameView) -> Option<ImageErrorView> {
    if frame.depth != 8 {
        Some(ImageErrorView::NotEightBits)
    } else {
        samples_error(
            frame.data,
            color_of_number(frame.color),
            frame.width as usize,
            frame.height as usize,
        )
    }
}

/// Whether an image is the picture that a decoder gave out.
pub open spec fn is_picture(image: ColorImage, frame: FrameView) -> bool {
    &&& image.wf()
    &&& image.width == frame.width
    &&& image.height == frame.height
    &&& forall|i: int|
        0 <= i < image.pixels@.len() ==> parts(#[trigger] image.pixels@[i]) == shown_color(
            frame.data,
            color_of_number(frame.color),
            i * channels_of(color_of_number(frame.color)),
        )
}

/// The image of a decoded picture.
pub fn image_from(frame: PngFrame) -> (r: Result<ColorImage, ImageError>)
    ensures
        match r {
            Ok(image) => frame_error(frame@) is None && is_picture(image, frame@),
            Err(error) => frame_error(frame@) == Some(error@),
        },
{
    if frame.depth != 8 {
        return Err(ImageError::NotEightBits);
    }
    let width: usize = frame.width as usize;
    let height: usize = frame.height as usize;
    match to_rgb(frame.data.as_slice(), color_type(frame.color), width, height) {
        Ok(pixels) => Ok(ColorImage { width, height, pixels }),
        Err(error) => Err(error),
    }
}

/// Tests the size that a picture takes once decoded.
pub fn check_decoded_size(size: Option<usize>) -> (r: Result<usize, ImageError>)
    ensures
        match r {
            Ok(n) => size == Some(n) && size_allowed(n as int),
            Err(error) => error@ == ImageErrorView::OutsideLimit(size) && (size is Some ==>
                !size_allowed(size->Some_0 as int)),
        },
{
    match size {
        Some(n) => {
            if n == 0 || n > MAX_DECODED_BYTES {
                Err(ImageError::OutsideLimit(size))
            } else {
                Ok(n)
            }
        },
        None => Err(ImageError::OutsideLimit(size)),
    }
}

/// What is wrong with a wallpaper's file; a size that is outside the limit comes before what
/// its samples hold.
pub open spec fn file_error(bytes: Seq<u8>) -> Option<ImageErrorView> {
    match png_decoded_size(bytes) {
        Err(words) => Some(ImageErrorView::Undecodable(words)),
        Ok(size) => if !size_allowed(size as int) {
            Some(
                ImageErrorView::OutsideLimit(
                    if size <= isize::MAX {
                        Some(size as usize)
                    } else {
                        None
                    },
                ),
            )
        } else {
            match png_picture(bytes) {
                Err(words) => Some(ImageErrorView::Undecodable(words)),
                Ok(frame) => frame_error(frame),
            }
        },
    }
}

/// The image in the bytes of a PNG file.
pub fn decode_png(bytes: &[u8]) -> (r: Result<ColorImage, ImageError>)
    ensures
        match r {
            Ok(image) => {
                &&& file_error(bytes@) is None
                &&& png_picture(bytes@) is Ok
                &&& is_picture(image, png_picture(bytes@)->Ok_0)
            },
            Err(error) => file_error(bytes@) == Some(error@),
        },
{
    let size: usize = match decoded_size(bytes) {
        Err(words) => {
            return Err(ImageError::Undecodable(words));
        },
        Ok(found) => match check_decoded_size(found) {
            Ok(n) => n,
            Err(error) => {
                return Err(error);
            },
        },
    };
    match first_picture(bytes, size) {
        Err(words) => Err(ImageError::Undecodable(words)),
        Ok(frame) => image_from(frame),
    }
}

/// The number of a color whose parts are given.
pub open spec fn color_number(red: u8, green: u8, blue: u8) -> int {
    0xff00_0000 + red * 65536 + green * 256 + blue
}

/// The number of a color whose parts are given.
pub fn rgb_color(red: u8, green: u8, blue: u8) -> (r: u32)
    ensures
        r == color_number(red, green, blue),
{
    0xff00_0000 + red as u32 * 65536 + green as u32 * 256 + blue as u32
}

/// A part of a color over white lies between itself and white, and comes closer to itself the
/// more opaque it is.
pub proof fn parts_over_white_lie_between(channel: u8, less: u8, more: u8)
    requires
        less <= more,
    ensures
        channel <= over_white(channel, more) <= over_white(channel, less) <= 255,
        over_white(channel, 255) == channel,
        over_white(channel, 0) == 255,
        over_white(255, more) == 255,
{
    let c = channel as int;
    assert(c * less + 255 * (255 - less) == 255 * 255 - (255 - c) * less) by (nonlinear_arith);
    assert(c * more + 255 * (255 - more) == 255 * 255 - (255 - c) * more) by (nonlinear_arith);
    assert(0 <= (255 - c) * less <= (255 - c) * more) by (nonlinear_arith)
        requires
            0 <= c <= 255,
            0 <= less <= more,
    ;
    assert((255 - c) * more <= (255 - c) * 255) by (nonlinear_arith)
        requires
            0 <= c <= 255,
            more <= 255,
    ;
}

/// A picture without transparency keeps its colors: three samples are the three parts in their
/// order, and a single one is all of them.
pub proof fn opaque_samples_are_kept(source: Seq<u8>, at: int)
    ensures
        shown_color(source, ColorType::Rgb, at) == (source[at], source[at + 1], source[at + 2]),
        shown_color(source, ColorType::Grayscale, at) == (source[at], source[at], source[at]),
        source[at + 3] == 255 ==> shown_color(source, ColorType::Rgba, at) == (
            source[at],
            source[at + 1],
            source[at + 2],
        ),
        source[at + 1] == 255 ==> shown_color(source, ColorType::GrayscaleAlpha, at) == (
            source[at],
            source[at],
            source[at],
        ),
{
    parts_over_white_lie_between(source[at], 255, 255);
    parts_over_white_lie_between(source[at + 1], 255, 255);
    parts_over_white_lie_between(source[at + 2], 255, 255);
}

/// What is fully transparent is white, and otherwise each part shows through as much as the sample
/// for the opacity says.
pub proof fn transparent_samples_show_the_page(source: Seq<u8>, at: int)
    ensures
        source[at + 3] == 0 ==> shown_color(source, ColorType::Rgba, at) == (255u8, 255u8, 255u8),
        source[at + 1] == 0 ==> shown_color(source, ColorType::GrayscaleAlpha, at) == (
            255u8,
            255u8,
            255u8,
        ),
        shown_color(source, ColorType::Rgba, at) == (
            over_white(source[at], source[at + 3]) as u8,
            over_white(source[at + 1], source[at + 3]) as u8,
            over_white(source[at + 2], source[at + 3]) as u8,
        ),
{
    parts_over_white_lie_between(source[at], 0, 0);
    parts_over_white_lie_between(source[at + 1], 0, 0);
    parts_over_white_lie_between(source[at + 2], 0, 0);
}

/// Samples make a picture exactly where there are as many as its places need, one to four for each
/// place.
pub proof fn samples_fill_the_picture(
    source: Seq<u8>,
    color: ColorType,
    width: usize,
    height: usize,
)
    requires
        width * height * 4 <= usize::MAX,
    ensures
        color == ColorType::Grayscale ==> (samples_error(source, color, width, height) is None
            <==> source.len() == width * height),
        color == ColorType::GrayscaleAlpha ==> (samples_error(source, color, width, height) is None
            <==> source.len() == width * height * 2),
        color == ColorType::Rgb ==> (samples_error(source, color, width, height) is None
            <==> source.len() == width * height * 3),
        color == ColorType::Rgba ==> (samples_error(source, color, width, height) is None
            <==> source.len() == width * height * 4),
        color == ColorType::Indexed ==> samples_error(source, color, width, height) is Some,
{
    let area = width * height;
    assert(0 <= area) by (nonlinear_arith)
        requires
            area == width * height,
    ;
    assert(area * 1 == area && area * 2 <= area * 4 && area * 3 <= area * 4);
}

/// The four kinds of samples that a decoded file can have are told apart by their numbers.
pub proof fn sample_kinds_have_their_numbers(number: u8)
    ensures
        color_of_number(number) == ColorType::Grayscale <==> number == 0,
        color_of_number(number) == ColorType::Rgb <==> number == 2,
        color_of_number(number) == ColorType::GrayscaleAlpha <==> number == 4,
        color_of_number(number) == ColorType::Rgba <==> number == 6,
{
}

/// The picture of a file in full color has the file's own colors, place by place.
pub proof fn pictures_show_their_files(image: ColorImage, frame: FrameView, i: int)
    requires
        is_picture(image, frame),
        frame.color == 2,
        0 <= i < image.width * image.height,
    ensures
        image.pixels@[i]@[0] == frame.data[3 * i],
        image.pixels@[i]@[1] == frame.data[3 * i + 1],
        image.pixels@[i]@[2] == frame.data[3 * i + 2],
        image.width == frame.width,
        image.height == frame.height,
{
    opaque_samples_are_kept(frame.data, 3 * i);
    assert(parts(image.pixels@[i]) == shown_color(
        frame.data,
        color_of_number(frame.color),
        i * channels_of(color_of_number(frame.color)),
    ));
    assert(i * channels_of(color_of_number(frame.color)) == 3 * i);
}

/// A file is shown exactly where its decoded size is within the limit of 64 MiB and it holds a
/// picture of eight-bit samples that fill it.
pub proof fn files_within_the_limit_are_shown(bytes: Seq<u8>)
    ensures
        file_error(bytes) is None <==> {
            &&& png_decoded_size(bytes) is Ok
            &&& 0 < png_decoded_size(bytes)->Ok_0 <= 64 * 1024 * 1024
            &&& png_picture(bytes) is Ok
            &&& png_picture(bytes)->Ok_0.depth == 8
            &&& samples_error(
                png_picture(bytes)->Ok_0.data,
                color_of_number(png_picture(bytes)->Ok_0.color),
                png_picture(bytes)->Ok_0.width as usize,
                png_picture(bytes)->Ok_0.height as usize,
            ) is None
        },
{
}

/// A color's number holds full opacity and then its red, green and blue parts.
pub proof fn color_numbers_hold_their_parts(red: u8, green: u8, blue: u8)
    ensures
        0 <= color_number(red, green, blue) <= u32::MAX,
        color_number(red, green, blue) / 0x0100_0000 == 255,
        (color_number(red, green, blue) / 0x1_0000) % 256 == red,
        (color_number(red, green, blue) / 0x100) % 256 == green,
        color_number(red, green, blue) % 256 == blue,
{
    let (r, g, b) = (red as int, green as int, blue as int);
    let color = color_number(red, green, blue);
    assert(color / 0x1_0000 == 255 * 256 + r);
    assert((255 * 256 + r) % 256 == r);
    assert(color / 0x100 == (255 * 256 + r) * 256 + g);
    assert(((255 * 256 + r) * 256 + g) % 256 == g);
}

} // verus!
