//! Small square copies of the wallpapers, and where they are kept.
use vstd::prelude::*;
use vstd::utf8::encode_utf8;
use crate::home::image::{ColorImage, FrameView};
use crate::home::image::{file_error, parts, png_decoded_size, png_picture};
use crate::home::settings::WallpaperOption;
use crate::home::settings::OptionView;
use crate::home::settings::option_views;
use crate::path::FilePath;
use crate::path::{joined, path_texts};
use crate::system_release::{
    bytes_take_two_digits_each, digits_tell_bytes_apart, hex, hex_text,
};
use crate::text::{decimal, decimal_text};

verus! {

/// The directory that holds the thumbnails.
pub const CACHE_DIR: &'static str = "/home/root/.cache/remagic/wallpaper-thumbnails";

/// The width and the height of a thumbnail.
pub const THUMBNAIL_EDGE: usize = 384;

/// The number of bytes of a thumbnail, three for each of its places.
pub const THUMBNAIL_BYTES: usize = 442_368;

/// The number that a thumbnail's key starts from.
pub const KEY_START: u64 = 0xcbf2_9ce4_8422_2325;

/// The number that each byte multiplies a thumbnail's key by.
pub const KEY_PRIME: u64 = 0x0100_0000_01b3;

/// The side of the largest square that fits into a picture.
pub open spec fn square_edge(image: ColorImage) -> int {
    if image.width <= image.height {
        image.width as int
    } else {
        image.height as int
    }
}

/// The place in a picture that a place of its thumbnail shows: the square in the middle of the
/// picture is stretched over the thumbnail.
pub open spec fn shown_place(image: ColorImage, x: int, y: int) -> (int, int) {
    let edge = square_edge(image);
    (
        (image.width - edge) / 2 + x * edge / THUMBNAIL_EDGE as int,
        (image.height - edge) / 2 + y * edge / THUMBNAIL_EDGE as int,
    )
}

/// The color of a picture at a place.
pub open spec fn color_in(image: ColorImage, place: (int, int)) -> (u8, u8, u8) {
    parts(image.pixels@[place.1 * image.width + place.0])
}

/// One of the three parts of a color.
pub open spec fn part(color: (u8, u8, u8), k: int) -> u8 {
    if k == 0 {
        color.0
    } else if k == 1 {
        color.1
    } else {
        color.2
    }
}

/// The bytes of a picture's thumbnail, row by row from the top.
pub open spec fn thumbnail_of(image: ColorImage) -> Seq<u8> {
    Seq::new(
        THUMBNAIL_BYTES as nat,
        |k: int|
            part(
                color_in(
                    image,
                    shown_place(image, (k / 3) % (THUMBNAIL_EDGE as int), k / 3
                        / THUMBNAIL_EDGE as int),
                ),
                k % 3,
            ),
    )
}

/// The places that a thumbnail shows lie in the middle square of its picture.
proof fn lemma_shown_place(image: ColorImage, x: int, y: int)
    requires
        image.wf(),
        0 < image.width,
        0 < image.height,
        0 <= x < THUMBNAIL_EDGE,
        0 <= y < THUMBNAIL_EDGE,
    ensures
        0 <= x * square_edge(image) <= usize::MAX,
        0 <= y * square_edge(image) <= usize::MAX,
        ({
            let edge = square_edge(image);
            let left = (image.width - edge) / 2;
            let top = (image.height - edge) / 2;
            let place = shown_place(image, x, y);
            &&& left <= place.0 < left + edge <= image.width
            &&& top <= place.1 < top + edge <= image.height
            &&& 0 <= place.1 * image.width
            &&& place.1 * image.width + place.0 < image.pixels@.len() <= usize::MAX
        }),
{
    let edge = square_edge(image);
    let w = image.width as int;
    let h = image.height as int;
    assert(edge * edge <= w * h) by (nonlinear_arith)
        requires
            0 <= edge <= w,
            edge <= h,
    ;
    assert(image.pixels.len() == w * h);
    lemma_scaled(x, edge);
    lemma_scaled(y, edge);
    let place = shown_place(image, x, y);
    assert(0 <= place.1 * w && place.1 * w + place.0 < w * h) by (nonlinear_arith)
        requires
            0 <= place.0 < w,
            0 <= place.1 < h,
    ;
}

/// A place of a thumbnail falls into its square.
proof fn lemma_scaled(x: int, edge: int)
    requires
        0 <= x < THUMBNAIL_EDGE,
        0 < edge,
        edge * edge <= usize::MAX,
    ensures
        0 <= x * edge <= usize::MAX,
        0 <= x * edge / (THUMBNAIL_EDGE as int) < edge,
{
    assert(0 <= x * edge < 384 * edge) by (nonlinear_arith)
        requires
            0 <= x < 384,
            0 < edge,
    ;
    if edge >= 384 {
        assert(x * edge <= edge * edge) by (nonlinear_arith)
            requires
                0 <= x < 384 <= edge,
        ;
    }
}

/// The square in the middle of a picture, as a thumbnail.
pub fn square_thumbnail(image: &ColorImage) -> (r: Vec<u8>)
    requires
        image.wf(),
        0 < image.width,
        0 < image.height,
    ensures
        r@ == thumbnail_of(*image),
{
    let edge: usize = if image.width <= image.height {
        image.width
    } else {
        image.height
    };
    let left: usize = (image.width - edge) / 2;
    let top: usize = (image.height - edge) / 2;
    let mut output: Vec<u8> = Vec::new();
    let mut i: usize = 0;
    while i < THUMBNAIL_EDGE * THUMBNAIL_EDGE
        invariant
            i <= THUMBNAIL_EDGE * THUMBNAIL_EDGE,
            image.wf(),
            0 < image.width,
            0 < image.height,
            edge == square_edge(*image),
            left == (image.width - edge) / 2,
            top == (image.height - edge) / 2,
            output@.len() == 3 * i,
            forall|k: int| 0 <= k < 3 * i ==> #[trigger] output@[k] == thumbnail_of(*image)[k],
        decreases THUMBNAIL_EDGE * THUMBNAIL_EDGE - i,
    {
        let x: usize = i % THUMBNAIL_EDGE;
        let y: usize = i / THUMBNAIL_EDGE;
        proof {
            lemma_shown_place(*image, x as int, y as int);
        }
        let column: usize = left + x * edge / THUMBNAIL_EDGE;
        let row: usize = top + y * edge / THUMBNAIL_EDGE;
        let pixel: [u8; 3] = image.pixels[row * image.width + column];
        output.push(pixel[0]);
        output.push(pixel[1]);
        output.push(pixel[2]);
        i = i + 1;
    }
    assert(output@ =~= thumbnail_of(*image));
    output
}

/// The bytes of a square PNG file in full color, or the encoder's words on why there is none.
pub uninterp spec fn png_encoding(rgb: Seq<u8>, edge: u32) -> Result<Seq<u8>, Seq<char>>;

/// `png::Encoder` with eight bits a sample and no alpha, its header, its image data and its end:
/// a square picture as a PNG file. What `png::Decoder` reads back from the file is the picture.
#[verifier::external_body]
fn encode_square(rgb: &[u8], edge: u32) -> (r: Result<Vec<u8>, String>)
    requires
        0 < edge <= 1024,
        rgb@.len() == edge * edge * 3,
    ensures
        match r {
            Ok(bytes) => {
                &&& png_encoding(rgb@, edge) == Ok::<Seq<u8>, Seq<char>>(bytes@)
                &&& png_decoded_size(bytes@) == Ok::<nat, Seq<char>>(rgb@.len())
                &&& png_picture(bytes@) == Ok::<FrameView, Seq<char>>(
                    (FrameView { depth: 8, color: 2, width: edge, height: edge, data: rgb@ }),
                )
            },
            Err(words) => png_encoding(rgb@, edge) == Err::<Seq<u8>, Seq<char>>(words@),
        },
{
    let mut bytes = Vec::new();
    let mut encoder = png::Encoder::new(&mut bytes, edge, edge);
    encoder.set_color(png::ColorType::Rgb);
    encoder.set_depth(png::BitDepth::Eight);
    let mut writer = encoder.write_header().map_err(|error| error.to_string())?;
    writer.write_image_data(rgb).map_err(|error| error.to_string())?;
    writer.finish().map_err(|error| error.to_string())?;
    Ok(bytes)
}

/// The picture that a thumbnail's file holds.
pub open spec fn thumbnail_frame(image: ColorImage) -> FrameView {
    FrameView { depth: 8, color: 2, width: 384, height: 384, data: thumbnail_of(image) }
}

/// The file of a picture's thumbnail. It can be read back, and shows the thumbnail.
pub fn thumbnail_file(image: &ColorImage) -> (r: Result<Vec<u8>, String>)
    requires
        image.wf(),
        0 < image.width,
        0 < image.height,
    ensures
        match r {
            Ok(bytes) => {
                &&& png_encoding(thumbnail_of(*image), 384) == Ok::<Seq<u8>, Seq<char>>(bytes@)
                &&& file_error(bytes@) is None
                &&& png_picture(bytes@) == Ok::<FrameView, Seq<char>>(thumbnail_frame(*image))
            },
            Err(words) => png_encoding(thumbnail_of(*image), 384) == Err::<Seq<u8>, Seq<char>>(
                words@,
            ),
        },
{
    let rgb = square_thumbnail(image);
    encode_square(rgb.as_slice(), THUMBNAIL_EDGE as u32)
}

/// A key after one more byte.
pub open spec fn key_step(key: u64, byte: u8) -> u64 {
    (((key ^ (byte as u64)) * KEY_PRIME) % 0x1_0000_0000_0000_0000) as u64
}

/// A key after more bytes.
pub open spec fn key_after(key: u64, bytes: Seq<u8>) -> u64
    decreases bytes.len(),
{
    if bytes.len() == 0 {
        key
    } else {
        key_step(key_after(key, bytes.drop_last()), bytes.last())
    }
}

/// The bytes of a number, the lowest first.
pub open spec fn low_first(n: int, count: nat) -> Seq<u8>
    decreases count,
{
    if count == 0 {
        Seq::empty()
    } else {
        seq![(n % 256) as u8] + low_first(n / 256, (count - 1) as nat)
    }
}

/// The bytes of a number, the highest first.
pub open spec fn high_first(n: int, count: nat) -> Seq<u8>
    decreases count,
{
    if count == 0 {
        Seq::empty()
    } else {
        high_first(n / 256, (count - 1) as nat).push((n % 256) as u8)
    }
}

/// The key of a wallpaper's thumbnail: it depends on the file's path, its length and the time
/// when it was last changed, in nanoseconds.
pub open spec fn key_of(path: Seq<char>, length: u64, modified: u128) -> u64 {
    key_after(
        key_after(key_after(KEY_START, encode_utf8(path)), low_first(length as int, 8)),
        low_first(modified as int, 16),
    )
}

/// A key after one more byte.
fn mix(key: u64, byte: u8) -> (r: u64)
    ensures
        r == key_step(key, byte),
{
    (key ^ (byte as u64)).wrapping_mul(KEY_PRIME)
}

/// A key after more bytes.
fn mix_bytes(key: u64, bytes: &[u8]) -> (r: u64)
    ensures
        r == key_after(key, bytes@),
{
    let mut k: u64 = key;
    let mut i: usize = 0;
    let n: usize = bytes.len();
    assert(bytes@.take(0) =~= Seq::<u8>::empty());
    while i < n
        invariant
            i <= n,
            n == bytes@.len(),
            k == key_after(key, bytes@.take(i as int)),
        decreases n - i,
    {
        assert(bytes@.take(i + 1).drop_last() =~= bytes@.take(i as int));
        k = mix(k, bytes[i]);
        i = i + 1;
    }
    assert(bytes@.take(i as int) =~= bytes@);
    k
}

/// The bytes of a number, the lowest first.
fn bytes_low_first(number: u128, count: usize) -> (r: Vec<u8>)
    ensures
        r@ == low_first(number as int, count as nat),
{
    let mut bytes: Vec<u8> = Vec::new();
    let mut rest: u128 = number;
    let mut left: usize = count;
    while left > 0
        invariant
            bytes@ + low_first(rest as int, left as nat) == low_first(
                number as int,
                count as nat,
            ),
        decreases left,
    {
        let byte: u8 = (rest % 256) as u8;
        let ghost before = bytes@;
        bytes.push(byte);
        assert(bytes@ + low_first(rest as int / 256, (left - 1) as nat) =~= before + low_first(
            rest as int,
            left as nat,
        ));
        rest = rest / 256;
        left = left - 1;
    }
    assert(bytes@ + low_first(rest as int, 0) =~= bytes@);
    bytes
}

/// The sixteen hexadecimal digits of a key.
fn key_text(key: u64) -> (r: String)
    ensures
        r@ == hex(high_first(key as int, 8)),
{
    let mut bytes: Vec<u8> = Vec::new();
    bytes.push((key / 0x0100_0000_0000_0000) as u8);
    bytes.push((key / 0x0001_0000_0000_0000 % 256) as u8);
    bytes.push((key / 0x0000_0100_0000_0000 % 256) as u8);
    bytes.push((key / 0x0000_0001_0000_0000 % 256) as u8);
    bytes.push((key / 0x0000_0000_0100_0000 % 256) as u8);
    bytes.push((key / 0x0000_0000_0001_0000 % 256) as u8);
    bytes.push((key / 0x0000_0000_0000_0100 % 256) as u8);
    bytes.push((key % 256) as u8);
    proof {
        reveal_with_fuel(high_first, 9);
        assert(bytes@ =~= high_first(key as int, 8));
    }
    hex_text(bytes.as_slice())
}

/// The key of a wallpaper's thumbnail.
pub fn thumbnail_key(source: &FilePath, length: u64, modified: u128) -> (r: u64)
    ensures
        r == key_of(source@, length, modified),
{
    let named: u64 = mix_bytes(KEY_START, source.as_str().as_bytes());
    let sized: u64 = mix_bytes(named, bytes_low_first(length as u128, 8).as_slice());
    mix_bytes(sized, bytes_low_first(modified, 16).as_slice())
}

/// What is known of a wallpaper's file.
pub struct SourceFile {
    /// A regular file, and no link.
    pub regular: bool,
    pub length: u64,
    /// The time of the last change, in nanoseconds since 1970; nothing before that.
    pub modified: u128,
}

/// Why a thumbnail has no place, or its directory cannot be used.
#[derive(Clone, Copy, Debug, PartialEq, Eq, Structural)]
pub enum ThumbnailError {
    NotRegular,
    NotADirectory,
}

impl ThumbnailError {
    /// The words that say what is wrong.
    pub open spec fn text(self) -> Seq<char> {
        match self {
            ThumbnailError::NotRegular => "wallpaper source is not a regular file"@,
            ThumbnailError::NotADirectory => "wallpaper thumbnail cache is not a directory"@,
        }
    }

    /// The words that say what is wrong.
    pub fn message(&self) -> (r: &'static str)
        ensures
            r@ == self.text(),
    {
        match self {
            ThumbnailError::NotRegular => "wallpaper source is not a regular file",
            ThumbnailError::NotADirectory => "wallpaper thumbnail cache is not a directory",
        }
    }
}

/// The path of the thumbnail with the given key.
pub open spec fn path_of_key(key: u64) -> Seq<char> {
    joined(CACHE_DIR@, hex(high_first(key as int, 8)) + ".png"@)
}

/// The path of a wallpaper's thumbnail.
pub fn path(source: &FilePath, file: &SourceFile) -> (r: Result<FilePath, ThumbnailError>)
    ensures
        match r {
            Ok(found) => file.regular && found@ == path_of_key(
                key_of(source@, file.length, file.modified),
            ),
            Err(error) => !file.regular && error == ThumbnailError::NotRegular,
        },
{
    if !file.regular {
        return Err(ThumbnailError::NotRegular);
    }
    let mut name = key_text(thumbnail_key(source, file.length, file.modified));
    name.append(".png");
    Ok(FilePath::new(CACHE_DIR).join(name.as_str()))
}

/// Where a thumbnail is written before it takes its place.
pub fn temporary_thumbnail_path(source: &FilePath, file: &SourceFile, process: u32) -> (r: FilePath)
    ensures
        r@ == joined(
            CACHE_DIR@,
            hex(high_first(key_of(source@, file.length, file.modified) as int, 8)) + ".tmp-"@
                + decimal(process as nat),
        ),
{
    let mut name = key_text(thumbnail_key(source, file.length, file.modified));
    name.append(".tmp-");
    let number = decimal_text(process as u64);
    name.append(number.as_str());
    FilePath::new(CACHE_DIR).join(name.as_str())
}

/// What stands where the thumbnails are kept.
#[derive(Clone, Copy, Debug, PartialEq, Eq, Structural)]
pub enum CacheEntry {
    Directory,
    Other,
    Missing,
}

/// Whether the thumbnails' directory has to be made first.
pub fn cache_directory(entry: CacheEntry) -> (r: Result<bool, ThumbnailError>)
    ensures
        r == match entry {
            CacheEntry::Directory => Ok::<bool, ThumbnailError>(false),
            CacheEntry::Missing => Ok(true),
            CacheEntry::Other => Err(ThumbnailError::NotADirectory),
        },
{
    match entry {
        CacheEntry::Directory => Ok(false),
        CacheEntry::Missing => Ok(true),
        CacheEntry::Other => Err(ThumbnailError::NotADirectory),
    }
}

/// The paths of the wallpapers that have a file, in their order.
pub open spec fn paths_among(options: Seq<OptionView>) -> Seq<Seq<char>>
    decreases options.len(),
{
    if options.len() == 0 {
        Seq::empty()
    } else {
        match options.last().path {
            Some(path) => paths_among(options.drop_last()).push(path),
            None => paths_among(options.drop_last()),
        }
    }
}

/// The files that thumbnails are made of, in the order of the wallpapers.
pub fn thumbnail_sources(options: &[WallpaperOption]) -> (r: Vec<FilePath>)
    ensures
        path_texts(r@) == paths_among(option_views(options@)),
{
    let mut sources: Vec<FilePath> = Vec::new();
    let mut i: usize = 0;
    let n: usize = options.len();
    assert(path_texts(sources@) =~= Seq::<Seq<char>>::empty());
    assert(option_views(options@).take(0) =~= Seq::<OptionView>::empty());
    while i < n
        invariant
            i <= n,
            n == options@.len(),
            path_texts(sources@) == paths_among(option_views(options@).take(i as int)),
        decreases n - i,
    {
        let ghost views = option_views(options@);
        assert(views.take(i + 1).drop_last() =~= views.take(i as int));
        assert(views.take(i + 1).last() == options@[i as int]@);
        let ghost before = path_texts(sources@);
        if let Some(path) = &options[i].path {
            sources.push(path.clone());
            assert(path_texts(sources@) =~= before.push(path@));
        }
        i = i + 1;
    }
    assert(option_views(options@).take(n as int) =~= option_views(options@));
    sources
}

/// A thumbnail shows nothing but what stands in the middle square of its picture.
pub proof fn thumbnails_show_the_middle(image: ColorImage, k: int)
    requires
        image.wf(),
        0 < image.width,
        0 < image.height,
        0 <= k < THUMBNAIL_BYTES,
    ensures
        exists|column: int, row: int|
            {
                let edge = square_edge(image);
                &&& (image.width - edge) / 2 <= column < (image.width - edge) / 2 + edge
                &&& (image.height - edge) / 2 <= row < (image.height - edge) / 2 + edge
                &&& thumbnail_of(image)[k] == part(
                    #[trigger] color_in(image, (column, row)),
                    k % 3,
                )
            },
{
    let x = (k / 3) % (THUMBNAIL_EDGE as int);
    let y = k / 3 / THUMBNAIL_EDGE as int;
    lemma_shown_place(image, x, y);
    let place = shown_place(image, x, y);
    assert(thumbnail_of(image)[k] == part(color_in(image, (place.0, place.1)), k % 3));
}

/// A thumbnail shows the square in the middle of its picture, upright and not mirrored: its
/// columns are columns of the picture and its rows are rows of the picture, both in their order
/// and evenly spread, and its upper left corner is that of the square. Each color keeps its three
/// parts in their order.
pub proof fn thumbnails_show_the_middle_square_upright(image: ColorImage) -> (r: (
    Seq<int>,
    Seq<int>,
))
    requires
        image.wf(),
        0 < image.width,
        0 < image.height,
    ensures
        ({
            let columns = r.0;
            let rows = r.1;
            let edge = if image.width <= image.height {
                image.width as int
            } else {
                image.height as int
            };
            &&& columns.len() == 384
            &&& rows.len() == 384
            &&& thumbnail_of(image).len() == 3 * 384 * 384
            &&& forall|x: int, y: int, c: int|
                0 <= x < 384 && 0 <= y < 384 && 0 <= c < 3 ==> #[trigger] thumbnail_of(image)[3 * (y
                    * 384 + x) + c] == image.pixels@[rows[y] * image.width + columns[x]]@[c]
            &&& 2 * columns[0] <= image.width - edge <= 2 * columns[0] + 1
            &&& 2 * rows[0] <= image.height - edge <= 2 * rows[0] + 1
            &&& forall|i: int, j: int|
                0 <= i <= j < 384 ==> columns[i] <= columns[j] && rows[i] <= rows[j]
            &&& forall|i: int|
                0 <= i < 384 ==> 384 * (#[trigger] columns[i] - columns[0]) <= i * edge < 384 * (
                columns[i] - columns[0] + 1)
            &&& forall|i: int|
                0 <= i < 384 ==> 384 * (#[trigger] rows[i] - rows[0]) <= i * edge < 384 * (rows[i]
                    - rows[0] + 1)
            &&& forall|i: int|
                0 <= i < 384 ==> 0 <= #[trigger] columns[i] < image.width && columns[i]
                    < columns[0] + edge
            &&& forall|i: int|
                0 <= i < 384 ==> 0 <= #[trigger] rows[i] < image.height && rows[i] < rows[0] + edge
        }),
{
    let edge = square_edge(image);
    let columns = Seq::new(384, |x: int| shown_place(image, x, 0).0);
    let rows = Seq::new(384, |y: int| shown_place(image, 0, y).1);
    assert forall|i: int| 0 <= i < 384 implies 0 <= #[trigger] columns[i] < image.width
        && columns[i] < columns[0] + edge by {
        lemma_shown_place(image, i, 0);
    }
    assert forall|i: int| 0 <= i < 384 implies 0 <= #[trigger] rows[i] < image.height && rows[i]
        < rows[0] + edge by {
        lemma_shown_place(image, 0, i);
    }
    assert forall|x: int, y: int, c: int|
        0 <= x < 384 && 0 <= y < 384 && 0 <= c < 3 implies #[trigger] thumbnail_of(image)[3 * (y
        * 384 + x) + c] == image.pixels@[rows[y] * image.width + columns[x]]@[c] by {
        let k = 3 * (y * 384 + x) + c;
        assert(0 <= k < THUMBNAIL_BYTES);
        assert(k / 3 == y * 384 + x);
        assert(k % 3 == c);
        assert((k / 3) % 384 == x);
        assert(k / 3 / 384 == y);
        assert(shown_place(image, x, y) == (columns[x], rows[y]));
    }
    assert forall|i: int, j: int| 0 <= i <= j < 384 implies columns[i] <= columns[j] && rows[i]
        <= rows[j] by {
        assert(i * edge <= j * edge) by (nonlinear_arith)
            requires
                i <= j,
                0 < edge,
        ;
    }
    (columns, rows)
}

/// A picture that already has the size of a thumbnail is its own thumbnail, place by place.
pub proof fn pictures_of_the_right_size_are_kept(image: ColorImage, k: int, c: int)
    requires
        image.wf(),
        image.width == 384,
        image.height == 384,
        0 <= k < 384 * 384,
        0 <= c < 3,
    ensures
        thumbnail_of(image)[3 * k + c] == image.pixels@[k]@[c],
{
    let n = 3 * k + c;
    assert(n / 3 == k && n % 3 == c);
    let x = k % 384;
    let y = k / 384;
    let edge = square_edge(image);
    assert(x * edge == x * 384 && y * edge == y * 384) by (nonlinear_arith)
        requires
            edge == 384,
    ;
    assert(shown_place(image, x, y) == (x, y));
    assert(y * 384 + x == k);
}

/// The bytes of a number from the lowest on are those from the highest on, backwards, and they
/// give the number back.
pub proof fn numbers_have_their_bytes(n: int, count: nat)
    requires
        0 <= n,
    ensures
        low_first(n, count).len() == count,
        high_first(n, count).len() == count,
        forall|i: int|
            0 <= i < count ==> #[trigger] low_first(n, count)[i] == high_first(n, count)[count - 1
                - i],
        count > 0 ==> low_first(n, count)[0] == n % 256,
        count > 0 ==> low_first(n, count).drop_first() == low_first(n / 256, (count - 1) as nat),
    decreases count,
{
    if count > 0 {
        let less = (count - 1) as nat;
        numbers_have_their_bytes(n / 256, less);
        assert(low_first(n, count).drop_first() =~= low_first(n / 256, less));
        assert forall|i: int| 0 <= i < count implies #[trigger] low_first(n, count)[i]
            == high_first(n, count)[count - 1 - i] by {
            if i > 0 {
                assert(low_first(n, count)[i] == low_first(n / 256, less)[i - 1]);
            }
        }
    }
}

/// A key takes its bytes one after the other: each one is joined to the key before the key is
/// multiplied, modulo two to the power of sixty-four.
pub proof fn keys_take_their_bytes_in_order(key: u64, a: Seq<u8>, b: Seq<u8>, byte: u8)
    ensures
        key_after(key, Seq::empty()) == key,
        key_after(key, a + b) == key_after(key_after(key, a), b),
        (key_after(key, seq![byte]) - (key ^ (byte as u64)) * 0x100_0000_01b3)
            % 0x1_0000_0000_0000_0000 == 0,
    decreases b.len(),
{
    if b.len() == 0 {
        assert(a + b =~= a);
    } else {
        assert((a + b).drop_last() =~= a + b.drop_last());
        keys_take_their_bytes_in_order(key, a, b.drop_last(), byte);
    }
    assert(seq![byte].drop_last() =~= Seq::<u8>::empty());
    assert(seq![byte].last() == byte);
    assert(key_after(key, Seq::empty()) == key);
    assert(key_after(key, seq![byte]) == key_step(key, byte));
    let product = (key ^ (byte as u64)) * 0x100_0000_01b3;
    assert(0 <= product % 0x1_0000_0000_0000_0000 < 0x1_0000_0000_0000_0000);
    assert((product % 0x1_0000_0000_0000_0000 - product) % 0x1_0000_0000_0000_0000 == 0);
}

/// The files that thumbnails are made of are those of the wallpapers, each in its turn, and a
/// wallpaper without a file has none.
pub proof fn every_wallpaper_file_has_its_turn(a: Seq<OptionView>, b: Seq<OptionView>, option: OptionView)
    ensures
        paths_among(a + b) == paths_among(a) + paths_among(b),
        option.path is None ==> paths_among(seq![option]) == Seq::<Seq<char>>::empty(),
        option.path is Some ==> paths_among(seq![option]) == seq![option.path->0],
    decreases b.len(),
{
    if b.len() == 0 {
        assert(a + b =~= a);
        assert(paths_among(a) + paths_among(b) =~= paths_among(a));
    } else {
        assert((a + b).drop_last() =~= a + b.drop_last());
        every_wallpaper_file_has_its_turn(a, b.drop_last(), option);
        assert(paths_among(a + b) =~= paths_among(a) + paths_among(b));
    }
    assert(seq![option].drop_last() =~= Seq::<OptionView>::empty());
    assert(seq![option].last() == option);
    assert(paths_among(seq![option].drop_last()) =~= Seq::<Seq<char>>::empty());
}

/// The key of a thumbnail is that of the path's bytes, then those of the length and then those of
/// the time, the lowest first.
pub proof fn keys_are_made_of_path_length_and_time(path: Seq<char>, length: u64, modified: u128)
    ensures
        key_of(path, length, modified) == key_after(
            0xcbf2_9ce4_8422_2325,
            encode_utf8(path) + low_first(length as int, 8) + low_first(modified as int, 16),
        ),
{
    let a = encode_utf8(path);
    let b = low_first(length as int, 8);
    let c = low_first(modified as int, 16);
    keys_take_their_bytes_in_order(KEY_START, a, b, 0);
    keys_take_their_bytes_in_order(KEY_START, a + b, c, 0);
}

/// A thumbnail lies in the directory for thumbnails, under the sixteen digits of its key; different
/// keys have different files.
pub proof fn thumbnails_lie_under_their_keys(key: u64, other: u64)
    ensures
        path_of_key(key) == CACHE_DIR@ + "/"@ + hex(high_first(key as int, 8)) + ".png"@,
        hex(high_first(key as int, 8)).len() == 16,
        path_of_key(key) == path_of_key(other) ==> key == other,
{
    reveal_strlit("/home/root/.cache/remagic/wallpaper-thumbnails");
    reveal_strlit("/");
    let dir = CACHE_DIR@;
    let a = hex(high_first(key as int, 8));
    let b = hex(high_first(other as int, 8));
    numbers_have_their_bytes(key as int, 8);
    numbers_have_their_bytes(other as int, 8);
    bytes_take_two_digits_each(high_first(key as int, 8));
    bytes_take_two_digits_each(high_first(other as int, 8));
    assert(a.len() == 16 && b.len() == 16);
    assert(('0' <= a[0] <= '9' || 'a' <= a[0] <= 'f') && a[0] != '/');
    assert(('0' <= b[0] <= '9' || 'a' <= b[0] <= 'f') && b[0] != '/');
    assert(dir.len() > 0 && dir.last() != '/');
    assert(path_of_key(key) =~= dir + "/"@ + a + ".png"@);
    assert(path_of_key(other) =~= dir + "/"@ + b + ".png"@);
    if path_of_key(key) == path_of_key(other) {
        assert(a =~= path_of_key(key).subrange(dir.len() as int + 1, dir.len() as int + 17));
        assert(b =~= path_of_key(other).subrange(dir.len() as int + 1, dir.len() as int + 17));
        digits_tell_bytes_apart(high_first(key as int, 8), high_first(other as int, 8));
        reveal_with_fuel(pow256, 9);
        lemma_bytes_tell_apart(key as int, other as int, 8);
    }
}

/// Numbers of so many bytes that have the same bytes are the same.
proof fn lemma_bytes_tell_apart(a: int, b: int, count: nat)
    requires
        0 <= a,
        0 <= b,
        high_first(a, count) == high_first(b, count),
        a < pow256(count),
        b < pow256(count),
    ensures
        a == b,
    decreases count,
{
    if count > 0 {
        let less = (count - 1) as nat;
        assert(high_first(a, count).drop_last() =~= high_first(a / 256, less));
        assert(high_first(b, count).drop_last() =~= high_first(b / 256, less));
        assert(high_first(a, count).last() == a % 256);
        assert(high_first(b, count).last() == b % 256);
        lemma_bytes_tell_apart(a / 256, b / 256, less);
    }
}

/// How many numbers so many bytes can hold.
spec fn pow256(count: nat) -> int
    decreases count,
{
    if count == 0 {
        1
    } else {
        256 * pow256((count - 1) as nat)
    }
}

} // verus!
