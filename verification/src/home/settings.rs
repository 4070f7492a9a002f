//! The settings of the home surface, and the wallpapers that it offers.
use vstd::prelude::*;
use crate::backlight::BacklightSnapshot;
use crate::home::view::path_view;
use crate::path::FilePath;
use crate::path::{file_name, joined};
use crate::text::{chars_of, decimal_text, string_of, text_eq, text_lt};
use crate::text::{decimal, lemma_text_less_irreflexive, lemma_text_less_total, lemma_text_less_transitive, text_less};

verus! {

pub const CONFIG_PATH: &'static str = "/home/root/.config/remagic/home.toml";

pub const WALLPAPER_DIR: &'static str = "/home/root/.local/share/remagic/wallpapers";

pub const SYSTEM_WALLPAPER: &'static str = "/usr/share/remarkable/suspended.png";

pub const DEFAULT_WALLPAPER_ID: &'static str = "default";

pub const SYSTEM_WALLPAPER_ID: &'static str = "system";

/// How many characters of a file's name are shown.
pub const LABEL_LIMIT: usize = 18;

/// How a wallpaper is laid on the page.
#[derive(Clone, Copy, Debug, PartialEq, Eq, Structural)]
pub enum WallpaperFit {
    Cover,
    Contain,
}

impl Default for WallpaperFit {
    fn default() -> (r: WallpaperFit)
        ensures
            r == WallpaperFit::Cover,
    {
        WallpaperFit::Cover
    }
}

impl WallpaperFit {
    /// The name of the layout.
    pub open spec fn name(self) -> Seq<char> {
        match self {
            WallpaperFit::Cover => "填充裁切"@,
            WallpaperFit::Contain => "完整适应"@,
        }
    }

    /// The other layout.
    pub open spec fn other(self) -> WallpaperFit {
        match self {
            WallpaperFit::Cover => WallpaperFit::Contain,
            WallpaperFit::Contain => WallpaperFit::Cover,
        }
    }

    /// The name of the layout.
    pub fn label(self) -> (r: &'static str)
        ensures
            r@ == self.name(),
    {
        match self {
            WallpaperFit::Cover => "填充裁切",
            WallpaperFit::Contain => "完整适应",
        }
    }

    /// Changes to the other layout.
    pub fn toggle(&mut self)
        ensures
            *final(self) == old(self).other(),
    {
        *self = match *self {
            WallpaperFit::Cover => WallpaperFit::Contain,
            WallpaperFit::Contain => WallpaperFit::Cover,
        };
    }
}

/// What the lock page shows.
#[derive(Debug, PartialEq, Eq)]
pub struct LockSettings {
    pub wallpaper: String,
    pub fit: WallpaperFit,
    pub show_clock: bool,
    pub show_hint: bool,
}

impl Default for LockSettings {
    fn default() -> (r: LockSettings)
        ensures
            r.wallpaper@ == DEFAULT_WALLPAPER_ID@,
            r.fit == WallpaperFit::Cover,
            r.show_clock,
            r.show_hint,
    {
        LockSettings {
            wallpaper: DEFAULT_WALLPAPER_ID.to_owned(),
            fit: WallpaperFit::Cover,
            show_clock: true,
            show_hint: true,
        }
    }
}

/// The settings of the home surface: what it stores itself, and what it knows
/// of the platform.
#[derive(Debug, PartialEq, Eq)]
pub struct HomeSettings {
    pub lock: LockSettings,
    pub idle_suspend_secs: u64,
    pub backlight: Option<BacklightSnapshot>,
}

/// A wallpaper that can be chosen.
#[derive(Debug, PartialEq, Eq)]
pub struct WallpaperOption {
    pub id: String,
    pub label: String,
    pub path: Option<FilePath>,
}

/// A wallpaper over texts.
pub struct OptionView {
    pub id: Seq<char>,
    pub label: Seq<char>,
    pub path: Option<Seq<char>>,
}

impl View for WallpaperOption {
    type V = OptionView;

    open spec fn view(&self) -> OptionView {
        OptionView { id: self.id@, label: self.label@, path: path_view(self.path) }
    }
}

/// The views of a list of wallpapers.
pub open spec fn option_views(options: Seq<WallpaperOption>) -> Seq<OptionView> {
    options.map_values(|o: WallpaperOption| o@)
}

/// The place of the first wallpaper with an id, or the first place.
pub open spec fn selected_index(options: Seq<OptionView>, id: Seq<char>) -> int {
    match position_of(options, id) {
        Some(i) => i,
        None => 0,
    }
}

/// The place of the first wallpaper with an id.
pub open spec fn position_of(options: Seq<OptionView>, id: Seq<char>) -> Option<int>
    decreases options.len(),
{
    if options.len() == 0 {
        None
    } else if options[0].id == id {
        Some(0)
    } else {
        match position_of(options.drop_first(), id) {
            Some(i) => Some(i + 1),
            None => None,
        }
    }
}

/// A first place is one.
proof fn lemma_position_is(options: Seq<OptionView>, id: Seq<char>, n: int)
    requires
        0 <= n < options.len(),
        options[n].id == id,
        forall|j: int| 0 <= j < n ==> (#[trigger] options[j]).id != id,
    ensures
        position_of(options, id) == Some(n),
    decreases n,
{
    if n > 0 {
        assert(options[0].id != id);
        assert forall|j: int| 0 <= j < n - 1 implies (#[trigger] options.drop_first()[j]).id
            != id by {
            assert(options.drop_first()[j] == options[j + 1]);
        }
        assert(options.drop_first()[n - 1] == options[n]);
        lemma_position_is(options.drop_first(), id, n - 1);
    }
}

/// Without the id there is no place.
proof fn lemma_no_position(options: Seq<OptionView>, id: Seq<char>)
    requires
        forall|j: int| 0 <= j < options.len() ==> (#[trigger] options[j]).id != id,
    ensures
        position_of(options, id) is None,
    decreases options.len(),
{
    if options.len() > 0 {
        assert(options[0].id != id);
        assert forall|j: int| 0 <= j < options.len() - 1 implies (#[trigger] options.drop_first()[j]).id
            != id by {
            assert(options.drop_first()[j] == options[j + 1]);
        }
        lemma_no_position(options.drop_first(), id);
    }
}

/// A place lies in the list and holds the id.
pub proof fn lemma_position_holds(options: Seq<OptionView>, id: Seq<char>)
    ensures
        position_of(options, id) matches Some(i) ==> 0 <= i < options.len() && options[i].id == id,
    decreases options.len(),
{
    if options.len() > 0 {
        lemma_position_holds(options.drop_first(), id);
    }
}

/// The place of the first wallpaper with an id.
pub fn find_wallpaper(options: &[WallpaperOption], id: &str) -> (r: Option<usize>)
    ensures
        match r {
            Some(i) => i < options@.len() && position_of(option_views(options@), id@) == Some(
                i as int,
            ),
            None => position_of(option_views(options@), id@) is None,
        },
{
    let ghost all = option_views(options@);
    let mut i: usize = 0;
    while i < options.len()
        invariant
            i <= options@.len(),
            all == option_views(options@),
            forall|j: int| 0 <= j < i ==> (#[trigger] all[j]).id != id@,
        decreases options@.len() - i,
    {
        assert(all[i as int] == options@[i as int]@);
        if text_eq(options[i].id.as_str(), id) {
            proof {
                lemma_position_is(all, id@, i as int);
            }
            return Some(i);
        }
        i = i + 1;
    }
    proof {
        lemma_no_position(all, id@);
    }
    None
}

/// The wallpaper after one in a round.
pub open spec fn next_wallpaper(options: Seq<OptionView>, current: Seq<char>) -> Seq<char> {
    if options.len() == 0 {
        DEFAULT_WALLPAPER_ID@
    } else {
        options[(selected_index(options, current) + 1) % (options.len() as int)].id
    }
}

impl HomeSettings {
    /// Settings before anything was stored or asked.
    pub fn new() -> (r: HomeSettings)
        ensures
            r.lock.wallpaper@ == DEFAULT_WALLPAPER_ID@,
            r.lock.fit == WallpaperFit::Cover,
            r.lock.show_clock,
            r.lock.show_hint,
            r.idle_suspend_secs == 0,
            r.backlight is None,
    {
        HomeSettings { lock: LockSettings::default(), idle_suspend_secs: 0, backlight: None }
    }

    /// Chooses the next wallpaper of a round.
    pub fn cycle_wallpaper(&mut self, options: &[WallpaperOption])
        ensures
            final(self).lock.wallpaper@ == next_wallpaper(
                option_views(options@),
                old(self).lock.wallpaper@,
            ),
            final(self).lock.fit == old(self).lock.fit,
            final(self).lock.show_clock == old(self).lock.show_clock,
            final(self).lock.show_hint == old(self).lock.show_hint,
            final(self).idle_suspend_secs == old(self).idle_suspend_secs,
            final(self).backlight == old(self).backlight,
    {
        let count: usize = options.len();
        if count == 0 {
            self.lock.wallpaper = DEFAULT_WALLPAPER_ID.to_owned();
            return;
        }
        let current: usize = match find_wallpaper(options, self.lock.wallpaper.as_str()) {
            Some(i) => i,
            None => 0,
        };
        let next: usize = if current == count - 1 {
            0
        } else {
            current + 1
        };
        proof {
            let n = count as int;
            if current == count - 1 {
                assert((current + 1) as int % n == 0) by (nonlinear_arith)
                    requires
                        current + 1 == n,
                        n > 0,
                ;
            } else {
                assert((current + 1) as int % n == current + 1) by (nonlinear_arith)
                    requires
                        0 <= current + 1 < n,
                ;
            }
            assert(option_views(options@)[next as int] == options@[next as int]@);
        }
        self.lock.wallpaper = options[next].id.clone();
    }

    /// Chooses a wallpaper, where it is offered.
    pub fn select_wallpaper(&mut self, id: &str, options: &[WallpaperOption]) -> (r: bool)
        ensures
            r == (position_of(option_views(options@), id@) is Some),
            final(self).lock.wallpaper@ == (if r {
                id@
            } else {
                old(self).lock.wallpaper@
            }),
            final(self).lock.fit == old(self).lock.fit,
            final(self).lock.show_clock == old(self).lock.show_clock,
            final(self).lock.show_hint == old(self).lock.show_hint,
            final(self).idle_suspend_secs == old(self).idle_suspend_secs,
            final(self).backlight == old(self).backlight,
    {
        if find_wallpaper(options, id).is_none() {
            return false;
        }
        self.lock.wallpaper = id.to_owned();
        true
    }

    /// The chosen wallpaper, or the first one where it is not offered.
    pub fn wallpaper<'a>(&self, options: &'a [WallpaperOption]) -> (r: &'a WallpaperOption)
        requires
            options@.len() > 0,
        ensures
            r@ == option_views(options@)[selected_index(
                option_views(options@),
                self.lock.wallpaper@,
            )],
    {
        let i: usize = match find_wallpaper(options, self.lock.wallpaper.as_str()) {
            Some(i) => i,
            None => 0,
        };
        assert(option_views(options@)[i as int] == options@[i as int]@);
        &options[i]
    }
}

/// Where a text has its last dot.
pub open spec fn last_dot(s: Seq<char>) -> Option<int>
    decreases s.len(),
{
    if s.len() == 0 {
        None
    } else if s.last() == '.' {
        Some(s.len() - 1)
    } else {
        last_dot(s.drop_last())
    }
}

/// The stem and the extension of a file's name. A name that only begins with
/// a dot has no extension.
pub open spec fn name_parts(name: Seq<char>) -> (Seq<char>, Option<Seq<char>>) {
    match last_dot(name) {
        Some(i) => if i == 0 || name == ".."@ {
            (name, None)
        } else {
            (name.take(i), Some(name.skip(i + 1)))
        },
        None => (name, None),
    }
}

/// A character and its other case.
pub open spec fn either_case(c: char, lower: char, upper: char) -> bool {
    c == lower || c == upper
}

/// The extension of the one kind of image, in any case.
pub open spec fn png_extension(extension: Seq<char>) -> bool {
    &&& extension.len() == 3
    &&& either_case(extension[0], 'p', 'P')
    &&& either_case(extension[1], 'n', 'N')
    &&& either_case(extension[2], 'g', 'G')
}

/// A dot is where it was found, and none comes after it.
proof fn lemma_last_dot(s: Seq<char>, n: int)
    requires
        0 <= n <= s.len(),
        forall|i: int| n <= i < s.len() ==> s[i] != '.',
    ensures
        last_dot(s) == last_dot(s.take(n)),
    decreases s.len() - n,
{
    if n < s.len() {
        assert(s.last() != '.');
        assert(s.drop_last().take(n) =~= s.take(n));
        lemma_last_dot(s.drop_last(), n);
    } else {
        assert(s.take(n) =~= s);
    }
}

/// The stem and the extension of a file's name.
pub fn split_name(name: &str) -> (r: (String, Option<String>))
    ensures
        r.0@ == name_parts(name@).0,
        match r.1 {
            Some(extension) => name_parts(name@).1 == Some(extension@),
            None => name_parts(name@).1 is None,
        },
{
    let x = chars_of(name);
    if text_eq(name, "..") {
        return (name.to_owned(), None);
    }
    let mut n: usize = x.len();
    while n > 0 && x[n - 1] != '.'
        invariant
            n <= x@.len(),
            x@ == name@,
            forall|i: int| n <= i < name@.len() ==> name@[i] != '.',
        decreases n,
    {
        n = n - 1;
    }
    proof {
        lemma_last_dot(name@, n as int);
        if n > 0 {
            assert(name@.take(n as int).last() == '.');
        } else {
            assert(name@.take(0) =~= Seq::<char>::empty());
        }
    }
    if n <= 1 {
        return (name.to_owned(), None);
    }
    let mut stem: Vec<char> = Vec::new();
    let mut i: usize = 0;
    while i < n - 1
        invariant
            i <= n - 1,
            1 < n <= x@.len(),
            x@ == name@,
            stem@ == name@.take(i as int),
        decreases n - i,
    {
        stem.push(x[i]);
        assert(name@.take(i + 1) =~= name@.take(i as int).push(name@[i as int]));
        i = i + 1;
    }
    let mut extension: Vec<char> = Vec::new();
    let mut j: usize = n;
    assert(name@.subrange(n as int, n as int) =~= Seq::<char>::empty());
    while j < x.len()
        invariant
            n <= j <= x@.len(),
            x@ == name@,
            extension@ == name@.subrange(n as int, j as int),
        decreases x@.len() - j,
    {
        extension.push(x[j]);
        assert(name@.subrange(n as int, j + 1) =~= name@.subrange(n as int, j as int).push(
            name@[j as int],
        ));
        j = j + 1;
    }
    assert(name@.subrange(n as int, j as int) =~= name@.skip(n as int));
    (string_of(stem.as_slice()), Some(string_of(extension.as_slice())))
}

/// Whether an extension is that of the one kind of image.
pub fn is_png_extension(extension: &str) -> (r: bool)
    ensures
        r == png_extension(extension@),
{
    let x = chars_of(extension);
    x.len() == 3 && (x[0] == 'p' || x[0] == 'P') && (x[1] == 'n' || x[1] == 'N') && (x[2] == 'g'
        || x[2] == 'G')
}

/// A label of at most so many characters and a mark where it was longer.
pub open spec fn shortened(label: Seq<char>, limit: int) -> Seq<char> {
    if label.len() > limit {
        label.take(limit).push('…')
    } else {
        label
    }
}

/// Shortens a label.
pub fn shorten_label(label: &str, limit: usize) -> (r: String)
    ensures
        r@ == shortened(label@, limit as int),
{
    let x = chars_of(label);
    let size: usize = x.len();
    let end: usize = if size > limit {
        limit
    } else {
        size
    };
    let mut short = String::new();
    let mut i: usize = 0;
    while i < end
        invariant
            i <= end <= x@.len(),
            x@ == label@,
            short@ == label@.take(i as int),
        decreases end - i,
    {
        short.push(x[i]);
        assert(label@.take(i + 1) =~= label@.take(i as int).push(label@[i as int]));
        i = i + 1;
    }
    if size > limit {
        short.push('…');
    } else {
        assert(label@.take(end as int) =~= label@);
    }
    short
}

/// A file in the wallpaper directory. A link is not a regular file.
#[derive(Debug, PartialEq, Eq)]
pub struct WallpaperFile {
    pub path: FilePath,
    pub regular: bool,
}

/// The wallpaper of a file, where it is an image.
pub open spec fn wallpaper_of(file: WallpaperFile) -> Option<OptionView> {
    match file_name(file.path@) {
        Some(name) => match name_parts(name).1 {
            Some(extension) => if file.regular && png_extension(extension) {
                Some(
                    OptionView {
                        id: "custom:"@ + name,
                        label: shortened(name_parts(name).0, LABEL_LIMIT as int),
                        path: Some(file.path@),
                    },
                )
            } else {
                None
            },
            None => None,
        },
        None => None,
    }
}

/// The wallpaper of a file, where it is an image.
pub fn custom_wallpaper(file: &WallpaperFile) -> (r: Option<WallpaperOption>)
    ensures
        match r {
            Some(option) => wallpaper_of(*file) == Some(option@),
            None => wallpaper_of(*file) is None,
        },
{
    let name = match file.path.file_name() {
        Some(name) => name,
        None => return None,
    };
    let (stem, extension) = split_name(name.as_str());
    match extension {
        Some(extension) => {
            if !file.regular || !is_png_extension(extension.as_str()) {
                return None;
            }
        },
        None => return None,
    }
    let mut id = "custom:".to_owned();
    id.append(name.as_str());
    Some(
        WallpaperOption {
            id,
            label: shorten_label(stem.as_str(), LABEL_LIMIT),
            path: Some(file.path.clone()),
        },
    )
}

/// A list with a wallpaper put after those whose label does not come later.
pub open spec fn placed(options: Seq<OptionView>, option: OptionView) -> Seq<OptionView>
    decreases options.len(),
{
    if options.len() > 0 && text_less(option.label, options.last().label) {
        placed(options.drop_last(), option).push(options.last())
    } else {
        options.push(option)
    }
}

/// The wallpapers of files, by their labels.
pub open spec fn custom_wallpapers(files: Seq<WallpaperFile>) -> Seq<OptionView>
    decreases files.len(),
{
    if files.len() == 0 {
        Seq::empty()
    } else {
        match wallpaper_of(files.last()) {
            Some(option) => placed(custom_wallpapers(files.drop_last()), option),
            None => custom_wallpapers(files.drop_last()),
        }
    }
}

/// The wallpapers that are offered: none at all, that of the system where it
/// is there, and those of the user.
pub open spec fn offered(system: Option<Seq<char>>, files: Seq<WallpaperFile>) -> Seq<OptionView> {
    let plain = seq![
        OptionView { id: DEFAULT_WALLPAPER_ID@, label: "默认白纸"@, path: None },
    ];
    let native = match system {
        Some(path) => seq![
            OptionView { id: SYSTEM_WALLPAPER_ID@, label: "原生锁屏"@, path: Some(path) },
        ],
        None => Seq::empty(),
    };
    plain + native + custom_wallpapers(files)
}

/// Where a wallpaper is put, and what the list then is.
proof fn lemma_placed(options: Seq<OptionView>, option: OptionView, n: int)
    requires
        0 <= n <= options.len(),
        forall|i: int|
            n <= i < options.len() ==> text_less(option.label, (#[trigger] options[i]).label),
        n > 0 ==> !text_less(option.label, options[n - 1].label),
    ensures
        placed(options, option) == options.insert(n, option),
    decreases options.len() - n,
{
    if n < options.len() {
        assert(text_less(option.label, options[options.len() - 1].label));
        lemma_placed(options.drop_last(), option, n);
        assert(options.drop_last().insert(n, option).push(options.last()) =~= options.insert(
            n,
            option,
        ));
    } else {
        assert(options.insert(n, option) =~= options.push(option));
    }
}

/// Puts a wallpaper in its place.
fn place(options: &mut Vec<WallpaperOption>, option: WallpaperOption)
    ensures
        option_views(final(options)@) == placed(option_views(old(options)@), option@),
{
    let ghost all = option_views(options@);
    let mut n: usize = options.len();
    while n > 0 && text_lt(option.label.as_str(), options[n - 1].label.as_str())
        invariant
            n <= options@.len(),
            all == option_views(options@),
            forall|i: int|
                n <= i < all.len() ==> text_less(option.label@, (#[trigger] all[i]).label),
        decreases n,
    {
        assert(all[n - 1] == options@[n - 1]@);
        n = n - 1;
    }
    proof {
        if n > 0 {
            assert(all[n - 1] == options@[n - 1]@);
        }
        lemma_placed(all, option@, n as int);
    }
    options.insert(n, option);
    assert(option_views(options@) =~= all.insert(n as int, option@));
}

/// The wallpapers that are offered, from the system's file where it is a
/// regular one, and the files of the user.
pub fn wallpaper_options(system: Option<FilePath>, files: &[WallpaperFile]) -> (r: Vec<
    WallpaperOption,
>)
    ensures
        option_views(r@) == offered(path_view(system), files@),
        r@.len() > 0,
{
    let mut options: Vec<WallpaperOption> = Vec::new();
    let ghost native_view = match path_view(system) {
        Some(path) => seq![
            OptionView { id: SYSTEM_WALLPAPER_ID@, label: "原生锁屏"@, path: Some(path) },
        ],
        None => Seq::empty(),
    };
    options.push(
        WallpaperOption {
            id: DEFAULT_WALLPAPER_ID.to_owned(),
            label: "默认白纸".to_owned(),
            path: None,
        },
    );
    match system {
        Some(path) => {
            options.push(
                WallpaperOption {
                    id: SYSTEM_WALLPAPER_ID.to_owned(),
                    label: "原生锁屏".to_owned(),
                    path: Some(path),
                },
            );
        },
        None => {},
    }
    let ghost fixed = option_views(options@);
    assert(fixed =~= seq![
        OptionView { id: DEFAULT_WALLPAPER_ID@, label: "默认白纸"@, path: None },
    ] + native_view);
    let mut custom: Vec<WallpaperOption> = Vec::new();
    let mut i: usize = 0;
    assert(files@.take(0) =~= Seq::<WallpaperFile>::empty());
    assert(option_views(custom@) =~= Seq::<OptionView>::empty());
    while i < files.len()
        invariant
            i <= files@.len(),
            option_views(custom@) == custom_wallpapers(files@.take(i as int)),
        decreases files@.len() - i,
    {
        assert(files@.take(i + 1).drop_last() =~= files@.take(i as int));
        assert(files@.take(i + 1).last() == files@[i as int]);
        if let Some(option) = custom_wallpaper(&files[i]) {
            place(&mut custom, option);
        }
        i = i + 1;
    }
    assert(files@.take(i as int) =~= files@);
    let ghost own = option_views(custom@);
    options.append(&mut custom);
    assert(option_views(options@) =~= fixed + own);
    options
}

/// Where settings are written before they replace the old ones.
pub fn temporary_settings_path(parent: &FilePath, process: u32) -> (r: FilePath)
    ensures
        r@ == joined(parent@, ".home.toml.tmp-"@ + decimal(process as nat)),
{
    let mut name = ".home.toml.tmp-".to_owned();
    let number = decimal_text(process as u64);
    name.append(number.as_str());
    parent.join(name.as_str())
}

/// A list whose labels never decrease.
pub open spec fn by_label(options: Seq<OptionView>) -> bool {
    forall|i: int, j: int|
        0 <= i < j < options.len() ==> !text_less(
            (#[trigger] options[j]).label,
            (#[trigger] options[i]).label,
        )
}

/// Putting a wallpaper in its place keeps the order.
proof fn lemma_placed_by_label(options: Seq<OptionView>, option: OptionView)
    requires
        by_label(options),
    ensures
        by_label(placed(options, option)),
        forall|i: int|
            0 <= i < placed(options, option).len() ==> (#[trigger] placed(options, option)[i])
                == option || options.contains(placed(options, option)[i]),
        placed(options, option).len() == options.len() + 1,
    decreases options.len(),
{
    if options.len() > 0 && text_less(option.label, options.last().label) {
        let rest = options.drop_last();
        lemma_placed_by_label(rest, option);
        let done = placed(rest, option);
        assert forall|i: int|
            0 <= i < done.push(options.last()).len() implies (#[trigger] done.push(
            options.last(),
        )[i]) == option || options.contains(done.push(options.last())[i]) by {
            if i < done.len() {
                if done[i] != option {
                    let k = choose|k: int| 0 <= k < rest.len() && rest[k] == done[i];
                    assert(options[k] == done[i]);
                }
            } else {
                assert(options[options.len() - 1] == options.last());
            }
        }
        assert forall|i: int, j: int|
            0 <= i < j < done.push(options.last()).len() implies !text_less(
            (#[trigger] done.push(options.last())[j]).label,
            (#[trigger] done.push(options.last())[i]).label,
        ) by {
            if j == done.len() {
                let last = options.last();
                if done[i] == option {
                    if text_less(last.label, option.label) {
                        lemma_text_less_transitive(last.label, option.label, last.label);
                        lemma_text_less_irreflexive(last.label);
                    }
                } else {
                    let k = choose|k: int| 0 <= k < rest.len() && rest[k] == done[i];
                    assert(options[k] == done[i]);
                    assert(options[options.len() - 1] == last);
                }
            }
        }
    } else {
        let done = options.push(option);
        assert forall|i: int| 0 <= i < done.len() implies (#[trigger] done[i]) == option
            || options.contains(done[i]) by {
            if i < options.len() {
                assert(options[i] == done[i]);
            }
        }
        assert forall|i: int, j: int| 0 <= i < j < done.len() implies !text_less(
            (#[trigger] done[j]).label,
            (#[trigger] done[i]).label,
        ) by {
            if j == options.len() {
                let last = options.last();
                assert(!text_less(option.label, last.label));
                if i < options.len() - 1 {
                    assert(options[options.len() - 1] == last);
                    assert(!text_less(last.label, options[i].label));
                    if text_less(option.label, options[i].label) {
                        lemma_text_less_total(last.label, options[i].label);
                        if last.label == options[i].label {
                        } else {
                            lemma_text_less_transitive(
                                option.label,
                                options[i].label,
                                last.label,
                            );
                        }
                    }
                }
            }
        }
    }
}

/// The user's wallpapers are offered in the order of their labels, whatever
/// the order of the files.
pub proof fn wallpapers_are_offered_in_order(files: Seq<WallpaperFile>)
    ensures
        by_label(custom_wallpapers(files)),
    decreases files.len(),
{
    if files.len() > 0 {
        wallpapers_are_offered_in_order(files.drop_last());
        if let Some(option) = wallpaper_of(files.last()) {
            lemma_placed_by_label(custom_wallpapers(files.drop_last()), option);
        }
    }
}

/// A link is never offered as a wallpaper, nor is a file of another kind.
pub proof fn only_regular_images_are_offered(file: WallpaperFile)
    requires
        wallpaper_of(file) is Some,
    ensures
        file.regular,
        file_name(file.path@) is Some,
        name_parts(file_name(file.path@)->0).1 is Some,
        png_extension(name_parts(file_name(file.path@)->0).1->0),
{
}

/// The next wallpaper of a round is one of those that are offered.
pub proof fn cycling_stays_among_the_offered(options: Seq<OptionView>, current: Seq<char>)
    requires
        options.len() > 0,
    ensures
        position_of(options, next_wallpaper(options, current)) is Some,
{
    lemma_position_holds(options, current);
    let n = options.len() as int;
    let i = (selected_index(options, current) + 1) % n;
    assert(0 <= i < n) by (nonlinear_arith)
        requires
            n > 0,
            i == (selected_index(options, current) + 1) % n,
    ;
    if position_of(options, options[i].id) is None {
        lemma_position_or_absent(options, options[i].id, i);
    }
}

/// An id that is in the list has a place.
proof fn lemma_position_or_absent(options: Seq<OptionView>, id: Seq<char>, i: int)
    requires
        0 <= i < options.len(),
        options[i].id == id,
    ensures
        position_of(options, id) is Some,
    decreases options.len(),
{
    if options[0].id != id {
        assert(options.drop_first()[i - 1] == options[i]);
        lemma_position_or_absent(options.drop_first(), id, i - 1);
    }
}

/// The place of an id is where it stands first, and there is one exactly where it stands somewhere.
pub proof fn positions_are_first_occurrences(options: Seq<OptionView>, id: Seq<char>)
    ensures
        position_of(options, id) is None <==> forall|i: int|
            0 <= i < options.len() ==> (#[trigger] options[i]).id != id,
        position_of(options, id) matches Some(i) ==> 0 <= i < options.len() && options[i].id == id
            && forall|j: int| 0 <= j < i ==> (#[trigger] options[j]).id != id,
    decreases options.len(),
{
    if options.len() > 0 {
        let rest = options.drop_first();
        positions_are_first_occurrences(rest, id);
        if options[0].id != id {
            if position_of(rest, id) is None {
                assert forall|i: int| 0 <= i < options.len() implies (#[trigger] options[i]).id
                    != id by {
                    if i > 0 {
                        assert(rest[i - 1] == options[i]);
                    }
                }
            } else {
                let k = position_of(rest, id)->0;
                assert(rest[k] == options[k + 1]);
                assert forall|j: int| 0 <= j < k + 1 implies (#[trigger] options[j]).id != id by {
                    if j > 0 {
                        assert(rest[j - 1] == options[j]);
                    }
                }
            }
        }
    }
}

/// Each touch moves on to the wallpaper after the present one, and from the last to the first; a
/// present one that is no longer offered counts as the first.
pub proof fn wallpapers_are_cycled_in_order(options: Seq<OptionView>, current: Seq<char>, i: int)
    requires
        0 <= i < options.len(),
    ensures
        position_of(options, current) == Some(i) && i + 1 < options.len() ==> next_wallpaper(
            options,
            current,
        ) == options[i + 1].id,
        position_of(options, current) == Some(i) && i + 1 == options.len() ==> next_wallpaper(
            options,
            current,
        ) == options[0].id,
        position_of(options, current) is None && options.len() > 1 ==> next_wallpaper(
            options,
            current,
        ) == options[1].id,
{
    let n = options.len() as int;
    if i + 1 < n {
        vstd::arithmetic::div_mod::lemma_small_mod((i + 1) as nat, n as nat);
    } else {
        vstd::arithmetic::div_mod::lemma_mod_self_0(n);
    }
    if n > 1 {
        vstd::arithmetic::div_mod::lemma_small_mod(1, n as nat);
    }
}

/// A file name is what stands before its last dot and what stands after it; without a dot, and
/// where the only dot is its first character, it has no extension.
pub proof fn names_are_parted_at_the_last_dot(name: Seq<char>)
    ensures
        match name_parts(name).1 {
            Some(extension) => {
                &&& name == name_parts(name).0.push('.') + extension
                &&& !extension.contains('.')
                &&& name_parts(name).0.len() > 0
            },
            None => name_parts(name).0 == name,
        },
        name_parts(name).1 is None <==> !name.drop_first().contains('.') || name == ".."@
            || name.len() == 0,
{
    reveal_strlit("..");
    lemma_last_dot_place(name);
    match last_dot(name) {
        Some(i) => {
            if i > 0 && name != ".."@ {
                assert(name =~= name.take(i).push('.') + name.skip(i + 1));
                assert(!name.skip(i + 1).contains('.')) by {
                    let rest = name.skip(i + 1);
                    if rest.contains('.') {
                        let k = choose|k: int| 0 <= k < rest.len() && rest[k] == '.';
                        assert(name[i + 1 + k] == '.');
                    }
                }
                assert(name.drop_first()[i - 1] == '.');
            }
            if i == 0 {
                assert(!name.drop_first().contains('.')) by {
                    if name.drop_first().contains('.') {
                        let k = choose|k: int|
                            0 <= k < name.drop_first().len() && name.drop_first()[k] == '.';
                        assert(name[k + 1] == '.');
                    }
                }
            }
        },
        None => {
            if name.len() > 0 && name.drop_first().contains('.') {
                let k = choose|k: int|
                    0 <= k < name.drop_first().len() && name.drop_first()[k] == '.';
                assert(name[k + 1] == '.');
            }
        },
    }
}

/// The last dot is a dot, and none follows it.
proof fn lemma_last_dot_place(s: Seq<char>)
    ensures
        match last_dot(s) {
            Some(i) => 0 <= i < s.len() && s[i] == '.' && forall|j: int|
                i < j < s.len() ==> s[j] != '.',
            None => forall|j: int| 0 <= j < s.len() ==> s[j] != '.',
        },
    decreases s.len(),
{
    if s.len() > 0 && s.last() != '.' {
        lemma_last_dot_place(s.drop_last());
        let front = s.drop_last();
        assert forall|j: int| 0 <= j < front.len() implies front[j] == s[j] by {}
    }
}

/// A label that is too long is cut after as many characters as fit, and a sign shows that.
pub proof fn long_labels_are_cut(label: Seq<char>, limit: int)
    requires
        0 <= limit,
    ensures
        label.len() <= limit ==> shortened(label, limit) == label,
        label.len() > limit ==> shortened(label, limit).len() == limit + 1 && shortened(
            label,
            limit,
        ).drop_last() == label.take(limit) && shortened(label, limit).last() == '…',
{
    if label.len() > limit {
        assert(label.take(limit).push('…').drop_last() =~= label.take(limit));
    }
}

/// A regular file with the extension of an image is offered as a wallpaper: under its whole name,
/// with its name but for the extension as the label, and with its path.
pub proof fn image_files_are_offered(file: WallpaperFile, stem: Seq<char>, extension: Seq<char>)
    requires
        file.regular,
        stem.len() > 0,
        !extension.contains('.'),
        file_name(file.path@) == Some(stem.push('.') + extension),
        png_extension(extension),
    ensures
        wallpaper_of(file) is Some,
        wallpaper_of(file)->0.id == "custom:"@ + (stem.push('.') + extension),
        wallpaper_of(file)->0.path == Some(file.path@),
        stem.len() <= 18 ==> wallpaper_of(file)->0.label == stem,
{
    let name = stem.push('.') + extension;
    reveal_strlit("..");
    names_are_parted_at_the_last_dot(name);
    assert(name.drop_first()[stem.len() - 1] == '.');
    assert(name.drop_first().contains('.'));
    assert(name.len() == stem.len() + 4);
    let (front, back) = name_parts(name);
    assert(back is Some);
    let after = back->0;
    assert(front.len() == stem.len()) by {
        if front.len() < stem.len() {
            assert(name[stem.len() as int] == '.');
            assert(after[stem.len() - front.len() - 1] == name[stem.len() as int]);
            assert(after.contains('.'));
        } else if front.len() > stem.len() {
            assert(name[front.len() as int] == '.');
            assert(extension[front.len() - stem.len() - 1] == name[front.len() as int]);
            assert(extension.contains('.'));
        }
    }
    assert(front =~= stem) by {
        assert forall|i: int| 0 <= i < stem.len() implies front[i] == stem[i] by {
            assert(name[i] == front[i] && name[i] == stem[i]);
        }
    }
    assert(after =~= extension) by {
        assert forall|i: int| 0 <= i < extension.len() implies after[i] == extension[i] by {
            assert(name[stem.len() + 1 + i] == after[i]);
        }
    }
}

/// A wallpaper takes its place behind those whose label does not come after its own, and before
/// all others; these keep their order.
pub proof fn wallpapers_take_their_place_by_label(options: Seq<OptionView>, option: OptionView) -> (
    n: int)
    ensures
        0 <= n <= options.len(),
        placed(options, option) == options.insert(n, option),
        forall|i: int|
            n <= i < options.len() ==> text_less(option.label, (#[trigger] options[i]).label),
        n > 0 ==> !text_less(option.label, options[n - 1].label),
    decreases options.len(),
{
    if options.len() > 0 && text_less(option.label, options.last().label) {
        let front = options.drop_last();
        let n = wallpapers_take_their_place_by_label(front, option);
        assert(front.insert(n, option).push(options.last()) =~= options.insert(n, option));
        assert forall|i: int| n <= i < options.len() implies text_less(
            option.label,
            (#[trigger] options[i]).label,
        ) by {
            if i < options.len() - 1 {
                assert(front[i] == options[i]);
            }
        }
        n
    } else {
        assert(options.push(option) =~= options.insert(options.len() as int, option));
        options.len() as int
    }
}

/// Every image among the files is offered, and nothing that is no image.
pub proof fn every_image_is_offered(files: Seq<WallpaperFile>)
    ensures
        forall|i: int|
            0 <= i < files.len() && wallpaper_of(#[trigger] files[i]) is Some ==> custom_wallpapers(
                files,
            ).contains(wallpaper_of(files[i])->0),
        forall|k: int|
            0 <= k < custom_wallpapers(files).len() ==> exists|i: int|
                0 <= i < files.len() && wallpaper_of(#[trigger] files[i]) == Some(
                    #[trigger] custom_wallpapers(files)[k],
                ),
        custom_wallpapers(files).len() <= files.len(),
    decreases files.len(),
{
    if files.len() > 0 {
        let front = files.drop_last();
        let before = custom_wallpapers(front);
        let all = custom_wallpapers(files);
        every_image_is_offered(front);
        if let Some(option) = wallpaper_of(files.last()) {
            let n = wallpapers_take_their_place_by_label(before, option);
            assert(all[n] == option);
            assert forall|i: int|
                0 <= i < files.len() && wallpaper_of(
                    #[trigger] files[i],
                ) is Some implies all.contains(wallpaper_of(files[i])->0) by {
                if i < files.len() - 1 {
                    assert(front[i] == files[i]);
                    let o = wallpaper_of(files[i])->0;
                    let k = choose|k: int| 0 <= k < before.len() && before[k] == o;
                    if k < n {
                        assert(all[k] == o);
                    } else {
                        assert(all[k + 1] == o);
                    }
                }
            }
            assert forall|k: int| 0 <= k < all.len() implies exists|i: int|
                0 <= i < files.len() && wallpaper_of(#[trigger] files[i]) == Some(
                    #[trigger] all[k],
                ) by {
                if k == n {
                    assert(wallpaper_of(files[files.len() - 1]) == Some(all[k]));
                } else {
                    let m = if k < n {
                        k
                    } else {
                        k - 1
                    };
                    assert(all[k] == before[m]);
                    let i = choose|i: int|
                        0 <= i < front.len() && wallpaper_of(#[trigger] front[i]) == Some(
                            before[m],
                        );
                    assert(files[i] == front[i]);
                }
            }
        } else {
            assert forall|i: int|
                0 <= i < files.len() && wallpaper_of(
                    #[trigger] files[i],
                ) is Some implies all.contains(wallpaper_of(files[i])->0) by {
                assert(front[i] == files[i]);
            }
            assert forall|k: int| 0 <= k < all.len() implies exists|i: int|
                0 <= i < files.len() && wallpaper_of(#[trigger] files[i]) == Some(
                    #[trigger] all[k],
                ) by {
                let i = choose|i: int|
                    0 <= i < front.len() && wallpaper_of(#[trigger] front[i]) == Some(before[k]);
                assert(files[i] == front[i]);
            }
        }
    }
}

/// The plain page is always offered first, the system's picture second where there is one, and
/// then the images.
pub proof fn the_plain_page_is_always_offered(
    system: Option<Seq<char>>,
    files: Seq<WallpaperFile>,
)
    ensures
        offered(system, files).len() > 0,
        offered(system, files)[0].id == "default"@,
        offered(system, files)[0].path is None,
        system is Some ==> offered(system, files)[1].id == "system"@ && offered(
            system,
            files,
        )[1].path == system && offered(system, files).skip(2) == custom_wallpapers(files),
        system is None ==> offered(system, files).skip(1) == custom_wallpapers(files),
{
    if system is Some {
        assert(offered(system, files).skip(2) =~= custom_wallpapers(files));
    } else {
        assert(offered(system, files).skip(1) =~= custom_wallpapers(files));
    }
}

} // verus!
