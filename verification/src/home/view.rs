//! What a page shows: drawing steps, and the buttons that react to a finger.
use vstd::prelude::*;
use crate::manifest::AppId;
use crate::path::FilePath;
use crate::text::text_eq;

verus! {

pub const WHITE: u32 = 0xFFFF_FFFF;

pub const BLACK: u32 = 0xFF18_1818;

pub const GRAY: u32 = 0xFFE8_E6E1;

pub const DARK_GRAY: u32 = 0xFF73_716C;

/// The color of a bar and of a button on a tile.
pub const LIGHT_GRAY: u32 = 0xFFD0_CECB;

/// The color of the line under a card.
pub const CARD_LINE: u32 = 0xFFD2_D0CB;

/// A page of the home surface.
#[derive(Clone, Copy, Debug, PartialEq, Eq, Structural)]
pub enum UiMode {
    Welcome,
    Manager,
    Settings,
    LockPreview,
    Locked,
    Backlight,
    WallpaperBrowser,
    Store,
    SystemUpdate,
}

/// What a button does.
#[derive(Clone, Debug, PartialEq, Eq)]
pub enum Action {
    Launch(AppId),
    Close(AppId),
    Unavailable,
    System,
    Sleep,
    Wake,
    OpenSettings,
    BackManager,
    BackSettings,
    CycleWallpaper,
    ToggleWallpaperFit,
    ToggleLockClock,
    ToggleLockHint,
    PreviewLock,
    OpenStore,
    StoreInstall(String),
    StoreUpgrade(String),
    StoreUninstall(String),
    OpenSystemUpdate,
    RefreshSystemUpdate,
    SystemUpdate,
    OpenBacklight,
    SetBacklight(u8),
    AdjustBacklight(i8),
    CycleAutoSleep,
    OpenWallpaperBrowser,
    SelectWallpaper(String),
    WallpaperPage(i8),
}

/// What a button does, over texts.
pub enum ActionView {
    Launch(Seq<char>),
    Close(Seq<char>),
    Unavailable,
    System,
    Sleep,
    Wake,
    OpenSettings,
    BackManager,
    BackSettings,
    CycleWallpaper,
    ToggleWallpaperFit,
    ToggleLockClock,
    ToggleLockHint,
    PreviewLock,
    OpenStore,
    StoreInstall(Seq<char>),
    StoreUpgrade(Seq<char>),
    StoreUninstall(Seq<char>),
    OpenSystemUpdate,
    RefreshSystemUpdate,
    SystemUpdate,
    OpenBacklight,
    SetBacklight(u8),
    AdjustBacklight(int),
    CycleAutoSleep,
    OpenWallpaperBrowser,
    SelectWallpaper(Seq<char>),
    WallpaperPage(int),
}

impl View for Action {
    type V = ActionView;

    open spec fn view(&self) -> ActionView {
        match self {
            Action::Launch(app_id) => ActionView::Launch(app_id@),
            Action::Close(app_id) => ActionView::Close(app_id@),
            Action::Unavailable => ActionView::Unavailable,
            Action::System => ActionView::System,
            Action::Sleep => ActionView::Sleep,
            Action::Wake => ActionView::Wake,
            Action::OpenSettings => ActionView::OpenSettings,
            Action::BackManager => ActionView::BackManager,
            Action::BackSettings => ActionView::BackSettings,
            Action::CycleWallpaper => ActionView::CycleWallpaper,
            Action::ToggleWallpaperFit => ActionView::ToggleWallpaperFit,
            Action::ToggleLockClock => ActionView::ToggleLockClock,
            Action::ToggleLockHint => ActionView::ToggleLockHint,
            Action::PreviewLock => ActionView::PreviewLock,
            Action::OpenStore => ActionView::OpenStore,
            Action::StoreInstall(id) => ActionView::StoreInstall(id@),
            Action::StoreUpgrade(id) => ActionView::StoreUpgrade(id@),
            Action::StoreUninstall(id) => ActionView::StoreUninstall(id@),
            Action::OpenSystemUpdate => ActionView::OpenSystemUpdate,
            Action::RefreshSystemUpdate => ActionView::RefreshSystemUpdate,
            Action::SystemUpdate => ActionView::SystemUpdate,
            Action::OpenBacklight => ActionView::OpenBacklight,
            Action::SetBacklight(percent) => ActionView::SetBacklight(*percent),
            Action::AdjustBacklight(delta) => ActionView::AdjustBacklight(*delta as int),
            Action::CycleAutoSleep => ActionView::CycleAutoSleep,
            Action::OpenWallpaperBrowser => ActionView::OpenWallpaperBrowser,
            Action::SelectWallpaper(id) => ActionView::SelectWallpaper(id@),
            Action::WallpaperPage(delta) => ActionView::WallpaperPage(*delta as int),
        }
    }
}

/// A rectangle that reacts to a finger.
#[derive(Clone, Debug, PartialEq, Eq)]
pub struct Button {
    pub x: i32,
    pub y: i32,
    pub width: i32,
    pub height: i32,
    pub action: Action,
}

/// A button over texts.
pub struct ButtonView {
    pub x: int,
    pub y: int,
    pub width: int,
    pub height: int,
    pub action: ActionView,
}

impl View for Button {
    type V = ButtonView;

    open spec fn view(&self) -> ButtonView {
        ButtonView {
            x: self.x as int,
            y: self.y as int,
            width: self.width as int,
            height: self.height as int,
            action: self.action@,
        }
    }
}

impl ButtonView {
    /// A point lies on the button.
    pub open spec fn covers(self, x: int, y: int) -> bool {
        self.x <= x < self.x + self.width && self.y <= y < self.y + self.height
    }

    /// The button lies on a surface.
    pub open spec fn lies_on(self, width: int, height: int) -> bool {
        &&& 0 <= self.x && 0 < self.width && self.x + self.width <= width
        &&& 0 <= self.y && 0 < self.height && self.y + self.height <= height
    }

    /// The button has no point in common with another one.
    pub open spec fn apart_from(self, other: ButtonView) -> bool {
        ||| self.x + self.width <= other.x
        ||| other.x + other.width <= self.x
        ||| self.y + self.height <= other.y
        ||| other.y + other.height <= self.y
    }
}

/// The views of a list of buttons.
pub open spec fn button_views(buttons: Seq<Button>) -> Seq<ButtonView> {
    buttons.map_values(|b: Button| b@)
}

/// A button whose far corner can be written down.
pub open spec fn measurable(button: Button) -> bool {
    &&& i32::MIN <= button.x + button.width <= i32::MAX
    &&& i32::MIN <= button.y + button.height <= i32::MAX
}

/// Whether a point lies on a button.
pub fn button_contains(button: &Button, x: i32, y: i32) -> (r: bool)
    requires
        measurable(*button),
    ensures
        r == button@.covers(x as int, y as int),
{
    x >= button.x && x < button.x + button.width && y >= button.y && y < button.y + button.height
}

/// The first button that a point lies on.
pub fn button_at(buttons: &[Button], x: i32, y: i32) -> (r: Option<usize>)
    requires
        forall|i: int| 0 <= i < buttons@.len() ==> measurable(#[trigger] buttons@[i]),
    ensures
        match r {
            Some(i) => {
                &&& i < buttons@.len()
                &&& buttons@[i as int]@.covers(x as int, y as int)
                &&& forall|j: int|
                    0 <= j < i ==> !(#[trigger] buttons@[j])@.covers(x as int, y as int)
            },
            None => forall|j: int|
                0 <= j < buttons@.len() ==> !(#[trigger] buttons@[j])@.covers(x as int, y as int),
        },
{
    let mut i: usize = 0;
    while i < buttons.len()
        invariant
            i <= buttons@.len(),
            forall|j: int| 0 <= j < buttons@.len() ==> measurable(#[trigger] buttons@[j]),
            forall|j: int| 0 <= j < i ==> !(#[trigger] buttons@[j])@.covers(x as int, y as int),
        decreases buttons@.len() - i,
    {
        assert(measurable(buttons@[i as int]));
        if button_contains(&buttons[i], x, y) {
            return Some(i);
        }
        i = i + 1;
    }
    None
}

/// Where a text stands in a line.
#[derive(Clone, Copy, Debug, PartialEq, Eq, Structural)]
pub enum Place {
    /// From this column on.
    At(i32),
    /// In the middle of the page, but not before its edge.
    Middle,
    /// In the middle of these columns, but not before the first of them.
    Within { x: i32, width: i32 },
    /// In the middle of these columns.
    Around { x: i32, width: i32 },
}

/// Where a text stands in a line, over integers.
pub enum PlaceView {
    At(int),
    Middle,
    Within(int, int),
    Around(int, int),
}

impl View for Place {
    type V = PlaceView;

    open spec fn view(&self) -> PlaceView {
        match self {
            Place::At(x) => PlaceView::At(*x as int),
            Place::Middle => PlaceView::Middle,
            Place::Within { x, width } => PlaceView::Within(*x as int, *width as int),
            Place::Around { x, width } => PlaceView::Around(*x as int, *width as int),
        }
    }
}

/// One step of drawing. Sizes of texts are in pixels.
#[derive(Clone, Debug, PartialEq, Eq)]
pub enum Draw {
    Fill(u32),
    Rect { x: i32, y: i32, width: i32, height: i32, color: u32 },
    Line { x0: i32, x1: i32, y: i32, color: u32 },
    Text {
        text: String,
        size: u32,
        place: Place,
        baseline: i32,
        color: u32,
        /// The text is cut to so many columns, where that is given.
        limit: Option<i32>,
    },
    /// A bar that is filled to so many hundredths, or somewhat where it is not
    /// known how far.
    Progress { x: i32, y: i32, width: i32, height: i32, percent: Option<u8> },
    /// A wallpaper in small, or a white sheet.
    Thumbnail { path: Option<FilePath>, x: i32, y: i32, width: i32, height: i32 },
    /// A wallpaper over the whole page, or a white sheet. Whether it covers
    /// the page or is seen as a whole.
    Wallpaper { path: Option<FilePath>, cover: bool },
}

/// One step of drawing over texts.
pub enum DrawView {
    Fill(u32),
    Rect(int, int, int, int, u32),
    Line(int, int, int, u32),
    Text(Seq<char>, u32, PlaceView, int, u32, Option<int>),
    Progress(int, int, int, int, Option<u8>),
    Thumbnail(Option<Seq<char>>, int, int, int, int),
    Wallpaper(Option<Seq<char>>, bool),
}

/// The text of a path that may be missing.
pub open spec fn path_view(path: Option<FilePath>) -> Option<Seq<char>> {
    match path {
        Some(path) => Some(path@),
        None => None,
    }
}

impl View for Draw {
    type V = DrawView;

    open spec fn view(&self) -> DrawView {
        match self {
            Draw::Fill(color) => DrawView::Fill(*color),
            Draw::Rect { x, y, width, height, color } => DrawView::Rect(
                *x as int,
                *y as int,
                *width as int,
                *height as int,
                *color,
            ),
            Draw::Line { x0, x1, y, color } => DrawView::Line(
                *x0 as int,
                *x1 as int,
                *y as int,
                *color,
            ),
            Draw::Text { text, size, place, baseline, color, limit } => DrawView::Text(
                text@,
                *size,
                place@,
                *baseline as int,
                *color,
                match limit {
                    Some(limit) => Some(*limit as int),
                    None => None,
                },
            ),
            Draw::Progress { x, y, width, height, percent } => DrawView::Progress(
                *x as int,
                *y as int,
                *width as int,
                *height as int,
                *percent,
            ),
            Draw::Thumbnail { path, x, y, width, height } => DrawView::Thumbnail(
                path_view(*path),
                *x as int,
                *y as int,
                *width as int,
                *height as int,
            ),
            Draw::Wallpaper { path, cover } => DrawView::Wallpaper(path_view(*path), *cover),
        }
    }
}

/// The views of a list of drawing steps.
pub open spec fn draw_views(draws: Seq<Draw>) -> Seq<DrawView> {
    draws.map_values(|d: Draw| d@)
}

/// A page: how the panel refreshes it, what is drawn, and its buttons.
#[derive(Debug, PartialEq, Eq)]
pub struct Page {
    /// The page has colors.
    pub color: bool,
    pub draws: Vec<Draw>,
    pub buttons: Vec<Button>,
}

/// A page over texts.
#[verifier::ext_equal]
pub struct PageView {
    pub color: bool,
    pub draws: Seq<DrawView>,
    pub buttons: Seq<ButtonView>,
}

impl View for Page {
    type V = PageView;

    open spec fn view(&self) -> PageView {
        PageView {
            color: self.color,
            draws: draw_views(self.draws@),
            buttons: button_views(self.buttons@),
        }
    }
}

/// A quotient, rounded towards zero.
pub open spec fn quotient(n: int, d: int) -> int {
    if n >= 0 {
        n / d
    } else {
        -((-n) / d)
    }
}

/// Half of a number, rounded towards zero.
pub open spec fn half_of(n: int) -> int {
    quotient(n, 2)
}

/// A quotient, rounded towards zero.
pub fn divide(n: i32, d: i32) -> (r: i32)
    requires
        n > i32::MIN,
        d > 0,
    ensures
        r == quotient(n as int, d as int),
        n >= 0 ==> 0 <= r <= n,
        n < 0 ==> n <= r <= 0,
{
    if n >= 0 {
        assert(0 <= (n as int) / (d as int) <= n) by (nonlinear_arith)
            requires
                n >= 0,
                d > 0,
        ;
        n / d
    } else {
        let m: i32 = -n;
        assert(0 <= (m as int) / (d as int) <= m) by (nonlinear_arith)
            requires
                m >= 0,
                d > 0,
        ;
        -(m / d)
    }
}

/// Half of a number, rounded towards zero.
pub fn half(n: i32) -> (r: i32)
    requires
        n > i32::MIN,
    ensures
        r == half_of(n as int),
        n >= 0 ==> 0 <= r <= n,
        n < 0 ==> n <= r <= 0,
{
    divide(n, 2)
}

/// How many tiles of a size fit beside each other with gaps between them and a
/// margin; at least one.
pub open spec fn columns_of(width: int, tile: int, gap: int) -> int {
    let n = (width - 76 + gap) / (tile + gap);
    if n < 1 {
        1
    } else {
        n
    }
}

/// How many tiles of a size fit beside each other.
pub fn tile_columns(width: i32, tile: i32, gap: i32) -> (r: i32)
    requires
        0 <= width <= 0x0100_0000,
        0 < tile <= 1000,
        0 <= gap <= 1000,
    ensures
        r == columns_of(width as int, tile as int, gap as int),
        1 <= r <= 0x0100_1000,
{
    let room = width - 76 + gap;
    let step = tile + gap;
    if room < step {
        proof {
            if room < 0 {
                assert((room as int) / (step as int) < 0) by (nonlinear_arith)
                    requires
                        room < 0,
                        step > 0,
                ;
            } else {
                assert((room as int) / (step as int) == 0) by (nonlinear_arith)
                    requires
                        0 <= room < step,
                ;
            }
        }
        1
    } else {
        assert(1 <= (room as int) / (step as int) <= room) by (nonlinear_arith)
            requires
                room >= step,
                step >= 1,
        ;
        room / step
    }
}

/// Where the tiles of a grid begin.
pub open spec fn grid_start(width: int, tile: int, gap: int) -> int {
    let columns = columns_of(width, tile, gap);
    half_of(width - (columns * tile + (columns - 1) * gap))
}

/// The place of a tile in a grid.
pub open spec fn tile_place(width: int, tile: int, gap: int, top: int, index: int) -> (int, int) {
    let columns = columns_of(width, tile, gap);
    (
        grid_start(width, tile, gap) + (index % columns) * (tile + gap),
        top + (index / columns) * (tile + gap),
    )
}

/// Tiles are where a grid has room for them.
proof fn lemma_grid(width: int, tile: int, gap: int, index: int)
    requires
        0 <= width <= 0x0100_0000,
        0 < tile <= 1000,
        0 <= gap <= 1000,
        0 <= index,
    ensures
        ({
            let columns = columns_of(width, tile, gap);
            let used = columns * tile + (columns - 1) * gap;
            &&& 1 <= columns
            &&& tile <= used
            &&& columns == 1 && used == tile || used <= width - 76
            &&& 0 <= (index % columns) * (tile + gap) <= used - tile
            &&& 0 <= index / columns <= index
            &&& 0 <= columns * tile <= 0x0200_0000
            &&& 0 <= (columns - 1) * gap <= 0x0200_0000
        }),
{
    let step = tile + gap;
    let room = width - 76 + gap;
    let columns = columns_of(width, tile, gap);
    let used = columns * tile + (columns - 1) * gap;
    assert(used == columns * step - gap) by (nonlinear_arith)
        requires
            used == columns * tile + (columns - 1) * gap,
            step == tile + gap,
    ;
    if columns > 1 {
        assert((room / step) * step <= room) by (nonlinear_arith)
            requires
                step > 0,
        ;
    }
    assert(0 <= index % columns <= columns - 1 && 0 <= index / columns <= index)
        by (nonlinear_arith)
        requires
            columns >= 1,
            index >= 0,
    ;
    let column = index % columns;
    assert(0 <= column * step <= (columns - 1) * step) by (nonlinear_arith)
        requires
            0 <= column <= columns - 1,
            step > 0,
    ;
    assert((columns - 1) * step == columns * step - step) by (nonlinear_arith);
    assert(0 <= columns * tile && 0 <= (columns - 1) * gap && tile <= columns * tile)
        by (nonlinear_arith)
        requires
            columns >= 1,
            tile > 0,
            gap >= 0,
    ;
}

/// The place of a tile in a grid, where it lies above a line.
pub fn place_tile(width: i32, tile: i32, gap: i32, top: i32, index: usize, line: i32) -> (r: Option<
    (i32, i32),
>)
    requires
        0 <= width <= 0x0100_0000,
        0 < tile <= 1000,
        0 <= gap <= 1000,
        0 <= top <= 1000,
        line <= 0x0100_0000,
    ensures
        ({
            let (x, y) = tile_place(width as int, tile as int, gap as int, top as int, index as int);
            match r {
                Some((px, py)) => px == x && py == y && y + tile <= line && -1000 <= x
                    <= 0x0100_0000 && 0 <= y <= 0x0100_0000,
                None => y + tile > line,
            }
        }),
{
    let columns = tile_columns(width, tile, gap);
    proof {
        lemma_grid(width as int, tile as int, gap as int, index as int);
    }
    let used: i32 = columns * tile + (columns - 1) * gap;
    let start = half(width - used);
    let column: usize = index % (columns as usize);
    let row: usize = index / (columns as usize);
    assert(0 <= row * (tile + gap) <= usize::MAX * 2000) by (nonlinear_arith)
        requires
            0 <= row <= usize::MAX,
            0 <= tile + gap <= 2000,
    ;
    let step: i32 = tile + gap;
    let y: u128 = top as u128 + row as u128 * step as u128;
    if line < 0 || y + tile as u128 > line as u128 {
        return None;
    }
    Some((start + column as i32 * step, y as i32))
}

/// The size of the page in pixels.
#[derive(Clone, Copy, Debug, PartialEq, Eq, Structural)]
pub struct Screen {
    pub width: i32,
    pub height: i32,
}

impl Screen {
    /// No place on the page comes near the limits of a coordinate.
    pub open spec fn usable(self) -> bool {
        0 <= self.width <= 0x0100_0000 && 0 <= self.height <= 0x0100_0000
    }
}

impl PageView {
    /// A page of one color.
    pub open spec fn blank(color: bool) -> PageView {
        PageView { color, draws: seq![DrawView::Fill(WHITE)], buttons: Seq::empty() }
    }

    /// The page with one more step of drawing.
    pub open spec fn draw(self, step: DrawView) -> PageView {
        PageView { draws: self.draws.push(step), ..self }
    }

    /// The page with a rectangle.
    pub open spec fn rect(self, x: int, y: int, width: int, height: int, color: u32) -> PageView {
        self.draw(DrawView::Rect(x, y, width, height, color))
    }

    /// The page with a text.
    pub open spec fn text(
        self,
        text: Seq<char>,
        size: u32,
        place: PlaceView,
        baseline: int,
        color: u32,
    ) -> PageView {
        self.draw(DrawView::Text(text, size, place, baseline, color, None))
    }

    /// The page with a text that is cut to so many columns.
    pub open spec fn cut_text(
        self,
        text: Seq<char>,
        size: u32,
        place: PlaceView,
        baseline: int,
        color: u32,
        limit: int,
    ) -> PageView {
        self.draw(DrawView::Text(text, size, place, baseline, color, Some(limit)))
    }

    /// The page with one more button.
    pub open spec fn button(
        self,
        x: int,
        y: int,
        width: int,
        height: int,
        action: ActionView,
    ) -> PageView {
        PageView {
            buttons: self.buttons.push(ButtonView { x, y, width, height, action }),
            ..self
        }
    }

    /// The page with a card.
    pub open spec fn card(self, x: int, y: int, width: int, height: int) -> PageView {
        self.rect(x, y, width, height, GRAY).draw(
            DrawView::Line(x + 18, x + width - 18, y + height - 1, CARD_LINE),
        )
    }

    /// The page with a labelled button: its rectangle, its label at so far
    /// below the top, and the button itself.
    pub open spec fn labelled(
        self,
        label: Seq<char>,
        size: u32,
        place: PlaceView,
        baseline: int,
        button: ButtonView,
    ) -> PageView {
        self.rect(button.x, button.y, button.width, button.height, GRAY).text(
            label,
            size,
            place,
            baseline,
            BLACK,
        ).button(button.x, button.y, button.width, button.height, button.action)
    }
}

impl Page {
    /// A page of one color.
    pub fn blank(color: bool) -> (r: Page)
        ensures
            r@ == PageView::blank(color),
    {
        let mut draws: Vec<Draw> = Vec::new();
        draws.push(Draw::Fill(WHITE));
        let page = Page { color, draws, buttons: Vec::new() };
        assert(page@ =~= PageView::blank(color));
        page
    }

    /// Adds a step of drawing.
    pub fn draw(&mut self, step: Draw)
        ensures
            final(self)@ == old(self)@.draw(step@),
    {
        let ghost before = self@;
        self.draws.push(step);
        assert(self@ =~= before.draw(step@));
    }

    /// Adds a rectangle.
    pub fn rect(&mut self, x: i32, y: i32, width: i32, height: i32, color: u32)
        ensures
            final(self)@ == old(self)@.rect(
                x as int,
                y as int,
                width as int,
                height as int,
                color,
            ),
    {
        self.draw(Draw::Rect { x, y, width, height, color });
    }

    /// Adds a text.
    pub fn text(&mut self, text: &str, size: u32, place: Place, baseline: i32, color: u32)
        ensures
            final(self)@ == old(self)@.text(text@, size, place@, baseline as int, color),
    {
        self.draw(
            Draw::Text { text: text.to_owned(), size, place, baseline, color, limit: None },
        );
    }

    /// Adds a text that is cut to so many columns.
    pub fn cut_text(
        &mut self,
        text: &str,
        size: u32,
        place: Place,
        baseline: i32,
        color: u32,
        limit: i32,
    )
        ensures
            final(self)@ == old(self)@.cut_text(
                text@,
                size,
                place@,
                baseline as int,
                color,
                limit as int,
            ),
    {
        self.draw(
            Draw::Text { text: text.to_owned(), size, place, baseline, color, limit: Some(limit) },
        );
    }

    /// Adds a button.
    pub fn button(&mut self, button: Button)
        ensures
            final(self)@ == old(self)@.button(
                button.x as int,
                button.y as int,
                button.width as int,
                button.height as int,
                button.action@,
            ),
    {
        let ghost before = self@;
        self.buttons.push(button);
        assert(self@ =~= before.button(
            button.x as int,
            button.y as int,
            button.width as int,
            button.height as int,
            button.action@,
        ));
    }

    /// Adds a card.
    pub fn card(&mut self, x: i32, y: i32, width: i32, height: i32)
        requires
            -0x1000_0000 <= x <= 0x1000_0000,
            -0x1000_0000 <= y <= 0x1000_0000,
            -0x1000_0000 <= width <= 0x1000_0000,
            -0x1000_0000 <= height <= 0x1000_0000,
        ensures
            final(self)@ == old(self)@.card(x as int, y as int, width as int, height as int),
    {
        self.rect(x, y, width, height, GRAY);
        self.draw(Draw::Line { x0: x + 18, x1: x + width - 18, y: y + height - 1, color: CARD_LINE });
    }

    /// Adds a labelled button.
    pub fn labelled(&mut self, label: &str, size: u32, place: Place, baseline: i32, button: Button)
        ensures
            final(self)@ == old(self)@.labelled(label@, size, place@, baseline as int, button@),
    {
        self.rect(button.x, button.y, button.width, button.height, GRAY);
        self.text(label, size, place, baseline, BLACK);
        self.button(button);
    }
}

/// What an application looks like from the home surface.
#[derive(Clone, Debug, PartialEq, Eq)]
pub struct AppView {
    pub id: AppId,
    pub name: String,
    pub installed: bool,
    /// The line that describes its session, where it has one.
    pub session: Option<String>,
    pub background_active: bool,
}

/// Whether an application lives: it has a session or works in the background.
pub fn is_alive(app: &AppView) -> (r: bool)
    ensures
        r == (app.session is Some || app.background_active),
{
    app.session.is_some() || app.background_active
}

/// The application with this id is not in the list, or it does not live.
pub open spec fn gone(apps: Seq<AppView>, app_id: Seq<char>) -> bool {
    forall|i: int|
        0 <= i < apps.len() && (#[trigger] apps[i]).id@ == app_id && (forall|j: int|
            0 <= j < i ==> (#[trigger] apps[j]).id@ != app_id) ==> apps[i].session is None
            && !apps[i].background_active
}

/// Whether an application is closed: the first with its id, where there is
/// one, does not live.
pub fn is_closed(apps: &[AppView], app_id: &AppId) -> (r: bool)
    ensures
        r == gone(apps@, app_id@),
{
    let mut i: usize = 0;
    while i < apps.len()
        invariant
            i <= apps@.len(),
            forall|j: int| 0 <= j < i ==> (#[trigger] apps@[j]).id@ != app_id@,
        decreases apps@.len() - i,
    {
        if text_eq(apps[i].id.as_str(), app_id.as_str()) {
            assert(apps@[i as int].id@ == app_id@);
            return !is_alive(&apps[i]);
        }
        i = i + 1;
    }
    true
}

/// Division cuts off toward zero, on either side of it.
pub proof fn division_cuts_off_toward_zero(n: int, d: int)
    requires
        d > 0,
    ensures
        n >= 0 ==> quotient(n, d) * d <= n < quotient(n, d) * d + d,
        n <= 0 ==> quotient(n, d) * d - d < n <= quotient(n, d) * d,
        quotient(-n, d) == -quotient(n, d),
{
    vstd::arithmetic::div_mod::lemma_fundamental_div_mod(n, d);
    vstd::arithmetic::div_mod::lemma_fundamental_div_mod(-n, d);
    vstd::arithmetic::div_mod::lemma_mod_bound(n, d);
    vstd::arithmetic::div_mod::lemma_mod_bound(-n, d);
    let q = n / d;
    let p = (-n) / d;
    assert(d * q == q * d && d * p == p * d && (-p) * d == -(p * d)) by (nonlinear_arith);
    if n == 0 {
        assert(0int / d == 0) by (nonlinear_arith)
            requires
                d > 0,
        ;
    }
}

/// As many tiles stand side by side as fit between the margins, and never less than one.
pub proof fn rows_hold_as_many_tiles_as_fit(width: int, tile: int, gap: int)
    requires
        0 < tile,
        0 <= gap,
    ensures
        columns_of(width, tile, gap) >= 1,
        columns_of(width, tile, gap) > 1 ==> columns_of(width, tile, gap) * tile + (columns_of(
            width,
            tile,
            gap,
        ) - 1) * gap <= width - 76,
        (columns_of(width, tile, gap) + 1) * tile + columns_of(width, tile, gap) * gap > width - 76,
{
    let step = tile + gap;
    let n = (width - 76 + gap) / step;
    let columns = columns_of(width, tile, gap);
    vstd::arithmetic::div_mod::lemma_fundamental_div_mod(width - 76 + gap, step);
    vstd::arithmetic::div_mod::lemma_mod_bound(width - 76 + gap, step);
    assert(step * n == n * tile + n * gap) by (nonlinear_arith)
        requires
            step == tile + gap,
    ;
    assert((n - 1) * gap == n * gap - gap) by (nonlinear_arith);
    assert((n + 1) * tile == n * tile + tile) by (nonlinear_arith);
    assert((columns + 1) * tile == columns * tile + tile) by (nonlinear_arith);
    if n < 1 {
        assert(n * tile <= tile && n * gap <= gap) by (nonlinear_arith)
            requires
                n < 1,
                0 < tile,
                0 <= gap,
        ;
        assert(n * tile + n * gap <= 0) by (nonlinear_arith)
            requires
                n < 1,
                0 < tile,
                0 <= gap,
        ;
        assert(columns == 1);
        assert(columns * tile == tile && columns * gap == gap);
    }
}

/// Tiles stand in rows from the left to the right and from the top down, evenly spaced, and no two
/// of them overlap.
pub proof fn tiles_stand_side_by_side(width: int, tile: int, gap: int, top: int, i: int, j: int)
    requires
        0 < tile,
        0 <= gap,
        0 <= i < j,
    ensures
        ({
            let columns = columns_of(width, tile, gap);
            let (xi, yi) = tile_place(width, tile, gap, top, i);
            let (xj, yj) = tile_place(width, tile, gap, top, j);
            &&& tile_place(width, tile, gap, top, 0).1 == top
            &&& yi <= yj
            &&& i / columns == j / columns ==> yi == yj && xj - xi == (j - i) * (tile + gap)
            &&& i / columns < j / columns ==> yj - yi >= tile + gap
            &&& xi + tile + gap <= xj || yi + tile + gap <= yj
        }),
{
    let columns = columns_of(width, tile, gap);
    let step = tile + gap;
    let (ri, rj) = (i / columns, j / columns);
    let (ci, cj) = (i % columns, j % columns);
    vstd::arithmetic::div_mod::lemma_fundamental_div_mod(i, columns);
    vstd::arithmetic::div_mod::lemma_fundamental_div_mod(j, columns);
    vstd::arithmetic::div_mod::lemma_div_is_ordered(i, j, columns);
    vstd::arithmetic::div_mod::lemma_mod_bound(i, columns);
    vstd::arithmetic::div_mod::lemma_mod_bound(j, columns);
    assert(0int / columns == 0) by (nonlinear_arith)
        requires
            columns >= 1,
    ;
    assert(0 * step == 0);
    assert((rj - ri) * step == rj * step - ri * step) by (nonlinear_arith);
    assert((cj - ci) * step == cj * step - ci * step) by (nonlinear_arith);
    assert(0 <= (rj - ri) * step) by (nonlinear_arith)
        requires
            ri <= rj,
            0 < step,
    ;
    if ri == rj {
        assert(cj - ci == j - i);
        assert((cj - ci) * step >= step) by (nonlinear_arith)
            requires
                cj - ci >= 1,
                0 < step,
        ;
    } else {
        assert((rj - ri) * step >= step) by (nonlinear_arith)
            requires
                rj - ri >= 1,
                0 < step,
        ;
    }
}

/// An application is gone where it is not listed, or where its entry has neither a session nor
/// background work.
pub proof fn applications_are_gone_without_a_session(apps: Seq<AppView>, i: int, app_id: Seq<char>)
    ensures
        (forall|j: int| 0 <= j < apps.len() ==> (#[trigger] apps[j]).id@ != app_id) ==> gone(
            apps,
            app_id,
        ),
        0 <= i < apps.len() && apps[i].id@ == app_id && (forall|j: int|
            0 <= j < i ==> (#[trigger] apps[j]).id@ != app_id) ==> (gone(apps, app_id)
            <==> apps[i].session is None && !apps[i].background_active),
{
    if 0 <= i < apps.len() && apps[i].id@ == app_id && (forall|j: int|
        0 <= j < i ==> (#[trigger] apps[j]).id@ != app_id) {
        if apps[i].session is None && !apps[i].background_active {
            assert forall|k: int|
                0 <= k < apps.len() && (#[trigger] apps[k]).id@ == app_id && (forall|j: int|
                    0 <= j < k ==> (#[trigger] apps[j]).id@ != app_id) implies apps[k].session is None
                && !apps[k].background_active by {
                if k < i {
                    assert(apps[k].id@ != app_id);
                } else if i < k {
                    assert(apps[i].id@ != app_id);
                }
            }
        }
    }
}

/// The page has a button for this.
pub open spec fn offers(page: PageView, action: ActionView) -> bool {
    exists|i: int| 0 <= i < page.buttons.len() && (#[trigger] page.buttons[i]).action == action
}

/// The page has this text on it.
pub open spec fn says(page: PageView, text: Seq<char>) -> bool {
    exists|i: int|
        0 <= i < page.draws.len() && (#[trigger] page.draws[i]) is Text && page.draws[i]->Text_0
            == text
}

/// The second page has everything that is on the first one, and maybe more.
pub open spec fn goes_on(before: PageView, after: PageView) -> bool {
    &&& before.draws.len() <= after.draws.len()
    &&& before.buttons.len() <= after.buttons.len()
    &&& forall|i: int| 0 <= i < before.draws.len() ==> after.draws[i] == #[trigger] before.draws[i]
    &&& forall|i: int|
        0 <= i < before.buttons.len() ==> after.buttons[i] == #[trigger] before.buttons[i]
}

/// What stands on a page stays there when the page goes on.
pub proof fn lemma_goes_on(before: PageView, after: PageView)
    requires
        goes_on(before, after),
    ensures
        forall|action: ActionView| #[trigger] offers(before, action) ==> offers(after, action),
        forall|text: Seq<char>| #[trigger] says(before, text) ==> says(after, text),
{
    assert forall|action: ActionView| #[trigger] offers(before, action) implies offers(
        after,
        action,
    ) by {
        let i = choose|i: int|
            0 <= i < before.buttons.len() && (#[trigger] before.buttons[i]).action == action;
        assert(after.buttons[i].action == action);
    }
    assert forall|text: Seq<char>| #[trigger] says(before, text) implies says(after, text) by {
        let i = choose|i: int|
            0 <= i < before.draws.len() && (#[trigger] before.draws[i]) is Text
                && before.draws[i]->Text_0 == text;
        assert(after.draws[i] is Text && after.draws[i]->Text_0 == text);
    }
}

/// A button that lies on the page can be touched there, and nowhere beside it.
pub proof fn buttons_on_the_page_are_touched_on_it(
    button: ButtonView,
    width: int,
    height: int,
    x: int,
    y: int,
)
    requires
        button.lies_on(width, height),
    ensures
        button.covers(button.x, button.y),
        button.covers(x, y) ==> 0 <= x < width && 0 <= y < height,
{
}

} // verus!
