//! The pages with wallpapers: the browser and the lock page. And the page that
//! greets a new user.
use vstd::prelude::*;
use crate::home::settings::{HomeSettings, WallpaperFit, WallpaperOption};
use crate::home::settings::{option_views, selected_index, OptionView};
use crate::home::view::{
    divide, half, Action, Button, Draw, Page, Place, Screen, BLACK, DARK_GRAY, GRAY, WHITE,
};
use crate::home::view::{
    half_of, quotient, ActionView, ButtonView, DrawView, PageView, PlaceView,
};
use crate::home::view::{goes_on, lemma_goes_on, offers, says};
use crate::path::FilePath;
use crate::text::{decimal_text, text_eq};
use crate::text::decimal;

verus! {

/// How many wallpapers are shown at a time.
pub const WALLPAPERS_PER_PAGE: usize = 8;

/// How many columns of wallpapers fit.
pub open spec fn browser_columns(width: int) -> int {
    if width >= 1_300 {
        4
    } else {
        2
    }
}

/// How wide a card is.
pub open spec fn card_width(width: int) -> int {
    let columns = browser_columns(width);
    quotient(width - 38 * 2 - 24 * (columns - 1), columns)
}

/// How high a card is.
pub open spec fn card_height(width: int, height: int) -> int {
    let rows = WALLPAPERS_PER_PAGE as int / browser_columns(width);
    quotient(height - 174 - 190 - 24 * (rows - 1), rows)
}

/// Where the card of a slot lies.
pub open spec fn card_origin(screen: Screen, slot: int) -> (int, int) {
    let columns = browser_columns(screen.width as int);
    (
        38 + (slot % columns) * (card_width(screen.width as int) + 24),
        174 + (slot / columns) * (card_height(screen.width as int, screen.height as int) + 24),
    )
}

/// The places of the cards.
#[derive(Clone, Copy, Debug, PartialEq, Eq, Structural)]
pub struct BrowserGrid {
    pub columns: i32,
    pub card_width: i32,
    pub card_height: i32,
}

impl BrowserGrid {
    /// The grid of a screen.
    pub open spec fn of(self, screen: Screen) -> bool {
        &&& screen.usable()
        &&& self.columns == browser_columns(screen.width as int)
        &&& self.card_width == card_width(screen.width as int)
        &&& self.card_height == card_height(screen.width as int, screen.height as int)
        &&& -1000 <= self.card_width <= 0x0100_0000
        &&& -1000 <= self.card_height <= 0x0100_0000
    }

    /// The grid of a screen.
    pub fn new(screen: Screen) -> (r: BrowserGrid)
        requires
            screen.usable(),
        ensures
            r.of(screen),
    {
        if screen.width >= 1_300 {
            BrowserGrid {
                columns: 4,
                card_width: divide(screen.width - 76 - 72, 4),
                card_height: divide(screen.height - 174 - 190 - 24, 2),
            }
        } else {
            BrowserGrid {
                columns: 2,
                card_width: divide(screen.width - 76 - 24, 2),
                card_height: divide(screen.height - 174 - 190 - 72, 4),
            }
        }
    }

    /// Where the card of a slot lies.
    pub fn origin(self, screen: Screen, slot: usize) -> (r: (i32, i32))
        requires
            self.of(screen),
            slot < WALLPAPERS_PER_PAGE,
        ensures
            (r.0 as int, r.1 as int) == card_origin(screen, slot as int),
            -0x1000_0000 <= r.0 <= 0x1000_0000,
            -0x1000_0000 <= r.1 <= 0x1000_0000,
    {
        let column: i32 = (slot as i32) % self.columns;
        let row: i32 = (slot as i32) / self.columns;
        assert(-4000 <= column * (self.card_width + 24) <= 4 * 0x0100_0018) by (nonlinear_arith)
            requires
                0 <= column <= 3,
                -1000 <= self.card_width <= 0x0100_0000,
        ;
        assert(-4000 <= row * (self.card_height + 24) <= 4 * 0x0100_0018) by (nonlinear_arith)
            requires
                0 <= row <= 3,
                -1000 <= self.card_height <= 0x0100_0000,
        ;
        (38 + column * (self.card_width + 24), 174 + row * (self.card_height + 24))
    }
}

/// How many pages of wallpapers there are.
pub open spec fn page_count(wallpapers: int) -> int {
    if wallpapers == 0 {
        1
    } else {
        (wallpapers + 7) / 8
    }
}

/// The page that is shown where one is asked for.
pub open spec fn shown_page(wallpapers: int, wanted: int) -> int {
    let last = page_count(wallpapers) - 1;
    if wanted < last {
        wanted
    } else {
        last
    }
}

/// How many pages of wallpapers there are.
pub fn pages_of(wallpapers: usize) -> (r: usize)
    ensures
        r == page_count(wallpapers as int),
        r >= 1,
{
    if wallpapers == 0 {
        1
    } else {
        (wallpapers - 1) / 8 + 1
    }
}

/// The page with a small button.
pub open spec fn browser_button(
    page: PageView,
    label: Seq<char>,
    x: int,
    y: int,
    width: int,
    action: ActionView,
) -> PageView {
    page.labelled(
        label,
        27,
        PlaceView::Around(x, width),
        y + 47,
        ButtonView { x, y, width, height: 72, action },
    )
}

/// Adds a small button.
fn add_browser_button(page: &mut Page, label: &str, x: i32, y: i32, width: i32, action: Action)
    requires
        -0x1000_0000 <= y <= 0x1000_0000,
    ensures
        final(page)@ == browser_button(
            old(page)@,
            label@,
            x as int,
            y as int,
            width as int,
            action@,
        ),
{
    page.labelled(
        label,
        27,
        Place::Around { x, width },
        y + 47,
        Button { x, y, width, height: 72, action },
    );
}

/// The page with the head of the browser.
pub open spec fn browser_header(page: PageView, width: int, fit: WallpaperFit, shown: int, pages: int) -> PageView {
    browser_button(
        page.text("壁纸"@, 54, PlaceView::At(48), 82, BLACK).text(
            "点击图片选择 · "@ + fit.name() + " · "@ + decimal((shown + 1) as nat) + "/"@
                + decimal(pages as nat),
            25,
            PlaceView::At(50),
            128,
            DARK_GRAY,
        ),
        "返回"@,
        width - 190,
        38,
        152,
        ActionView::BackSettings,
    )
}

/// The page with the card of a wallpaper.
pub open spec fn browser_card(
    page: PageView,
    screen: Screen,
    slot: int,
    option: OptionView,
    selected: Seq<char>,
) -> PageView {
    let (x, y) = card_origin(screen, slot);
    let w = card_width(screen.width as int);
    let h = card_height(screen.width as int, screen.height as int);
    let chosen = option.id == selected;
    page.rect(
        x,
        y,
        w,
        h,
        if chosen {
            BLACK
        } else {
            GRAY
        },
    ).draw(DrawView::Thumbnail(option.path, x + 5, y + 5, w - 10, h - 52 - 10)).text(
        if chosen {
            "✓ "@ + option.label
        } else {
            option.label
        },
        23,
        PlaceView::Middle,
        y + h - 17,
        if chosen {
            WHITE
        } else {
            BLACK
        },
    ).button(x, y, w, h, ActionView::SelectWallpaper(option.id))
}

/// The page with the cards of the first wallpapers of a page.
pub open spec fn browser_cards(
    page: PageView,
    screen: Screen,
    options: Seq<OptionView>,
    selected: Seq<char>,
    shown: int,
    count: int,
) -> PageView
    decreases count,
{
    if count <= 0 {
        page
    } else {
        browser_card(
            browser_cards(page, screen, options, selected, shown, count - 1),
            screen,
            count - 1,
            options[shown * 8 + count - 1],
            selected,
        )
    }
}

/// How many wallpapers a page holds.
pub open spec fn cards_on(wallpapers: int, shown: int) -> int {
    let left = wallpapers - shown * 8;
    if left > 8 {
        8
    } else if left < 0 {
        0
    } else {
        left
    }
}

/// The page with the foot of the browser.
pub open spec fn browser_footer(
    page: PageView,
    screen: Screen,
    fit: WallpaperFit,
    shown: int,
    pages: int,
) -> PageView {
    let y = screen.height - 154;
    let laid = browser_button(page, fit.name(), 38, y, 250, ActionView::ToggleWallpaperFit);
    let back = if shown > 0 {
        browser_button(laid, "上一页"@, screen.width - 370, y, 150, ActionView::WallpaperPage(-1))
    } else {
        laid
    };
    if shown + 1 < pages {
        browser_button(back, "下一页"@, screen.width - 200, y, 150, ActionView::WallpaperPage(1))
    } else {
        back
    }
}

/// The page with wallpapers.
pub open spec fn browser_page(
    screen: Screen,
    fit: WallpaperFit,
    selected: Seq<char>,
    options: Seq<OptionView>,
    wanted: int,
) -> PageView {
    let pages = page_count(options.len() as int);
    let shown = shown_page(options.len() as int, wanted);
    browser_footer(
        browser_cards(
            browser_header(PageView::blank(true), screen.width as int, fit, shown, pages),
            screen,
            options,
            selected,
            shown,
            cards_on(options.len() as int, shown),
        ),
        screen,
        fit,
        shown,
        pages,
    )
}

/// A copy of a path that may be missing.
pub fn copy_path(path: &Option<FilePath>) -> (r: Option<FilePath>)
    ensures
        crate::home::view::path_view(r) == crate::home::view::path_view(*path),
{
    match path {
        Some(path) => Some(path.clone()),
        None => None,
    }
}

/// Draws the card of a wallpaper.
fn render_browser_card(
    page: &mut Page,
    screen: Screen,
    grid: BrowserGrid,
    slot: usize,
    option: &WallpaperOption,
    selected: &str,
)
    requires
        grid.of(screen),
        slot < WALLPAPERS_PER_PAGE,
    ensures
        final(page)@ == browser_card(old(page)@, screen, slot as int, option@, selected@),
{
    let (x, y) = grid.origin(screen, slot);
    let w: i32 = grid.card_width;
    let h: i32 = grid.card_height;
    let chosen = text_eq(option.id.as_str(), selected);
    page.rect(
        x,
        y,
        w,
        h,
        if chosen {
            BLACK
        } else {
            GRAY
        },
    );
    page.draw(
        Draw::Thumbnail {
            path: copy_path(&option.path),
            x: x + 5,
            y: y + 5,
            width: w - 10,
            height: h - 52 - 10,
        },
    );
    let label = if chosen {
        let mut label = "✓ ".to_owned();
        label.append(option.label.as_str());
        label
    } else {
        option.label.clone()
    };
    page.text(
        label.as_str(),
        23,
        Place::Middle,
        y + h - 17,
        if chosen {
            WHITE
        } else {
            BLACK
        },
    );
    page.button(
        Button { x, y, width: w, height: h, action: Action::SelectWallpaper(option.id.clone()) },
    );
}

/// Draws the cards of a page.
fn render_browser_cards(
    page: &mut Page,
    screen: Screen,
    options: &[WallpaperOption],
    selected: &str,
    shown: usize,
)
    requires
        screen.usable(),
        shown == shown_page(options@.len() as int, shown as int),
    ensures
        final(page)@ == browser_cards(
            old(page)@,
            screen,
            option_views(options@),
            selected@,
            shown as int,
            cards_on(options@.len() as int, shown as int),
        ),
{
    let grid = BrowserGrid::new(screen);
    let total: usize = options.len();
    assert(shown * 8 <= total);
    let first: usize = shown * 8;
    let left: usize = total - first;
    let count: usize = if left > 8 {
        8
    } else {
        left
    };
    let mut slot: usize = 0;
    while slot < count
        invariant
            slot <= count <= 8,
            grid.of(screen),
            first == shown * 8,
            first + count <= options@.len(),
            page@ == browser_cards(
                old(page)@,
                screen,
                option_views(options@),
                selected@,
                shown as int,
                slot as int,
            ),
        decreases count - slot,
    {
        let place: usize = first + slot;
        assert(option_views(options@)[place as int] == options@[place as int]@);
        render_browser_card(page, screen, grid, slot, &options[place], selected);
        slot = slot + 1;
    }
}

/// The page with wallpapers, and which one it is.
pub fn render_wallpaper_browser(
    screen: Screen,
    settings: &HomeSettings,
    wallpapers: &[WallpaperOption],
    wanted: usize,
) -> (r: (Page, usize))
    requires
        screen.usable(),
    ensures
        r.0@ == browser_page(
            screen,
            settings.lock.fit,
            settings.lock.wallpaper@,
            option_views(wallpapers@),
            wanted as int,
        ),
        r.1 == shown_page(wallpapers@.len() as int, wanted as int),
{
    let pages = pages_of(wallpapers.len());
    let shown: usize = if wanted < pages - 1 {
        wanted
    } else {
        pages - 1
    };
    let fit = settings.lock.fit;
    let mut page = Page::blank(true);
    page.text("壁纸", 54, Place::At(48), 82, BLACK);
    let mut line = "点击图片选择 · ".to_owned();
    line.append(fit.label());
    line.append(" · ");
    line.append(decimal_text(shown as u64 + 1).as_str());
    line.append("/");
    line.append(decimal_text(pages as u64).as_str());
    page.text(line.as_str(), 25, Place::At(50), 128, DARK_GRAY);
    add_browser_button(&mut page, "返回", screen.width - 190, 38, 152, Action::BackSettings);
    render_browser_cards(
        &mut page,
        screen,
        wallpapers,
        settings.lock.wallpaper.as_str(),
        shown,
    );
    let y: i32 = screen.height - 154;
    add_browser_button(&mut page, fit.label(), 38, y, 250, Action::ToggleWallpaperFit);
    if shown > 0 {
        add_browser_button(
            &mut page,
            "上一页",
            screen.width - 370,
            y,
            150,
            Action::WallpaperPage(-1),
        );
    }
    if shown < pages - 1 {
        add_browser_button(
            &mut page,
            "下一页",
            screen.width - 200,
            y,
            150,
            Action::WallpaperPage(1),
        );
    }
    (page, shown)
}

/// The lock page, or a preview of it.
pub open spec fn lock_page(
    screen: Screen,
    fit: WallpaperFit,
    path: Option<Seq<char>>,
    preview: bool,
) -> PageView {
    let paper = PageView::blank(true).draw(
        DrawView::Wallpaper(path, fit == WallpaperFit::Cover),
    );
    if preview {
        let x = screen.width - 190;
        paper.text("锁屏预览"@, 28, PlaceView::At(42), 66, BLACK).rect(x, 38, 152, 72, GRAY).text(
            "返回"@,
            28,
            PlaceView::At(x + 48),
            84,
            BLACK,
        ).button(x, 38, 152, 72, ActionView::BackSettings)
    } else {
        paper
    }
}

/// The lock page, or a preview of it.
pub fn render_locked(
    screen: Screen,
    settings: &HomeSettings,
    wallpapers: &[WallpaperOption],
    preview: bool,
) -> (r: Page)
    requires
        screen.usable(),
        wallpapers@.len() > 0,
    ensures
        ({
            let options = option_views(wallpapers@);
            r@ == lock_page(
                screen,
                settings.lock.fit,
                options[selected_index(options, settings.lock.wallpaper@)].path,
                preview,
            )
        }),
{
    let wallpaper = settings.wallpaper(wallpapers);
    let mut page = Page::blank(true);
    page.draw(
        Draw::Wallpaper {
            path: copy_path(&wallpaper.path),
            cover: settings.lock.fit == WallpaperFit::Cover,
        },
    );
    if preview {
        page.text("锁屏预览", 28, Place::At(42), 66, BLACK);
        let x: i32 = screen.width - 190;
        page.rect(x, 38, 152, 72, GRAY);
        page.text("返回", 28, Place::At(x + 48), 84, BLACK);
        page.button(Button { x, y: 38, width: 152, height: 72, action: Action::BackSettings });
    }
    page
}

/// The page that greets a new user.
pub open spec fn welcome_page(screen: Screen, device_name: Seq<char>) -> PageView {
    let h = screen.height as int;
    let width = if screen.width - 96 < 900 {
        screen.width - 96
    } else {
        900
    };
    let x = half_of(screen.width - width);
    let store_y = h / 2 - 42;
    let system_y = store_y + 118 + 34;
    PageView::blank(false).text("ReMagic 已就绪"@, 58, PlaceView::Middle, h / 4, BLACK).text(
        device_name,
        27,
        PlaceView::Middle,
        h / 4 + 54,
        DARK_GRAY,
    ).text("原版系统与镇纸保持不变"@, 27, PlaceView::Middle, h / 4 + 112, DARK_GRAY).rect(
        x,
        store_y,
        width,
        118,
        BLACK,
    ).text("打开应用商店"@, 38, PlaceView::Middle, store_y + 75, WHITE).rect(
        x,
        system_y,
        width,
        118,
        GRAY,
    ).text("返回原版系统"@, 36, PlaceView::Middle, system_y + 74, BLACK).text(
        "以后可三按电源键再次进入 ReMagic"@,
        24,
        PlaceView::Middle,
        system_y + 118 + 72,
        DARK_GRAY,
    ).button(x, store_y, width, 118, ActionView::OpenStore).button(
        x,
        system_y,
        width,
        118,
        ActionView::System,
    )
}

/// The page that greets a new user.
pub fn render_welcome(screen: Screen, device_name: &str) -> (r: Page)
    requires
        screen.usable(),
    ensures
        r@ == welcome_page(screen, device_name@),
{
    let h: i32 = screen.height;
    let mut page = Page::blank(false);
    page.text("ReMagic 已就绪", 58, Place::Middle, h / 4, BLACK);
    page.text(device_name, 27, Place::Middle, h / 4 + 54, DARK_GRAY);
    page.text("原版系统与镇纸保持不变", 27, Place::Middle, h / 4 + 112, DARK_GRAY);
    let width: i32 = if screen.width - 96 < 900 {
        screen.width - 96
    } else {
        900
    };
    let x: i32 = half(screen.width - width);
    let store_y: i32 = h / 2 - 42;
    page.rect(x, store_y, width, 118, BLACK);
    page.text("打开应用商店", 38, Place::Middle, store_y + 75, WHITE);
    let system_y: i32 = store_y + 118 + 34;
    page.rect(x, system_y, width, 118, GRAY);
    page.text("返回原版系统", 36, Place::Middle, system_y + 74, BLACK);
    page.text(
        "以后可三按电源键再次进入 ReMagic",
        24,
        Place::Middle,
        system_y + 118 + 72,
        DARK_GRAY,
    );
    page.button(Button { x, y: store_y, width, height: 118, action: Action::OpenStore });
    page.button(Button { x, y: system_y, width, height: 118, action: Action::System });
    page
}

/// The page that is shown is one that there is, whichever is asked for.
pub proof fn shown_pages_exist(wallpapers: int, wanted: int)
    requires
        wallpapers >= 0,
        wanted >= 0,
    ensures
        0 <= shown_page(wallpapers, wanted) < page_count(wallpapers),
        wallpapers > 0 ==> 0 < cards_on(wallpapers, shown_page(wallpapers, wanted)) <= 8,
{
}

/// A locked page has no buttons: a finger does nothing on it.
pub proof fn locked_pages_ignore_fingers(screen: Screen, fit: WallpaperFit, path: Option<Seq<char>>)
    ensures
        lock_page(screen, fit, path, false).buttons.len() == 0,
{
}

/// Both buttons of the greeting lie on a screen that is large enough, and they
/// have no point in common.
pub proof fn welcome_buttons_are_apart(screen: Screen, device_name: Seq<char>)
    requires
        screen.width >= 97,
        screen.height >= 455,
    ensures
        ({
            let buttons = welcome_page(screen, device_name).buttons;
            &&& buttons.len() == 2
            &&& buttons[0].lies_on(screen.width as int, screen.height as int)
            &&& buttons[1].lies_on(screen.width as int, screen.height as int)
            &&& buttons[0].apart_from(buttons[1])
        }),
{
}

/// There are as many pages as the wallpapers need, eight on each, and at least one.
pub proof fn pages_hold_eight_wallpapers(wallpapers: int)
    requires
        wallpapers >= 0,
    ensures
        page_count(wallpapers) >= 1,
        wallpapers <= 8 * page_count(wallpapers),
        wallpapers > 0 ==> 8 * (page_count(wallpapers) - 1) < wallpapers,
{
}

/// Each wallpaper stands on one page, in its turn: the page with the number of full pages before
/// it. A page that does not exist is taken for the last one.
pub proof fn every_wallpaper_has_its_page(wallpapers: int, i: int, wanted: int)
    requires
        0 <= i < wallpapers,
        0 <= wanted,
    ensures
        shown_page(wallpapers, i / 8) == i / 8,
        i % 8 < cards_on(wallpapers, i / 8),
        wanted < page_count(wallpapers) ==> shown_page(wallpapers, wanted) == wanted,
        wanted >= page_count(wallpapers) ==> shown_page(wallpapers, wanted) == page_count(wallpapers)
            - 1,
{
}

/// The page shows a wallpaper's label, marked where it is the chosen one, and lets it be chosen.
pub open spec fn shows_option(page: PageView, option: OptionView, selected: Seq<char>) -> bool {
    &&& offers(page, ActionView::SelectWallpaper(option.id))
    &&& option.id == selected ==> says(page, "✓ "@ + option.label)
    &&& option.id != selected ==> says(page, option.label)
}

proof fn lemma_card(
    page: PageView,
    screen: Screen,
    slot: int,
    option: OptionView,
    selected: Seq<char>,
)
    ensures
        goes_on(page, browser_card(page, screen, slot, option, selected)),
        shows_option(browser_card(page, screen, slot, option, selected), option, selected),
        browser_card(page, screen, slot, option, selected).buttons.len() == page.buttons.len() + 1,
        browser_card(page, screen, slot, option, selected).buttons.last().action
            is SelectWallpaper,
{
    let after = browser_card(page, screen, slot, option, selected);
    let n = page.draws.len() as int;
    assert(after.draws[n + 2] is Text);
    assert(after.buttons[page.buttons.len() as int].action == ActionView::SelectWallpaper(
        option.id,
    ));
}

proof fn lemma_cards(
    page: PageView,
    screen: Screen,
    options: Seq<OptionView>,
    selected: Seq<char>,
    shown: int,
    count: int,
)
    requires
        0 <= count,
    ensures
        ({
            let after = browser_cards(page, screen, options, selected, shown, count);
            &&& goes_on(page, after)
            &&& forall|k: int|
                0 <= k < count ==> #[trigger] shows_option(
                    after,
                    options[shown * 8 + k],
                    selected,
                )
            &&& forall|i: int|
                page.buttons.len() <= i < after.buttons.len() ==> (
                #[trigger] after.buttons[i]).action is SelectWallpaper
        }),
    decreases count,
{
    if count > 0 {
        let before = browser_cards(page, screen, options, selected, shown, count - 1);
        let after = browser_cards(page, screen, options, selected, shown, count);
        lemma_cards(page, screen, options, selected, shown, count - 1);
        lemma_card(before, screen, count - 1, options[shown * 8 + count - 1], selected);
        lemma_goes_on(before, after);
        assert forall|k: int| 0 <= k < count implies #[trigger] shows_option(
            after,
            options[shown * 8 + k],
            selected,
        ) by {
            if k < count - 1 {
                assert(shows_option(before, options[shown * 8 + k], selected));
            }
        }
        assert(goes_on(page, after)) by {
            assert forall|i: int| 0 <= i < page.draws.len() implies after.draws[i]
                == #[trigger] page.draws[i] by {
                assert(before.draws[i] == page.draws[i]);
            }
            assert forall|i: int| 0 <= i < page.buttons.len() implies after.buttons[i]
                == #[trigger] page.buttons[i] by {
                assert(before.buttons[i] == page.buttons[i]);
            }
        }
        assert forall|i: int| page.buttons.len() <= i < after.buttons.len() implies (
        #[trigger] after.buttons[i]).action is SelectWallpaper by {
            if i < before.buttons.len() {
                assert(after.buttons[i] == before.buttons[i]);
            }
        }
    }
}

/// The page of a wallpaper shows its label, marked where it is the chosen one, and lets it be
/// chosen.
pub proof fn wallpapers_can_be_chosen_on_their_page(
    screen: Screen,
    fit: WallpaperFit,
    selected: Seq<char>,
    options: Seq<OptionView>,
    i: int,
)
    requires
        0 <= i < options.len(),
    ensures
        ({
            let page = browser_page(screen, fit, selected, options, i / 8);
            &&& offers(page, ActionView::SelectWallpaper(options[i].id))
            &&& options[i].id == selected ==> says(page, "✓ "@ + options[i].label)
            &&& options[i].id != selected ==> says(page, options[i].label)
        }),
{
    let n = options.len() as int;
    let shown = i / 8;
    let k = i % 8;
    every_wallpaper_has_its_page(n, i, 0);
    let pages = page_count(n);
    let head = browser_header(PageView::blank(true), screen.width as int, fit, shown, pages);
    let cards = browser_cards(head, screen, options, selected, shown, cards_on(n, shown));
    let page = browser_page(screen, fit, selected, options, shown);
    lemma_cards(head, screen, options, selected, shown, cards_on(n, shown));
    assert(shown * 8 + k == i);
    assert(shows_option(cards, options[shown * 8 + k], selected));
    assert(goes_on(cards, page));
    lemma_goes_on(cards, page);
}

/// The browser leads back, switches the layout, and turns to the page before and the page after
/// exactly where there is one.
pub proof fn the_browser_turns_to_its_neighbours(
    screen: Screen,
    fit: WallpaperFit,
    selected: Seq<char>,
    options: Seq<OptionView>,
    wanted: int,
)
    requires
        0 <= wanted < page_count(options.len() as int),
    ensures
        ({
            let page = browser_page(screen, fit, selected, options, wanted);
            &&& offers(page, ActionView::BackSettings)
            &&& offers(page, ActionView::ToggleWallpaperFit)
            &&& says(page, fit.name())
            &&& offers(page, ActionView::WallpaperPage(-1)) <==> wanted > 0
            &&& offers(page, ActionView::WallpaperPage(1)) <==> wanted + 1 < page_count(
                options.len() as int,
            )
        }),
{
    let n = options.len() as int;
    let pages = page_count(n);
    let shown = shown_page(n, wanted);
    assert(shown == wanted);
    let head = browser_header(PageView::blank(true), screen.width as int, fit, shown, pages);
    let count = cards_on(n, shown);
    let cards = browser_cards(head, screen, options, selected, shown, count);
    let page = browser_page(screen, fit, selected, options, wanted);
    lemma_cards(head, screen, options, selected, shown, count);
    assert(goes_on(cards, page));
    let m = cards.buttons.len() as int;
    let d = cards.draws.len() as int;
    assert(head.buttons.len() == 1 && head.buttons[0].action == ActionView::BackSettings);
    assert(page.buttons[0] == cards.buttons[0]);
    assert(cards.buttons[0] == head.buttons[0]);
    assert(page.buttons[m].action == ActionView::ToggleWallpaperFit);
    assert(page.draws[d + 1] is Text && page.draws[d + 1]->Text_0 == fit.name());
    if wanted > 0 {
        assert(page.buttons[m + 1].action == ActionView::WallpaperPage(-1));
        if wanted + 1 < pages {
            assert(page.buttons[m + 2].action == ActionView::WallpaperPage(1));
        }
    } else if wanted + 1 < pages {
        assert(page.buttons[m + 1].action == ActionView::WallpaperPage(1));
    }
    assert forall|i: int| 0 <= i < m implies !((#[trigger] page.buttons[i]).action
        is WallpaperPage) by {
        assert(page.buttons[i] == cards.buttons[i]);
        if i == 0 {
            assert(cards.buttons[0] == head.buttons[0]);
        }
    }
}

/// The cards of a page do not overlap: they stand side by side in rows, one row below the other.
pub proof fn cards_stand_apart(screen: Screen, i: int, j: int)
    requires
        0 <= i < j < 8,
        card_width(screen.width as int) >= 0,
        card_height(screen.width as int, screen.height as int) >= 0,
    ensures
        ({
            let (xi, yi) = card_origin(screen, i);
            let (xj, yj) = card_origin(screen, j);
            let w = card_width(screen.width as int);
            let h = card_height(screen.width as int, screen.height as int);
            &&& xi + w + 24 <= xj && yi == yj || yi + h + 24 <= yj
            &&& xi >= 38 && yi >= 174
        }),
{
    let columns = browser_columns(screen.width as int);
    let w = card_width(screen.width as int) + 24;
    let h = card_height(screen.width as int, screen.height as int) + 24;
    let (ri, rj) = (i / columns, j / columns);
    let (ci, cj) = (i % columns, j % columns);
    assert(0 <= ri <= rj && 0 <= ci && 0 <= cj);
    assert(ri == rj ==> ci < cj);
    assert((rj - ri) * h == rj * h - ri * h) by (nonlinear_arith);
    assert((cj - ci) * w == cj * w - ci * w) by (nonlinear_arith);
    assert(0 <= ri * h && 0 <= ci * w) by (nonlinear_arith)
        requires
            0 <= ri,
            0 <= ci,
            0 <= w,
            0 <= h,
    ;
    if ri == rj {
        assert((cj - ci) * w >= w) by (nonlinear_arith)
            requires
                cj - ci >= 1,
                0 <= w,
        ;
    } else {
        assert((rj - ri) * h >= h) by (nonlinear_arith)
            requires
                rj - ri >= 1,
                0 <= h,
        ;
    }
}

/// The lock shows the chosen wallpaper, laid out as chosen; its preview leads back.
pub proof fn the_lock_shows_the_wallpaper(
    screen: Screen,
    fit: WallpaperFit,
    path: Option<Seq<char>>,
    preview: bool,
)
    ensures
        ({
            let page = lock_page(screen, fit, path, preview);
            &&& page.draws[1] == DrawView::Wallpaper(path, fit == WallpaperFit::Cover)
            &&& !preview ==> page.draws.len() == 2
            &&& offers(page, ActionView::BackSettings) <==> preview
        }),
{
    let page = lock_page(screen, fit, path, preview);
    if preview {
        assert(page.buttons[0].action == ActionView::BackSettings);
    }
}

/// A new user is greeted with the name of the device, and can go to the store or to the system.
pub proof fn the_welcome_page_offers_two_ways(screen: Screen, device_name: Seq<char>)
    ensures
        says(welcome_page(screen, device_name), device_name),
        offers(welcome_page(screen, device_name), ActionView::OpenStore),
        offers(welcome_page(screen, device_name), ActionView::System),
{
    let page = welcome_page(screen, device_name);
    assert(page.draws[2] is Text && page.draws[2]->Text_0 == device_name);
    assert(page.buttons[0].action == ActionView::OpenStore);
    assert(page.buttons[1].action == ActionView::System);
}

} // verus!
