//! The page with the applications and what they are doing.
use vstd::prelude::*;
use crate::home::view::{
    half, is_alive, place_tile, Action, AppView, Button, Page, Place, Screen, BLACK, DARK_GRAY,
    LIGHT_GRAY, WHITE,
};
use crate::home::view::{columns_of, half_of, tile_place, ActionView, ButtonView, PageView, PlaceView};
use crate::home::view::{goes_on, lemma_goes_on, offers, says, tiles_stand_side_by_side};
use crate::text::{char_is_alnum, char_is_lower, chars_of, text_eq};
use crate::text::{is_alnum, is_lower};

verus! {

/// The size of a tile.
pub const TILE: i32 = 224;

/// The distance between tiles.
pub const GAP: i32 = 24;

/// Where the tiles begin.
pub const TILES_TOP: i32 = 178;

/// How many applications are shown at most.
pub const MAX_APPS: usize = 12;

/// The capital of a letter.
pub open spec fn capital(c: char) -> char {
    if is_lower(c) {
        (c as int - 32) as char
    } else {
        c
    }
}

/// The capital of a letter.
pub fn to_capital(c: char) -> (r: char)
    ensures
        r == capital(c),
{
    if char_is_lower(c) {
        let code: u8 = c as u8;
        (code - 32) as char
    } else {
        c
    }
}

/// The first letter or digit of a text as a capital, or a question mark.
pub open spec fn initial(s: Seq<char>) -> Seq<char>
    decreases s.len(),
{
    if s.len() == 0 {
        "?"@
    } else if is_alnum(s[0]) {
        seq![capital(s[0])]
    } else {
        initial(s.drop_first())
    }
}

/// The sign of an application.
pub open spec fn icon_of(app_id: Seq<char>) -> Seq<char> {
    if app_id == "magicpaper"@ {
        "M"@
    } else if app_id == "koreader"@ {
        "K"@
    } else if app_id == "upload"@ || app_id == "remagic-upload"@ {
        "U"@
    } else {
        initial(app_id)
    }
}

/// The sign of an application.
pub fn icon_text(app_id: &str) -> (r: String)
    ensures
        r@ == icon_of(app_id@),
{
    if text_eq(app_id, "magicpaper") {
        return "M".to_owned();
    }
    if text_eq(app_id, "koreader") {
        return "K".to_owned();
    }
    if text_eq(app_id, "upload") || text_eq(app_id, "remagic-upload") {
        return "U".to_owned();
    }
    let x = chars_of(app_id);
    let mut i: usize = 0;
    assert(app_id@.skip(0) =~= app_id@);
    while i < x.len()
        invariant
            i <= x@.len(),
            x@ == app_id@,
            icon_of(app_id@) == initial(app_id@),
            initial(app_id@.skip(i as int)) == initial(app_id@),
        decreases x@.len() - i,
    {
        assert(app_id@.skip(i as int)[0] == app_id@[i as int]);
        assert(app_id@.skip(i as int).drop_first() =~= app_id@.skip(i + 1));
        if char_is_alnum(x[i]) {
            let mut sign = String::new();
            sign.push(to_capital(x[i]));
            assert(sign@ =~= seq![capital(app_id@[i as int])]);
            return sign;
        }
        i = i + 1;
    }
    "?".to_owned()
}

/// What an application is doing, in words. Whether a result of a scheduled
/// task waits for a reader is known from elsewhere.
pub open spec fn status_text(app: AppView, result_waits: bool) -> Seq<char> {
    if app.id@ == "magicpaper"@ && result_waits {
        "有新的定时任务结果"@
    } else if app.session is Some {
        if app.session->0@.len() == 0 {
            "已暂停，可继续"@
        } else {
            app.session->0@
        }
    } else if app.installed && app.background_active {
        "已安装 · 后台服务运行中"@
    } else if app.installed {
        "已安装"@
    } else {
        "未安装"@
    }
}

/// What an application is doing, in words.
pub fn app_status(app: &AppView, result_waits: bool) -> (r: String)
    ensures
        r@ == status_text(*app, result_waits),
{
    if text_eq(app.id.as_str(), "magicpaper") && result_waits {
        return "有新的定时任务结果".to_owned();
    }
    match &app.session {
        Some(subtitle) => if subtitle.as_str().is_empty() {
            "已暂停，可继续".to_owned()
        } else {
            subtitle.clone()
        },
        None => if app.installed && app.background_active {
            "已安装 · 后台服务运行中".to_owned()
        } else if app.installed {
            "已安装".to_owned()
        } else {
            "未安装".to_owned()
        },
    }
}

/// What the tile of an application does.
pub open spec fn tile_action(app: AppView) -> ActionView {
    if app.installed {
        ActionView::Launch(app.id@)
    } else {
        ActionView::Unavailable
    }
}

/// What the tile of an application does.
pub fn app_action(app: &AppView) -> (r: Action)
    ensures
        r@ == tile_action(*app),
{
    if app.installed {
        Action::Launch(app.id.clone())
    } else {
        Action::Unavailable
    }
}

/// The page with a tile: its card, its sign, its title and its status.
pub open spec fn tile_card(
    page: PageView,
    x: int,
    y: int,
    icon: Seq<char>,
    icon_size: u32,
    title: Seq<char>,
    status: Seq<char>,
) -> PageView {
    let icon_x = x + half_of(TILE - 94);
    page.card(x, y, TILE as int, TILE as int).rect(icon_x, y + 24, 94, 94, BLACK).text(
        icon,
        icon_size,
        PlaceView::Within(icon_x, 94),
        y + 84,
        WHITE,
    ).cut_text(title, 26, PlaceView::Within(x, TILE as int), y + 152, BLACK, TILE - 28).cut_text(
        status,
        18,
        PlaceView::Within(x, TILE as int),
        y + 186,
        DARK_GRAY,
        TILE - 24,
    )
}

/// The button that closes an application.
pub open spec fn close_button(x: int, y: int, app_id: Seq<char>) -> ButtonView {
    ButtonView { x: x + 150, y: y + 18, width: 54, height: 42, action: ActionView::Close(app_id) }
}

/// The page with the tile of an application: its card, a button to close it
/// where it lives, and a button to open it.
pub open spec fn app_tile(page: PageView, app: AppView, x: int, y: int, result_waits: bool) -> PageView {
    let card = tile_card(page, x, y, icon_of(app.id@), 43, app.name@, status_text(app, result_waits));
    let close = close_button(x, y, app.id@);
    let closable = if app.session is Some || app.background_active {
        card.rect(close.x, close.y, close.width, close.height, LIGHT_GRAY).text(
            "关"@,
            22,
            PlaceView::Within(close.x, close.width),
            close.y + 29,
            BLACK,
        ).button(close.x, close.y, close.width, close.height, close.action)
    } else {
        card
    };
    closable.button(x, y, TILE as int, TILE as int, tile_action(app))
}

/// The page with the tiles of applications from one of a grid's places on. The
/// store itself is not one of them, and what does not fit is not shown.
pub open spec fn app_tiles(
    page: PageView,
    screen: Screen,
    apps: Seq<AppView>,
    index: int,
    result_waits: bool,
) -> PageView
    decreases apps.len(),
{
    if apps.len() == 0 || index > MAX_APPS {
        page
    } else if apps[0].id@ == "remagic-store"@ {
        app_tiles(page, screen, apps.drop_first(), index, result_waits)
    } else {
        let (x, y) = tile_place(
            screen.width as int,
            TILE as int,
            GAP as int,
            TILES_TOP as int,
            index,
        );
        if y + TILE > screen.height - 180 {
            page
        } else {
            app_tiles(
                app_tile(page, apps[0], x, y, result_waits),
                screen,
                apps.drop_first(),
                index + 1,
                result_waits,
            )
        }
    }
}

/// The head of the page: its title and two buttons.
pub open spec fn header(page: PageView, width: int) -> PageView {
    let settings_x = width - 48 - 142;
    let sleep_x = settings_x - 18 - 142;
    page.text("应用与任务"@, 54, PlaceView::At(48), 82, BLACK).text(
        "单按返回上一应用 · 三按返回原版系统"@,
        25,
        PlaceView::At(50),
        128,
        DARK_GRAY,
    ).labelled(
        "休眠"@,
        28,
        PlaceView::Within(sleep_x, 142),
        85,
        ButtonView { x: sleep_x, y: 38, width: 142, height: 72, action: ActionView::Sleep },
    ).labelled(
        "设置"@,
        28,
        PlaceView::Within(settings_x, 142),
        85,
        ButtonView { x: settings_x, y: 38, width: 142, height: 72, action: ActionView::OpenSettings },
    )
}

/// The page with the tile of the store, which is the first one.
pub open spec fn store_tile(page: PageView, width: int) -> PageView {
    let (x, y) = tile_place(width, TILE as int, GAP as int, TILES_TOP as int, 0);
    tile_card(page, x, y, "店"@, 38, "应用商店"@, "安装和管理应用"@).button(
        x,
        y,
        TILE as int,
        TILE as int,
        ActionView::OpenStore,
    )
}

/// The page with the applications.
pub open spec fn manager_page(screen: Screen, apps: Seq<AppView>, result_waits: bool) -> PageView {
    app_tiles(
        store_tile(header(PageView::blank(false), screen.width as int), screen.width as int),
        screen,
        apps,
        1,
        result_waits,
    )
}

/// Draws the head of the page.
fn render_header(page: &mut Page, width: i32)
    requires
        0 <= width <= 0x0100_0000,
    ensures
        final(page)@ == header(old(page)@, width as int),
{
    page.text("应用与任务", 54, Place::At(48), 82, BLACK);
    page.text("单按返回上一应用 · 三按返回原版系统", 25, Place::At(50), 128, DARK_GRAY);
    let settings_x: i32 = width - 48 - 142;
    let sleep_x: i32 = settings_x - 18 - 142;
    page.labelled(
        "休眠",
        28,
        Place::Within { x: sleep_x, width: 142 },
        85,
        Button { x: sleep_x, y: 38, width: 142, height: 72, action: Action::Sleep },
    );
    page.labelled(
        "设置",
        28,
        Place::Within { x: settings_x, width: 142 },
        85,
        Button { x: settings_x, y: 38, width: 142, height: 72, action: Action::OpenSettings },
    );
}

/// Draws the card of a tile.
fn render_card(
    page: &mut Page,
    x: i32,
    y: i32,
    icon: &str,
    icon_size: u32,
    title: &str,
    status: &str,
)
    requires
        -0x0100_0000 <= x <= 0x0100_0000,
        0 <= y <= 0x0100_0000,
    ensures
        final(page)@ == tile_card(
            old(page)@,
            x as int,
            y as int,
            icon@,
            icon_size,
            title@,
            status@,
        ),
{
    page.card(x, y, TILE, TILE);
    let icon_x: i32 = x + half(TILE - 94);
    page.rect(icon_x, y + 24, 94, 94, BLACK);
    page.text(icon, icon_size, Place::Within { x: icon_x, width: 94 }, y + 84, WHITE);
    page.cut_text(title, 26, Place::Within { x, width: TILE }, y + 152, BLACK, TILE - 28);
    page.cut_text(status, 18, Place::Within { x, width: TILE }, y + 186, DARK_GRAY, TILE - 24);
}

/// Draws the tile of an application.
fn render_app_tile(page: &mut Page, app: &AppView, x: i32, y: i32, result_waits: bool)
    requires
        -0x0100_0000 <= x <= 0x0100_0000,
        0 <= y <= 0x0100_0000,
    ensures
        final(page)@ == app_tile(old(page)@, *app, x as int, y as int, result_waits),
{
    let icon = icon_text(app.id.as_str());
    let status = app_status(app, result_waits);
    render_card(page, x, y, icon.as_str(), 43, app.name.as_str(), status.as_str());
    if is_alive(app) {
        page.rect(x + 150, y + 18, 54, 42, LIGHT_GRAY);
        page.text("关", 22, Place::Within { x: x + 150, width: 54 }, y + 18 + 29, BLACK);
        page.button(
            Button {
                x: x + 150,
                y: y + 18,
                width: 54,
                height: 42,
                action: Action::Close(app.id.clone()),
            },
        );
    }
    page.button(Button { x, y, width: TILE, height: TILE, action: app_action(app) });
}

/// Draws the tiles of the applications.
fn render_app_cards(page: &mut Page, screen: Screen, apps: &[AppView], result_waits: bool)
    requires
        screen.usable(),
    ensures
        final(page)@ == app_tiles(
            store_tile(old(page)@, screen.width as int),
            screen,
            apps@,
            1,
            result_waits,
        ),
{
    match place_tile(screen.width, TILE, GAP, TILES_TOP, 0, 0x0100_0000) {
        Some((x, y)) => {
            render_card(page, x, y, "店", 38, "应用商店", "安装和管理应用");
            page.button(Button { x, y, width: TILE, height: TILE, action: Action::OpenStore });
        },
        None => {
            proof {
                assert(0int / columns_of(
                    screen.width as int,
                    TILE as int,
                    GAP as int,
                ) == 0) by (nonlinear_arith)
                    requires
                        columns_of(
                            screen.width as int,
                            TILE as int,
                            GAP as int,
                        ) >= 1,
                ;
            }
            assert(false);
        },
    }
    let ghost start = page@;
    let mut index: usize = 1;
    let mut i: usize = 0;
    assert(apps@.skip(0) =~= apps@);
    while i < apps.len() && index <= MAX_APPS
        invariant
            i <= apps@.len(),
            1 <= index <= MAX_APPS + 1,
            screen.usable(),
            start == store_tile(old(page)@, screen.width as int),
            app_tiles(page@, screen, apps@.skip(i as int), index as int, result_waits) == app_tiles(
                start,
                screen,
                apps@,
                1,
                result_waits,
            ),
        decreases apps@.len() - i,
    {
        let ghost rest = apps@.skip(i as int);
        assert(rest[0] == apps@[i as int]);
        assert(rest.drop_first() =~= apps@.skip(i + 1));
        if !text_eq(apps[i].id.as_str(), "remagic-store") {
            match place_tile(screen.width, TILE, GAP, TILES_TOP, index, screen.height - 180) {
                Some((x, y)) => {
                    render_app_tile(page, &apps[i], x, y, result_waits);
                    index = index + 1;
                },
                None => return,
            }
        }
        i = i + 1;
    }
}

/// The page with the applications.
pub fn render(screen: Screen, apps: &[AppView], result_waits: bool) -> (r: Page)
    requires
        screen.usable(),
    ensures
        r@ == manager_page(screen, apps@, result_waits),
{
    let mut page = Page::blank(false);
    render_header(&mut page, screen.width);
    render_app_cards(&mut page, screen, apps, result_waits);
    page
}

/// A finger on the button that closes an application does not open it: the
/// button comes before that of the tile on which it lies.
pub proof fn closing_comes_before_opening(
    page: PageView,
    app: AppView,
    x: int,
    y: int,
    result_waits: bool,
)
    requires
        app.session is Some || app.background_active,
    ensures
        ({
            let buttons = app_tile(page, app, x, y, result_waits).buttons;
            let n = page.buttons.len() as int;
            &&& buttons.len() == n + 2
            &&& buttons[n] == close_button(x, y, app.id@)
            &&& buttons[n + 1].action == tile_action(app)
            &&& forall|px: int, py: int|
                buttons[n].covers(px, py) ==> buttons[n + 1].covers(px, py)
        }),
{
}

/// The tiles that stand for applications of their own: all but that of the store.
pub open spec fn others(apps: Seq<AppView>) -> int
    decreases apps.len(),
{
    if apps.len() == 0 {
        0
    } else if apps[0].id@ == "remagic-store"@ {
        others(apps.drop_first())
    } else {
        1 + others(apps.drop_first())
    }
}

/// The page shows an application: its name, what there is to say of it, and what can be done with
/// it.
pub open spec fn shows_app(page: PageView, app: AppView, result_waits: bool) -> bool {
    &&& says(page, app.name@)
    &&& says(page, status_text(app, result_waits))
    &&& app.installed ==> offers(page, ActionView::Launch(app.id@))
    &&& app.session is Some || app.background_active ==> offers(page, ActionView::Close(app.id@))
}

proof fn lemma_others(apps: Seq<AppView>)
    ensures
        0 <= others(apps) <= apps.len(),
    decreases apps.len(),
{
    if apps.len() > 0 {
        lemma_others(apps.drop_first());
    }
}

proof fn lemma_tile_goes_on(page: PageView, app: AppView, x: int, y: int, result_waits: bool)
    ensures
        goes_on(page, app_tile(page, app, x, y, result_waits)),
        shows_app(app_tile(page, app, x, y, result_waits), app, result_waits),
        forall|i: int|
            page.buttons.len() <= i < app_tile(page, app, x, y, result_waits).buttons.len() ==> {
                let action = (#[trigger] app_tile(page, app, x, y, result_waits).buttons[i]).action;
                ||| action == tile_action(app)
                ||| action == ActionView::Close(app.id@) && (app.session is Some
                    || app.background_active)
            },
{
    let after = app_tile(page, app, x, y, result_waits);
    let n = page.draws.len() as int;
    let m = page.buttons.len() as int;
    assert(after.draws[n + 4] is Text && after.draws[n + 4]->Text_0 == app.name@);
    assert(after.draws[n + 5] is Text && after.draws[n + 5]->Text_0 == status_text(
        app,
        result_waits,
    ));
    if app.session is Some || app.background_active {
        assert(after.buttons[m].action == ActionView::Close(app.id@));
        assert(after.buttons[m + 1].action == tile_action(app));
    } else {
        assert(after.buttons[m].action == tile_action(app));
    }
}

proof fn lemma_tiles_go_on(
    page: PageView,
    screen: Screen,
    apps: Seq<AppView>,
    index: int,
    result_waits: bool,
)
    ensures
        goes_on(page, app_tiles(page, screen, apps, index, result_waits)),
        forall|i: int|
            page.buttons.len() <= i < app_tiles(
                page,
                screen,
                apps,
                index,
                result_waits,
            ).buttons.len() ==> exists|k: int|
                0 <= k < apps.len() && {
                    let app = #[trigger] apps[k];
                    let action = (#[trigger] app_tiles(
                        page,
                        screen,
                        apps,
                        index,
                        result_waits,
                    ).buttons[i]).action;
                    ||| action == tile_action(app)
                    ||| action == ActionView::Close(app.id@) && (app.session is Some
                        || app.background_active)
                },
    decreases apps.len(),
{
    let after = app_tiles(page, screen, apps, index, result_waits);
    if apps.len() > 0 && index <= MAX_APPS {
        let rest = apps.drop_first();
        let (x, y) = tile_place(
            screen.width as int,
            TILE as int,
            GAP as int,
            TILES_TOP as int,
            index,
        );
        if apps[0].id@ == "remagic-store"@ {
            lemma_tiles_go_on(page, screen, rest, index, result_waits);
            assert forall|i: int| page.buttons.len() <= i < after.buttons.len() implies exists|k: int|
                0 <= k < apps.len() && {
                    let app = #[trigger] apps[k];
                    let action = (#[trigger] after.buttons[i]).action;
                    ||| action == tile_action(app)
                    ||| action == ActionView::Close(app.id@) && (app.session is Some
                        || app.background_active)
                } by {
                let k = choose|k: int|
                    0 <= k < rest.len() && {
                        let app = #[trigger] rest[k];
                        let action = after.buttons[i].action;
                        ||| action == tile_action(app)
                        ||| action == ActionView::Close(app.id@) && (app.session is Some
                            || app.background_active)
                    };
                assert(apps[k + 1] == rest[k]);
            }
        } else if y + TILE <= screen.height - 180 {
            let next = app_tile(page, apps[0], x, y, result_waits);
            lemma_tile_goes_on(page, apps[0], x, y, result_waits);
            lemma_tiles_go_on(next, screen, rest, index + 1, result_waits);
            assert(goes_on(page, after)) by {
                assert forall|i: int| 0 <= i < page.draws.len() implies after.draws[i]
                    == #[trigger] page.draws[i] by {
                    assert(next.draws[i] == page.draws[i]);
                }
                assert forall|i: int| 0 <= i < page.buttons.len() implies after.buttons[i]
                    == #[trigger] page.buttons[i] by {
                    assert(next.buttons[i] == page.buttons[i]);
                }
            }
            assert forall|i: int| page.buttons.len() <= i < after.buttons.len() implies exists|k: int|
                0 <= k < apps.len() && {
                    let app = #[trigger] apps[k];
                    let action = (#[trigger] after.buttons[i]).action;
                    ||| action == tile_action(app)
                    ||| action == ActionView::Close(app.id@) && (app.session is Some
                        || app.background_active)
                } by {
                if i < next.buttons.len() {
                    assert(after.buttons[i] == next.buttons[i]);
                    let app = apps[0];
                } else {
                    let k = choose|k: int|
                        0 <= k < rest.len() && {
                            let app = #[trigger] rest[k];
                            let action = after.buttons[i].action;
                            ||| action == tile_action(app)
                            ||| action == ActionView::Close(app.id@) && (app.session is Some
                                || app.background_active)
                        };
                    assert(apps[k + 1] == rest[k]);
                }
            }
        }
    }
}

proof fn lemma_tile_shown(
    page: PageView,
    screen: Screen,
    apps: Seq<AppView>,
    index: int,
    k: int,
    result_waits: bool,
)
    requires
        0 <= k < apps.len(),
        0 <= index,
        apps[k].id@ != "remagic-store"@,
        index + others(apps.take(k)) <= 12,
        tile_place(
            screen.width as int,
            224,
            24,
            178,
            index + others(apps.take(k)),
        ).1 + 224 <= screen.height - 180,
    ensures
        shows_app(app_tiles(page, screen, apps, index, result_waits), apps[k], result_waits),
    decreases apps.len(),
{
    let after = app_tiles(page, screen, apps, index, result_waits);
    let rest = apps.drop_first();
    let target = index + others(apps.take(k));
    lemma_others(apps.take(k));
    if k > 0 {
        assert(apps.take(k).drop_first() =~= rest.take(k - 1));
        assert(apps.take(k)[0] == apps[0]);
        assert(rest[k - 1] == apps[k]);
    }
    if apps[0].id@ == "remagic-store"@ {
        lemma_tile_shown(page, screen, rest, index, k - 1, result_waits);
    } else {
        let (x, y) = tile_place(screen.width as int, 224, 24, 178, index);
        if index < target {
            tiles_stand_side_by_side(screen.width as int, 224, 24, 178, index, target);
        }
        let next = app_tile(page, apps[0], x, y, result_waits);
        lemma_tile_goes_on(page, apps[0], x, y, result_waits);
        if k == 0 {
            lemma_tiles_go_on(next, screen, rest, index + 1, result_waits);
            lemma_goes_on(next, after);
        } else {
            lemma_tile_shown(next, screen, rest, index + 1, k - 1, result_waits);
        }
    }
}

/// Every application that has room on the task page is shown there with its name and its status;
/// one that is installed can be launched, and one that runs can be closed. The store's own entry
/// does not count: it always has the first tile.
pub proof fn applications_are_shown_on_the_task_page(
    screen: Screen,
    apps: Seq<AppView>,
    k: int,
    result_waits: bool,
)
    requires
        0 <= k < apps.len(),
        apps[k].id@ != "remagic-store"@,
        1 + others(apps.take(k)) <= 12,
        tile_place(
            screen.width as int,
            224,
            24,
            178,
            1 + others(apps.take(k)),
        ).1 + 224 <= screen.height - 180,
    ensures
        shows_app(manager_page(screen, apps, result_waits), apps[k], result_waits),
{
    lemma_tile_shown(
        store_tile(header(PageView::blank(false), screen.width as int), screen.width as int),
        screen,
        apps,
        1,
        k,
        result_waits,
    );
}

/// The task page always leads to sleep, to the settings and to the store; beyond that it offers to
/// launch only what is installed, and to close only what runs.
pub proof fn the_task_page_offers_nothing_else(
    screen: Screen,
    apps: Seq<AppView>,
    result_waits: bool,
    app_id: Seq<char>,
)
    ensures
        ({
            let page = manager_page(screen, apps, result_waits);
            &&& offers(page, ActionView::Sleep)
            &&& offers(page, ActionView::OpenSettings)
            &&& offers(page, ActionView::OpenStore)
            &&& offers(page, ActionView::Launch(app_id)) ==> exists|k: int|
                0 <= k < apps.len() && (#[trigger] apps[k]).id@ == app_id && apps[k].installed
            &&& offers(page, ActionView::Close(app_id)) ==> exists|k: int|
                0 <= k < apps.len() && (#[trigger] apps[k]).id@ == app_id && (
                apps[k].session is Some || apps[k].background_active)
        }),
{
    let first = store_tile(
        header(PageView::blank(false), screen.width as int),
        screen.width as int,
    );
    let page = manager_page(screen, apps, result_waits);
    lemma_tiles_go_on(first, screen, apps, 1, result_waits);
    lemma_goes_on(first, page);
    assert(first.buttons[0].action == ActionView::Sleep);
    assert(first.buttons[1].action == ActionView::OpenSettings);
    assert(first.buttons[2].action == ActionView::OpenStore);
    assert(first.buttons.len() == 3);
    assert(offers(first, ActionView::Sleep));
    assert(offers(first, ActionView::OpenSettings));
    assert(offers(first, ActionView::OpenStore));
    if offers(page, ActionView::Launch(app_id)) {
        let i = choose|i: int|
            0 <= i < page.buttons.len() && (#[trigger] page.buttons[i]).action
                == ActionView::Launch(app_id);
        if i < 3 {
            assert(page.buttons[i] == first.buttons[i]);
        }
    }
    if offers(page, ActionView::Close(app_id)) {
        let i = choose|i: int|
            0 <= i < page.buttons.len() && (#[trigger] page.buttons[i]).action == ActionView::Close(
                app_id,
            );
        if i < 3 {
            assert(page.buttons[i] == first.buttons[i]);
        }
    }
}

/// An application's line is that of its session where it has one, with words of its own where that
/// says nothing; without a session it says whether the application is installed and works in the
/// background. Results that wait for the assistant's application come first.
pub proof fn applications_say_how_they_are(app: AppView, result_waits: bool)
    requires
        app.id@ != "magicpaper"@ || !result_waits,
    ensures
        app.session is Some && app.session->0@.len() > 0 ==> status_text(app, result_waits)
            == app.session->0@,
        app.session is Some && app.session->0@.len() == 0 ==> status_text(app, result_waits)
            == "已暂停，可继续"@,
        app.session is None && app.installed && app.background_active ==> status_text(
            app,
            result_waits,
        ) == "已安装 · 后台服务运行中"@,
        app.session is None && app.installed && !app.background_active ==> status_text(
            app,
            result_waits,
        ) == "已安装"@,
        app.session is None && !app.installed ==> status_text(app, result_waits) == "未安装"@,
{
}

/// The icon of an application is the first letter or digit of its id, as a capital.
pub proof fn icons_are_first_letters(s: Seq<char>, i: int)
    requires
        0 <= i < s.len(),
        is_alnum(s[i]),
        forall|j: int| 0 <= j < i ==> !is_alnum(#[trigger] s[j]),
    ensures
        initial(s) == seq![capital(s[i])],
        'a' <= s[i] <= 'z' ==> capital(s[i]) as int == s[i] as int - 'a' as int + 'A' as int,
        !('a' <= s[i] <= 'z') ==> capital(s[i]) == s[i],
    decreases i,
{
    if i > 0 {
        let rest = s.drop_first();
        assert(!is_alnum(s[0]));
        assert(rest[i - 1] == s[i]);
        assert forall|j: int| 0 <= j < i - 1 implies !is_alnum(#[trigger] rest[j]) by {
            assert(rest[j] == s[j + 1]);
        }
        icons_are_first_letters(rest, i - 1);
    }
}

/// The platform's own applications have letters of their own; any other has its first letter.
pub proof fn applications_have_their_icons(app_id: Seq<char>)
    ensures
        app_id == "magicpaper"@ ==> icon_of(app_id) == "M"@,
        app_id == "koreader"@ ==> icon_of(app_id) == "K"@,
        app_id == "upload"@ || app_id == "remagic-upload"@ ==> icon_of(app_id) == "U"@,
        app_id != "magicpaper"@ && app_id != "koreader"@ && app_id != "upload"@ && app_id
            != "remagic-upload"@ ==> icon_of(app_id) == initial(app_id),
{
    reveal_strlit("magicpaper");
    reveal_strlit("koreader");
    reveal_strlit("upload");
    reveal_strlit("remagic-upload");
    assert("magicpaper"@.len() == 10 && "koreader"@.len() == 8 && "upload"@.len() == 6
        && "remagic-upload"@.len() == 14);
}

} // verus!
