//! The pages of the application store and of system updates.
use vstd::prelude::*;
use crate::home::pages::manager::icon_text;
use crate::home::pages::manager::icon_of;
use crate::home::store::{CatalogApp, CatalogStatus, OperationProgress, SystemUpdateInfo};
use crate::home::store::{catalog_views, CatalogView, ProgressView};
use crate::home::view::{
    half, place_tile, Action, AppView, Button, Draw, Page, Place, Screen, BLACK, DARK_GRAY, GRAY,
    WHITE,
};
use crate::home::view::{
    columns_of, half_of, tile_place, ActionView, ButtonView, DrawView, PageView, PlaceView,
};
use crate::home::view::{goes_on, lemma_goes_on, offers, says, tiles_stand_side_by_side};
use crate::manifest::id::valid_id;
use crate::manifest::AppId;
use crate::text::text_eq;

verus! {

pub const STORE_TITLE: &'static str = "应用商店";

pub const STORE_SUBTITLE: &'static str = "ReMagic 第一方应用";

pub const SYSTEM_UPDATE_TITLE: &'static str = "系统更新";

/// The size of a tile.
pub const TILE: i32 = 260;

/// The distance between tiles.
pub const GAP: i32 = 26;

/// An application that is shown while there is no catalog.
#[derive(Clone, Copy, Debug, PartialEq, Eq)]
pub struct StoreApp {
    pub id: &'static str,
    pub name: &'static str,
    pub summary: &'static str,
}

/// How many applications are shown while there is no catalog.
pub const STORE_APP_COUNT: usize = 3;

/// The applications that are shown while there is no catalog.
pub open spec fn store_app_of(i: int) -> (Seq<char>, Seq<char>, Seq<char>) {
    if i == 0 {
        ("magicpaper"@, "MagicPaper"@, "手写 AI 魔法纸"@)
    } else if i == 1 {
        ("koreader"@, "KOReader"@, "阅读与管理电子书"@)
    } else {
        ("upload"@, "文件传输"@, "上传书籍、壁纸并同步设备"@)
    }
}

/// An application that is shown while there is no catalog.
pub fn store_app(i: usize) -> (r: StoreApp)
    ensures
        (r.id@, r.name@, r.summary@) == store_app_of(i as int),
{
    if i == 0 {
        StoreApp { id: "magicpaper", name: "MagicPaper", summary: "手写 AI 魔法纸" }
    } else if i == 1 {
        StoreApp { id: "koreader", name: "KOReader", summary: "阅读与管理电子书" }
    } else {
        StoreApp { id: "upload", name: "文件传输", summary: "上传书籍、壁纸并同步设备" }
    }
}

/// Some application of the list has this id and is installed.
pub open spec fn installed_in(apps: Seq<AppView>, id: Seq<char>) -> bool {
    exists|i: int| 0 <= i < apps.len() && (#[trigger] apps[i]).id@ == id && apps[i].installed
}

/// Whether an application of the list has this id and is installed.
fn is_installed_in(apps: &[AppView], id: &str) -> (r: bool)
    ensures
        r == installed_in(apps@, id@),
{
    let mut i: usize = 0;
    while i < apps.len()
        invariant
            i <= apps@.len(),
            forall|j: int|
                0 <= j < i ==> !((#[trigger] apps@[j]).id@ == id@ && apps@[j].installed),
        decreases apps@.len() - i,
    {
        if text_eq(apps[i].id.as_str(), id) && apps[i].installed {
            assert(apps@[i as int].id@ == id@);
            return true;
        }
        i = i + 1;
    }
    false
}

/// What is shown of an application while there is no catalog.
pub open spec fn fallback_entry(apps: Seq<AppView>, i: int) -> CatalogView {
    let (id, name, summary) = store_app_of(i);
    CatalogView {
        id,
        name,
        summary,
        version: "未知"@,
        status: if installed_in(apps, id) {
            CatalogStatus::Installed
        } else {
            CatalogStatus::NotInstalled
        },
    }
}

/// The applications that the store shows: its catalog, or what is known
/// without one.
pub open spec fn shown_entries(apps: Seq<AppView>, catalog: Seq<CatalogView>) -> Seq<CatalogView> {
    if catalog.len() > 0 {
        catalog
    } else {
        Seq::new(STORE_APP_COUNT as nat, |i: int| fallback_entry(apps, i))
    }
}

/// The applications that the store shows.
pub fn store_entries(apps: &[AppView], catalog: &[CatalogApp]) -> (r: Vec<CatalogApp>)
    ensures
        catalog_views(r@) == shown_entries(apps@, catalog_views(catalog@)),
{
    let mut entries: Vec<CatalogApp> = Vec::new();
    let count: usize = catalog.len();
    if count > 0 {
        let mut i: usize = 0;
        while i < count
            invariant
                i <= count,
                count == catalog@.len(),
                entries@ == catalog@.take(i as int),
            decreases count - i,
        {
            entries.push(catalog[i].clone());
            assert(catalog@.take(i + 1) =~= catalog@.take(i as int).push(catalog@[i as int]));
            i = i + 1;
        }
        assert(entries@ =~= catalog@);
        return entries;
    }
    let mut i: usize = 0;
    while i < STORE_APP_COUNT
        invariant
            i <= STORE_APP_COUNT,
            entries@.len() == i,
            forall|j: int| 0 <= j < i ==> (#[trigger] entries@[j])@ == fallback_entry(apps@, j),
        decreases STORE_APP_COUNT - i,
    {
        let app = store_app(i);
        entries.push(
            CatalogApp {
                id: app.id.to_owned(),
                name: app.name.to_owned(),
                summary: app.summary.to_owned(),
                version: "未知".to_owned(),
                status: if is_installed_in(apps, app.id) {
                    CatalogStatus::Installed
                } else {
                    CatalogStatus::NotInstalled
                },
            },
        );
        i = i + 1;
    }
    assert(catalog_views(entries@) =~= shown_entries(apps@, catalog_views(catalog@)));
    entries
}

/// The application is on the device.
pub open spec fn on_device(status: CatalogStatus) -> bool {
    ||| status == CatalogStatus::Installed
    ||| status == CatalogStatus::NeedsConfiguration
    ||| status == CatalogStatus::UpdateAvailable
}

/// Whether the application is on the device.
pub fn is_installed(status: CatalogStatus) -> (r: bool)
    ensures
        r == on_device(status),
{
    match status {
        CatalogStatus::Installed => true,
        CatalogStatus::NeedsConfiguration => true,
        CatalogStatus::UpdateAvailable => true,
        _ => false,
    }
}

/// A touch opens the application.
pub open spec fn opens(status: CatalogStatus) -> bool {
    status == CatalogStatus::Installed || status == CatalogStatus::NeedsConfiguration
}

/// What the tile of an application says and does.
pub open spec fn entry_action(entry: CatalogView, busy: bool) -> (Seq<char>, ActionView) {
    if busy {
        ("进行中"@, ActionView::Unavailable)
    } else {
        match entry.status {
            CatalogStatus::UpdateAvailable => (
                "有新版本 · 轻点更新"@,
                ActionView::StoreUpgrade(entry.id),
            ),
            CatalogStatus::Installed => ("已安装 · 轻点打开"@, ActionView::Launch(entry.id)),
            CatalogStatus::NeedsConfiguration => (
                "已安装 · 轻点打开"@,
                ActionView::Launch(entry.id),
            ),
            CatalogStatus::Incompatible => (
                "当前设备或系统不兼容"@,
                ActionView::Unavailable,
            ),
            CatalogStatus::NotInstalled => (
                "未安装 · 轻点安装"@,
                ActionView::StoreInstall(entry.id),
            ),
        }
    }
}

/// What the tile of an application says and does. One that a touch opens has
/// the id of an application.
pub fn store_action(entry: &CatalogApp, busy: bool) -> (r: (&'static str, Action))
    requires
        !busy && opens(entry.status) ==> valid_id(entry.id@),
    ensures
        (r.0@, r.1@) == entry_action(entry@, busy),
{
    if busy {
        return ("进行中", Action::Unavailable);
    }
    match entry.status {
        CatalogStatus::UpdateAvailable => (
            "有新版本 · 轻点更新",
            Action::StoreUpgrade(entry.id.clone()),
        ),
        CatalogStatus::Installed | CatalogStatus::NeedsConfiguration => {
            match AppId::new(entry.id.as_str()) {
                Ok(app_id) => ("已安装 · 轻点打开", Action::Launch(app_id)),
                Err(_) => {
                    assert(false);
                    ("已安装 · 轻点打开", Action::Unavailable)
                },
            }
        },
        CatalogStatus::Incompatible => ("当前设备或系统不兼容", Action::Unavailable),
        CatalogStatus::NotInstalled => (
            "未安装 · 轻点安装",
            Action::StoreInstall(entry.id.clone()),
        ),
    }
}

/// An operation in progress is one on this application.
pub open spec fn works_on(progress: Option<ProgressView>, id: Seq<char>) -> bool {
    progress is Some && progress->0.target_id == id
}

/// An operation in progress over texts.
pub open spec fn progress_view(progress: Option<&OperationProgress>) -> Option<ProgressView> {
    match progress {
        Some(progress) => Some(progress@),
        None => None,
    }
}

/// The page with the tile of an application of the store.
pub open spec fn entry_tile(
    page: PageView,
    entry: CatalogView,
    x: int,
    y: int,
    progress: Option<ProgressView>,
) -> PageView {
    let size = TILE as int;
    let busy = works_on(progress, entry.id);
    let installed = on_device(entry.status) && !busy;
    let icon_x = x + half_of(size - 102);
    let (status, action) = entry_action(entry, busy);
    let card = page.card(x, y, size, size).rect(icon_x, y + 24, 102, 102, BLACK).text(
        icon_of(entry.id),
        45,
        PlaceView::Within(icon_x, 102),
        y + 88,
        WHITE,
    ).cut_text(entry.name, 28, PlaceView::Within(x, size), y + 160, BLACK, size - 28).cut_text(
        entry.summary + " · v"@ + entry.version,
        18,
        PlaceView::Within(x, size),
        y + 192,
        DARK_GRAY,
        size - 28,
    ).cut_text(status, 20, PlaceView::Within(x, size), y + 224, BLACK, size - 28);
    let told = if busy {
        card.draw(DrawView::Progress(x + 24, y + 234, size - 48, 14, progress->0.percent))
    } else {
        card
    };
    let opened = told.button(
        x,
        y,
        size,
        if installed {
            size - 58
        } else {
            size
        },
        action,
    );
    if installed {
        opened.labelled(
            "卸载"@,
            18,
            PlaceView::Within(x + 24, size - 48),
            y + size - 52 + 25,
            ButtonView {
                x: x + 24,
                y: y + size - 52,
                width: size - 48,
                height: 36,
                action: ActionView::StoreUninstall(entry.id),
            },
        )
    } else {
        opened
    }
}

/// The place of an application's tile.
pub open spec fn entry_place(screen: Screen, top: int, index: int) -> (int, int) {
    tile_place(screen.width as int, TILE as int, GAP as int, top, index)
}

/// An application's tile fits on the page.
pub open spec fn entry_fits(screen: Screen, top: int, index: int) -> bool {
    entry_place(screen, top, index).1 + TILE <= screen.height - 52
}

/// The page with the tiles of applications up to the first that does not fit.
pub open spec fn entry_tiles(
    page: PageView,
    screen: Screen,
    entries: Seq<CatalogView>,
    top: int,
    index: int,
    progress: Option<ProgressView>,
) -> PageView
    decreases entries.len() - index,
{
    if index >= entries.len() || !entry_fits(screen, top, index) {
        page
    } else {
        let (x, y) = entry_place(screen, top, index);
        entry_tiles(
            entry_tile(page, entries[index], x, y, progress),
            screen,
            entries,
            top,
            index + 1,
            progress,
        )
    }
}

/// The head of the store's page.
pub open spec fn store_header(page: PageView, width: int, has_error: bool) -> PageView {
    let head = page.text(STORE_TITLE@, 54, PlaceView::At(48), 82, BLACK).text(
        STORE_SUBTITLE@,
        25,
        PlaceView::At(50),
        128,
        DARK_GRAY,
    ).labelled(
        "返回"@,
        27,
        PlaceView::Within(width - 190, 142),
        85,
        ButtonView { x: width - 190, y: 38, width: 142, height: 72, action: ActionView::BackManager },
    );
    if has_error {
        head.text("上次操作失败，请重试"@, 24, PlaceView::At(50), 166, DARK_GRAY)
    } else {
        head
    }
}

/// Where the store's tiles begin.
pub open spec fn tiles_top(has_error: bool) -> int {
    if has_error {
        216
    } else {
        188
    }
}

/// The page of the store.
pub open spec fn store_page(
    screen: Screen,
    entries: Seq<CatalogView>,
    progress: Option<ProgressView>,
    has_error: bool,
) -> PageView {
    entry_tiles(
        store_header(PageView::blank(false), screen.width as int, has_error),
        screen,
        entries,
        tiles_top(has_error),
        0,
        progress,
    )
}

/// Draws the tile of an application.
fn render_store_app_tile(
    page: &mut Page,
    x: i32,
    y: i32,
    entry: &CatalogApp,
    progress: Option<&OperationProgress>,
)
    requires
        -0x0100_0000 <= x <= 0x0100_0000,
        0 <= y <= 0x0100_0000,
        !works_on(progress_view(progress), entry.id@) && opens(entry.status) ==> valid_id(
            entry.id@,
        ),
    ensures
        final(page)@ == entry_tile(
            old(page)@,
            entry@,
            x as int,
            y as int,
            progress_view(progress),
        ),
{
    let busy = match progress {
        Some(progress) => text_eq(progress.target_id.as_str(), entry.id.as_str()),
        None => false,
    };
    let installed = is_installed(entry.status) && !busy;
    page.card(x, y, TILE, TILE);
    let icon_x: i32 = x + half(TILE - 102);
    page.rect(icon_x, y + 24, 102, 102, BLACK);
    let icon = icon_text(entry.id.as_str());
    page.text(icon.as_str(), 45, Place::Within { x: icon_x, width: 102 }, y + 88, WHITE);
    page.cut_text(
        entry.name.as_str(),
        28,
        Place::Within { x, width: TILE },
        y + 160,
        BLACK,
        TILE - 28,
    );
    let mut summary = entry.summary.clone();
    summary.append(" · v");
    summary.append(entry.version.as_str());
    page.cut_text(
        summary.as_str(),
        18,
        Place::Within { x, width: TILE },
        y + 192,
        DARK_GRAY,
        TILE - 28,
    );
    let (status, action) = store_action(entry, busy);
    page.cut_text(status, 20, Place::Within { x, width: TILE }, y + 224, BLACK, TILE - 28);
    if busy {
        if let Some(progress) = progress {
            page.draw(
                Draw::Progress {
                    x: x + 24,
                    y: y + 234,
                    width: TILE - 48,
                    height: 14,
                    percent: progress.percent,
                },
            );
        }
    }
    page.button(
        Button {
            x,
            y,
            width: TILE,
            height: if installed {
                TILE - 58
            } else {
                TILE
            },
            action,
        },
    );
    if installed {
        page.labelled(
            "卸载",
            18,
            Place::Within { x: x + 24, width: TILE - 48 },
            y + TILE - 52 + 25,
            Button {
                x: x + 24,
                y: y + TILE - 52,
                width: TILE - 48,
                height: 36,
                action: Action::StoreUninstall(entry.id.clone()),
            },
        );
    }
}

/// Every application whose tile is shown and opens it has the id of one.
pub open spec fn launchable(
    screen: Screen,
    entries: Seq<CatalogView>,
    progress: Option<ProgressView>,
    has_error: bool,
) -> bool {
    forall|i: int|
        0 <= i < entries.len() && entry_fits(screen, tiles_top(has_error), i) && !works_on(
            progress,
            entries[i].id,
        ) && opens(entries[i].status) ==> valid_id((#[trigger] entries[i]).id)
}

/// Whether every application that a touch would open has the id of one, so
/// that the page of the store can be shown.
pub fn can_show_store(entries: &[CatalogApp]) -> (r: bool)
    ensures
        r == (forall|i: int|
            0 <= i < entries@.len() && opens((#[trigger] entries@[i]).status) ==> valid_id(
                entries@[i].id@,
            )),
{
    let mut i: usize = 0;
    while i < entries.len()
        invariant
            i <= entries@.len(),
            forall|j: int|
                0 <= j < i && opens((#[trigger] entries@[j]).status) ==> valid_id(
                    entries@[j].id@,
                ),
        decreases entries@.len() - i,
    {
        match entries[i].status {
            CatalogStatus::Installed | CatalogStatus::NeedsConfiguration => {
                if AppId::new(entries[i].id.as_str()).is_err() {
                    assert(opens(entries@[i as int].status));
                    return false;
                }
            },
            _ => {},
        }
        i = i + 1;
    }
    true
}

/// The page of the store.
pub fn render_store(
    screen: Screen,
    entries: &[CatalogApp],
    progress: Option<&OperationProgress>,
    has_error: bool,
) -> (r: Page)
    requires
        screen.usable(),
        launchable(screen, catalog_views(entries@), progress_view(progress), has_error),
    ensures
        r@ == store_page(screen, catalog_views(entries@), progress_view(progress), has_error),
{
    let mut page = Page::blank(false);
    page.text(STORE_TITLE, 54, Place::At(48), 82, BLACK);
    page.text(STORE_SUBTITLE, 25, Place::At(50), 128, DARK_GRAY);
    page.labelled(
        "返回",
        27,
        Place::Within { x: screen.width - 190, width: 142 },
        85,
        Button {
            x: screen.width - 190,
            y: 38,
            width: 142,
            height: 72,
            action: Action::BackManager,
        },
    );
    if has_error {
        page.text("上次操作失败，请重试", 24, Place::At(50), 166, DARK_GRAY);
    }
    let top: i32 = if has_error {
        216
    } else {
        188
    };
    let ghost all = catalog_views(entries@);
    let ghost start = page@;
    let mut i: usize = 0;
    while i < entries.len()
        invariant
            i <= entries@.len(),
            screen.usable(),
            all == catalog_views(entries@),
            top == tiles_top(has_error),
            launchable(screen, all, progress_view(progress), has_error),
            start == store_header(PageView::blank(false), screen.width as int, has_error),
            entry_tiles(
                page@,
                screen,
                all,
                top as int,
                i as int,
                progress_view(progress),
            ) == entry_tiles(start, screen, all, top as int, 0, progress_view(progress)),
        decreases entries@.len() - i,
    {
        assert(all[i as int] == entries@[i as int]@);
        match place_tile(screen.width, TILE, GAP, top, i, screen.height - 52) {
            Some((x, y)) => {
                render_store_app_tile(&mut page, x, y, &entries[i], progress);
            },
            None => return page,
        }
        i = i + 1;
    }
    page
}

/// What the page says of the system's version.
pub open spec fn update_status(update: SystemUpdateInfo, progress: Option<ProgressView>) -> Seq<char> {
    if progress is Some {
        progress->0.label
    } else if update.update_available {
        update.current_version@ + " → "@ + update.available_version@ + " · 轻点更新"@
    } else if update.available_version@.len() == 0 {
        "轻点联网检查系统更新"@
    } else {
        "已是最新版本 "@ + update.current_version@
    }
}

/// What a touch on the system's version does.
pub open spec fn update_action(update: SystemUpdateInfo, busy: bool) -> ActionView {
    if busy {
        ActionView::Unavailable
    } else if update.update_available {
        ActionView::SystemUpdate
    } else if update.available_version@.len() == 0 {
        ActionView::RefreshSystemUpdate
    } else {
        ActionView::Unavailable
    }
}

/// The page with the system's version.
pub open spec fn update_card(
    page: PageView,
    width: int,
    y: int,
    update: SystemUpdateInfo,
    progress: Option<ProgressView>,
) -> PageView {
    let card = page.card(38, y, width - 76, 176).text(
        "ReMagic 系统"@,
        38,
        PlaceView::At(72),
        y + 52,
        BLACK,
    ).text(update_status(update, progress), 23, PlaceView::At(72), y + 103, DARK_GRAY);
    let told = match progress {
        Some(progress) => card.draw(
            DrawView::Progress(72, y + 128, width - 144, 18, progress.percent),
        ),
        None => card,
    };
    told.button(38, y, width - 76, 176, update_action(update, progress is Some))
}

/// The page with system updates.
pub open spec fn update_page(
    screen: Screen,
    update: SystemUpdateInfo,
    progress: Option<ProgressView>,
    error: Option<Seq<char>>,
) -> PageView {
    let w = screen.width as int;
    let head = PageView::blank(false).text(
        SYSTEM_UPDATE_TITLE@,
        54,
        PlaceView::At(48),
        82,
        BLACK,
    ).text("ReMagic 系统版本与安装"@, 25, PlaceView::At(50), 128, DARK_GRAY).labelled(
        "返回"@,
        27,
        PlaceView::Within(w - 194, 152),
        85,
        ButtonView { x: w - 194, y: 38, width: 152, height: 72, action: ActionView::BackSettings },
    );
    let card = update_card(head, w, 202, update, progress);
    let told = match error {
        Some(error) => card.text("上次操作失败"@, 27, PlaceView::At(52), 420, BLACK).cut_text(
            error,
            22,
            PlaceView::At(52),
            458,
            DARK_GRAY,
            w - 104,
        ),
        None => card,
    };
    told.labelled(
        "重新检查"@,
        27,
        PlaceView::Within(38, w - 76),
        screen.height - 150 + 52 + 11,
        ButtonView {
            x: 38,
            y: screen.height - 150,
            width: w - 76,
            height: 104,
            action: if progress is Some {
                ActionView::Unavailable
            } else {
                ActionView::RefreshSystemUpdate
            },
        },
    )
}

/// Draws the system's version.
fn render_system_update_card(
    page: &mut Page,
    width: i32,
    y: i32,
    update: &SystemUpdateInfo,
    progress: Option<&OperationProgress>,
)
    requires
        0 <= width <= 0x0100_0000,
        0 <= y <= 0x0100_0000,
    ensures
        final(page)@ == update_card(
            old(page)@,
            width as int,
            y as int,
            *update,
            progress_view(progress),
        ),
{
    page.card(38, y, width - 76, 176);
    page.text("ReMagic 系统", 38, Place::At(72), y + 52, BLACK);
    let unknown = update.available_version.as_str().is_empty();
    let status = match progress {
        Some(progress) => progress.label.clone(),
        None => if update.update_available {
            let mut text = update.current_version.clone();
            text.append(" → ");
            text.append(update.available_version.as_str());
            text.append(" · 轻点更新");
            text
        } else if unknown {
            "轻点联网检查系统更新".to_owned()
        } else {
            let mut text = "已是最新版本 ".to_owned();
            text.append(update.current_version.as_str());
            text
        },
    };
    page.text(status.as_str(), 23, Place::At(72), y + 103, DARK_GRAY);
    if let Some(progress) = progress {
        page.draw(
            Draw::Progress {
                x: 72,
                y: y + 128,
                width: width - 144,
                height: 18,
                percent: progress.percent,
            },
        );
    }
    let action = if progress.is_some() {
        Action::Unavailable
    } else if update.update_available {
        Action::SystemUpdate
    } else if unknown {
        Action::RefreshSystemUpdate
    } else {
        Action::Unavailable
    };
    page.button(Button { x: 38, y, width: width - 76, height: 176, action });
}

/// The page with system updates.
pub fn render_system_update(
    screen: Screen,
    update: &SystemUpdateInfo,
    progress: Option<&OperationProgress>,
    error: Option<&str>,
) -> (r: Page)
    requires
        screen.usable(),
    ensures
        r@ == update_page(
            screen,
            *update,
            progress_view(progress),
            match error {
                Some(error) => Some(error@),
                None => None,
            },
        ),
{
    let w: i32 = screen.width;
    let mut page = Page::blank(false);
    page.text(SYSTEM_UPDATE_TITLE, 54, Place::At(48), 82, BLACK);
    page.text("ReMagic 系统版本与安装", 25, Place::At(50), 128, DARK_GRAY);
    page.labelled(
        "返回",
        27,
        Place::Within { x: w - 194, width: 152 },
        85,
        Button { x: w - 194, y: 38, width: 152, height: 72, action: Action::BackSettings },
    );
    render_system_update_card(&mut page, w, 202, update, progress);
    if let Some(error) = error {
        page.text("上次操作失败", 27, Place::At(52), 420, BLACK);
        page.cut_text(error, 22, Place::At(52), 458, DARK_GRAY, w - 104);
    }
    page.labelled(
        "重新检查",
        27,
        Place::Within { x: 38, width: w - 76 },
        screen.height - 150 + 52 + 11,
        Button {
            x: 38,
            y: screen.height - 150,
            width: w - 76,
            height: 104,
            action: if progress.is_some() {
                Action::Unavailable
            } else {
                Action::RefreshSystemUpdate
            },
        },
    );
    page
}

/// A tile that an operation works on does nothing until it is done.
pub proof fn busy_tiles_do_nothing(entry: CatalogView)
    ensures
        entry_action(entry, true).1 == ActionView::Unavailable,
{
}

/// The button that uninstalls an application lies below the one that opens it.
pub proof fn uninstalling_is_apart_from_opening(
    page: PageView,
    entry: CatalogView,
    x: int,
    y: int,
    progress: Option<ProgressView>,
)
    requires
        on_device(entry.status),
        !works_on(progress, entry.id),
    ensures
        ({
            let buttons = entry_tile(page, entry, x, y, progress).buttons;
            let n = page.buttons.len() as int;
            &&& buttons.len() == n + 2
            &&& buttons[n + 1].action == ActionView::StoreUninstall(entry.id)
            &&& buttons[n].apart_from(buttons[n + 1])
        }),
{
}

/// The page shows an entry of the catalog: its name, its summary with the version, and what can be
/// done with it.
pub open spec fn shows_entry(page: PageView, entry: CatalogView, progress: Option<ProgressView>) -> bool {
    let busy = progress is Some && progress->0.target_id == entry.id;
    &&& says(page, entry.name)
    &&& says(page, entry.summary + " · v"@ + entry.version)
    &&& !busy && entry.status == CatalogStatus::NotInstalled ==> offers(
        page,
        ActionView::StoreInstall(entry.id),
    )
    &&& !busy && entry.status == CatalogStatus::UpdateAvailable ==> offers(
        page,
        ActionView::StoreUpgrade(entry.id),
    ) && offers(page, ActionView::StoreUninstall(entry.id))
    &&& !busy && (entry.status == CatalogStatus::Installed || entry.status
        == CatalogStatus::NeedsConfiguration) ==> offers(page, ActionView::Launch(entry.id))
        && offers(page, ActionView::StoreUninstall(entry.id))
}

/// What a button of an entry's tile can be for.
pub open spec fn acts_on(action: ActionView, entry: CatalogView, progress: Option<ProgressView>) -> bool {
    let busy = progress is Some && progress->0.target_id == entry.id;
    ||| action == ActionView::Unavailable
    ||| !busy && match action {
        ActionView::StoreInstall(id) => id == entry.id && entry.status
            == CatalogStatus::NotInstalled,
        ActionView::StoreUpgrade(id) => id == entry.id && entry.status
            == CatalogStatus::UpdateAvailable,
        ActionView::Launch(id) => id == entry.id && (entry.status == CatalogStatus::Installed
            || entry.status == CatalogStatus::NeedsConfiguration),
        ActionView::StoreUninstall(id) => id == entry.id && (entry.status
            == CatalogStatus::Installed || entry.status == CatalogStatus::NeedsConfiguration
            || entry.status == CatalogStatus::UpdateAvailable),
        _ => false,
    }
}

proof fn lemma_entry_tile(
    page: PageView,
    entry: CatalogView,
    x: int,
    y: int,
    progress: Option<ProgressView>,
)
    ensures
        goes_on(page, entry_tile(page, entry, x, y, progress)),
        shows_entry(entry_tile(page, entry, x, y, progress), entry, progress),
        forall|i: int|
            page.buttons.len() <= i < entry_tile(page, entry, x, y, progress).buttons.len()
                ==> acts_on(
                (#[trigger] entry_tile(page, entry, x, y, progress).buttons[i]).action,
                entry,
                progress,
            ),
{
    let after = entry_tile(page, entry, x, y, progress);
    let n = page.draws.len() as int;
    let m = page.buttons.len() as int;
    let busy = works_on(progress, entry.id);
    assert(after.draws[n + 4] is Text && after.draws[n + 4]->Text_0 == entry.name);
    assert(after.draws[n + 5] is Text && after.draws[n + 5]->Text_0 == entry.summary + " · v"@
        + entry.version);
    assert(after.buttons[m].action == entry_action(entry, busy).1);
    if on_device(entry.status) && !busy {
        assert(after.buttons[m + 1].action == ActionView::StoreUninstall(entry.id));
    }
}

proof fn lemma_entry_tiles(
    page: PageView,
    screen: Screen,
    entries: Seq<CatalogView>,
    top: int,
    index: int,
    progress: Option<ProgressView>,
)
    requires
        0 <= index,
    ensures
        goes_on(page, entry_tiles(page, screen, entries, top, index, progress)),
        forall|k: int|
            index <= k < entries.len() && entry_fits(screen, top, k) ==> shows_entry(
                entry_tiles(page, screen, entries, top, index, progress),
                #[trigger] entries[k],
                progress,
            ),
        forall|i: int|
            page.buttons.len() <= i < entry_tiles(
                page,
                screen,
                entries,
                top,
                index,
                progress,
            ).buttons.len() ==> exists|k: int|
                0 <= k < entries.len() && acts_on(
                    (#[trigger] entry_tiles(
                        page,
                        screen,
                        entries,
                        top,
                        index,
                        progress,
                    ).buttons[i]).action,
                    #[trigger] entries[k],
                    progress,
                ),
    decreases entries.len() - index,
{
    let after = entry_tiles(page, screen, entries, top, index, progress);
    if index < entries.len() && entry_fits(screen, top, index) {
        let (x, y) = entry_place(screen, top, index);
        let next = entry_tile(page, entries[index], x, y, progress);
        lemma_entry_tile(page, entries[index], x, y, progress);
        lemma_entry_tiles(next, screen, entries, top, index + 1, progress);
        lemma_goes_on(next, after);
        assert(goes_on(page, after)) by {
            assert forall|i: int| 0 <= i < page.draws.len() implies after.draws[i]
                == #[trigger] page.draws[i] by {
                assert(next.draws[i] == page.draws[i]);
            }
            assert forall|i: int| 0 <= i < page.buttons.len() implies after.buttons[i]
                == #[trigger] page.buttons[i] by {
                assert(next.buttons[i] == page.buttons[i]);
            }
        }
        assert(shows_entry(after, entries[index], progress));
        assert forall|i: int| page.buttons.len() <= i < after.buttons.len() implies exists|k: int|
            0 <= k < entries.len() && acts_on(
                (#[trigger] after.buttons[i]).action,
                #[trigger] entries[k],
                progress,
            ) by {
            if i < next.buttons.len() {
                assert(after.buttons[i] == next.buttons[i]);
                assert(acts_on(after.buttons[i].action, entries[index], progress));
            }
        }
    } else if index < entries.len() {
        assert forall|k: int|
            index <= k < entries.len() && entry_fits(screen, top, k) implies shows_entry(
            after,
            #[trigger] entries[k],
            progress,
        ) by {
            if index < k {
                tiles_stand_side_by_side(
                    screen.width as int,
                    TILE as int,
                    GAP as int,
                    top,
                    index,
                    k,
                );
            }
        }
    }
}

/// Every entry that has room in the store is shown with its name, summary and version. What is not
/// installed can be installed, what is out of date upgraded, what is installed opened, and what is
/// on the device removed; while it is being worked on nothing of that can be done.
pub proof fn entries_are_shown_in_the_store(
    screen: Screen,
    entries: Seq<CatalogView>,
    progress: Option<ProgressView>,
    has_error: bool,
    k: int,
)
    requires
        0 <= k < entries.len(),
        tile_place(screen.width as int, 260, 26, tiles_top(has_error), k).1 + 260 <= screen.height
            - 52,
    ensures
        shows_entry(store_page(screen, entries, progress, has_error), entries[k], progress),
        offers(store_page(screen, entries, progress, has_error), ActionView::BackManager),
        has_error ==> says(
            store_page(screen, entries, progress, has_error),
            "上次操作失败，请重试"@,
        ),
{
    let head = store_header(PageView::blank(false), screen.width as int, has_error);
    lemma_entry_tiles(head, screen, entries, tiles_top(has_error), 0, progress);
    lemma_goes_on(head, store_page(screen, entries, progress, has_error));
    assert(head.buttons[0].action == ActionView::BackManager);
    assert(offers(head, ActionView::BackManager));
    assert(entry_fits(screen, tiles_top(has_error), k));
    if has_error {
        assert(head.draws[5] is Text && head.draws[5]->Text_0 == "上次操作失败，请重试"@);
        assert(says(head, "上次操作失败，请重试"@));
    }
}

/// The store offers to do with an application only what its entry allows.
pub proof fn the_store_offers_nothing_else(
    screen: Screen,
    entries: Seq<CatalogView>,
    progress: Option<ProgressView>,
    has_error: bool,
    action: ActionView,
)
    requires
        offers(store_page(screen, entries, progress, has_error), action),
        action != ActionView::BackManager,
    ensures
        exists|k: int|
            0 <= k < entries.len() && acts_on(action, #[trigger] entries[k], progress),
{
    let head = store_header(PageView::blank(false), screen.width as int, has_error);
    let page = store_page(screen, entries, progress, has_error);
    lemma_entry_tiles(head, screen, entries, tiles_top(has_error), 0, progress);
    let i = choose|i: int|
        0 <= i < page.buttons.len() && (#[trigger] page.buttons[i]).action == action;
    assert(head.buttons.len() == 1 && head.buttons[0].action == ActionView::BackManager);
    if i == 0 {
        assert(page.buttons[0] == head.buttons[0]);
    }
}

/// Without a catalog the store shows the three known applications, each as installed where it is.
pub proof fn the_store_is_never_empty(apps: Seq<AppView>, catalog: Seq<CatalogView>, i: int)
    ensures
        catalog.len() > 0 ==> shown_entries(apps, catalog) == catalog,
        catalog.len() == 0 ==> {
            let entries = shown_entries(apps, catalog);
            &&& entries.len() == 3
            &&& entries[0].id == "magicpaper"@
            &&& entries[1].id == "koreader"@
            &&& entries[2].id == "upload"@
            &&& 0 <= i < 3 ==> (entries[i].status == CatalogStatus::Installed <==> exists|k: int|
                0 <= k < apps.len() && (#[trigger] apps[k]).id@ == entries[i].id
                    && apps[k].installed)
            &&& 0 <= i < 3 ==> entries[i].status == CatalogStatus::Installed || entries[i].status
                == CatalogStatus::NotInstalled
        },
{
}

/// The page of updates says which version there is, leads to the installation where there is a new
/// one, and otherwise lets it be looked for; while something is in progress it says what, and
/// nothing can be started.
pub proof fn the_update_page_leads_to_the_update(
    screen: Screen,
    update: SystemUpdateInfo,
    progress: Option<ProgressView>,
    error: Option<Seq<char>>,
)
    ensures
        ({
            let page = update_page(screen, update, progress, error);
            &&& offers(page, ActionView::BackSettings)
            &&& progress is Some ==> says(page, progress->0.label) && !offers(
                page,
                ActionView::SystemUpdate,
            ) && !offers(page, ActionView::RefreshSystemUpdate)
            &&& progress is None ==> offers(page, ActionView::RefreshSystemUpdate)
            &&& progress is None ==> (offers(page, ActionView::SystemUpdate)
                <==> update.update_available)
            &&& progress is None && update.update_available ==> says(
                page,
                update.current_version@ + " → "@ + update.available_version@ + " · 轻点更新"@,
            )
            &&& progress is None && !update.update_available && update.available_version@.len() > 0
                ==> says(page, "已是最新版本 "@ + update.current_version@)
            &&& error is Some ==> says(page, error->0)
        }),
{
    let page = update_page(screen, update, progress, error);
    assert(page.buttons.len() == 3);
    assert(page.buttons[0].action == ActionView::BackSettings);
    assert(page.buttons[1].action == update_action(update, progress is Some));
    assert(page.buttons[2].action == if progress is Some {
        ActionView::Unavailable
    } else {
        ActionView::RefreshSystemUpdate
    });
    assert(page.draws[8] is Text && page.draws[8]->Text_0 == update_status(update, progress));
    if error is Some {
        let n = if progress is Some {
            11int
        } else {
            10int
        };
        assert(page.draws[n] is Text && page.draws[n]->Text_0 == error->0);
    }
}

} // verus!
