//! The pages with the settings.
use vstd::prelude::*;
use crate::backlight::BacklightSnapshot;
use crate::home::settings::{HomeSettings, WallpaperOption};
use crate::home::settings::{option_views, selected_index};
use crate::home::view::{
    divide, half, Action, Button, Draw, Page, Place, Screen, BLACK, DARK_GRAY, GRAY, WHITE,
};
use crate::home::view::{half_of, quotient, ActionView, ButtonView, DrawView, PageView, PlaceView};
use crate::home::view::{offers, says};
use crate::text::decimal_text;
use crate::text::decimal;

verus! {

/// The brightness that is set, in hundredths; zero where it is not known.
pub open spec fn percent_of(snapshot: BacklightSnapshot) -> u8 {
    match snapshot.percent {
        Some(percent) => percent,
        None => 0,
    }
}

/// The state of the light in a word.
pub open spec fn light_label(snapshot: Option<BacklightSnapshot>) -> Seq<char> {
    match snapshot {
        Some(snapshot) => if snapshot.supported && snapshot.forced_off {
            decimal(percent_of(snapshot) as nat) + "% · 锁屏熄灯"@
        } else if snapshot.supported {
            decimal(percent_of(snapshot) as nat) + "%"@
        } else {
            "不可用"@
        },
        None => "读取中"@,
    }
}

/// The state of the light in a word.
pub fn backlight_label(snapshot: Option<&BacklightSnapshot>) -> (r: String)
    ensures
        r@ == light_label(
            match snapshot {
                Some(snapshot) => Some(*snapshot),
                None => None,
            },
        ),
{
    match snapshot {
        Some(snapshot) => {
            if !snapshot.supported {
                return "不可用".to_owned();
            }
            let percent: u8 = match snapshot.percent {
                Some(percent) => percent,
                None => 0,
            };
            let mut label = decimal_text(percent as u64);
            if snapshot.forced_off {
                label.append("% · 锁屏熄灯");
            } else {
                label.append("%");
            }
            label
        },
        None => "读取中".to_owned(),
    }
}

/// The state of the light in a sentence.
pub open spec fn light_status(forced_off: bool, percent: u8) -> Seq<char> {
    if forced_off {
        "锁屏期间已临时关闭"@
    } else if percent == 0 {
        "阅读灯关闭"@
    } else {
        "阅读灯开启"@
    }
}

/// The state of the light in a sentence.
pub fn backlight_status_label(snapshot: &BacklightSnapshot, percent: u8) -> (r: &'static str)
    ensures
        r@ == light_status(snapshot.forced_off, percent),
{
    if snapshot.forced_off {
        "锁屏期间已临时关闭"
    } else if percent == 0 {
        "阅读灯关闭"
    } else {
        "阅读灯开启"
    }
}

/// When the device sleeps by itself, in words.
pub open spec fn idle_label(seconds: u64) -> Seq<char> {
    if seconds == 0 {
        "永不自动休眠"@
    } else if seconds == 60 {
        "无操作 1 分钟"@
    } else if seconds == 120 {
        "无操作 2 分钟"@
    } else if seconds == 300 {
        "无操作 5 分钟"@
    } else if seconds == 600 {
        "无操作 10 分钟"@
    } else if seconds == 1_800 {
        "无操作 30 分钟"@
    } else {
        "使用系统配置"@
    }
}

/// When the device sleeps by itself, in words.
pub fn idle_suspend_label(seconds: u64) -> (r: &'static str)
    ensures
        r@ == idle_label(seconds),
{
    match seconds {
        0 => "永不自动休眠",
        60 => "无操作 1 分钟",
        120 => "无操作 2 分钟",
        300 => "无操作 5 分钟",
        600 => "无操作 10 分钟",
        1_800 => "无操作 30 分钟",
        _ => "使用系统配置",
    }
}

/// The page with a row that opens something.
pub open spec fn setting_row(
    page: PageView,
    width: int,
    title: Seq<char>,
    value: Seq<char>,
    y: int,
    action: ActionView,
) -> PageView {
    page.rect(38, y, width - 76, 126, GRAY).text(title, 34, PlaceView::At(72), y + 53, BLACK).text(
        value,
        24,
        PlaceView::At(72),
        y + 94,
        DARK_GRAY,
    ).text("›"@, 42, PlaceView::At(width - 104), y + 76, BLACK).button(
        38,
        y,
        width - 76,
        126,
        action,
    )
}

/// Adds a row that opens something.
fn add_row(page: &mut Page, width: i32, title: &str, value: &str, y: i32, action: Action)
    requires
        0 <= width <= 0x0100_0000,
        0 <= y <= 0x0100_0000,
    ensures
        final(page)@ == setting_row(
            old(page)@,
            width as int,
            title@,
            value@,
            y as int,
            action@,
        ),
{
    page.rect(38, y, width - 76, 126, GRAY);
    page.text(title, 34, Place::At(72), y + 53, BLACK);
    page.text(value, 24, Place::At(72), y + 94, DARK_GRAY);
    page.text("›", 42, Place::At(width - 104), y + 76, BLACK);
    page.button(Button { x: 38, y, width: width - 76, height: 126, action });
}

/// The page with a title, a subtitle and a button that leads back.
pub open spec fn titled(
    page: PageView,
    width: int,
    title: Seq<char>,
    subtitle: Seq<char>,
    back: ActionView,
) -> PageView {
    page.text(title, 54, PlaceView::At(48), 82, BLACK).text(
        subtitle,
        25,
        PlaceView::At(50),
        128,
        DARK_GRAY,
    ).labelled(
        "返回"@,
        28,
        PlaceView::Around(width - 194, 152),
        86,
        ButtonView { x: width - 194, y: 38, width: 152, height: 72, action: back },
    )
}

/// Adds a title, a subtitle and a button that leads back.
fn add_title(page: &mut Page, width: i32, title: &str, subtitle: &str, back: Action)
    requires
        0 <= width <= 0x0100_0000,
    ensures
        final(page)@ == titled(old(page)@, width as int, title@, subtitle@, back@),
{
    page.text(title, 54, Place::At(48), 82, BLACK);
    page.text(subtitle, 25, Place::At(50), 128, DARK_GRAY);
    page.labelled(
        "返回",
        28,
        Place::Around { x: width - 194, width: 152 },
        86,
        Button { x: width - 194, y: 38, width: 152, height: 72, action: back },
    );
}

/// The page with the settings, from what they say.
pub open spec fn settings_page(
    screen: Screen,
    light: Seq<char>,
    idle: Seq<char>,
    wallpaper: Seq<char>,
    fit: Seq<char>,
) -> PageView {
    let w = screen.width as int;
    let head = titled(
        PageView::blank(false),
        w,
        "设置"@,
        "系统、电源与锁屏外观"@,
        ActionView::BackManager,
    ).text("系统"@, 36, PlaceView::At(50), 194, BLACK);
    let update = setting_row(
        head,
        w,
        "系统更新"@,
        "检查并安装 ReMagic 系统更新"@,
        224,
        ActionView::OpenSystemUpdate,
    );
    let system = setting_row(
        update,
        w,
        "返回原版系统"@,
        "退出 ReMagic，回到 reMarkable 原版系统"@,
        374,
        ActionView::System,
    ).text("电源"@, 36, PlaceView::At(50), 524, BLACK);
    let lit = setting_row(system, w, "背光"@, light, 554, ActionView::OpenBacklight);
    let sleepy = setting_row(lit, w, "自动休眠"@, idle, 704, ActionView::CycleAutoSleep).text(
        "锁屏"@,
        36,
        PlaceView::At(50),
        884,
        BLACK,
    );
    let papered = setting_row(
        sleepy,
        w,
        "壁纸"@,
        wallpaper,
        914,
        ActionView::OpenWallpaperBrowser,
    );
    let laid = setting_row(papered, w, "壁纸布局"@, fit, 1064, ActionView::ToggleWallpaperFit);
    let preview_y = screen.height - 260;
    laid.rect(38, preview_y, w - 76, 104, BLACK).text(
        "预览锁屏"@,
        36,
        PlaceView::Middle,
        preview_y + 67,
        WHITE,
    ).button(38, preview_y, w - 76, 104, ActionView::PreviewLock).text(
        "将 PNG 放入 /home/root/.local/share/remagic/wallpapers/"@,
        20,
        PlaceView::Middle,
        screen.height - 92,
        DARK_GRAY,
    )
}

/// What the page with the settings shows of them.
pub open spec fn shown_settings(
    screen: Screen,
    settings: HomeSettings,
    wallpapers: Seq<WallpaperOption>,
) -> PageView {
    let options = option_views(wallpapers);
    settings_page(
        screen,
        light_label(settings.backlight),
        idle_label(settings.idle_suspend_secs),
        options[selected_index(options, settings.lock.wallpaper@)].label,
        settings.lock.fit.name(),
    )
}

/// The page with the settings.
pub fn render_settings(screen: Screen, settings: &HomeSettings, wallpapers: &[WallpaperOption]) -> (r:
    Page)
    requires
        screen.usable(),
        wallpapers@.len() > 0,
    ensures
        r@ == shown_settings(screen, *settings, wallpapers@),
{
    let w: i32 = screen.width;
    let mut page = Page::blank(false);
    add_title(&mut page, w, "设置", "系统、电源与锁屏外观", Action::BackManager);
    page.text("系统", 36, Place::At(50), 194, BLACK);
    add_row(
        &mut page,
        w,
        "系统更新",
        "检查并安装 ReMagic 系统更新",
        224,
        Action::OpenSystemUpdate,
    );
    add_row(
        &mut page,
        w,
        "返回原版系统",
        "退出 ReMagic，回到 reMarkable 原版系统",
        374,
        Action::System,
    );
    page.text("电源", 36, Place::At(50), 524, BLACK);
    let light = backlight_label(settings.backlight.as_ref());
    add_row(&mut page, w, "背光", light.as_str(), 554, Action::OpenBacklight);
    add_row(
        &mut page,
        w,
        "自动休眠",
        idle_suspend_label(settings.idle_suspend_secs),
        704,
        Action::CycleAutoSleep,
    );
    page.text("锁屏", 36, Place::At(50), 884, BLACK);
    let wallpaper = settings.wallpaper(wallpapers);
    add_row(
        &mut page,
        w,
        "壁纸",
        wallpaper.label.as_str(),
        914,
        Action::OpenWallpaperBrowser,
    );
    add_row(
        &mut page,
        w,
        "壁纸布局",
        settings.lock.fit.label(),
        1064,
        Action::ToggleWallpaperFit,
    );
    let preview_y: i32 = screen.height - 260;
    page.rect(38, preview_y, w - 76, 104, BLACK);
    page.text("预览锁屏", 36, Place::Middle, preview_y + 67, WHITE);
    page.button(
        Button { x: 38, y: preview_y, width: w - 76, height: 104, action: Action::PreviewLock },
    );
    page.text(
        "将 PNG 放入 /home/root/.local/share/remagic/wallpapers/",
        20,
        Place::Middle,
        screen.height - 92,
        DARK_GRAY,
    );
    page
}

/// The smaller of two brightnesses.
pub open spec fn at_most_full(percent: u8) -> u8 {
    if percent > 100 {
        100
    } else {
        percent
    }
}

/// The native brightness in words.
pub open spec fn native_text(snapshot: BacklightSnapshot) -> Seq<char> {
    match (snapshot.brightness, snapshot.max_brightness) {
        (Some(brightness), Some(max)) => "原生亮度 "@ + decimal(brightness as nat) + "/"@ + decimal(
            max as nat,
        ),
        _ => "原生亮度未知"@,
    }
}

/// The page with the complaint that there is no light.
pub open spec fn light_unavailable(page: PageView, width: int, snapshot: BacklightSnapshot) -> PageView {
    let told = page.text("当前设备未暴露背光控制"@, 34, PlaceView::At(52), 226, BLACK);
    match snapshot.error {
        Some(error) => told.cut_text(error@, 23, PlaceView::At(52), 270, DARK_GRAY, width - 104),
        None => told,
    }
}

/// The page with the state of the light.
pub open spec fn light_state(page: PageView, width: int, snapshot: BacklightSnapshot) -> PageView {
    let percent = at_most_full(percent_of(snapshot));
    let told = page.text(
        decimal(percent as nat) + "%"@,
        88,
        PlaceView::Middle,
        262,
        BLACK,
    ).text(
        light_status(snapshot.forced_off, percent),
        26,
        PlaceView::Middle,
        310,
        DARK_GRAY,
    ).draw(DrawView::Progress(72, 352, width - 144, 26, Some(percent))).text(
        native_text(snapshot),
        22,
        PlaceView::Middle,
        420,
        DARK_GRAY,
    );
    match snapshot.error {
        Some(error) => told.cut_text(error@, 21, PlaceView::Middle, 456, DARK_GRAY, width - 104),
        None => told,
    }
}

/// The page with a large button.
pub open spec fn large_button(page: PageView, label: Seq<char>, button: ButtonView) -> PageView {
    page.labelled(
        label,
        30,
        PlaceView::Within(button.x, button.width),
        button.y + half_of(button.height) + 11,
        button,
    )
}

/// The brightnesses that one touch sets.
pub open spec fn presets() -> Seq<u8> {
    seq![0u8, 25u8, 50u8, 75u8, 100u8]
}

/// The button that sets a brightness.
pub open spec fn preset_button(width: int, index: int) -> ButtonView {
    let preset_width = quotient(width - 76 - 64, 5);
    ButtonView {
        x: 38 + index * (preset_width + 16),
        y: 678,
        width: preset_width,
        height: 104,
        action: ActionView::SetBacklight(presets()[index]),
    }
}

/// The page with the first of the buttons that set a brightness.
pub open spec fn preset_buttons(page: PageView, width: int, count: int) -> PageView
    decreases count,
{
    if count <= 0 {
        page
    } else {
        large_button(
            preset_buttons(page, width, count - 1),
            decimal(presets()[count - 1] as nat) + "%"@,
            preset_button(width, count - 1),
        )
    }
}

/// The page with the buttons that change the light.
pub open spec fn light_controls(page: PageView, width: int) -> PageView {
    let button_width = half_of(width - 76 - 24);
    let down = large_button(
        page,
        "-5%"@,
        ButtonView {
            x: 38,
            y: 524,
            width: button_width,
            height: 116,
            action: ActionView::AdjustBacklight(-5),
        },
    );
    let up = large_button(
        down,
        "+5%"@,
        ButtonView {
            x: 38 + button_width + 24,
            y: 524,
            width: button_width,
            height: 116,
            action: ActionView::AdjustBacklight(5),
        },
    );
    preset_buttons(up, width, 5)
}

/// The page with the light.
pub open spec fn light_page(screen: Screen, snapshot: Option<BacklightSnapshot>) -> PageView {
    let w = screen.width as int;
    let head = titled(
        PageView::blank(false),
        w,
        "背光"@,
        "阅读灯亮度"@,
        ActionView::BackSettings,
    );
    match snapshot {
        None => head.text("正在读取背光状态"@, 34, PlaceView::At(52), 226, BLACK),
        Some(snapshot) => if !snapshot.supported {
            light_unavailable(head, w, snapshot)
        } else {
            light_controls(light_state(head, w, snapshot), w)
        },
    }
}

/// Draws the complaint that there is no light.
fn render_backlight_unavailable(page: &mut Page, width: i32, snapshot: &BacklightSnapshot)
    requires
        0 <= width <= 0x0100_0000,
    ensures
        final(page)@ == light_unavailable(old(page)@, width as int, *snapshot),
{
    page.text("当前设备未暴露背光控制", 34, Place::At(52), 226, BLACK);
    if let Some(error) = &snapshot.error {
        page.cut_text(error.as_str(), 23, Place::At(52), 270, DARK_GRAY, width - 104);
    }
}

/// Draws the state of the light.
fn render_backlight_status(page: &mut Page, width: i32, snapshot: &BacklightSnapshot)
    requires
        0 <= width <= 0x0100_0000,
    ensures
        final(page)@ == light_state(old(page)@, width as int, *snapshot),
{
    let set: u8 = match snapshot.percent {
        Some(percent) => percent,
        None => 0,
    };
    let percent: u8 = if set > 100 {
        100
    } else {
        set
    };
    let mut number = decimal_text(percent as u64);
    number.append("%");
    page.text(number.as_str(), 88, Place::Middle, 262, BLACK);
    page.text(backlight_status_label(snapshot, percent), 26, Place::Middle, 310, DARK_GRAY);
    page.draw(
        Draw::Progress { x: 72, y: 352, width: width - 144, height: 26, percent: Some(percent) },
    );
    let native = match (snapshot.brightness, snapshot.max_brightness) {
        (Some(brightness), Some(max)) => {
            let mut text = "原生亮度 ".to_owned();
            text.append(decimal_text(brightness as u64).as_str());
            text.append("/");
            text.append(decimal_text(max as u64).as_str());
            text
        },
        _ => "原生亮度未知".to_owned(),
    };
    page.text(native.as_str(), 22, Place::Middle, 420, DARK_GRAY);
    if let Some(error) = &snapshot.error {
        page.cut_text(error.as_str(), 21, Place::Middle, 456, DARK_GRAY, width - 104);
    }
}

/// Draws a large button.
fn large_control_button(page: &mut Page, label: &str, button: Button)
    requires
        0 <= button.y <= 0x0100_0000,
        0 <= button.height <= 0x0100_0000,
    ensures
        final(page)@ == large_button(old(page)@, label@, button@),
{
    let place = Place::Within { x: button.x, width: button.width };
    let baseline: i32 = button.y + button.height / 2 + 11;
    page.labelled(label, 30, place, baseline, button);
}

/// Draws the buttons that change the light.
fn render_backlight_controls(page: &mut Page, width: i32)
    requires
        0 <= width <= 0x0100_0000,
    ensures
        final(page)@ == light_controls(old(page)@, width as int),
{
    let button_width: i32 = half(width - 76 - 24);
    large_control_button(
        page,
        "-5%",
        Button {
            x: 38,
            y: 524,
            width: button_width,
            height: 116,
            action: Action::AdjustBacklight(-5),
        },
    );
    large_control_button(
        page,
        "+5%",
        Button {
            x: 38 + button_width + 24,
            y: 524,
            width: button_width,
            height: 116,
            action: Action::AdjustBacklight(5),
        },
    );
    let ghost above = page@;
    let values: [u8; 5] = [0, 25, 50, 75, 100];
    assert(values@ =~= presets());
    let preset_width: i32 = divide(width - 76 - 64, 5);
    let mut i: usize = 0;
    while i < 5
        invariant
            i <= 5,
            0 <= width <= 0x0100_0000,
            values@ == presets(),
            preset_width == quotient(width - 76 - 64, 5),
            -140 <= preset_width <= 0x0100_0000,
            page@ == preset_buttons(above, width as int, i as int),
            above == large_button(
                large_button(
                    old(page)@,
                    "-5%"@,
                    ButtonView {
                        x: 38,
                        y: 524,
                        width: half_of(width - 76 - 24),
                        height: 116,
                        action: ActionView::AdjustBacklight(-5),
                    },
                ),
                "+5%"@,
                ButtonView {
                    x: 38 + half_of(width - 76 - 24) + 24,
                    y: 524,
                    width: half_of(width - 76 - 24),
                    height: 116,
                    action: ActionView::AdjustBacklight(5),
                },
            ),
        decreases 5 - i,
    {
        let mut label = decimal_text(values[i] as u64);
        label.append("%");
        assert(-5 * 140 <= i * (preset_width + 16) <= 5 * 0x0100_0010) by (nonlinear_arith)
            requires
                0 <= i <= 5,
                -140 <= preset_width <= 0x0100_0000,
        ;
        assert(i as i32 * (preset_width + 16) == i * (preset_width + 16));
        large_control_button(
            page,
            label.as_str(),
            Button {
                x: 38 + i as i32 * (preset_width + 16),
                y: 678,
                width: preset_width,
                height: 104,
                action: Action::SetBacklight(values[i]),
            },
        );
        i = i + 1;
    }
}

/// The page with the light.
pub fn render_backlight_settings(screen: Screen, snapshot: Option<&BacklightSnapshot>) -> (r: Page)
    requires
        screen.usable(),
    ensures
        r@ == light_page(
            screen,
            match snapshot {
                Some(snapshot) => Some(*snapshot),
                None => None,
            },
        ),
{
    let mut page = Page::blank(false);
    add_title(&mut page, screen.width, "背光", "阅读灯亮度", Action::BackSettings);
    match snapshot {
        None => {
            page.text("正在读取背光状态", 34, Place::At(52), 226, BLACK);
        },
        Some(snapshot) => {
            if !snapshot.supported {
                render_backlight_unavailable(&mut page, screen.width, snapshot);
            } else {
                render_backlight_status(&mut page, screen.width, snapshot);
                render_backlight_controls(&mut page, screen.width);
            }
        },
    }
    page
}

/// On a screen that is large enough every button of the settings lies on it,
/// and no two have a point in common.
pub proof fn settings_buttons_are_apart(
    screen: Screen,
    light: Seq<char>,
    idle: Seq<char>,
    wallpaper: Seq<char>,
    fit: Seq<char>,
)
    requires
        screen.width >= 194,
        screen.height >= 1450,
    ensures
        ({
            let buttons = settings_page(screen, light, idle, wallpaper, fit).buttons;
            &&& buttons.len() == 8
            &&& forall|i: int|
                0 <= i < 8 ==> (#[trigger] buttons[i]).lies_on(
                    screen.width as int,
                    screen.height as int,
                )
            &&& forall|i: int, j: int|
                0 <= i < j < 8 ==> (#[trigger] buttons[i]).apart_from(#[trigger] buttons[j])
        }),
{
    let buttons = settings_page(screen, light, idle, wallpaper, fit).buttons;
    assert(buttons.len() == 8);
    assert(buttons[0].y == 38 && buttons[0].height == 72);
    assert(buttons[1].y == 224 && buttons[2].y == 374 && buttons[3].y == 554);
    assert(buttons[4].y == 704 && buttons[5].y == 914 && buttons[6].y == 1064);
    assert(buttons[7].y == screen.height - 260);
}

/// The settings page shows how each setting stands, and leads to it, to the updates, to the
/// system, to a preview of the lock and back.
pub proof fn the_settings_page_shows_the_settings(
    screen: Screen,
    settings: HomeSettings,
    wallpapers: Seq<WallpaperOption>,
)
    ensures
        ({
            let page = shown_settings(screen, settings, wallpapers);
            let options = option_views(wallpapers);
            &&& says(page, light_label(settings.backlight))
            &&& says(page, idle_label(settings.idle_suspend_secs))
            &&& says(page, options[selected_index(options, settings.lock.wallpaper@)].label)
            &&& says(page, settings.lock.fit.name())
            &&& offers(page, ActionView::BackManager)
            &&& offers(page, ActionView::OpenSystemUpdate)
            &&& offers(page, ActionView::System)
            &&& offers(page, ActionView::OpenBacklight)
            &&& offers(page, ActionView::CycleAutoSleep)
            &&& offers(page, ActionView::OpenWallpaperBrowser)
            &&& offers(page, ActionView::ToggleWallpaperFit)
            &&& offers(page, ActionView::PreviewLock)
        }),
{
    let page = shown_settings(screen, settings, wallpapers);
    let options = option_views(wallpapers);
    let buttons = page.buttons;
    assert(buttons[0].action == ActionView::BackManager);
    assert(buttons[1].action == ActionView::OpenSystemUpdate);
    assert(buttons[2].action == ActionView::System);
    assert(buttons[3].action == ActionView::OpenBacklight);
    assert(buttons[4].action == ActionView::CycleAutoSleep);
    assert(buttons[5].action == ActionView::OpenWallpaperBrowser);
    assert(buttons[6].action == ActionView::ToggleWallpaperFit);
    assert(buttons[7].action == ActionView::PreviewLock);
    let draws = page.draws;
    assert(draws[17] is Text && draws[17]->Text_0 == light_label(settings.backlight));
    assert(draws[21] is Text && draws[21]->Text_0 == idle_label(settings.idle_suspend_secs));
    assert(draws[26] is Text && draws[26]->Text_0 == options[selected_index(
        options,
        settings.lock.wallpaper@,
    )].label);
    assert(draws[30] is Text && draws[30]->Text_0 == settings.lock.fit.name());
}

/// The light's line says its brightness in hundredths and whether the lock has turned it off, that
/// there is none, or that it is not known yet.
pub proof fn the_lights_line_says_how_bright_it_is(snapshot: BacklightSnapshot, percent: u8)
    ensures
        light_label(None) == "读取中"@,
        !snapshot.supported ==> light_label(Some(snapshot)) == "不可用"@,
        snapshot.supported && snapshot.percent == Some(percent) && !snapshot.forced_off
            ==> light_label(Some(snapshot)) == decimal(percent as nat) + "%"@,
        snapshot.supported && snapshot.percent == Some(percent) && snapshot.forced_off
            ==> light_label(Some(snapshot)) == decimal(percent as nat) + "% · 锁屏熄灯"@,
{
}

/// The words for the idle time name as many minutes as the seconds make, and say where there is
/// none.
pub proof fn idle_times_have_their_words(seconds: u64)
    ensures
        seconds == 0 ==> idle_label(seconds) == "永不自动休眠"@,
        seconds == 60 * 1 ==> idle_label(seconds) == "无操作 1 分钟"@,
        seconds == 60 * 2 ==> idle_label(seconds) == "无操作 2 分钟"@,
        seconds == 60 * 5 ==> idle_label(seconds) == "无操作 5 分钟"@,
        seconds == 60 * 10 ==> idle_label(seconds) == "无操作 10 分钟"@,
        seconds == 60 * 30 ==> idle_label(seconds) == "无操作 30 分钟"@,
{
}

/// The page of the light shows how bright it is and lets it be set to each quarter and moved by
/// five hundredths either way; a device without a light is told so, and nothing can be set.
pub proof fn the_light_page_sets_the_light(screen: Screen, snapshot: BacklightSnapshot)
    ensures
        snapshot.supported ==> {
            let page = light_page(screen, Some(snapshot));
            let percent = if snapshot.percent is None {
                0u8
            } else if snapshot.percent->0 > 100 {
                100u8
            } else {
                snapshot.percent->0
            };
            &&& says(page, decimal(percent as nat) + "%"@)
            &&& offers(page, ActionView::AdjustBacklight(-5))
            &&& offers(page, ActionView::AdjustBacklight(5))
            &&& offers(page, ActionView::SetBacklight(0))
            &&& offers(page, ActionView::SetBacklight(25))
            &&& offers(page, ActionView::SetBacklight(50))
            &&& offers(page, ActionView::SetBacklight(75))
            &&& offers(page, ActionView::SetBacklight(100))
            &&& offers(page, ActionView::BackSettings)
        },
        !snapshot.supported ==> {
            let page = light_page(screen, Some(snapshot));
            &&& offers(page, ActionView::BackSettings)
            &&& page.buttons.len() == 1
            &&& snapshot.error is Some ==> says(page, snapshot.error->0@)
        },
        offers(light_page(screen, None), ActionView::BackSettings),
        light_page(screen, None).buttons.len() == 1,
{
    let w = screen.width as int;
    let head = titled(
        PageView::blank(false),
        w,
        "背光"@,
        "阅读灯亮度"@,
        ActionView::BackSettings,
    );
    assert(head.buttons[0].action == ActionView::BackSettings);
    assert(light_page(screen, None).buttons[0].action == ActionView::BackSettings);
    let page = light_page(screen, Some(snapshot));
    if snapshot.supported {
        reveal_with_fuel(preset_buttons, 6);
        let state = light_state(head, w, snapshot);
        assert(state.draws[5] is Text);
        assert(page.buttons[0].action == ActionView::BackSettings);
        assert(page.buttons[1].action == ActionView::AdjustBacklight(-5));
        assert(page.buttons[2].action == ActionView::AdjustBacklight(5));
        assert(page.buttons[3].action == ActionView::SetBacklight(0));
        assert(page.buttons[4].action == ActionView::SetBacklight(25));
        assert(page.buttons[5].action == ActionView::SetBacklight(50));
        assert(page.buttons[6].action == ActionView::SetBacklight(75));
        assert(page.buttons[7].action == ActionView::SetBacklight(100));
        let n = head.draws.len() as int;
        assert(page.draws[n] == state.draws[n]);
        assert(page.draws[n] is Text);
    } else {
        assert(page.buttons[0].action == ActionView::BackSettings);
        if snapshot.error is Some {
            let n = head.draws.len() as int;
            assert(page.draws[n + 1] is Text && page.draws[n + 1]->Text_0 == snapshot.error->0@);
        }
    }
}

/// The buttons that set the light stand side by side between the margins of the page, equally wide
/// and with the same distance between each two, and fill the room as far as whole columns go.
pub proof fn light_buttons_fill_the_row(width: int, i: int)
    requires
        145 <= width,
        0 <= i < 5,
    ensures
        ({
            let button = preset_button(width, i);
            &&& preset_button(width, 0).x == 38
            &&& i > 0 ==> button.x == preset_button(width, i - 1).x + preset_button(width, i - 1).width
                + 16
            &&& button.width == preset_button(width, 0).width
            &&& button.width >= 1
            &&& preset_button(width, 4).x + preset_button(width, 4).width <= width - 38
            &&& preset_button(width, 4).x + preset_button(width, 4).width + 5 > width - 38
            &&& button.action == ActionView::SetBacklight((25 * i) as u8)
        }),
{
    let w = quotient(width - 76 - 64, 5);
    assert(w == (width - 140) / 5);
    assert(i * (w + 16) == (i - 1) * (w + 16) + (w + 16)) by (nonlinear_arith);
}

} // verus!
