//! What the home surface does: which steps follow a touch, an event or the
//! outcome of an earlier step, in every mode.
use vstd::prelude::*;
use crate::backlight::BacklightSnapshot;
use crate::home::settings::{find_wallpaper, HomeSettings, WallpaperFit, WallpaperOption};
use crate::home::settings::{
    option_views, position_of, positions_are_first_occurrences, selected_index,
};
use crate::home::store::{CatalogApp, OperationProgress, StoreOperation, SystemUpdateInfo, TaskResult};
use crate::home::store::{ProgressView, SYSTEM_TARGET};
use crate::home::view::{Action, AppView, UiMode};
use crate::home::view::ActionView;
use crate::manifest::AppId;
use crate::state::DomainState;

verus! {

/// How often the lock page looks whether it is still locked, in milliseconds.
pub const LOCK_POLL_MS: u64 = 300;

/// How long the surface waits for a finger otherwise, in milliseconds.
pub const INPUT_WAIT_MS: u64 = 500;

/// How often it is looked whether an application has closed.
pub const CLOSE_POLLS: usize = 10;

/// Where the surface returns to after the cover was closed.
#[derive(Debug, PartialEq, Eq)]
pub enum ResumeTarget {
    Ui(UiMode),
    App(AppId),
}

/// Where the surface returns to, over texts.
pub enum ResumeView {
    Ui(UiMode),
    App(Seq<char>),
}

impl View for ResumeTarget {
    type V = ResumeView;

    open spec fn view(&self) -> ResumeView {
        match self {
            ResumeTarget::Ui(mode) => ResumeView::Ui(*mode),
            ResumeTarget::App(app_id) => ResumeView::App(app_id@),
        }
    }
}

/// Why an application is opened or the surface is left, which decides what
/// follows where that fails.
#[derive(Clone, Copy, Debug, PartialEq, Eq, Structural)]
pub enum Origin {
    Welcome,
    Manager,
    Settings,
    Store,
    Resume,
}

/// One step that the surface takes.
#[derive(Debug, PartialEq, Eq)]
pub enum Op {
    /// Notes that the user has been greeted.
    CompleteFirstRun,
    /// Asks for the applications.
    RefreshApps,
    /// Asks the store for its catalog. Whether a failure is not reported.
    LoadCatalog { quiet: bool },
    /// Looks for wallpapers. Whether the page of the chosen one is turned up.
    ListWallpapers { focus: bool },
    PrepareThumbnails,
    RefreshPower,
    RefreshBacklight,
    SetBacklight(u8),
    SetIdleSuspend(u64),
    SaveSettings,
    /// Draws the page of a mode and enters it.
    Show(UiMode),
    /// Waits a moment.
    Pause,
    CheckSystemUpdate,
    Launch { app_id: AppId, origin: Origin },
    /// Closes an application and waits until it is gone.
    Close(AppId),
    ReturnSystem(Origin),
    /// Has the device sleep. Whether that is because of the cover.
    Sleep { cover: bool },
    /// Has the device unlock, and opens an application afterwards.
    Wake { launch: Option<AppId> },
    /// Looks which mode the platform is in.
    Reconcile,
    StartStore { operation: StoreOperation, app_id: String },
    StartSystemInstall,
}

/// One step over texts.
pub enum OpView {
    CompleteFirstRun,
    RefreshApps,
    LoadCatalog(bool),
    ListWallpapers(bool),
    PrepareThumbnails,
    RefreshPower,
    RefreshBacklight,
    SetBacklight(u8),
    SetIdleSuspend(u64),
    SaveSettings,
    Show(UiMode),
    Pause,
    CheckSystemUpdate,
    Launch(Seq<char>, Origin),
    Close(Seq<char>),
    ReturnSystem(Origin),
    Sleep(bool),
    Wake(Option<Seq<char>>),
    Reconcile,
    StartStore(StoreOperation, Seq<char>),
    StartSystemInstall,
}

/// The text of an id that may be missing.
pub open spec fn id_view(id: Option<AppId>) -> Option<Seq<char>> {
    match id {
        Some(id) => Some(id@),
        None => None,
    }
}

impl View for Op {
    type V = OpView;

    open spec fn view(&self) -> OpView {
        match self {
            Op::CompleteFirstRun => OpView::CompleteFirstRun,
            Op::RefreshApps => OpView::RefreshApps,
            Op::LoadCatalog { quiet } => OpView::LoadCatalog(*quiet),
            Op::ListWallpapers { focus } => OpView::ListWallpapers(*focus),
            Op::PrepareThumbnails => OpView::PrepareThumbnails,
            Op::RefreshPower => OpView::RefreshPower,
            Op::RefreshBacklight => OpView::RefreshBacklight,
            Op::SetBacklight(percent) => OpView::SetBacklight(*percent),
            Op::SetIdleSuspend(seconds) => OpView::SetIdleSuspend(*seconds),
            Op::SaveSettings => OpView::SaveSettings,
            Op::Show(mode) => OpView::Show(*mode),
            Op::Pause => OpView::Pause,
            Op::CheckSystemUpdate => OpView::CheckSystemUpdate,
            Op::Launch { app_id, origin } => OpView::Launch(app_id@, *origin),
            Op::Close(app_id) => OpView::Close(app_id@),
            Op::ReturnSystem(origin) => OpView::ReturnSystem(*origin),
            Op::Sleep { cover } => OpView::Sleep(*cover),
            Op::Wake { launch } => OpView::Wake(id_view(*launch)),
            Op::Reconcile => OpView::Reconcile,
            Op::StartStore { operation, app_id } => OpView::StartStore(*operation, app_id@),
            Op::StartSystemInstall => OpView::StartSystemInstall,
        }
    }
}

/// The views of a list of steps.
pub open spec fn op_views(ops: Seq<Op>) -> Seq<OpView> {
    ops.map_values(|op: Op| op@)
}

/// No steps.
fn no_ops() -> (r: Vec<Op>)
    ensures
        op_views(r@) == Seq::<OpView>::empty(),
{
    let ops: Vec<Op> = Vec::new();
    assert(op_views(ops@) =~= Seq::<OpView>::empty());
    ops
}

/// One more step.
fn add_op(ops: &mut Vec<Op>, op: Op)
    ensures
        op_views(final(ops)@) == op_views(old(ops)@).push(op@),
{
    let ghost before = op_views(ops@);
    ops.push(op);
    assert(op_views(ops@) =~= before.push(op@));
}

/// One step.
fn one(a: Op) -> (r: Vec<Op>)
    ensures
        op_views(r@) == seq![a@],
{
    let mut ops = no_ops();
    add_op(&mut ops, a);
    assert(op_views(ops@) =~= seq![a@]);
    ops
}

/// Two steps.
fn two(a: Op, b: Op) -> (r: Vec<Op>)
    ensures
        op_views(r@) == seq![a@, b@],
{
    let mut ops = one(a);
    add_op(&mut ops, b);
    assert(op_views(ops@) =~= seq![a@, b@]);
    ops
}

/// Three steps.
fn three(a: Op, b: Op, c: Op) -> (r: Vec<Op>)
    ensures
        op_views(r@) == seq![a@, b@, c@],
{
    let mut ops = two(a, b);
    add_op(&mut ops, c);
    assert(op_views(ops@) =~= seq![a@, b@, c@]);
    ops
}

/// Four steps.
fn four(a: Op, b: Op, c: Op, d: Op) -> (r: Vec<Op>)
    ensures
        op_views(r@) == seq![a@, b@, c@, d@],
{
    let mut ops = three(a, b, c);
    add_op(&mut ops, d);
    assert(op_views(ops@) =~= seq![a@, b@, c@, d@]);
    ops
}

/// What the surface knows.
#[derive(Debug)]
pub struct HomeState {
    pub mode: UiMode,
    pub settings: HomeSettings,
    pub wallpapers: Vec<WallpaperOption>,
    pub wallpaper_page: usize,
    pub apps: Vec<AppView>,
    pub store_error: Option<String>,
    pub store_catalog: Vec<CatalogApp>,
    pub store_progress: Option<OperationProgress>,
    pub system_update_error: Option<String>,
    pub system_update: SystemUpdateInfo,
    pub system_update_progress: Option<OperationProgress>,
    pub resume_target: Option<ResumeTarget>,
    /// The cover was closed while something was in progress.
    pub deferred_cover_sleep: bool,
}

/// What the surface knows, over texts.
pub struct HomeView {
    pub mode: UiMode,
    pub wallpaper: Seq<char>,
    pub fit: WallpaperFit,
    pub show_clock: bool,
    pub show_hint: bool,
    pub idle: u64,
    pub light: Option<BacklightSnapshot>,
    pub wallpapers: Seq<WallpaperOption>,
    pub page: int,
    pub apps: Seq<AppView>,
    pub catalog: Seq<CatalogApp>,
    pub store_error: Option<Seq<char>>,
    pub store_progress: Option<ProgressView>,
    pub update: SystemUpdateInfo,
    pub update_error: Option<Seq<char>>,
    pub update_progress: Option<ProgressView>,
    pub resume: Option<ResumeView>,
    pub deferred: bool,
}

/// A text that may be missing.
pub open spec fn text_view(text: Option<String>) -> Option<Seq<char>> {
    match text {
        Some(text) => Some(text@),
        None => None,
    }
}

/// An operation that may be in progress.
pub open spec fn operation_view(progress: Option<OperationProgress>) -> Option<ProgressView> {
    match progress {
        Some(progress) => Some(progress@),
        None => None,
    }
}

/// Where the surface returns to, where it returns somewhere.
pub open spec fn resume_view(target: Option<ResumeTarget>) -> Option<ResumeView> {
    match target {
        Some(target) => Some(target@),
        None => None,
    }
}

impl View for HomeState {
    type V = HomeView;

    open spec fn view(&self) -> HomeView {
        HomeView {
            mode: self.mode,
            wallpaper: self.settings.lock.wallpaper@,
            fit: self.settings.lock.fit,
            show_clock: self.settings.lock.show_clock,
            show_hint: self.settings.lock.show_hint,
            idle: self.settings.idle_suspend_secs,
            light: self.settings.backlight,
            wallpapers: self.wallpapers@,
            page: self.wallpaper_page as int,
            apps: self.apps@,
            catalog: self.store_catalog@,
            store_error: text_view(self.store_error),
            store_progress: operation_view(self.store_progress),
            update: self.system_update,
            update_error: text_view(self.system_update_error),
            update_progress: operation_view(self.system_update_progress),
            resume: resume_view(self.resume_target),
            deferred: self.deferred_cover_sleep,
        }
    }
}

/// The times after which the device may sleep by itself, in the order in which
/// they are offered. Zero is never.
pub open spec fn idle_options() -> Seq<u64> {
    seq![60u64, 120u64, 300u64, 600u64, 1_800u64, 0u64]
}

/// The time after one in a round.
pub open spec fn idle_after(current: u64) -> u64 {
    if current == 60 {
        120
    } else if current == 120 {
        300
    } else if current == 300 {
        600
    } else if current == 600 {
        1_800
    } else if current == 1_800 {
        0
    } else {
        60
    }
}

/// The time after one in a round.
pub fn next_idle_suspend(current: u64) -> (r: u64)
    ensures
        r == idle_after(current),
        idle_options().contains(r),
{
    assert(idle_options()[0] == 60);
    assert(idle_options()[1] == 120);
    assert(idle_options()[2] == 300);
    assert(idle_options()[3] == 600);
    assert(idle_options()[4] == 1_800);
    assert(idle_options()[5] == 0);
    match current {
        60 => 120,
        120 => 300,
        300 => 600,
        600 => 1_800,
        1_800 => 0,
        _ => 60,
    }
}

/// A brightness in hundredths after a change.
pub open spec fn adjusted(current: int, delta: int) -> int {
    if current + delta < 0 {
        0
    } else if current + delta > 100 {
        100
    } else {
        current + delta
    }
}

/// The brightness that is set; zero where it is not known.
pub open spec fn set_percent(light: Option<BacklightSnapshot>) -> int {
    match light {
        Some(snapshot) => match snapshot.percent {
            Some(percent) => percent as int,
            None => 0,
        },
        None => 0,
    }
}

/// A page after so many pages were turned.
pub open spec fn turned(page: int, delta: int) -> int {
    if page + delta < 0 {
        0
    } else if page + delta > usize::MAX {
        usize::MAX as int
    } else {
        page + delta
    }
}

/// What the surface says while an operation of the store runs.
pub open spec fn operation_label(operation: StoreOperation) -> Seq<char> {
    match operation {
        StoreOperation::Install => "正在下载、验证并安装"@,
        StoreOperation::Upgrade => "正在下载、验证并安装更新"@,
        StoreOperation::Uninstall => "正在卸载"@,
    }
}

/// Something is in progress that sleep would interrupt.
pub open spec fn maintaining(home: HomeView) -> bool {
    home.store_progress is Some || home.update_progress is Some
}

/// The start of an operation of the store. One that runs is not disturbed.
pub open spec fn store_started(home: HomeView, operation: StoreOperation, app_id: Seq<char>) -> (
    HomeView,
    Seq<OpView>,
) {
    if home.store_progress is Some {
        (home, Seq::empty())
    } else {
        (
            HomeView {
                store_error: None,
                store_progress: Some(
                    ProgressView {
                        target_id: app_id,
                        label: operation_label(operation),
                        percent: None,
                    },
                ),
                ..home
            },
            seq![OpView::Show(UiMode::Store), OpView::StartStore(operation, app_id)],
        )
    }
}

/// The check for a system update.
pub open spec fn update_check(home: HomeView) -> (HomeView, Seq<OpView>) {
    (
        HomeView {
            update_error: None,
            update_progress: Some(
                ProgressView {
                    target_id: SYSTEM_TARGET@,
                    label: "正在检查更新"@,
                    percent: None,
                },
            ),
            ..home
        },
        seq![
            OpView::Show(UiMode::SystemUpdate),
            OpView::CheckSystemUpdate,
            OpView::Show(UiMode::SystemUpdate),
        ],
    )
}

/// The start of a system update. One that runs is not disturbed.
pub open spec fn update_started(home: HomeView) -> (HomeView, Seq<OpView>) {
    if home.update_progress is Some {
        (home, Seq::empty())
    } else {
        (
            HomeView {
                update_error: None,
                update_progress: Some(
                    ProgressView {
                        target_id: SYSTEM_TARGET@,
                        label: "正在下载、验证并安装系统更新"@,
                        percent: None,
                    },
                ),
                ..home
            },
            seq![OpView::Show(UiMode::SystemUpdate), OpView::StartSystemInstall],
        )
    }
}

/// What follows a touch on the page with the applications.
pub open spec fn manager_ops(action: ActionView) -> Seq<OpView> {
    let again = seq![OpView::RefreshApps, OpView::Show(UiMode::Manager)];
    match action {
        ActionView::OpenStore => seq![
            OpView::RefreshApps,
            OpView::LoadCatalog(false),
            OpView::Show(UiMode::Store),
        ],
        ActionView::OpenSettings => seq![
            OpView::ListWallpapers(false),
            OpView::RefreshPower,
            OpView::RefreshBacklight,
            OpView::Show(UiMode::Settings),
        ],
        ActionView::Sleep => seq![OpView::Show(UiMode::Locked), OpView::Sleep(false)],
        ActionView::Launch(app_id) => seq![
            OpView::Launch(app_id, Origin::Manager),
            OpView::Pause,
            OpView::RefreshApps,
            OpView::Show(UiMode::Manager),
        ],
        ActionView::Close(app_id) => seq![
            OpView::Close(app_id),
            OpView::RefreshApps,
            OpView::Show(UiMode::Manager),
        ],
        ActionView::System => seq![
            OpView::ReturnSystem(Origin::Manager),
            OpView::Pause,
            OpView::RefreshApps,
            OpView::Show(UiMode::Manager),
        ],
        _ => seq![OpView::Pause, OpView::RefreshApps, OpView::Show(UiMode::Manager)],
    }
}

/// What follows a touch: what the surface then knows, and the steps it takes.
pub open spec fn touched(home: HomeView, action: ActionView) -> (HomeView, Seq<OpView>) {
    let nothing = (home, Seq::<OpView>::empty());
    match home.mode {
        UiMode::Welcome => match action {
            ActionView::OpenStore => (
                home,
                seq![
                    OpView::CompleteFirstRun,
                    OpView::RefreshApps,
                    OpView::LoadCatalog(true),
                    OpView::Show(UiMode::Store),
                ],
            ),
            ActionView::System => (
                home,
                seq![OpView::CompleteFirstRun, OpView::ReturnSystem(Origin::Welcome)],
            ),
            _ => nothing,
        },
        UiMode::Manager => (home, manager_ops(action)),
        UiMode::Store => match action {
            ActionView::BackManager => (
                home,
                seq![OpView::RefreshApps, OpView::Show(UiMode::Manager)],
            ),
            ActionView::StoreInstall(app_id) => store_started(
                home,
                StoreOperation::Install,
                app_id,
            ),
            ActionView::StoreUpgrade(app_id) => store_started(
                home,
                StoreOperation::Upgrade,
                app_id,
            ),
            ActionView::StoreUninstall(app_id) => store_started(
                home,
                StoreOperation::Uninstall,
                app_id,
            ),
            ActionView::Launch(app_id) => (
                home,
                seq![
                    OpView::Launch(app_id, Origin::Store),
                    OpView::RefreshApps,
                    OpView::Show(UiMode::Store),
                ],
            ),
            _ => nothing,
        },
        UiMode::SystemUpdate => match action {
            ActionView::BackSettings => (home, seq![OpView::Show(UiMode::Settings)]),
            ActionView::RefreshSystemUpdate => update_check(home),
            ActionView::SystemUpdate => update_started(home),
            _ => nothing,
        },
        UiMode::Settings => match action {
            ActionView::OpenSystemUpdate => update_check(home),
            ActionView::OpenWallpaperBrowser => (
                home,
                seq![
                    OpView::ListWallpapers(true),
                    OpView::PrepareThumbnails,
                    OpView::Show(UiMode::WallpaperBrowser),
                ],
            ),
            ActionView::BackManager => (
                home,
                seq![OpView::RefreshApps, OpView::Show(UiMode::Manager)],
            ),
            ActionView::ToggleWallpaperFit => (
                HomeView { fit: home.fit.other(), ..home },
                seq![OpView::SaveSettings, OpView::Show(UiMode::Settings)],
            ),
            ActionView::OpenBacklight => (
                home,
                seq![OpView::RefreshBacklight, OpView::Show(UiMode::Backlight)],
            ),
            ActionView::CycleAutoSleep => (
                home,
                seq![
                    OpView::SetIdleSuspend(idle_after(home.idle)),
                    OpView::Show(UiMode::Settings),
                ],
            ),
            ActionView::System => (home, seq![OpView::ReturnSystem(Origin::Settings)]),
            ActionView::PreviewLock => (home, seq![OpView::Show(UiMode::LockPreview)]),
            _ => nothing,
        },
        UiMode::LockPreview => match action {
            ActionView::BackSettings => (home, seq![OpView::Show(UiMode::Settings)]),
            _ => nothing,
        },
        UiMode::Backlight => match action {
            ActionView::BackSettings => (home, seq![OpView::Show(UiMode::Settings)]),
            ActionView::SetBacklight(percent) => (
                home,
                seq![OpView::SetBacklight(percent), OpView::Show(UiMode::Backlight)],
            ),
            ActionView::AdjustBacklight(delta) => (
                home,
                seq![
                    OpView::SetBacklight(adjusted(set_percent(home.light), delta) as u8),
                    OpView::Show(UiMode::Backlight),
                ],
            ),
            _ => nothing,
        },
        UiMode::WallpaperBrowser => match action {
            ActionView::BackSettings => (home, seq![OpView::Show(UiMode::Settings)]),
            ActionView::SelectWallpaper(id) => if position_of(
                option_views(home.wallpapers),
                id,
            ) is Some {
                (
                    HomeView { wallpaper: id, ..home },
                    seq![OpView::SaveSettings, OpView::Show(UiMode::WallpaperBrowser)],
                )
            } else {
                (home, seq![OpView::Show(UiMode::WallpaperBrowser)])
            },
            ActionView::WallpaperPage(delta) => (
                HomeView { page: turned(home.page, delta), ..home },
                seq![OpView::Show(UiMode::WallpaperBrowser)],
            ),
            ActionView::ToggleWallpaperFit => (
                HomeView { fit: home.fit.other(), ..home },
                seq![OpView::SaveSettings, OpView::Show(UiMode::WallpaperBrowser)],
            ),
            _ => nothing,
        },
        UiMode::Locked => match action {
            ActionView::Wake => (home, unlocking()),
            _ => nothing,
        },
    }
}

/// The steps that unlock: the page behind the lock is drawn first, so that it
/// is what the unlocked device shows.
pub open spec fn unlocking() -> Seq<OpView> {
    seq![OpView::RefreshApps, OpView::Show(UiMode::Manager), OpView::Wake(None)]
}

/// The steps that return to where the surface was, and the application that is
/// opened afterwards.
pub open spec fn resuming(target: ResumeView) -> Seq<OpView> {
    match target {
        ResumeView::App(app_id) => seq![
            OpView::RefreshApps,
            OpView::Show(UiMode::Manager),
            OpView::Wake(Some(app_id)),
        ],
        ResumeView::Ui(UiMode::Welcome) => seq![
            OpView::Show(UiMode::Welcome),
            OpView::Wake(None),
        ],
        ResumeView::Ui(UiMode::Manager) => unlocking(),
        ResumeView::Ui(UiMode::Locked) => unlocking(),
        ResumeView::Ui(UiMode::Settings) => seq![
            OpView::Show(UiMode::Settings),
            OpView::Wake(None),
        ],
        ResumeView::Ui(UiMode::LockPreview) => seq![
            OpView::Show(UiMode::Settings),
            OpView::Wake(None),
        ],
        ResumeView::Ui(UiMode::Backlight) => seq![
            OpView::RefreshBacklight,
            OpView::Show(UiMode::Backlight),
            OpView::Wake(None),
        ],
        ResumeView::Ui(UiMode::WallpaperBrowser) => seq![
            OpView::Show(UiMode::WallpaperBrowser),
            OpView::Wake(None),
        ],
        ResumeView::Ui(UiMode::Store) => seq![
            OpView::RefreshApps,
            OpView::LoadCatalog(false),
            OpView::Show(UiMode::Store),
            OpView::Wake(None),
        ],
        ResumeView::Ui(UiMode::SystemUpdate) => seq![
            OpView::Show(UiMode::SystemUpdate),
            OpView::Wake(None),
        ],
    }
}

/// The steps of an unlock.
fn unlock() -> (r: Vec<Op>)
    ensures
        op_views(r@) == unlocking(),
{
    three(Op::RefreshApps, Op::Show(UiMode::Manager), Op::Wake { launch: None })
}

/// The steps that return to where the surface was. Without a place it returns
/// to the page with the applications.
pub fn render_resume_target(target: Option<ResumeTarget>) -> (r: Vec<Op>)
    ensures
        op_views(r@) == resuming(
            match target {
                Some(target) => target@,
                None => ResumeView::Ui(UiMode::Manager),
            },
        ),
{
    let target = match target {
        Some(target) => target,
        None => ResumeTarget::Ui(UiMode::Manager),
    };
    match target {
        ResumeTarget::App(app_id) => three(
            Op::RefreshApps,
            Op::Show(UiMode::Manager),
            Op::Wake { launch: Some(app_id) },
        ),
        ResumeTarget::Ui(UiMode::Welcome) => two(
            Op::Show(UiMode::Welcome),
            Op::Wake { launch: None },
        ),
        ResumeTarget::Ui(UiMode::Manager) => unlock(),
        ResumeTarget::Ui(UiMode::Locked) => unlock(),
        ResumeTarget::Ui(UiMode::Settings) => two(
            Op::Show(UiMode::Settings),
            Op::Wake { launch: None },
        ),
        ResumeTarget::Ui(UiMode::LockPreview) => two(
            Op::Show(UiMode::Settings),
            Op::Wake { launch: None },
        ),
        ResumeTarget::Ui(UiMode::Backlight) => three(
            Op::RefreshBacklight,
            Op::Show(UiMode::Backlight),
            Op::Wake { launch: None },
        ),
        ResumeTarget::Ui(UiMode::WallpaperBrowser) => two(
            Op::Show(UiMode::WallpaperBrowser),
            Op::Wake { launch: None },
        ),
        ResumeTarget::Ui(UiMode::Store) => four(
            Op::RefreshApps,
            Op::LoadCatalog { quiet: false },
            Op::Show(UiMode::Store),
            Op::Wake { launch: None },
        ),
        ResumeTarget::Ui(UiMode::SystemUpdate) => two(
            Op::Show(UiMode::SystemUpdate),
            Op::Wake { launch: None },
        ),
    }
}

/// The mode in which the surface starts.
pub fn initial_mode(domain: &DomainState) -> (r: UiMode)
    ensures
        r == (if *domain is Sleeping {
            UiMode::Locked
        } else {
            UiMode::Manager
        }),
{
    match domain {
        DomainState::Sleeping => UiMode::Locked,
        _ => UiMode::Manager,
    }
}

/// Whether an unlock took place although its answer was lost: the platform
/// says so.
pub fn unlock_committed_after_lost_ack(domain: Option<&DomainState>) -> (r: bool)
    ensures
        r == (domain is Some && *domain->0 is Manager),
{
    match domain {
        Some(DomainState::Manager) => true,
        _ => false,
    }
}

/// Whether a device that did not sleep stays locked: the platform sleeps.
pub fn retain_lock_after_failed_sleep(domain: Option<&DomainState>) -> (r: bool)
    ensures
        r == (domain is Some && *domain->0 is Sleeping),
{
    match domain {
        Some(DomainState::Sleeping) => true,
        _ => false,
    }
}

/// Whether the lock page looks again whether it is still locked.
pub fn polls_lock(mode: UiMode, since_ms: u64) -> (r: bool)
    ensures
        r == (mode == UiMode::Locked && since_ms >= LOCK_POLL_MS),
{
    mode == UiMode::Locked && since_ms >= LOCK_POLL_MS
}

/// How long the surface waits for a finger, in milliseconds: at least one.
pub fn input_wait_ms(mode: UiMode, since_ms: u64) -> (r: u64)
    ensures
        r == (if mode != UiMode::Locked {
            INPUT_WAIT_MS as int
        } else if since_ms >= LOCK_POLL_MS {
            1
        } else {
            LOCK_POLL_MS - since_ms
        }),
        r >= 1,
{
    if mode != UiMode::Locked {
        INPUT_WAIT_MS
    } else if since_ms >= LOCK_POLL_MS {
        1
    } else {
        LOCK_POLL_MS - since_ms
    }
}

/// The steps that bring the surface in line with the platform.
pub open spec fn reconciling(mode: UiMode, domain: Option<DomainState>) -> Seq<OpView> {
    match domain {
        Some(DomainState::Sleeping) => if mode != UiMode::Locked {
            seq![OpView::Show(UiMode::Locked)]
        } else {
            Seq::empty()
        },
        Some(DomainState::Manager) => if mode != UiMode::Manager {
            seq![OpView::RefreshApps, OpView::Show(UiMode::Manager)]
        } else {
            Seq::empty()
        },
        _ => Seq::empty(),
    }
}

/// What the platform says of itself, by value.
pub open spec fn domain_of(domain: Option<&DomainState>) -> Option<DomainState> {
    match domain {
        Some(domain) => Some(*domain),
        None => None,
    }
}

/// The steps that bring the surface in line with the platform.
pub fn reconcile_mode(mode: UiMode, domain: Option<&DomainState>) -> (r: Vec<Op>)
    ensures
        op_views(r@) == reconciling(mode, domain_of(domain)),
{
    match domain {
        Some(DomainState::Sleeping) => if mode != UiMode::Locked {
            one(Op::Show(UiMode::Locked))
        } else {
            no_ops()
        },
        Some(DomainState::Manager) => if mode != UiMode::Manager {
            two(Op::RefreshApps, Op::Show(UiMode::Manager))
        } else {
            no_ops()
        },
        _ => no_ops(),
    }
}

impl HomeState {
    /// Whether something is in progress that sleep would interrupt.
    pub fn maintenance_active(&self) -> (r: bool)
        ensures
            r == maintaining(self@),
    {
        self.store_progress.is_some() || self.system_update_progress.is_some()
    }

    /// Starts an operation of the store.
    fn start_store(&mut self, operation: StoreOperation, app_id: &str) -> (r: Vec<Op>)
        ensures
            (final(self)@, op_views(r@)) == store_started(old(self)@, operation, app_id@),
    {
        if self.store_progress.is_some() {
            return no_ops();
        }
        self.store_error = None;
        let label = match operation {
            StoreOperation::Install => "正在下载、验证并安装",
            StoreOperation::Upgrade => "正在下载、验证并安装更新",
            StoreOperation::Uninstall => "正在卸载",
        };
        self.store_progress = Some(OperationProgress::indeterminate(app_id, label));
        two(
            Op::Show(UiMode::Store),
            Op::StartStore { operation, app_id: app_id.to_owned() },
        )
    }

    /// Checks for a system update.
    fn check_update(&mut self) -> (r: Vec<Op>)
        ensures
            (final(self)@, op_views(r@)) == update_check(old(self)@),
    {
        self.system_update_error = None;
        self.system_update_progress = Some(
            OperationProgress::indeterminate(SYSTEM_TARGET, "正在检查更新"),
        );
        three(
            Op::Show(UiMode::SystemUpdate),
            Op::CheckSystemUpdate,
            Op::Show(UiMode::SystemUpdate),
        )
    }

    /// Starts a system update.
    fn start_update(&mut self) -> (r: Vec<Op>)
        ensures
            (final(self)@, op_views(r@)) == update_started(old(self)@),
    {
        if self.system_update_progress.is_some() {
            return no_ops();
        }
        self.system_update_error = None;
        self.system_update_progress = Some(
            OperationProgress::indeterminate(SYSTEM_TARGET, "正在下载、验证并安装系统更新"),
        );
        two(Op::Show(UiMode::SystemUpdate), Op::StartSystemInstall)
    }

    /// Follows a touch on the page with the applications.
    fn handle_manager(&self, action: &Action) -> (r: Vec<Op>)
        ensures
            op_views(r@) == manager_ops(action@),
    {
        match action {
            Action::OpenStore => three(
                Op::RefreshApps,
                Op::LoadCatalog { quiet: false },
                Op::Show(UiMode::Store),
            ),
            Action::OpenSettings => four(
                Op::ListWallpapers { focus: false },
                Op::RefreshPower,
                Op::RefreshBacklight,
                Op::Show(UiMode::Settings),
            ),
            Action::Sleep => two(Op::Show(UiMode::Locked), Op::Sleep { cover: false }),
            Action::Launch(app_id) => four(
                Op::Launch { app_id: app_id.clone(), origin: Origin::Manager },
                Op::Pause,
                Op::RefreshApps,
                Op::Show(UiMode::Manager),
            ),
            Action::Close(app_id) => three(
                Op::Close(app_id.clone()),
                Op::RefreshApps,
                Op::Show(UiMode::Manager),
            ),
            Action::System => four(
                Op::ReturnSystem(Origin::Manager),
                Op::Pause,
                Op::RefreshApps,
                Op::Show(UiMode::Manager),
            ),
            _ => three(Op::Pause, Op::RefreshApps, Op::Show(UiMode::Manager)),
        }
    }

    /// Follows a touch on the page of the store.
    fn handle_store(&mut self, action: &Action) -> (r: Vec<Op>)
        requires
            old(self).mode == UiMode::Store,
        ensures
            (final(self)@, op_views(r@)) == touched(old(self)@, action@),
    {
        match action {
            Action::BackManager => two(Op::RefreshApps, Op::Show(UiMode::Manager)),
            Action::StoreInstall(app_id) => self.start_store(
                StoreOperation::Install,
                app_id.as_str(),
            ),
            Action::StoreUpgrade(app_id) => self.start_store(
                StoreOperation::Upgrade,
                app_id.as_str(),
            ),
            Action::StoreUninstall(app_id) => self.start_store(
                StoreOperation::Uninstall,
                app_id.as_str(),
            ),
            Action::Launch(app_id) => three(
                Op::Launch { app_id: app_id.clone(), origin: Origin::Store },
                Op::RefreshApps,
                Op::Show(UiMode::Store),
            ),
            _ => no_ops(),
        }
    }

    /// Follows a touch on the page with the settings.
    fn handle_settings(&mut self, action: &Action) -> (r: Vec<Op>)
        requires
            old(self).mode == UiMode::Settings,
        ensures
            (final(self)@, op_views(r@)) == touched(old(self)@, action@),
    {
        match action {
            Action::OpenSystemUpdate => self.check_update(),
            Action::OpenWallpaperBrowser => three(
                Op::ListWallpapers { focus: true },
                Op::PrepareThumbnails,
                Op::Show(UiMode::WallpaperBrowser),
            ),
            Action::BackManager => two(Op::RefreshApps, Op::Show(UiMode::Manager)),
            Action::ToggleWallpaperFit => {
                self.settings.lock.fit.toggle();
                two(Op::SaveSettings, Op::Show(UiMode::Settings))
            },
            Action::OpenBacklight => two(Op::RefreshBacklight, Op::Show(UiMode::Backlight)),
            Action::CycleAutoSleep => two(
                Op::SetIdleSuspend(next_idle_suspend(self.settings.idle_suspend_secs)),
                Op::Show(UiMode::Settings),
            ),
            Action::System => one(Op::ReturnSystem(Origin::Settings)),
            Action::PreviewLock => one(Op::Show(UiMode::LockPreview)),
            _ => no_ops(),
        }
    }

    /// Follows a touch on the page with the light.
    fn handle_backlight(&self, action: &Action) -> (r: Vec<Op>)
        requires
            self.mode == UiMode::Backlight,
        ensures
            (self@, op_views(r@)) == touched(self@, action@),
    {
        match action {
            Action::BackSettings => one(Op::Show(UiMode::Settings)),
            Action::SetBacklight(percent) => two(
                Op::SetBacklight(*percent),
                Op::Show(UiMode::Backlight),
            ),
            Action::AdjustBacklight(delta) => {
                let current: u8 = match &self.settings.backlight {
                    Some(snapshot) => match snapshot.percent {
                        Some(percent) => percent,
                        None => 0,
                    },
                    None => 0,
                };
                let wanted: i16 = current as i16 + *delta as i16;
                let percent: u8 = if wanted < 0 {
                    0
                } else if wanted > 100 {
                    100
                } else {
                    wanted as u8
                };
                two(Op::SetBacklight(percent), Op::Show(UiMode::Backlight))
            },
            _ => no_ops(),
        }
    }

    /// Follows a touch on the page with wallpapers.
    fn handle_wallpapers(&mut self, action: &Action) -> (r: Vec<Op>)
        requires
            old(self).mode == UiMode::WallpaperBrowser,
        ensures
            (final(self)@, op_views(r@)) == touched(old(self)@, action@),
    {
        match action {
            Action::BackSettings => one(Op::Show(UiMode::Settings)),
            Action::SelectWallpaper(id) => {
                if self.settings.select_wallpaper(id.as_str(), self.wallpapers.as_slice()) {
                    two(Op::SaveSettings, Op::Show(UiMode::WallpaperBrowser))
                } else {
                    one(Op::Show(UiMode::WallpaperBrowser))
                }
            },
            Action::WallpaperPage(delta) => {
                let step: i8 = *delta;
                self.wallpaper_page = if step < 0 {
                    let back: usize = (-(step as i16)) as usize;
                    if back > self.wallpaper_page {
                        0
                    } else {
                        self.wallpaper_page - back
                    }
                } else {
                    self.wallpaper_page.saturating_add(step as usize)
                };
                one(Op::Show(UiMode::WallpaperBrowser))
            },
            Action::ToggleWallpaperFit => {
                self.settings.lock.fit.toggle();
                two(Op::SaveSettings, Op::Show(UiMode::WallpaperBrowser))
            },
            _ => no_ops(),
        }
    }

    /// Follows a touch.
    pub fn handle(&mut self, action: &Action) -> (r: Vec<Op>)
        ensures
            (final(self)@, op_views(r@)) == touched(old(self)@, action@),
    {
        match self.mode {
            UiMode::Welcome => match action {
                Action::OpenStore => four(
                    Op::CompleteFirstRun,
                    Op::RefreshApps,
                    Op::LoadCatalog { quiet: true },
                    Op::Show(UiMode::Store),
                ),
                Action::System => two(
                    Op::CompleteFirstRun,
                    Op::ReturnSystem(Origin::Welcome),
                ),
                _ => no_ops(),
            },
            UiMode::Manager => self.handle_manager(action),
            UiMode::Store => self.handle_store(action),
            UiMode::SystemUpdate => match action {
                Action::BackSettings => one(Op::Show(UiMode::Settings)),
                Action::RefreshSystemUpdate => self.check_update(),
                Action::SystemUpdate => self.start_update(),
                _ => no_ops(),
            },
            UiMode::Settings => self.handle_settings(action),
            UiMode::LockPreview => match action {
                Action::BackSettings => one(Op::Show(UiMode::Settings)),
                _ => no_ops(),
            },
            UiMode::Backlight => self.handle_backlight(action),
            UiMode::WallpaperBrowser => self.handle_wallpapers(action),
            UiMode::Locked => match action {
                Action::Wake => unlock(),
                _ => no_ops(),
            },
        }
    }

    /// Notes that a page was drawn and is the one that is seen.
    pub fn shown(&mut self, mode: UiMode)
        ensures
            final(self)@ == (HomeView { mode, ..old(self)@ }),
    {
        self.mode = mode;
    }

    /// Notes which page of wallpapers was drawn.
    pub fn page_shown(&mut self, page: usize)
        ensures
            final(self)@ == (HomeView { page: page as int, ..old(self)@ }),
    {
        self.wallpaper_page = page;
    }

    /// Notes the applications. Where they could not be read the last ones
    /// stay, across a moment without the platform.
    pub fn apps_refreshed(&mut self, latest: Option<Vec<AppView>>)
        ensures
            final(self)@ == (match latest {
                Some(apps) => HomeView { apps: apps@, ..old(self)@ },
                None => old(self)@,
            }),
    {
        match latest {
            Some(apps) => {
                self.apps = apps;
            },
            None => {},
        }
    }

    /// Notes the catalog of the store, or why there is none.
    pub fn catalog_loaded(&mut self, result: Result<Vec<CatalogApp>, String>, quiet: bool)
        ensures
            final(self)@ == (match result {
                Ok(catalog) => HomeView { catalog: catalog@, ..old(self)@ },
                Err(error) => if quiet {
                    old(self)@
                } else {
                    HomeView { store_error: Some(error@), ..old(self)@ }
                },
            }),
    {
        match result {
            Ok(catalog) => {
                self.store_catalog = catalog;
            },
            Err(error) => {
                if !quiet {
                    self.store_error = Some(error);
                }
            },
        }
    }

    /// Notes the wallpapers, and turns up the page of the chosen one.
    pub fn wallpapers_listed(&mut self, options: Vec<WallpaperOption>, focus: bool)
        ensures
            final(self)@ == (HomeView {
                wallpapers: options@,
                page: if focus {
                    selected_index(option_views(options@), old(self)@.wallpaper) / 8
                } else {
                    old(self)@.page
                },
                ..old(self)@
            }),
    {
        if focus {
            let selected: usize = match find_wallpaper(
                options.as_slice(),
                self.settings.lock.wallpaper.as_str(),
            ) {
                Some(i) => i,
                None => 0,
            };
            self.wallpaper_page = selected / 8;
        }
        self.wallpapers = options;
    }

    /// Notes after which time the device sleeps by itself, where that is
    /// known.
    pub fn power_read(&mut self, idle_suspend_secs: Option<u64>)
        ensures
            final(self)@ == (match idle_suspend_secs {
                Some(idle) => HomeView { idle, ..old(self)@ },
                None => old(self)@,
            }),
    {
        match idle_suspend_secs {
            Some(idle) => {
                self.settings.idle_suspend_secs = idle;
            },
            None => {},
        }
    }

    /// Notes the state of the light, or that there is none.
    pub fn light_read(&mut self, result: Result<BacklightSnapshot, String>)
        ensures
            ({
                let light = final(self)@.light;
                &&& final(self)@ == (HomeView { light, ..old(self)@ })
                &&& match result {
                    Ok(snapshot) => light == Some(snapshot),
                    Err(error) => light is Some && light->0.is_unsupported(error@),
                }
            }),
    {
        match result {
            Ok(snapshot) => {
                self.settings.backlight = Some(snapshot);
            },
            Err(error) => {
                self.settings.backlight = Some(BacklightSnapshot::unsupported(error.as_str()));
            },
        }
    }

    /// Notes that the light could not be set, once its state was read again.
    pub fn light_not_set(&mut self, error: String)
        ensures
            final(self)@ == (match old(self)@.light {
                Some(snapshot) => HomeView {
                    light: Some(BacklightSnapshot { error: Some(error), ..snapshot }),
                    ..old(self)@
                },
                None => old(self)@,
            }),
    {
        let snapshot = self.settings.backlight.take();
        match snapshot {
            Some(snapshot) => {
                let mut snapshot = snapshot;
                snapshot.error = Some(error);
                self.settings.backlight = Some(snapshot);
            },
            None => {},
        }
    }

    /// Notes what a check for a system update found.
    pub fn update_checked(&mut self, result: Result<SystemUpdateInfo, String>)
        ensures
            final(self)@ == (match result {
                Ok(update) => HomeView { update, update_progress: None, ..old(self)@ },
                Err(error) => HomeView {
                    update_error: Some(error@),
                    update_progress: None,
                    ..old(self)@
                },
            }),
    {
        match result {
            Ok(update) => {
                self.system_update = update;
            },
            Err(error) => {
                self.system_update_error = Some(error);
            },
        }
        self.system_update_progress = None;
    }

    /// Follows a failure to open an application.
    pub fn launch_failed(&mut self, origin: Origin, error: String) -> (r: Vec<Op>)
        ensures
            final(self)@ == (if origin == Origin::Store {
                HomeView { store_error: Some(error@), ..old(self)@ }
            } else {
                old(self)@
            }),
            op_views(r@) == (if origin == Origin::Resume {
                seq![OpView::RefreshApps, OpView::Show(UiMode::Manager)]
            } else {
                Seq::empty()
            }),
    {
        match origin {
            Origin::Store => {
                self.store_error = Some(error);
                no_ops()
            },
            Origin::Resume => two(Op::RefreshApps, Op::Show(UiMode::Manager)),
            _ => no_ops(),
        }
    }

    /// Follows a failure to return to the system.
    pub fn system_failed(&self, origin: Origin) -> (r: Vec<Op>)
        ensures
            op_views(r@) == (if origin == Origin::Welcome {
                seq![OpView::Show(UiMode::Manager)]
            } else {
                Seq::empty()
            }),
    {
        match origin {
            Origin::Welcome => one(Op::Show(UiMode::Manager)),
            _ => no_ops(),
        }
    }

    /// Follows the answer to a request to sleep. It comes once the device is
    /// awake again, and the power button is what unlocks. Where the device did
    /// not sleep, the platform says whether it stays locked.
    pub fn slept(&mut self, cover: bool, ok: bool, domain: Option<&DomainState>) -> (r: Vec<Op>)
        ensures
            final(self)@ == (if ok && cover {
                HomeView { resume: None, ..old(self)@ }
            } else {
                old(self)@
            }),
            op_views(r@) == (if ok && cover {
                resuming(
                    match old(self)@.resume {
                        Some(target) => target,
                        None => ResumeView::Ui(UiMode::Manager),
                    },
                )
            } else if ok {
                unlocking()
            } else if domain is Some && *domain->0 is Sleeping {
                Seq::empty()
            } else {
                seq![OpView::Reconcile]
            }),
    {
        if ok {
            if cover {
                let target = self.resume_target.take();
                return render_resume_target(target);
            }
            return unlock();
        }
        if retain_lock_after_failed_sleep(domain) {
            no_ops()
        } else {
            one(Op::Reconcile)
        }
    }

    /// Follows the answer to a request to unlock. Where it was refused the
    /// device is locked, unless the platform says that the answer was lost.
    pub fn woken(&self, ok: bool, domain: Option<&DomainState>, launch: Option<AppId>) -> (r: Vec<Op>)
        ensures
            op_views(r@) == (if ok {
                match id_view(launch) {
                    Some(app_id) => seq![OpView::Launch(app_id, Origin::Resume)],
                    None => Seq::empty(),
                }
            } else if domain is Some && *domain->0 is Manager {
                Seq::empty()
            } else {
                seq![OpView::Show(UiMode::Locked)]
            }),
    {
        if ok {
            return match launch {
                Some(app_id) => one(Op::Launch { app_id, origin: Origin::Resume }),
                None => no_ops(),
            };
        }
        if unlock_committed_after_lost_ack(domain) {
            no_ops()
        } else {
            one(Op::Show(UiMode::Locked))
        }
    }

    /// Follows a closed cover. The lock page is drawn before the device may
    /// sleep, and sleep waits for what is in progress.
    pub fn cover_sleep(&mut self, target: ResumeTarget) -> (r: Vec<Op>)
        ensures
            final(self)@ == (HomeView {
                resume: Some(target@),
                deferred: maintaining(old(self)@),
                ..old(self)@
            }),
            op_views(r@) == cover_ops(old(self)@),
    {
        self.resume_target = Some(target);
        let busy = self.maintenance_active();
        self.deferred_cover_sleep = busy;
        let mut ops = no_ops();
        if self.mode != UiMode::Locked {
            add_op(&mut ops, Op::Show(UiMode::Locked));
        }
        if !busy {
            add_op(&mut ops, Op::Sleep { cover: true });
        }
        assert(op_views(ops@) =~= cover_ops(old(self)@));
        ops
    }

    /// Follows the end of an operation. Sleep that waited for it is asked for
    /// now.
    pub fn handle_task_result(&mut self, result: TaskResult) -> (r: Vec<Op>)
        ensures
            (final(self)@, op_views(r@)) == task_ended(old(self)@, result),
    {
        let mut ops = match result {
            TaskResult::Store { result, .. } => {
                self.store_progress = None;
                match result {
                    Ok(_) => {},
                    Err(error) => {
                        self.store_error = Some(error);
                    },
                }
                if self.mode == UiMode::Store {
                    three(
                        Op::LoadCatalog { quiet: false },
                        Op::RefreshApps,
                        Op::Show(UiMode::Store),
                    )
                } else {
                    one(Op::RefreshApps)
                }
            },
            TaskResult::SystemInstall { result } => {
                match result {
                    Ok(_) => {
                        self.system_update_error = None;
                        self.system_update_progress = Some(
                            OperationProgress::complete(
                                SYSTEM_TARGET,
                                "系统更新已开始，请保持设备连接",
                            ),
                        );
                    },
                    Err(error) => {
                        self.system_update_error = Some(error);
                        self.system_update_progress = None;
                    },
                }
                if self.mode == UiMode::SystemUpdate {
                    one(Op::Show(UiMode::SystemUpdate))
                } else {
                    no_ops()
                }
            },
        };
        assert((self@, op_views(ops@)) == task_noted(old(self)@, result));
        if self.deferred_cover_sleep && !self.maintenance_active() && self.mode == UiMode::Locked {
            self.deferred_cover_sleep = false;
            add_op(&mut ops, Op::Sleep { cover: true });
        }
        ops
    }

    /// Follows a change of the wallpapers.
    pub fn wallpapers_changed(&self) -> (r: Vec<Op>)
        ensures
            op_views(r@) == (if self.mode == UiMode::WallpaperBrowser {
                seq![OpView::ListWallpapers(false), OpView::Show(UiMode::WallpaperBrowser)]
            } else {
                Seq::empty()
            }),
    {
        if self.mode == UiMode::WallpaperBrowser {
            two(Op::ListWallpapers { focus: false }, Op::Show(UiMode::WallpaperBrowser))
        } else {
            no_ops()
        }
    }
}

/// The steps that follow a closed cover.
pub open spec fn cover_ops(home: HomeView) -> Seq<OpView> {
    let lock = if home.mode != UiMode::Locked {
        seq![OpView::Show(UiMode::Locked)]
    } else {
        Seq::empty()
    };
    if maintaining(home) {
        lock
    } else {
        lock.push(OpView::Sleep(true))
    }
}

/// What the surface knows after an operation, and the steps that show it.
pub open spec fn task_noted(home: HomeView, result: TaskResult) -> (HomeView, Seq<OpView>) {
    match result {
        TaskResult::Store { result, .. } => (
            HomeView {
                store_progress: None,
                store_error: match result {
                    Ok(_) => home.store_error,
                    Err(error) => Some(error@),
                },
                ..home
            },
            if home.mode == UiMode::Store {
                seq![
                    OpView::LoadCatalog(false),
                    OpView::RefreshApps,
                    OpView::Show(UiMode::Store),
                ]
            } else {
                seq![OpView::RefreshApps]
            },
        ),
        TaskResult::SystemInstall { result } => (
            match result {
                Ok(_) => HomeView {
                    update_error: None,
                    update_progress: Some(
                        ProgressView {
                            target_id: SYSTEM_TARGET@,
                            label: "系统更新已开始，请保持设备连接"@,
                            percent: Some(100),
                        },
                    ),
                    ..home
                },
                Err(error) => HomeView {
                    update_error: Some(error@),
                    update_progress: None,
                    ..home
                },
            },
            if home.mode == UiMode::SystemUpdate {
                seq![OpView::Show(UiMode::SystemUpdate)]
            } else {
                Seq::empty()
            },
        ),
    }
}

/// What follows the end of an operation.
pub open spec fn task_ended(home: HomeView, result: TaskResult) -> (HomeView, Seq<OpView>) {
    let (noted, ops) = task_noted(home, result);
    if noted.deferred && !maintaining(noted) && noted.mode == UiMode::Locked {
        (HomeView { deferred: false, ..noted }, ops.push(OpView::Sleep(true)))
    } else {
        (noted, ops)
    }
}

/// A locked surface stays locked: no touch changes anything but one that
/// unlocks, and that one waits for the platform.
pub proof fn locked_surfaces_stay_locked(home: HomeView, action: ActionView)
    requires
        home.mode == UiMode::Locked,
    ensures
        touched(home, action).0 == home,
        touched(home, action).1.len() > 0 ==> action == ActionView::Wake && touched(
            home,
            action,
        ).1.last() == OpView::Wake(None),
{
}

/// A touch never asks the device to sleep before the lock page was drawn.
pub proof fn lock_pixels_come_before_sleep(home: HomeView, action: ActionView, i: int)
    requires
        0 <= i < touched(home, action).1.len(),
        touched(home, action).1[i] is Sleep,
    ensures
        i > 0 && touched(home, action).1[i - 1] == OpView::Show(UiMode::Locked),
{
}

/// A closed cover never asks the device to sleep before the lock page was
/// drawn, unless it is seen already, nor while an operation runs.
pub proof fn cover_draws_the_lock_before_sleep(home: HomeView, i: int)
    requires
        0 <= i < cover_ops(home).len(),
        cover_ops(home)[i] is Sleep,
    ensures
        home.mode == UiMode::Locked || i > 0 && cover_ops(home)[i - 1] == OpView::Show(
            UiMode::Locked,
        ),
        !maintaining(home),
{
}

/// The device is never asked to unlock before a page behind the lock was
/// drawn.
pub proof fn pages_are_drawn_before_unlocking(target: ResumeView)
    ensures
        ({
            let ops = resuming(target);
            let n = ops.len() as int;
            &&& n >= 2
            &&& ops[n - 1] is Wake
            &&& ops[n - 2] is Show
            &&& ops[n - 2] != OpView::Show(UiMode::Locked)
        }),
{
}

/// One operation of the store runs at a time: while it does, no touch starts
/// another, and one that asks for another changes nothing.
pub proof fn one_store_operation_at_a_time(home: HomeView, action: ActionView)
    requires
        home.store_progress is Some,
    ensures
        forall|i: int|
            0 <= i < touched(home, action).1.len() ==> !(#[trigger] touched(
                home,
                action,
            ).1[i] is StartStore),
        home.mode == UiMode::Store && (action is StoreInstall || action is StoreUpgrade
            || action is StoreUninstall) ==> touched(home, action) == (home, Seq::<OpView>::empty()),
{
}

/// The brightness that a touch asks for is one in hundredths.
pub proof fn adjusted_brightness_is_a_percentage(current: int, delta: int)
    ensures
        0 <= adjusted(current, delta) <= 100,
{
}

/// Going through the times after which the device sleeps comes back to where
/// it began, after each of them was offered.
pub proof fn idle_times_form_a_round(current: u64)
    requires
        idle_options().contains(current),
    ensures
        idle_after(
            idle_after(idle_after(idle_after(idle_after(idle_after(current))))),
        ) == current,
        forall|other: u64|
            idle_options().contains(other) ==> {
                let second = idle_after(current);
                let third = idle_after(second);
                let fourth = idle_after(third);
                let fifth = idle_after(fourth);
                ||| other == current
                ||| other == second
                ||| other == third
                ||| other == fourth
                ||| other == fifth
                ||| other == idle_after(fifth)
            },
{
    let options = idle_options();
    let i = choose|i: int| 0 <= i < options.len() && options[i] == current;
    assert(options.len() == 6);
    assert(options[0] == 60 && options[1] == 120 && options[2] == 300);
    assert(options[3] == 600 && options[4] == 1_800 && options[5] == 0);
}

/// Sleep that waited for an operation is asked for at most once.
pub proof fn deferred_sleep_is_asked_for_once(home: HomeView, first: TaskResult, second: TaskResult)
    requires
        task_ended(home, first).1.len() > 0,
        task_ended(home, first).1.last() is Sleep,
    ensures
        ({
            let (after, ops) = task_ended(task_ended(home, first).0, second);
            forall|i: int| 0 <= i < ops.len() ==> !(#[trigger] ops[i] is Sleep)
        }),
{
}

/// Among the steps is this one.
pub open spec fn includes(ops: Seq<OpView>, op: OpView) -> bool {
    exists|i: int| 0 <= i < ops.len() && #[trigger] ops[i] == op
}

/// The steps end with the page of a mode.
pub open spec fn ends_on(ops: Seq<OpView>, mode: UiMode) -> bool {
    ops.len() > 0 && ops.last() == OpView::Show(mode)
}

/// From the first page one gets to the store, which then has its catalog, or to the system, and
/// either way the greeting is over.
pub proof fn the_welcome_page_leads_on(home: HomeView)
    requires
        home.mode == UiMode::Welcome,
    ensures
        ends_on(touched(home, ActionView::OpenStore).1, UiMode::Store),
        includes(touched(home, ActionView::OpenStore).1, OpView::CompleteFirstRun),
        includes(touched(home, ActionView::OpenStore).1, OpView::RefreshApps),
        includes(touched(home, ActionView::OpenStore).1, OpView::LoadCatalog(true)),
        includes(touched(home, ActionView::System).1, OpView::CompleteFirstRun),
        touched(home, ActionView::System).1.last() == OpView::ReturnSystem(Origin::Welcome),
{
    let store = touched(home, ActionView::OpenStore).1;
    assert(store[0] == OpView::CompleteFirstRun);
    assert(store[1] == OpView::RefreshApps);
    assert(store[2] == OpView::LoadCatalog(true));
    assert(touched(home, ActionView::System).1[0] == OpView::CompleteFirstRun);
}

/// The task page opens the store and the settings with what they show, launches and closes the
/// application that was touched, returns to the system, and comes back with the applications as
/// they are then.
pub proof fn the_task_page_does_what_its_buttons_say(home: HomeView, app_id: Seq<char>)
    requires
        home.mode == UiMode::Manager,
    ensures
        ends_on(touched(home, ActionView::OpenStore).1, UiMode::Store),
        includes(touched(home, ActionView::OpenStore).1, OpView::RefreshApps),
        includes(touched(home, ActionView::OpenStore).1, OpView::LoadCatalog(false)),
        ends_on(touched(home, ActionView::OpenSettings).1, UiMode::Settings),
        includes(touched(home, ActionView::OpenSettings).1, OpView::ListWallpapers(false)),
        includes(touched(home, ActionView::OpenSettings).1, OpView::RefreshPower),
        includes(touched(home, ActionView::OpenSettings).1, OpView::RefreshBacklight),
        touched(home, ActionView::Launch(app_id)).1[0] == OpView::Launch(app_id, Origin::Manager),
        ends_on(touched(home, ActionView::Launch(app_id)).1, UiMode::Manager),
        includes(touched(home, ActionView::Launch(app_id)).1, OpView::RefreshApps),
        touched(home, ActionView::Close(app_id)).1[0] == OpView::Close(app_id),
        ends_on(touched(home, ActionView::Close(app_id)).1, UiMode::Manager),
        includes(touched(home, ActionView::Close(app_id)).1, OpView::RefreshApps),
        touched(home, ActionView::System).1[0] == OpView::ReturnSystem(Origin::Manager),
        ends_on(touched(home, ActionView::System).1, UiMode::Manager),
        touched(home, ActionView::Sleep).1.last() == OpView::Sleep(false),
        forall|action: ActionView| #[trigger] touched(home, action).0 == home,
{
    let store = touched(home, ActionView::OpenStore).1;
    assert(store[0] == OpView::RefreshApps);
    assert(store[1] == OpView::LoadCatalog(false));
    let settings = touched(home, ActionView::OpenSettings).1;
    assert(settings[0] == OpView::ListWallpapers(false));
    assert(settings[1] == OpView::RefreshPower);
    assert(settings[2] == OpView::RefreshBacklight);
    assert(touched(home, ActionView::Launch(app_id)).1[2] == OpView::RefreshApps);
    assert(touched(home, ActionView::Close(app_id)).1[1] == OpView::RefreshApps);
}

/// An operation of the store is started for the application that was touched, unless one is under
/// way; it takes away the last error and shows that it is in progress.
pub proof fn store_operations_are_started(home: HomeView, app_id: Seq<char>)
    requires
        home.mode == UiMode::Store,
        home.store_progress is None,
    ensures
        touched(home, ActionView::StoreInstall(app_id)).1.last() == OpView::StartStore(
            StoreOperation::Install,
            app_id,
        ),
        touched(home, ActionView::StoreUpgrade(app_id)).1.last() == OpView::StartStore(
            StoreOperation::Upgrade,
            app_id,
        ),
        touched(home, ActionView::StoreUninstall(app_id)).1.last() == OpView::StartStore(
            StoreOperation::Uninstall,
            app_id,
        ),
        forall|action: ActionView|
            action == ActionView::StoreInstall(app_id) || action == ActionView::StoreUpgrade(app_id)
                || action == ActionView::StoreUninstall(app_id) ==> {
                let next = (#[trigger] touched(home, action)).0;
                &&& next.store_error is None
                &&& next.store_progress is Some
                &&& next.store_progress->0.target_id == app_id
                &&& next.store_progress->0.percent is None
                &&& includes(touched(home, action).1, OpView::Show(UiMode::Store))
                &&& next == (HomeView {
                    store_error: next.store_error,
                    store_progress: next.store_progress,
                    ..home
                })
            },
{
    assert forall|action: ActionView|
        action == ActionView::StoreInstall(app_id) || action == ActionView::StoreUpgrade(app_id)
            || action == ActionView::StoreUninstall(app_id) implies includes(
        (#[trigger] touched(home, action)).1,
        OpView::Show(UiMode::Store),
    ) by {
        assert(touched(home, action).1[0] == OpView::Show(UiMode::Store));
    }
}

/// An application is launched, closed, installed, upgraded or removed only where that very thing
/// was touched, and the device sleeps or wakes only where that was.
pub proof fn nothing_happens_unasked(home: HomeView, action: ActionView, i: int)
    requires
        0 <= i < touched(home, action).1.len(),
    ensures
        match touched(home, action).1[i] {
            OpView::Launch(app_id, _) => action == ActionView::Launch(app_id),
            OpView::Close(app_id) => action == ActionView::Close(app_id),
            OpView::StartStore(StoreOperation::Install, app_id) => action
                == ActionView::StoreInstall(app_id),
            OpView::StartStore(StoreOperation::Upgrade, app_id) => action
                == ActionView::StoreUpgrade(app_id),
            OpView::StartStore(StoreOperation::Uninstall, app_id) => action
                == ActionView::StoreUninstall(app_id),
            OpView::StartSystemInstall => action == ActionView::SystemUpdate,
            OpView::ReturnSystem(_) => action == ActionView::System,
            OpView::Sleep(_) => action == ActionView::Sleep,
            OpView::Wake(_) => action == ActionView::Wake,
            OpView::SetBacklight(percent) => action == ActionView::SetBacklight(percent)
                || action is AdjustBacklight,
            OpView::SetIdleSuspend(_) => action == ActionView::CycleAutoSleep,
            OpView::CompleteFirstRun => home.mode == UiMode::Welcome,
            _ => true,
        },
{
}

/// Whatever is touched, the page does not change before it is drawn, and the applications, the
/// catalog, the wallpapers and what was found of updates stay as they are known.
pub proof fn touches_keep_what_is_known(home: HomeView, action: ActionView)
    ensures
        ({
            let next = touched(home, action).0;
            &&& next.mode == home.mode
            &&& next.apps == home.apps
            &&& next.catalog == home.catalog
            &&& next.wallpapers == home.wallpapers
            &&& next.update == home.update
            &&& next.light == home.light
            &&& next.idle == home.idle
            &&& next.show_clock == home.show_clock
            &&& next.show_hint == home.show_hint
            &&& next.resume == home.resume
            &&& next.deferred == home.deferred
        }),
{
}

/// The way back leads from the store and the settings to the task page, and from the pages of a
/// setting to the settings.
pub proof fn the_way_back_leads_up(home: HomeView)
    ensures
        home.mode == UiMode::Store || home.mode == UiMode::Settings ==> ends_on(
            touched(home, ActionView::BackManager).1,
            UiMode::Manager,
        ) && includes(touched(home, ActionView::BackManager).1, OpView::RefreshApps),
        home.mode == UiMode::LockPreview || home.mode == UiMode::Backlight || home.mode
            == UiMode::WallpaperBrowser || home.mode == UiMode::SystemUpdate ==> ends_on(
            touched(home, ActionView::BackSettings).1,
            UiMode::Settings,
        ),
        touched(home, ActionView::BackManager).0 == home,
        touched(home, ActionView::BackSettings).0 == home,
{
    if home.mode == UiMode::Store || home.mode == UiMode::Settings {
        assert(touched(home, ActionView::BackManager).1[0] == OpView::RefreshApps);
    }
}

/// The settings lead to the pages of each setting, with what those show.
pub proof fn the_settings_lead_to_their_pages(home: HomeView)
    requires
        home.mode == UiMode::Settings,
    ensures
        ends_on(touched(home, ActionView::OpenBacklight).1, UiMode::Backlight),
        includes(touched(home, ActionView::OpenBacklight).1, OpView::RefreshBacklight),
        ends_on(touched(home, ActionView::OpenWallpaperBrowser).1, UiMode::WallpaperBrowser),
        includes(touched(home, ActionView::OpenWallpaperBrowser).1, OpView::ListWallpapers(true)),
        includes(touched(home, ActionView::OpenWallpaperBrowser).1, OpView::PrepareThumbnails),
        ends_on(touched(home, ActionView::OpenSystemUpdate).1, UiMode::SystemUpdate),
        includes(touched(home, ActionView::OpenSystemUpdate).1, OpView::CheckSystemUpdate),
        ends_on(touched(home, ActionView::PreviewLock).1, UiMode::LockPreview),
        includes(touched(home, ActionView::System).1, OpView::ReturnSystem(Origin::Settings)),
{
    assert(touched(home, ActionView::OpenBacklight).1[0] == OpView::RefreshBacklight);
    assert(touched(home, ActionView::OpenWallpaperBrowser).1[0] == OpView::ListWallpapers(true));
    assert(touched(home, ActionView::OpenWallpaperBrowser).1[1] == OpView::PrepareThumbnails);
    assert(touched(home, ActionView::OpenSystemUpdate).1[1] == OpView::CheckSystemUpdate);
    assert(touched(home, ActionView::System).1[0] == OpView::ReturnSystem(Origin::Settings));
}

/// The layout of the wallpaper switches between its two forms and is saved; touched twice, it is
/// what it was.
pub proof fn the_layout_switches_back_and_forth(home: HomeView)
    requires
        home.mode == UiMode::Settings || home.mode == UiMode::WallpaperBrowser,
    ensures
        ({
            let (next, ops) = touched(home, ActionView::ToggleWallpaperFit);
            &&& next.fit != home.fit
            &&& touched(next, ActionView::ToggleWallpaperFit).0 == home
            &&& includes(ops, OpView::SaveSettings)
            &&& ends_on(ops, home.mode)
            &&& next == (HomeView { fit: next.fit, ..home })
        }),
{
    assert(touched(home, ActionView::ToggleWallpaperFit).1[0] == OpView::SaveSettings);
}

/// A wallpaper that is among the known ones becomes the chosen one and is saved; any other changes
/// nothing.
pub proof fn known_wallpapers_can_be_chosen(home: HomeView, id: Seq<char>)
    requires
        home.mode == UiMode::WallpaperBrowser,
    ensures
        ({
            let (next, ops) = touched(home, ActionView::SelectWallpaper(id));
            let known = exists|i: int|
                0 <= i < home.wallpapers.len() && (#[trigger] home.wallpapers[i]).id@ == id;
            &&& ends_on(ops, UiMode::WallpaperBrowser)
            &&& known ==> next == (HomeView { wallpaper: id, ..home }) && includes(
                ops,
                OpView::SaveSettings,
            )
            &&& !known ==> next == home && !includes(ops, OpView::SaveSettings)
        }),
{
    let views = option_views(home.wallpapers);
    let ops = touched(home, ActionView::SelectWallpaper(id)).1;
    positions_are_first_occurrences(views, id);
    assert(views.len() == home.wallpapers.len());
    if position_of(views, id) is Some {
        let i = position_of(views, id)->0;
        assert(views[i] == home.wallpapers[i]@);
        assert(ops[0] == OpView::SaveSettings);
    } else {
        assert forall|i: int| 0 <= i < home.wallpapers.len() implies (
        #[trigger] home.wallpapers[i]).id@ != id by {
            assert(views[i] == home.wallpapers[i]@);
        }
    }
}

/// Turning pages moves by as many as were asked for, and not before the first one.
pub proof fn pages_turn_by_as_many(home: HomeView, delta: int)
    requires
        home.mode == UiMode::WallpaperBrowser,
        0 <= home.page,
        home.page + delta <= usize::MAX,
    ensures
        ({
            let (next, ops) = touched(home, ActionView::WallpaperPage(delta));
            &&& home.page + delta >= 0 ==> next.page == home.page + delta
            &&& home.page + delta < 0 ==> next.page == 0
            &&& next == (HomeView { page: next.page, ..home })
            &&& ends_on(ops, UiMode::WallpaperBrowser)
        }),
{
}

/// The brightness is set to what was touched, or moved by as much as was touched within its range.
pub proof fn the_brightness_is_set_as_touched(home: HomeView, percent: u8, delta: int)
    requires
        home.mode == UiMode::Backlight,
    ensures
        touched(home, ActionView::SetBacklight(percent)).1[0] == OpView::SetBacklight(percent),
        ends_on(touched(home, ActionView::SetBacklight(percent)).1, UiMode::Backlight),
        ends_on(touched(home, ActionView::AdjustBacklight(delta)).1, UiMode::Backlight),
        home.light is Some && home.light->0.percent is Some ==> {
            let now = home.light->0.percent->0 as int;
            let set = touched(home, ActionView::AdjustBacklight(delta)).1[0];
            &&& set is SetBacklight
            &&& 0 <= now + delta <= 100 ==> set->SetBacklight_0 == now + delta
            &&& now + delta < 0 ==> set->SetBacklight_0 == 0
            &&& now + delta > 100 ==> set->SetBacklight_0 == 100
        },
{
}

/// The time before the device sleeps by itself is changed to the next one that is offered: one,
/// two, five, ten and thirty minutes, and then never.
pub proof fn the_idle_time_moves_on(home: HomeView)
    requires
        home.mode == UiMode::Settings,
    ensures
        ({
            let ops = touched(home, ActionView::CycleAutoSleep).1;
            &&& ends_on(ops, UiMode::Settings)
            &&& home.idle == 60 ==> includes(ops, OpView::SetIdleSuspend(120))
            &&& home.idle == 120 ==> includes(ops, OpView::SetIdleSuspend(300))
            &&& home.idle == 300 ==> includes(ops, OpView::SetIdleSuspend(600))
            &&& home.idle == 600 ==> includes(ops, OpView::SetIdleSuspend(1800))
            &&& home.idle == 1800 ==> includes(ops, OpView::SetIdleSuspend(0))
            &&& home.idle == 0 ==> includes(ops, OpView::SetIdleSuspend(60))
        }),
{
    assert(touched(home, ActionView::CycleAutoSleep).1[0] == OpView::SetIdleSuspend(
        idle_after(home.idle),
    ));
}

/// Updates of the system can be looked for and, where none is under way, installed; either takes
/// away the last error and shows that it is in progress.
pub proof fn system_updates_are_started(home: HomeView)
    requires
        home.mode == UiMode::SystemUpdate,
    ensures
        includes(touched(home, ActionView::RefreshSystemUpdate).1, OpView::CheckSystemUpdate),
        touched(home, ActionView::RefreshSystemUpdate).0.update_error is None,
        touched(home, ActionView::RefreshSystemUpdate).0.update_progress is Some,
        home.update_progress is None ==> touched(home, ActionView::SystemUpdate).1.last()
            == OpView::StartSystemInstall && touched(home, ActionView::SystemUpdate).0.update_error
            is None && touched(home, ActionView::SystemUpdate).0.update_progress is Some,
        home.update_progress is Some ==> touched(home, ActionView::SystemUpdate) == (
            home,
            Seq::<OpView>::empty(),
        ),
{
    assert(touched(home, ActionView::RefreshSystemUpdate).1[1] == OpView::CheckSystemUpdate);
}

/// After sleep the user is back where they were: in the application, or on the page; a lock and a
/// preview of it give way to the task page and the settings.
pub proof fn users_come_back_to_where_they_were(target: ResumeView)
    ensures
        ({
            let ops = resuming(target);
            let n = ops.len() as int;
            match target {
                ResumeView::App(app_id) => ops.last() == OpView::Wake(Some(app_id)),
                ResumeView::Ui(mode) => {
                    &&& ops.last() == OpView::Wake(None)
                    &&& ops[n - 2] == OpView::Show(
                        if mode == UiMode::Locked {
                            UiMode::Manager
                        } else if mode == UiMode::LockPreview {
                            UiMode::Settings
                        } else {
                            mode
                        },
                    )
                },
            }
        }),
{
}

/// The surface follows the platform: it locks where the platform sleeps, shows the task page where
/// the platform is there, and otherwise stays as it is.
pub proof fn the_surface_follows_the_platform(mode: UiMode, domain: Option<DomainState>)
    ensures
        domain is Some && domain->0 is Sleeping && mode != UiMode::Locked ==> ends_on(
            reconciling(mode, domain),
            UiMode::Locked,
        ),
        domain is Some && domain->0 is Manager && mode != UiMode::Manager ==> ends_on(
            reconciling(mode, domain),
            UiMode::Manager,
        ),
        domain is Some && domain->0 is Sleeping && mode == UiMode::Locked ==> reconciling(
            mode,
            domain,
        ).len() == 0,
        domain is Some && domain->0 is Manager && mode == UiMode::Manager ==> reconciling(
            mode,
            domain,
        ).len() == 0,
        domain is None || !(domain->0 is Sleeping || domain->0 is Manager) ==> reconciling(
            mode,
            domain,
        ).len() == 0,
{
}

/// Closing the cover locks the surface and has the device sleep at once, unless something is in
/// progress.
pub proof fn the_cover_sends_the_device_to_sleep(home: HomeView)
    ensures
        home.mode != UiMode::Locked ==> cover_ops(home).len() > 0 && cover_ops(home)[0]
            == OpView::Show(UiMode::Locked),
        home.store_progress is None && home.update_progress is None ==> cover_ops(home).len() > 0
            && cover_ops(home).last() == OpView::Sleep(true),
        home.store_progress is Some || home.update_progress is Some ==> !includes(
            cover_ops(home),
            OpView::Sleep(true),
        ),
{
}

/// A finished store operation is no longer in progress, its error is kept, and the applications
/// are asked for again; in the store the catalog is, too.
pub proof fn finished_store_operations_are_noted(home: HomeView, result: TaskResult)
    requires
        result is Store,
    ensures
        ({
            let (next, ops) = task_ended(home, result);
            &&& next.store_progress is None
            &&& result->Store_result is Err ==> next.store_error == Some(
                result->Store_result->Err_0@,
            )
            &&& result->Store_result is Ok ==> next.store_error == home.store_error
            &&& next.update_progress == home.update_progress
            &&& next.mode == home.mode
            &&& includes(ops, OpView::RefreshApps)
            &&& home.mode == UiMode::Store ==> includes(ops, OpView::LoadCatalog(false)) && ends_on(
                ops,
                UiMode::Store,
            )
        }),
{
    let ops = task_ended(home, result).1;
    if home.mode == UiMode::Store {
        assert(ops[0] == OpView::LoadCatalog(false));
        assert(ops[1] == OpView::RefreshApps);
    } else {
        assert(ops[0] == OpView::RefreshApps);
    }
}

/// An installation of the system that has begun stays in progress; one that failed leaves its
/// error and is over.
pub proof fn finished_system_installations_are_noted(home: HomeView, result: TaskResult)
    requires
        result is SystemInstall,
    ensures
        ({
            let next = task_ended(home, result).0;
            &&& result->SystemInstall_result is Ok ==> next.update_error is None
                && next.update_progress is Some && next.update_progress->0.percent == Some(100u8)
            &&& result->SystemInstall_result is Err ==> next.update_error == Some(
                result->SystemInstall_result->Err_0@,
            ) && next.update_progress is None
            &&& next.store_progress == home.store_progress
            &&& next.store_error == home.store_error
        }),
{
}

/// A sleep that was put off is made up for as soon as nothing is in progress any more, where the
/// surface is still locked; otherwise a finished task sends nothing to sleep.
pub proof fn deferred_sleep_is_made_up_for(home: HomeView, result: TaskResult)
    ensures
        ({
            let (next, ops) = task_ended(home, result);
            let due = home.deferred && home.mode == UiMode::Locked && next.store_progress is None
                && next.update_progress is None;
            &&& due ==> ops.last() == OpView::Sleep(true) && !next.deferred
            &&& !due ==> next.deferred == home.deferred && !includes(ops, OpView::Sleep(true))
        }),
{
}

} // verus!
