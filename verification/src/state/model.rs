//! The model of the manager and of its applications.
use vstd::prelude::*;
use crate::manifest::AppId;
use crate::ordered::OrderedMap;
use crate::ordered::{is_least, least, lemma_least_is, lists_keys};
use crate::text::text_less;
use crate::text::{debug_quoted, decimal_text};
use crate::text::{debug_text, decimal};

verus! {

/// Where the display and the input belong, in one state.
#[derive(Debug, PartialEq, Eq)]
pub enum DomainState {
    System,
    EnteringManaged,
    Manager,
    Launching(AppId),
    Foreground(AppId),
    Parking(AppId),
    RestoringSystem,
    Sleeping,
    Recovering,
}

/// A domain over the texts of application ids.
pub enum DomainView {
    System,
    EnteringManaged,
    Manager,
    Launching(Seq<char>),
    Foreground(Seq<char>),
    Parking(Seq<char>),
    RestoringSystem,
    Sleeping,
    Recovering,
}

impl View for DomainState {
    type V = DomainView;

    open spec fn view(&self) -> DomainView {
        match self {
            DomainState::System => DomainView::System,
            DomainState::EnteringManaged => DomainView::EnteringManaged,
            DomainState::Manager => DomainView::Manager,
            DomainState::Launching(app) => DomainView::Launching(app@),
            DomainState::Foreground(app) => DomainView::Foreground(app@),
            DomainState::Parking(app) => DomainView::Parking(app@),
            DomainState::RestoringSystem => DomainView::RestoringSystem,
            DomainState::Sleeping => DomainView::Sleeping,
            DomainState::Recovering => DomainView::Recovering,
        }
    }
}

impl Clone for DomainState {
    fn clone(&self) -> (r: DomainState)
        ensures
            r == *self,
    {
        match self {
            DomainState::System => DomainState::System,
            DomainState::EnteringManaged => DomainState::EnteringManaged,
            DomainState::Manager => DomainState::Manager,
            DomainState::Launching(app) => DomainState::Launching(app.clone()),
            DomainState::Foreground(app) => DomainState::Foreground(app.clone()),
            DomainState::Parking(app) => DomainState::Parking(app.clone()),
            DomainState::RestoringSystem => DomainState::RestoringSystem,
            DomainState::Sleeping => DomainState::Sleeping,
            DomainState::Recovering => DomainState::Recovering,
        }
    }
}

/// An event that may change the domain.
#[derive(Clone, Debug, PartialEq, Eq)]
pub enum Transition {
    TriplePower,
    SinglePower,
    Launch(AppId),
    AppReady(AppId),
    AppParked(AppId),
    /// A park attempt failed after the application had been asked to enter the
    /// background. The supervisor proved a new foreground epoch/lease and may
    /// therefore return ownership to the same application process.
    AppRestored(AppId),
    AppExited(AppId),
    AppCrashed(AppId),
    ManagedReady,
    SystemReady,
    Sleep,
    Wake,
    Failure,
}

/// A transition over the texts of application ids.
pub enum TransitionView {
    TriplePower,
    SinglePower,
    Launch(Seq<char>),
    AppReady(Seq<char>),
    AppParked(Seq<char>),
    AppRestored(Seq<char>),
    AppExited(Seq<char>),
    AppCrashed(Seq<char>),
    ManagedReady,
    SystemReady,
    Sleep,
    Wake,
    Failure,
}

impl View for Transition {
    type V = TransitionView;

    open spec fn view(&self) -> TransitionView {
        match self {
            Transition::TriplePower => TransitionView::TriplePower,
            Transition::SinglePower => TransitionView::SinglePower,
            Transition::Launch(app) => TransitionView::Launch(app@),
            Transition::AppReady(app) => TransitionView::AppReady(app@),
            Transition::AppParked(app) => TransitionView::AppParked(app@),
            Transition::AppRestored(app) => TransitionView::AppRestored(app@),
            Transition::AppExited(app) => TransitionView::AppExited(app@),
            Transition::AppCrashed(app) => TransitionView::AppCrashed(app@),
            Transition::ManagedReady => TransitionView::ManagedReady,
            Transition::SystemReady => TransitionView::SystemReady,
            Transition::Sleep => TransitionView::Sleep,
            Transition::Wake => TransitionView::Wake,
            Transition::Failure => TransitionView::Failure,
        }
    }
}

/// The text of an id that may be missing.
pub open spec fn id_text(id: Option<AppId>) -> Option<Seq<char>> {
    match id {
        Some(id) => Some(id@),
        None => None,
    }
}

/// A copy of an id that may be missing.
pub fn copy_id(id: &Option<AppId>) -> (r: Option<AppId>)
    ensures
        r == *id,
{
    match id {
        Some(id) => Some(id.clone()),
        None => None,
    }
}

/// Whether an id that may be missing is the given one.
pub fn is_id(id: &Option<AppId>, app_id: &AppId) -> (r: bool)
    ensures
        r == (id_text(*id) == Some(app_id@)),
{
    match id {
        Some(id) => id == app_id,
        None => false,
    }
}

/// The state of the manager with one composite domain.
#[derive(Debug, PartialEq, Eq)]
pub struct ManagerState {
    pub domain: DomainState,
    pub last_app: Option<AppId>,
    pub sequence: u64,
}

/// A manager state over texts.
pub struct ManagerView {
    pub domain: DomainView,
    pub last_app: Option<Seq<char>>,
    pub sequence: u64,
}

impl View for ManagerState {
    type V = ManagerView;

    open spec fn view(&self) -> ManagerView {
        ManagerView {
            domain: self.domain@,
            last_app: id_text(self.last_app),
            sequence: self.sequence,
        }
    }
}

impl Clone for ManagerState {
    fn clone(&self) -> (r: ManagerState)
        ensures
            r == *self,
    {
        ManagerState {
            domain: self.domain.clone(),
            last_app: copy_id(&self.last_app),
            sequence: self.sequence,
        }
    }
}

impl Default for ManagerState {
    fn default() -> (r: ManagerState)
        ensures
            r.domain == DomainState::System,
            r.last_app is None,
            r.sequence == 0,
    {
        ManagerState { domain: DomainState::System, last_app: None, sequence: 0 }
    }
}

/// State of the stock/managed ownership boundary. Application lifecycle is
/// intentionally not encoded in this enum.
#[derive(Clone, Copy, Debug, PartialEq, Eq, Structural)]
pub enum SystemDomainState {
    Stock,
    EnteringManaged,
    Managed,
    LeavingManaged,
    Recovering,
}

impl Default for SystemDomainState {
    fn default() -> (r: SystemDomainState)
        ensures
            r == SystemDomainState::Stock,
    {
        SystemDomainState::Stock
    }
}

/// Where an application process is in its life.
#[derive(Clone, Copy, Debug, PartialEq, Eq, Structural)]
pub enum AppInstanceState {
    Starting,
    Foreground,
    Background,
    Stopping,
    Exited,
    Crashed,
    Unresponsive,
}

impl AppInstanceState {
    /// The process is gone.
    pub open spec fn terminal(self) -> bool {
        self == AppInstanceState::Exited || self == AppInstanceState::Crashed
    }

    /// Whether the process is gone.
    pub fn is_terminal(self) -> (r: bool)
        ensures
            r == self.terminal(),
    {
        self == AppInstanceState::Exited || self == AppInstanceState::Crashed
    }
}

/// Identity fence attached to every lifecycle, display, input, and ink
/// message. Generation prevents an old process from impersonating its
/// replacement; epoch/lease fence stale foreground work from the same process.
#[derive(Debug, PartialEq, Eq)]
pub struct AppToken {
    pub app_id: AppId,
    pub generation: u64,
    pub foreground_epoch: u64,
    pub lease_id: Option<u64>,
}

/// A token over the text of the application id.
pub struct TokenView {
    pub app_id: Seq<char>,
    pub generation: u64,
    pub foreground_epoch: u64,
    pub lease_id: Option<u64>,
}

impl View for AppToken {
    type V = TokenView;

    open spec fn view(&self) -> TokenView {
        TokenView {
            app_id: self.app_id@,
            generation: self.generation,
            foreground_epoch: self.foreground_epoch,
            lease_id: self.lease_id,
        }
    }
}

impl Clone for AppToken {
    fn clone(&self) -> (r: AppToken)
        ensures
            r == *self,
    {
        AppToken {
            app_id: self.app_id.clone(),
            generation: self.generation,
            foreground_epoch: self.foreground_epoch,
            lease_id: self.lease_id,
        }
    }
}

impl TokenView {
    /// The fault of a token by itself.
    pub open spec fn fault(self) -> Option<StateFault> {
        if self.generation == 0 {
            Some(StateFault::ZeroGeneration(self.app_id))
        } else if self.lease_id == Some(0u64) {
            Some(StateFault::ZeroLease(self.app_id))
        } else {
            None
        }
    }
}

impl AppToken {
    /// Checks that neither the generation nor the lease is zero.
    pub fn validate(&self) -> (r: Result<(), StateModelError>)
        ensures
            reports(r, self@.fault()),
    {
        if self.generation == 0 {
            return Err(StateModelError::ZeroGeneration(self.app_id.clone()));
        }
        if let Some(lease) = self.lease_id {
            if lease == 0 {
                return Err(StateModelError::ZeroLease(self.app_id.clone()));
            }
        }
        Ok(())
    }

    /// Whether the token names this process.
    pub fn same_process(&self, app_id: &AppId, generation: u64) -> (r: bool)
        ensures
            r == (self.app_id@ == app_id@ && self.generation == generation),
    {
        self.app_id == *app_id && self.generation == generation
    }
}

/// One application process.
#[derive(Debug, PartialEq, Eq)]
pub struct AppInstance {
    pub token: AppToken,
    pub state: AppInstanceState,
    pub pid: Option<u32>,
    pub title: String,
    pub subtitle: String,
    pub last_error: Option<String>,
}

/// An application process over texts.
pub struct InstanceView {
    pub token: TokenView,
    pub state: AppInstanceState,
    pub pid: Option<u32>,
    pub title: Seq<char>,
    pub subtitle: Seq<char>,
    pub last_error: Option<Seq<char>>,
}

/// The text of a string that may be missing.
pub open spec fn optional_text(s: Option<String>) -> Option<Seq<char>> {
    match s {
        Some(s) => Some(s@),
        None => None,
    }
}

impl View for AppInstance {
    type V = InstanceView;

    open spec fn view(&self) -> InstanceView {
        InstanceView {
            token: self.token@,
            state: self.state,
            pid: self.pid,
            title: self.title@,
            subtitle: self.subtitle@,
            last_error: optional_text(self.last_error),
        }
    }
}

impl Clone for AppInstance {
    fn clone(&self) -> (r: AppInstance)
        ensures
            r == *self,
    {
        AppInstance {
            token: self.token.clone(),
            state: self.state,
            pid: self.pid,
            title: self.title.clone(),
            subtitle: self.subtitle.clone(),
            last_error: match &self.last_error {
                Some(error) => Some(error.clone()),
                None => None,
            },
        }
    }
}

impl InstanceView {
    /// The fault of an instance by itself: that of its token, or a display
    /// lease that does not go with its state.
    pub open spec fn fault(self) -> Option<StateFault> {
        if self.token.fault() is Some {
            self.token.fault()
        } else if self.state == AppInstanceState::Foreground && self.token.lease_id is None {
            Some(StateFault::ForegroundWithoutLease(self.token.app_id))
        } else if self.state != AppInstanceState::Foreground && self.token.lease_id is Some {
            Some(StateFault::LeaseOutsideForeground(self.token.app_id))
        } else {
            None
        }
    }
}

impl AppInstance {
    /// Checks the token and that exactly a foreground process holds a lease.
    pub fn validate(&self) -> (r: Result<(), StateModelError>)
        ensures
            reports(r, self@.fault()),
    {
        if let Err(e) = self.token.validate() {
            return Err(e);
        }
        if self.state == AppInstanceState::Foreground && self.token.lease_id.is_none() {
            return Err(StateModelError::ForegroundWithoutLease(self.token.app_id.clone()));
        }
        if self.state != AppInstanceState::Foreground && self.token.lease_id.is_some() {
            return Err(StateModelError::LeaseOutsideForeground(self.token.app_id.clone()));
        }
        Ok(())
    }
}

/// The single source of truth. `domain` owns system/display-domain progress;
/// each application has an independent state record.
#[derive(Clone, Debug, PartialEq, Eq)]
pub struct SupervisorState {
    pub domain: SystemDomainState,
    pub sleeping: bool,
    pub foreground_app: Option<AppId>,
    pub last_app: Option<AppId>,
    pub apps: OrderedMap<AppId, AppInstance>,
    pub state_revision: u64,
}

/// A supervisor state over texts.
#[verifier::ext_equal]
pub struct SupervisorView {
    pub domain: SystemDomainState,
    pub sleeping: bool,
    pub foreground_app: Option<Seq<char>>,
    pub last_app: Option<Seq<char>>,
    pub apps: Map<Seq<char>, InstanceView>,
    pub state_revision: u64,
}

/// The instances of a map, over texts.
pub open spec fn instance_views(apps: Map<Seq<char>, AppInstance>) -> Map<Seq<char>, InstanceView> {
    apps.map_values(|instance: AppInstance| instance@)
}

impl View for SupervisorState {
    type V = SupervisorView;

    open spec fn view(&self) -> SupervisorView {
        SupervisorView {
            domain: self.domain,
            sleeping: self.sleeping,
            foreground_app: id_text(self.foreground_app),
            last_app: id_text(self.last_app),
            apps: instance_views(self.apps@),
            state_revision: self.state_revision,
        }
    }
}

impl Default for SupervisorState {
    fn default() -> (r: SupervisorState)
        ensures
            r.domain == SystemDomainState::Stock,
            !r.sleeping,
            r.foreground_app is None,
            r.last_app is None,
            r.apps@ == Map::<Seq<char>, AppInstance>::empty(),
            r.state_revision == 0,
    {
        SupervisorState {
            domain: SystemDomainState::Stock,
            sleeping: false,
            foreground_app: None,
            last_app: None,
            apps: OrderedMap::new(),
            state_revision: 0,
        }
    }
}

impl SupervisorView {
    /// An application that comes before `id` and is in the foreground.
    pub open spec fn earlier_foreground(self, id: Seq<char>) -> bool {
        exists|other: Seq<char>| #[trigger]
            self.apps.contains_key(other) && text_less(other, id) && self.apps[other].state
                == AppInstanceState::Foreground
    }

    /// An application that comes before `id` and holds the same lease.
    pub open spec fn earlier_lease(self, id: Seq<char>) -> bool {
        exists|other: Seq<char>| #[trigger]
            self.apps.contains_key(other) && text_less(other, id)
                && self.apps[other].token.lease_id == self.apps[id].token.lease_id
    }

    /// The fault of one application, by itself and against the earlier ones.
    pub open spec fn app_fault(self, id: Seq<char>) -> Option<StateFault> {
        let instance = self.apps[id];
        if instance.token.app_id != id {
            Some(StateFault::MismatchedAppKey(id, instance.token.app_id))
        } else if instance.fault() is Some {
            instance.fault()
        } else if instance.state == AppInstanceState::Foreground && self.earlier_foreground(id) {
            Some(StateFault::MultipleForegroundApps)
        } else if instance.token.lease_id is Some && self.earlier_lease(id) {
            Some(StateFault::DuplicateLease(instance.token.lease_id->0))
        } else {
            None
        }
    }

    /// The applications with a fault.
    pub open spec fn faulty_apps(self) -> Set<Seq<char>> {
        Set::new(|id: Seq<char>| self.apps.contains_key(id) && self.app_fault(id) is Some)
    }

    /// The foreground pointer names the foreground application.
    pub open spec fn pointer_agrees(self) -> bool {
        match self.foreground_app {
            Some(id) => self.apps.contains_key(id) && self.apps[id].state
                == AppInstanceState::Foreground,
            None => forall|id: Seq<char>| #[trigger]
                self.apps.contains_key(id) ==> self.apps[id].state != AppInstanceState::Foreground,
        }
    }

    /// An application whose process is not gone.
    pub open spec fn any_running(self) -> bool {
        exists|id: Seq<char>| #[trigger]
            self.apps.contains_key(id) && !self.apps[id].state.terminal()
    }

    /// The first fault of the state. Applications are checked in the order of
    /// their ids.
    pub open spec fn fault(self) -> Option<StateFault> {
        if self.sleeping && self.domain != SystemDomainState::Managed {
            Some(StateFault::SleepOutsideManaged)
        } else if least(self.faulty_apps()) is Some {
            self.app_fault(least(self.faulty_apps())->0)
        } else if !self.pointer_agrees() {
            Some(StateFault::ForegroundPointerMismatch)
        } else if self.sleeping && self.foreground_app is Some {
            Some(StateFault::ForegroundWhileSleeping)
        } else if self.domain != SystemDomainState::Managed && self.foreground_app is Some {
            Some(StateFault::ForegroundOutsideManaged)
        } else if self.domain == SystemDomainState::Stock && self.any_running() {
            Some(StateFault::RunningAppInStockDomain)
        } else {
            None
        }
    }

    /// What holds in every state that the supervisor reaches: each
    /// application stands under its own id with a sound token, exactly the
    /// application that the pointer names is in the foreground and holds a
    /// lease, and the foreground, sleep and running applications go with the
    /// domain.
    pub open spec fn valid(self) -> bool {
        &&& forall|id: Seq<char>| #[trigger]
            self.apps.contains_key(id) ==> {
                &&& self.apps[id].token.app_id == id
                &&& self.apps[id].token.generation > 0
                &&& self.apps[id].token.lease_id != Some(0u64)
                &&& self.apps[id].state == AppInstanceState::Foreground <==> Some(id)
                    == self.foreground_app
                &&& self.apps[id].state == AppInstanceState::Foreground
                    <==> self.apps[id].token.lease_id is Some
            }
        &&& self.foreground_app is Some ==> {
            &&& self.apps.contains_key(self.foreground_app->0)
            &&& self.domain == SystemDomainState::Managed
            &&& !self.sleeping
        }
        &&& self.sleeping ==> self.domain == SystemDomainState::Managed
        &&& self.domain == SystemDomainState::Stock ==> !self.any_running()
    }
}

impl SupervisorState {
    /// Whether an application whose process is not gone exists.
    pub(crate) fn has_running_app(&self) -> (r: bool)
        ensures
            r == self@.any_running(),
    {
        let n: usize = self.apps.len();
        let ghost keys = self.apps.keys();
        let mut i: usize = 0;
        while i < n
            invariant
                i <= n,
                n == keys.len(),
                keys == self.apps.keys(),
                lists_keys(keys, self.apps@),
                forall|j: int| 0 <= j < i ==> self@.apps[#[trigger] keys[j]].state.terminal(),
            decreases n - i,
        {
            let instance = self.apps.value_at(i);
            assert(self@.apps[keys[i as int]] == instance@);
            if !instance.state.is_terminal() {
                assert(self@.apps.contains_key(keys[i as int]));
                return true;
            }
            i = i + 1;
        }
        assert(!self@.any_running()) by {
            if self@.any_running() {
                let id = choose|id: Seq<char>| #[trigger]
                    self@.apps.contains_key(id) && !self@.apps[id].state.terminal();
                assert(keys.contains(id));
                let j = choose|j: int| 0 <= j < keys.len() && keys[j] == id;
                assert(self@.apps[keys[j]].state.terminal());
            }
        }
        false
    }

    /// Whether one of the first `n` applications is in the foreground.
    fn foreground_before(&self, n: usize) -> (r: bool)
        requires
            n < self.apps.keys().len(),
            lists_keys(self.apps.keys(), self.apps@),
        ensures
            r == self@.earlier_foreground(self.apps.keys()[n as int]),
    {
        let ghost keys = self.apps.keys();
        let mut i: usize = 0;
        while i < n
            invariant
                i <= n < keys.len(),
                keys == self.apps.keys(),
                lists_keys(keys, self.apps@),
                forall|j: int|
                    0 <= j < i ==> self@.apps[#[trigger] keys[j]].state
                        != AppInstanceState::Foreground,
            decreases n - i,
        {
            let instance = self.apps.value_at(i);
            assert(self@.apps[keys[i as int]] == instance@);
            if instance.state == AppInstanceState::Foreground {
                assert(self@.apps.contains_key(keys[i as int]));
                assert(text_less(keys[i as int], keys[n as int]));
                return true;
            }
            i = i + 1;
        }
        assert(!self@.earlier_foreground(keys[n as int])) by {
            if self@.earlier_foreground(keys[n as int]) {
                let other = choose|other: Seq<char>| #[trigger]
                    self@.apps.contains_key(other) && text_less(other, keys[n as int])
                        && self@.apps[other].state == AppInstanceState::Foreground;
                lemma_earlier_key(keys, self.apps@, other, n as int);
                let j = choose|j: int| 0 <= j < n && keys[j] == other;
                assert(self@.apps[keys[j]].state != AppInstanceState::Foreground);
            }
        }
        false
    }

    /// Whether one of the first `n` applications holds the lease of the next.
    fn lease_before(&self, n: usize) -> (r: bool)
        requires
            n < self.apps.keys().len(),
            lists_keys(self.apps.keys(), self.apps@),
        ensures
            r == self@.earlier_lease(self.apps.keys()[n as int]),
    {
        let ghost keys = self.apps.keys();
        let lease = self.apps.value_at(n).token.lease_id;
        assert(self@.apps[keys[n as int]].token.lease_id == lease);
        let mut i: usize = 0;
        while i < n
            invariant
                i <= n < keys.len(),
                keys == self.apps.keys(),
                lists_keys(keys, self.apps@),
                self@.apps[keys[n as int]].token.lease_id == lease,
                forall|j: int|
                    0 <= j < i ==> self@.apps[#[trigger] keys[j]].token.lease_id != lease,
            decreases n - i,
        {
            let other = self.apps.value_at(i).token.lease_id;
            assert(self@.apps[keys[i as int]].token.lease_id == other);
            let same = match (other, lease) {
                (Some(a), Some(b)) => a == b,
                (None, None) => true,
                _ => false,
            };
            if same {
                assert(self@.apps.contains_key(keys[i as int]));
                assert(text_less(keys[i as int], keys[n as int]));
                return true;
            }
            i = i + 1;
        }
        assert(!self@.earlier_lease(keys[n as int])) by {
            if self@.earlier_lease(keys[n as int]) {
                let other = choose|other: Seq<char>| #[trigger]
                    self@.apps.contains_key(other) && text_less(other, keys[n as int])
                        && self@.apps[other].token.lease_id
                        == self@.apps[keys[n as int]].token.lease_id;
                lemma_earlier_key(keys, self.apps@, other, n as int);
                let j = choose|j: int| 0 <= j < n && keys[j] == other;
                assert(self@.apps[keys[j]].token.lease_id != lease);
            }
        }
        false
    }

    /// The fault of the application at a place in the order.
    fn validate_app(&self, i: usize) -> (r: Result<(), StateModelError>)
        requires
            i < self.apps.keys().len(),
            lists_keys(self.apps.keys(), self.apps@),
        ensures
            reports(r, self@.app_fault(self.apps.keys()[i as int])),
    {
        let id = self.apps.key_at(i);
        let instance = self.apps.value_at(i);
        assert(self@.apps[id@] == instance@);
        if *id != instance.token.app_id {
            return Err(
                StateModelError::MismatchedAppKey {
                    key: id.clone(),
                    token: instance.token.app_id.clone(),
                },
            );
        }
        if let Err(e) = instance.validate() {
            return Err(e);
        }
        if instance.state == AppInstanceState::Foreground && self.foreground_before(i) {
            return Err(StateModelError::MultipleForegroundApps);
        }
        if let Some(lease) = instance.token.lease_id {
            if self.lease_before(i) {
                return Err(StateModelError::DuplicateLease(lease));
            }
        }
        Ok(())
    }

    /// Whether the foreground pointer names the foreground application.
    fn pointer_is_right(&self) -> (r: bool)
        ensures
            r == self@.pointer_agrees(),
    {
        match &self.foreground_app {
            Some(id) => match self.apps.get(id.as_str()) {
                Some(instance) => instance.state == AppInstanceState::Foreground,
                None => false,
            },
            None => {
                let n: usize = self.apps.len();
                let ghost keys = self.apps.keys();
                let mut i: usize = 0;
                while i < n
                    invariant
                        i <= n,
                        n == keys.len(),
                        keys == self.apps.keys(),
                        self.foreground_app is None,
                        lists_keys(keys, self.apps@),
                        forall|j: int|
                            0 <= j < i ==> self@.apps[#[trigger] keys[j]].state
                                != AppInstanceState::Foreground,
                    decreases n - i,
                {
                    let instance = self.apps.value_at(i);
                    assert(self@.apps[keys[i as int]] == instance@);
                    if instance.state == AppInstanceState::Foreground {
                        assert(self@.apps.contains_key(keys[i as int]));
                        return false;
                    }
                    i = i + 1;
                }
                assert forall|id: Seq<char>| #[trigger]
                    self@.apps.contains_key(id) implies self@.apps[id].state
                    != AppInstanceState::Foreground by {
                    assert(keys.contains(id));
                    let j = choose|j: int| 0 <= j < keys.len() && keys[j] == id;
                    assert(self@.apps[keys[j]].state != AppInstanceState::Foreground);
                }
                true
            },
        }
    }

    /// Checks the whole state.
    pub fn validate(&self) -> (r: Result<(), StateModelError>)
        ensures
            reports(r, self@.fault()),
            r is Ok <==> self@.valid(),
    {
        let n: usize = self.apps.len();
        let ghost keys = self.apps.keys();
        let ghost faulty = self@.faulty_apps();
        if self.sleeping && self.domain != SystemDomainState::Managed {
            return Err(StateModelError::SleepOutsideManaged);
        }
        let mut i: usize = 0;
        while i < n
            invariant
                i <= n,
                n == keys.len(),
                keys == self.apps.keys(),
                lists_keys(keys, self.apps@),
                faulty == self@.faulty_apps(),
                !(self.sleeping && self.domain != SystemDomainState::Managed),
                forall|j: int| 0 <= j < i ==> !faulty.contains(#[trigger] keys[j]),
            decreases n - i,
        {
            if let Err(e) = self.validate_app(i) {
                proof {
                    let id = keys[i as int];
                    assert(self.apps@.contains_key(id));
                    assert(faulty.contains(id));
                    assert forall|other: Seq<char>| #[trigger] faulty.contains(other) implies other
                        == id || text_less(id, other) by {
                        assert(keys.contains(other));
                        let j = choose|j: int| 0 <= j < keys.len() && keys[j] == other;
                        assert(!(j < i));
                    }
                    assert(is_least(faulty, id));
                    lemma_least_is(faulty, id);
                    lemma_valid_has_no_app_fault(self@, id);
                }
                return Err(e);
            }
            i = i + 1;
        }
        proof {
            assert forall|id: Seq<char>| #[trigger]
                self@.apps.contains_key(id) implies self@.app_fault(id) is None by {
                assert(keys.contains(id));
                let j = choose|j: int| 0 <= j < keys.len() && keys[j] == id;
                assert(!faulty.contains(keys[j]));
            }
            assert(least(faulty) is None) by {
                if least(faulty) is Some {
                    let k = choose|k: Seq<char>| is_least(faulty, k);
                    assert(self@.apps.contains_key(k));
                }
            }
            lemma_valid_means_no_fault(self@);
        }
        if !self.pointer_is_right() {
            return Err(StateModelError::ForegroundPointerMismatch);
        }
        if self.sleeping && self.foreground_app.is_some() {
            return Err(StateModelError::ForegroundWhileSleeping);
        }
        if self.domain != SystemDomainState::Managed {
            if self.foreground_app.is_some() {
                return Err(StateModelError::ForegroundOutsideManaged);
            }
            if self.domain == SystemDomainState::Stock && self.has_running_app() {
                return Err(StateModelError::RunningAppInStockDomain);
            }
        }
        Ok(())
    }
}

/// A key that comes before another stands before it.
proof fn lemma_earlier_key(
    keys: Seq<Seq<char>>,
    map: Map<Seq<char>, AppInstance>,
    other: Seq<char>,
    n: int,
)
    requires
        lists_keys(keys, map),
        0 <= n < keys.len(),
        map.contains_key(other),
        text_less(other, keys[n]),
    ensures
        exists|j: int| 0 <= j < n && keys[j] == other,
{
    assert(keys.contains(other));
    let j = choose|j: int| 0 <= j < keys.len() && keys[j] == other;
    crate::text::lemma_text_less_irreflexive(other);
    if j > n {
        assert(text_less(keys[n], keys[j]));
        crate::text::lemma_text_less_transitive(other, keys[n], other);
    }
}

/// No application of a valid state has a fault.
proof fn lemma_valid_has_no_app_fault(state: SupervisorView, id: Seq<char>)
    requires
        state.apps.contains_key(id),
    ensures
        state.valid() ==> state.app_fault(id) is None,
{
    if state.valid() {
        crate::text::lemma_text_less_irreflexive(id);
        if state.apps[id].state == AppInstanceState::Foreground {
            assert(!state.earlier_foreground(id)) by {
                if state.earlier_foreground(id) {
                    let other = choose|other: Seq<char>| #[trigger]
                        state.apps.contains_key(other) && text_less(other, id)
                            && state.apps[other].state == AppInstanceState::Foreground;
                    assert(Some(other) == state.foreground_app);
                }
            }
        }
        if state.apps[id].token.lease_id is Some {
            assert(!state.earlier_lease(id)) by {
                if state.earlier_lease(id) {
                    let other = choose|other: Seq<char>| #[trigger]
                        state.apps.contains_key(other) && text_less(other, id)
                            && state.apps[other].token.lease_id == state.apps[id].token.lease_id;
                    assert(Some(other) == state.foreground_app);
                }
            }
        }
    }
}

/// Two foreground applications of which none comes before the other are one.
proof fn lemma_one_foreground(state: SupervisorView, a: Seq<char>, b: Seq<char>)
    requires
        state.apps.contains_key(a),
        state.apps.contains_key(b),
        state.apps[a].state == AppInstanceState::Foreground,
        state.apps[b].state == AppInstanceState::Foreground,
        state.app_fault(a) is None,
        state.app_fault(b) is None,
    ensures
        a == b,
{
    crate::text::lemma_text_less_total(a, b);
    if text_less(a, b) {
        assert(state.earlier_foreground(b));
    } else if text_less(b, a) {
        assert(state.earlier_foreground(a));
    }
}

/// A state none of whose applications has a fault is valid exactly where the
/// remaining checks pass.
proof fn lemma_valid_means_no_fault(state: SupervisorView)
    requires
        forall|id: Seq<char>| #[trigger]
            state.apps.contains_key(id) ==> state.app_fault(id) is None,
        !(state.sleeping && state.domain != SystemDomainState::Managed),
    ensures
        state.valid() <==> {
            &&& state.pointer_agrees()
            &&& !(state.sleeping && state.foreground_app is Some)
            &&& !(state.domain != SystemDomainState::Managed && state.foreground_app is Some)
            &&& !(state.domain == SystemDomainState::Stock && state.any_running())
        },
{
    if state.pointer_agrees() {
        assert forall|id: Seq<char>| #[trigger]
            state.apps.contains_key(id) implies (state.apps[id].state
            == AppInstanceState::Foreground <==> Some(id) == state.foreground_app) by {
            assert(state.app_fault(id) is None);
            if state.apps[id].state == AppInstanceState::Foreground {
                if state.foreground_app is Some {
                    lemma_one_foreground(state, id, state.foreground_app->0);
                }
            }
        }
    }
}

/// Why a state or a change of it is refused.
#[derive(Clone, Debug, PartialEq, Eq)]
pub enum StateModelError {
    ZeroGeneration(AppId),
    ZeroLease(AppId),
    ForegroundWithoutLease(AppId),
    LeaseOutsideForeground(AppId),
    MismatchedAppKey { key: AppId, token: AppId },
    MultipleForegroundApps,
    DuplicateLease(u64),
    ForegroundPointerMismatch,
    SleepOutsideManaged,
    ForegroundWhileSleeping,
    ForegroundOutsideManaged,
    RunningAppInStockDomain,
    InvalidDomainTransition { from: SystemDomainState, to: SystemDomainState },
    LaunchOutsideActiveManaged,
    AppAlreadyRunning(AppId),
    UnknownApp(AppId),
    StaleGeneration { app_id: AppId, expected_after: u64, actual: u64 },
    StaleForegroundEpoch { app_id: AppId, expected_after: u64, actual: u64 },
    InvalidAppTransition { app_id: AppId, from: AppInstanceState, to: AppInstanceState },
    RevisionOverflow,
}

/// The same reasons over texts.
pub enum StateFault {
    ZeroGeneration(Seq<char>),
    ZeroLease(Seq<char>),
    ForegroundWithoutLease(Seq<char>),
    LeaseOutsideForeground(Seq<char>),
    MismatchedAppKey(Seq<char>, Seq<char>),
    MultipleForegroundApps,
    DuplicateLease(u64),
    ForegroundPointerMismatch,
    SleepOutsideManaged,
    ForegroundWhileSleeping,
    ForegroundOutsideManaged,
    RunningAppInStockDomain,
    InvalidDomainTransition(SystemDomainState, SystemDomainState),
    LaunchOutsideActiveManaged,
    AppAlreadyRunning(Seq<char>),
    UnknownApp(Seq<char>),
    StaleGeneration(Seq<char>, u64, u64),
    StaleForegroundEpoch(Seq<char>, u64, u64),
    InvalidAppTransition(Seq<char>, AppInstanceState, AppInstanceState),
    RevisionOverflow,
}

impl View for StateModelError {
    type V = StateFault;

    open spec fn view(&self) -> StateFault {
        match self {
            StateModelError::ZeroGeneration(a) => StateFault::ZeroGeneration(a@),
            StateModelError::ZeroLease(a) => StateFault::ZeroLease(a@),
            StateModelError::ForegroundWithoutLease(a) => StateFault::ForegroundWithoutLease(a@),
            StateModelError::LeaseOutsideForeground(a) => StateFault::LeaseOutsideForeground(a@),
            StateModelError::MismatchedAppKey { key, token } => {
                StateFault::MismatchedAppKey(key@, token@)
            },
            StateModelError::MultipleForegroundApps => StateFault::MultipleForegroundApps,
            StateModelError::DuplicateLease(a) => StateFault::DuplicateLease(*a),
            StateModelError::ForegroundPointerMismatch => StateFault::ForegroundPointerMismatch,
            StateModelError::SleepOutsideManaged => StateFault::SleepOutsideManaged,
            StateModelError::ForegroundWhileSleeping => StateFault::ForegroundWhileSleeping,
            StateModelError::ForegroundOutsideManaged => StateFault::ForegroundOutsideManaged,
            StateModelError::RunningAppInStockDomain => StateFault::RunningAppInStockDomain,
            StateModelError::InvalidDomainTransition { from, to } => {
                StateFault::InvalidDomainTransition(*from, *to)
            },
            StateModelError::LaunchOutsideActiveManaged => StateFault::LaunchOutsideActiveManaged,
            StateModelError::AppAlreadyRunning(a) => StateFault::AppAlreadyRunning(a@),
            StateModelError::UnknownApp(a) => StateFault::UnknownApp(a@),
            StateModelError::StaleGeneration { app_id, expected_after, actual } => {
                StateFault::StaleGeneration(app_id@, *expected_after, *actual)
            },
            StateModelError::StaleForegroundEpoch { app_id, expected_after, actual } => {
                StateFault::StaleForegroundEpoch(app_id@, *expected_after, *actual)
            },
            StateModelError::InvalidAppTransition { app_id, from, to } => {
                StateFault::InvalidAppTransition(app_id@, *from, *to)
            },
            StateModelError::RevisionOverflow => StateFault::RevisionOverflow,
        }
    }
}

/// What a check reports: nothing, or its fault.
pub open spec fn reports(r: Result<(), StateModelError>, fault: Option<StateFault>) -> bool {
    match r {
        Ok(_) => fault is None,
        Err(e) => fault == Some(e@),
    }
}

/// A transition that the current domain does not admit.
#[derive(Clone, Debug, PartialEq, Eq)]
pub struct TransitionError {
    pub current: DomainState,
    pub transition: Transition,
}

impl SystemDomainState {
    /// The name of the variant.
    pub open spec fn debug_name(self) -> Seq<char> {
        match self {
            SystemDomainState::Stock => "Stock"@,
            SystemDomainState::EnteringManaged => "EnteringManaged"@,
            SystemDomainState::Managed => "Managed"@,
            SystemDomainState::LeavingManaged => "LeavingManaged"@,
            SystemDomainState::Recovering => "Recovering"@,
        }
    }

    /// The name of the variant.
    pub fn debug_str(self) -> (r: &'static str)
        ensures
            r@ == self.debug_name(),
    {
        match self {
            SystemDomainState::Stock => "Stock",
            SystemDomainState::EnteringManaged => "EnteringManaged",
            SystemDomainState::Managed => "Managed",
            SystemDomainState::LeavingManaged => "LeavingManaged",
            SystemDomainState::Recovering => "Recovering",
        }
    }
}

impl AppInstanceState {
    /// The name of the variant.
    pub open spec fn debug_name(self) -> Seq<char> {
        match self {
            AppInstanceState::Starting => "Starting"@,
            AppInstanceState::Foreground => "Foreground"@,
            AppInstanceState::Background => "Background"@,
            AppInstanceState::Stopping => "Stopping"@,
            AppInstanceState::Exited => "Exited"@,
            AppInstanceState::Crashed => "Crashed"@,
            AppInstanceState::Unresponsive => "Unresponsive"@,
        }
    }

    /// The name of the variant.
    pub fn debug_str(self) -> (r: &'static str)
        ensures
            r@ == self.debug_name(),
    {
        match self {
            AppInstanceState::Starting => "Starting",
            AppInstanceState::Foreground => "Foreground",
            AppInstanceState::Background => "Background",
            AppInstanceState::Stopping => "Stopping",
            AppInstanceState::Exited => "Exited",
            AppInstanceState::Crashed => "Crashed",
            AppInstanceState::Unresponsive => "Unresponsive",
        }
    }
}

impl StateFault {
    /// The reason in words.
    pub open spec fn text(self) -> Seq<char> {
        match self {
            StateFault::ZeroGeneration(a) => "application "@ + a + " has generation zero"@,
            StateFault::ZeroLease(a) => "application "@ + a + " has lease zero"@,
            StateFault::ForegroundWithoutLease(a) => "foreground application "@ + a + " has no display lease"@,
            StateFault::LeaseOutsideForeground(a) => "non-foreground application "@ + a + " holds a display lease"@,
            StateFault::MismatchedAppKey(key, token) => "state map key "@ + key + " does not match token app "@ + token,
            StateFault::MultipleForegroundApps => "multiple applications are marked foreground"@,
            StateFault::DuplicateLease(a) => "duplicate display lease "@ + decimal(a as nat),
            StateFault::ForegroundPointerMismatch => "foreground_app does not match the foreground instance"@,
            StateFault::SleepOutsideManaged => "sleep is only valid in the managed domain"@,
            StateFault::ForegroundWhileSleeping => "an application cannot remain foreground while sleeping"@,
            StateFault::ForegroundOutsideManaged => "a foreground application exists outside the managed domain"@,
            StateFault::RunningAppInStockDomain => "a non-terminal application exists in the stock domain"@,
            StateFault::InvalidDomainTransition(from, to) => "invalid system domain transition "@ + from.debug_name() + " -> "@ + to.debug_name(),
            StateFault::LaunchOutsideActiveManaged => "applications may only launch in the active managed domain"@,
            StateFault::AppAlreadyRunning(a) => "application "@ + a + " is already running"@,
            StateFault::UnknownApp(a) => "unknown application instance "@ + a,
            StateFault::StaleGeneration(app_id, expected_after, actual) => "stale generation for "@ + app_id + ": expected after "@ + decimal(expected_after as nat) + ", got "@ + decimal(actual as nat),
            StateFault::StaleForegroundEpoch(app_id, expected_after, actual) => "stale foreground epoch for "@ + app_id + ": expected after "@ + decimal(expected_after as nat) + ", got "@ + decimal(actual as nat),
            StateFault::InvalidAppTransition(app_id, from, to) => "invalid app transition for "@ + app_id + ": "@ + from.debug_name() + " -> "@ + to.debug_name(),
            StateFault::RevisionOverflow => "state revision overflow"@,
        }
    }
}

impl StateModelError {
    /// The reason in words.
    pub fn message(&self) -> (r: String)
        ensures
            r@ == self@.text(),
    {
        match self {
            StateModelError::ZeroGeneration(a) => {
                let mut message = "application ".to_owned();
                message.append(a.as_str());
                message.append(" has generation zero");
                message
            },
            StateModelError::ZeroLease(a) => {
                let mut message = "application ".to_owned();
                message.append(a.as_str());
                message.append(" has lease zero");
                message
            },
            StateModelError::ForegroundWithoutLease(a) => {
                let mut message = "foreground application ".to_owned();
                message.append(a.as_str());
                message.append(" has no display lease");
                message
            },
            StateModelError::LeaseOutsideForeground(a) => {
                let mut message = "non-foreground application ".to_owned();
                message.append(a.as_str());
                message.append(" holds a display lease");
                message
            },
            StateModelError::MismatchedAppKey { key, token } => {
                let mut message = "state map key ".to_owned();
                message.append(key.as_str());
                message.append(" does not match token app ");
                message.append(token.as_str());
                message
            },
            StateModelError::MultipleForegroundApps => "multiple applications are marked foreground".to_owned(),
            StateModelError::DuplicateLease(a) => {
                let mut message = "duplicate display lease ".to_owned();
                message.append(decimal_text(*a as u64).as_str());
                message
            },
            StateModelError::ForegroundPointerMismatch => "foreground_app does not match the foreground instance".to_owned(),
            StateModelError::SleepOutsideManaged => "sleep is only valid in the managed domain".to_owned(),
            StateModelError::ForegroundWhileSleeping => "an application cannot remain foreground while sleeping".to_owned(),
            StateModelError::ForegroundOutsideManaged => "a foreground application exists outside the managed domain".to_owned(),
            StateModelError::RunningAppInStockDomain => "a non-terminal application exists in the stock domain".to_owned(),
            StateModelError::InvalidDomainTransition { from, to } => {
                let mut message = "invalid system domain transition ".to_owned();
                message.append(from.debug_str());
                message.append(" -> ");
                message.append(to.debug_str());
                message
            },
            StateModelError::LaunchOutsideActiveManaged => "applications may only launch in the active managed domain".to_owned(),
            StateModelError::AppAlreadyRunning(a) => {
                let mut message = "application ".to_owned();
                message.append(a.as_str());
                message.append(" is already running");
                message
            },
            StateModelError::UnknownApp(a) => {
                let mut message = "unknown application instance ".to_owned();
                message.append(a.as_str());
                message
            },
            StateModelError::StaleGeneration { app_id, expected_after, actual } => {
                let mut message = "stale generation for ".to_owned();
                message.append(app_id.as_str());
                message.append(": expected after ");
                message.append(decimal_text(*expected_after as u64).as_str());
                message.append(", got ");
                message.append(decimal_text(*actual as u64).as_str());
                message
            },
            StateModelError::StaleForegroundEpoch { app_id, expected_after, actual } => {
                let mut message = "stale foreground epoch for ".to_owned();
                message.append(app_id.as_str());
                message.append(": expected after ");
                message.append(decimal_text(*expected_after as u64).as_str());
                message.append(", got ");
                message.append(decimal_text(*actual as u64).as_str());
                message
            },
            StateModelError::InvalidAppTransition { app_id, from, to } => {
                let mut message = "invalid app transition for ".to_owned();
                message.append(app_id.as_str());
                message.append(": ");
                message.append(from.debug_str());
                message.append(" -> ");
                message.append(to.debug_str());
                message
            },
            StateModelError::RevisionOverflow => "state revision overflow".to_owned(),
        }
    }
}

/// A variant that names an application, as developers see it.
pub open spec fn debug_variant(name: Seq<char>, app_id: Seq<char>) -> Seq<char> {
    name + "(AppId("@ + debug_text(app_id) + "))"@
}

/// A variant that names an application, as developers see it.
fn variant_text(name: &str, app_id: &AppId) -> (r: String)
    ensures
        r@ == debug_variant(name@, app_id@),
{
    let mut text = name.to_owned();
    text.append("(AppId(");
    text.append(debug_quoted(app_id.as_str()).as_str());
    text.append("))");
    text
}

impl DomainView {
    /// The domain as developers see it.
    pub open spec fn debug_name(self) -> Seq<char> {
        match self {
            DomainView::System => "System"@,
            DomainView::EnteringManaged => "EnteringManaged"@,
            DomainView::Manager => "Manager"@,
            DomainView::Launching(app) => debug_variant("Launching"@, app),
            DomainView::Foreground(app) => debug_variant("Foreground"@, app),
            DomainView::Parking(app) => debug_variant("Parking"@, app),
            DomainView::RestoringSystem => "RestoringSystem"@,
            DomainView::Sleeping => "Sleeping"@,
            DomainView::Recovering => "Recovering"@,
        }
    }
}

impl DomainState {
    /// The domain as developers see it.
    pub fn debug_str(&self) -> (r: String)
        ensures
            r@ == self@.debug_name(),
    {
        match self {
            DomainState::System => "System".to_owned(),
            DomainState::EnteringManaged => "EnteringManaged".to_owned(),
            DomainState::Manager => "Manager".to_owned(),
            DomainState::Launching(app) => variant_text("Launching", app),
            DomainState::Foreground(app) => variant_text("Foreground", app),
            DomainState::Parking(app) => variant_text("Parking", app),
            DomainState::RestoringSystem => "RestoringSystem".to_owned(),
            DomainState::Sleeping => "Sleeping".to_owned(),
            DomainState::Recovering => "Recovering".to_owned(),
        }
    }
}

impl TransitionView {
    /// The transition as developers see it.
    pub open spec fn debug_name(self) -> Seq<char> {
        match self {
            TransitionView::TriplePower => "TriplePower"@,
            TransitionView::SinglePower => "SinglePower"@,
            TransitionView::Launch(app) => debug_variant("Launch"@, app),
            TransitionView::AppReady(app) => debug_variant("AppReady"@, app),
            TransitionView::AppParked(app) => debug_variant("AppParked"@, app),
            TransitionView::AppRestored(app) => debug_variant("AppRestored"@, app),
            TransitionView::AppExited(app) => debug_variant("AppExited"@, app),
            TransitionView::AppCrashed(app) => debug_variant("AppCrashed"@, app),
            TransitionView::ManagedReady => "ManagedReady"@,
            TransitionView::SystemReady => "SystemReady"@,
            TransitionView::Sleep => "Sleep"@,
            TransitionView::Wake => "Wake"@,
            TransitionView::Failure => "Failure"@,
        }
    }
}

impl Transition {
    /// The transition as developers see it.
    pub fn debug_str(&self) -> (r: String)
        ensures
            r@ == self@.debug_name(),
    {
        match self {
            Transition::TriplePower => "TriplePower".to_owned(),
            Transition::SinglePower => "SinglePower".to_owned(),
            Transition::Launch(app) => variant_text("Launch", app),
            Transition::AppReady(app) => variant_text("AppReady", app),
            Transition::AppParked(app) => variant_text("AppParked", app),
            Transition::AppRestored(app) => variant_text("AppRestored", app),
            Transition::AppExited(app) => variant_text("AppExited", app),
            Transition::AppCrashed(app) => variant_text("AppCrashed", app),
            Transition::ManagedReady => "ManagedReady".to_owned(),
            Transition::SystemReady => "SystemReady".to_owned(),
            Transition::Sleep => "Sleep".to_owned(),
            Transition::Wake => "Wake".to_owned(),
            Transition::Failure => "Failure".to_owned(),
        }
    }
}

impl TransitionError {
    /// The reason in words.
    pub fn message(&self) -> (r: String)
        ensures
            r@ == "transition "@ + self.transition@.debug_name() + " is invalid while in "@
                + self.current@.debug_name(),
    {
        let mut message = "transition ".to_owned();
        message.append(self.transition.debug_str().as_str());
        message.append(" is invalid while in ");
        message.append(self.current.debug_str().as_str());
        message
    }
}

/// What a valid state means for two of its applications: one of them at most
/// has the foreground, no lease is held twice, and nobody runs beside the stock
/// system or has the foreground of a sleeping device.
pub proof fn valid_states_have_one_owner(state: SupervisorView, a: Seq<char>, b: Seq<char>)
    requires
        state.valid(),
        state.apps.contains_key(a),
        state.apps.contains_key(b),
    ensures
        state.apps[a].token.app_id == a,
        state.apps[a].token.generation > 0,
        state.apps[a].token.lease_id != Some(0u64),
        state.apps[a].state == AppInstanceState::Foreground <==> state.apps[a].token.lease_id
            is Some,
        state.apps[a].state == AppInstanceState::Foreground && state.apps[b].state
            == AppInstanceState::Foreground ==> a == b,
        state.apps[a].token.lease_id is Some && state.apps[a].token.lease_id
            == state.apps[b].token.lease_id ==> a == b,
        state.apps[a].state == AppInstanceState::Foreground <==> state.foreground_app == Some(a),
        state.apps[a].state == AppInstanceState::Foreground ==> state.domain
            == SystemDomainState::Managed && !state.sleeping,
        state.sleeping ==> state.domain == SystemDomainState::Managed,
        state.domain == SystemDomainState::Stock ==> state.apps[a].state == AppInstanceState::Exited
            || state.apps[a].state == AppInstanceState::Crashed,
{
}

/// A state in which every application stands under its own id with a sound
/// token, and in which nobody has the foreground, is valid in the awake managed
/// domain.
pub proof fn background_states_are_valid(state: SupervisorView)
    requires
        forall|id: Seq<char>| #[trigger]
            state.apps.contains_key(id) ==> {
                &&& state.apps[id].token.app_id == id
                &&& state.apps[id].token.generation > 0
                &&& state.apps[id].token.lease_id is None
                &&& state.apps[id].state != AppInstanceState::Foreground
            },
        state.foreground_app is None,
        state.domain == SystemDomainState::Managed,
    ensures
        state.fault() is None,
        state.valid(),
{
    if least(state.faulty_apps()) is Some {
        let k = choose|k: Seq<char>| is_least(state.faulty_apps(), k);
        assert(state.apps.contains_key(k));
    }
}

/// The complaint about a state is true of it: the application that it names is
/// one of the state, and is what is said of it.
pub proof fn state_complaints_are_justified(state: SupervisorView)
    ensures
        state.fault() matches Some(fault) ==> match fault {
            StateFault::SleepOutsideManaged => state.sleeping && state.domain
                != SystemDomainState::Managed,
            StateFault::ForegroundWhileSleeping => state.sleeping && state.foreground_app is Some,
            StateFault::ForegroundOutsideManaged => state.domain != SystemDomainState::Managed
                && state.foreground_app is Some,
            StateFault::RunningAppInStockDomain => state.domain == SystemDomainState::Stock
                && exists|id: Seq<char>| #[trigger]
                state.apps.contains_key(id) && state.apps[id].state != AppInstanceState::Exited
                    && state.apps[id].state != AppInstanceState::Crashed,
            StateFault::MismatchedAppKey(key, named) => state.apps.contains_key(key)
                && state.apps[key].token.app_id == named && named != key,
            StateFault::ZeroGeneration(id) => state.apps.contains_key(id)
                && state.apps[id].token.generation == 0,
            StateFault::ZeroLease(id) => state.apps.contains_key(id)
                && state.apps[id].token.lease_id == Some(0u64),
            StateFault::ForegroundWithoutLease(id) => state.apps.contains_key(id)
                && state.apps[id].state == AppInstanceState::Foreground
                && state.apps[id].token.lease_id is None,
            StateFault::LeaseOutsideForeground(id) => state.apps.contains_key(id)
                && state.apps[id].state != AppInstanceState::Foreground
                && state.apps[id].token.lease_id is Some,
            StateFault::MultipleForegroundApps => exists|a: Seq<char>, b: Seq<char>|
                #![trigger state.apps.contains_key(a), state.apps.contains_key(b)]
                a != b && state.apps.contains_key(a) && state.apps.contains_key(b)
                    && state.apps[a].state == AppInstanceState::Foreground && state.apps[b].state
                    == AppInstanceState::Foreground,
            StateFault::DuplicateLease(lease) => exists|a: Seq<char>, b: Seq<char>|
                #![trigger state.apps.contains_key(a), state.apps.contains_key(b)]
                a != b && state.apps.contains_key(a) && state.apps.contains_key(b)
                    && state.apps[a].token.lease_id == Some(lease) && state.apps[b].token.lease_id
                    == Some(lease),
            StateFault::ForegroundPointerMismatch => match state.foreground_app {
                Some(id) => !state.apps.contains_key(id) || state.apps[id].state
                    != AppInstanceState::Foreground,
                None => exists|id: Seq<char>| #[trigger]
                    state.apps.contains_key(id) && state.apps[id].state
                        == AppInstanceState::Foreground,
            },
            _ => false,
        },
{
    if !(state.sleeping && state.domain != SystemDomainState::Managed) && least(
        state.faulty_apps(),
    ) is Some {
        let id = least(state.faulty_apps())->0;
        let k = choose|k: Seq<char>| is_least(state.faulty_apps(), k);
        assert(state.faulty_apps().contains(id));
        assert(state.apps.contains_key(id));
        crate::text::lemma_text_less_irreflexive(id);
    }
}

/// A check passes exactly where there is no fault, and otherwise its error is the fault.
pub proof fn checks_report_their_fault(r: Result<(), StateModelError>, fault: Option<StateFault>)
    requires
        reports(r, fault),
    ensures
        r is Ok <==> fault is None,
        r is Err <==> fault is Some,
        r is Err ==> r->Err_0@ == fault->0,
{
}

} // verus!
