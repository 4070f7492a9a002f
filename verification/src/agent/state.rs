//! What the service knows of each application: its profile, its backend
//! process, its one running turn, and who may speak for it.
use vstd::prelude::*;
use crate::agent::config::{secure_packaged_file, FileFacts};
use crate::agent::protocol::{
    AgentErrorCode, AgentLane, AgentProfile, AgentRuntimeSource, AgentStatus,
};
use crate::agent::protocol::{profile_view, ProfileView};
use crate::device::DeviceProfile;
use crate::manifest::AppId;
use crate::ordered::OrderedMap;
use crate::path::FilePath;
use crate::path::components;
use crate::text::text_eq;

verus! {

/// The program of the packaged runtime.
pub const PACKAGED_PI: &'static str = "/home/root/apps/remagic/runtime/pi/bin/pi";

/// The interpreter of the packaged runtime.
pub const PACKAGED_NODE: &'static str = "/home/root/apps/remagic/runtime/pi/bin/node";

/// The settings of the packaged runtime.
pub const PACKAGED_SETTINGS: &'static str = "/home/root/apps/remagic/runtime/pi/runtime.env";

/// The program of an earlier runtime.
pub const LEGACY_PI: &'static str = "/home/root/node/bin/pi";

/// How long a preempted turn may take to end, in milliseconds.
pub const PREEMPT_TIMEOUT_MS: u64 = 3_000;

/// Who a client of the service is.
#[derive(Debug, PartialEq, Eq)]
pub struct ClientIdentity {
    pub app_id: AppId,
    pub generation: u64,
    pub principal: String,
}

/// The token of a principal, and the generation that it belongs to.
#[derive(Debug, PartialEq, Eq)]
pub struct PrincipalAuth {
    pub generation: u64,
    pub client_token: String,
}

/// A principal's token over texts.
pub struct AuthView {
    pub generation: u64,
    pub token: Seq<char>,
}

impl View for PrincipalAuth {
    type V = AuthView;

    open spec fn view(&self) -> AuthView {
        AuthView { generation: self.generation, token: self.client_token@ }
    }
}

impl Clone for PrincipalAuth {
    fn clone(&self) -> (r: PrincipalAuth)
        ensures
            r == *self,
    {
        PrincipalAuth { generation: self.generation, client_token: self.client_token.clone() }
    }
}

/// The turn that an application runs.
#[derive(Debug, PartialEq, Eq)]
pub struct ActiveTurn {
    pub id: String,
    pub lane: AgentLane,
    pub principal: String,
}

/// A turn over texts.
pub struct TurnView {
    pub id: Seq<char>,
    pub lane: AgentLane,
    pub principal: Seq<char>,
}

impl View for ActiveTurn {
    type V = TurnView;

    open spec fn view(&self) -> TurnView {
        TurnView { id: self.id@, lane: self.lane, principal: self.principal@ }
    }
}

/// What the service knows of an application.
#[derive(Debug)]
pub struct AppState {
    pub profile: Option<AgentProfile>,
    pub system_prompt: String,
    /// The number of its backend process.
    pub worker: Option<u64>,
    pub active: Option<ActiveTurn>,
    pub principals: OrderedMap<String, PrincipalAuth>,
}

/// What the service knows of an application, over texts.
#[verifier::ext_equal]
pub struct AppView {
    pub profile: Option<ProfileView>,
    pub system_prompt: Seq<char>,
    pub worker: Option<u64>,
    pub active: Option<TurnView>,
    pub principals: Map<Seq<char>, AuthView>,
}

/// The tokens of principals over texts.
pub open spec fn auth_views(map: Map<Seq<char>, PrincipalAuth>) -> Map<Seq<char>, AuthView> {
    Map::new(|k: Seq<char>| map.contains_key(k), |k: Seq<char>| map[k]@)
}

impl View for AppState {
    type V = AppView;

    open spec fn view(&self) -> AppView {
        AppView {
            profile: profile_view(self.profile),
            system_prompt: self.system_prompt@,
            worker: self.worker,
            active: match self.active {
                Some(turn) => Some(turn@),
                None => None,
            },
            principals: auth_views(self.principals@),
        }
    }
}

impl Clone for AppState {
    fn clone(&self) -> (r: AppState)
        ensures
            r@ == self@,
    {
        let principals = self.principals.clone();
        assert(auth_views(principals@) =~= auth_views(self.principals@));
        AppState {
            profile: match &self.profile {
                Some(profile) => Some(profile.clone()),
                None => None,
            },
            system_prompt: self.system_prompt.clone(),
            worker: self.worker,
            active: match &self.active {
                Some(turn) => Some(
                    ActiveTurn {
                        id: turn.id.clone(),
                        lane: turn.lane,
                        principal: turn.principal.clone(),
                    },
                ),
                None => None,
            },
            principals,
        }
    }
}

/// What a start of a turn needs next.
#[derive(Clone, Debug, PartialEq, Eq)]
pub enum StartStep {
    /// The turn does not start.
    Refused(AgentErrorCode),
    /// This turn has to end first; it is cancelled.
    Preempt(String),
    /// A new process is started, after this one is shut down.
    Spawn { shutdown: Option<u64> },
    /// This process runs the turn.
    Reuse(u64),
}

/// What a start of a turn needs next, over texts.
pub enum StartView {
    Refused(AgentErrorCode),
    Preempt(Seq<char>),
    Spawn(Option<u64>),
    Reuse(u64),
}

impl View for StartStep {
    type V = StartView;

    open spec fn view(&self) -> StartView {
        match self {
            StartStep::Refused(code) => StartView::Refused(*code),
            StartStep::Preempt(turn_id) => StartView::Preempt(turn_id@),
            StartStep::Spawn { shutdown } => StartView::Spawn(*shutdown),
            StartStep::Reuse(worker) => StartView::Reuse(*worker),
        }
    }
}

/// Only a person's request interrupts a turn, and only one that no person
/// asked for.
pub open spec fn preempts(lane: AgentLane, running: AgentLane) -> bool {
    lane == AgentLane::Interactive && running != AgentLane::Interactive
}

impl AppView {
    /// Nothing is known yet.
    pub open spec fn fresh() -> AppView {
        AppView {
            profile: None,
            system_prompt: Seq::empty(),
            worker: None,
            active: None,
            principals: Map::empty(),
        }
    }

    /// The process cannot run a turn of this profile and prompt: it has
    /// another one, or it has exited.
    pub open spec fn outdated(
        self,
        profile: ProfileView,
        system_prompt: Seq<char>,
        worker_closed: bool,
    ) -> bool {
        ||| self.profile != Some(profile)
        ||| self.system_prompt != system_prompt
        ||| self.worker is Some && worker_closed
    }

    /// What a start of a turn needs next.
    pub open spec fn start_step(
        self,
        profile: ProfileView,
        system_prompt: Seq<char>,
        lane: AgentLane,
        available: bool,
        worker_closed: bool,
    ) -> StartView {
        if !available {
            StartView::Refused(AgentErrorCode::Unavailable)
        } else if self.active is Some {
            if preempts(lane, self.active->0.lane) {
                StartView::Preempt(self.active->0.id)
            } else {
                StartView::Refused(AgentErrorCode::Busy)
            }
        } else if self.outdated(profile, system_prompt, worker_closed) {
            StartView::Spawn(self.worker)
        } else {
            match self.worker {
                Some(worker) => StartView::Reuse(worker),
                None => StartView::Spawn(None),
            }
        }
    }

    /// The application once the turn may start: an unusable process is let go.
    pub open spec fn prepared(
        self,
        profile: ProfileView,
        system_prompt: Seq<char>,
        worker_closed: bool,
    ) -> AppView {
        AppView {
            worker: if self.outdated(profile, system_prompt, worker_closed) {
                None
            } else {
                self.worker
            },
            ..self
        }
    }

    /// The application with a turn that runs.
    pub open spec fn running(
        self,
        turn: TurnView,
        profile: ProfileView,
        system_prompt: Seq<char>,
        worker: u64,
    ) -> AppView {
        AppView {
            profile: Some(profile),
            system_prompt,
            worker: Some(worker),
            active: Some(turn),
            ..self
        }
    }

    /// The application runs this turn.
    pub open spec fn runs(self, turn_id: Seq<char>) -> bool {
        self.active is Some && self.active->0.id == turn_id
    }

    /// What is known of a principal.
    pub open spec fn known(self, principal: Seq<char>) -> AuthView {
        if self.principals.contains_key(principal) {
            self.principals[principal]
        } else {
            AuthView { generation: 0, token: Seq::empty() }
        }
    }

    /// A principal of this generation may speak with this token: it is the one
    /// that the generation came with, or the generation is new and no turn of
    /// the principal runs.
    pub open spec fn admits(self, principal: Seq<char>, generation: u64, token: Seq<char>) -> bool {
        let known = self.known(principal);
        if known.generation > generation {
            false
        } else if known.generation == generation {
            known.token == token
        } else {
            !(self.active is Some && self.active->0.principal == principal)
        }
    }

    /// The application after a principal asked to be admitted. A new
    /// generation that is admitted binds its token.
    pub open spec fn asked(self, principal: Seq<char>, generation: u64, token: Seq<char>) -> AppView {
        let known = self.known(principal);
        AppView {
            principals: self.principals.insert(
                principal,
                if known.generation < generation && self.admits(principal, generation, token) {
                    AuthView { generation, token }
                } else {
                    known
                },
            ),
            ..self
        }
    }

    /// The application after its profile was reloaded. The same profile only
    /// checks the runtime and keeps a warm process.
    pub open spec fn reloaded(self, profile: Option<ProfileView>) -> AppView {
        if profile is Some && profile == self.profile {
            self
        } else {
            AppView {
                worker: None,
                profile: if profile is Some {
                    profile
                } else {
                    self.profile
                },
                ..self
            }
        }
    }
}

/// What was found of the runtime's files.
#[derive(Clone, Copy, Debug, PartialEq, Eq, Structural)]
pub struct RuntimeFiles {
    /// The program itself, without following a link.
    pub program: Option<FileFacts>,
    /// The program behind links.
    pub target: Option<FileFacts>,
    pub node: Option<FileFacts>,
    pub settings: Option<FileFacts>,
}

/// A path of the packaged runtime's program.
pub open spec fn is_packaged(path: Seq<char>) -> bool {
    components(path) == components(PACKAGED_PI@)
}

/// The runtime can be started. The packaged one has to be whole and
/// untouched; another one has to be executable.
pub open spec fn runs_pi(path: Seq<char>, files: RuntimeFiles, user: u32) -> bool {
    if is_packaged(path) {
        &&& files.program is Some && files.program->0.secure(user)
            && files.program->0.executable()
        &&& files.node is Some && files.node->0.secure(user) && files.node->0.executable()
        &&& files.settings is Some && files.settings->0.secure(user)
    } else {
        files.target is Some && files.target->0.regular && files.target->0.executable()
    }
}

/// Whether the runtime can be started.
pub fn pi_available(path: &FilePath, files: &RuntimeFiles, user: u32) -> (r: bool)
    ensures
        r == runs_pi(path@, *files, user),
{
    if path.same_as(&FilePath::new(PACKAGED_PI)) {
        secure_packaged_file(files.program, user, true) && secure_packaged_file(
            files.node,
            user,
            true,
        ) && secure_packaged_file(files.settings, user, false)
    } else {
        match files.target {
            Some(target) => target.regular && target.mode & 0o111 != 0,
            None => false,
        }
    }
}

/// Where the runtime comes from.
pub open spec fn source_of(path: Seq<char>, available: bool) -> AgentRuntimeSource {
    if !available {
        AgentRuntimeSource::Missing
    } else if is_packaged(path) {
        AgentRuntimeSource::Packaged
    } else if components(path) == components(LEGACY_PI@) {
        AgentRuntimeSource::Legacy
    } else {
        AgentRuntimeSource::Override
    }
}

/// Where the runtime comes from.
pub fn runtime_source(path: &FilePath, available: bool) -> (r: AgentRuntimeSource)
    ensures
        r == source_of(path@, available),
{
    if !available {
        AgentRuntimeSource::Missing
    } else if path.same_as(&FilePath::new(PACKAGED_PI)) {
        AgentRuntimeSource::Packaged
    } else if path.same_as(&FilePath::new(LEGACY_PI)) {
        AgentRuntimeSource::Legacy
    } else {
        AgentRuntimeSource::Override
    }
}

/// What is done about a turn that has to end first.
#[derive(Clone, Copy, Debug, PartialEq, Eq, Structural)]
pub enum PreemptStep {
    /// It has ended; the start is tried again.
    Ended,
    /// It is waited for.
    Wait,
    /// It did not end in time.
    Refused(AgentErrorCode),
}

/// The applications that the service knows.
#[derive(Debug)]
pub struct AgentState {
    apps: OrderedMap<AppId, AppState>,
    device: DeviceProfile,
    pi_binary: FilePath,
}

impl View for AgentState {
    type V = Map<Seq<char>, AppView>;

    closed spec fn view(&self) -> Map<Seq<char>, AppView> {
        Map::new(
            |k: Seq<char>| self.apps@.contains_key(k),
            |k: Seq<char>| self.apps@[k]@,
        )
    }
}

/// What is known of an application.
pub open spec fn state_of(apps: Map<Seq<char>, AppView>, app_id: Seq<char>) -> AppView {
    if apps.contains_key(app_id) {
        apps[app_id]
    } else {
        AppView::fresh()
    }
}

impl AgentState {
    /// The program of the runtime.
    pub closed spec fn program(&self) -> Seq<char> {
        self.pi_binary@
    }

    /// The device.
    pub closed spec fn on_device(&self) -> DeviceProfile {
        self.device
    }

    /// The rest of the state is the same.
    pub open spec fn same_host(&self, other: &AgentState) -> bool {
        self.program() == other.program() && self.on_device() == other.on_device()
    }

    /// No application is known yet.
    pub fn new(device: DeviceProfile, pi_binary: FilePath) -> (r: AgentState)
        ensures
            r@ == Map::<Seq<char>, AppView>::empty(),
            r.program() == pi_binary@,
            r.on_device() == device,
    {
        let state = AgentState { apps: OrderedMap::new(), device, pi_binary };
        assert(state@ =~= Map::<Seq<char>, AppView>::empty());
        state
    }

    /// What is known of an application.
    fn entry(&self, app_id: &AppId) -> (r: AppState)
        ensures
            r@ == state_of(self@, app_id@),
    {
        match self.apps.get(app_id.as_str()) {
            Some(state) => state.clone(),
            None => {
                let principals: OrderedMap<String, PrincipalAuth> = OrderedMap::new();
                assert(auth_views(principals@) =~= Map::<Seq<char>, AuthView>::empty());
                AppState {
                    profile: None,
                    system_prompt: String::new(),
                    worker: None,
                    active: None,
                    principals,
                }
            },
        }
    }

    /// Stores what is known of an application.
    fn store(&mut self, app_id: &AppId, state: AppState)
        ensures
            final(self)@ == old(self)@.insert(app_id@, state@),
            final(self).same_host(old(self)),
    {
        let ghost before = self@;
        self.apps.insert(app_id.clone(), state);
        assert(self@ =~= before.insert(app_id@, state@));
    }

    /// The provider of an application's profile.
    pub fn provider(&self, app_id: &AppId) -> (r: Option<String>)
        ensures
            match r {
                Some(provider) => state_of(self@, app_id@).profile is Some && provider@
                    == state_of(self@, app_id@).profile->0.provider,
                None => state_of(self@, app_id@).profile is None,
            },
    {
        match self.apps.get(app_id.as_str()) {
            Some(state) => match &state.profile {
                Some(profile) => Some(profile.provider.clone()),
                None => None,
            },
            None => None,
        }
    }

    /// What the service tells of an application, from what was found of the
    /// runtime and of the provider's key.
    pub fn status(&self, app_id: &AppId, available: bool, provider_configured: bool) -> (r:
        AgentStatus)
        ensures
            ({
                let state = state_of(self@, app_id@);
                &&& r.available == available
                &&& r.provider_configured == (state.profile is Some && provider_configured)
                &&& r.runtime_source == source_of(self.program(), available)
                &&& r.busy == (state.active is Some)
                &&& match r.active_turn_id {
                    Some(turn_id) => state.active is Some && turn_id@ == state.active->0.id,
                    None => state.active is None,
                }
                &&& profile_view(r.profile) == state.profile
                &&& r.device.same_as(&self.on_device())
            }),
    {
        let state = self.entry(app_id);
        AgentStatus {
            available,
            provider_configured: state.profile.is_some() && provider_configured,
            runtime_source: runtime_source(&self.pi_binary, available),
            busy: state.active.is_some(),
            active_turn_id: match &state.active {
                Some(turn) => Some(turn.id.clone()),
                None => None,
            },
            profile: state.profile,
            device: self.device.clone(),
        }
    }

    /// Decides on the start of a turn, from what was found of the runtime and
    /// of the application's process. The turn runs only once it has been
    /// claimed.
    pub fn start(
        &mut self,
        app_id: &AppId,
        profile: &AgentProfile,
        system_prompt: &str,
        lane: AgentLane,
        available: bool,
        worker_closed: bool,
    ) -> (r: StartStep)
        ensures
            ({
                let state = state_of(old(self)@, app_id@);
                &&& r@ == state.start_step(
                    profile@,
                    system_prompt@,
                    lane,
                    available,
                    worker_closed,
                )
                &&& final(self)@ == (if r is Spawn || r is Reuse {
                    old(self)@.insert(
                        app_id@,
                        state.prepared(profile@, system_prompt@, worker_closed),
                    )
                } else {
                    old(self)@
                })
                &&& final(self).same_host(old(self))
            }),
    {
        if !available {
            return StartStep::Refused(AgentErrorCode::Unavailable);
        }
        let mut state = self.entry(app_id);
        if let Some(active) = &state.active {
            if lane == AgentLane::Interactive && active.lane != AgentLane::Interactive {
                return StartStep::Preempt(active.id.clone());
            }
            return StartStep::Refused(AgentErrorCode::Busy);
        }
        let same_profile = match &state.profile {
            Some(known) => *known == *profile,
            None => false,
        };
        let outdated = !same_profile || !text_eq(state.system_prompt.as_str(), system_prompt)
            || state.worker.is_some() && worker_closed;
        let step = if outdated {
            StartStep::Spawn { shutdown: state.worker }
        } else {
            match state.worker {
                Some(worker) => StartStep::Reuse(worker),
                None => StartStep::Spawn { shutdown: None },
            }
        };
        if outdated {
            state.worker = None;
        }
        self.store(app_id, state);
        step
    }

    /// Claims the application's one turn for a process that is ready. The id
    /// of the turn comes back, or nothing where another turn runs.
    pub fn claim(
        &mut self,
        app_id: &AppId,
        request_id: &str,
        profile: AgentProfile,
        system_prompt: String,
        lane: AgentLane,
        principal: String,
        worker: u64,
    ) -> (r: Option<String>)
        ensures
            ({
                let state = state_of(old(self)@, app_id@);
                let id = app_id@ + ":"@ + request_id@;
                &&& match r {
                    Some(turn_id) => {
                        &&& state.active is None
                        &&& turn_id@ == id
                        &&& final(self)@ == old(self)@.insert(
                            app_id@,
                            state.running(
                                TurnView { id, lane, principal: principal@ },
                                profile@,
                                system_prompt@,
                                worker,
                            ),
                        )
                    },
                    None => state.active is Some && final(self)@ == old(self)@,
                }
                &&& final(self).same_host(old(self))
            }),
    {
        let mut state = self.entry(app_id);
        if state.active.is_some() {
            return None;
        }
        let mut turn_id = app_id.to_text();
        turn_id.append(":");
        turn_id.append(request_id);
        state.profile = Some(profile);
        state.system_prompt = system_prompt;
        state.worker = Some(worker);
        state.active = Some(ActiveTurn { id: turn_id.clone(), lane, principal });
        self.store(app_id, state);
        Some(turn_id)
    }

    /// What is done about a turn that has to end first.
    pub fn preempt_step(&self, app_id: &AppId, waited_ms: u64) -> (r: PreemptStep)
        ensures
            r == (if state_of(self@, app_id@).active is None {
                PreemptStep::Ended
            } else if waited_ms >= PREEMPT_TIMEOUT_MS {
                PreemptStep::Refused(AgentErrorCode::Busy)
            } else {
                PreemptStep::Wait
            }),
    {
        let state = self.entry(app_id);
        if state.active.is_none() {
            PreemptStep::Ended
        } else if waited_ms >= PREEMPT_TIMEOUT_MS {
            PreemptStep::Refused(AgentErrorCode::Busy)
        } else {
            PreemptStep::Wait
        }
    }

    /// Ends a turn, where it is the one that runs.
    pub fn finish(&mut self, app_id: &AppId, turn_id: &str)
        ensures
            ({
                let state = state_of(old(self)@, app_id@);
                &&& final(self)@ == (if state.runs(turn_id@) {
                    old(self)@.insert(app_id@, AppView { active: None, ..state })
                } else {
                    old(self)@
                })
                &&& final(self).same_host(old(self))
            }),
    {
        let mut state = self.entry(app_id);
        let runs = match &state.active {
            Some(turn) => text_eq(turn.id.as_str(), turn_id),
            None => false,
        };
        if runs {
            state.active = None;
            self.store(app_id, state);
        }
    }

    /// Whether a turn runs, so that it can be cancelled.
    pub fn cancel(&self, app_id: &AppId, turn_id: &str) -> (r: bool)
        ensures
            r == state_of(self@, app_id@).runs(turn_id@),
    {
        let state = self.entry(app_id);
        match &state.active {
            Some(turn) => text_eq(turn.id.as_str(), turn_id),
            None => false,
        }
    }

    /// Reloads the profile of an application, which is refused while a turn
    /// runs. The process to shut down comes back.
    pub fn reload_profile(&mut self, app_id: &AppId, profile: Option<AgentProfile>) -> (r: Result<
        Option<u64>,
        AgentErrorCode,
    >)
        ensures
            ({
                let state = state_of(old(self)@, app_id@);
                let next = state.reloaded(profile_view(profile));
                &&& match r {
                    Ok(shutdown) => {
                        &&& state.active is None
                        &&& shutdown == (if next.worker == state.worker {
                            None
                        } else {
                            state.worker
                        })
                        &&& final(self)@ == old(self)@.insert(app_id@, next)
                    },
                    Err(code) => {
                        &&& state.active is Some && code == AgentErrorCode::Busy
                        &&& final(self)@ == old(self)@
                    },
                }
                &&& final(self).same_host(old(self))
            }),
    {
        let mut state = self.entry(app_id);
        if state.active.is_some() {
            return Err(AgentErrorCode::Busy);
        }
        let unchanged = match (&profile, &state.profile) {
            (Some(wanted), Some(known)) => *wanted == *known,
            _ => false,
        };
        if unchanged {
            self.store(app_id, state);
            return Ok(None);
        }
        let shutdown = state.worker;
        state.worker = None;
        if profile.is_some() {
            state.profile = profile;
        }
        self.store(app_id, state);
        Ok(shutdown)
    }

    /// The process whose session is reset, which is refused while a turn runs.
    /// Without a process there is no context to clear.
    pub fn new_session(&self, app_id: &AppId) -> (r: Result<Option<u64>, AgentErrorCode>)
        ensures
            ({
                let state = state_of(self@, app_id@);
                match r {
                    Ok(worker) => state.active is None && worker == state.worker,
                    Err(code) => state.active is Some && code == AgentErrorCode::Busy,
                }
            }),
    {
        let state = self.entry(app_id);
        if state.active.is_some() {
            return Err(AgentErrorCode::Busy);
        }
        Ok(state.worker)
    }

    /// Whether a client may speak for an application with this token.
    pub fn authorize(&mut self, identity: &ClientIdentity, app_id: &AppId, token: &str) -> (r: bool)
        ensures
            ({
                let state = state_of(old(self)@, app_id@);
                let principal = identity.principal@;
                &&& r == (identity.app_id@ == app_id@ && state.admits(
                    principal,
                    identity.generation,
                    token@,
                ))
                &&& final(self)@ == (if identity.app_id@ == app_id@ {
                    old(self)@.insert(
                        app_id@,
                        state.asked(principal, identity.generation, token@),
                    )
                } else {
                    old(self)@
                })
                &&& final(self).same_host(old(self))
            }),
    {
        if !text_eq(identity.app_id.as_str(), app_id.as_str()) {
            return false;
        }
        let mut state = self.entry(app_id);
        let ghost before = state@;
        let known = match state.principals.get(identity.principal.as_str()) {
            Some(known) => known.clone(),
            None => PrincipalAuth { generation: 0, client_token: String::new() },
        };
        assert(known@ == before.known(identity.principal@));
        let busy = match &state.active {
            Some(turn) => text_eq(turn.principal.as_str(), identity.principal.as_str()),
            None => false,
        };
        let admitted = if known.generation > identity.generation {
            false
        } else if known.generation == identity.generation {
            text_eq(known.client_token.as_str(), token)
        } else {
            !busy
        };
        let next = if known.generation < identity.generation && admitted {
            PrincipalAuth { generation: identity.generation, client_token: token.to_owned() }
        } else {
            known
        };
        let ghost stored = next@;
        state.principals.insert(identity.principal.clone(), next);
        assert(state@.principals =~= before.principals.insert(identity.principal@, stored));
        self.store(app_id, state);
        admitted
    }
}

/// An application that runs a turn starts no second one: another request is
/// refused as busy, or it is a person's request and the turn has to end first.
pub proof fn one_turn_runs_at_a_time(
    state: AppView,
    profile: ProfileView,
    system_prompt: Seq<char>,
    lane: AgentLane,
    worker_closed: bool,
)
    requires
        state.active is Some,
    ensures
        ({
            let step = state.start_step(profile, system_prompt, lane, true, worker_closed);
            ||| step == StartView::Refused(AgentErrorCode::Busy)
            ||| step == StartView::Preempt(state.active->0.id) && lane == AgentLane::Interactive
                && state.active->0.lane != AgentLane::Interactive
        }),
{
}

/// A turn that a person asked for is never interrupted by another request.
pub proof fn interactive_turns_are_not_preempted(
    state: AppView,
    profile: ProfileView,
    system_prompt: Seq<char>,
    lane: AgentLane,
    worker_closed: bool,
)
    requires
        state.active is Some,
        state.active->0.lane == AgentLane::Interactive,
    ensures
        state.start_step(profile, system_prompt, lane, true, worker_closed) == StartView::Refused(
            AgentErrorCode::Busy,
        ),
{
}

/// The turn of one application leaves the others alone.
pub proof fn applications_are_independent(
    apps: Map<Seq<char>, AppView>,
    app_id: Seq<char>,
    next: AppView,
    other: Seq<char>,
)
    requires
        other != app_id,
    ensures
        state_of(apps.insert(app_id, next), other) == state_of(apps, other),
{
}

/// A turn that was claimed runs until it is finished, and then another may
/// start on the same process.
pub proof fn finished_turns_free_the_slot(
    state: AppView,
    turn: TurnView,
    profile: ProfileView,
    system_prompt: Seq<char>,
    worker: u64,
    lane: AgentLane,
)
    ensures
        ({
            let running = state.running(turn, profile, system_prompt, worker);
            let finished = AppView { active: None, ..running };
            &&& running.runs(turn.id)
            &&& !finished.runs(turn.id)
            &&& finished.start_step(profile, system_prompt, lane, true, false) == StartView::Reuse(
                worker,
            )
        }),
{
}

/// Checking an unchanged profile keeps the warm process.
pub proof fn unchanged_profiles_keep_the_process(state: AppView)
    requires
        state.profile is Some,
    ensures
        state.reloaded(state.profile) == state,
{
}

/// Who was admitted stays admitted with the same token, and with no other one.
pub proof fn tokens_are_bound_to_generations(
    state: AppView,
    principal: Seq<char>,
    generation: u64,
    token: Seq<char>,
    other: Seq<char>,
)
    requires
        state.admits(principal, generation, token),
        other != token,
    ensures
        ({
            let after = state.asked(principal, generation, token);
            &&& after.admits(principal, generation, token)
            &&& !after.admits(principal, generation, other)
        }),
{
}

/// Once a generation was admitted, an earlier one is refused.
pub proof fn stale_generations_are_refused(
    state: AppView,
    principal: Seq<char>,
    generation: u64,
    token: Seq<char>,
    earlier: u64,
    other: Seq<char>,
)
    requires
        state.admits(principal, generation, token),
        earlier < generation,
    ensures
        !state.asked(principal, generation, token).admits(principal, earlier, other),
{
}

/// Principals of one application are admitted independently.
pub proof fn principals_are_independent(
    state: AppView,
    principal: Seq<char>,
    generation: u64,
    token: Seq<char>,
    other: Seq<char>,
)
    requires
        other != principal,
    ensures
        state.asked(principal, generation, token).known(other) == state.known(other),
        forall|g: u64, t: Seq<char>|
            state.asked(principal, generation, token).admits(other, g, t) == state.admits(
                other,
                g,
                t,
            ),
{
}

/// While a principal's turn runs, a new generation cannot take its place.
pub proof fn running_principals_are_not_replaced(
    state: AppView,
    principal: Seq<char>,
    generation: u64,
    token: Seq<char>,
)
    requires
        state.active is Some,
        state.active->0.principal == principal,
        state.known(principal).generation < generation,
    ensures
        !state.admits(principal, generation, token),
        state.asked(principal, generation, token).known(principal) == state.known(principal),
{
}

/// A turn runs only on a process that was started for its own profile and
/// system prompt and has not exited. Otherwise the process is shut down and let
/// go of, and a new one is started.
pub proof fn turns_run_on_a_process_of_their_own(
    state: AppView,
    profile: ProfileView,
    system_prompt: Seq<char>,
    lane: AgentLane,
    worker_closed: bool,
    worker: u64,
)
    requires
        state.active is None,
    ensures
        ({
            let step = state.start_step(profile, system_prompt, lane, true, worker_closed);
            let after = state.prepared(profile, system_prompt, worker_closed);
            let fits = state.worker is Some && !worker_closed && state.profile is Some
                && state.profile->0.provider == profile.provider && state.profile->0.model
                == profile.model && state.profile->0.thinking == profile.thinking
                && state.profile->0.tools == profile.tools && state.system_prompt == system_prompt;
            &&& step == StartView::Reuse(worker) <==> fits && state.worker == Some(worker)
            &&& !fits ==> step == StartView::Spawn(state.worker) && after.worker is None
            &&& fits ==> after.worker == state.worker
            &&& after.profile == state.profile
            &&& after.system_prompt == state.system_prompt
            &&& after.active is None
            &&& after.principals == state.principals
        }),
{
}

/// Without a runtime nothing starts. While a turn runs, another request is
/// refused as busy, but for a person's request on a turn that no person asked
/// for: that turn has to end first.
pub proof fn starts_wait_for_the_runtime_and_the_slot(
    state: AppView,
    profile: ProfileView,
    system_prompt: Seq<char>,
    lane: AgentLane,
    worker_closed: bool,
)
    ensures
        state.start_step(profile, system_prompt, lane, false, worker_closed) == StartView::Refused(
            AgentErrorCode::Unavailable,
        ),
        state.active matches Some(turn) ==> {
            let step = state.start_step(profile, system_prompt, lane, true, worker_closed);
            &&& lane == AgentLane::Interactive && (turn.lane == AgentLane::Scheduled || turn.lane
                == AgentLane::Speculative) ==> step == StartView::Preempt(turn.id)
            &&& lane != AgentLane::Interactive || turn.lane == AgentLane::Interactive ==> step
                == StartView::Refused(AgentErrorCode::Busy)
        },
        state.active is None ==> {
            let step = state.start_step(profile, system_prompt, lane, true, worker_closed);
            step is Spawn || step is Reuse
        },
{
}

/// A turn that was claimed is recorded with its profile, its prompt and its
/// process, so that the next turn of the same kind runs on the same process.
/// Who may speak for the application is not touched.
pub proof fn claimed_turns_are_recorded(
    state: AppView,
    turn: TurnView,
    profile: ProfileView,
    system_prompt: Seq<char>,
    worker: u64,
    other: Seq<char>,
)
    ensures
        ({
            let after = state.running(turn, profile, system_prompt, worker);
            &&& after.profile == Some(profile)
            &&& after.system_prompt == system_prompt
            &&& after.worker == Some(worker)
            &&& after.active == Some(turn)
            &&& after.principals == state.principals
            &&& after.runs(other) <==> other == turn.id
        }),
        state.active is None ==> !state.runs(other),
{
}

/// A principal is admitted in its current generation with the token that the
/// generation came with, in a later one with any token unless a turn of its own
/// runs, and in an earlier one never. Nothing is known of a principal at first.
pub proof fn admission_follows_the_generation(
    state: AppView,
    principal: Seq<char>,
    generation: u64,
    token: Seq<char>,
)
    ensures
        ({
            let current = if state.principals.contains_key(principal) {
                state.principals[principal].generation
            } else {
                0
            };
            let bound = if state.principals.contains_key(principal) {
                state.principals[principal].token
            } else {
                Seq::empty()
            };
            let own_turn = state.active is Some && state.active->0.principal == principal;
            let after = state.asked(principal, generation, token);
            &&& generation < current ==> !state.admits(principal, generation, token)
            &&& generation == current ==> (state.admits(principal, generation, token) <==> token
                == bound)
            &&& generation > current ==> (state.admits(principal, generation, token)
                <==> !own_turn)
            &&& after.principals.contains_key(principal)
            &&& generation > current && !own_turn ==> after.principals[principal].generation
                == generation && after.principals[principal].token == token
            &&& generation <= current || own_turn ==> after.principals[principal].generation
                == current && after.principals[principal].token == bound
            &&& after.profile == state.profile
            &&& after.system_prompt == state.system_prompt
            &&& after.worker == state.worker
            &&& after.active == state.active
        }),
{
}

/// A reload with another profile, or with none, lets the process go, and the
/// profile that was given stays; without one the old profile stays. Nothing
/// else changes.
pub proof fn other_profiles_end_the_process(state: AppView, profile: Option<ProfileView>)
    ensures
        ({
            let after = state.reloaded(profile);
            &&& profile is None || profile != state.profile ==> after.worker is None
            &&& profile is Some && profile == state.profile ==> after.worker == state.worker
            &&& profile is Some ==> after.profile == profile
            &&& profile is None ==> after.profile == state.profile
            &&& after.system_prompt == state.system_prompt
            &&& after.active == state.active
            &&& after.principals == state.principals
        }),
{
}

/// The packaged runtime is available exactly where its program, its
/// interpreter and its settings are regular files of this user that nobody else
/// may write, and the first two are executable. Another runtime has to be an
/// executable file.
pub proof fn a_touched_runtime_is_not_available(path: Seq<char>, files: RuntimeFiles, user: u32)
    ensures
        components(path) == components(PACKAGED_PI@) ==> (runs_pi(path, files, user) <==> {
            &&& files.program matches Some(program) && !program.symlink && program.regular
                && program.owner == user && program.mode & 0o022 == 0 && program.mode & 0o111 != 0
            &&& files.node matches Some(node) && !node.symlink && node.regular && node.owner == user
                && node.mode & 0o022 == 0 && node.mode & 0o111 != 0
            &&& files.settings matches Some(settings) && !settings.symlink && settings.regular
                && settings.owner == user && settings.mode & 0o022 == 0
        }),
        components(path) != components(PACKAGED_PI@) ==> (runs_pi(path, files, user) <==> {
            files.target matches Some(target) && target.regular && target.mode & 0o111 != 0
        }),
        source_of(path, false) == AgentRuntimeSource::Missing,
        source_of(PACKAGED_PI@, true) == AgentRuntimeSource::Packaged,
        source_of(path, true) != AgentRuntimeSource::Missing,
        source_of(path, true) == AgentRuntimeSource::Packaged <==> components(path) == components(
            PACKAGED_PI@,
        ),
        source_of(path, true) == AgentRuntimeSource::Legacy <==> components(path) == components(
            LEGACY_PI@,
        ) && components(path) != components(PACKAGED_PI@),
{
}

/// An application that the service has not heard of has no profile, process,
/// turn or principal.
pub proof fn new_applications_start_afresh(apps: Map<Seq<char>, AppView>, app_id: Seq<char>)
    ensures
        !apps.contains_key(app_id) ==> {
            let state = state_of(apps, app_id);
            &&& state.profile is None && state.worker is None && state.active is None
            &&& state.system_prompt.len() == 0
            &&& state.principals == Map::<Seq<char>, AuthView>::empty()
        },
        apps.contains_key(app_id) ==> state_of(apps, app_id) == apps[app_id],
{
}

} // verus!
