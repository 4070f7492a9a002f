//! Changes of one application.
use vstd::prelude::*;
use crate::manifest::AppId;
use crate::state::model::{
    copy_id, is_id, AppInstance, AppInstanceState, AppToken, StateModelError, SupervisorState,
    SystemDomainState,
};
use crate::state::model::{
    instance_views, optional_text, InstanceView, StateFault, SupervisorView, TokenView,
};

verus! {

/// One less than a number, or zero.
pub open spec fn one_less(n: u64) -> u64 {
    if n == 0 {
        0
    } else {
        (n - 1) as u64
    }
}

/// The process that a start brings to life.
pub open spec fn started(id: Seq<char>, generation: u64, pid: Option<u32>) -> InstanceView {
    InstanceView {
        token: TokenView { app_id: id, generation, foreground_epoch: 0, lease_id: None },
        state: AppInstanceState::Starting,
        pid,
        title: Seq::empty(),
        subtitle: Seq::empty(),
        last_error: None,
    }
}

impl InstanceView {
    /// The process without its display lease, in another state.
    pub open spec fn released(self, state: AppInstanceState) -> InstanceView {
        InstanceView { token: TokenView { lease_id: None, ..self.token }, state, ..self }
    }
}

impl SupervisorView {
    /// No further change can be counted.
    pub open spec fn exhausted(self) -> bool {
        self.state_revision == u64::MAX
    }

    /// The state after a counted change.
    pub open spec fn counted(self) -> SupervisorView {
        SupervisorView { state_revision: (self.state_revision + 1) as u64, ..self }
    }

    /// The fault of naming a process that is not the current one.
    pub open spec fn process_fault(self, id: Seq<char>, generation: u64) -> Option<StateFault> {
        if self.exhausted() {
            Some(StateFault::RevisionOverflow)
        } else if !self.apps.contains_key(id) {
            Some(StateFault::UnknownApp(id))
        } else if self.apps[id].token.generation != generation {
            Some(
                StateFault::StaleGeneration(
                    id,
                    one_less(self.apps[id].token.generation),
                    generation,
                ),
            )
        } else {
            None
        }
    }

    /// The foreground pointer once an application has left the foreground.
    pub open spec fn pointer_without(self, id: Seq<char>) -> Option<Seq<char>> {
        if self.foreground_app == Some(id) {
            None
        } else {
            self.foreground_app
        }
    }

    /// Why an application cannot be started.
    pub open spec fn start_fault(self, id: Seq<char>, generation: u64) -> Option<StateFault> {
        if self.exhausted() {
            Some(StateFault::RevisionOverflow)
        } else if self.domain != SystemDomainState::Managed || self.sleeping {
            Some(StateFault::LaunchOutsideActiveManaged)
        } else if generation == 0 {
            Some(StateFault::ZeroGeneration(id))
        } else if self.apps.contains_key(id) && generation <= self.apps[id].token.generation {
            Some(StateFault::StaleGeneration(id, self.apps[id].token.generation, generation))
        } else if self.apps.contains_key(id) && !self.apps[id].state.terminal() {
            Some(StateFault::AppAlreadyRunning(id))
        } else {
            None
        }
    }

    /// The state after a start.
    pub open spec fn after_start(self, id: Seq<char>, generation: u64, pid: Option<u32>) -> Self {
        SupervisorView { apps: self.apps.insert(id, started(id, generation, pid)), ..self }.counted()
    }

    /// Why an application cannot come to the foreground.
    pub open spec fn foreground_fault(
        self,
        id: Seq<char>,
        generation: u64,
        epoch: u64,
        lease: u64,
    ) -> Option<StateFault> {
        if self.exhausted() {
            Some(StateFault::RevisionOverflow)
        } else if self.domain != SystemDomainState::Managed || self.sleeping {
            Some(StateFault::LaunchOutsideActiveManaged)
        } else if self.foreground_app is Some {
            Some(StateFault::MultipleForegroundApps)
        } else if self.process_fault(id, generation) is Some {
            self.process_fault(id, generation)
        } else if self.apps[id].state != AppInstanceState::Starting && self.apps[id].state
            != AppInstanceState::Background {
            Some(
                StateFault::InvalidAppTransition(
                    id,
                    self.apps[id].state,
                    AppInstanceState::Foreground,
                ),
            )
        } else if epoch <= self.apps[id].token.foreground_epoch {
            Some(StateFault::StaleForegroundEpoch(id, self.apps[id].token.foreground_epoch, epoch))
        } else if lease == 0 {
            Some(StateFault::ZeroLease(id))
        } else {
            None
        }
    }

    /// The state after an application came to the foreground.
    pub open spec fn after_foreground(self, id: Seq<char>, epoch: u64, lease: u64) -> Self {
        let instance = InstanceView {
            token: TokenView {
                foreground_epoch: epoch,
                lease_id: Some(lease),
                ..self.apps[id].token
            },
            state: AppInstanceState::Foreground,
            ..self.apps[id]
        };
        SupervisorView {
            apps: self.apps.insert(id, instance),
            foreground_app: Some(id),
            last_app: Some(id),
            ..self
        }.counted()
    }

    /// Why an application cannot be reported ready in the background.
    pub open spec fn ready_fault(self, id: Seq<char>, generation: u64) -> Option<StateFault> {
        if self.process_fault(id, generation) is Some {
            self.process_fault(id, generation)
        } else if self.apps[id].state != AppInstanceState::Starting {
            Some(
                StateFault::InvalidAppTransition(
                    id,
                    self.apps[id].state,
                    AppInstanceState::Background,
                ),
            )
        } else {
            None
        }
    }

    /// The state after an application became ready in the background.
    pub open spec fn after_ready(
        self,
        id: Seq<char>,
        title: Seq<char>,
        subtitle: Seq<char>,
    ) -> Self {
        let instance = InstanceView {
            state: AppInstanceState::Background,
            title,
            subtitle,
            ..self.apps[id]
        };
        SupervisorView { apps: self.apps.insert(id, instance), ..self }.counted()
    }

    /// Why an application cannot enter the background.
    pub open spec fn background_fault(
        self,
        id: Seq<char>,
        generation: u64,
        epoch: u64,
    ) -> Option<StateFault> {
        if self.process_fault(id, generation) is Some {
            self.process_fault(id, generation)
        } else if self.apps[id].state != AppInstanceState::Foreground
            || self.apps[id].token.foreground_epoch != epoch {
            Some(
                StateFault::StaleForegroundEpoch(
                    id,
                    one_less(self.apps[id].token.foreground_epoch),
                    epoch,
                ),
            )
        } else {
            None
        }
    }

    /// The state after an application entered the background.
    pub open spec fn after_background(self, id: Seq<char>) -> Self {
        SupervisorView {
            apps: self.apps.insert(id, self.apps[id].released(AppInstanceState::Background)),
            foreground_app: None,
            last_app: Some(id),
            ..self
        }.counted()
    }

    /// Why an application cannot be asked to stop.
    pub open spec fn stop_fault(self, id: Seq<char>, generation: u64) -> Option<StateFault> {
        if self.process_fault(id, generation) is Some {
            self.process_fault(id, generation)
        } else if self.apps[id].state.terminal() || self.apps[id].state
            == AppInstanceState::Stopping {
            Some(
                StateFault::InvalidAppTransition(
                    id,
                    self.apps[id].state,
                    AppInstanceState::Stopping,
                ),
            )
        } else {
            None
        }
    }

    /// The state after an application was asked to stop.
    pub open spec fn after_stop(self, id: Seq<char>) -> Self {
        SupervisorView {
            apps: self.apps.insert(id, self.apps[id].released(AppInstanceState::Stopping)),
            foreground_app: self.pointer_without(id),
            ..self
        }.counted()
    }

    /// The last state of a process.
    pub open spec fn end_state(crashed: bool) -> AppInstanceState {
        if crashed {
            AppInstanceState::Crashed
        } else {
            AppInstanceState::Exited
        }
    }

    /// Why an application cannot be reported gone.
    pub open spec fn finish_fault(
        self,
        id: Seq<char>,
        generation: u64,
        crashed: bool,
    ) -> Option<StateFault> {
        if self.process_fault(id, generation) is Some {
            self.process_fault(id, generation)
        } else if self.apps[id].state.terminal() {
            Some(
                StateFault::InvalidAppTransition(
                    id,
                    self.apps[id].state,
                    Self::end_state(crashed),
                ),
            )
        } else {
            None
        }
    }

    /// The state after an application is gone.
    pub open spec fn after_finish(
        self,
        id: Seq<char>,
        crashed: bool,
        error: Option<Seq<char>>,
    ) -> Self {
        let instance = InstanceView {
            pid: None,
            last_error: error,
            ..self.apps[id].released(Self::end_state(crashed))
        };
        SupervisorView {
            apps: self.apps.insert(id, instance),
            foreground_app: self.pointer_without(id),
            ..self
        }.counted()
    }

    /// Why an application cannot be reported unresponsive.
    pub open spec fn unresponsive_fault(self, id: Seq<char>, generation: u64) -> Option<
        StateFault,
    > {
        if self.process_fault(id, generation) is Some {
            self.process_fault(id, generation)
        } else if self.apps[id].state.terminal() || self.apps[id].state
            == AppInstanceState::Unresponsive {
            Some(
                StateFault::InvalidAppTransition(
                    id,
                    self.apps[id].state,
                    AppInstanceState::Unresponsive,
                ),
            )
        } else {
            None
        }
    }

    /// The state after an application stopped responding.
    pub open spec fn after_unresponsive(self, id: Seq<char>, error: Seq<char>) -> Self {
        let instance = InstanceView {
            last_error: Some(error),
            ..self.apps[id].released(AppInstanceState::Unresponsive)
        };
        SupervisorView {
            apps: self.apps.insert(id, instance),
            foreground_app: self.pointer_without(id),
            ..self
        }.counted()
    }
}

/// The outcome of a change: the new state and the application's token, or
/// the old state and the fault.
pub open spec fn changes(
    before: SupervisorView,
    after: SupervisorView,
    r: Result<AppToken, StateModelError>,
    fault: Option<StateFault>,
    expected: SupervisorView,
    id: Seq<char>,
) -> bool {
    match r {
        Ok(token) => fault is None && after == expected && token@ == expected.apps[id].token,
        Err(e) => fault == Some(e@) && after == before,
    }
}

impl SupervisorState {
    /// Checks that one more change can be counted.
    pub(crate) fn ensure_revision_capacity(&self) -> (r: Result<(), StateModelError>)
        ensures
            r is Ok <==> !self@.exhausted(),
            r is Err ==> r->Err_0@ == StateFault::RevisionOverflow,
    {
        if self.state_revision == u64::MAX {
            Err(StateModelError::RevisionOverflow)
        } else {
            Ok(())
        }
    }

    /// The current process of an application, where it is the named one.
    fn current_instance(&self, app_id: &AppId, generation: u64) -> (r: Result<
        AppInstance,
        StateModelError,
    >)
        ensures
            match r {
                Ok(instance) => self@.process_fault(app_id@, generation) is None
                    && self@.apps[app_id@] == instance@,
                Err(e) => self@.process_fault(app_id@, generation) == Some(e@),
            },
    {
        if let Err(e) = self.ensure_revision_capacity() {
            return Err(e);
        }
        match self.apps.get(app_id.as_str()) {
            None => Err(StateModelError::UnknownApp(app_id.clone())),
            Some(instance) => if instance.token.generation != generation {
                Err(
                    StateModelError::StaleGeneration {
                        app_id: app_id.clone(),
                        expected_after: instance.token.generation.saturating_sub(1),
                        actual: generation,
                    },
                )
            } else {
                Ok(instance.clone())
            },
        }
    }

    /// Stores the record of an application.
    fn store(&mut self, app_id: &AppId, instance: AppInstance)
        ensures
            final(self)@ == (SupervisorView {
                apps: old(self)@.apps.insert(app_id@, instance@),
                ..old(self)@
            }),
    {
        let ghost before = self.apps@;
        self.apps.insert(app_id.clone(), instance);
        assert(instance_views(self.apps@) =~= instance_views(before).insert(app_id@, instance@));
    }

    /// Registers a new process of an application.
    pub fn start_app(&mut self, app_id: AppId, generation: u64, pid: Option<u32>) -> (r: Result<
        AppToken,
        StateModelError,
    >)
        ensures
            changes(
                old(self)@,
                final(self)@,
                r,
                old(self)@.start_fault(app_id@, generation),
                old(self)@.after_start(app_id@, generation, pid),
                app_id@,
            ),
    {
        if let Err(e) = self.ensure_revision_capacity() {
            return Err(e);
        }
        if self.domain != SystemDomainState::Managed || self.sleeping {
            return Err(StateModelError::LaunchOutsideActiveManaged);
        }
        if generation == 0 {
            return Err(StateModelError::ZeroGeneration(app_id));
        }
        if let Some(previous) = self.apps.get(app_id.as_str()) {
            if generation <= previous.token.generation {
                return Err(
                    StateModelError::StaleGeneration {
                        app_id,
                        expected_after: previous.token.generation,
                        actual: generation,
                    },
                );
            }
            if !previous.state.is_terminal() {
                return Err(StateModelError::AppAlreadyRunning(app_id));
            }
        }
        let token = AppToken {
            app_id: app_id.clone(),
            generation,
            foreground_epoch: 0,
            lease_id: None,
        };
        let instance = AppInstance {
            token: token.clone(),
            state: AppInstanceState::Starting,
            pid,
            title: String::new(),
            subtitle: String::new(),
            last_error: None,
        };
        self.store(&app_id, instance);
        self.state_revision = self.state_revision + 1;
        Ok(token)
    }

    /// Gives the foreground to a process that is starting or in the
    /// background.
    pub fn grant_foreground(
        &mut self,
        app_id: &AppId,
        generation: u64,
        foreground_epoch: u64,
        lease_id: u64,
    ) -> (r: Result<AppToken, StateModelError>)
        ensures
            changes(
                old(self)@,
                final(self)@,
                r,
                old(self)@.foreground_fault(app_id@, generation, foreground_epoch, lease_id),
                old(self)@.after_foreground(app_id@, foreground_epoch, lease_id),
                app_id@,
            ),
    {
        if let Err(e) = self.ensure_revision_capacity() {
            return Err(e);
        }
        if self.domain != SystemDomainState::Managed || self.sleeping {
            return Err(StateModelError::LaunchOutsideActiveManaged);
        }
        if self.foreground_app.is_some() {
            return Err(StateModelError::MultipleForegroundApps);
        }
        let mut instance = match self.current_instance(app_id, generation) {
            Ok(instance) => instance,
            Err(e) => return Err(e),
        };
        if instance.state != AppInstanceState::Starting && instance.state
            != AppInstanceState::Background {
            return Err(
                StateModelError::InvalidAppTransition {
                    app_id: app_id.clone(),
                    from: instance.state,
                    to: AppInstanceState::Foreground,
                },
            );
        }
        if foreground_epoch == 0 || foreground_epoch <= instance.token.foreground_epoch {
            return Err(
                StateModelError::StaleForegroundEpoch {
                    app_id: app_id.clone(),
                    expected_after: instance.token.foreground_epoch,
                    actual: foreground_epoch,
                },
            );
        }
        if lease_id == 0 {
            return Err(StateModelError::ZeroLease(app_id.clone()));
        }
        instance.token.foreground_epoch = foreground_epoch;
        instance.token.lease_id = Some(lease_id);
        instance.state = AppInstanceState::Foreground;
        let token = instance.token.clone();
        self.store(app_id, instance);
        self.foreground_app = Some(app_id.clone());
        self.last_app = Some(app_id.clone());
        self.state_revision = self.state_revision + 1;
        Ok(token)
    }

    /// Records that a starting process is ready without the foreground.
    pub fn mark_background_ready(
        &mut self,
        app_id: &AppId,
        generation: u64,
        title: String,
        subtitle: String,
    ) -> (r: Result<AppToken, StateModelError>)
        ensures
            changes(
                old(self)@,
                final(self)@,
                r,
                old(self)@.ready_fault(app_id@, generation),
                old(self)@.after_ready(app_id@, title@, subtitle@),
                app_id@,
            ),
    {
        let mut instance = match self.current_instance(app_id, generation) {
            Ok(instance) => instance,
            Err(e) => return Err(e),
        };
        if instance.state != AppInstanceState::Starting {
            return Err(
                StateModelError::InvalidAppTransition {
                    app_id: app_id.clone(),
                    from: instance.state,
                    to: AppInstanceState::Background,
                },
            );
        }
        instance.state = AppInstanceState::Background;
        instance.title = title;
        instance.subtitle = subtitle;
        let token = instance.token.clone();
        self.store(app_id, instance);
        self.state_revision = self.state_revision + 1;
        Ok(token)
    }

    /// Takes the foreground away from the process that holds this epoch.
    pub fn enter_background(
        &mut self,
        app_id: &AppId,
        generation: u64,
        foreground_epoch: u64,
    ) -> (r: Result<AppToken, StateModelError>)
        ensures
            changes(
                old(self)@,
                final(self)@,
                r,
                old(self)@.background_fault(app_id@, generation, foreground_epoch),
                old(self)@.after_background(app_id@),
                app_id@,
            ),
    {
        let mut instance = match self.current_instance(app_id, generation) {
            Ok(instance) => instance,
            Err(e) => return Err(e),
        };
        if instance.state != AppInstanceState::Foreground || instance.token.foreground_epoch
            != foreground_epoch {
            return Err(
                StateModelError::StaleForegroundEpoch {
                    app_id: app_id.clone(),
                    expected_after: instance.token.foreground_epoch.saturating_sub(1),
                    actual: foreground_epoch,
                },
            );
        }
        instance.state = AppInstanceState::Background;
        instance.token.lease_id = None;
        let token = instance.token.clone();
        self.store(app_id, instance);
        self.foreground_app = None;
        self.last_app = Some(app_id.clone());
        self.state_revision = self.state_revision + 1;
        Ok(token)
    }

    /// Clears the foreground pointer where it names this application.
    fn leave_foreground(&mut self, app_id: &AppId)
        ensures
            final(self)@ == (SupervisorView {
                foreground_app: old(self)@.pointer_without(app_id@),
                ..old(self)@
            }),
    {
        if is_id(&self.foreground_app, app_id) {
            self.foreground_app = None;
        }
    }

    /// Records that a process has been asked to stop.
    pub fn begin_stop(&mut self, app_id: &AppId, generation: u64) -> (r: Result<
        AppToken,
        StateModelError,
    >)
        ensures
            changes(
                old(self)@,
                final(self)@,
                r,
                old(self)@.stop_fault(app_id@, generation),
                old(self)@.after_stop(app_id@),
                app_id@,
            ),
    {
        let mut instance = match self.current_instance(app_id, generation) {
            Ok(instance) => instance,
            Err(e) => return Err(e),
        };
        if instance.state.is_terminal() || instance.state == AppInstanceState::Stopping {
            return Err(
                StateModelError::InvalidAppTransition {
                    app_id: app_id.clone(),
                    from: instance.state,
                    to: AppInstanceState::Stopping,
                },
            );
        }
        instance.state = AppInstanceState::Stopping;
        instance.token.lease_id = None;
        let token = instance.token.clone();
        self.store(app_id, instance);
        self.leave_foreground(app_id);
        self.state_revision = self.state_revision + 1;
        Ok(token)
    }

    /// Records that a process is gone.
    pub fn finish_app(
        &mut self,
        app_id: &AppId,
        generation: u64,
        crashed: bool,
        error: Option<String>,
    ) -> (r: Result<AppToken, StateModelError>)
        ensures
            changes(
                old(self)@,
                final(self)@,
                r,
                old(self)@.finish_fault(app_id@, generation, crashed),
                old(self)@.after_finish(app_id@, crashed, optional_text(error)),
                app_id@,
            ),
    {
        let mut instance = match self.current_instance(app_id, generation) {
            Ok(instance) => instance,
            Err(e) => return Err(e),
        };
        let end = if crashed {
            AppInstanceState::Crashed
        } else {
            AppInstanceState::Exited
        };
        if instance.state.is_terminal() {
            return Err(
                StateModelError::InvalidAppTransition {
                    app_id: app_id.clone(),
                    from: instance.state,
                    to: end,
                },
            );
        }
        instance.state = end;
        instance.token.lease_id = None;
        instance.pid = None;
        instance.last_error = error;
        let token = instance.token.clone();
        self.store(app_id, instance);
        self.leave_foreground(app_id);
        self.state_revision = self.state_revision + 1;
        Ok(token)
    }

    /// Records that a process does not respond.
    pub fn mark_unresponsive(
        &mut self,
        app_id: &AppId,
        generation: u64,
        error: String,
    ) -> (r: Result<AppToken, StateModelError>)
        ensures
            changes(
                old(self)@,
                final(self)@,
                r,
                old(self)@.unresponsive_fault(app_id@, generation),
                old(self)@.after_unresponsive(app_id@, error@),
                app_id@,
            ),
    {
        let mut instance = match self.current_instance(app_id, generation) {
            Ok(instance) => instance,
            Err(e) => return Err(e),
        };
        if instance.state.is_terminal() || instance.state == AppInstanceState::Unresponsive {
            return Err(
                StateModelError::InvalidAppTransition {
                    app_id: app_id.clone(),
                    from: instance.state,
                    to: AppInstanceState::Unresponsive,
                },
            );
        }
        instance.state = AppInstanceState::Unresponsive;
        instance.token.lease_id = None;
        instance.last_error = Some(error);
        let token = instance.token.clone();
        self.store(app_id, instance);
        self.leave_foreground(app_id);
        self.state_revision = self.state_revision + 1;
        Ok(token)
    }
}

/// A start keeps a valid state valid.
pub proof fn start_keeps_validity(
    state: SupervisorView,
    id: Seq<char>,
    generation: u64,
    pid: Option<u32>,
)
    requires
        state.valid(),
        state.start_fault(id, generation) is None,
    ensures
        state.after_start(id, generation, pid).valid(),
{
    assert(state.foreground_app != Some(id));
}

/// Granting the foreground keeps a valid state valid.
pub proof fn foreground_keeps_validity(
    state: SupervisorView,
    id: Seq<char>,
    generation: u64,
    epoch: u64,
    lease: u64,
)
    requires
        state.valid(),
        state.foreground_fault(id, generation, epoch, lease) is None,
    ensures
        state.after_foreground(id, epoch, lease).valid(),
{
}

/// Readiness in the background keeps a valid state valid.
pub proof fn ready_keeps_validity(
    state: SupervisorView,
    id: Seq<char>,
    generation: u64,
    title: Seq<char>,
    subtitle: Seq<char>,
)
    requires
        state.valid(),
        state.ready_fault(id, generation) is None,
    ensures
        state.after_ready(id, title, subtitle).valid(),
{
    assert(!state.apps[id].state.terminal());
    assert(state.domain != SystemDomainState::Stock);
}

/// Entering the background keeps a valid state valid.
pub proof fn background_keeps_validity(
    state: SupervisorView,
    id: Seq<char>,
    generation: u64,
    epoch: u64,
)
    requires
        state.valid(),
        state.background_fault(id, generation, epoch) is None,
    ensures
        state.after_background(id).valid(),
{
    assert(state.foreground_app == Some(id));
}

/// A request to stop keeps a valid state valid.
pub proof fn stop_keeps_validity(state: SupervisorView, id: Seq<char>, generation: u64)
    requires
        state.valid(),
        state.stop_fault(id, generation) is None,
    ensures
        state.after_stop(id).valid(),
{
    assert(!state.apps[id].state.terminal());
    assert(state.domain != SystemDomainState::Stock);
}

/// The end of a process keeps a valid state valid.
pub proof fn finish_keeps_validity(
    state: SupervisorView,
    id: Seq<char>,
    generation: u64,
    crashed: bool,
    error: Option<Seq<char>>,
)
    requires
        state.valid(),
        state.finish_fault(id, generation, crashed) is None,
    ensures
        state.after_finish(id, crashed, error).valid(),
{
    assert(!state.apps[id].state.terminal());
    assert(state.domain != SystemDomainState::Stock);
}

/// A process that stops responding keeps a valid state valid.
pub proof fn unresponsive_keeps_validity(
    state: SupervisorView,
    id: Seq<char>,
    generation: u64,
    error: Seq<char>,
)
    requires
        state.valid(),
        state.unresponsive_fault(id, generation) is None,
    ensures
        state.after_unresponsive(id, error).valid(),
{
    assert(!state.apps[id].state.terminal());
    assert(state.domain != SystemDomainState::Stock);
}

/// A process that was replaced can change nothing: every request that names
/// an older generation than the current one is refused.
pub proof fn replaced_processes_are_fenced(
    state: SupervisorView,
    id: Seq<char>,
    generation: u64,
    epoch: u64,
    lease: u64,
    crashed: bool,
)
    requires
        state.apps.contains_key(id),
        generation < state.apps[id].token.generation,
    ensures
        state.start_fault(id, generation) is Some,
        state.foreground_fault(id, generation, epoch, lease) is Some,
        state.ready_fault(id, generation) is Some,
        state.background_fault(id, generation, epoch) is Some,
        state.stop_fault(id, generation) is Some,
        state.finish_fault(id, generation, crashed) is Some,
        state.unresponsive_fault(id, generation) is Some,
{
}

/// Foreground work of an earlier epoch can change nothing: neither is an old
/// epoch granted again, nor does it end the present one.
pub proof fn old_epochs_are_fenced(
    state: SupervisorView,
    id: Seq<char>,
    generation: u64,
    epoch: u64,
    lease: u64,
)
    requires
        state.apps.contains_key(id),
        epoch < state.apps[id].token.foreground_epoch,
    ensures
        state.foreground_fault(id, generation, epoch, lease) is Some,
        state.background_fault(id, generation, epoch) is Some,
{
}

/// A fresh grant of the foreground uses a greater epoch than any before it.
pub proof fn epochs_increase(
    state: SupervisorView,
    id: Seq<char>,
    generation: u64,
    epoch: u64,
    lease: u64,
)
    requires
        state.foreground_fault(id, generation, epoch, lease) is None,
    ensures
        state.after_foreground(id, epoch, lease).apps[id].token.foreground_epoch
            > state.apps[id].token.foreground_epoch,
        state.after_foreground(id, epoch, lease).apps[id].token.generation
            == state.apps[id].token.generation,
{
}

/// A start replaces a process by one of a greater generation.
pub proof fn generations_increase(
    state: SupervisorView,
    id: Seq<char>,
    generation: u64,
    pid: Option<u32>,
)
    requires
        state.start_fault(id, generation) is None,
        state.apps.contains_key(id),
    ensures
        state.after_start(id, generation, pid).apps[id].token.generation
            > state.apps[id].token.generation,
{
}

/// An application that left the foreground can be brought back with a new
/// epoch and lease, and is then in the foreground again.
pub proof fn background_applications_can_return(
    state: SupervisorView,
    id: Seq<char>,
    generation: u64,
    epoch: u64,
    next_epoch: u64,
    lease: u64,
)
    requires
        state.valid(),
        state.background_fault(id, generation, epoch) is None,
        next_epoch > epoch,
        lease != 0,
        state.state_revision < u64::MAX - 1,
    ensures
        ({
            let parked = state.after_background(id);
            let back = parked.after_foreground(id, next_epoch, lease);
            &&& parked.foreground_fault(id, generation, next_epoch, lease) is None
            &&& back.foreground_app == Some(id)
            &&& back.apps[id].state == AppInstanceState::Foreground
        }),
{
    assert(state.foreground_app == Some(id));
}

/// An application that does not run can be started in the awake managed
/// domain with every generation above the one it had, and with no other one.
pub proof fn stopped_applications_can_be_started(
    state: SupervisorView,
    id: Seq<char>,
    generation: u64,
    pid: Option<u32>,
)
    ensures
        state.start_fault(id, generation) is None <==> {
            &&& state.state_revision < u64::MAX
            &&& state.domain == SystemDomainState::Managed && !state.sleeping
            &&& generation != 0
            &&& state.apps.contains_key(id) ==> {
                &&& generation > state.apps[id].token.generation
                &&& state.apps[id].state == AppInstanceState::Exited || state.apps[id].state
                    == AppInstanceState::Crashed
            }
        },
        ({
            let after = state.after_start(id, generation, pid);
            let instance = after.apps[id];
            &&& after.apps.contains_key(id)
            &&& instance.state == AppInstanceState::Starting
            &&& instance.pid == pid
            &&& instance.token.app_id == id
            &&& instance.token.generation == generation
            &&& instance.token.foreground_epoch == 0
            &&& instance.token.lease_id is None
            &&& instance.title.len() == 0 && instance.subtitle.len() == 0
            &&& instance.last_error is None
            &&& after.foreground_app == state.foreground_app
            &&& after.last_app == state.last_app
        }),
{
}

/// An application whose process has ended, by itself or by a crash, can be
/// started again with every later generation, and its new process can then
/// come to the foreground.
pub proof fn ended_applications_can_be_started_again(
    state: SupervisorView,
    id: Seq<char>,
    generation: u64,
    crashed: bool,
    error: Option<Seq<char>>,
    next: u64,
    pid: Option<u32>,
    epoch: u64,
    lease: u64,
)
    requires
        state.finish_fault(id, generation, crashed) is None,
        state.domain == SystemDomainState::Managed,
        !state.sleeping,
        state.state_revision < u64::MAX - 2,
        next > generation,
        epoch > 0,
        lease > 0,
    ensures
        ({
            let ended = state.after_finish(id, crashed, error);
            let again = ended.after_start(id, next, pid);
            &&& ended.start_fault(id, next) is None
            &&& again.apps[id].state == AppInstanceState::Starting
            &&& again.apps[id].pid == pid
            &&& again.apps[id].token.generation == next
            &&& state.foreground_app == Some(id) || state.foreground_app is None
                ==> again.foreground_fault(id, next, epoch, lease) is None
        }),
{
}

/// A process that was started is not replaced by another start.
pub proof fn running_applications_are_not_started_twice(
    state: SupervisorView,
    id: Seq<char>,
    generation: u64,
    pid: Option<u32>,
    next: u64,
)
    requires
        state.start_fault(id, generation) is None,
    ensures
        state.after_start(id, generation, pid).start_fault(id, next) is Some,
{
}

/// Exactly a process that is starting or in the background comes to the
/// foreground, where nobody has it, with a later epoch and a lease. It then has
/// the foreground and is the last application.
pub proof fn waiting_applications_can_come_to_the_foreground(
    state: SupervisorView,
    id: Seq<char>,
    generation: u64,
    epoch: u64,
    lease: u64,
)
    ensures
        state.foreground_fault(id, generation, epoch, lease) is None <==> {
            &&& state.state_revision < u64::MAX
            &&& state.domain == SystemDomainState::Managed && !state.sleeping
            &&& state.foreground_app is None
            &&& state.apps.contains_key(id)
            &&& state.apps[id].token.generation == generation
            &&& state.apps[id].state == AppInstanceState::Starting || state.apps[id].state
                == AppInstanceState::Background
            &&& epoch > state.apps[id].token.foreground_epoch
            &&& lease > 0
        },
        ({
            let after = state.after_foreground(id, epoch, lease);
            let instance = after.apps[id];
            let before = state.apps[id];
            &&& after.foreground_app == Some(id) && after.last_app == Some(id)
            &&& instance.state == AppInstanceState::Foreground
            &&& instance.token.foreground_epoch == epoch
            &&& instance.token.lease_id == Some(lease)
            &&& instance.token.generation == before.token.generation
            &&& instance.token.app_id == before.token.app_id
            &&& instance.pid == before.pid
            &&& instance.title == before.title && instance.subtitle == before.subtitle
            &&& instance.last_error == before.last_error
        }),
{
}

/// Exactly a starting process becomes ready in the background, under the title
/// that it gives. Neither its token nor the foreground changes.
pub proof fn starting_applications_can_become_ready(
    state: SupervisorView,
    id: Seq<char>,
    generation: u64,
    title: Seq<char>,
    subtitle: Seq<char>,
)
    ensures
        state.ready_fault(id, generation) is None <==> {
            &&& state.state_revision < u64::MAX
            &&& state.apps.contains_key(id)
            &&& state.apps[id].token.generation == generation
            &&& state.apps[id].state == AppInstanceState::Starting
        },
        ({
            let after = state.after_ready(id, title, subtitle);
            let instance = after.apps[id];
            &&& instance.state == AppInstanceState::Background
            &&& instance.title == title && instance.subtitle == subtitle
            &&& instance.token == state.apps[id].token
            &&& instance.pid == state.apps[id].pid
            &&& instance.last_error == state.apps[id].last_error
            &&& after.foreground_app == state.foreground_app
            &&& after.last_app == state.last_app
        }),
{
}

/// Exactly the foreground process of this epoch can be parked. The same
/// process goes on in the background, without its lease; nobody has the
/// foreground then, and it is the last application.
pub proof fn foreground_applications_can_be_parked(
    state: SupervisorView,
    id: Seq<char>,
    generation: u64,
    epoch: u64,
)
    ensures
        state.background_fault(id, generation, epoch) is None <==> {
            &&& state.state_revision < u64::MAX
            &&& state.apps.contains_key(id)
            &&& state.apps[id].token.generation == generation
            &&& state.apps[id].token.foreground_epoch == epoch
            &&& state.apps[id].state == AppInstanceState::Foreground
        },
        ({
            let after = state.after_background(id);
            let instance = after.apps[id];
            let before = state.apps[id];
            &&& after.foreground_app is None && after.last_app == Some(id)
            &&& instance.state == AppInstanceState::Background
            &&& instance.token.lease_id is None
            &&& instance.token.generation == before.token.generation
            &&& instance.token.foreground_epoch == before.token.foreground_epoch
            &&& instance.token.app_id == before.token.app_id
            &&& instance.pid == before.pid
            &&& instance.title == before.title && instance.subtitle == before.subtitle
            &&& instance.last_error == before.last_error
        }),
{
}

/// An application has given up the display between two states: its lease is
/// gone, and the foreground where it had it. Its process is the same.
pub open spec fn gave_up_the_display(
    before: SupervisorView,
    after: SupervisorView,
    id: Seq<char>,
) -> bool {
    &&& before.foreground_app == Some(id) ==> after.foreground_app is None
    &&& before.foreground_app != Some(id) ==> after.foreground_app == before.foreground_app
    &&& after.last_app == before.last_app
    &&& after.apps[id].token.lease_id is None
    &&& after.apps[id].token.generation == before.apps[id].token.generation
    &&& after.apps[id].token.foreground_epoch == before.apps[id].token.foreground_epoch
    &&& after.apps[id].token.app_id == before.apps[id].token.app_id
    &&& after.apps[id].title == before.apps[id].title
    &&& after.apps[id].subtitle == before.apps[id].subtitle
}

/// Every process that runs and was not asked yet can be asked to stop,
/// whatever it does. It gives up the display but is not gone: its pid stays.
pub proof fn running_applications_can_be_stopped(
    state: SupervisorView,
    id: Seq<char>,
    generation: u64,
)
    ensures
        state.stop_fault(id, generation) is None <==> {
            &&& state.state_revision < u64::MAX
            &&& state.apps.contains_key(id)
            &&& state.apps[id].token.generation == generation
            &&& state.apps[id].state != AppInstanceState::Stopping
            &&& state.apps[id].state != AppInstanceState::Exited
            &&& state.apps[id].state != AppInstanceState::Crashed
        },
        ({
            let after = state.after_stop(id);
            &&& after.apps[id].state == AppInstanceState::Stopping
            &&& after.apps[id].pid == state.apps[id].pid
            &&& after.apps[id].last_error == state.apps[id].last_error
            &&& gave_up_the_display(state, after, id)
        }),
{
}

/// Every process that runs can be reported gone, whatever it was doing. It is
/// then without a pid, crashed or exited as was said, with the error that was
/// given.
pub proof fn running_applications_can_end(
    state: SupervisorView,
    id: Seq<char>,
    generation: u64,
    crashed: bool,
    error: Option<Seq<char>>,
)
    ensures
        state.finish_fault(id, generation, crashed) is None <==> {
            &&& state.state_revision < u64::MAX
            &&& state.apps.contains_key(id)
            &&& state.apps[id].token.generation == generation
            &&& state.apps[id].state != AppInstanceState::Exited
            &&& state.apps[id].state != AppInstanceState::Crashed
        },
        ({
            let after = state.after_finish(id, crashed, error);
            &&& crashed ==> after.apps[id].state == AppInstanceState::Crashed
            &&& !crashed ==> after.apps[id].state == AppInstanceState::Exited
            &&& after.apps[id].pid is None
            &&& after.apps[id].last_error == error
            &&& gave_up_the_display(state, after, id)
        }),
{
}

/// Every process that runs can stop responding. It gives up the display, keeps
/// its pid, and can still be stopped or end; it does not come to the foreground
/// again.
pub proof fn unresponsive_applications_can_be_stopped(
    state: SupervisorView,
    id: Seq<char>,
    generation: u64,
    error: Seq<char>,
    epoch: u64,
    lease: u64,
)
    ensures
        state.unresponsive_fault(id, generation) is None <==> {
            &&& state.state_revision < u64::MAX
            &&& state.apps.contains_key(id)
            &&& state.apps[id].token.generation == generation
            &&& state.apps[id].state != AppInstanceState::Unresponsive
            &&& state.apps[id].state != AppInstanceState::Exited
            &&& state.apps[id].state != AppInstanceState::Crashed
        },
        ({
            let after = state.after_unresponsive(id, error);
            &&& after.apps[id].state == AppInstanceState::Unresponsive
            &&& after.apps[id].pid == state.apps[id].pid
            &&& after.apps[id].last_error == Some(error)
            &&& gave_up_the_display(state, after, id)
            &&& state.unresponsive_fault(id, generation) is None && state.state_revision < u64::MAX
                - 1 ==> {
                &&& after.stop_fault(id, generation) is None
                &&& after.finish_fault(id, generation, true) is None
                &&& after.finish_fault(id, generation, false) is None
                &&& after.foreground_fault(id, generation, epoch, lease) is Some
            }
        }),
{
}

/// Two states differ in one application at most, its foreground apart, and in
/// the count of changes, which is one more.
pub open spec fn only_differs_in(
    before: SupervisorView,
    after: SupervisorView,
    id: Seq<char>,
) -> bool {
    &&& after.domain == before.domain
    &&& after.sleeping == before.sleeping
    &&& after.state_revision == before.state_revision + 1
    &&& forall|other: Seq<char>| #[trigger]
        after.apps.contains_key(other) <==> before.apps.contains_key(other) || other == id
    &&& forall|other: Seq<char>| #[trigger]
        before.apps.contains_key(other) && other != id ==> after.apps[other] == before.apps[other]
}

/// Whatever happens to one application leaves the others alone, and is counted
/// once.
pub proof fn changes_concern_one_application(
    state: SupervisorView,
    id: Seq<char>,
    generation: u64,
    pid: Option<u32>,
    epoch: u64,
    lease: u64,
    title: Seq<char>,
    subtitle: Seq<char>,
    crashed: bool,
    error: Option<Seq<char>>,
)
    requires
        state.state_revision < u64::MAX,
    ensures
        only_differs_in(state, state.after_start(id, generation, pid), id),
        state.apps.contains_key(id) ==> {
            &&& only_differs_in(state, state.after_foreground(id, epoch, lease), id)
            &&& only_differs_in(state, state.after_ready(id, title, subtitle), id)
            &&& only_differs_in(state, state.after_background(id), id)
            &&& only_differs_in(state, state.after_stop(id), id)
            &&& only_differs_in(state, state.after_finish(id, crashed, error), id)
            &&& only_differs_in(state, state.after_unresponsive(id, title), id)
        },
{
}

/// A complaint about a request is true of the state and of the request.
pub open spec fn is_justified(
    fault: StateFault,
    state: SupervisorView,
    id: Seq<char>,
    generation: u64,
) -> bool {
    match fault {
        StateFault::RevisionOverflow => state.state_revision == u64::MAX,
        StateFault::LaunchOutsideActiveManaged => state.domain != SystemDomainState::Managed
            || state.sleeping,
        StateFault::ZeroGeneration(named) => named == id && generation == 0,
        StateFault::UnknownApp(named) => named == id && !state.apps.contains_key(id),
        StateFault::StaleGeneration(named, _, given) => named == id && given == generation
            && state.apps.contains_key(id),
        StateFault::AppAlreadyRunning(named) => {
            &&& named == id && state.apps.contains_key(id)
            &&& state.apps[id].state != AppInstanceState::Exited
            &&& state.apps[id].state != AppInstanceState::Crashed
        },
        StateFault::MultipleForegroundApps => state.foreground_app is Some,
        StateFault::InvalidAppTransition(named, from, to) => {
            &&& named == id && state.apps.contains_key(id)
            &&& from == state.apps[id].state
            &&& from == to || from == AppInstanceState::Exited || from == AppInstanceState::Crashed
                || to == AppInstanceState::Foreground || to == AppInstanceState::Background
        },
        StateFault::StaleForegroundEpoch(named, _, _) => named == id && state.apps.contains_key(id),
        StateFault::ZeroLease(named) => named == id,
        _ => false,
    }
}

/// Whatever a refused request is told is so: an unknown application is called
/// unknown, an old generation old, a running application running.
pub proof fn refusals_are_justified(
    state: SupervisorView,
    id: Seq<char>,
    generation: u64,
    epoch: u64,
    lease: u64,
    crashed: bool,
)
    ensures
        state.start_fault(id, generation) is Some ==> is_justified(
            state.start_fault(id, generation)->0,
            state,
            id,
            generation,
        ),
        state.foreground_fault(id, generation, epoch, lease) is Some ==> is_justified(
            state.foreground_fault(id, generation, epoch, lease)->0,
            state,
            id,
            generation,
        ),
        state.ready_fault(id, generation) is Some ==> is_justified(
            state.ready_fault(id, generation)->0,
            state,
            id,
            generation,
        ),
        state.background_fault(id, generation, epoch) is Some ==> is_justified(
            state.background_fault(id, generation, epoch)->0,
            state,
            id,
            generation,
        ),
        state.stop_fault(id, generation) is Some ==> is_justified(
            state.stop_fault(id, generation)->0,
            state,
            id,
            generation,
        ),
        state.finish_fault(id, generation, crashed) is Some ==> is_justified(
            state.finish_fault(id, generation, crashed)->0,
            state,
            id,
            generation,
        ),
        state.unresponsive_fault(id, generation) is Some ==> is_justified(
            state.unresponsive_fault(id, generation)->0,
            state,
            id,
            generation,
        ),
{
}

/// A stale request learns what is current: a start the generation that it has
/// to exceed, a grant the epoch that it has to exceed, and every other request
/// the number just before the one that would be accepted.
pub proof fn stale_requests_learn_what_is_current(
    state: SupervisorView,
    id: Seq<char>,
    generation: u64,
    epoch: u64,
    lease: u64,
)
    ensures
        state.start_fault(id, generation) matches Some(StateFault::StaleGeneration(_, known, _))
            ==> known == state.apps[id].token.generation && generation <= known,
        state.foreground_fault(id, generation, epoch, lease) matches Some(
            StateFault::StaleForegroundEpoch(_, known, given),
        ) ==> known == state.apps[id].token.foreground_epoch && epoch <= known && given == epoch,
        state.stop_fault(id, generation) matches Some(StateFault::StaleGeneration(_, known, _))
            ==> {
            &&& generation != state.apps[id].token.generation
            &&& state.apps[id].token.generation > 0 ==> known + 1 == state.apps[id].token.generation
        },
        state.background_fault(id, generation, epoch) matches Some(
            StateFault::StaleForegroundEpoch(_, known, given),
        ) ==> {
            &&& given == epoch
            &&& state.apps[id].state != AppInstanceState::Foreground || epoch
                != state.apps[id].token.foreground_epoch
            &&& state.apps[id].token.foreground_epoch > 0 ==> known + 1
                == state.apps[id].token.foreground_epoch
        },
{
}

/// A refused request changes nothing, and an accepted one is answered with the
/// token that is recorded from then on.
pub proof fn answers_agree_with_the_record(
    before: SupervisorView,
    after: SupervisorView,
    r: Result<AppToken, StateModelError>,
    fault: Option<StateFault>,
    expected: SupervisorView,
    id: Seq<char>,
)
    requires
        changes(before, after, r, fault, expected, id),
    ensures
        r is Ok <==> fault is None,
        r is Ok ==> after == expected && r->Ok_0@ == after.apps[id].token,
        r is Err ==> after == before && fault == Some(r->Err_0@),
{
}

} // verus!
