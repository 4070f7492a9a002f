//! Changes of the domain.
use vstd::prelude::*;
use crate::manifest::AppId;
use crate::ordered::lists_keys;
use crate::state::model::{
    copy_id, AppInstance, AppInstanceState, DomainState, ManagerState, StateModelError,
    SupervisorState, SystemDomainState, Transition, TransitionError,
};
use crate::state::model::{
    instance_views, DomainView, InstanceView, ManagerView, StateFault, SupervisorView, TokenView,
    TransitionView,
};

verus! {

impl ManagerView {
    /// The domain that a transition leads to, where it leads anywhere.
    pub open spec fn next_domain(self, transition: TransitionView) -> Option<DomainView> {
        match (self.domain, transition) {
            (_, TransitionView::Failure) => Some(DomainView::Recovering),
            (DomainView::System, TransitionView::TriplePower) => Some(DomainView::EnteringManaged),
            (DomainView::EnteringManaged, TransitionView::ManagedReady) => Some(
                DomainView::Manager,
            ),
            (DomainView::Manager, TransitionView::Launch(app)) => Some(DomainView::Launching(app)),
            (DomainView::Manager, TransitionView::SinglePower) => match self.last_app {
                Some(app) => Some(DomainView::Launching(app)),
                None => None,
            },
            (DomainView::Manager, TransitionView::TriplePower) => Some(DomainView::RestoringSystem),
            (DomainView::Manager, TransitionView::Sleep) => Some(DomainView::Sleeping),
            (DomainView::Sleeping, TransitionView::Wake) => Some(DomainView::Manager),
            (DomainView::Launching(expected), TransitionView::AppReady(app)) => if expected == app {
                Some(DomainView::Foreground(app))
            } else {
                None
            },
            (DomainView::Foreground(app), TransitionView::SinglePower) => Some(
                DomainView::Parking(app),
            ),
            (DomainView::Foreground(app), TransitionView::TriplePower) => Some(
                DomainView::Parking(app),
            ),
            (DomainView::Parking(expected), TransitionView::AppParked(app)) => if expected == app {
                Some(DomainView::Manager)
            } else {
                None
            },
            (DomainView::Parking(expected), TransitionView::AppRestored(app)) => if expected
                == app {
                Some(DomainView::Foreground(app))
            } else {
                None
            },
            (DomainView::RestoringSystem, TransitionView::SystemReady) => Some(DomainView::System),
            (DomainView::Recovering, TransitionView::SystemReady) => Some(DomainView::System),
            (_, TransitionView::AppExited(app)) => if self.domain.app() == Some(app) {
                Some(DomainView::Manager)
            } else {
                None
            },
            (_, TransitionView::AppCrashed(app)) => if self.domain.app() == Some(app) {
                Some(DomainView::Manager)
            } else {
                None
            },
            _ => None,
        }
    }

    /// The state after a transition to a domain.
    pub open spec fn moved(self, domain: DomainView) -> ManagerView {
        ManagerView {
            domain,
            last_app: match domain {
                DomainView::Foreground(app) => Some(app),
                DomainView::Parking(app) => Some(app),
                _ => self.last_app,
            },
            sequence: self.sequence.wrapping_add(1),
        }
    }
}

impl DomainView {
    /// The application that a domain is about.
    pub open spec fn app(self) -> Option<Seq<char>> {
        match self {
            DomainView::Launching(app) => Some(app),
            DomainView::Foreground(app) => Some(app),
            DomainView::Parking(app) => Some(app),
            _ => None,
        }
    }
}

impl DomainState {
    /// Whether the domain is about this application.
    fn is_about(&self, app_id: &AppId) -> (r: bool)
        ensures
            r == (self@.app() == Some(app_id@)),
    {
        match self {
            DomainState::Launching(app) => app == app_id,
            DomainState::Foreground(app) => app == app_id,
            DomainState::Parking(app) => app == app_id,
            _ => false,
        }
    }
}

impl ManagerState {
    /// The domain that a transition leads to.
    fn next(&self, transition: &Transition) -> (r: Option<DomainState>)
        ensures
            match r {
                Some(domain) => self@.next_domain(transition@) == Some(domain@),
                None => self@.next_domain(transition@) is None,
            },
    {
        match transition {
            Transition::Failure => Some(DomainState::Recovering),
            Transition::TriplePower => match &self.domain {
                DomainState::System => Some(DomainState::EnteringManaged),
                DomainState::Manager => Some(DomainState::RestoringSystem),
                DomainState::Foreground(app) => Some(DomainState::Parking(app.clone())),
                _ => None,
            },
            Transition::SinglePower => match &self.domain {
                DomainState::Manager => match &self.last_app {
                    Some(app) => Some(DomainState::Launching(app.clone())),
                    None => None,
                },
                DomainState::Foreground(app) => Some(DomainState::Parking(app.clone())),
                _ => None,
            },
            Transition::Launch(app) => match &self.domain {
                DomainState::Manager => Some(DomainState::Launching(app.clone())),
                _ => None,
            },
            Transition::AppReady(app) => match &self.domain {
                DomainState::Launching(expected) => if expected == app {
                    Some(DomainState::Foreground(app.clone()))
                } else {
                    None
                },
                _ => None,
            },
            Transition::AppParked(app) => match &self.domain {
                DomainState::Parking(expected) => if expected == app {
                    Some(DomainState::Manager)
                } else {
                    None
                },
                _ => None,
            },
            Transition::AppRestored(app) => match &self.domain {
                DomainState::Parking(expected) => if expected == app {
                    Some(DomainState::Foreground(app.clone()))
                } else {
                    None
                },
                _ => None,
            },
            Transition::AppExited(app) => if self.domain.is_about(app) {
                Some(DomainState::Manager)
            } else {
                None
            },
            Transition::AppCrashed(app) => if self.domain.is_about(app) {
                Some(DomainState::Manager)
            } else {
                None
            },
            Transition::ManagedReady => match &self.domain {
                DomainState::EnteringManaged => Some(DomainState::Manager),
                _ => None,
            },
            Transition::SystemReady => match &self.domain {
                DomainState::RestoringSystem => Some(DomainState::System),
                DomainState::Recovering => Some(DomainState::System),
                _ => None,
            },
            Transition::Sleep => match &self.domain {
                DomainState::Manager => Some(DomainState::Sleeping),
                _ => None,
            },
            Transition::Wake => match &self.domain {
                DomainState::Sleeping => Some(DomainState::Manager),
                _ => None,
            },
        }
    }

    /// Follows a transition. One that the current domain does not admit
    /// changes nothing.
    pub fn apply(&mut self, transition: Transition) -> (r: Result<(), TransitionError>)
        ensures
            match old(self)@.next_domain(transition@) {
                Some(domain) => r is Ok && final(self)@ == old(self)@.moved(domain),
                None => r == Err::<(), TransitionError>(
                    TransitionError { current: old(self).domain, transition },
                ) && *final(self) == *old(self),
            },
    {
        let next = match self.next(&transition) {
            Some(next) => next,
            None => {
                return Err(TransitionError { current: self.domain.clone(), transition });
            },
        };
        match &next {
            DomainState::Foreground(app) => {
                self.last_app = Some(app.clone());
            },
            DomainState::Parking(app) => {
                self.last_app = Some(app.clone());
            },
            _ => {},
        }
        self.domain = next;
        self.sequence = self.sequence.wrapping_add(1);
        Ok(())
    }
}

/// A failure leads to recovery from every domain, and recovery leads to the
/// stock system.
pub proof fn failures_always_recover(state: ManagerView)
    ensures
        state.next_domain(TransitionView::Failure) == Some(DomainView::Recovering),
        state.moved(DomainView::Recovering).next_domain(TransitionView::SystemReady) == Some(
            DomainView::System,
        ),
{
}

/// Sleep ends only by an explicit wake, or by a failure.
pub proof fn sleep_lasts_until_an_explicit_wake(state: ManagerView, transition: TransitionView)
    requires
        state.domain == DomainView::Sleeping,
        state.next_domain(transition) is Some,
    ensures
        transition == TransitionView::Wake || transition == TransitionView::Failure,
{
}

/// An application reaches the foreground only by its own readiness after a
/// launch, or by its own restoration after a failed park.
pub proof fn only_the_expected_application_comes_to_the_foreground(
    state: ManagerView,
    transition: TransitionView,
    app: Seq<char>,
)
    requires
        state.next_domain(transition) == Some(DomainView::Foreground(app)),
    ensures
        ({
            ||| state.domain == DomainView::Launching(app) && transition
                == TransitionView::AppReady(app)
            ||| state.domain == DomainView::Parking(app) && transition
                == TransitionView::AppRestored(app)
        }),
{
}

/// A late acknowledgement of a park that was undone is refused.
pub proof fn late_park_acknowledgements_are_refused(state: ManagerView, app: Seq<char>)
    requires
        state.domain == DomainView::Parking(app),
    ensures
        ({
            let restored = state.moved(DomainView::Foreground(app));
            &&& state.next_domain(TransitionView::AppRestored(app)) == Some(
                DomainView::Foreground(app),
            )
            &&& restored.next_domain(TransitionView::AppParked(app)) is None
        }),
{
}

/// The edges between the domains of ownership.
pub open spec fn domain_edge(from: SystemDomainState, to: SystemDomainState) -> bool {
    match to {
        SystemDomainState::EnteringManaged => from == SystemDomainState::Stock,
        SystemDomainState::Managed => from == SystemDomainState::EnteringManaged,
        SystemDomainState::LeavingManaged => from == SystemDomainState::Managed,
        SystemDomainState::Stock => from == SystemDomainState::LeavingManaged || from
            == SystemDomainState::Recovering,
        SystemDomainState::Recovering => from != SystemDomainState::Recovering,
    }
}

impl InstanceView {
    /// The process once the managed domain has ended: without a lease, and
    /// stopping where it was in the foreground.
    pub open spec fn without_display(self) -> InstanceView {
        self.released(
            if self.state == AppInstanceState::Foreground {
                AppInstanceState::Stopping
            } else {
                self.state
            },
        )
    }
}

impl SupervisorView {
    /// Why the domain cannot change.
    pub open spec fn domain_fault(self, next: SystemDomainState) -> Option<StateFault> {
        if self.exhausted() {
            Some(StateFault::RevisionOverflow)
        } else if !domain_edge(self.domain, next) {
            Some(StateFault::InvalidDomainTransition(self.domain, next))
        } else if next == SystemDomainState::Stock && self.any_running() {
            Some(StateFault::RunningAppInStockDomain)
        } else {
            None
        }
    }

    /// The state after the domain changed. Outside the managed domain no
    /// application keeps the display.
    pub open spec fn after_domain(self, next: SystemDomainState) -> SupervisorView {
        if next == SystemDomainState::Managed {
            SupervisorView { domain: next, ..self }.counted()
        } else {
            SupervisorView {
                domain: next,
                sleeping: false,
                foreground_app: None,
                apps: self.apps.map_values(|instance: InstanceView| instance.without_display()),
                ..self
            }.counted()
        }
    }

    /// Why sleep cannot begin or end.
    pub open spec fn sleep_fault(self, sleeping: bool) -> Option<StateFault> {
        if self.exhausted() {
            Some(StateFault::RevisionOverflow)
        } else if self.domain != SystemDomainState::Managed {
            Some(StateFault::SleepOutsideManaged)
        } else if sleeping && self.foreground_app is Some {
            Some(StateFault::ForegroundWhileSleeping)
        } else {
            None
        }
    }

    /// The state after sleep began or ended.
    pub open spec fn after_sleep(self, sleeping: bool) -> SupervisorView {
        SupervisorView { sleeping, ..self }.counted()
    }
}

impl SupervisorState {
    /// Takes the display from every application.
    fn release_display(&mut self)
        ensures
            final(self)@ == (SupervisorView {
                apps: old(self)@.apps.map_values(
                    |instance: InstanceView| instance.without_display(),
                ),
                ..old(self)@
            }),
    {
        let n: usize = self.apps.len();
        let ghost before = self.apps@;
        let ghost keys = self.apps.keys();
        let mut i: usize = 0;
        while i < n
            invariant
                i <= n,
                n == keys.len(),
                lists_keys(keys, before),
                self.apps.keys() == keys,
                self.apps@.dom() == before.dom(),
                forall|j: int|
                    0 <= j < i ==> self.apps@[#[trigger] keys[j]]@
                        == before[keys[j]]@.without_display(),
                forall|j: int|
                    i <= j < n ==> self.apps@[#[trigger] keys[j]] == before[keys[j]],
                self.domain == old(self).domain,
                self.sleeping == old(self).sleeping,
                self.foreground_app == old(self).foreground_app,
                self.last_app == old(self).last_app,
                self.state_revision == old(self).state_revision,
            decreases n - i,
        {
            let key = self.apps.key_at(i).clone();
            let mut instance = self.apps.value_at(i).clone();
            instance.token.lease_id = None;
            if instance.state == AppInstanceState::Foreground {
                instance.state = AppInstanceState::Stopping;
            }
            let ghost stored = self.apps@;
            self.apps.insert(key, instance);
            proof {
                assert(self.apps@.dom() =~= before.dom());
                assert forall|j: int| 0 <= j < n && j != i implies #[trigger] keys[j]
                    != keys[i as int] by {
                    crate::text::lemma_text_less_irreflexive(keys[j]);
                    if j < i {
                        assert(crate::text::text_less(keys[j], keys[i as int]));
                    } else {
                        assert(crate::text::text_less(keys[i as int], keys[j]));
                    }
                }
            }
            i = i + 1;
        }
        proof {
            let wanted = instance_views(before).map_values(
                |instance: InstanceView| instance.without_display(),
            );
            assert forall|id: Seq<char>| before.contains_key(id) implies instance_views(
                self.apps@,
            )[id] == wanted[id] by {
                assert(keys.contains(id));
                let j = choose|j: int| 0 <= j < keys.len() && keys[j] == id;
                assert(self.apps@[keys[j]]@ == before[keys[j]]@.without_display());
            }
            assert(instance_views(self.apps@) =~= wanted);
        }
    }

    /// Moves the ownership boundary along one of its edges.
    pub fn transition_domain(&mut self, next: SystemDomainState) -> (r: Result<
        (),
        StateModelError,
    >)
        ensures
            match r {
                Ok(_) => old(self)@.domain_fault(next) is None && final(self)@
                    == old(self)@.after_domain(next),
                Err(e) => old(self)@.domain_fault(next) == Some(e@) && final(self)@ == old(self)@,
            },
    {
        if let Err(e) = self.ensure_revision_capacity() {
            return Err(e);
        }
        let valid = match next {
            SystemDomainState::EnteringManaged => self.domain == SystemDomainState::Stock,
            SystemDomainState::Managed => self.domain == SystemDomainState::EnteringManaged,
            SystemDomainState::LeavingManaged => self.domain == SystemDomainState::Managed,
            SystemDomainState::Stock => self.domain == SystemDomainState::LeavingManaged
                || self.domain == SystemDomainState::Recovering,
            SystemDomainState::Recovering => self.domain != SystemDomainState::Recovering,
        };
        if !valid {
            return Err(
                StateModelError::InvalidDomainTransition { from: self.domain, to: next },
            );
        }
        if next == SystemDomainState::Stock && self.has_running_app() {
            return Err(StateModelError::RunningAppInStockDomain);
        }
        if next != SystemDomainState::Managed {
            self.release_display();
            self.sleeping = false;
            self.foreground_app = None;
        }
        self.domain = next;
        self.state_revision = self.state_revision + 1;
        Ok(())
    }

    /// Begins or ends sleep.
    pub fn set_sleeping(&mut self, sleeping: bool) -> (r: Result<(), StateModelError>)
        ensures
            match r {
                Ok(_) => old(self)@.sleep_fault(sleeping) is None && final(self)@
                    == old(self)@.after_sleep(sleeping),
                Err(e) => old(self)@.sleep_fault(sleeping) == Some(e@) && final(self)@
                    == old(self)@,
            },
    {
        if let Err(e) = self.ensure_revision_capacity() {
            return Err(e);
        }
        if self.domain != SystemDomainState::Managed {
            return Err(StateModelError::SleepOutsideManaged);
        }
        if sleeping && self.foreground_app.is_some() {
            return Err(StateModelError::ForegroundWhileSleeping);
        }
        self.sleeping = sleeping;
        self.state_revision = self.state_revision + 1;
        Ok(())
    }
}

/// A change of the domain keeps a valid state valid.
pub proof fn domain_changes_keep_validity(state: SupervisorView, next: SystemDomainState)
    requires
        state.valid(),
        state.domain_fault(next) is None,
    ensures
        state.after_domain(next).valid(),
{
    let after = state.after_domain(next);
    assert forall|id: Seq<char>| #[trigger] after.apps.contains_key(id) implies state.apps.contains_key(id) by {}
    if next == SystemDomainState::Stock {
        assert forall|id: Seq<char>| #[trigger]
            after.apps.contains_key(id) implies after.apps[id].state.terminal() by {
            assert(state.apps.contains_key(id));
        }
    }
}

/// Sleep keeps a valid state valid.
pub proof fn sleep_keeps_validity(state: SupervisorView, sleeping: bool)
    requires
        state.valid(),
        state.sleep_fault(sleeping) is None,
    ensures
        state.after_sleep(sleeping).valid(),
{
}

/// Outside the managed domain no application holds the display.
pub proof fn leaving_the_managed_domain_releases_the_display(
    state: SupervisorView,
    next: SystemDomainState,
    id: Seq<char>,
)
    requires
        next != SystemDomainState::Managed,
        state.domain_fault(next) is None,
        state.apps.contains_key(id),
    ensures
        state.after_domain(next).apps[id].token.lease_id is None,
        state.after_domain(next).apps[id].state != AppInstanceState::Foreground,
        state.after_domain(next).foreground_app is None,
        !state.after_domain(next).sleeping,
{
}

/// The power key: three presses enter the managed domain from the stock
/// system, lead back to it from the task page, and park the application that is
/// in the foreground; so does one press. On the task page one press recalls the
/// last application, where there is one. Elsewhere the key does nothing.
pub proof fn the_power_key_works_as_promised(state: ManagerView)
    ensures
        match state.domain {
            DomainView::System => {
                &&& state.next_domain(TransitionView::TriplePower) == Some(
                    DomainView::EnteringManaged,
                )
                &&& state.next_domain(TransitionView::SinglePower) is None
            },
            DomainView::Manager => {
                &&& state.next_domain(TransitionView::TriplePower) == Some(
                    DomainView::RestoringSystem,
                )
                &&& state.next_domain(TransitionView::SinglePower) is Some <==> state.last_app
                    is Some
                &&& state.last_app is Some ==> state.next_domain(TransitionView::SinglePower)
                    == Some(DomainView::Launching(state.last_app->0))
            },
            DomainView::Foreground(app) => {
                &&& state.next_domain(TransitionView::SinglePower) == Some(DomainView::Parking(app))
                &&& state.next_domain(TransitionView::TriplePower) == Some(DomainView::Parking(app))
                &&& state.moved(DomainView::Parking(app)).last_app == Some(app)
            },
            _ => {
                &&& state.next_domain(TransitionView::SinglePower) is None
                &&& state.next_domain(TransitionView::TriplePower) is None
            },
        },
{
}

/// A park that was acknowledged leads to the task page, and one press of the
/// power key there brings the parked application back.
pub proof fn parked_applications_are_recalled(state: ManagerView, app: Seq<char>)
    requires
        state.domain == DomainView::Foreground(app),
    ensures
        ({
            let parking = state.moved(state.next_domain(TransitionView::SinglePower)->0);
            let parked = parking.moved(parking.next_domain(TransitionView::AppParked(app))->0);
            let launching = parked.moved(parked.next_domain(TransitionView::SinglePower)->0);
            let back = launching.moved(launching.next_domain(TransitionView::AppReady(app))->0);
            &&& state.next_domain(TransitionView::SinglePower) is Some
            &&& parking.next_domain(TransitionView::AppParked(app)) is Some
            &&& parked.domain == DomainView::Manager
            &&& parked.next_domain(TransitionView::SinglePower) is Some
            &&& launching.next_domain(TransitionView::AppReady(app)) is Some
            &&& back.domain == state.domain
            &&& back.last_app == Some(app)
        }),
{
}

/// An application is launched from the task page alone, any application; it
/// comes to the foreground when it is ready.
pub proof fn applications_are_launched_from_the_task_page(state: ManagerView, app: Seq<char>)
    ensures
        state.domain == DomainView::Manager ==> state.next_domain(TransitionView::Launch(app))
            == Some(DomainView::Launching(app)),
        state.domain != DomainView::Manager ==> state.next_domain(TransitionView::Launch(app))
            is None,
        state.domain == DomainView::Launching(app) ==> state.next_domain(
            TransitionView::AppReady(app),
        ) == Some(DomainView::Foreground(app)),
        state.moved(DomainView::Foreground(app)).last_app == Some(app),
{
}

/// The end of the application that a domain is about, by itself or by a crash,
/// leads to the task page; the end of another one does nothing.
pub proof fn ended_applications_lead_to_the_task_page(state: ManagerView, app: Seq<char>)
    ensures
        ({
            let concerned = state.domain == DomainView::Launching(app) || state.domain
                == DomainView::Foreground(app) || state.domain == DomainView::Parking(app);
            let expected = if concerned {
                Some(DomainView::Manager)
            } else {
                None
            };
            &&& state.next_domain(TransitionView::AppExited(app)) == expected
            &&& state.next_domain(TransitionView::AppCrashed(app)) == expected
        }),
{
}

/// Sleep begins on the task page alone and returns to it.
pub proof fn sleep_returns_to_the_task_page(state: ManagerView)
    ensures
        state.next_domain(TransitionView::Sleep) == (if state.domain == DomainView::Manager {
            Some(DomainView::Sleeping)
        } else {
            None
        }),
        state.next_domain(TransitionView::Wake) == (if state.domain == DomainView::Sleeping {
            Some(DomainView::Manager)
        } else {
            None
        }),
{
}

/// The stock system is reached from a restoration or a recovery that is done,
/// and the task page from an entry that is done.
pub proof fn completed_switches_are_acknowledged(state: ManagerView, app: Seq<char>)
    ensures
        state.next_domain(TransitionView::ManagedReady) == (if state.domain
            == DomainView::EnteringManaged {
            Some(DomainView::Manager)
        } else {
            None
        }),
        state.next_domain(TransitionView::SystemReady) == (if state.domain
            == DomainView::RestoringSystem || state.domain == DomainView::Recovering {
            Some(DomainView::System)
        } else {
            None
        }),
        state.next_domain(TransitionView::AppParked(app)) == (if state.domain
            == DomainView::Parking(app) {
            Some(DomainView::Manager)
        } else {
            None
        }),
        state.next_domain(TransitionView::AppRestored(app)) == (if state.domain
            == DomainView::Parking(app) {
            Some(DomainView::Foreground(app))
        } else {
            None
        }),
        state.domain != DomainView::Launching(app) ==> state.next_domain(
            TransitionView::AppReady(app),
        ) is None,
{
}

/// Every change is counted, and only an application that has, or just had, the
/// foreground becomes the last one.
pub proof fn the_last_application_had_the_foreground(state: ManagerView, domain: DomainView)
    ensures
        state.moved(domain).domain == domain,
        state.sequence < u64::MAX ==> state.moved(domain).sequence == state.sequence + 1,
        state.sequence == u64::MAX ==> state.moved(domain).sequence == 0,
        match domain {
            DomainView::Foreground(app) => state.moved(domain).last_app == Some(app),
            DomainView::Parking(app) => state.moved(domain).last_app == Some(app),
            _ => state.moved(domain).last_app == state.last_app,
        },
{
}

/// The ownership boundary goes around in one direction: from the stock system
/// through the entry to the managed domain and through the exit back. Recovery
/// begins anywhere else and ends in the stock system. The stock system is not
/// reached while an application runs.
pub proof fn the_boundary_goes_around(state: SupervisorView, next: SystemDomainState)
    ensures
        state.domain_fault(next) is None <==> {
            &&& state.state_revision < u64::MAX
            &&& match state.domain {
                SystemDomainState::Stock => next == SystemDomainState::EnteringManaged || next
                    == SystemDomainState::Recovering,
                SystemDomainState::EnteringManaged => next == SystemDomainState::Managed || next
                    == SystemDomainState::Recovering,
                SystemDomainState::Managed => next == SystemDomainState::LeavingManaged || next
                    == SystemDomainState::Recovering,
                SystemDomainState::LeavingManaged => next == SystemDomainState::Stock || next
                    == SystemDomainState::Recovering,
                SystemDomainState::Recovering => next == SystemDomainState::Stock,
            }
            &&& next == SystemDomainState::Stock ==> forall|id: Seq<char>| #[trigger]
                state.apps.contains_key(id) ==> state.apps[id].state == AppInstanceState::Exited
                    || state.apps[id].state == AppInstanceState::Crashed
        },
        state.domain_fault(next) matches Some(StateFault::RevisionOverflow)
            ==> state.state_revision == u64::MAX,
        state.domain_fault(next) matches Some(StateFault::InvalidDomainTransition(from, to))
            ==> from == state.domain && to == next,
        state.domain_fault(next) matches Some(StateFault::RunningAppInStockDomain) ==> next
            == SystemDomainState::Stock,
{
}

/// A change of the domain starts and ends no process: every application keeps
/// its record but for its lease, and one that was in the foreground is stopping
/// once the managed domain is left.
pub proof fn domain_changes_keep_the_processes(
    state: SupervisorView,
    next: SystemDomainState,
    id: Seq<char>,
)
    requires
        state.state_revision < u64::MAX,
    ensures
        ({
            let after = state.after_domain(next);
            &&& after.domain == next
            &&& after.last_app == state.last_app
            &&& after.state_revision == state.state_revision + 1
            &&& after.apps.contains_key(id) <==> state.apps.contains_key(id)
            &&& next == SystemDomainState::Managed ==> {
                &&& after.apps == state.apps
                &&& after.sleeping == state.sleeping
                &&& after.foreground_app == state.foreground_app
            }
            &&& next != SystemDomainState::Managed ==> {
                &&& !after.sleeping
                &&& after.foreground_app is None
            }
            &&& next != SystemDomainState::Managed && state.apps.contains_key(id) ==> {
                let before = state.apps[id];
                let instance = after.apps[id];
                &&& before.state == AppInstanceState::Foreground ==> instance.state
                    == AppInstanceState::Stopping
                &&& before.state != AppInstanceState::Foreground ==> instance.state == before.state
                &&& instance.token.lease_id is None
                &&& instance.token.generation == before.token.generation
                &&& instance.token.foreground_epoch == before.token.foreground_epoch
                &&& instance.token.app_id == before.token.app_id
                &&& instance.pid == before.pid
                &&& instance.title == before.title && instance.subtitle == before.subtitle
                &&& instance.last_error == before.last_error
            }
        }),
{
}

/// The managed domain can fall asleep exactly while nobody has the foreground,
/// and wake at any time. Nothing else changes.
pub proof fn the_managed_domain_sleeps_without_a_foreground(state: SupervisorView, sleeping: bool)
    ensures
        state.sleep_fault(sleeping) is None <==> {
            &&& state.state_revision < u64::MAX
            &&& state.domain == SystemDomainState::Managed
            &&& sleeping ==> state.foreground_app is None
        },
        state.sleep_fault(sleeping) matches Some(fault) ==> match fault {
            StateFault::RevisionOverflow => state.state_revision == u64::MAX,
            StateFault::SleepOutsideManaged => state.domain != SystemDomainState::Managed,
            StateFault::ForegroundWhileSleeping => sleeping && state.foreground_app is Some,
            _ => false,
        },
        ({
            let after = state.after_sleep(sleeping);
            &&& after.sleeping == sleeping
            &&& after.domain == state.domain
            &&& after.apps == state.apps
            &&& after.foreground_app == state.foreground_app
            &&& after.last_app == state.last_app
            &&& state.state_revision < u64::MAX ==> after.state_revision == state.state_revision + 1
        }),
{
}

} // verus!
