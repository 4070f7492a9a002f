//! Conversion between the composite state and the supervised state.
use vstd::prelude::*;
use crate::ordered::OrderedMap;
use crate::ordered::{is_least, least, lemma_least_is, lists_keys};
use crate::state::lifecycle::started;
use crate::state::model::{
    copy_id, AppInstance, AppInstanceState, AppToken, DomainState, ManagerState, SupervisorState,
    SystemDomainState,
};
use crate::state::model::{
    id_text, instance_views, DomainView, InstanceView, ManagerView, SupervisorView, TokenView,
};
use crate::text::text_less;

verus! {

/// The process that a composite domain stands for.
pub open spec fn domain_instance(domain: DomainView) -> Option<InstanceView> {
    match domain {
        DomainView::Launching(app) => Some(started(app, 1, None)),
        DomainView::Foreground(app) => Some(
            InstanceView {
                token: TokenView {
                    app_id: app,
                    generation: 1,
                    foreground_epoch: 1,
                    lease_id: Some(1),
                },
                state: AppInstanceState::Foreground,
                ..started(app, 1, None)
            },
        ),
        DomainView::Parking(app) => Some(
            InstanceView { state: AppInstanceState::Stopping, ..started(app, 1, None) },
        ),
        _ => None,
    }
}

/// The ownership boundary that a composite domain stands for.
pub open spec fn boundary(domain: DomainView) -> SystemDomainState {
    match domain {
        DomainView::System => SystemDomainState::Stock,
        DomainView::EnteringManaged => SystemDomainState::EnteringManaged,
        DomainView::RestoringSystem => SystemDomainState::LeavingManaged,
        DomainView::Recovering => SystemDomainState::Recovering,
        _ => SystemDomainState::Managed,
    }
}

/// The supervised state that a composite state stands for.
pub open spec fn supervised(state: ManagerView) -> SupervisorView {
    SupervisorView {
        domain: boundary(state.domain),
        sleeping: state.domain == DomainView::Sleeping,
        foreground_app: match state.domain {
            DomainView::Foreground(app) => Some(app),
            _ => None,
        },
        last_app: state.last_app,
        apps: match domain_instance(state.domain) {
            Some(instance) => Map::empty().insert(instance.token.app_id, instance),
            None => Map::empty(),
        },
        state_revision: state.sequence,
    }
}

/// The applications that are starting or stopping.
pub open spec fn moving_apps(state: SupervisorView) -> Set<Seq<char>> {
    Set::new(
        |id: Seq<char>|
            state.apps.contains_key(id) && (state.apps[id].state == AppInstanceState::Starting
                || state.apps[id].state == AppInstanceState::Stopping),
    )
}

/// The process that the composite state is about: the one in the foreground,
/// or else the first that is starting or stopping.
pub open spec fn active_instance(state: SupervisorView) -> Option<InstanceView> {
    if state.foreground_app is Some && state.apps.contains_key(state.foreground_app->0) {
        Some(state.apps[state.foreground_app->0])
    } else {
        match least(moving_apps(state)) {
            Some(id) => Some(state.apps[id]),
            None => None,
        }
    }
}

/// The composite domain of a supervised state.
pub open spec fn composite_domain(state: SupervisorView) -> DomainView {
    match state.domain {
        SystemDomainState::Stock => DomainView::System,
        SystemDomainState::EnteringManaged => DomainView::EnteringManaged,
        SystemDomainState::LeavingManaged => DomainView::RestoringSystem,
        SystemDomainState::Recovering => DomainView::Recovering,
        SystemDomainState::Managed => if state.sleeping {
            DomainView::Sleeping
        } else {
            match active_instance(state) {
                Some(instance) => match instance.state {
                    AppInstanceState::Starting => DomainView::Launching(instance.token.app_id),
                    AppInstanceState::Foreground => DomainView::Foreground(instance.token.app_id),
                    AppInstanceState::Stopping => DomainView::Parking(instance.token.app_id),
                    _ => DomainView::Manager,
                },
                None => DomainView::Manager,
            }
        },
    }
}

/// The composite state of a supervised state.
pub open spec fn composite(state: SupervisorView) -> ManagerView {
    ManagerView {
        domain: composite_domain(state),
        last_app: state.last_app,
        sequence: state.state_revision,
    }
}

/// Converts a persisted/in-flight composite state into a fenced snapshot.
/// Sentinel generation/epoch/lease values are local compatibility values only;
/// the supervisor allocates fresh values before sending any new protocol
/// message.
impl From<ManagerState> for SupervisorState {
    fn from(legacy: ManagerState) -> (r: SupervisorState)
        ensures
            r@ == supervised(legacy@),
    {
        let mut state = SupervisorState {
            domain: SystemDomainState::Stock,
            sleeping: false,
            foreground_app: None,
            last_app: copy_id(&legacy.last_app),
            apps: OrderedMap::new(),
            state_revision: legacy.sequence,
        };
        let app_state = match &legacy.domain {
            DomainState::Launching(app) => Some((app.clone(), AppInstanceState::Starting)),
            DomainState::Foreground(app) => Some((app.clone(), AppInstanceState::Foreground)),
            DomainState::Parking(app) => Some((app.clone(), AppInstanceState::Stopping)),
            _ => None,
        };
        state.domain = match &legacy.domain {
            DomainState::System => SystemDomainState::Stock,
            DomainState::EnteringManaged => SystemDomainState::EnteringManaged,
            DomainState::RestoringSystem => SystemDomainState::LeavingManaged,
            DomainState::Recovering => SystemDomainState::Recovering,
            _ => SystemDomainState::Managed,
        };
        if let DomainState::Sleeping = &legacy.domain {
            state.sleeping = true;
        }
        let ghost empty = state.apps@;
        if let Some((app_id, instance_state)) = app_state {
            let foreground = instance_state == AppInstanceState::Foreground;
            let instance = AppInstance {
                token: AppToken {
                    app_id: app_id.clone(),
                    generation: 1,
                    foreground_epoch: if foreground {
                        1
                    } else {
                        0
                    },
                    lease_id: if foreground {
                        Some(1)
                    } else {
                        None
                    },
                },
                state: instance_state,
                pid: None,
                title: String::new(),
                subtitle: String::new(),
                last_error: None,
            };
            state.apps.insert(app_id.clone(), instance);
            assert(instance_views(state.apps@) =~= Map::empty().insert(app_id@, instance@));
            if foreground {
                state.foreground_app = Some(app_id);
            }
        } else {
            assert(instance_views(state.apps@) =~= Map::empty());
        }
        assert(state@ =~= supervised(legacy@));
        state
    }
}

impl vstd::std_specs::convert::FromSpecImpl<ManagerState> for SupervisorState {
    open spec fn obeys_from_spec() -> bool {
        false
    }

    open spec fn from_spec(legacy: ManagerState) -> SupervisorState {
        arbitrary()
    }
}

/// The first application that is starting or stopping.
fn first_moving(state: &SupervisorState) -> (r: Option<AppInstance>)
    ensures
        match r {
            Some(instance) => least(moving_apps(state@)) is Some && instance@
                == state@.apps[least(moving_apps(state@))->0],
            None => least(moving_apps(state@)) is None,
        },
{
    let ghost moving = moving_apps(state@);
    let n: usize = state.apps.len();
    let ghost keys = state.apps.keys();
    let mut i: usize = 0;
    while i < n
        invariant
            i <= n,
            n == keys.len(),
            keys == state.apps.keys(),
            lists_keys(keys, state.apps@),
            moving == moving_apps(state@),
            forall|j: int| 0 <= j < i ==> !moving.contains(#[trigger] keys[j]),
        decreases n - i,
    {
        let instance = state.apps.value_at(i);
        assert(state@.apps[keys[i as int]] == instance@);
        if instance.state == AppInstanceState::Starting || instance.state
            == AppInstanceState::Stopping {
            proof {
                let id = keys[i as int];
                assert(moving.contains(id));
                assert forall|other: Seq<char>| #[trigger] moving.contains(other) implies other
                    == id || text_less(id, other) by {
                    assert(keys.contains(other));
                    let j = choose|j: int| 0 <= j < keys.len() && keys[j] == other;
                    assert(!(j < i));
                }
                assert(is_least(moving, id));
                lemma_least_is(moving, id);
            }
            return Some(instance.clone());
        }
        i = i + 1;
    }
    assert(least(moving) is None) by {
        if least(moving) is Some {
            let k = choose|k: Seq<char>| is_least(moving, k);
            assert(keys.contains(k));
            let j = choose|j: int| 0 <= j < keys.len() && keys[j] == k;
            assert(!moving.contains(keys[j]));
        }
    }
    None
}

/// The process that the composite state is about.
fn active(state: &SupervisorState) -> (r: Option<AppInstance>)
    ensures
        match r {
            Some(instance) => active_instance(state@) == Some(instance@),
            None => active_instance(state@) is None,
        },
{
    if let Some(id) = &state.foreground_app {
        if let Some(instance) = state.apps.get(id.as_str()) {
            return Some(instance.clone());
        }
    }
    first_moving(state)
}

impl From<&SupervisorState> for ManagerState {
    fn from(state: &SupervisorState) -> (r: ManagerState)
        ensures
            r@ == composite(state@),
    {
        let domain = match state.domain {
            SystemDomainState::Stock => DomainState::System,
            SystemDomainState::EnteringManaged => DomainState::EnteringManaged,
            SystemDomainState::LeavingManaged => DomainState::RestoringSystem,
            SystemDomainState::Recovering => DomainState::Recovering,
            SystemDomainState::Managed => if state.sleeping {
                DomainState::Sleeping
            } else {
                match active(state) {
                    Some(instance) => match instance.state {
                        AppInstanceState::Starting => {
                            DomainState::Launching(instance.token.app_id)
                        },
                        AppInstanceState::Foreground => {
                            DomainState::Foreground(instance.token.app_id)
                        },
                        AppInstanceState::Stopping => {
                            DomainState::Parking(instance.token.app_id)
                        },
                        _ => DomainState::Manager,
                    },
                    None => DomainState::Manager,
                }
            },
        };
        ManagerState {
            domain,
            last_app: copy_id(&state.last_app),
            sequence: state.state_revision,
        }
    }
}

impl vstd::std_specs::convert::FromSpecImpl<&SupervisorState> for ManagerState {
    open spec fn obeys_from_spec() -> bool {
        false
    }

    open spec fn from_spec(state: &SupervisorState) -> ManagerState {
        arbitrary()
    }
}

/// Every composite state comes back unchanged from the supervised state that
/// it stands for.
pub proof fn composite_states_round_trip(state: ManagerView)
    ensures
        composite(supervised(state)) == state,
{
    let both = supervised(state);
    if let Some(instance) = domain_instance(state.domain) {
        let id = instance.token.app_id;
        if both.foreground_app is None {
            assert(moving_apps(both).contains(id));
            assert(is_least(moving_apps(both), id));
            lemma_least_is(moving_apps(both), id);
        }
    } else if least(moving_apps(both)) is Some {
        let k = choose|k: Seq<char>| is_least(moving_apps(both), k);
        assert(both.apps.contains_key(k));
    }
}

/// Every composite state stands for a valid supervised state.
pub proof fn composite_states_stand_for_valid_states(state: ManagerView)
    ensures
        supervised(state).valid(),
{
    assert(domain_instance(state.domain) is None ==> !supervised(state).any_running());
}

/// The composite state shows the application that has the foreground, whatever
/// others do. Without one it shows the first that is starting or stopping, and
/// the task page where no application is.
pub proof fn the_composite_state_shows_the_application_at_hand(
    state: SupervisorView,
    id: Seq<char>,
)
    requires
        state.domain == SystemDomainState::Managed,
        !state.sleeping,
        state.valid(),
    ensures
        composite(state).last_app == state.last_app,
        composite(state).sequence == state.state_revision,
        state.foreground_app == Some(id) ==> composite(state).domain == DomainView::Foreground(id),
        state.foreground_app is None && state.apps.contains_key(id) && (forall|other: Seq<char>|
            #[trigger]
            state.apps.contains_key(other) && (state.apps[other].state == AppInstanceState::Starting
                || state.apps[other].state == AppInstanceState::Stopping) ==> other == id
                || text_less(id, other)) ==> {
            &&& state.apps[id].state == AppInstanceState::Starting ==> composite(state).domain
                == DomainView::Launching(id)
            &&& state.apps[id].state == AppInstanceState::Stopping ==> composite(state).domain
                == DomainView::Parking(id)
        },
        state.foreground_app is None && (forall|other: Seq<char>| #[trigger]
            state.apps.contains_key(other) ==> state.apps[other].state != AppInstanceState::Starting
                && state.apps[other].state != AppInstanceState::Stopping) ==> composite(state).domain
            == DomainView::Manager,
{
    let moving = moving_apps(state);
    if state.foreground_app is None && state.apps.contains_key(id) && (state.apps[id].state
        == AppInstanceState::Starting || state.apps[id].state == AppInstanceState::Stopping) && (
    forall|other: Seq<char>| #[trigger]
        state.apps.contains_key(other) && (state.apps[other].state == AppInstanceState::Starting
            || state.apps[other].state == AppInstanceState::Stopping) ==> other == id || text_less(
            id,
            other,
        )) {
        assert forall|other: Seq<char>| #[trigger] moving.contains(other) implies other == id
            || text_less(id, other) by {
            assert(state.apps.contains_key(other));
        }
        assert(is_least(moving, id));
        lemma_least_is(moving, id);
    }
    if state.foreground_app is None && least(moving) is Some {
        let k = choose|k: Seq<char>| is_least(moving, k);
        assert(state.apps.contains_key(k));
    }
}

/// Outside the awake managed domain the composite state shows the boundary,
/// whatever the applications do.
pub proof fn the_composite_state_shows_the_boundary(state: SupervisorView)
    ensures
        state.domain == SystemDomainState::Stock ==> composite(state).domain == DomainView::System,
        state.domain == SystemDomainState::EnteringManaged ==> composite(state).domain
            == DomainView::EnteringManaged,
        state.domain == SystemDomainState::LeavingManaged ==> composite(state).domain
            == DomainView::RestoringSystem,
        state.domain == SystemDomainState::Recovering ==> composite(state).domain
            == DomainView::Recovering,
        state.domain == SystemDomainState::Managed && state.sleeping ==> composite(state).domain
            == DomainView::Sleeping,
{
}

/// A composite state stands for a supervised state with the process that it
/// speaks of and no other: one that is launched starts, one in the foreground
/// holds a lease, and one that is parked is stopping.
pub proof fn composite_states_stand_for_one_process(state: ManagerView, id: Seq<char>)
    ensures
        ({
            let both = supervised(state);
            &&& both.last_app == state.last_app
            &&& both.state_revision == state.sequence
            &&& both.sleeping <==> state.domain == DomainView::Sleeping
            &&& both.foreground_app == Some(id) <==> state.domain == DomainView::Foreground(id)
            &&& both.apps.contains_key(id) <==> state.domain == DomainView::Launching(id)
                || state.domain == DomainView::Foreground(id) || state.domain
                == DomainView::Parking(id)
            &&& both.apps.contains_key(id) ==> {
                &&& both.apps[id].token.app_id == id
                &&& both.apps[id].token.generation == 1
                &&& both.apps[id].pid is None
                &&& both.apps[id].title.len() == 0 && both.apps[id].subtitle.len() == 0
                &&& both.apps[id].last_error is None
            }
            &&& state.domain == DomainView::Launching(id) ==> both.apps[id].state
                == AppInstanceState::Starting
            &&& state.domain == DomainView::Parking(id) ==> both.apps[id].state
                == AppInstanceState::Stopping
            &&& state.domain == DomainView::Foreground(id) ==> both.apps[id].state
                == AppInstanceState::Foreground && both.apps[id].token.foreground_epoch == 1
                && both.apps[id].token.lease_id == Some(1u64)
        }),
{
}

} // verus!
