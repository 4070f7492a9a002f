//! Who may connect to the service, and when it stops.
use vstd::prelude::*;
use vstd::utf8::{decode_utf8, valid_utf8};
use crate::agent::protocol::{AgentErrorCode, AgentEvent};
use crate::agent::requests::{error_event, AgentClientMessage};
use crate::agent::requests::refusal;
use crate::agent::state::{AgentState, ClientIdentity};
use crate::agent::state::{state_of, PACKAGED_PI};
use crate::first::{first_some, lemma_first_at, lemma_first_none};
use crate::manifest::id::valid_id;
use crate::manifest::AppId;
use crate::path::FilePath;
use crate::text::{parse_u64, split_on, split_once, strip_suffix_char, text_eq, utf8_text};
use crate::text::{
    cut_at, line_at, natural_of, split, texts, texts_are_cut_at_the_first_occurrence,
};

verus! {

/// How long the service waits for a client before it looks around, in
/// seconds.
pub const ACCEPT_TIMEOUT_SECS: u64 = 60;

/// How long the service stays without a client, in seconds.
pub const IDLE_EXIT_SECS: u64 = 600;

/// The fields of a process environment, each of which ends in a zero byte.
pub open spec fn fields(bytes: Seq<u8>) -> Seq<Seq<u8>>
    decreases bytes.len(),
{
    if bytes.len() == 0 {
        seq![Seq::<u8>::empty()]
    } else {
        let before = fields(bytes.drop_last());
        if bytes.last() == 0 {
            before.push(Seq::empty())
        } else {
            before.drop_last().push(before.last().push(bytes.last()))
        }
    }
}

/// The value that a field gives to a variable.
pub open spec fn field_value(field: Seq<u8>, key: Seq<char>) -> Option<Seq<char>> {
    if !valid_utf8(field) {
        None
    } else {
        match cut_at(decode_utf8(field), '=') {
            Some((name, value)) => if name == key {
                Some(value)
            } else {
                None
            },
            None => None,
        }
    }
}

/// The values that the fields give to a variable.
pub open spec fn field_values(bytes: Seq<u8>, key: Seq<char>) -> Seq<Option<Seq<char>>> {
    Seq::new(fields(bytes).len(), |i: int| field_value(fields(bytes)[i], key))
}

/// The value of a variable in a process environment: the first that it is
/// given.
pub open spec fn variable(bytes: Seq<u8>, key: Seq<char>) -> Option<Seq<char>> {
    first_some(field_values(bytes, key))
}

/// The views of a list of byte strings.
pub open spec fn byte_views(list: Seq<Vec<u8>>) -> Seq<Seq<u8>> {
    list.map_values(|bytes: Vec<u8>| bytes@)
}

/// The fields of a process environment.
fn split_fields(bytes: &[u8]) -> (r: Vec<Vec<u8>>)
    ensures
        byte_views(r@) == fields(bytes@),
{
    let size: usize = bytes.len();
    let mut done: Vec<Vec<u8>> = Vec::new();
    let mut current: Vec<u8> = Vec::new();
    let mut i: usize = 0;
    assert(byte_views(done@).push(current@) =~= seq![Seq::<u8>::empty()]);
    assert(bytes@.take(0) =~= Seq::<u8>::empty());
    while i < size
        invariant
            i <= size,
            size == bytes@.len(),
            byte_views(done@).push(current@) == fields(bytes@.take(i as int)),
        decreases size - i,
    {
        let ghost before = fields(bytes@.take(i as int));
        let ghost next = bytes@.take(i + 1);
        assert(next.drop_last() =~= bytes@.take(i as int));
        assert(next.last() == bytes@[i as int]);
        assert(before.last() == current@);
        assert(before.drop_last() =~= byte_views(done@));
        if bytes[i] == 0 {
            let ghost old_done = byte_views(done@);
            done.push(current);
            assert(byte_views(done@) =~= old_done.push(current@));
            current = Vec::new();
        } else {
            current.push(bytes[i]);
        }
        i = i + 1;
    }
    assert(bytes@.take(i as int) =~= bytes@);
    let ghost old_done = byte_views(done@);
    done.push(current);
    assert(byte_views(done@) =~= old_done.push(current@));
    done
}

/// The value of a variable in a process environment.
pub fn process_environment(environment: &[u8], key: &str) -> (r: Option<String>)
    ensures
        match r {
            Some(value) => variable(environment@, key@) == Some(value@),
            None => variable(environment@, key@) is None,
        },
{
    let list = split_fields(environment);
    let ghost values = field_values(environment@, key@);
    let mut i: usize = 0;
    while i < list.len()
        invariant
            i <= list@.len(),
            byte_views(list@) == fields(environment@),
            values == field_values(environment@, key@),
            forall|j: int| 0 <= j < i ==> #[trigger] values[j] is None,
        decreases list@.len() - i,
    {
        assert(fields(environment@)[i as int] == list@[i as int]@);
        assert(values[i as int] == field_value(list@[i as int]@, key@));
        if let Ok(entry) = utf8_text(list[i].clone()) {
            if let Some((name, value)) = split_once(entry.as_str(), '=') {
                if text_eq(name.as_str(), key) {
                    proof {
                        lemma_first_at(values, i as int);
                    }
                    return Some(value);
                }
            }
        }
        i = i + 1;
    }
    proof {
        lemma_first_none(values);
    }
    None
}

/// The unit that an application runs in.
pub open spec fn unit_of(app_id: Seq<char>, principal: Seq<char>) -> Option<Seq<char>> {
    if principal == "foreground"@ {
        Some("remagic-app@"@ + app_id + ".service"@)
    } else if principal == "background"@ {
        Some("remagic-background-"@ + app_id + ".service"@)
    } else {
        None
    }
}

/// The unit that an application runs in.
pub fn principal_unit(app_id: &AppId, principal: &str) -> (r: Option<String>)
    ensures
        match r {
            Some(unit) => unit_of(app_id@, principal@) == Some(unit@),
            None => unit_of(app_id@, principal@) is None,
        },
{
    let mut unit = if text_eq(principal, "foreground") {
        "remagic-app@".to_owned()
    } else if text_eq(principal, "background") {
        "remagic-background-".to_owned()
    } else {
        return None;
    };
    unit.append(app_id.as_str());
    unit.append(".service");
    Some(unit)
}

/// The path in a line of a control group list: what follows the second colon.
pub open spec fn group_path(line: Seq<char>) -> Option<Seq<char>> {
    match cut_at(line, ':') {
        Some((_, rest)) => match cut_at(rest, ':') {
            Some((_, path)) => Some(path),
            None => None,
        },
        None => None,
    }
}

/// A line of a control group list names a unit as a whole component.
pub open spec fn names_unit(line: Seq<char>, unit: Seq<char>) -> bool {
    group_path(line) is Some && split(group_path(line)->0, '/').contains(unit)
}

/// Some line of a control group list names a unit.
pub open spec fn in_unit(cgroup: Seq<char>, unit: Seq<char>) -> bool {
    exists|i: int|
        0 <= i < split(cgroup, '\n').len() && #[trigger] names_unit(
            line_at(split(cgroup, '\n'), i),
            unit,
        )
}

/// Whether a line of a control group list names a unit as a whole component.
fn line_names_unit(line: &str, unit: &str) -> (r: bool)
    ensures
        r == names_unit(line@, unit@),
{
    let path = match split_once(line, ':') {
        Some((_, rest)) => match split_once(rest.as_str(), ':') {
            Some((_, path)) => path,
            None => return false,
        },
        None => return false,
    };
    let parts = split_on(path.as_str(), '/');
    let ghost all = split(path@, '/');
    let mut i: usize = 0;
    while i < parts.len()
        invariant
            i <= parts@.len(),
            all == texts(parts@),
            all == split(path@, '/'),
            group_path(line@) == Some(path@),
            forall|j: int| 0 <= j < i ==> #[trigger] all[j] != unit@,
        decreases parts@.len() - i,
    {
        assert(all[i as int] == parts@[i as int]@);
        if text_eq(parts[i].as_str(), unit) {
            assert(all.contains(unit@));
            return true;
        }
        i = i + 1;
    }
    assert(!all.contains(unit@)) by {
        if all.contains(unit@) {
            let j = choose|j: int| 0 <= j < all.len() && all[j] == unit@;
            assert(all[j] != unit@);
        }
    }
    false
}

/// Whether a control group list names a unit as a whole component of a path.
pub fn cgroup_contains_unit(cgroup: &str, unit: &str) -> (r: bool)
    ensures
        r == in_unit(cgroup@, unit@),
{
    let lines = split_on(cgroup, '\n');
    let ghost all = split(cgroup@, '\n');
    let count: usize = lines.len();
    let mut i: usize = 0;
    while i < count
        invariant
            i <= count,
            count == lines@.len(),
            all == texts(lines@),
            all == split(cgroup@, '\n'),
            forall|j: int| 0 <= j < i ==> !#[trigger] names_unit(line_at(all, j), unit@),
        decreases count - i,
    {
        assert(all[i as int] == lines@[i as int]@);
        let found = if i < count - 1 {
            let line = strip_suffix_char(lines[i].as_str(), '\r');
            assert(line@ == line_at(all, i as int));
            line_names_unit(line.as_str(), unit)
        } else {
            line_names_unit(lines[i].as_str(), unit)
        };
        if found {
            assert(names_unit(line_at(all, i as int), unit@));
            return true;
        }
        i = i + 1;
    }
    false
}

/// Who a process says it is, and is, by its environment and its control
/// groups: an application of a generation that is not zero, in its own unit.
pub open spec fn identified(environment: Seq<u8>, cgroup: Seq<char>) -> Option<
    (Seq<char>, nat, Seq<char>),
> {
    let app_id = variable(environment, "REMAGIC_APP_ID"@);
    let generation = variable(environment, "REMAGIC_APP_GENERATION"@);
    let principal = variable(environment, "REMAGIC_AGENT_PRINCIPAL"@);
    if app_id is Some && valid_id(app_id->0) && generation is Some && principal is Some {
        let number = natural_of(generation->0);
        let unit = unit_of(app_id->0, principal->0);
        if number is Some && 0 < number->0 <= u64::MAX && unit is Some && in_unit(cgroup, unit->0) {
            Some((app_id->0, number->0, principal->0))
        } else {
            None
        }
    } else {
        None
    }
}

/// Who a client is, from whether it runs as the same user and what was read
/// of its process. Nobody outside a managed application is anyone.
pub fn peer_identity(
    same_user: bool,
    environment: Option<Vec<u8>>,
    cgroup: Option<String>,
) -> (r: Option<ClientIdentity>)
    ensures
        match r {
            Some(identity) => {
                &&& same_user && environment is Some && cgroup is Some
                &&& identified(environment->0@, cgroup->0@) == Some(
                    (identity.app_id@, identity.generation as nat, identity.principal@),
                )
            },
            None => {
                ||| !same_user
                ||| environment is None
                ||| cgroup is None
                ||| identified(environment->0@, cgroup->0@) is None
            },
        },
{
    if !same_user {
        return None;
    }
    let environment = match environment {
        Some(environment) => environment,
        None => return None,
    };
    let cgroup = match cgroup {
        Some(cgroup) => cgroup,
        None => return None,
    };
    let name = match process_environment(environment.as_slice(), "REMAGIC_APP_ID") {
        Some(name) => name,
        None => return None,
    };
    let app_id = match AppId::new(name.as_str()) {
        Ok(app_id) => app_id,
        Err(_) => return None,
    };
    let number = match process_environment(environment.as_slice(), "REMAGIC_APP_GENERATION") {
        Some(number) => number,
        None => return None,
    };
    let generation = match parse_u64(number.as_str()) {
        Some(generation) => generation,
        None => return None,
    };
    if generation == 0 {
        return None;
    }
    let principal = match process_environment(environment.as_slice(), "REMAGIC_AGENT_PRINCIPAL") {
        Some(principal) => principal,
        None => return None,
    };
    let unit = match principal_unit(&app_id, principal.as_str()) {
        Some(unit) => unit,
        None => return None,
    };
    if cgroup_contains_unit(cgroup.as_str(), unit.as_str()) {
        Some(ClientIdentity { app_id, generation, principal })
    } else {
        None
    }
}

/// The program of the runtime: the packaged one, unless another one is asked
/// for.
pub fn resolve_pi_binary(wanted: Option<String>) -> (r: FilePath)
    ensures
        r@ == (match wanted {
            Some(path) => path@,
            None => PACKAGED_PI@,
        }),
{
    match wanted {
        Some(path) => FilePath::new(path.as_str()),
        None => FilePath::new(PACKAGED_PI),
    }
}

/// Whether the service was started with its socket, from the two variables
/// that say so and the number of this process.
pub fn systemd_socket_available(
    listen_pid: Option<String>,
    listen_fds: Option<String>,
    process: u32,
) -> (r: bool)
    ensures
        r == (listen_pid is Some && natural_of(listen_pid->0@) == Some(process as nat)
            && listen_fds is Some && listen_fds->0@ == "1"@),
{
    let for_this = match listen_pid {
        Some(pid) => match parse_u64(pid.as_str()) {
            Some(pid) => pid == process as u64,
            None => false,
        },
        None => false,
    };
    for_this && match listen_fds {
        Some(fds) => text_eq(fds.as_str(), "1"),
        None => false,
    }
}

/// What happened at the socket.
#[derive(Debug)]
pub enum ServerEvent {
    /// A client connected; who it is, where it is someone.
    Accepted(Option<ClientIdentity>),
    /// The socket failed.
    Failed,
    /// Nobody connected for a while. How many clients there are, and how long
    /// nothing has happened.
    Quiet { clients: usize, idle_secs: u64 },
}

/// What the service does next.
#[derive(Debug)]
pub enum ServerStep {
    /// The client is served.
    Serve(ClientIdentity),
    /// The client is turned away.
    Reject,
    /// The service ends with an error.
    Fail,
    /// The service ends; the socket starts it again.
    Exit,
    /// The service waits on.
    Wait,
}

/// Follows what happened at the socket.
pub fn run_step(event: ServerEvent) -> (r: ServerStep)
    ensures
        r == (match event {
            ServerEvent::Accepted(Some(identity)) => ServerStep::Serve(identity),
            ServerEvent::Accepted(None) => ServerStep::Reject,
            ServerEvent::Failed => ServerStep::Fail,
            ServerEvent::Quiet { clients, idle_secs } => if clients == 0 && idle_secs
                >= IDLE_EXIT_SECS {
                ServerStep::Exit
            } else {
                ServerStep::Wait
            },
        }),
{
    match event {
        ServerEvent::Accepted(Some(identity)) => ServerStep::Serve(identity),
        ServerEvent::Accepted(None) => ServerStep::Reject,
        ServerEvent::Failed => ServerStep::Fail,
        ServerEvent::Quiet { clients, idle_secs } => if idle(clients, idle_secs) {
            ServerStep::Exit
        } else {
            ServerStep::Wait
        },
    }
}

/// Whether the service has nothing to do.
pub fn idle(clients: usize, idle_secs: u64) -> (r: bool)
    ensures
        r == (clients == 0 && idle_secs >= IDLE_EXIT_SECS),
{
    clients == 0 && idle_secs >= IDLE_EXIT_SECS
}

/// Checks a request before it is looked at: it has to be well formed, and its
/// token has to be bound to the client. The complaint comes back.
pub fn validate_message(
    message: &AgentClientMessage,
    form: Result<(), String>,
    state: &mut AgentState,
    identity: &ClientIdentity,
) -> (r: Option<AgentEvent>)
    ensures
        ({
            let app = state_of(old(state)@, message.app());
            let ours = identity.app_id@ == message.app();
            let admitted = ours && app.admits(
                identity.principal@,
                identity.generation,
                message.token(),
            );
            &&& match form {
                Err(complaint) => {
                    &&& r is Some && r->0@ == refusal(
                        message.id(),
                        message.app(),
                        AgentErrorCode::InvalidRequest,
                        complaint@,
                        false,
                    )
                    &&& final(state)@ == old(state)@
                },
                Ok(_) => {
                    &&& admitted ==> r is None
                    &&& !admitted ==> r is Some && r->0@ == refusal(
                        message.id(),
                        message.app(),
                        AgentErrorCode::InvalidRequest,
                        "agent token is not bound to this managed application generation"@,
                        false,
                    )
                    &&& final(state)@ == (if ours {
                        old(state)@.insert(
                            message.app(),
                            app.asked(identity.principal@, identity.generation, message.token()),
                        )
                    } else {
                        old(state)@
                    })
                },
            }
            &&& final(state).same_host(old(state))
        }),
{
    match form {
        Ok(_) => {},
        Err(complaint) => return Some(
            error_event(
                message.request_id(),
                message.app_id(),
                None,
                AgentErrorCode::InvalidRequest,
                complaint.as_str(),
                false,
            ),
        ),
    }
    if !state.authorize(identity, message.app_id(), message.client_token()) {
        return Some(
            error_event(
                message.request_id(),
                message.app_id(),
                None,
                AgentErrorCode::InvalidRequest,
                "agent token is not bound to this managed application generation",
                false,
            ),
        );
    }
    None
}

/// Holds a connection to the application of its first request. The complaint
/// about another one comes back.
pub fn pin_application(pinned: &mut Option<AppId>, message: &AgentClientMessage) -> (r: Option<
    AgentEvent,
>)
    ensures
        match *old(pinned) {
            Some(app_id) => {
                &&& *final(pinned) == *old(pinned)
                &&& app_id@ == message.app() ==> r is None
                &&& app_id@ != message.app() ==> r is Some && r->0@ == refusal(
                    message.id(),
                    message.app(),
                    AgentErrorCode::InvalidRequest,
                    "one connection may represent only one application"@,
                    false,
                )
            },
            None => r is None && *final(pinned) is Some && final(pinned)->0@ == message.app(),
        },
{
    match &*pinned {
        Some(app_id) => {
            if !text_eq(app_id.as_str(), message.app_id().as_str()) {
                return Some(
                    error_event(
                        message.request_id(),
                        message.app_id(),
                        None,
                        AgentErrorCode::InvalidRequest,
                        "one connection may represent only one application",
                        false,
                    ),
                );
            }
            return None;
        },
        None => {},
    }
    *pinned = Some(message.app_id().clone());
    None
}

/// What lies where the service would put its socket.
#[derive(Clone, Copy, Debug, PartialEq, Eq, Structural)]
pub enum SocketPath {
    Free,
    Socket,
    Other,
}

/// What is done before the service listens.
#[derive(Clone, Copy, Debug, PartialEq, Eq, Structural)]
pub enum ListenStep {
    /// The socket that the service was started with is used.
    UseActivated,
    /// An old socket is removed first.
    RemoveAndBind,
    Bind,
    /// Something else lies there.
    Refuse,
}

/// Decides how the service listens. It replaces nothing but a socket.
pub fn listen_step(activated: bool, found: SocketPath) -> (r: ListenStep)
    ensures
        r == (if activated {
            ListenStep::UseActivated
        } else {
            match found {
                SocketPath::Free => ListenStep::Bind,
                SocketPath::Socket => ListenStep::RemoveAndBind,
                SocketPath::Other => ListenStep::Refuse,
            }
        }),
{
    if activated {
        return ListenStep::UseActivated;
    }
    match found {
        SocketPath::Free => ListenStep::Bind,
        SocketPath::Socket => ListenStep::RemoveAndBind,
        SocketPath::Other => ListenStep::Refuse,
    }
}

/// The two units of an application are distinct, and those of two
/// applications are.
pub proof fn units_are_distinct(first: Seq<char>, second: Seq<char>)
    ensures
        unit_of(first, "foreground"@) != unit_of(second, "background"@),
        first != second ==> unit_of(first, "foreground"@) != unit_of(second, "foreground"@),
        first != second ==> unit_of(first, "background"@) != unit_of(second, "background"@),
{
    reveal_strlit("foreground");
    reveal_strlit("background");
    reveal_strlit("remagic-app@");
    reveal_strlit("remagic-background-");
    reveal_strlit(".service");
    assert("foreground"@[0] == 'f');
    assert("background"@[0] == 'b');
    let a = "remagic-app@"@;
    let b = "remagic-background-"@;
    let e = ".service"@;
    assert((a + first + e)[8] == 'a');
    assert((b + second + e)[8] == 'b');
    if a + first + e == a + second + e {
        assert((a + first + e).len() == (a + second + e).len());
        assert(first =~= (a + first + e).subrange(a.len() as int, (a.len() + first.len()) as int));
        assert(second =~= (a + second + e).subrange(a.len() as int, (a.len() + second.len()) as int));
    }
    if b + first + e == b + second + e {
        assert((b + first + e).len() == (b + second + e).len());
        assert(first =~= (b + first + e).subrange(b.len() as int, (b.len() + first.len()) as int));
        assert(second =~= (b + second + e).subrange(b.len() as int, (b.len() + second.len()) as int));
    }
}

/// Who is identified runs in a unit of its own application.
pub proof fn identified_clients_are_managed(environment: Seq<u8>, cgroup: Seq<char>)
    requires
        identified(environment, cgroup) is Some,
    ensures
        ({
            let (app_id, generation, principal) = identified(environment, cgroup)->0;
            &&& valid_id(app_id)
            &&& generation > 0
            &&& principal == "foreground"@ || principal == "background"@
            &&& in_unit(cgroup, unit_of(app_id, principal)->0)
        }),
{
}

/// The fields of an environment stand between its zero bytes.
pub proof fn fields_stand_between_zero_bytes(a: Seq<u8>, b: Seq<u8>)
    ensures
        fields(b).len() > 0,
        fields(a.push(0) + b) == fields(a) + fields(b),
        !b.contains(0) ==> fields(b) == seq![b],
    decreases b.len(),
{
    let whole = a.push(0) + b;
    if b.len() == 0 {
        assert(whole =~= a.push(0));
        assert(whole.drop_last() =~= a);
        assert(fields(whole) =~= fields(a) + fields(b));
        assert(b =~= Seq::<u8>::empty());
        assert(fields(b) =~= seq![b]);
    } else {
        assert(whole.drop_last() =~= a.push(0) + b.drop_last());
        fields_stand_between_zero_bytes(a, b.drop_last());
        assert(fields(whole) =~= fields(a) + fields(b));
        if !b.contains(0) {
            assert(b[b.len() - 1] != 0);
            assert(!b.drop_last().contains(0)) by {
                if b.drop_last().contains(0) {
                    let i = choose|i: int| 0 <= i < b.drop_last().len() && b.drop_last()[i] == 0;
                    assert(b[i] == 0);
                }
            }
            assert(b.drop_last().push(b.last()) =~= b);
            assert(fields(b) =~= seq![b]);
        }
    }
}

/// A variable has the value of the first field that names it: its field is the text of its name,
/// an equals sign and its value.
pub proof fn the_first_field_counts(first: Seq<u8>, rest: Seq<u8>, key: Seq<char>, value: Seq<char>)
    requires
        !first.contains(0),
        !key.contains('='),
    ensures
        valid_utf8(first) && decode_utf8(first) == key.push('=') + value ==> variable(
            first.push(0) + rest,
            key,
        ) == Some(value) && variable(first, key) == Some(value),
        !valid_utf8(first) || !key.push('=').is_prefix_of(decode_utf8(first)) ==> variable(
            first.push(0) + rest,
            key,
        ) == variable(rest, key) && variable(first, key) is None,
{
    fields_stand_between_zero_bytes(first, rest);
    fields_stand_between_zero_bytes(first, first);
    let whole = first.push(0) + rest;
    let text = decode_utf8(first);
    assert(fields(whole)[0] == first);
    assert(field_values(whole, key)[0] == field_value(first, key));
    assert(field_values(first, key)[0] == field_value(first, key));
    texts_are_cut_at_the_first_occurrence(text, '=');
    if valid_utf8(first) && text == key.push('=') + value {
        assert(text[key.len() as int] == '=');
        assert(text.contains('='));
        let (name, after) = cut_at(text, '=')->0;
        assert(name.len() == key.len()) by {
            if name.len() < key.len() {
                assert(text[name.len() as int] == '=');
                assert(key[name.len() as int] == '=');
            } else if name.len() > key.len() {
                assert(name[key.len() as int] == text[key.len() as int]);
                assert(name.contains('='));
            }
        }
        assert(name =~= key) by {
            assert forall|i: int| 0 <= i < key.len() implies name[i] == key[i] by {
                assert(text[i] == name[i] && text[i] == key[i]);
            }
        }
        assert(after =~= value) by {
            assert forall|i: int| 0 <= i < value.len() implies after[i] == value[i] by {
                assert(text[key.len() + 1 + i] == after[i]);
            }
        }
        lemma_first_at(field_values(whole, key), 0);
        lemma_first_at(field_values(first, key), 0);
    }
    if !valid_utf8(first) || !key.push('=').is_prefix_of(text) {
        assert(field_value(first, key) is None) by {
            if field_value(first, key) is Some {
                assert(key.push('=') =~= text.subrange(0, (key.len() + 1) as int));
            }
        }
        lemma_first_none(field_values(first, key));
        let values = field_values(whole, key);
        let others = field_values(rest, key);
        assert(values.len() == others.len() + 1);
        assert forall|i: int| 0 <= i < others.len() implies values[i + 1] == others[i] by {
            assert(fields(whole)[i + 1] == fields(rest)[i]);
        }
        if exists|i: int| 0 <= i < others.len() && #[trigger] others[i] is Some {
            let i = lemma_first_found(others);
            assert(values[i + 1] == others[i]);
            assert forall|j: int| 0 <= j < i + 1 implies values[j] is None by {
                if j > 0 {
                    assert(values[j] == others[j - 1]);
                }
            }
            lemma_first_at(values, i + 1);
            lemma_first_at(others, i);
        } else {
            assert forall|j: int| 0 <= j < values.len() implies values[j] is None by {
                if j > 0 {
                    assert(values[j] == others[j - 1]);
                }
            }
            lemma_first_none(values);
            lemma_first_none(others);
        }
    }
}

/// The first of the values that is there.
proof fn lemma_first_found(values: Seq<Option<Seq<char>>>) -> (i: int)
    requires
        exists|i: int| 0 <= i < values.len() && #[trigger] values[i] is Some,
    ensures
        0 <= i < values.len(),
        values[i] is Some,
        forall|j: int| 0 <= j < i ==> values[j] is None,
    decreases values.len(),
{
    let k = choose|i: int| 0 <= i < values.len() && #[trigger] values[i] is Some;
    if exists|i: int| 0 <= i < k && #[trigger] values[i] is Some {
        let before = values.take(k);
        let j = choose|i: int| 0 <= i < k && #[trigger] values[i] is Some;
        assert(before[j] is Some);
        let i = lemma_first_found(before);
        assert(values[i] == before[i]);
        assert forall|j: int| 0 <= j < i implies values[j] is None by {
            assert(before[j] == values[j]);
        }
        i
    } else {
        k
    }
}

/// A line of a control group file names its path after the second colon, whatever the path holds.
pub proof fn group_paths_follow_the_second_colon(
    number: Seq<char>,
    controllers: Seq<char>,
    path: Seq<char>,
    line: Seq<char>,
)
    requires
        !number.contains(':'),
        !controllers.contains(':'),
        line == number.push(':') + (controllers.push(':') + path),
    ensures
        group_path(line) == Some(path),
{
    lemma_cut(number, ':', controllers.push(':') + path);
    lemma_cut(controllers, ':', path);
}

/// A text is cut at the place where the character is put in.
proof fn lemma_cut(before: Seq<char>, c: char, after: Seq<char>)
    requires
        !before.contains(c),
    ensures
        cut_at(before.push(c) + after, c) == Some((before, after)),
{
    let text = before.push(c) + after;
    texts_are_cut_at_the_first_occurrence(text, c);
    assert(text[before.len() as int] == c);
    let (name, rest) = cut_at(text, c)->0;
    assert(name.len() == before.len()) by {
        if name.len() < before.len() {
            assert(text[name.len() as int] == c);
            assert(before[name.len() as int] == c);
        } else if name.len() > before.len() {
            assert(name[before.len() as int] == text[before.len() as int]);
            assert(name.contains(c));
        }
    }
    assert(name =~= before) by {
        assert forall|i: int| 0 <= i < before.len() implies name[i] == before[i] by {
            assert(text[i] == name[i] && text[i] == before[i]);
        }
    }
    assert(rest =~= after) by {
        assert forall|i: int| 0 <= i < after.len() implies rest[i] == after[i] by {
            assert(text[before.len() + 1 + i] == rest[i]);
        }
    }
}

/// A client is who its environment says it is where that is an application in its foreground or
/// background, with a generation, and its process runs in the very unit of that application;
/// nobody else is identified.
pub proof fn clients_are_who_their_unit_says(
    environment: Seq<u8>,
    cgroup: Seq<char>,
    app_id: Seq<char>,
    generation: nat,
)
    requires
        variable(environment, "REMAGIC_APP_ID"@) == Some(app_id),
        valid_id(app_id),
        variable(environment, "REMAGIC_APP_GENERATION"@) is Some,
        natural_of(variable(environment, "REMAGIC_APP_GENERATION"@)->0) == Some(generation),
    ensures
        variable(environment, "REMAGIC_AGENT_PRINCIPAL"@) == Some("foreground"@) ==> identified(
            environment,
            cgroup,
        ) == (if 0 < generation <= u64::MAX && in_unit(
            cgroup,
            "remagic-app@"@ + app_id + ".service"@,
        ) {
            Some((app_id, generation, "foreground"@))
        } else {
            None
        }),
        variable(environment, "REMAGIC_AGENT_PRINCIPAL"@) == Some("background"@) ==> identified(
            environment,
            cgroup,
        ) == (if 0 < generation <= u64::MAX && in_unit(
            cgroup,
            "remagic-background-"@ + app_id + ".service"@,
        ) {
            Some((app_id, generation, "background"@))
        } else {
            None
        }),
        variable(environment, "REMAGIC_AGENT_PRINCIPAL"@) != Some("foreground"@) && variable(
            environment,
            "REMAGIC_AGENT_PRINCIPAL"@,
        ) != Some("background"@) ==> identified(environment, cgroup) is None,
{
    reveal_strlit("foreground");
    reveal_strlit("background");
    assert("foreground"@[0] != "background"@[0]);
}

/// A control group file places a process in a unit exactly where one of its lines has the unit
/// as a whole component of its path.
pub proof fn units_are_whole_components(cgroup: Seq<char>, unit: Seq<char>, i: int, j: int)
    requires
        0 <= i < split(cgroup, '\n').len(),
        group_path(line_at(split(cgroup, '\n'), i)) is Some,
        0 <= j < split(group_path(line_at(split(cgroup, '\n'), i))->0, '/').len(),
        split(group_path(line_at(split(cgroup, '\n'), i))->0, '/')[j] == unit,
    ensures
        in_unit(cgroup, unit),
{
    assert(names_unit(line_at(split(cgroup, '\n'), i), unit));
}

} // verus!
