//! What is kept of an application that left the foreground.
use vstd::prelude::*;
use crate::first::first_some;
use crate::first::{lemma_first_at, lemma_first_none, lemma_no_first};
use crate::manifest::AppId;
use crate::ordered::OrderedMap;
use crate::path::FilePath;
use crate::path::{entries_are_found_again, file_name, joined};
use crate::text::{chars_of, decimal_text, has_suffix};
use crate::text::{decimal, decimal_digits_are_read_back, is_digit};

verus! {

/// How an application left the foreground.
#[derive(Clone, Copy, Debug, PartialEq, Eq, Structural)]
pub enum SessionStatus {
    Background,
    Parked,
    Crashed,
}

/// What is kept of one application.
#[derive(Clone, Debug)]
pub struct AppSession {
    pub schema: u32,
    pub app_id: AppId,
    pub status: SessionStatus,
    pub title: String,
    pub subtitle: String,
    pub resume_payload: Option<serde_json::Value>,
    pub updated_at: i64,
    pub last_error: Option<String>,
}

/// The directory of kept sessions.
#[derive(Debug)]
pub struct SessionStore {
    root: FilePath,
}

/// Why sessions cannot be read or written.
#[derive(Debug, PartialEq, Eq)]
pub enum SessionError {
    Io(FilePath, String),
    Parse(FilePath, String),
    Schema(FilePath, u32),
    Serialize(String),
}

/// The same reasons over texts.
pub enum SessionFault {
    Io(Seq<char>, Seq<char>),
    Parse(Seq<char>, Seq<char>),
    Schema(Seq<char>, u32),
    Serialize(Seq<char>),
}

impl View for SessionError {
    type V = SessionFault;

    open spec fn view(&self) -> SessionFault {
        match self {
            SessionError::Io(a, b) => SessionFault::Io(a@, b@),
            SessionError::Parse(a, b) => SessionFault::Parse(a@, b@),
            SessionError::Schema(a, b) => SessionFault::Schema(a@, *b),
            SessionError::Serialize(a) => SessionFault::Serialize(a@),
        }
    }
}

/// What reading one directory entry gave.
#[derive(Debug)]
pub enum StoredSession {
    /// The entry could not be listed.
    Unlisted(String),
    /// The file could not be read.
    Unreadable(FilePath, String),
    /// The file holds no session.
    Malformed(FilePath, String),
    /// The file holds a session.
    Parsed(FilePath, AppSession),
}

/// A path whose file name has the extension of sessions.
pub open spec fn is_session_path(path: Seq<char>) -> bool {
    match file_name(path) {
        Some(name) => ".json"@.is_suffix_of(name) && name.len() > 5,
        None => false,
    }
}

/// Whether the file name of a path has the extension of sessions.
pub fn is_session_file(path: &FilePath) -> (r: bool)
    ensures
        r == is_session_path(path@),
{
    match path.file_name() {
        Some(name) => has_suffix(name.as_str(), ".json") && chars_of(name.as_str()).len() > 5,
        None => false,
    }
}

impl StoredSession {
    /// The session of an entry that counts.
    pub open spec fn session(self) -> Option<AppSession> {
        match self {
            StoredSession::Parsed(path, session) => if is_session_path(path@) {
                Some(session)
            } else {
                None
            },
            _ => None,
        }
    }
}

/// The fault of one entry.
pub open spec fn entry_fault(root: Seq<char>, entry: StoredSession) -> Option<SessionFault> {
    match entry {
        StoredSession::Unlisted(source) => Some(SessionFault::Io(root, source@)),
        StoredSession::Unreadable(path, source) => if is_session_path(path@) {
            Some(SessionFault::Io(path@, source@))
        } else {
            None
        },
        StoredSession::Malformed(path, source) => if is_session_path(path@) {
            Some(SessionFault::Parse(path@, source@))
        } else {
            None
        },
        StoredSession::Parsed(path, session) => if is_session_path(path@) && session.schema != 1 {
            Some(SessionFault::Schema(path@, session.schema))
        } else {
            None
        },
    }
}

/// The first fault of the entries.
pub open spec fn entries_fault(root: Seq<char>, entries: Seq<StoredSession>) -> Option<
    SessionFault,
> {
    first_some(Seq::new(entries.len(), |i: int| entry_fault(root, entries[i])))
}

/// The sessions of the entries under their applications; of two for the same
/// application the later one counts.
pub open spec fn kept_sessions(entries: Seq<StoredSession>) -> Map<Seq<char>, AppSession>
    decreases entries.len(),
{
    if entries.len() == 0 {
        Map::empty()
    } else {
        let earlier = kept_sessions(entries.drop_last());
        match entries.last().session() {
            Some(session) => earlier.insert(session.app_id@, session),
            None => earlier,
        }
    }
}

impl SessionStore {
    /// The directory.
    pub closed spec fn root_path(&self) -> Seq<char> {
        self.root@
    }

    /// The store in a directory.
    pub fn new(root: FilePath) -> (r: SessionStore)
        ensures
            r.root_path() == root@,
    {
        SessionStore { root }
    }

    /// The directory to list.
    pub fn root(&self) -> (r: &FilePath)
        ensures
            r@ == self.root_path(),
    {
        &self.root
    }

    /// All kept sessions under their applications, from what listing the
    /// directory gave: nothing where it does not exist, an error, or its
    /// entries in order.
    pub fn load_all(&self, listing: Option<Result<Vec<StoredSession>, String>>) -> (r: Result<
        OrderedMap<AppId, AppSession>,
        SessionError,
    >)
        ensures
            match listing {
                None => r is Ok && r->Ok_0@ == Map::<Seq<char>, AppSession>::empty(),
                Some(Err(source)) => r is Err && r->Err_0@ == SessionFault::Io(
                    self.root_path(),
                    source@,
                ),
                Some(Ok(entries)) => match r {
                    Ok(sessions) => entries_fault(self.root_path(), entries@) is None && sessions@
                        == kept_sessions(entries@),
                    Err(e) => entries_fault(self.root_path(), entries@) == Some(e@),
                },
            },
    {
        let mut sessions: OrderedMap<AppId, AppSession> = OrderedMap::new();
        let entries = match listing {
            None => return Ok(sessions),
            Some(Err(source)) => return Err(SessionError::Io(self.root.clone(), source)),
            Some(Ok(entries)) => entries,
        };
        let ghost all = entries@;
        let ghost root = self.root_path();
        let ghost faults = Seq::new(all.len(), |i: int| entry_fault(root, all[i]));
        let mut rest = entries;
        let mut reversed: Vec<StoredSession> = Vec::new();
        while rest.len() > 0
            invariant
                rest@.len() + reversed@.len() == all.len(),
                forall|j: int| 0 <= j < rest@.len() ==> rest@[j] == all[j],
                forall|j: int|
                    0 <= j < reversed@.len() ==> reversed@[j] == all[all.len() - 1 - j],
            decreases rest@.len(),
        {
            if let Some(entry) = rest.pop() {
                reversed.push(entry);
            }
        }
        let ghost mut i: int = 0;
        assert(all.take(0) =~= Seq::<StoredSession>::empty());
        while reversed.len() > 0
            invariant
                0 <= i <= all.len(),
                reversed@.len() == all.len() - i,
                root == self.root_path(),
                faults == Seq::new(all.len(), |i: int| entry_fault(root, all[i])),
                forall|j: int|
                    0 <= j < reversed@.len() ==> reversed@[j] == all[all.len() - 1 - j],
                forall|j: int| 0 <= j < i ==> faults[j] is None,
                sessions@ == kept_sessions(all.take(i)),
                listing == Some(Ok::<Vec<StoredSession>, String>(entries)),
                entries@ == all,
            decreases reversed@.len(),
        {
            let entry = match reversed.pop() {
                Some(entry) => entry,
                None => return Ok(sessions),
            };
            assert(entry == all[i]);
            assert(all.take(i + 1).drop_last() =~= all.take(i));
            assert(all.take(i + 1).last() == all[i]);
            match entry {
                StoredSession::Unlisted(source) => {
                    proof {
                        lemma_first_at(faults, i);
                    }
                    return Err(SessionError::Io(self.root.clone(), source));
                },
                StoredSession::Unreadable(path, source) => {
                    if is_session_file(&path) {
                        proof {
                            lemma_first_at(faults, i);
                        }
                        return Err(SessionError::Io(path, source));
                    }
                },
                StoredSession::Malformed(path, source) => {
                    if is_session_file(&path) {
                        proof {
                            lemma_first_at(faults, i);
                        }
                        return Err(SessionError::Parse(path, source));
                    }
                },
                StoredSession::Parsed(path, session) => {
                    if is_session_file(&path) {
                        if session.schema != 1 {
                            proof {
                                lemma_first_at(faults, i);
                            }
                            return Err(SessionError::Schema(path, session.schema));
                        }
                        let id = session.app_id.clone();
                        sessions.insert(id, session);
                    }
                },
            }
            proof {
                i = i + 1;
            }
        }
        proof {
            assert(all.take(i) =~= all);
            lemma_first_none(faults);
        }
        Ok(sessions)
    }

    /// The file of an application's session.
    pub fn path_for(&self, id: &AppId) -> (r: FilePath)
        ensures
            r@ == joined(self.root_path(), id@ + ".json"@),
    {
        let mut name = id.to_text();
        name.append(".json");
        self.root.join(name.as_str())
    }

    /// The file that a session is written to before it takes the place of the
    /// kept one.
    pub fn temporary_path_for(&self, id: &AppId, process: u32) -> (r: FilePath)
        ensures
            r@ == joined(self.root_path(), id@ + ".json.tmp."@ + decimal(process as nat)),
    {
        let mut name = id.to_text();
        name.append(".json.tmp.");
        name.append(decimal_text(process as u64).as_str());
        self.root.join(name.as_str())
    }
}

impl SessionFault {
    /// The reason in words.
    pub open spec fn text(self) -> Seq<char> {
        match self {
            SessionFault::Io(a, b) => "session I/O error at "@ + a + ": "@ + b,
            SessionFault::Parse(a, b) => "invalid session at "@ + a + ": "@ + b,
            SessionFault::Schema(a, b) => "unsupported session schema "@ + decimal(b as nat) + " at "@ + a,
            SessionFault::Serialize(a) => "cannot encode session: "@ + a,
        }
    }
}

impl SessionError {
    /// The reason in words.
    pub fn message(&self) -> (r: String)
        ensures
            r@ == self@.text(),
    {
        match self {
            SessionError::Io(a, b) => {
                let mut message = "session I/O error at ".to_owned();
                message.append(a.as_str());
                message.append(": ");
                message.append(b.as_str());
                message
            },
            SessionError::Parse(a, b) => {
                let mut message = "invalid session at ".to_owned();
                message.append(a.as_str());
                message.append(": ");
                message.append(b.as_str());
                message
            },
            SessionError::Schema(a, b) => {
                let mut message = "unsupported session schema ".to_owned();
                message.append(decimal_text(*b as u64).as_str());
                message.append(" at ");
                message.append(a.as_str());
                message
            },
            SessionError::Serialize(a) => {
                let mut message = "cannot encode session: ".to_owned();
                message.append(a.as_str());
                message
            },
        }
    }
}

/// The session of an application is stored in a file that is recognised again, and a file that is
/// still being written is not taken for a session.
pub proof fn stored_sessions_are_recognised(root: Seq<char>, id: Seq<char>, process: nat)
    requires
        root.len() > 0,
        id.len() > 0,
        !id.contains('/'),
    ensures
        is_session_path(joined(root, id + ".json"@)),
        !is_session_path(joined(root, id + ".json.tmp."@ + decimal(process))),
{
    reveal_strlit(".json");
    reveal_strlit(".json.tmp.");
    let name = id + ".json"@;
    let other = id + ".json.tmp."@ + decimal(process);
    decimal_digits_are_read_back(process);
    assert(!name.contains('/')) by {
        if name.contains('/') {
            let i = choose|i: int| 0 <= i < name.len() && name[i] == '/';
            if i < id.len() {
                assert(id[i] == '/');
            } else {
                assert(".json"@[i - id.len()] == '/');
            }
        }
    }
    assert(!other.contains('/')) by {
        if other.contains('/') {
            let i = choose|i: int| 0 <= i < other.len() && other[i] == '/';
            if i < id.len() {
                assert(id[i] == '/');
            } else if i < id.len() + 10 {
                assert(".json.tmp."@[i - id.len()] == '/');
            } else {
                assert(is_digit(decimal(process)[i - id.len() - 10]));
            }
        }
    }
    assert(name.len() > 2 && other.len() > 2);
    entries_are_found_again(root, name);
    entries_are_found_again(root, other);
    assert(".json"@ =~= name.subrange(name.len() - 5, name.len() as int));
    assert(!".json"@.is_suffix_of(other)) by {
        assert(is_digit(decimal(process)[decimal(process).len() - 1]));
        assert(other.last() == decimal(process).last());
        if ".json"@.is_suffix_of(other) {
            assert(other.subrange(other.len() - 5, other.len() as int)[4] == ".json"@[4]);
        }
    }
}

/// Of several files with sessions of one application the last one counts; every application with
/// such a file has a session, and files that hold none add nothing.
pub proof fn the_last_session_of_an_application_counts(
    a: Seq<StoredSession>,
    path: FilePath,
    session: AppSession,
    id: Seq<char>,
    entry: StoredSession,
)
    ensures
        kept_sessions(Seq::empty()) == Map::<Seq<char>, AppSession>::empty(),
        is_session_path(path@) ==> {
            let next = kept_sessions(a.push(StoredSession::Parsed(path, session)));
            &&& next.contains_key(session.app_id@)
            &&& next[session.app_id@] == session
            &&& id != session.app_id@ ==> next.contains_key(id) == kept_sessions(a).contains_key(id)
                && next[id] == kept_sessions(a)[id]
        },
        !is_session_path(path@) ==> kept_sessions(a.push(StoredSession::Parsed(path, session)))
            == kept_sessions(a),
        !(entry is Parsed) ==> kept_sessions(a.push(entry)) == kept_sessions(a),
{
    assert(a.push(StoredSession::Parsed(path, session)).drop_last() =~= a);
    assert(a.push(entry).drop_last() =~= a);
    assert(kept_sessions(Seq::<StoredSession>::empty()) =~= Map::empty());
}

/// The sessions can be loaded exactly where every entry can be listed and every session file can
/// be read, holds a session and is of the known schema.
pub proof fn sessions_load_where_every_file_is_sound(root: Seq<char>, entries: Seq<StoredSession>)
    ensures
        entries_fault(root, entries) is None <==> forall|i: int|
            0 <= i < entries.len() ==> match #[trigger] entries[i] {
                StoredSession::Unlisted(_) => false,
                StoredSession::Unreadable(path, _) => !is_session_path(path@),
                StoredSession::Malformed(path, _) => !is_session_path(path@),
                StoredSession::Parsed(path, session) => is_session_path(path@) ==> session.schema
                    == 1,
            },
{
    let faults = Seq::new(entries.len(), |i: int| entry_fault(root, entries[i]));
    if forall|i: int| 0 <= i < faults.len() ==> faults[i] is None {
        lemma_first_none(faults);
        assert forall|i: int| 0 <= i < entries.len() implies match #[trigger] entries[i] {
            StoredSession::Unlisted(_) => false,
            StoredSession::Unreadable(path, _) => !is_session_path(path@),
            StoredSession::Malformed(path, _) => !is_session_path(path@),
            StoredSession::Parsed(path, session) => is_session_path(path@) ==> session.schema == 1,
        } by {
            assert(faults[i] is None);
        }
    } else {
        let i = choose|i: int| 0 <= i < faults.len() && !(faults[i] is None);
        if entries_fault(root, entries) is None {
            lemma_no_first(faults);
        }
        assert(faults[i] == entry_fault(root, entries[i]));
    }
}

/// A file is taken for a session exactly where its name ends as session files do and something
/// stands before that ending.
pub proof fn session_files_have_a_name_before_their_ending(path: Seq<char>, stem: Seq<char>)
    requires
        file_name(path) == Some(stem + ".json"@),
    ensures
        is_session_path(path) <==> stem.len() > 0,
{
    reveal_strlit(".json");
    let name = stem + ".json"@;
    assert(".json"@ =~= name.subrange(name.len() - 5, name.len() as int));
}

} // verus!
