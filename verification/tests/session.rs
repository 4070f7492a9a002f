use remagic::path::FilePath;
use remagic::sdk::qtfb::{full_refresh_message, terminate_message, update_all_message};
use remagic::session::{is_session_file, SessionError, StoredSession};
use remagic::{AppId, AppSession, SessionStatus, SessionStore};

fn session(app: &str, title: &str, schema: u32) -> AppSession {
    AppSession {
        schema,
        app_id: AppId::new(app).unwrap(),
        status: SessionStatus::Parked,
        title: title.into(),
        subtitle: String::new(),
        resume_payload: None,
        updated_at: 5,
        last_error: None,
    }
}

fn parsed(name: &str, session: AppSession) -> StoredSession {
    StoredSession::Parsed(FilePath::new(name), session)
}

#[test]
fn sessions_are_kept_by_application() {
    let store = SessionStore::new(FilePath::new("/s"));
    assert_eq!(store.load_all(None).ok().unwrap().len(), 0);
    let listing = vec![
        parsed("/s/koreader.json", session("koreader", "first", 1)),
        parsed("/s/other.txt", session("upload", "no session", 1)),
        parsed("/s/again.json", session("koreader", "second", 1)),
    ];
    let sessions = store.load_all(Some(Ok(listing))).ok().unwrap();
    assert_eq!(sessions.len(), 1);
    assert_eq!(sessions.get("koreader").unwrap().title, "second");
    let id = AppId::new("koreader").unwrap();
    assert_eq!(store.path_for(&id), FilePath::new("/s/koreader.json"));
    assert_eq!(
        store.temporary_path_for(&id, 7),
        FilePath::new("/s/koreader.json.tmp.7")
    );
}

#[test]
fn each_flaw_of_a_session_is_named() {
    let store = SessionStore::new(FilePath::new("/s"));
    let load = |entry: StoredSession| match store.load_all(Some(Ok(vec![entry]))) {
        Ok(_) => panic!("a flawed session was taken"),
        Err(error) => error,
    };
    let wrong = load(parsed("/s/a.json", session("koreader", "t", 2)));
    assert_eq!(
        wrong.message(),
        "unsupported session schema 2 at /s/a.json"
    );
    let path = FilePath::new("/s/a.json");
    assert!(matches!(
        load(StoredSession::Malformed(path.clone(), "no".into())),
        SessionError::Parse(_, _)
    ));
    assert!(matches!(
        load(StoredSession::Unreadable(path, "no".into())),
        SessionError::Io(_, _)
    ));
    assert!(matches!(
        load(StoredSession::Unlisted("no".into())),
        SessionError::Io(_, _)
    ));
    assert!(is_session_file(&FilePath::new("/s/a.json")));
    assert!(!is_session_file(&FilePath::new("/s/.json")));
    assert!(!is_session_file(&FilePath::new("/s/a.toml")));
}

#[test]
fn short_display_messages_are_zero_but_for_their_kind() {
    let kinds = [update_all_message(), terminate_message(), full_refresh_message()];
    let first: Vec<u8> = kinds.iter().map(|message| message[0]).collect();
    assert_eq!(first, [1, 3, 6]);
    for message in kinds {
        assert_eq!(message.len(), 24);
        assert!(message[1..].iter().all(|byte| *byte == 0));
    }
}
