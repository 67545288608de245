use echelon_lib::errors::SpaceError;
use echelon_lib::session::Session;
use echelon_lib::session::SessionStore;
use echelon_lib::sync_manager::SyncManager;

fn runtime() -> tokio::runtime::Runtime {
    tokio::runtime::Builder::new_current_thread().build().unwrap()
}

fn spawn_idle(rt: &tokio::runtime::Runtime) -> tokio::task::JoinHandle<()> {
    rt.spawn(std::future::pending::<()>())
}

#[test]
fn sync_lifecycle_keeps_exactly_one_task() {
    let rt = runtime();
    let mut m = SyncManager::new();
    assert!(!m.is_syncing());
    m.start_sync(spawn_idle(&rt));
    assert!(m.is_syncing());
    m.start_sync(spawn_idle(&rt));
    assert!(m.is_syncing());
    m.stop_sync();
    assert!(!m.is_syncing());
}

#[test]
fn stop_sync_without_task_is_a_no_op() {
    let mut m = SyncManager::new();
    assert!(!m.is_syncing());
    m.stop_sync();
    assert!(!m.is_syncing());
    m.stop_sync();
    assert!(!m.is_syncing());
}

#[test]
fn empty_store_has_no_session() {
    let store = SessionStore::new();
    assert!(!store.has_session());
    assert!(store.client_handle().is_none());
    assert!(!store.is_syncing());
    assert!(matches!(store.require_session(), Err(SpaceError::NoActiveSession)));
}

#[test]
fn install_commits_the_session_and_its_client_handle() {
    let mut store = SessionStore::new();
    store.install(Session::new(7));
    assert!(store.has_session());
    assert_eq!(store.client_handle(), Some(7));
    assert_eq!(store.require_session().unwrap(), 7);
    assert!(!store.is_syncing());
}

#[test]
fn install_replaces_the_previous_session() {
    let rt = runtime();
    let mut store = SessionStore::new();
    let mut s1 = Session::new(1);
    s1.sync.start_sync(spawn_idle(&rt));
    store.install(s1);
    assert!(store.is_syncing());
    // the new session has no task; the old one's task is stopped on replace
    store.install(Session::new(2));
    assert_eq!(store.client_handle(), Some(2));
    assert!(!store.is_syncing());
}

#[test]
fn logout_stops_sync_and_clears_the_slot() {
    let rt = runtime();
    let mut store = SessionStore::new();
    let mut s = Session::new(3);
    s.sync.start_sync(spawn_idle(&rt));
    store.install(s);
    assert!(store.is_syncing());
    store.logout();
    assert!(!store.has_session());
    assert!(!store.is_syncing());
}

#[test]
fn logout_of_an_empty_store_succeeds() {
    let mut store = SessionStore::new();
    store.logout();
    assert!(!store.has_session());
}
