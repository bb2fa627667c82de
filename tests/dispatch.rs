use mkube::dispatch::{
    connection_test_result, continuation_message, message_handling, on_wake, AppState, LoopAction,
    MessageKind, MovieEntry, StateEvent, TaskClass, Wake,
};
use mkube::keys::{KeyCode, KeyPress, Modifiers};
use mkube::library::{Library, LibraryFlavor, LibraryType};
use mkube::pool::{ConnectionPool, SlotState};

fn lib(name: &str, path: &str) -> Library {
    Library {
        fs_type: LibraryType::Local,
        flavor: LibraryFlavor::Movie,
        name: name.to_string(),
        host: None,
        username: None,
        password: None,
        path: path.to_string(),
    }
}

fn movie(title: &str, library: usize, path: &str) -> MovieEntry {
    MovieEntry { title: title.to_string(), library, path: path.to_string() }
}

fn state_with(libs: &[Library], pool: &mut ConnectionPool<String>) -> AppState {
    let mut s = AppState::new();
    for l in libs {
        s.save_library(pool, l.clone(), format!("conn:{}", l.name));
    }
    s
}

#[test]
fn pool_indices_are_stable() {
    let mut pool: ConnectionPool<u32> = ConnectionPool::new();
    assert_eq!(pool.add(10), 0);
    assert_eq!(pool.add(11), 1);
    assert!(pool.delete(0));
    assert!(!pool.delete(0));
    assert!(!pool.delete(7));
    assert_eq!(pool.add(12), 2);
    assert_eq!(pool.len(), 3);
    assert_eq!(pool.slot_state(0), SlotState::Deleted);
    assert_eq!(pool.slot_state(1), SlotState::Live);
    assert_eq!(pool.slot_state(3), SlotState::NeverExisted);
    assert_eq!(pool.get(0), None);
    assert_eq!(pool.get(1), Some(&11));
    assert_eq!(pool.get(2), Some(&12));
    if let Some(c) = pool.get_mut(1) {
        *c = 21;
    }
    assert_eq!(pool.get(1), Some(&21));
    assert!(pool.get_mut(0).is_none());
}

#[test]
fn add_and_delete_never_reuse_an_index() {
    let mut pool: ConnectionPool<&str> = ConnectionPool::new();
    let a = pool.add("a");
    let b = pool.add("b");
    pool.delete(a);
    let c = pool.add("c");
    pool.delete(b);
    let d = pool.add("d");
    assert_eq!((a, b, c, d), (0, 1, 2, 3));
    assert_eq!(pool.get(a), None);
    assert_eq!(pool.get(b), None);
    assert_eq!(pool.get(c), Some(&"c"));
    assert_eq!(pool.get(d), Some(&"d"));
}

#[test]
fn wake_decisions() {
    assert_eq!(on_wake(Wake::Tick), LoopAction::Render);
    assert_eq!(on_wake(Wake::TaskDone), LoopAction::ApplyTaskResults);
    assert_eq!(on_wake(Wake::ChannelClosed), LoopAction::Stop);
    assert_eq!(on_wake(Wake::InputClosed), LoopAction::Stop);
    let ctrl_c = KeyPress { code: KeyCode::Char('c'), modifiers: Modifiers::Control };
    assert_eq!(on_wake(Wake::Key(ctrl_c)), LoopAction::Stop);
    let esc = KeyPress::plain(KeyCode::Esc);
    assert_eq!(on_wake(Wake::Key(esc)), LoopAction::HandleKey { key: esc, then_stop: true });
    let r = KeyPress::plain(KeyCode::Char('r'));
    assert_eq!(on_wake(Wake::Key(r)), LoopAction::HandleKey { key: r, then_stop: false });
    assert_eq!(on_wake(Wake::Message(MessageKind::Close)), LoopAction::Stop);
    assert_eq!(on_wake(Wake::Message(MessageKind::Closure)), LoopAction::RunInline);
}

#[test]
fn background_work_is_never_run_on_the_loop() {
    for c in [TaskClass::Plain, TaskClass::WithState, TaskClass::Http, TaskClass::Io] {
        assert_eq!(message_handling(MessageKind::Task(c)), LoopAction::Spawn(c));
        assert_eq!(continuation_message(c), MessageKind::Task(c));
    }
    assert_eq!(message_handling(MessageKind::TriggerEvent), LoopAction::ApplyEvent);
    assert_eq!(message_handling(MessageKind::EditLibrary), LoopAction::ManageLibraries);
    assert_eq!(message_handling(MessageKind::SaveLibrary), LoopAction::ManageLibraries);
}

#[test]
fn test_against_missing_host_answers_no_twice() {
    // A backend that could not be built, and one whose host never answered.
    assert_eq!(connection_test_result(false, true, Some(true)), (false, false));
    assert_eq!(connection_test_result(true, false, None), (false, false));
    // The test itself is background work: the loop keeps ticking meanwhile.
    assert_eq!(on_wake(Wake::Message(MessageKind::Task(TaskClass::Plain))), LoopAction::Spawn(TaskClass::Plain));
    assert_eq!(on_wake(Wake::Tick), LoopAction::Render);
}

#[test]
fn test_against_reachable_backend() {
    assert_eq!(connection_test_result(true, true, Some(true)), (true, true));
    assert_eq!(connection_test_result(true, true, Some(false)), (true, false));
    assert_eq!(connection_test_result(true, true, None), (true, false));
}

#[test]
fn failed_task_leaves_state_unchanged() {
    let mut pool = ConnectionPool::new();
    let mut s = state_with(&[lib("films", "/films")], &mut pool);
    s.apply(StateEvent::MovieDiscovered(movie("A", 0, "/films/a.mkv")));
    s.loading = true;
    let log = s.apply_outcome(Err("network unreachable".to_string()));
    assert_eq!(log, Some("network unreachable".to_string()));
    assert_eq!(s.movies.len(), 1);
    assert!(s.loading);
    assert_eq!(s.test_result, None);
    // The loop goes on with the next message.
    let log = s.apply_outcome(Ok(vec![StateEvent::ConnTestResult(true, false)]));
    assert_eq!(log, None);
    assert_eq!(s.test_result, Some((true, false)));
    assert_eq!(on_wake(Wake::TaskDone), LoopAction::ApplyTaskResults);
}

#[test]
fn events_apply_in_order() {
    let mut pool = ConnectionPool::new();
    let mut s = state_with(&[lib("films", "/films"), lib("docs", "/docs")], &mut pool);
    s.loading = true;
    s.apply_all(vec![
        StateEvent::MovieDiscovered(movie("Old", 0, "/films/old.mkv")),
        StateEvent::ClearMovieList,
        StateEvent::MovieDiscovered(movie("A", 0, "/films/a.mkv")),
        StateEvent::MovieDiscovered(movie("B", 1, "/docs/b.mp4")),
        StateEvent::MovieUpdated(movie("A2", 0, "/films/a.mkv")),
        StateEvent::MovieUpdated(movie("C", 1, "/docs/c.mp4")),
    ]);
    let titles: Vec<&str> = s.movies.iter().map(|m| m.title.as_str()).collect();
    assert_eq!(titles, vec!["A2", "B", "C"]);
    assert!(!s.loading);
}

#[test]
fn discovered_movies_are_kept_in_title_order() {
    let mut pool = ConnectionPool::new();
    let mut s = state_with(&[lib("films", "/films")], &mut pool);
    for t in ["Zelig", "Alien", "Metropolis", "Alien", "Amélie", "Zelig 2"] {
        s.apply(StateEvent::MovieDiscovered(movie(t, 0, "/films/x.mkv")));
    }
    let titles: Vec<&str> = s.movies.iter().map(|m| m.title.as_str()).collect();
    assert_eq!(titles, vec!["Alien", "Alien", "Amélie", "Metropolis", "Zelig", "Zelig 2"]);
    assert!(mkube::dispatch::title_before("Alien", "Amélie"));
    assert!(mkube::dispatch::title_before("Zelig", "Zelig 2"));
    assert!(!mkube::dispatch::title_before("b", "B"));
    assert!(!mkube::dispatch::title_before("same", "same"));
}

#[test]
fn events_about_deleted_library_are_dropped() {
    let mut pool = ConnectionPool::new();
    let films = lib("films", "/films");
    let mut s = state_with(&[films.clone(), lib("docs", "/docs")], &mut pool);
    assert_eq!(s.take_library(&mut pool, &films), Some(0));
    assert_eq!(pool.slot_state(0), SlotState::Deleted);
    assert!(!s.is_live(0));
    s.apply(StateEvent::MovieDiscovered(movie("A", 0, "/films/a.mkv")));
    s.apply(StateEvent::MovieUpdated(movie("A", 0, "/films/a.mkv")));
    s.apply(StateEvent::MovieDiscovered(movie("Z", 9, "/nowhere/z.mkv")));
    assert!(s.movies.is_empty());
    s.apply(StateEvent::MovieDiscovered(movie("B", 1, "/docs/b.mp4")));
    assert_eq!(s.movies.len(), 1);
}

#[test]
fn libraries_keep_their_slots() {
    let mut pool = ConnectionPool::new();
    let a = lib("a", "/a");
    let b = lib("b", "/b");
    let mut s = state_with(&[a.clone(), b.clone()], &mut pool);
    assert_eq!(s.take_library(&mut pool, &a), Some(0));
    assert_eq!(s.take_library(&mut pool, &a), None);
    let idx = s.save_library(&mut pool, lib("c", "/c"), "conn:c".to_string());
    assert_eq!(idx, 2);
    assert_eq!(pool.len(), 3);
    assert_eq!(s.libraries.len(), 3);
    assert_eq!(s.refresh_targets(), vec![(1, "/b".to_string()), (2, "/c".to_string())]);
    let names: Vec<String> = s.live_libraries().into_iter().map(|l| l.name).collect();
    assert_eq!(names, vec!["b".to_string(), "c".to_string()]);
    assert_eq!(pool.get(1), Some(&"conn:b".to_string()));
}
