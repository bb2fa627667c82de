use mkube::keys::{KeyCode, KeyPress};
use mkube::library::{BackendPlan, Library, LibraryFlavor, LibraryType};
use mkube::settings::{
    standard_actions, MenuItemType, SettingsEditState, SettingsMenuState, SettingsMessage,
    SettingsState,
};
use mkube::widgets::{
    ButtonState, CheckboxState, InputState, LabelledCheckboxState, LabelledInputState,
};

fn key(code: KeyCode) -> KeyPress {
    KeyPress::plain(code)
}

fn remote(name: &str, host: Option<&str>, fs_type: LibraryType) -> Library {
    Library {
        fs_type,
        flavor: LibraryFlavor::TvShow,
        name: name.to_string(),
        host: host.map(|h| h.to_string()),
        username: Some("me".to_string()),
        password: Some("pw".to_string()),
        path: "/shows".to_string(),
    }
}

#[test]
fn schemes() {
    assert_eq!(LibraryType::Local.to_scheme(), "file");
    assert_eq!(LibraryType::Ftp.to_scheme(), "ftp");
    assert_eq!(LibraryType::Smb.to_scheme(), "smb");
}

#[test]
fn backend_plans() {
    let ftp = remote("shows", Some("nas.local"), LibraryType::Ftp);
    match ftp.backend_plan() {
        Some(BackendPlan::Ftp { host, port, username, .. }) => {
            assert_eq!(host, "nas.local");
            assert_eq!(port, 21);
            assert_eq!(username, Some("me".to_string()));
        }
        _ => panic!("expected an FTP plan"),
    }
    let smb = remote("shows", Some("nas.local"), LibraryType::Smb);
    match smb.backend_plan() {
        Some(BackendPlan::Smb { server, .. }) => assert_eq!(server, "smb://nas.local"),
        _ => panic!("expected an SMB plan"),
    }
    assert!(remote("shows", None, LibraryType::Ftp).backend_plan().is_none());
    assert!(remote("shows", None, LibraryType::Smb).backend_plan().is_none());
    let mut local = remote("films", None, LibraryType::Local);
    local.path = "/films".to_string();
    match local.backend_plan() {
        Some(BackendPlan::Local { root }) => assert_eq!(root, "/films"),
        _ => panic!("expected a local plan"),
    }
}

#[test]
fn library_equality_is_field_by_field() {
    let a = remote("shows", Some("nas"), LibraryType::Ftp);
    let mut b = a.duplicate();
    assert!(a == b);
    b.password = None;
    assert!(a != b);
}

#[test]
fn button_and_checkbox() {
    let mut b = ButtonState::default();
    assert!(!b.input(key(KeyCode::Char(' '))));
    assert!(!b.is_clicked());
    assert!(b.input(key(KeyCode::Enter)));
    assert!(b.is_clicked());
    b.clicked(false);
    b.toggle(false);
    assert!(!b.is_enabled());
    b.focus(true);
    assert!(b.is_focused());

    let mut c = CheckboxState::default();
    assert!(c.input(key(KeyCode::Char(' '))));
    assert!(c.is_checked());
    assert!(c.input(key(KeyCode::Char(' '))));
    assert!(!c.is_checked());
    assert!(!c.input(key(KeyCode::Enter)));
    c.check(true);
    c.toggle(true);
    c.focus(true);
    assert!(c.is_checked() && c.is_enabled() && c.is_focused());
}

#[test]
fn input_editing() {
    let mut i = InputState::default();
    assert!(i.is_empty());
    for ch in "abc".chars() {
        assert!(i.input(key(KeyCode::Char(ch))));
    }
    assert_eq!(i.get_value(), "abc");
    assert!(i.input(key(KeyCode::Left)));
    assert!(i.input(key(KeyCode::Backspace)));
    assert_eq!(i.get_value(), "ac");
    assert!(i.input(key(KeyCode::Home)));
    assert!(i.input(key(KeyCode::Delete)));
    assert_eq!(i.get_value(), "c");
    assert!(i.input(key(KeyCode::Char('x'))));
    assert_eq!(i.get_value(), "xc");
    assert!(i.input(key(KeyCode::End)));
    assert!(i.input(key(KeyCode::Right)));
    assert!(i.input(key(KeyCode::Char('y'))));
    assert_eq!(i.get_value(), "xcy");
    assert!(!i.input(key(KeyCode::Tab)));
    i.set_focus(true);
    i.toggle(false);
    assert!(i.is_focused() && i.is_disabled());
}

#[test]
fn combining_mark_joins_the_previous_cluster() {
    let mut i = InputState::default();
    i.input(key(KeyCode::Char('e')));
    i.input(key(KeyCode::Char('\u{301}')));
    i.input(key(KeyCode::Char('f')));
    assert_eq!(i.get_value(), "e\u{301}f");
    // One backspace removes the letter f, the next the whole accented e.
    i.input(key(KeyCode::Backspace));
    assert_eq!(i.get_value(), "e\u{301}");
    i.input(key(KeyCode::Backspace));
    assert!(i.is_empty());
}

#[test]
fn set_value_round_trips() {
    let mut i = InputState::default();
    i.set_value("Ame\u{301}lie 2001");
    assert_eq!(i.get_value(), "Ame\u{301}lie 2001");
    i.set_value("");
    assert!(i.is_empty());
    let mut l = LabelledInputState::default();
    l.set_value("x");
    l.set_focus(true);
    l.toggle(true);
    assert_eq!(l.get_value(), "x");
    assert!(l.is_focused() && !l.is_disabled());
    assert!(l.input(key(KeyCode::Char('y'))));
    assert_eq!(l.get_value(), "yx");
}

#[test]
fn labelled_checkbox() {
    let mut c = LabelledCheckboxState::default();
    assert!(c.input(key(KeyCode::Char(' '))));
    assert!(c.is_checked());
    c.check(false);
    c.focus(true);
    c.toggle(false);
    assert!(!c.is_checked() && c.is_focused() && !c.is_enabled());
}

#[test]
fn menu_navigation_wraps() {
    let mut m = SettingsMenuState::new(standard_actions());
    assert_eq!(m.selected_index(), None);
    assert_eq!(m.press_key(key(KeyCode::Up)).0, true);
    assert_eq!(m.selected_index(), Some(0));
    m.press_key(key(KeyCode::Up));
    assert_eq!(m.selected_index(), Some(3));
    m.press_key(key(KeyCode::Down));
    assert_eq!(m.selected_index(), Some(0));
    assert_eq!(m.press_key(key(KeyCode::Char('q'))).0, false);
}

#[test]
fn menu_enter_sends_requests() {
    let libs = vec![remote("shows", Some("nas"), LibraryType::Ftp)];
    let mut m = SettingsMenuState::with_libraries(libs);
    m.press_key(key(KeyCode::Down));
    let (used, req) = m.press_key(key(KeyCode::Enter));
    assert!(used);
    assert!(matches!(req, Some(SettingsMessage::EditNew(LibraryType::Local))));
    m.press_key(key(KeyCode::Down));
    m.press_key(key(KeyCode::Down));
    let (_, req) = m.press_key(key(KeyCode::Enter));
    assert!(matches!(req, Some(SettingsMessage::EditNew(LibraryType::Smb))));
    m.press_key(key(KeyCode::Down));
    let (used, req) = m.press_key(key(KeyCode::Enter));
    assert!(!used && req.is_none());
    m.press_key(key(KeyCode::Down));
    match m.press_key(key(KeyCode::Enter)) {
        (true, Some(SettingsMessage::EditExisting(l))) => assert_eq!(l.name, "shows"),
        _ => panic!("expected an edit request"),
    }
    let actions = standard_actions();
    assert!(matches!(actions[1].item_type, MenuItemType::NewFtpLibrary));
    assert!(!actions[3].selectable);
}

#[test]
fn form_tab_skips_absent_fields() {
    let mut e = SettingsEditState::blank(LibraryType::Local);
    e.focus_child(0, true);
    e.press_key(key(KeyCode::Tab));
    assert_eq!(e.focused, 4);
    assert!(e.path.is_focused());
    assert!(!e.name.is_focused());
    e.press_key(key(KeyCode::BackTab));
    assert_eq!(e.focused, 0);
    e.press_key(key(KeyCode::BackTab));
    assert_eq!(e.focused, 9);
    assert!(e.cancel.is_focused());
    e.press_key(key(KeyCode::Tab));
    assert_eq!(e.focused, 0);

    let mut r = SettingsEditState::blank(LibraryType::Ftp);
    r.press_key(key(KeyCode::Tab));
    assert_eq!(r.focused, 1);
    assert!(r.host.as_ref().unwrap().is_focused());
}

#[test]
fn form_flavours_exclude_each_other() {
    let mut e = SettingsEditState::blank(LibraryType::Local);
    e.focused = 5;
    assert!(e.press_key(key(KeyCode::Char(' '))).0);
    assert!(e.movie.is_checked() && !e.tv_show.is_checked());
    e.focused = 6;
    e.press_key(key(KeyCode::Char(' ')));
    assert!(e.tv_show.is_checked() && !e.movie.is_checked());
}

#[test]
fn form_save_builds_the_library() {
    let mut e = SettingsEditState::blank(LibraryType::Smb);
    e.name.set_value("shows");
    e.path.set_value("/tv");
    e.host.as_mut().unwrap().set_value("nas");
    e.movie.check(true);
    e.focused = 8;
    match e.press_key(key(KeyCode::Enter)) {
        (true, Some(SettingsMessage::SaveLibrary(l))) => {
            assert_eq!(l.name, "shows");
            assert_eq!(l.path, "/tv");
            assert_eq!(l.host, Some("nas".to_string()));
            assert_eq!(l.username, Some(String::new()));
            assert_eq!(l.fs_type, LibraryType::Smb);
            assert_eq!(l.flavor, LibraryFlavor::Movie);
        }
        _ => panic!("expected a save request"),
    }
    e.focused = 9;
    assert!(matches!(e.press_key(key(KeyCode::Enter)), (true, Some(SettingsMessage::OpenMenu))));
    e.focused = 0;
    assert!(matches!(e.press_key(key(KeyCode::Up)), (true, Some(SettingsMessage::OpenMenu))));
    assert!(matches!(e.press_key(key(KeyCode::Tab)), (true, None)));
}

#[test]
fn form_test_button_and_result() {
    let mut e = SettingsEditState::blank(LibraryType::Local);
    e.focused = 7;
    assert!(matches!(e.press_key(key(KeyCode::Enter)), (true, Some(SettingsMessage::TestLibrary(_)))));
    let mut s = SettingsState::Edit(e);
    assert!(s.conn_test_result((false, false)));
    match &s {
        SettingsState::Edit(e) => {
            assert_eq!(e.test_result, Some((false, false)));
            assert!(!e.test.is_clicked());
        }
        _ => panic!("form expected"),
    }
    let mut m = SettingsState::open_menu(vec![]);
    assert!(!m.conn_test_result((true, true)));
}

#[test]
fn editing_an_existing_library_fills_the_form() {
    let l = remote("shows", Some("nas"), LibraryType::Ftp);
    match SettingsState::edit_existing(&l) {
        SettingsState::Edit(e) => {
            assert_eq!(e.name.get_value(), "shows");
            assert_eq!(e.path.get_value(), "/shows");
            assert_eq!(e.host.as_ref().unwrap().get_value(), "nas");
            assert_eq!(e.password.as_ref().unwrap().get_value(), "pw");
            assert!(e.tv_show.is_checked() && !e.movie.is_checked());
            assert_eq!(e.library(), l);
        }
        _ => panic!("form expected"),
    }
    match SettingsState::edit_new(LibraryType::Local) {
        SettingsState::Edit(e) => assert!(e.host.is_none()),
        _ => panic!("form expected"),
    }
}

#[test]
fn typed_clusters_replace_those_around_the_cursor() {
    let mut i = InputState::default();
    i.set_value("ab");
    // The cursor stayed at the start: "a" is replaced by the two clusters.
    i.type_clusters(vec!["x".to_string(), "a".to_string()]);
    assert_eq!(i.get_value(), "xab");
    i.input(key(KeyCode::End));
    i.type_clusters(vec!["b".to_string(), "!".to_string()]);
    assert_eq!(i.get_value(), "xab!");
    i.input(key(KeyCode::Char('?')));
    assert_eq!(i.get_value(), "xab!?");
}

#[test]
fn empty_means_no_text() {
    let mut i = InputState::default();
    assert!(i.is_empty() && i.get_value().is_empty());
    i.set_value("a");
    assert!(!i.is_empty() && !i.get_value().is_empty());
    i.input(key(KeyCode::End));
    i.input(key(KeyCode::Backspace));
    assert!(i.is_empty() && i.get_value().is_empty());
}
