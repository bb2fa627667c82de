use mkube::config::{ConfigLibrary, Configuration, Credentials, CredentialsError, TmdbPreferences};
use mkube::dispatch::{movie_message_kind_of, MessageKind, MovieManagerMessage, TaskClass};
use mkube::library::{Library, LibraryFlavor, LibraryType};
use mkube::localfs::LocalFs;
use mkube::settings::{SettingsEvent, SettingsState};

fn lib(password: Option<&str>) -> Library {
    Library {
        fs_type: LibraryType::Ftp,
        flavor: LibraryFlavor::Movie,
        name: "films".to_string(),
        host: Some("nas".to_string()),
        username: Some("me".to_string()),
        password: password.map(|p| p.to_string()),
        path: "/films".to_string(),
    }
}

#[test]
fn credentials_texts_are_read() {
    assert_eq!(Credentials::parse("None"), Ok(Credentials::NoPassword));
    assert_eq!(Credentials::parse("nOnE"), Ok(Credentials::NoPassword));
    assert_eq!(Credentials::parse("Clear(p4ss)"), Ok(Credentials::Clear("p4ss".to_string())));
    assert_eq!(Credentials::parse("CLEAR(MiXeD)"), Ok(Credentials::Clear("MiXeD".to_string())));
    assert_eq!(Credentials::parse("clear()"), Ok(Credentials::Clear(String::new())));
    assert_eq!(Credentials::parse("Clear(a(b))"), Ok(Credentials::Clear("a(b)".to_string())));
}

#[test]
fn credentials_texts_are_refused() {
    assert_eq!(Credentials::parse("Keyring"), Err(CredentialsError::KeyringUnsupported));
    assert_eq!(Credentials::parse("ToKeyring(x)"), Err(CredentialsError::ToKeyringUnsupported));
    assert_eq!(Credentials::parse("Clear(x"), Err(CredentialsError::Unknown));
    assert_eq!(Credentials::parse("Secret(x)"), Err(CredentialsError::Unknown));
    assert_eq!(Credentials::parse(""), Err(CredentialsError::Unknown));
    assert_eq!(Credentials::parse(")"), Err(CredentialsError::Unknown));
}

#[test]
fn credentials_round_trip_through_text() {
    for c in [Credentials::NoPassword, Credentials::Clear("s3cr3t".to_string())] {
        let text = c.to_text();
        assert_eq!(Credentials::parse(&text), Ok(c));
    }
    assert_eq!(Credentials::Clear("x".to_string()).to_text(), "Clear(x)");
    assert_eq!(Credentials::NoPassword.to_text(), "None");
}

#[test]
fn libraries_round_trip_through_the_configuration() {
    for l in [lib(Some("pw")), lib(None)] {
        let rec = ConfigLibrary::from_library(l.clone());
        assert_eq!(rec.to_library(), l);
    }
    let rec = ConfigLibrary::from_library(lib(Some("pw")));
    assert_eq!(rec.password, Credentials::Clear("pw".to_string()));
    assert_eq!(Credentials::from_password(None), Credentials::NoPassword);
    assert_eq!(Credentials::Clear("q".to_string()).password(), Some("q".to_string()));
}

#[test]
fn default_preferences() {
    let c = Configuration::empty();
    assert!(c.libraries.is_empty());
    assert_eq!(c.tmdb_preferences, TmdbPreferences::standard());
    assert_eq!(c.tmdb_preferences.prefered_lang, "en");
    assert_eq!(c.tmdb_preferences.prefered_country, "US");
}

#[test]
fn movie_requests_run_where_they_belong() {
    assert_eq!(movie_message_kind_of(&MovieManagerMessage::RefreshMovies), MessageKind::Closure);
    assert_eq!(
        movie_message_kind_of(&MovieManagerMessage::SearchTitle("Heat".to_string())),
        MessageKind::Task(TaskClass::Http)
    );
    assert_eq!(
        movie_message_kind_of(&MovieManagerMessage::CreateNfo(949, 0, "/f/heat.mkv".to_string())),
        MessageKind::Task(TaskClass::Http)
    );
}

#[test]
fn local_backend_starts_at_its_root() {
    let l = LocalFs::new("/srv/films".to_string());
    assert_eq!(l.pwd, "/srv/films");
}

#[test]
fn settings_page_events() {
    let mut s = SettingsState::open_menu(vec![]);
    assert!(s.input(SettingsEvent::EditNew(LibraryType::Smb)));
    match &s {
        SettingsState::Edit(e) => assert!(e.host.is_some() && e.fs_type == LibraryType::Smb),
        _ => panic!("form expected"),
    }
    assert!(s.input(SettingsEvent::ConnTestResult(true, false)));
    match &s {
        SettingsState::Edit(e) => assert_eq!(e.test_result, Some((true, false))),
        _ => panic!("form expected"),
    }
    assert!(s.input(SettingsEvent::EditExisting(lib(Some("pw")))));
    match &s {
        SettingsState::Edit(e) => assert_eq!(e.library(), lib(Some("pw"))),
        _ => panic!("form expected"),
    }
    assert!(s.input(SettingsEvent::OpenMenu(vec![lib(None), lib(Some("x"))])));
    assert!(matches!(s, SettingsState::Menu(_)));
    assert!(!s.input(SettingsEvent::ConnTestResult(true, true)));
}

#[test]
fn credentials_from_a_given_lowercase_form() {
    assert_eq!(
        Credentials::parse_lowered("CLEAR(Pw)", "clear(pw)"),
        Ok(Credentials::Clear("Pw".to_string()))
    );
    assert_eq!(Credentials::parse_lowered("X", "none"), Ok(Credentials::NoPassword));
    assert_eq!(Credentials::parse_lowered("abcde)", "clear(x"), Err(CredentialsError::Malformed));
    assert_eq!(
        Credentials::parse_lowered("abc)", "tokeyring(a)"),
        Err(CredentialsError::ToKeyringUnsupported)
    );
}

#[test]
fn test_result_leaves_the_menu_alone() {
    let libs = vec![lib(None)];
    let mut s = SettingsState::open_menu(libs);
    if let SettingsState::Menu(m) = &mut s {
        m.press_key(mkube::keys::KeyPress::plain(mkube::keys::KeyCode::Down));
    }
    assert!(!s.input(SettingsEvent::ConnTestResult(true, true)));
    match &s {
        SettingsState::Menu(m) => {
            assert_eq!(m.selected_index(), Some(0));
            assert_eq!(m.entry_count(), 5);
        }
        _ => panic!("menu expected"),
    }
}
