use mkube::dispatch::{tab_for_key, table_key, MediaSource, Tab, TableAction};
use mkube::keys::{KeyCode, KeyPress, Modifiers};
use mkube::nfo::{
    crew_to_inputs, decimal_text, format_duration, format_media, AudioTrack, CrewPerson,
    FileInfo, Movie, StreamDetails, SubtitleTrack, Thumb, VideoTrack,
};
use mkube::scanner::{Listing, Scanner};
use mkube::text::placeholder_title;

fn bare_movie(fileinfo: Option<FileInfo>) -> Movie {
    Movie {
        title: "Title".to_string(),
        original_title: None,
        plot: None,
        uniqueid: vec![],
        genre: vec![],
        tag: vec![],
        country: vec![],
        credits: vec![],
        director: vec![],
        producer: vec![],
        premiered: None,
        studio: vec![],
        actor: vec![],
        thumb: vec![],
        runtime: None,
        tagline: None,
        fileinfo,
        source: None,
    }
}

fn video(codec: &str, height: Option<u64>) -> VideoTrack {
    VideoTrack {
        codec: codec.to_string(),
        aspect: None,
        width: None,
        height,
        duration_in_seconds: None,
        language: None,
        hdr_type: None,
    }
}

fn audio(codec: &str, language: Option<&str>) -> AudioTrack {
    AudioTrack { codec: codec.to_string(), language: language.map(|s| s.to_string()), channels: None }
}

fn sub(codec: Option<&str>, language: Option<&str>) -> SubtitleTrack {
    SubtitleTrack { codec: codec.map(|s| s.to_string()), language: language.map(|s| s.to_string()) }
}

#[test]
fn decimal_numbers() {
    assert_eq!(decimal_text(0), "0");
    assert_eq!(decimal_text(7), "7");
    assert_eq!(decimal_text(1080), "1080");
    assert_eq!(decimal_text(u64::MAX), u64::MAX.to_string());
}

#[test]
fn durations() {
    assert_eq!(format_duration(0), "0min");
    assert_eq!(format_duration(45), "45min");
    assert_eq!(format_duration(60), "1h00");
    assert_eq!(format_duration(125), "2h05");
    assert_eq!(format_duration(1439), "23h59");
}

#[test]
fn media_summary_without_file_info() {
    assert_eq!(format_media(&bare_movie(None)), " N / A ");
}

#[test]
fn media_summary_of_all_tracks() {
    let fi = FileInfo {
        streamdetails: StreamDetails {
            video: vec![video("h264", Some(1080)), video("mjpeg", None)],
            audio: vec![audio("aac", Some("eng")), audio("ac3", None)],
            subtitle: vec![sub(Some("srt"), Some("fre")), sub(None, None)],
        },
    };
    assert_eq!(
        format_media(&bare_movie(Some(fi))),
        "h264 1080p + aac/ac3 (eng/unk) + srt/unk (fre/unk)"
    );
}

#[test]
fn media_summary_without_video() {
    let fi = FileInfo {
        streamdetails: StreamDetails {
            video: vec![],
            audio: vec![audio("flac", Some("jpn"))],
            subtitle: vec![],
        },
    };
    assert_eq!(format_media(&bare_movie(Some(fi))), "flac (jpn)");
    let empty = FileInfo {
        streamdetails: StreamDetails { video: vec![video("av1", None)], audio: vec![], subtitle: vec![] },
    };
    assert_eq!(format_media(&bare_movie(Some(empty))), "av1");
}

#[test]
fn crew_inputs() {
    let p = CrewPerson {
        name: "Agnès Varda".to_string(),
        tmdbid: Some(4590),
        thumb: Some(Thumb { aspect: None, path: "/av.jpg".to_string() }),
    };
    let inputs = crew_to_inputs(&p);
    assert_eq!(inputs.len(), 3);
    assert_eq!(inputs[0].get_value(), "Agnès Varda");
    assert_eq!(inputs[1].get_value(), "4590");
    assert_eq!(inputs[2].get_value(), "/av.jpg");
    let q = CrewPerson { name: "X".to_string(), tmdbid: None, thumb: None };
    let inputs = crew_to_inputs(&q);
    assert!(inputs[1].is_empty() && inputs[2].is_empty());
}

#[test]
fn placeholder_titles() {
    assert_eq!(placeholder_title("The.Big_Sleep.1946.mkv"), "The Big Sleep 1946 mkv");
    assert_eq!(placeholder_title(""), "");
    assert_eq!(placeholder_title("Amélie"), "Amélie");
}

#[test]
fn tab_keys() {
    let alt_s = KeyPress { code: KeyCode::Char('s'), modifiers: Modifiers::Alt };
    let alt_h = KeyPress { code: KeyCode::Char('h'), modifiers: Modifiers::Alt };
    assert_eq!(tab_for_key(alt_s), Some(Tab::Settings));
    assert_eq!(tab_for_key(alt_h), Some(Tab::Movies));
    assert_eq!(tab_for_key(KeyPress::plain(KeyCode::Char('s'))), None);
}

#[test]
fn table_keys() {
    let k = |c: KeyCode| KeyPress::plain(c);
    assert_eq!(table_key(k(KeyCode::Char('r')), false, 0, None), TableAction::Refresh);
    assert_eq!(table_key(k(KeyCode::Char('r')), true, 0, None), TableAction::Ignored);
    assert_eq!(table_key(k(KeyCode::Down), false, 3, None), TableAction::Select(Some(0)));
    assert_eq!(table_key(k(KeyCode::Down), false, 3, Some(2)), TableAction::Select(Some(0)));
    assert_eq!(table_key(k(KeyCode::Up), false, 3, Some(0)), TableAction::Select(Some(2)));
    assert_eq!(table_key(k(KeyCode::Up), false, 3, None), TableAction::Select(None));
    assert_eq!(table_key(k(KeyCode::Up), false, 0, Some(0)), TableAction::Ignored);
    assert_eq!(table_key(k(KeyCode::Down), false, 1, Some(usize::MAX)), TableAction::Select(Some(0)));
    assert_eq!(table_key(k(KeyCode::Char('s')), false, 3, Some(1)), TableAction::Search(1));
    assert_eq!(table_key(k(KeyCode::Char('e')), false, 3, Some(1)), TableAction::Edit(1));
    assert_eq!(table_key(k(KeyCode::Char('a')), false, 3, Some(1)), TableAction::Artworks(1));
    assert_eq!(
        table_key(k(KeyCode::Char('u')), false, 3, Some(2)),
        TableAction::SetSource(2, MediaSource::UhdBluray)
    );
    assert_eq!(table_key(k(KeyCode::Char('s')), false, 3, Some(5)), TableAction::Ignored);
    assert_eq!(table_key(k(KeyCode::Char('s')), false, 3, None), TableAction::Ignored);
    assert_eq!(MediaSource::UhdBluray.label(), "UHD Bluray");
    assert_eq!(MediaSource::Tv.label(), "TV");
}

#[test]
fn scan_size_hint() {
    let mut s = Scanner::new(0, 0);
    assert_eq!(s.size_hint(), (0, None));
    let root = s.next_request().unwrap();
    assert_eq!(s.size_hint(), (0, None));
    s.deliver(&root, Listing::Failed("gone".to_string()));
    assert_eq!(s.size_hint(), (1, Some(1)));
}
