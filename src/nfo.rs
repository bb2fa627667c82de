use vstd::prelude::*;

use crate::text::char_text;
use crate::widgets::{InputState, graphemes_of};

verus! {

// ---------------------------------------------------------------------------
// The sidecar metadata of a movie
// ---------------------------------------------------------------------------

/// A picture of a movie or a person.
#[derive(Clone, Debug, PartialEq)]
pub struct Thumb {
    pub aspect: Option<String>,
    pub path: String,
}

/// A director or producer.
#[derive(Clone, Debug, PartialEq)]
pub struct CrewPerson {
    pub name: String,
    pub tmdbid: Option<u64>,
    pub thumb: Option<Thumb>,
}

#[derive(Clone, Debug, PartialEq)]
pub struct VideoTrack {
    pub codec: String,
    pub aspect: Option<String>,
    pub width: Option<u64>,
    pub height: Option<u64>,
    pub duration_in_seconds: Option<u64>,
    pub language: Option<String>,
    pub hdr_type: Option<String>,
}

#[derive(Clone, Debug, PartialEq)]
pub struct AudioTrack {
    pub codec: String,
    pub language: Option<String>,
    pub channels: Option<u64>,
}

#[derive(Clone, Debug, PartialEq)]
pub struct SubtitleTrack {
    pub codec: Option<String>,
    pub language: Option<String>,
}

#[derive(Clone, Debug, PartialEq)]
pub struct StreamDetails {
    pub video: Vec<VideoTrack>,
    pub audio: Vec<AudioTrack>,
    pub subtitle: Vec<SubtitleTrack>,
}

#[derive(Clone, Debug, PartialEq)]
pub struct FileInfo {
    pub streamdetails: StreamDetails,
}

/// A catalog identifier of a movie.
#[derive(Clone, Debug, PartialEq)]
pub struct UniqueId {
    pub id_type: String,
    pub default: bool,
    pub value: String,
}

#[derive(Clone, Debug, PartialEq)]
pub struct Actor {
    pub name: String,
    pub role: Vec<String>,
    pub order: Option<u64>,
    pub tmdbid: Option<u64>,
    pub thumb: Option<Thumb>,
}

/// The metadata kept next to a movie file.
#[derive(Clone, Debug, PartialEq)]
pub struct Movie {
    pub title: String,
    pub original_title: Option<String>,
    pub plot: Option<String>,
    pub uniqueid: Vec<UniqueId>,
    pub genre: Vec<String>,
    pub tag: Vec<String>,
    pub country: Vec<String>,
    pub credits: Vec<String>,
    pub director: Vec<CrewPerson>,
    pub producer: Vec<CrewPerson>,
    pub premiered: Option<String>,
    pub studio: Vec<String>,
    pub actor: Vec<Actor>,
    pub thumb: Vec<Thumb>,
    pub runtime: Option<u64>,
    pub tagline: Option<String>,
    pub fileinfo: Option<FileInfo>,
    pub source: Option<String>,
}

// ---------------------------------------------------------------------------
// The media summary
// ---------------------------------------------------------------------------

/// Appending `x` to a `/`-separated list; an empty list is replaced.
pub open spec fn join_step(acc: Seq<char>, x: Seq<char>) -> Seq<char> {
    if acc.len() == 0 {
        x
    } else {
        acc + "/"@ + x
    }
}

pub open spec fn or_unknown(o: Option<String>) -> Seq<char> {
    match o {
        Some(s) => s@,
        None => "unk"@,
    }
}

pub open spec fn audio_codecs(ts: Seq<AudioTrack>) -> Seq<char>
    decreases ts.len(),
{
    if ts.len() == 0 {
        Seq::empty()
    } else {
        join_step(audio_codecs(ts.drop_last()), ts.last().codec@)
    }
}

pub open spec fn audio_langs(ts: Seq<AudioTrack>) -> Seq<char>
    decreases ts.len(),
{
    if ts.len() == 0 {
        Seq::empty()
    } else {
        join_step(audio_langs(ts.drop_last()), or_unknown(ts.last().language))
    }
}

pub open spec fn sub_codecs(ts: Seq<SubtitleTrack>) -> Seq<char>
    decreases ts.len(),
{
    if ts.len() == 0 {
        Seq::empty()
    } else {
        join_step(sub_codecs(ts.drop_last()), or_unknown(ts.last().codec))
    }
}

pub open spec fn sub_langs(ts: Seq<SubtitleTrack>) -> Seq<char>
    decreases ts.len(),
{
    if ts.len() == 0 {
        Seq::empty()
    } else {
        join_step(sub_langs(ts.drop_last()), or_unknown(ts.last().language))
    }
}

/// Adding a `codecs (languages)` section to the summary, when there is one.
pub open spec fn with_section(mv: Seq<char>, codecs: Seq<char>, langs: Seq<char>) -> Seq<char> {
    if codecs.len() + langs.len() > 0 {
        if mv.len() == 0 {
            codecs + " ("@ + langs + ")"@
        } else {
            mv + " + "@ + codecs + " ("@ + langs + ")"@
        }
    } else {
        mv
    }
}

/// The first video track: its codec, and its height as `720p` when known.
pub open spec fn video_text(vs: Seq<VideoTrack>) -> Seq<char> {
    if vs.len() > 0 {
        match vs[0].height {
            Some(h) => vs[0].codec@ + " "@ + decimal(h as nat) + "p"@,
            None => vs[0].codec@,
        }
    } else {
        Seq::empty()
    }
}

/// The one-line media summary of a movie, as the movie table shows it.
pub open spec fn media_text(m: Movie) -> Seq<char> {
    match m.fileinfo {
        Some(fi) => {
            let sd = fi.streamdetails;
            with_section(
                with_section(video_text(sd.video@), audio_codecs(sd.audio@), audio_langs(sd.audio@)),
                sub_codecs(sd.subtitle@),
                sub_langs(sd.subtitle@),
            )
        },
        None => " N / A "@,
    }
}

fn str_is_empty(s: &String) -> (r: bool)
    ensures
        r == (s@.len() == 0),
{
    s.as_str().unicode_len() == 0
}

fn push_joined(acc: &mut String, x: &str)
    ensures
        final(acc)@ == join_step(old(acc)@, x@),
{
    if str_is_empty(acc) {
        *acc = String::from_str(x);
    } else {
        acc.append("/");
        acc.append(x);
    }
}

fn text_or_unknown(o: &Option<String>) -> (r: &str)
    ensures
        r@ == or_unknown(*o),
{
    match o {
        Some(s) => s.as_str(),
        None => "unk",
    }
}

fn add_section(mv: String, codecs: &String, langs: &String) -> (r: String)
    ensures
        r@ == with_section(mv@, codecs@, langs@),
{
    if str_is_empty(codecs) && str_is_empty(langs) {
        mv
    } else {
        let mut r = if str_is_empty(&mv) {
            String::new()
        } else {
            let mut t = mv;
            t.append(" + ");
            t
        };
        r.append(codecs.as_str());
        r.append(" (");
        r.append(langs.as_str());
        r.append(")");
        r
    }
}

fn video_summary(vs: &Vec<VideoTrack>) -> (r: String)
    ensures
        r@ == video_text(vs@),
{
    if vs.len() > 0 {
        let mut s = vs[0].codec.clone();
        match vs[0].height {
            Some(h) => {
                s.append(" ");
                let d = decimal_text(h);
                s.append(d.as_str());
                s.append("p");
            },
            None => {},
        }
        s
    } else {
        String::new()
    }
}

/// The media summary of a movie: video codec and height, then audio codecs
/// and languages, then subtitle codecs and languages.
pub fn format_media(movie: &Movie) -> (r: String)
    ensures
        r@ == media_text(*movie),
{
    match &movie.fileinfo {
        Some(fi) => {
            let sd = &fi.streamdetails;
            let mut mv = video_summary(&sd.video);
            let mut codecs = String::new();
            let mut langs = String::new();
            let mut i: usize = 0;
            while i < sd.audio.len()
                invariant
                    i <= sd.audio@.len(),
                    codecs@ == audio_codecs(sd.audio@.subrange(0, i as int)),
                    langs@ == audio_langs(sd.audio@.subrange(0, i as int)),
                decreases sd.audio.len() - i,
            {
                proof {
                    assert(sd.audio@.subrange(0, i + 1).drop_last() =~= sd.audio@.subrange(0, i as int));
                }
                push_joined(&mut codecs, sd.audio[i].codec.as_str());
                push_joined(&mut langs, text_or_unknown(&sd.audio[i].language));
                i = i + 1;
            }
            proof {
                assert(sd.audio@.subrange(0, sd.audio@.len() as int) =~= sd.audio@);
            }
            mv = add_section(mv, &codecs, &langs);
            let mut scodecs = String::new();
            let mut slangs = String::new();
            let mut j: usize = 0;
            while j < sd.subtitle.len()
                invariant
                    j <= sd.subtitle@.len(),
                    scodecs@ == sub_codecs(sd.subtitle@.subrange(0, j as int)),
                    slangs@ == sub_langs(sd.subtitle@.subrange(0, j as int)),
                decreases sd.subtitle.len() - j,
            {
                proof {
                    assert(sd.subtitle@.subrange(0, j + 1).drop_last() =~= sd.subtitle@.subrange(
                        0,
                        j as int,
                    ));
                }
                push_joined(&mut scodecs, text_or_unknown(&sd.subtitle[j].codec));
                push_joined(&mut slangs, text_or_unknown(&sd.subtitle[j].language));
                j = j + 1;
            }
            proof {
                assert(sd.subtitle@.subrange(0, sd.subtitle@.len() as int) =~= sd.subtitle@);
            }
            add_section(mv, &scodecs, &slangs)
        },
        None => {
            let mut s = String::new();
            s.append(" N / A ");
            s
        },
    }
}

// ---------------------------------------------------------------------------
// Numbers as text
// ---------------------------------------------------------------------------

pub open spec fn digit_char(d: nat) -> char {
    if d == 0 {
        '0'
    } else if d == 1 {
        '1'
    } else if d == 2 {
        '2'
    } else if d == 3 {
        '3'
    } else if d == 4 {
        '4'
    } else if d == 5 {
        '5'
    } else if d == 6 {
        '6'
    } else if d == 7 {
        '7'
    } else if d == 8 {
        '8'
    } else {
        '9'
    }
}

/// The decimal digits of `n`, without leading zeros.
pub open spec fn decimal(n: nat) -> Seq<char>
    decreases n,
{
    if n < 10 {
        seq![digit_char(n)]
    } else {
        decimal(n / 10).push(digit_char(n % 10))
    }
}

fn digit(d: u64) -> (c: char)
    requires
        d < 10,
    ensures
        c == digit_char(d as nat),
{
    if d == 0 {
        '0'
    } else if d == 1 {
        '1'
    } else if d == 2 {
        '2'
    } else if d == 3 {
        '3'
    } else if d == 4 {
        '4'
    } else if d == 5 {
        '5'
    } else if d == 6 {
        '6'
    } else if d == 7 {
        '7'
    } else if d == 8 {
        '8'
    } else {
        '9'
    }
}

/// `n` in decimal.
pub fn decimal_text(n: u64) -> (r: String)
    ensures
        r@ == decimal(n as nat),
    decreases n,
{
    if n < 10 {
        char_text(digit(n))
    } else {
        let mut s = decimal_text(n / 10);
        let d = char_text(digit(n % 10));
        s.append(d.as_str());
        s
    }
}

/// A running time in minutes, as the movie table shows it: `2h05`, or
/// `45min` under an hour.
pub open spec fn duration_text(minutes: nat) -> Seq<char> {
    let h = minutes / 60;
    let m = minutes % 60;
    if h > 0 {
        decimal(h) + "h"@ + seq![digit_char(m / 10), digit_char(m % 10)]
    } else {
        decimal(m) + "min"@
    }
}

pub fn format_duration(minutes: u64) -> (r: String)
    ensures
        r@ == duration_text(minutes as nat),
{
    let hours = minutes / 60;
    let rem = minutes % 60;
    if hours > 0 {
        let mut s = decimal_text(hours);
        s.append("h");
        let tens = char_text(digit(rem / 10));
        s.append(tens.as_str());
        let ones = char_text(digit(rem % 10));
        s.append(ones.as_str());
        s
    } else {
        let mut s = decimal_text(rem);
        s.append("min");
        s
    }
}

// ---------------------------------------------------------------------------
// The crew editor
// ---------------------------------------------------------------------------

/// The three inputs of the crew editor for one person: name, catalog id and
/// picture path, the last two empty when unknown.
pub fn crew_to_inputs(person: &CrewPerson) -> (r: Vec<InputState>)
    ensures
        r@.len() == 3,
        r@[0]@.value == graphemes_of(person.name@),
        match person.tmdbid {
            Some(id) => r@[1]@.value == graphemes_of(decimal(id as nat)),
            None => r@[1]@.value.len() == 0,
        },
        match person.thumb {
            Some(t) => r@[2]@.value == graphemes_of(t.path@),
            None => r@[2]@.value.len() == 0,
        },
{
    let mut name = InputState::new();
    name.set_value(person.name.as_str());
    let mut id = InputState::new();
    match person.tmdbid {
        Some(n) => {
            let t = decimal_text(n);
            id.set_value(t.as_str());
        },
        None => {},
    }
    let mut thumb = InputState::new();
    match &person.thumb {
        Some(t) => thumb.set_value(t.path.as_str()),
        None => {},
    }
    let mut r: Vec<InputState> = Vec::new();
    r.push(name);
    r.push(id);
    r.push(thumb);
    r
}

} // verus!
