use vstd::prelude::*;

use crate::keys::{KeyCode, KeyPress, Modifiers};
use crate::library::{Library, LibraryView};
use crate::nfo::Movie;
use crate::pool::{pool_apply, ConnectionPool, PoolOp};
use crate::text::str_equal;

verus! {

// ---------------------------------------------------------------------------
// The control loop
// ---------------------------------------------------------------------------

/// What a background task needs besides the UI state it borrows at spawn time.
#[derive(Clone, Copy, Debug, PartialEq, Eq, Structural)]
pub enum TaskClass {
    /// The UI state only.
    Plain,
    /// The UI state, for the whole run of the task.
    WithState,
    /// The UI state and the network clients.
    Http,
    /// The UI state, the network clients and the connection pool.
    Io,
}

/// The kinds of message the control loop receives.
#[derive(Clone, Copy, Debug, PartialEq, Eq, Structural)]
pub enum MessageKind {
    /// Cheap logic that only needs the UI state.
    Closure,
    /// A unit of background work.
    Task(TaskClass),
    /// A state mutation to apply as it is.
    TriggerEvent,
    /// Take a library out of service so that it can be edited.
    EditLibrary,
    /// Add a library and open its connection.
    SaveLibrary,
    Close,
}

/// What the control loop woke up for.
#[derive(Clone, Copy, Debug, PartialEq, Eq, Structural)]
pub enum Wake {
    Tick,
    Key(KeyPress),
    /// The input source ended.
    InputClosed,
    Message(MessageKind),
    /// The message channel ended.
    ChannelClosed,
    /// A background task finished, successfully or not.
    TaskDone,
}

/// What the control loop does next.
#[derive(Clone, Copy, Debug, PartialEq, Eq, Structural)]
pub enum LoopAction {
    Render,
    /// Hand the key to the UI state; stop afterwards when `then_stop`.
    HandleKey { key: KeyPress, then_stop: bool },
    RunInline,
    Spawn(TaskClass),
    ApplyEvent,
    ManageLibraries,
    ApplyTaskResults,
    Stop,
}

pub open spec fn is_interrupt(k: KeyPress) -> bool {
    k.code == KeyCode::Char('c') && k.modifiers == Modifiers::Control
}

pub open spec fn is_escape(k: KeyPress) -> bool {
    k.code == KeyCode::Esc && k.modifiers == Modifiers::NoModifier
}

pub open spec fn handling_of(kind: MessageKind) -> LoopAction {
    match kind {
        MessageKind::Closure => LoopAction::RunInline,
        MessageKind::Task(c) => LoopAction::Spawn(c),
        MessageKind::TriggerEvent => LoopAction::ApplyEvent,
        MessageKind::EditLibrary => LoopAction::ManageLibraries,
        MessageKind::SaveLibrary => LoopAction::ManageLibraries,
        MessageKind::Close => LoopAction::Stop,
    }
}

pub open spec fn action_of(w: Wake) -> LoopAction {
    match w {
        Wake::Tick => LoopAction::Render,
        Wake::Key(k) => if is_interrupt(k) {
            LoopAction::Stop
        } else {
            LoopAction::HandleKey { key: k, then_stop: is_escape(k) }
        },
        Wake::InputClosed => LoopAction::Stop,
        Wake::Message(kind) => handling_of(kind),
        Wake::ChannelClosed => LoopAction::Stop,
        Wake::TaskDone => LoopAction::ApplyTaskResults,
    }
}

/// How a message is handled: only closures run on the loop; every kind of
/// background work goes to the task pool.
pub fn message_handling(kind: MessageKind) -> (r: LoopAction)
    ensures
        r == handling_of(kind),
{
    match kind {
        MessageKind::Closure => LoopAction::RunInline,
        MessageKind::Task(c) => LoopAction::Spawn(c),
        MessageKind::TriggerEvent => LoopAction::ApplyEvent,
        MessageKind::EditLibrary => LoopAction::ManageLibraries,
        MessageKind::SaveLibrary => LoopAction::ManageLibraries,
        MessageKind::Close => LoopAction::Stop,
    }
}

/// The decision taken each time the control loop wakes up.
pub fn on_wake(w: Wake) -> (r: LoopAction)
    ensures
        r == action_of(w),
{
    match w {
        Wake::Tick => LoopAction::Render,
        Wake::Key(k) => {
            if k.code == KeyCode::Char('c') && k.modifiers == Modifiers::Control {
                LoopAction::Stop
            } else {
                let then_stop = k.code == KeyCode::Esc && k.modifiers == Modifiers::NoModifier;
                LoopAction::HandleKey { key: k, then_stop }
            }
        },
        Wake::InputClosed => LoopAction::Stop,
        Wake::Message(kind) => message_handling(kind),
        Wake::ChannelClosed => LoopAction::Stop,
        Wake::TaskDone => LoopAction::ApplyTaskResults,
    }
}

/// The two pages of the UI.
#[derive(Clone, Copy, Debug, PartialEq, Eq, Structural)]
pub enum Tab {
    Movies,
    Settings,
}

pub open spec fn tab_of_key(k: KeyPress) -> Option<Tab> {
    if k.modifiers == Modifiers::Alt && k.code == KeyCode::Char('s') {
        Some(Tab::Settings)
    } else if k.modifiers == Modifiers::Alt && k.code == KeyCode::Char('h') {
        Some(Tab::Movies)
    } else {
        None
    }
}

/// The page a key switches to: Alt+S for the settings, Alt+H for the movies.
pub fn tab_for_key(k: KeyPress) -> (r: Option<Tab>)
    ensures
        r == tab_of_key(k),
{
    if k.modifiers == Modifiers::Alt && k.code == KeyCode::Char('s') {
        Some(Tab::Settings)
    } else if k.modifiers == Modifiers::Alt && k.code == KeyCode::Char('h') {
        Some(Tab::Movies)
    } else {
        None
    }
}

/// Where a movie file comes from, as its metadata records it.
#[derive(Clone, Copy, Debug, PartialEq, Eq, Structural)]
pub enum MediaSource {
    Tv,
    Bluray,
    Dvd,
    Web,
    UhdBluray,
}

pub open spec fn source_text(s: MediaSource) -> Seq<char> {
    match s {
        MediaSource::Tv => "TV"@,
        MediaSource::Bluray => "Bluray"@,
        MediaSource::Dvd => "DVD"@,
        MediaSource::Web => "WEB"@,
        MediaSource::UhdBluray => "UHD Bluray"@,
    }
}

impl MediaSource {
    /// The label written in a movie's metadata.
    pub fn label(&self) -> (r: &'static str)
        ensures
            r@ == source_text(*self),
    {
        match self {
            MediaSource::Tv => "TV",
            MediaSource::Bluray => "Bluray",
            MediaSource::Dvd => "DVD",
            MediaSource::Web => "WEB",
            MediaSource::UhdBluray => "UHD Bluray",
        }
    }
}

/// What a key on the movie table asks for.
#[derive(Clone, Copy, Debug, PartialEq, Eq, Structural)]
pub enum TableAction {
    /// Rescan every library.
    Refresh,
    /// Move the selection.
    Select(Option<usize>),
    /// Search the catalog for the selected movie.
    Search(usize),
    /// Open the selected movie in the editor.
    Edit(usize),
    /// Record where the selected movie comes from.
    SetSource(usize, MediaSource),
    /// Download the artwork of the selected movie.
    Artworks(usize),
    /// The key is not for the table.
    Ignored,
}

pub open spec fn table_action(k: KeyCode, loading: bool, len: nat, sel: Option<usize>) -> TableAction {
    if k == KeyCode::Char('r') && !loading {
        TableAction::Refresh
    } else if k == KeyCode::Up && len > 0 {
        TableAction::Select(
            match sel {
                Some(c) => Some(
                    if c == 0 {
                        (len - 1) as usize
                    } else {
                        ((c - 1) % (len as int)) as usize
                    },
                ),
                None => None,
            },
        )
    } else if k == KeyCode::Down && len > 0 {
        TableAction::Select(
            match sel {
                Some(c) => Some(((c + 1) % (len as int)) as usize),
                None => Some(0),
            },
        )
    } else {
        match sel {
            Some(s) => if s >= len {
                TableAction::Ignored
            } else {
                match k {
                    KeyCode::Char('s') => TableAction::Search(s),
                    KeyCode::Char('e') => TableAction::Edit(s),
                    KeyCode::Char('t') => TableAction::SetSource(s, MediaSource::Tv),
                    KeyCode::Char('b') => TableAction::SetSource(s, MediaSource::Bluray),
                    KeyCode::Char('d') => TableAction::SetSource(s, MediaSource::Dvd),
                    KeyCode::Char('w') => TableAction::SetSource(s, MediaSource::Web),
                    KeyCode::Char('u') => TableAction::SetSource(s, MediaSource::UhdBluray),
                    KeyCode::Char('a') => TableAction::Artworks(s),
                    _ => TableAction::Ignored,
                }
            },
            None => TableAction::Ignored,
        }
    }
}

/// What a key does on the movie table of `len` entries with selection
/// `selected`: `r` refreshes unless a refresh runs, Up and Down move the
/// selection around, and letter keys act on the selected movie.
pub fn table_key(key: KeyPress, loading: bool, len: usize, selected: Option<usize>) -> (r:
    TableAction)
    ensures
        r == table_action(key.code, loading, len as nat, selected),
{
    let k = key.code;
    if k == KeyCode::Char('r') && !loading {
        TableAction::Refresh
    } else if k == KeyCode::Up && len > 0 {
        TableAction::Select(
            match selected {
                Some(c) => Some(
                    if c == 0 {
                        len - 1
                    } else {
                        (c - 1) % len
                    },
                ),
                None => None,
            },
        )
    } else if k == KeyCode::Down && len > 0 {
        let next = match selected {
            Some(c) => {
                let n = (c % len + 1) % len;
                proof {
                    vstd::arithmetic::div_mod::lemma_add_mod_noop(c as int, 1, len as int);
                    if len > 1 {
                        vstd::arithmetic::div_mod::lemma_small_mod(1, len as nat);
                    } else {
                        assert(len == 1);
                        assert(((c % len) as int + 1) % (len as int) == 0);
                        assert(((c + 1) as int) % (len as int) == 0);
                    }
                }
                Some(n)
            },
            None => Some(0),
        };
        TableAction::Select(next)
    } else {
        match selected {
            Some(s) => if s >= len {
                TableAction::Ignored
            } else {
                match k {
                    KeyCode::Char('s') => TableAction::Search(s),
                    KeyCode::Char('e') => TableAction::Edit(s),
                    KeyCode::Char('t') => TableAction::SetSource(s, MediaSource::Tv),
                    KeyCode::Char('b') => TableAction::SetSource(s, MediaSource::Bluray),
                    KeyCode::Char('d') => TableAction::SetSource(s, MediaSource::Dvd),
                    KeyCode::Char('w') => TableAction::SetSource(s, MediaSource::Web),
                    KeyCode::Char('u') => TableAction::SetSource(s, MediaSource::UhdBluray),
                    KeyCode::Char('a') => TableAction::Artworks(s),
                    _ => TableAction::Ignored,
                }
            },
            None => TableAction::Ignored,
        }
    }
}

/// What the movie pages ask of the control loop. Paths are full paths on
/// the library's backend; indices are connection slots.
#[derive(Clone, Debug)]
pub enum MovieManagerMessage {
    /// Clear the table and scan every library again.
    RefreshMovies,
    /// Search the catalog by title.
    SearchTitle(String),
    /// Fetch the metadata of a catalog entry and write it next to a file.
    CreateNfo(u64, usize, String),
    /// Download the artwork a movie's metadata points to.
    RetrieveArtworks(Movie, usize, String),
    /// Write a movie's metadata next to its file.
    SaveNfo(Movie, usize, String),
    /// Rename a movie's directory and files after its metadata.
    Rename(Movie, usize, String),
}

pub open spec fn movie_message_kind(m: MovieManagerMessage) -> MessageKind {
    match m {
        MovieManagerMessage::RefreshMovies => MessageKind::Closure,
        MovieManagerMessage::SearchTitle(_) => MessageKind::Task(TaskClass::Http),
        MovieManagerMessage::CreateNfo(..) => MessageKind::Task(TaskClass::Http),
        _ => MessageKind::Task(TaskClass::Io),
    }
}

/// How each movie request is carried out: a refresh only reads the UI state
/// and fans out scans; catalog requests need the network clients; requests
/// that touch a library's files need the connection pool.
pub fn movie_message_kind_of(m: &MovieManagerMessage) -> (r: MessageKind)
    ensures
        r == movie_message_kind(*m),
{
    match m {
        MovieManagerMessage::RefreshMovies => MessageKind::Closure,
        MovieManagerMessage::SearchTitle(_) => MessageKind::Task(TaskClass::Http),
        MovieManagerMessage::CreateNfo(..) => MessageKind::Task(TaskClass::Http),
        _ => MessageKind::Task(TaskClass::Io),
    }
}

/// The message kind that a continuation of the given class becomes when
/// it is sent back to the loop.
pub fn continuation_message(class: TaskClass) -> (r: MessageKind)
    ensures
        r == MessageKind::Task(class),
{
    MessageKind::Task(class)
}

// ---------------------------------------------------------------------------
// UI state
// ---------------------------------------------------------------------------

/// A movie file shown in the table.
#[derive(Clone, Debug)]
pub struct MovieEntry {
    pub title: String,
    pub library: usize,
    pub path: String,
}

pub struct MovieView {
    pub title: Seq<char>,
    pub library: nat,
    pub path: Seq<char>,
}

impl View for MovieEntry {
    type V = MovieView;

    open spec fn view(&self) -> MovieView {
        MovieView { title: self.title@, library: self.library as nat, path: self.path@ }
    }
}

/// A state mutation, the result of a message or of a finished task.
#[derive(Clone, Debug)]
pub enum StateEvent {
    ClearMovieList,
    MovieDiscovered(MovieEntry),
    MovieUpdated(MovieEntry),
    /// Whether the tested library could connect, and whether its path exists.
    ConnTestResult(bool, bool),
}

pub enum StateEventView {
    ClearMovieList,
    MovieDiscovered(MovieView),
    MovieUpdated(MovieView),
    ConnTestResult(bool, bool),
}

impl View for StateEvent {
    type V = StateEventView;

    open spec fn view(&self) -> StateEventView {
        match self {
            StateEvent::ClearMovieList => StateEventView::ClearMovieList,
            StateEvent::MovieDiscovered(m) => StateEventView::MovieDiscovered(m@),
            StateEvent::MovieUpdated(m) => StateEventView::MovieUpdated(m@),
            StateEvent::ConnTestResult(c, p) => StateEventView::ConnTestResult(*c, *p),
        }
    }
}

pub open spec fn event_views(es: Seq<StateEvent>) -> Seq<StateEventView> {
    es.map_values(|e: StateEvent| e@)
}

/// The part of the UI state that the control loop mutates.
pub struct AppState {
    /// One entry per connection slot; an empty entry is a deleted library.
    pub libraries: Vec<Option<Library>>,
    pub movies: Vec<MovieEntry>,
    pub loading: bool,
    pub test_result: Option<(bool, bool)>,
}

pub struct AppStateView {
    pub libraries: Seq<Option<LibraryView>>,
    pub movies: Seq<MovieView>,
    pub loading: bool,
    pub test_result: Option<(bool, bool)>,
}

pub open spec fn lib_slot_view(o: Option<Library>) -> Option<LibraryView> {
    match o {
        Some(l) => Some(l@),
        None => None,
    }
}

pub open spec fn lib_views(s: Seq<Option<Library>>) -> Seq<Option<LibraryView>> {
    s.map_values(|o: Option<Library>| lib_slot_view(o))
}

pub open spec fn movie_views(s: Seq<MovieEntry>) -> Seq<MovieView> {
    s.map_values(|m: MovieEntry| m@)
}

impl View for AppState {
    type V = AppStateView;

    open spec fn view(&self) -> AppStateView {
        AppStateView {
            libraries: lib_views(self.libraries@),
            movies: movie_views(self.movies@),
            loading: self.loading,
            test_result: self.test_result,
        }
    }
}

pub open spec fn library_live(s: AppStateView, i: nat) -> bool {
    i < s.libraries.len() && s.libraries[i as int] is Some
}

/// Index of the first movie of library `lib` at `path`, or -1.
pub open spec fn movie_index(ms: Seq<MovieView>, lib: nat, path: Seq<char>) -> int
    decreases ms.len(),
{
    if ms.len() == 0 {
        -1
    } else {
        let i = movie_index(ms.drop_last(), lib, path);
        if i >= 0 {
            i
        } else if ms.last().library == lib && ms.last().path == path {
            ms.len() - 1
        } else {
            -1
        }
    }
}

/// Whether title `a` sorts strictly before title `b`, comparing characters
/// from position `i` on: the first difference decides, and a proper prefix
/// comes first.
pub open spec fn title_less_from(a: Seq<char>, b: Seq<char>, i: nat) -> bool
    decreases a.len() - i,
{
    if i >= a.len() {
        i < b.len()
    } else if i >= b.len() {
        false
    } else if (a[i as int] as u32) != (b[i as int] as u32) {
        (a[i as int] as u32) < (b[i as int] as u32)
    } else {
        title_less_from(a, b, i + 1)
    }
}

pub open spec fn title_less(a: Seq<char>, b: Seq<char>) -> bool {
    title_less_from(a, b, 0)
}

/// Where a movie titled `t` goes in the table: before the first entry, from
/// position `i` on, whose title does not sort before `t`.
pub open spec fn title_position(ms: Seq<MovieView>, t: Seq<char>, i: nat) -> nat
    decreases ms.len() - i,
{
    if i >= ms.len() {
        ms.len()
    } else if title_less(ms[i as int].title, t) {
        title_position(ms, t, i + 1)
    } else {
        i
    }
}

/// Whether `a` sorts strictly before `b`.
pub fn title_before(a: &str, b: &str) -> (r: bool)
    ensures
        r == title_less(a@, b@),
{
    let n = a.unicode_len();
    let m = b.unicode_len();
    let mut i: usize = 0;
    while i < n && i < m
        invariant
            n == a@.len(),
            m == b@.len(),
            i <= n,
            i <= m,
            title_less(a@, b@) == title_less_from(a@, b@, i as nat),
        decreases n - i,
    {
        let x = a.get_char(i) as u32;
        let y = b.get_char(i) as u32;
        if x != y {
            return x < y;
        }
        i = i + 1;
    }
    i < m && i >= n
}

pub proof fn lemma_title_less_asym(a: Seq<char>, b: Seq<char>, i: nat)
    ensures
        title_less_from(a, b, i) ==> !title_less_from(b, a, i),
    decreases a.len() - i,
{
    if i < a.len() && i < b.len() && (a[i as int] as u32) == (b[i as int] as u32) {
        lemma_title_less_asym(a, b, i + 1);
    }
}

pub proof fn lemma_title_less_trans(a: Seq<char>, b: Seq<char>, c: Seq<char>, i: nat)
    ensures
        title_less_from(a, b, i) && title_less_from(b, c, i) ==> title_less_from(a, c, i),
    decreases a.len() - i,
{
    if i < a.len() && i < b.len() && i < c.len() && (a[i as int] as u32) == (b[i as int] as u32)
        && (b[i as int] as u32) == (c[i as int] as u32) {
        lemma_title_less_trans(a, b, c, i + 1);
    }
}

/// Two titles neither of which sorts before the other have the same
/// character codes.
pub proof fn lemma_title_less_total(a: Seq<char>, b: Seq<char>, i: nat)
    requires
        i <= a.len(),
        i <= b.len(),
        !title_less_from(a, b, i),
        !title_less_from(b, a, i),
    ensures
        a.len() == b.len(),
        forall|k: int| i <= k < a.len() ==> (a[k] as u32) == (b[k] as u32),
    decreases a.len() - i,
{
    if i < a.len() && i < b.len() {
        lemma_title_less_total(a, b, i + 1);
    }
}

/// Titles with the same character codes compare alike.
pub proof fn lemma_same_codes(x: Seq<char>, y: Seq<char>, t: Seq<char>, i: nat)
    requires
        x.len() == y.len(),
        forall|k: int| i <= k < x.len() ==> (x[k] as u32) == (y[k] as u32),
    ensures
        title_less_from(y, t, i) == title_less_from(x, t, i),
    decreases x.len() - i,
{
    if i < x.len() && i < t.len() && (x[i as int] as u32) == (t[i as int] as u32) {
        lemma_same_codes(x, y, t, i + 1);
    }
}

/// Titles in table order: no entry sorts strictly before an earlier one.
pub open spec fn sorted_by_title(ms: Seq<MovieView>) -> bool {
    forall|i: int, j: int|
        0 <= i < j < ms.len() ==> !title_less(#[trigger] ms[j].title, #[trigger] ms[i].title)
}

pub proof fn lemma_title_position_before(ms: Seq<MovieView>, t: Seq<char>, i: nat)
    requires
        i <= ms.len(),
    ensures
        forall|k: int| i <= k < title_position(ms, t, i) ==> title_less(#[trigger] ms[k].title, t),
        title_position(ms, t, i) < ms.len() ==> !title_less(
            ms[title_position(ms, t, i) as int].title,
            t,
        ),
    decreases ms.len() - i,
{
    if i < ms.len() && title_less(ms[i as int].title, t) {
        lemma_title_position_before(ms, t, i + 1);
    }
}

/// Not sorting before is transitive.
pub proof fn lemma_not_less_trans(y: Seq<char>, x: Seq<char>, t: Seq<char>)
    requires
        !title_less(y, x),
        !title_less(x, t),
    ensures
        !title_less(y, t),
{
    lemma_title_less_trans(x, y, t, 0);
    if !title_less(x, y) {
        lemma_title_less_total(x, y, 0);
        lemma_same_codes(x, y, t, 0);
    }
}

/// Discovering a movie keeps a table sorted by title sorted: the new entry
/// goes after every title that sorts before it and before all others.
pub proof fn law_discovery_keeps_title_order(ms: Seq<MovieView>, m: MovieView)
    requires
        sorted_by_title(ms),
    ensures
        sorted_by_title(ms.insert(title_position(ms, m.title, 0) as int, m)),
{
    let p = title_position(ms, m.title, 0);
    lemma_title_position_range(ms, m.title, 0);
    lemma_title_position_before(ms, m.title, 0);
    let n = ms.insert(p as int, m);
    assert forall|i: int, j: int| 0 <= i < j < n.len() implies !title_less(
        #[trigger] n[j].title,
        #[trigger] n[i].title,
    ) by {
        if j < p {
            assert(n[i] == ms[i] && n[j] == ms[j]);
        } else if j == p {
            assert(n[i] == ms[i]);
            lemma_title_less_asym(ms[i].title, m.title, 0);
        } else if i == p {
            assert(n[j] == ms[j - 1]);
            if j - 1 > p {
                assert(!title_less(ms[j - 1].title, ms[p as int].title));
                lemma_not_less_trans(ms[j - 1].title, ms[p as int].title, m.title);
            }
        } else if i < p {
            assert(n[i] == ms[i] && n[j] == ms[j - 1]);
            if i < j - 1 {
                assert(!title_less(ms[j - 1].title, ms[i].title));
            }
        } else {
            assert(n[i] == ms[i - 1] && n[j] == ms[j - 1]);
        }
    }
}

pub proof fn lemma_title_position_range(ms: Seq<MovieView>, t: Seq<char>, i: nat)
    requires
        i <= ms.len(),
    ensures
        i <= title_position(ms, t, i) <= ms.len(),
    decreases ms.len() - i,
{
    if i < ms.len() && title_less(ms[i as int].title, t) {
        lemma_title_position_range(ms, t, i + 1);
    }
}

pub proof fn lemma_movie_index_range(ms: Seq<MovieView>, lib: nat, path: Seq<char>)
    ensures
        -1 <= movie_index(ms, lib, path) < ms.len(),
    decreases ms.len(),
{
    if ms.len() > 0 {
        lemma_movie_index_range(ms.drop_last(), lib, path);
    }
}

/// The effect of one event. Events about a library that is no longer live
/// change nothing.
pub open spec fn apply_spec(s: AppStateView, e: StateEventView) -> AppStateView {
    match e {
        StateEventView::ClearMovieList => AppStateView { movies: Seq::empty(), ..s },
        StateEventView::MovieDiscovered(m) => if library_live(s, m.library) {
            AppStateView {
                movies: s.movies.insert(title_position(s.movies, m.title, 0) as int, m),
                loading: false,
                ..s
            }
        } else {
            s
        },
        StateEventView::MovieUpdated(m) => if library_live(s, m.library) {
            let i = movie_index(s.movies, m.library, m.path);
            AppStateView {
                movies: if i >= 0 {
                    s.movies.update(i, m)
                } else {
                    s.movies.push(m)
                },
                loading: false,
                ..s
            }
        } else {
            s
        },
        StateEventView::ConnTestResult(c, p) => AppStateView { test_result: Some((c, p)), ..s },
    }
}

pub open spec fn apply_all_spec(s: AppStateView, es: Seq<StateEventView>) -> AppStateView
    decreases es.len(),
{
    if es.len() == 0 {
        s
    } else {
        apply_spec(apply_all_spec(s, es.drop_last()), es.last())
    }
}

/// What a finished task hands back: its events, or the reason it failed.
pub open spec fn outcome_spec(s: AppStateView, r: Result<Seq<StateEventView>, Seq<char>>) -> AppStateView {
    match r {
        Ok(es) => apply_all_spec(s, es),
        Err(_) => s,
    }
}

pub open spec fn outcome_view(r: Result<Vec<StateEvent>, String>) -> Result<Seq<StateEventView>, Seq<char>> {
    match r {
        Ok(es) => Ok(event_views(es@)),
        Err(m) => Err(m@),
    }
}

/// The connection pool and the library list agree: one entry per slot, and
/// a library is in service exactly when its connection slot is live.
pub open spec fn in_step<T>(pool: Seq<Option<T>>, libs: Seq<Option<LibraryView>>) -> bool {
    &&& pool.len() == libs.len()
    &&& forall|i: int| 0 <= i < pool.len() ==> (#[trigger] pool[i] is Some) == (libs[i] is Some)
}

/// A change to the connection slots and the library list together.
pub enum SlotChange<T> {
    /// A library and its connection take a fresh slot at the end.
    Added(T, LibraryView),
    /// A slot is emptied in place, in the pool and in the list.
    Emptied(nat),
    Unchanged,
}

pub open spec fn slots_apply<T>(
    p: Seq<Option<T>>,
    l: Seq<Option<LibraryView>>,
    ch: SlotChange<T>,
) -> (Seq<Option<T>>, Seq<Option<LibraryView>>) {
    match ch {
        SlotChange::Added(c, lib) => (p.push(Some(c)), l.push(Some(lib))),
        SlotChange::Emptied(i) => (
            if i < p.len() {
                p.update(i as int, None)
            } else {
                p
            },
            if i < l.len() {
                l.update(i as int, None)
            } else {
                l
            },
        ),
        SlotChange::Unchanged => (p, l),
    }
}

pub open spec fn slots_run<T>(
    p: Seq<Option<T>>,
    l: Seq<Option<LibraryView>>,
    chs: Seq<SlotChange<T>>,
) -> (Seq<Option<T>>, Seq<Option<LibraryView>>)
    decreases chs.len(),
{
    if chs.len() == 0 {
        (p, l)
    } else {
        let prev = slots_run(p, l, chs.drop_last());
        slots_apply(prev.0, prev.1, chs.last())
    }
}

/// Whatever sequence of library additions and removals the loop processes,
/// a library entry that exists keeps its index: it still holds the very
/// library it held or is empty, an emptied entry never comes back, neither
/// list ever shrinks, and the pool and the list stay in step. An index that
/// a task captured therefore never comes to name another library.
pub proof fn law_library_slots_never_reused<T>(
    p: Seq<Option<T>>,
    l: Seq<Option<LibraryView>>,
    chs: Seq<SlotChange<T>>,
    i: int,
)
    requires
        0 <= i < l.len(),
    ensures
        slots_run(p, l, chs).0.len() >= p.len(),
        slots_run(p, l, chs).1.len() >= l.len(),
        slots_run(p, l, chs).1[i] == l[i] || slots_run(p, l, chs).1[i] is None,
        l[i] is None ==> slots_run(p, l, chs).1[i] is None,
        in_step(p, l) ==> in_step(slots_run(p, l, chs).0, slots_run(p, l, chs).1),
    decreases chs.len(),
{
    if chs.len() > 0 {
        law_library_slots_never_reused(p, l, chs.drop_last(), i);
        let prev = slots_run(p, l, chs.drop_last());
        let next = slots_apply(prev.0, prev.1, chs.last());
        if in_step(p, l) {
            assert forall|k: int| 0 <= k < next.0.len() implies (#[trigger] next.0[k] is Some)
                == (next.1[k] is Some) by {
                if k < prev.0.len() {
                    assert(prev.0[k] is Some == prev.1[k] is Some);
                }
            }
        }
    }
}

/// The first slot holding `lib`, if any.
pub open spec fn first_index_of(libs: Seq<Option<LibraryView>>, lib: LibraryView, r: Option<usize>) -> bool {
    match r {
        Some(i) => i < libs.len() && libs[i as int] == Some(lib) && forall|j: int|
            0 <= j < i ==> libs[j] != Some(lib),
        None => forall|j: int| 0 <= j < libs.len() ==> libs[j] != Some(lib),
    }
}

/// The libraries still in service, with their slot indices and paths.
pub open spec fn live_targets(libs: Seq<Option<LibraryView>>) -> Seq<(nat, Seq<char>)>
    decreases libs.len(),
{
    if libs.len() == 0 {
        Seq::empty()
    } else {
        let rest = live_targets(libs.drop_last());
        match libs.last() {
            Some(l) => rest.push(((libs.len() - 1) as nat, l.path)),
            None => rest,
        }
    }
}

pub open spec fn live_list(libs: Seq<Option<LibraryView>>) -> Seq<LibraryView>
    decreases libs.len(),
{
    if libs.len() == 0 {
        Seq::empty()
    } else {
        let rest = live_list(libs.drop_last());
        match libs.last() {
            Some(l) => rest.push(l),
            None => rest,
        }
    }
}

pub open spec fn target_views(v: Seq<(usize, String)>) -> Seq<(nat, Seq<char>)> {
    v.map_values(|t: (usize, String)| (t.0 as nat, t.1@))
}

pub open spec fn library_views(v: Seq<Library>) -> Seq<LibraryView> {
    v.map_values(|l: Library| l@)
}

impl MovieEntry {
    pub fn duplicate(&self) -> (r: MovieEntry)
        ensures
            r@ == self@,
    {
        MovieEntry { title: self.title.clone(), library: self.library, path: self.path.clone() }
    }
}

impl AppState {
    pub fn new() -> (r: AppState)
        ensures
            r@.libraries.len() == 0,
            r@.movies.len() == 0,
            !r@.loading,
            r@.test_result is None,
    {
        let r = AppState {
            libraries: Vec::new(),
            movies: Vec::new(),
            loading: false,
            test_result: None,
        };
        proof {
            assert(r@.libraries =~= Seq::<Option<LibraryView>>::empty());
            assert(r@.movies =~= Seq::<MovieView>::empty());
        }
        r
    }

    /// Whether library `index` is still in service.
    pub fn is_live(&self, index: usize) -> (r: bool)
        ensures
            r == library_live(self@, index as nat),
    {
        index < self.libraries.len() && self.libraries[index].is_some()
    }

    fn find_movie(&self, library: usize, path: &String) -> (r: Option<usize>)
        ensures
            match r {
                Some(i) => i as int == movie_index(self@.movies, library as nat, path@),
                None => movie_index(self@.movies, library as nat, path@) == -1,
            },
    {
        let mut i: usize = 0;
        while i < self.movies.len()
            invariant
                i <= self.movies@.len(),
                movie_index(movie_views(self.movies@.subrange(0, i as int)), library as nat, path@)
                    == -1,
            decreases self.movies.len() - i,
        {
            let ghost pre = movie_views(self.movies@.subrange(0, i as int));
            let ghost cur = movie_views(self.movies@.subrange(0, i + 1));
            proof {
                assert(cur.drop_last() =~= pre);
            }
            if self.movies[i].library == library && str_equal(
                self.movies[i].path.as_str(),
                path.as_str(),
            ) {
                proof {
                    self.lemma_movie_index_prefix(i as int, library as nat, path@);
                }
                return Some(i);
            }
            i = i + 1;
        }
        proof {
            assert(self.movies@.subrange(0, self.movies@.len() as int) =~= self.movies@);
        }
        None
    }

    fn title_slot(&self, t: &String) -> (r: usize)
        ensures
            r as nat == title_position(self@.movies, t@, 0),
            r <= self.movies@.len(),
    {
        let mut i: usize = 0;
        while i < self.movies.len() && title_before(self.movies[i].title.as_str(), t.as_str())
            invariant
                i <= self.movies@.len(),
                title_position(self@.movies, t@, 0) == title_position(self@.movies, t@, i as nat),
            decreases self.movies.len() - i,
        {
            i = i + 1;
        }
        i
    }

    proof fn lemma_movie_index_prefix(&self, i: int, lib: nat, path: Seq<char>)
        requires
            0 <= i < self.movies@.len(),
            movie_index(movie_views(self.movies@.subrange(0, i)), lib, path) == -1,
            self.movies@[i].library == lib,
            self.movies@[i]@.path == path,
        ensures
            movie_index(self@.movies, lib, path) == i,
        decreases self.movies@.len() - i,
    {
        let ms = self@.movies;
        assert forall|k: int| i < k <= ms.len() implies movie_index(ms.subrange(0, k), lib, path)
            == i by {
            self.lemma_movie_index_from(i, k, lib, path);
        }
        assert(ms.subrange(0, ms.len() as int) =~= ms);
    }

    proof fn lemma_movie_index_from(&self, i: int, k: int, lib: nat, path: Seq<char>)
        requires
            0 <= i < k <= self.movies@.len(),
            movie_index(movie_views(self.movies@.subrange(0, i)), lib, path) == -1,
            self.movies@[i].library == lib,
            self.movies@[i]@.path == path,
        ensures
            movie_index(self@.movies.subrange(0, k), lib, path) == i,
        decreases k - i,
    {
        let ms = self@.movies;
        assert(ms.subrange(0, k).drop_last() =~= ms.subrange(0, k - 1));
        if k == i + 1 {
            assert(ms.subrange(0, i) =~= movie_views(self.movies@.subrange(0, i)));
        } else {
            self.lemma_movie_index_from(i, k - 1, lib, path);
        }
    }

    /// Applies one event to the state.
    pub fn apply(&mut self, e: StateEvent)
        ensures
            final(self)@ == apply_spec(old(self)@, e@),
    {
        match e {
            StateEvent::ClearMovieList => {
                self.movies = Vec::new();
                proof {
                    assert(movie_views(self.movies@) =~= Seq::<MovieView>::empty());
                }
            },
            StateEvent::MovieDiscovered(m) => {
                if self.is_live(m.library) {
                    let ghost before = self.movies@;
                    let ghost mv = m@;
                    let at = self.title_slot(&m.title);
                    self.movies.insert(at, m);
                    self.loading = false;
                    proof {
                        assert(movie_views(self.movies@) =~= movie_views(before).insert(
                            at as int,
                            mv,
                        ));
                    }
                }
            },
            StateEvent::MovieUpdated(m) => {
                if self.is_live(m.library) {
                    let ghost before = self.movies@;
                    match self.find_movie(m.library, &m.path) {
                        Some(i) => {
                            proof {
                                lemma_movie_index_range(before.map_values(|m: MovieEntry| m@), m.library as nat, m.path@);
                            }
                            let ghost mv = m@;
                            self.movies.set(i, m);
                            proof {
                                assert(movie_views(self.movies@) =~= movie_views(before).update(
                                    i as int,
                                    mv,
                                ));
                            }
                        },
                        None => {
                            let ghost mv = m@;
                            self.movies.push(m);
                            proof {
                                assert(movie_views(self.movies@) =~= movie_views(before).push(mv));
                            }
                        },
                    }
                    self.loading = false;
                }
            },
            StateEvent::ConnTestResult(c, p) => {
                self.test_result = Some((c, p));
            },
        }
    }

    /// Applies a list of events, in order.
    pub fn apply_all(&mut self, events: Vec<StateEvent>)
        ensures
            final(self)@ == apply_all_spec(old(self)@, event_views(events@)),
    {
        let mut i: usize = 0;
        let ghost start = self@;
        let mut events = events;
        let ghost all = events@;
        while i < events.len()
            invariant
                events@ == all,
                i <= all.len(),
                self@ == apply_all_spec(start, event_views(all.subrange(0, i as int))),
            decreases all.len() - i,
        {
            let e = events[i].clone_event();
            proof {
                assert(event_views(all.subrange(0, i + 1)).drop_last() =~= event_views(
                    all.subrange(0, i as int),
                ));
            }
            self.apply(e);
            i = i + 1;
        }
        proof {
            assert(all.subrange(0, all.len() as int) =~= all);
        }
    }

    /// Folds the outcome of a finished task into the state. A failure changes
    /// nothing: its reason comes back, to be logged.
    pub fn apply_outcome(&mut self, outcome: Result<Vec<StateEvent>, String>) -> (log: Option<String>)
        ensures
            final(self)@ == outcome_spec(old(self)@, outcome_view(outcome)),
            match outcome {
                Ok(_) => log is None,
                Err(m) => log is Some && log->Some_0@ == m@,
            },
    {
        match outcome {
            Ok(events) => {
                self.apply_all(events);
                None
            },
            Err(m) => Some(m),
        }
    }

    /// Adds a library whose connection could be opened: the connection takes
    /// the next pool slot and the library the entry of the same index.
    pub fn save_library<T>(&mut self, pool: &mut ConnectionPool<T>, lib: Library, conn: T) -> (index: usize)
        requires
            old(pool)@.len() == old(self)@.libraries.len(),
            old(pool)@.len() < usize::MAX,
        ensures
            index == old(pool)@.len(),
            final(pool)@ == pool_apply(old(pool)@, PoolOp::Add(conn)),
            final(self)@ == (AppStateView {
                libraries: old(self)@.libraries.push(Some(lib@)),
                ..old(self)@
            }),
            final(pool)@.len() == final(self)@.libraries.len(),
            in_step(old(pool)@, old(self)@.libraries) ==> in_step(
                final(pool)@,
                final(self)@.libraries,
            ),
            (final(pool)@, final(self)@.libraries) == slots_apply(
                old(pool)@,
                old(self)@.libraries,
                SlotChange::Added(conn, lib@),
            ),
    {
        let index = pool.add(conn);
        let ghost before = self.libraries@;
        let ghost lv = lib@;
        self.libraries.push(Some(lib));
        proof {
            assert(lib_views(self.libraries@) =~= lib_views(before).push(Some(lv)));
        }
        index
    }

    /// Takes the first library equal to `lib` out of service so that it can
    /// be edited: its connection slot is emptied first, then its entry.
    /// Indices stay in place. Returns the index, or `None` when no library
    /// matches.
    pub fn take_library<T>(&mut self, pool: &mut ConnectionPool<T>, lib: &Library) -> (r: Option<usize>)
        ensures
            first_index_of(old(self)@.libraries, lib@, r),
            match r {
                Some(i) => {
                    &&& final(pool)@ == pool_apply(old(pool)@, PoolOp::Delete(i as nat))
                    &&& final(self)@ == (AppStateView {
                        libraries: old(self)@.libraries.update(i as int, None),
                        ..old(self)@
                    })
                },
                None => final(pool)@ == old(pool)@ && final(self)@ == old(self)@,
            },
            in_step(old(pool)@, old(self)@.libraries) ==> in_step(
                final(pool)@,
                final(self)@.libraries,
            ),
            (final(pool)@, final(self)@.libraries) == slots_apply(
                old(pool)@,
                old(self)@.libraries,
                match r {
                    Some(i) => SlotChange::Emptied(i as nat),
                    None => SlotChange::Unchanged,
                },
            ),
    {
        let mut i: usize = 0;
        while i < self.libraries.len()
            invariant
                i <= self.libraries@.len(),
                forall|j: int| 0 <= j < i ==> lib_views(self.libraries@)[j] != Some(lib@),
                self.libraries@ == old(self).libraries@,
                self.movies@ == old(self).movies@,
                self.loading == old(self).loading,
                self.test_result == old(self).test_result,
                pool@ == old(pool)@,
            decreases self.libraries.len() - i,
        {
            let found = match &self.libraries[i] {
                Some(l) => l.eq(lib),
                None => false,
            };
            proof {
                assert(lib_views(self.libraries@)[i as int] == lib_slot_view(self.libraries@[i as int]));
            }
            if found {
                pool.delete(i);
                let ghost before = self.libraries@;
                self.libraries.set(i, None);
                proof {
                    assert(lib_views(self.libraries@) =~= lib_views(before).update(i as int, None));
                }
                return Some(i);
            }
            i = i + 1;
        }
        None
    }

    /// The libraries in service, each with its slot index and path: what a
    /// refresh scans.
    pub fn refresh_targets(&self) -> (r: Vec<(usize, String)>)
        ensures
            target_views(r@) == live_targets(self@.libraries),
    {
        let mut r: Vec<(usize, String)> = Vec::new();
        let mut i: usize = 0;
        while i < self.libraries.len()
            invariant
                i <= self.libraries@.len(),
                target_views(r@) == live_targets(lib_views(self.libraries@.subrange(0, i as int))),
            decreases self.libraries.len() - i,
        {
            let ghost pre = lib_views(self.libraries@.subrange(0, i as int));
            let ghost cur = lib_views(self.libraries@.subrange(0, i + 1));
            proof {
                assert(cur.drop_last() =~= pre);
            }
            match &self.libraries[i] {
                Some(l) => {
                    let ghost before = r@;
                    r.push((i, l.path.clone()));
                    proof {
                        assert(target_views(r@) =~= target_views(before).push((i as nat, l.path@)));
                    }
                },
                None => {},
            }
            i = i + 1;
        }
        proof {
            assert(self.libraries@.subrange(0, self.libraries@.len() as int) =~= self.libraries@);
        }
        r
    }

    /// The libraries in service, in slot order: what the settings menu lists.
    pub fn live_libraries(&self) -> (r: Vec<Library>)
        ensures
            library_views(r@) == live_list(self@.libraries),
    {
        let mut r: Vec<Library> = Vec::new();
        let mut i: usize = 0;
        while i < self.libraries.len()
            invariant
                i <= self.libraries@.len(),
                library_views(r@) == live_list(lib_views(self.libraries@.subrange(0, i as int))),
            decreases self.libraries.len() - i,
        {
            let ghost pre = lib_views(self.libraries@.subrange(0, i as int));
            let ghost cur = lib_views(self.libraries@.subrange(0, i + 1));
            proof {
                assert(cur.drop_last() =~= pre);
            }
            match &self.libraries[i] {
                Some(l) => {
                    let ghost before = r@;
                    let c = l.duplicate();
                    r.push(c);
                    proof {
                        assert(library_views(r@) =~= library_views(before).push(l@));
                    }
                },
                None => {},
            }
            i = i + 1;
        }
        proof {
            assert(self.libraries@.subrange(0, self.libraries@.len() as int) =~= self.libraries@);
        }
        r
    }
}

impl StateEvent {
    pub fn clone_event(&self) -> (r: StateEvent)
        ensures
            r@ == self@,
    {
        match self {
            StateEvent::ClearMovieList => StateEvent::ClearMovieList,
            StateEvent::MovieDiscovered(m) => StateEvent::MovieDiscovered(m.duplicate()),
            StateEvent::MovieUpdated(m) => StateEvent::MovieUpdated(m.duplicate()),
            StateEvent::ConnTestResult(c, p) => StateEvent::ConnTestResult(*c, *p),
        }
    }
}

// ---------------------------------------------------------------------------
// Outcomes of background work
// ---------------------------------------------------------------------------

/// The answer to a "test library" request: whether the backend connected,
/// and whether the library's path exists on it. A backend that could not
/// even be built, or whose path check failed, answers no.
pub open spec fn test_answer(built: bool, connected: bool, path_check: Option<bool>) -> (bool, bool) {
    if !built {
        (false, false)
    } else {
        (connected, path_check == Some(true))
    }
}

pub fn connection_test_result(built: bool, connected: bool, path_check: Option<bool>) -> (r: (
    bool,
    bool,
))
    ensures
        r == test_answer(built, connected, path_check),
{
    if !built {
        (false, false)
    } else {
        let exists = match path_check {
            Some(b) => b,
            None => false,
        };
        (connected, exists)
    }
}

/// A failed background task leaves the UI state exactly as it was, and the
/// control loop goes on: finishing a task never stops it, nor does any
/// message but `Close`.
pub proof fn law_failed_task_changes_nothing(s: AppStateView, reason: Seq<char>)
    ensures
        outcome_spec(s, Err(reason)) == s,
        action_of(Wake::TaskDone) != LoopAction::Stop,
        forall|k: MessageKind| k != MessageKind::Close ==> action_of(Wake::Message(k)) != LoopAction::Stop,
{
}

/// Once a library is out of service, events about its files change nothing:
/// a scan that was in flight when it was deleted cannot touch the state
/// through it.
pub proof fn law_deleted_library_untouched(s: AppStateView, e: StateEventView)
    requires
        match e {
            StateEventView::MovieDiscovered(m) => !library_live(s, m.library),
            StateEventView::MovieUpdated(m) => !library_live(s, m.library),
            _ => false,
        },
    ensures
        apply_spec(s, e) == s,
{
}

} // verus!
