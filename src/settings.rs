use vstd::prelude::*;

use crate::keys::{KeyCode, KeyPress};
use crate::library::{Library, LibraryFlavor, LibraryType, LibraryView, opt_view};
use crate::widgets::{
    ButtonState, CheckboxState, InputView, LabelledCheckboxState, LabelledInputState, input_key, joined,
};

verus! {

// ---------------------------------------------------------------------------
// Requests the settings page sends to the control loop
// ---------------------------------------------------------------------------

/// What the settings page asks of the control loop.
#[derive(Clone, Debug)]
pub enum SettingsMessage {
    /// Show the menu again, listing the libraries in service.
    OpenMenu,
    /// Open the form for a new library of this type.
    EditNew(LibraryType),
    /// Take this library out of service and open the form on it.
    EditExisting(Library),
    /// Add this library.
    SaveLibrary(Library),
    /// Try to reach this library, in the background.
    TestLibrary(Library),
}

// ---------------------------------------------------------------------------
// The menu
// ---------------------------------------------------------------------------

/// What choosing a menu entry does.
#[derive(Clone, Debug)]
pub enum MenuItemType {
    Heading,
    NewLocalLibrary,
    NewFtpLibrary,
    NewSmbLibrary,
    ExistingLibrary(Library),
}

/// One entry of the settings menu.
#[derive(Clone, Debug)]
pub struct MenuItem {
    pub selectable: bool,
    pub text: String,
    pub item_type: MenuItemType,
}

impl MenuItem {
    /// A selectable entry that does nothing yet.
    pub fn new(text: &str) -> (r: MenuItem)
        ensures
            r.selectable,
            r.text@ == text@,
            r.item_type is Heading,
    {
        MenuItem { selectable: true, text: String::from_str(text), item_type: MenuItemType::Heading }
    }

    pub fn set_type(self, item_type: MenuItemType) -> (r: MenuItem)
        ensures
            r.selectable == self.selectable,
            r.text@ == self.text@,
            r.item_type == item_type,
    {
        MenuItem { item_type, ..self }
    }

    pub fn selectable(self, selectable: bool) -> (r: MenuItem)
        ensures
            r.selectable == selectable,
            r.text@ == self.text@,
            r.item_type == self.item_type,
    {
        MenuItem { selectable, ..self }
    }

    /// The entry that opens an existing library, labelled with its name.
    pub fn for_library(l: Library) -> (r: MenuItem)
        ensures
            r.selectable,
            r.text@ == l.name@,
            r.item_type == MenuItemType::ExistingLibrary(l),
    {
        let text = l.name.clone();
        MenuItem { selectable: true, text, item_type: MenuItemType::ExistingLibrary(l) }
    }
}

/// The four entries that head the menu: new local, FTP and SMB libraries,
/// then a heading that cannot be chosen.
pub open spec fn standard_head(es: Seq<MenuItem>) -> bool {
    &&& es.len() >= 4
    &&& es[0].item_type is NewLocalLibrary && es[0].selectable
    &&& es[1].item_type is NewFtpLibrary && es[1].selectable
    &&& es[2].item_type is NewSmbLibrary && es[2].selectable
    &&& es[3].item_type is Heading && !es[3].selectable
}

/// The menu of the libraries `libs`: the standard entries, then one entry
/// per library, in order, with nothing selected.
pub open spec fn menu_of(m: SettingsMenuState, libs: Seq<Library>) -> bool {
    &&& m.entries().len() == 4 + libs.len()
    &&& standard_head(m.entries())
    &&& forall|i: int|
        0 <= i < libs.len() ==> #[trigger] m.entries()[4 + i].item_type
            == MenuItemType::ExistingLibrary(libs[i])
    &&& m.selection() is None
}

/// Whether `r` is the request that choosing an entry of type `t` sends.
pub open spec fn is_request_for(r: Option<SettingsMessage>, t: MenuItemType) -> bool {
    match t {
        MenuItemType::Heading => r is None,
        MenuItemType::NewLocalLibrary => r == Some(SettingsMessage::EditNew(LibraryType::Local)),
        MenuItemType::NewFtpLibrary => r == Some(SettingsMessage::EditNew(LibraryType::Ftp)),
        MenuItemType::NewSmbLibrary => r == Some(SettingsMessage::EditNew(LibraryType::Smb)),
        MenuItemType::ExistingLibrary(l) => r matches Some(SettingsMessage::EditExisting(m))
            && m@ == l@,
    }
}

/// The entries that always head the menu: one per kind of new library,
/// then a heading that cannot be chosen.
pub fn standard_actions() -> (r: Vec<MenuItem>)
    ensures
        r@.len() == 4,
        r@[0].item_type is NewLocalLibrary && r@[0].selectable,
        r@[1].item_type is NewFtpLibrary && r@[1].selectable,
        r@[2].item_type is NewSmbLibrary && r@[2].selectable,
        r@[3].item_type is Heading && !r@[3].selectable,
        r@[0].text@ == "Add a local library"@,
        r@[1].text@ == "Add a FTP library"@,
        r@[2].text@ == "Add a SMB library"@,
        r@[3].text@ == " - Existing libraries -"@,
{
    let mut items: Vec<MenuItem> = Vec::new();
    items.push(MenuItem::new("Add a local library").set_type(MenuItemType::NewLocalLibrary));
    items.push(MenuItem::new("Add a FTP library").set_type(MenuItemType::NewFtpLibrary));
    items.push(MenuItem::new("Add a SMB library").set_type(MenuItemType::NewSmbLibrary));
    items.push(
        MenuItem::new(" - Existing libraries -").set_type(MenuItemType::Heading).selectable(false),
    );
    items
}

/// The settings menu: its entries and the selected one, if any.
#[derive(Debug)]
pub struct SettingsMenuState {
    items: Vec<MenuItem>,
    selected: Option<usize>,
}

/// Moving the selection up one entry, wrapping from the first to the last.
pub open spec fn select_up(sel: Option<usize>, len: nat) -> Option<usize> {
    match sel {
        None => Some(0),
        Some(i) => if i == 0 {
            Some((len - 1) as usize)
        } else {
            Some((i - 1) as usize)
        },
    }
}

/// Moving the selection down one entry, wrapping from the last to the first.
pub open spec fn select_down(sel: Option<usize>, len: nat) -> Option<usize> {
    match sel {
        None => Some(0),
        Some(i) => if i + 1 == len {
            Some(0)
        } else {
            Some((i + 1) as usize)
        },
    }
}

/// The effect of key `k` on menu `m`, giving menu `t` and the answer `r`:
/// Up and Down move the selection around, Enter on a selectable entry sends
/// its request, and other keys are not for the menu.
pub open spec fn menu_press(
    m: SettingsMenuState,
    k: KeyCode,
    t: SettingsMenuState,
    r: (bool, Option<SettingsMessage>),
) -> bool {
    &&& t.entries() == m.entries()
    &&& k == KeyCode::Up && m.entries().len() > 0 ==> {
        &&& t.selection() == select_up(m.selection(), m.entries().len())
        &&& r.0 && r.1 is None
    }
    &&& k == KeyCode::Down && m.entries().len() > 0 ==> {
        &&& t.selection() == select_down(m.selection(), m.entries().len())
        &&& r.0 && r.1 is None
    }
    &&& (k == KeyCode::Up || k == KeyCode::Down) && m.entries().len() == 0 ==> t.selection()
        == m.selection() && r.0 && r.1 is None
    &&& k == KeyCode::Enter ==> {
        &&& t.selection() == m.selection()
        &&& match m.selection() {
            Some(i) => {
                let item = m.entries()[i as int];
                if item.selectable {
                    r.0 == !(item.item_type is Heading) && is_request_for(r.1, item.item_type)
                } else {
                    r == (false, None::<SettingsMessage>)
                }
            },
            None => r == (false, None::<SettingsMessage>),
        }
    }
    &&& k != KeyCode::Up && k != KeyCode::Down && k != KeyCode::Enter ==> t.selection()
        == m.selection() && r == (false, None::<SettingsMessage>)
}

impl SettingsMenuState {
    #[verifier::type_invariant]
    spec fn selection_in_menu(&self) -> bool {
        self.selected matches Some(i) ==> i < self.items@.len()
    }

    pub closed spec fn entries(&self) -> Seq<MenuItem> {
        self.items@
    }

    pub closed spec fn selection(&self) -> Option<usize> {
        self.selected
    }

    /// A menu with nothing selected.
    pub fn new(items: Vec<MenuItem>) -> (r: SettingsMenuState)
        ensures
            r.entries() == items@,
            r.selection() is None,
    {
        SettingsMenuState { items, selected: None }
    }

    /// The menu of the libraries in service: the standard entries, then one
    /// entry per library, in order.
    pub fn with_libraries(libraries: Vec<Library>) -> (r: SettingsMenuState)
        ensures
            menu_of(r, libraries@),
    {
        let mut items = standard_actions();
        let mut i: usize = 0;
        let mut libraries = libraries;
        let ghost all = libraries@;
        let n = libraries.len();
        while libraries.len() > 0
            invariant
                i <= all.len(),
                all.len() == n,
                libraries@ == all.subrange(i as int, all.len() as int),
                items@.len() == 4 + i,
                standard_head(items@),
                forall|j: int|
                    0 <= j < i ==> #[trigger] items@[4 + j].item_type
                        == MenuItemType::ExistingLibrary(all[j]),
            decreases libraries@.len(),
        {
            let l = libraries.remove(0);
            assert(l == all[i as int]);
            items.push(MenuItem::for_library(l));
            i = i + 1;
        }
        SettingsMenuState { items, selected: None }
    }

    /// The number of entries.
    pub fn entry_count(&self) -> (r: usize)
        ensures
            r == self.entries().len(),
    {
        self.items.len()
    }

    /// The selected entry's index, if any.
    pub fn selected_index(&self) -> (r: Option<usize>)
        ensures
            r == self.selection(),
            r matches Some(i) ==> i < self.entries().len(),
    {
        proof {
            use_type_invariant(self);
        }
        self.selected
    }

    /// Reacts to a key: Up and Down move the selection, wrapping around;
    /// Enter on a selectable entry sends its request. Returns whether the
    /// key was used, and the request to send.
    pub fn press_key(&mut self, key: KeyPress) -> (r: (bool, Option<SettingsMessage>))
        ensures
            menu_press(*old(self), key.code, *final(self), r),
    {
        proof {
            use_type_invariant(&*self);
        }
        let len = self.items.len();
        match key.code {
            KeyCode::Up => {
                if len > 0 {
                    let next = match self.selected {
                        None => 0,
                        Some(i) => if i == 0 {
                            len - 1
                        } else {
                            i - 1
                        },
                    };
                    self.selected = Some(next);
                }
                (true, None)
            },
            KeyCode::Down => {
                if len > 0 {
                    let next = match self.selected {
                        None => 0,
                        Some(i) => if i + 1 == len {
                            0
                        } else {
                            i + 1
                        },
                    };
                    self.selected = Some(next);
                }
                (true, None)
            },
            KeyCode::Enter => {
                match self.selected {
                    Some(s) => {
                        let item = &self.items[s];
                        if item.selectable {
                            let req = match &item.item_type {
                                MenuItemType::Heading => None,
                                MenuItemType::NewLocalLibrary => Some(
                                    SettingsMessage::EditNew(LibraryType::Local),
                                ),
                                MenuItemType::NewFtpLibrary => Some(
                                    SettingsMessage::EditNew(LibraryType::Ftp),
                                ),
                                MenuItemType::NewSmbLibrary => Some(
                                    SettingsMessage::EditNew(LibraryType::Smb),
                                ),
                                MenuItemType::ExistingLibrary(l) => Some(
                                    SettingsMessage::EditExisting(l.duplicate()),
                                ),
                            };
                            (req.is_some(), req)
                        } else {
                            (false, None)
                        }
                    },
                    None => (false, None),
                }
            },
            _ => (false, None),
        }
    }
}

// ---------------------------------------------------------------------------
// The library form
// ---------------------------------------------------------------------------

/// The form that adds or edits a library. Its ten focusable places, in Tab
/// order, are: name, host, username, password, path, movie, TV show, test,
/// save, cancel.
#[derive(Clone, Debug)]
pub struct SettingsEditState {
    pub focused: usize,
    pub fs_type: LibraryType,
    pub name: LabelledInputState,
    /// Host and credentials are only on the form for remote libraries.
    pub host: Option<LabelledInputState>,
    pub username: Option<LabelledInputState>,
    pub password: Option<LabelledInputState>,
    pub path: LabelledInputState,
    pub movie: LabelledCheckboxState,
    pub tv_show: LabelledCheckboxState,
    pub test: ButtonState,
    pub save: ButtonState,
    pub cancel: ButtonState,
    pub test_result: Option<(bool, bool)>,
}

pub open spec fn opt_input_view(o: Option<LabelledInputState>) -> Option<InputView> {
    match o {
        Some(i) => Some(i@),
        None => None,
    }
}

pub struct EditView {
    pub focused: nat,
    pub fs_type: LibraryType,
    pub name: InputView,
    pub host: Option<InputView>,
    pub username: Option<InputView>,
    pub password: Option<InputView>,
    pub path: InputView,
    pub movie: CheckboxState,
    pub tv_show: CheckboxState,
    pub test: ButtonState,
    pub save: ButtonState,
    pub cancel: ButtonState,
    pub test_result: Option<(bool, bool)>,
}

impl View for SettingsEditState {
    type V = EditView;

    open spec fn view(&self) -> EditView {
        EditView {
            focused: self.focused as nat,
            fs_type: self.fs_type,
            name: self.name@,
            host: opt_input_view(self.host),
            username: opt_input_view(self.username),
            password: opt_input_view(self.password),
            path: self.path@,
            movie: self.movie@,
            tv_show: self.tv_show@,
            test: self.test,
            save: self.save,
            cancel: self.cancel,
            test_result: self.test_result,
        }
    }
}

pub open spec fn empty_input() -> InputView {
    InputView { value: Seq::empty(), focused: false, disabled: false, cursor: 0 }
}

pub open spec fn idle_button() -> ButtonState {
    ButtonState { clicked: false, focused: false, disabled: false }
}

pub open spec fn idle_checkbox() -> CheckboxState {
    CheckboxState { checked: false, focused: false, disabled: false }
}

/// The empty form for a library of type `t`: nothing typed, checked,
/// focused or clicked; the host and credential fields only for remote types.
pub open spec fn blank_form(t: LibraryType) -> EditView {
    let remote = if t != LibraryType::Local {
        Some(empty_input())
    } else {
        None
    };
    EditView {
        focused: 0,
        fs_type: t,
        name: empty_input(),
        host: remote,
        username: remote,
        password: remote,
        path: empty_input(),
        movie: idle_checkbox(),
        tv_show: idle_checkbox(),
        test: idle_button(),
        save: idle_button(),
        cancel: idle_button(),
        test_result: None,
    }
}

pub open spec fn field_text(remote: bool, o: Option<Seq<char>>) -> Option<Seq<char>> {
    if remote {
        match o {
            Some(s) => Some(s),
            None => Some(Seq::empty()),
        }
    } else {
        None
    }
}

/// A library as the form can show it: a local library has no host or
/// credentials; a remote one shows an empty field for a missing value.
pub open spec fn as_form(l: LibraryView) -> LibraryView {
    let remote = l.fs_type != LibraryType::Local;
    LibraryView {
        host: field_text(remote, l.host),
        username: field_text(remote, l.username),
        password: field_text(remote, l.password),
        ..l
    }
}

/// The form opened on library `lib`: it describes the library (as the form
/// can show it), with exactly one flavour checked, the focus on the first
/// place, no test result and no button clicked.
pub open spec fn existing_form(e: SettingsEditState, lib: Library) -> bool {
    &&& form_library(e@) == as_form(lib@)
    &&& e.tv_show@.checked == (lib.flavor != LibraryFlavor::Movie)
    &&& e.focused == 0
    &&& e.test_result is None
    &&& e.test == idle_button() && e.save == idle_button() && e.cancel == idle_button()
}

/// Whether place `k` of the form can take the focus: the remote-only fields
/// only when they are on the form; places past the last one always.
pub open spec fn focusable(s: EditView, k: nat) -> bool {
    if k == 1 {
        s.host is Some
    } else if k == 2 {
        s.username is Some
    } else if k == 3 {
        s.password is Some
    } else {
        true
    }
}

pub open spec fn opt_focus(o: Option<InputView>, f: bool) -> Option<InputView> {
    match o {
        Some(i) => Some(InputView { focused: f, ..i }),
        None => None,
    }
}

/// The form with the focus flag of place `k` set to `f`.
#[verifier::opaque]
pub open spec fn with_focus(s: EditView, k: nat, f: bool) -> EditView {
    EditView {
        name: if k == 0 {
            InputView { focused: f, ..s.name }
        } else {
            s.name
        },
        host: if k == 1 {
            opt_focus(s.host, f)
        } else {
            s.host
        },
        username: if k == 2 {
            opt_focus(s.username, f)
        } else {
            s.username
        },
        password: if k == 3 {
            opt_focus(s.password, f)
        } else {
            s.password
        },
        path: if k == 4 {
            InputView { focused: f, ..s.path }
        } else {
            s.path
        },
        movie: if k == 5 {
            CheckboxState { focused: f, ..s.movie }
        } else {
            s.movie
        },
        tv_show: if k == 6 {
            CheckboxState { focused: f, ..s.tv_show }
        } else {
            s.tv_show
        },
        test: if k == 7 {
            ButtonState { focused: f, ..s.test }
        } else {
            s.test
        },
        save: if k == 8 {
            ButtonState { focused: f, ..s.save }
        } else {
            s.save
        },
        cancel: if k == 9 {
            ButtonState { focused: f, ..s.cancel }
        } else {
            s.cancel
        },
        ..s
    }
}

/// The first focusable place from `k` on, moving by `step` (1 forward,
/// 9 backward) around the form, looking at most `fuel` places ahead.
pub open spec fn seek_focus(s: EditView, k: nat, step: nat, fuel: nat) -> nat
    decreases fuel,
{
    if fuel == 0 || focusable(s, k) {
        k
    } else {
        seek_focus(s, (k + step) % 10, step, (fuel - 1) as nat)
    }
}

/// Moving the focus to the next (`step` 1) or previous (`step` 9)
/// focusable place.
pub open spec fn move_focus(s: EditView, step: nat) -> EditView {
    let t = seek_focus(s, (s.focused + step) % 10, step, 10);
    EditView { focused: t, ..with_focus(with_focus(s, s.focused, false), t, true) }
}

pub proof fn lemma_with_focus_keeps(s: EditView, k: nat, f: bool)
    ensures
        with_focus(s, k, f).focused == s.focused,
        with_focus(s, k, f).fs_type == s.fs_type,
        forall|j: nat| focusable(with_focus(s, k, f), j) == focusable(s, j),
{
    reveal(with_focus);
}

pub proof fn lemma_seek_ignores_focus(s: EditView, t: EditView, k: nat, step: nat, fuel: nat)
    requires
        forall|j: nat| focusable(s, j) == focusable(t, j),
    ensures
        seek_focus(s, k, step, fuel) == seek_focus(t, k, step, fuel),
    decreases fuel,
{
    if fuel > 0 && !focusable(s, k) {
        lemma_seek_ignores_focus(s, t, (k + step) % 10, step, (fuel - 1) as nat);
    }
}

pub open spec fn input_text(i: InputView, k: KeyCode) -> InputView {
    input_key(i, k).0
}

/// What a key does to the focused place, and whether it was used.
#[verifier::opaque]
pub open spec fn child_input(s: EditView, k: KeyCode) -> (EditView, bool) {
    let f = s.focused;
    if f == 0 {
        (EditView { name: input_text(s.name, k), ..s }, input_key(s.name, k).1)
    } else if f == 1 {
        match s.host {
            Some(h) => (EditView { host: Some(input_text(h, k)), ..s }, input_key(h, k).1),
            None => (s, false),
        }
    } else if f == 2 {
        match s.username {
            Some(h) => (EditView { username: Some(input_text(h, k)), ..s }, input_key(h, k).1),
            None => (s, false),
        }
    } else if f == 3 {
        match s.password {
            Some(h) => (EditView { password: Some(input_text(h, k)), ..s }, input_key(h, k).1),
            None => (s, false),
        }
    } else if f == 4 {
        (EditView { path: input_text(s.path, k), ..s }, input_key(s.path, k).1)
    } else if f == 5 {
        if k == KeyCode::Char(' ') {
            (EditView { movie: CheckboxState { checked: !s.movie.checked, ..s.movie }, ..s }, true)
        } else {
            (s, false)
        }
    } else if f == 6 {
        if k == KeyCode::Char(' ') {
            (
                EditView { tv_show: CheckboxState { checked: !s.tv_show.checked, ..s.tv_show }, ..s },
                true,
            )
        } else {
            (s, false)
        }
    } else if f == 7 {
        if k == KeyCode::Enter {
            (EditView { test: ButtonState { clicked: true, ..s.test }, ..s }, true)
        } else {
            (s, false)
        }
    } else if f == 8 {
        if k == KeyCode::Enter {
            (EditView { save: ButtonState { clicked: true, ..s.save }, ..s }, true)
        } else {
            (s, false)
        }
    } else if f == 9 {
        if k == KeyCode::Enter {
            (EditView { cancel: ButtonState { clicked: true, ..s.cancel }, ..s }, true)
        } else {
            (s, false)
        }
    } else {
        (s, false)
    }
}

pub open spec fn opt_text(o: Option<InputView>) -> Option<Seq<char>> {
    match o {
        Some(i) => Some(joined(i.value)),
        None => None,
    }
}

/// The library the form describes.
pub open spec fn form_library(s: EditView) -> LibraryView {
    LibraryView {
        fs_type: s.fs_type,
        flavor: if s.movie.checked {
            LibraryFlavor::Movie
        } else {
            LibraryFlavor::TvShow
        },
        name: joined(s.name.value),
        host: opt_text(s.host),
        username: opt_text(s.username),
        password: opt_text(s.password),
        path: joined(s.path.value),
    }
}

/// After a key was used: the two flavour checkboxes exclude each other, and
/// a clicked button sends its request (cancel first, then save, then test).
pub open spec fn after_use(s: EditView) -> EditView {
    if s.focused == 5 {
        EditView { tv_show: CheckboxState { checked: !s.movie.checked, ..s.tv_show }, ..s }
    } else if s.focused == 6 {
        EditView { movie: CheckboxState { checked: !s.tv_show.checked, ..s.movie }, ..s }
    } else {
        s
    }
}

/// Whether `r` is the request the form sends in state `s` after using a key.
pub open spec fn is_form_request(s: EditView, r: Option<SettingsMessage>) -> bool {
    if s.focused == 5 || s.focused == 6 {
        r is None
    } else if s.cancel.clicked {
        r == Some(SettingsMessage::OpenMenu)
    } else if s.save.clicked {
        r matches Some(SettingsMessage::SaveLibrary(l)) && l@ == form_library(s)
    } else if s.test.clicked {
        r matches Some(SettingsMessage::TestLibrary(l)) && l@ == form_library(s)
    } else {
        r is None
    }
}

fn focus_optional(o: &mut Option<LabelledInputState>, state: bool) -> (present: bool)
    ensures
        opt_input_view(*final(o)) == opt_focus(opt_input_view(*old(o)), state),
        present == (*old(o) is Some),
{
    match o {
        Some(u) => {
            u.set_focus(state);
            true
        },
        None => false,
    }
}

fn input_optional(o: &mut Option<LabelledInputState>, key: KeyPress) -> (used: bool)
    ensures
        match *old(o) {
            Some(i) => opt_input_view(*final(o)) == Some(input_text(i@, key.code)) && used
                == input_key(i@, key.code).1,
            None => *final(o) is None && !used,
        },
{
    match o {
        Some(u) => u.input(key),
        None => false,
    }
}

/// The effect of a key other than Tab and BackTab: it goes to the focused
/// place; when used, the form then reacts to it.
pub open spec fn key_effect(
    s: EditView,
    k: KeyCode,
    t2: EditView,
    r: (bool, Option<SettingsMessage>),
) -> bool {
    let (t, used) = child_input(s, k);
    if used {
        &&& t2 == after_use(t)
        &&& r.0
        &&& is_form_request(t, r.1)
    } else {
        t2 == t && r == (false, None::<SettingsMessage>)
    }
}

/// The effect of a key on the form: Tab and BackTab move the focus, other
/// keys go to the focused place.
pub open spec fn form_press(
    s: EditView,
    k: KeyCode,
    t: EditView,
    r: (bool, Option<SettingsMessage>),
) -> bool {
    if k == KeyCode::Tab {
        t == move_focus(s, 1) && r.0 && r.1 is None
    } else if k == KeyCode::BackTab {
        t == move_focus(s, 9) && r.0 && r.1 is None
    } else {
        key_effect(s, k, t, r)
    }
}

pub fn opt_input_text(o: &Option<LabelledInputState>) -> (r: Option<String>)
    ensures
        opt_view(r) == opt_text(opt_input_view(*o)),
{
    match o {
        Some(i) => Some(i.get_value()),
        None => None,
    }
}

impl SettingsEditState {
    /// An empty form for a library of type `fs_type`; remote libraries get
    /// the host and credential fields.
    pub fn blank(fs_type: LibraryType) -> (r: SettingsEditState)
        ensures
            r@ == blank_form(fs_type),
    {
        let remote = fs_type != LibraryType::Local;
        let r = SettingsEditState {
            focused: 0,
            fs_type,
            name: LabelledInputState::new(),
            host: if remote { Some(LabelledInputState::new()) } else { None },
            username: if remote { Some(LabelledInputState::new()) } else { None },
            password: if remote { Some(LabelledInputState::new()) } else { None },
            path: LabelledInputState::new(),
            movie: LabelledCheckboxState::new(),
            tv_show: LabelledCheckboxState::new(),
            test: ButtonState { clicked: false, focused: false, disabled: false },
            save: ButtonState { clicked: false, focused: false, disabled: false },
            cancel: ButtonState { clicked: false, focused: false, disabled: false },
            test_result: None,
        };
        r
    }

    /// Sets the focus flag of place `index`. Returns whether that place is
    /// on the form (places past the last one count as present).
    pub fn focus_child(&mut self, index: usize, state: bool) -> (present: bool)
        ensures
            final(self)@ == with_focus(old(self)@, index as nat, state),
            present == focusable(old(self)@, index as nat),
    {
        if index < 5 {
            self.focus_text_child(index, state)
        } else {
            self.focus_toggle_child(index, state)
        }
    }

    fn focus_text_child(&mut self, index: usize, state: bool) -> (present: bool)
        requires
            index < 5,
        ensures
            final(self)@ == with_focus(old(self)@, index as nat, state),
            present == focusable(old(self)@, index as nat),
    {
        if index == 0 {
            self.focus_name(state);
            true
        } else if index == 1 {
            self.focus_host(state)
        } else if index == 2 {
            self.focus_username(state)
        } else if index == 3 {
            self.focus_password(state)
        } else {
            self.focus_path(state);
            true
        }
    }

    fn focus_name(&mut self, state: bool)
        ensures
            final(self)@ == with_focus(old(self)@, 0, state),
    {
        proof {
            reveal(with_focus);
        }
        self.name.set_focus(state);
    }

    fn focus_path(&mut self, state: bool)
        ensures
            final(self)@ == with_focus(old(self)@, 4, state),
    {
        proof {
            reveal(with_focus);
        }
        self.path.set_focus(state);
    }

    fn focus_host(&mut self, state: bool) -> (present: bool)
        ensures
            final(self)@ == with_focus(old(self)@, 1, state),
            present == focusable(old(self)@, 1),
    {
        proof {
            reveal(with_focus);
        }
        focus_optional(&mut self.host, state)
    }

    fn focus_username(&mut self, state: bool) -> (present: bool)
        ensures
            final(self)@ == with_focus(old(self)@, 2, state),
            present == focusable(old(self)@, 2),
    {
        proof {
            reveal(with_focus);
        }
        focus_optional(&mut self.username, state)
    }

    fn focus_password(&mut self, state: bool) -> (present: bool)
        ensures
            final(self)@ == with_focus(old(self)@, 3, state),
            present == focusable(old(self)@, 3),
    {
        proof {
            reveal(with_focus);
        }
        focus_optional(&mut self.password, state)
    }

    fn focus_toggle_child(&mut self, index: usize, state: bool) -> (present: bool)
        requires
            index >= 5,
        ensures
            final(self)@ == with_focus(old(self)@, index as nat, state),
            present == focusable(old(self)@, index as nat),
    {
        proof {
            reveal(with_focus);
        }
        if index == 5 {
            self.movie.focus(state);
        } else if index == 6 {
            self.tv_show.focus(state);
        } else if index == 7 {
            self.test = ButtonState { focused: state, ..self.test };
        } else if index == 8 {
            self.save = ButtonState { focused: state, ..self.save };
        } else if index == 9 {
            self.cancel = ButtonState { focused: state, ..self.cancel };
        }
        true
    }

    /// Hands a key to the focused place. Returns whether it was used.
    pub fn input_child(&mut self, key: KeyPress) -> (used: bool)
        ensures
            (final(self)@, used) == child_input(old(self)@, key.code),
            final(self).focused == old(self).focused,
            final(self).fs_type == old(self).fs_type,
    {
        let f = self.focused;
        if f == 0 {
            self.input_name(key)
        } else if f == 1 {
            self.input_host(key)
        } else if f == 2 {
            self.input_username(key)
        } else if f == 3 {
            self.input_password(key)
        } else if f == 4 {
            self.input_path(key)
        } else {
            self.input_toggle(key)
        }
    }

    fn input_name(&mut self, key: KeyPress) -> (used: bool)
        requires
            old(self).focused == 0,
        ensures
            (final(self)@, used) == child_input(old(self)@, key.code),
            final(self).focused == old(self).focused,
            final(self).fs_type == old(self).fs_type,
    {
        proof {
            reveal(child_input);
        }
        self.name.input(key)
    }

    fn input_path(&mut self, key: KeyPress) -> (used: bool)
        requires
            old(self).focused == 4,
        ensures
            (final(self)@, used) == child_input(old(self)@, key.code),
            final(self).focused == old(self).focused,
            final(self).fs_type == old(self).fs_type,
    {
        proof {
            reveal(child_input);
        }
        self.path.input(key)
    }

    fn input_host(&mut self, key: KeyPress) -> (used: bool)
        requires
            old(self).focused == 1,
        ensures
            (final(self)@, used) == child_input(old(self)@, key.code),
            final(self).focused == old(self).focused,
            final(self).fs_type == old(self).fs_type,
    {
        proof {
            reveal(child_input);
        }
        input_optional(&mut self.host, key)
    }

    fn input_username(&mut self, key: KeyPress) -> (used: bool)
        requires
            old(self).focused == 2,
        ensures
            (final(self)@, used) == child_input(old(self)@, key.code),
            final(self).focused == old(self).focused,
            final(self).fs_type == old(self).fs_type,
    {
        proof {
            reveal(child_input);
        }
        input_optional(&mut self.username, key)
    }

    fn input_password(&mut self, key: KeyPress) -> (used: bool)
        requires
            old(self).focused == 3,
        ensures
            (final(self)@, used) == child_input(old(self)@, key.code),
            final(self).focused == old(self).focused,
            final(self).fs_type == old(self).fs_type,
    {
        proof {
            reveal(child_input);
        }
        input_optional(&mut self.password, key)
    }

    fn input_toggle(&mut self, key: KeyPress) -> (used: bool)
        requires
            old(self).focused > 4,
        ensures
            (final(self)@, used) == child_input(old(self)@, key.code),
            final(self).focused == old(self).focused,
            final(self).fs_type == old(self).fs_type,
    {
        proof {
            reveal(child_input);
        }
        match self.focused {
            5 => self.movie.input(key),
            6 => self.tv_show.input(key),
            7 => self.test.input(key),
            8 => self.save.input(key),
            9 => self.cancel.input(key),
            _ => false,
        }
    }

    /// The library described by the form.
    pub fn library(&self) -> (r: Library)
        ensures
            r@ == form_library(self@),
    {
        Library {
            name: self.name.get_value(),
            path: self.path.get_value(),
            host: opt_input_text(&self.host),
            username: opt_input_text(&self.username),
            password: opt_input_text(&self.password),
            fs_type: self.fs_type,
            flavor: if self.movie.is_checked() {
                LibraryFlavor::Movie
            } else {
                LibraryFlavor::TvShow
            },
        }
    }

    fn seek(&mut self, step: usize)
        requires
            step == 1 || step == 9,
        ensures
            final(self)@ == move_focus(old(self)@, step as nat),
    {
        let ghost s0 = self@;
        self.focus_child(self.focused, false);
        let ghost s1 = self@;
        let mut k: usize = (self.focused % 10 + step) % 10;
        let mut fuel: usize = 10;
        proof {
            lemma_with_focus_keeps(s0, s0.focused, false);
            vstd::arithmetic::div_mod::lemma_add_mod_noop(s0.focused as int, step as int, 10);
            assert(k == (s0.focused + step) % 10);
            lemma_seek_ignores_focus(s0, s1, ((s0.focused + step) % 10) as nat, step as nat, 10);
        }
        while fuel > 0 && !self.focusable_at(k)
            invariant
                k < 10,
                fuel <= 10,
                step == 1 || step == 9,
                self@ == s1,
                seek_focus(s1, k as nat, step as nat, fuel as nat) == seek_focus(
                    s0,
                    ((s0.focused + step) % 10) as nat,
                    step as nat,
                    10,
                ),
            decreases fuel,
        {
            k = (k + step) % 10;
            fuel = fuel - 1;
        }
        self.focus_child(k, true);
        self.focused = k;
    }

    fn focusable_at(&self, k: usize) -> (r: bool)
        ensures
            r == focusable(self@, k as nat),
    {
        if k == 1 {
            self.host.is_some()
        } else if k == 2 {
            self.username.is_some()
        } else if k == 3 {
            self.password.is_some()
        } else {
            true
        }
    }

    /// Reacts to a key: Tab and BackTab move the focus around the form,
    /// skipping absent fields; any other key goes to the focused place, and
    /// when it is used, keeps the flavour checkboxes exclusive or sends the
    /// request of a clicked button. Returns whether the key was used, and
    /// the request to send.
    pub fn press_key(&mut self, key: KeyPress) -> (r: (bool, Option<SettingsMessage>))
        ensures
            form_press(old(self)@, key.code, final(self)@, r),
    {
        if key.code == KeyCode::Tab {
            self.seek(1);
            (true, None)
        } else if key.code == KeyCode::BackTab {
            self.seek(9);
            (true, None)
        } else {
            self.react(key)
        }
    }

    fn react(&mut self, key: KeyPress) -> (r: (bool, Option<SettingsMessage>))
        ensures
            key_effect(old(self)@, key.code, final(self)@, r),
    {
        if self.input_child(key) {
            if self.focused == 5 {
                let c = !self.movie.is_checked();
                self.tv_show.check(c);
                (true, None)
            } else if self.focused == 6 {
                let c = !self.tv_show.is_checked();
                self.movie.check(c);
                (true, None)
            } else if self.cancel.is_clicked() {
                (true, Some(SettingsMessage::OpenMenu))
            } else if self.save.is_clicked() {
                (true, Some(SettingsMessage::SaveLibrary(self.library())))
            } else if self.test.is_clicked() {
                (true, Some(SettingsMessage::TestLibrary(self.library())))
            } else {
                (true, None)
            }
        } else {
            (false, None)
        }
    }
}

fn fill_optional(o: &mut Option<LabelledInputState>, v: &Option<String>)
    ensures
        match *old(o) {
            Some(i) => match *v {
                Some(t) => *final(o) matches Some(j) && j@.value == crate::widgets::graphemes_of(t@)
                    && joined(j@.value) == t@,
                None => opt_input_view(*final(o)) == Some(i@),
            },
            None => *final(o) is None,
        },
{
    match o {
        Some(i) => match v {
            Some(t) => i.set_value(t.as_str()),
            None => {},
        },
        None => {},
    }
}

/// The settings page: the menu, or the library form.
#[derive(Debug)]
pub enum SettingsState {
    Menu(SettingsMenuState),
    Edit(SettingsEditState),
}

impl SettingsState {
    /// The menu listing the libraries in service.
    pub fn open_menu(libraries: Vec<Library>) -> (r: SettingsState)
        ensures
            r matches SettingsState::Menu(m) && menu_of(m, libraries@),
    {
        SettingsState::Menu(SettingsMenuState::with_libraries(libraries))
    }

    /// An empty form for a new library of type `fs_type`.
    pub fn edit_new(fs_type: LibraryType) -> (r: SettingsState)
        ensures
            r matches SettingsState::Edit(e) && e@ == blank_form(fs_type),
    {
        SettingsState::Edit(SettingsEditState::blank(fs_type))
    }

    /// The form filled in from an existing library.
    pub fn edit_existing(lib: &Library) -> (r: SettingsState)
        ensures
            r matches SettingsState::Edit(e) && existing_form(e, *lib),
    {
        let mut e = SettingsEditState::blank(lib.fs_type);
        fill_optional(&mut e.host, &lib.host);
        fill_optional(&mut e.username, &lib.username);
        fill_optional(&mut e.password, &lib.password);
        e.name.set_value(lib.name.as_str());
        e.path.set_value(lib.path.as_str());
        if lib.flavor == LibraryFlavor::Movie {
            e.movie.check(true);
        } else {
            e.tv_show.check(true);
        }
        proof {
            if lib.fs_type != LibraryType::Local && lib.host is None {
                assert(joined(Seq::<Seq<char>>::empty()) =~= Seq::<char>::empty());
            }
        }
        SettingsState::Edit(e)
    }

    /// Records the answer to a connection test on the form, and releases
    /// its test button. Returns whether the form was open.
    pub fn conn_test_result(&mut self, result: (bool, bool)) -> (shown: bool)
        ensures
            shown == (*old(self) is Edit),
            match *old(self) {
                SettingsState::Edit(e) => *final(self) matches SettingsState::Edit(f) && f@ == (
                EditView {
                    test_result: Some(result),
                    test: ButtonState { clicked: false, ..e.test },
                    ..e@
                }),
                SettingsState::Menu(_) => true,
            },
            *old(self) is Menu ==> *final(self) == *old(self),
    {
        match self {
            SettingsState::Edit(e) => {
                e.test_result = Some(result);
                e.test.clicked(false);
                true
            },
            SettingsState::Menu(_) => false,
        }
    }

    /// Hands a key to the menu or the form. Returns whether it was used, and
    /// the request to send.
    pub fn press_key(&mut self, key: KeyPress) -> (r: (bool, Option<SettingsMessage>))
        ensures
            match *old(self) {
                SettingsState::Menu(m) => *final(self) matches SettingsState::Menu(t) && menu_press(
                    m,
                    key.code,
                    t,
                    r,
                ),
                SettingsState::Edit(e) => *final(self) matches SettingsState::Edit(t) && form_press(
                    e@,
                    key.code,
                    t@,
                    r,
                ),
            },
    {
        match self {
            SettingsState::Menu(m) => m.press_key(key),
            SettingsState::Edit(e) => e.press_key(key),
        }
    }

    /// Reacts to what the control loop tells the page: the menu of the given
    /// libraries, a form for a new or an existing library, or the answer to
    /// a connection test. Returns whether the page took it.
    pub fn input(&mut self, evt: SettingsEvent) -> (r: bool)
        ensures
            match evt {
                SettingsEvent::OpenMenu(libs) => r && (*final(self) matches SettingsState::Menu(m)
                    && menu_of(m, libs@)),
                SettingsEvent::EditNew(t) => r && (*final(self) matches SettingsState::Edit(e)
                    && e@ == blank_form(t)),
                SettingsEvent::EditExisting(l) => r && (*final(self) matches SettingsState::Edit(e)
                    && existing_form(e, l)),
                SettingsEvent::ConnTestResult(c, p) => r == (*old(self) is Edit) && match *old(
                    self,
                ) {
                    SettingsState::Edit(e) => *final(self) matches SettingsState::Edit(f) && f@
                        == (EditView {
                        test_result: Some((c, p)),
                        test: ButtonState { clicked: false, ..e.test },
                        ..e@
                    }),
                    SettingsState::Menu(_) => *final(self) == *old(self),
                },
            },
    {
        match evt {
            SettingsEvent::OpenMenu(libs) => {
                *self = SettingsState::open_menu(libs);
                true
            },
            SettingsEvent::EditNew(t) => {
                *self = SettingsState::edit_new(t);
                true
            },
            SettingsEvent::EditExisting(l) => {
                *self = SettingsState::edit_existing(&l);
                true
            },
            SettingsEvent::ConnTestResult(c, p) => self.conn_test_result((c, p)),
        }
    }
}

/// What the control loop tells the settings page.
#[derive(Clone, Debug)]
pub enum SettingsEvent {
    /// Show the menu of these libraries.
    OpenMenu(Vec<Library>),
    /// Open an empty form for a library of this type.
    EditNew(LibraryType),
    /// Open the form on this library.
    EditExisting(Library),
    /// Whether the tested library connected, and whether its path exists.
    ConnTestResult(bool, bool),
}

} // verus!
