use unicode_segmentation::UnicodeSegmentation;
use vstd::prelude::*;

use crate::keys::{KeyCode, KeyPress};
use crate::text::{char_text, clone_strings, lemma_views_of_len, lemma_views_of_push, views_of};

verus! {

// ---------------------------------------------------------------------------
// Button and checkbox
// ---------------------------------------------------------------------------

/// The state of a push button.
#[derive(Clone, Copy, Debug, Default, PartialEq, Eq, Structural)]
pub struct ButtonState {
    pub clicked: bool,
    pub focused: bool,
    pub disabled: bool,
}

impl ButtonState {
    pub fn is_clicked(&self) -> (r: bool)
        ensures
            r == self.clicked,
    {
        self.clicked
    }

    pub fn is_focused(&self) -> (r: bool)
        ensures
            r == self.focused,
    {
        self.focused
    }

    pub fn is_enabled(&self) -> (r: bool)
        ensures
            r == !self.disabled,
    {
        !self.disabled
    }

    pub fn clicked(&mut self, state: bool)
        ensures
            *final(self) == (ButtonState { clicked: state, ..*old(self) }),
    {
        self.clicked = state;
    }

    /// Enables the button when `state` holds, disables it otherwise.
    pub fn toggle(&mut self, state: bool)
        ensures
            *final(self) == (ButtonState { disabled: !state, ..*old(self) }),
    {
        self.disabled = !state;
    }

    pub fn focus(&mut self, state: bool)
        ensures
            *final(self) == (ButtonState { focused: state, ..*old(self) }),
    {
        self.focused = state;
    }

    /// Enter clicks the button; any other key is not for it.
    pub fn input(&mut self, key: KeyPress) -> (used: bool)
        ensures
            used == (key.code == KeyCode::Enter),
            *final(self) == if used {
                ButtonState { clicked: true, ..*old(self) }
            } else {
                *old(self)
            },
    {
        if key.code == KeyCode::Enter {
            self.clicked = true;
            return true;
        }
        false
    }
}

/// The state of a checkbox.
#[derive(Clone, Copy, Debug, Default, PartialEq, Eq, Structural)]
pub struct CheckboxState {
    pub checked: bool,
    pub focused: bool,
    pub disabled: bool,
}

impl CheckboxState {
    pub fn is_checked(&self) -> (r: bool)
        ensures
            r == self.checked,
    {
        self.checked
    }

    pub fn is_focused(&self) -> (r: bool)
        ensures
            r == self.focused,
    {
        self.focused
    }

    pub fn is_enabled(&self) -> (r: bool)
        ensures
            r == !self.disabled,
    {
        !self.disabled
    }

    pub fn check(&mut self, state: bool)
        ensures
            *final(self) == (CheckboxState { checked: state, ..*old(self) }),
    {
        self.checked = state;
    }

    /// Enables the checkbox when `state` holds, disables it otherwise.
    pub fn toggle(&mut self, state: bool)
        ensures
            *final(self) == (CheckboxState { disabled: !state, ..*old(self) }),
    {
        self.disabled = !state;
    }

    pub fn focus(&mut self, state: bool)
        ensures
            *final(self) == (CheckboxState { focused: state, ..*old(self) }),
    {
        self.focused = state;
    }

    /// Space flips the checkbox; any other key is not for it.
    pub fn input(&mut self, key: KeyPress) -> (used: bool)
        ensures
            used == (key.code == KeyCode::Char(' ')),
            *final(self) == if used {
                CheckboxState { checked: !old(self).checked, ..*old(self) }
            } else {
                *old(self)
            },
    {
        if key.code == KeyCode::Char(' ') {
            self.checked = !self.checked;
            return true;
        }
        false
    }
}

// ---------------------------------------------------------------------------
// Text input
// ---------------------------------------------------------------------------

/// The legacy grapheme clusters of a text, as unicode-segmentation splits it.
pub uninterp spec fn graphemes_of(s: Seq<char>) -> Seq<Seq<char>>;

/// The text made of a sequence of pieces, end to end.
pub open spec fn joined(v: Seq<Seq<char>>) -> Seq<char>
    decreases v.len(),
{
    if v.len() == 0 {
        Seq::empty()
    } else {
        joined(v.drop_last()) + v.last()
    }
}

pub open spec fn all_nonempty(v: Seq<Seq<char>>) -> bool {
    forall|i: int| 0 <= i < v.len() ==> #[trigger] v[i].len() > 0
}

/// Relies on `UnicodeSegmentation::graphemes` with `is_extended = false`: the
/// clusters are consecutive, non-empty slices of the text, from its start to
/// its end.
#[verifier::external_body]
fn split_graphemes(s: &str) -> (r: Vec<String>)
    ensures
        views_of(r@) == graphemes_of(s@),
        joined(views_of(r@)) == s@,
        all_nonempty(views_of(r@)),
{
    s.graphemes(false).map(|g| g.to_owned()).collect()
}

/// Joining non-empty pieces gives the empty text exactly when there are none.
pub proof fn lemma_joined_empty_iff(v: Seq<Seq<char>>)
    requires
        all_nonempty(v),
    ensures
        (joined(v).len() == 0) == (v.len() == 0),
    decreases v.len(),
{
    if v.len() > 0 {
        assert(v.last() == v[v.len() - 1]);
    }
}

pub proof fn lemma_joined_push(v: Seq<Seq<char>>, s: Seq<char>)
    ensures
        joined(v.push(s)) == joined(v) + s,
{
    assert(v.push(s).drop_last() =~= v);
}

/// The state of a one-line text input: the text as grapheme clusters, and a
/// cursor that stands before one of them or at the end.
#[derive(Debug)]
pub struct InputState {
    value: Vec<String>,
    focused: bool,
    disabled: bool,
    cursor: usize,
}

pub struct InputView {
    pub value: Seq<Seq<char>>,
    pub focused: bool,
    pub disabled: bool,
    pub cursor: nat,
}

impl View for InputState {
    type V = InputView;

    closed spec fn view(&self) -> InputView {
        InputView {
            value: views_of(self.value@),
            focused: self.focused,
            disabled: self.disabled,
            cursor: self.cursor as nat,
        }
    }
}

pub open spec fn min_nat(a: nat, b: nat) -> nat {
    if a < b {
        a
    } else {
        b
    }
}

/// Typing `c`: the clusters around the cursor are re-segmented together with
/// the new character, since it may combine with them; the cursor moves on
/// when the text gained a cluster.
pub open spec fn typed(s: InputView, c: char) -> InputView {
    typed_with(s, graphemes_of(around_cursor(s, c)))
}

/// The text that typing `c` re-segments: the clusters just before and just
/// after the cursor, with `c` between them.
pub open spec fn around_cursor(s: InputView, c: char) -> Seq<char> {
    let prev = if s.cursor > 0 {
        s.value[s.cursor - 1]
    } else {
        Seq::empty()
    };
    let next = if s.cursor < s.value.len() {
        s.value[s.cursor as int]
    } else {
        Seq::empty()
    };
    prev + seq![c] + next
}

/// Putting the clusters `g` in place of those around the cursor; the cursor
/// moves on when there are more of them than were replaced.
pub open spec fn typed_with(s: InputView, g: Seq<Seq<char>>) -> InputView {
    let lo: nat = if s.cursor > 0 {
        (s.cursor - 1) as nat
    } else {
        0
    };
    let hi: nat = min_nat(s.cursor + 1, s.value.len());
    let old_len: int = hi - lo;
    InputView {
        value: s.value.subrange(0, lo as int) + g + s.value.subrange(hi as int, s.value.len() as int),
        cursor: if old_len < g.len() {
            s.cursor + 1
        } else {
            s.cursor
        },
        ..s
    }
}

/// The effect of a key on a text input, and whether the input used it.
pub open spec fn input_key(s: InputView, k: KeyCode) -> (InputView, bool) {
    match k {
        KeyCode::Char(c) => (typed(s, c), true),
        KeyCode::Backspace => (
            if s.cursor > 0 {
                InputView {
                    value: s.value.remove(s.cursor - 1),
                    cursor: (s.cursor - 1) as nat,
                    ..s
                }
            } else {
                s
            },
            true,
        ),
        KeyCode::Delete => (
            if s.cursor < s.value.len() {
                InputView { value: s.value.remove(s.cursor as int), ..s }
            } else {
                s
            },
            true,
        ),
        KeyCode::Left => (
            InputView {
                cursor: if s.cursor > 0 {
                    (s.cursor - 1) as nat
                } else {
                    0
                },
                ..s
            },
            true,
        ),
        KeyCode::Right => (InputView { cursor: min_nat(s.cursor + 1, s.value.len()), ..s }, true),
        KeyCode::Up => (InputView { cursor: 0, ..s }, true),
        KeyCode::Home => (InputView { cursor: 0, ..s }, true),
        KeyCode::Down => (InputView { cursor: s.value.len(), ..s }, true),
        KeyCode::End => (InputView { cursor: s.value.len(), ..s }, true),
        _ => (s, false),
    }
}

impl InputState {
    #[verifier::type_invariant]
    spec fn cursor_in_text(&self) -> bool {
        &&& self.cursor <= self.value@.len()
        &&& all_nonempty(views_of(self.value@))
    }

    /// An empty input, unfocused and enabled.
    pub fn new() -> (r: InputState)
        ensures
            r@.value == Seq::<Seq<char>>::empty(),
            r@.cursor == 0,
            !r@.focused,
            !r@.disabled,
    {
        let r = InputState { value: Vec::new(), focused: false, disabled: false, cursor: 0 };
        assert(views_of(r.value@) =~= Seq::<Seq<char>>::empty());
        r
    }

    /// Applies a key to the input. Returns whether the input used it.
    pub fn input(&mut self, key: KeyPress) -> (used: bool)
        ensures
            (final(self)@, used) == input_key(old(self)@, key.code),
            all_nonempty(final(self)@.value),
    {
        let used = self.apply_key(key);
        proof {
            use_type_invariant(&*self);
            lemma_views_of_len(self.value@);
        }
        used
    }

    fn apply_key(&mut self, key: KeyPress) -> (used: bool)
        ensures
            (final(self)@, used) == input_key(old(self)@, key.code),
    {
        proof {
            use_type_invariant(&*self);
            lemma_views_of_len(self.value@);
        }
        match key.code {
            KeyCode::Char(c) => {
                self.type_char(c);
                true
            },
            KeyCode::Backspace => {
                if self.cursor > 0 {
                    let mut value = clone_strings(&self.value);
                    proof {
                        lemma_views_of_len(value@);
                    }
                    let ghost before = value@;
                    value.remove(self.cursor - 1);
                    proof {
                        lemma_views_of_remove(before, self.cursor - 1);
                    }
                    *self = InputState { value, cursor: self.cursor - 1, ..*self };
                }
                true
            },
            KeyCode::Delete => {
                if self.cursor < self.value.len() {
                    let mut value = clone_strings(&self.value);
                    proof {
                        lemma_views_of_len(value@);
                    }
                    let ghost before = value@;
                    value.remove(self.cursor);
                    proof {
                        lemma_views_of_remove(before, self.cursor as int);
                    }
                    *self = InputState { value, ..*self };
                }
                true
            },
            KeyCode::Left => {
                if self.cursor > 0 {
                    self.cursor = self.cursor - 1;
                }
                true
            },
            KeyCode::Right => {
                if self.cursor < self.value.len() {
                    self.cursor = self.cursor + 1;
                }
                true
            },
            KeyCode::Up | KeyCode::Home => {
                self.cursor = 0;
                true
            },
            KeyCode::Down | KeyCode::End => {
                self.cursor = self.value.len();
                true
            },
            _ => false,
        }
    }

    fn type_char(&mut self, c: char)
        ensures
            final(self)@ == typed(old(self)@, c),
    {
        proof {
            use_type_invariant(&*self);
            lemma_views_of_len(self.value@);
        }
        let n = self.value.len();
        let cur = self.cursor;
        let mut tmp = String::new();
        if cur > 0 {
            tmp.append(self.value[cur - 1].as_str());
        }
        let ct = char_text(c);
        tmp.append(ct.as_str());
        if cur < n {
            tmp.append(self.value[cur].as_str());
        }
        let ghost s = self@;
        let ghost prev = if s.cursor > 0 { s.value[s.cursor - 1] } else { Seq::<char>::empty() };
        let ghost next = if s.cursor < s.value.len() { s.value[s.cursor as int] } else { Seq::<char>::empty() };
        assert(tmp@ =~= prev + seq![c] + next);
        let g = split_graphemes(tmp.as_str());
        proof {
            lemma_views_of_len(g@);
            if g@.len() == 0 {
                assert(views_of(g@) =~= Seq::<Seq<char>>::empty());
                assert(joined(views_of(g@)).len() == 0);
                assert(tmp@.len() > 0);
            }
            assert(g@.len() > 0);
            assert(around_cursor(s, c) == tmp@);
        }
        self.type_clusters(g);
    }

    /// Puts the clusters `g` in place of those around the cursor, as typing
    /// a character does with the clusters of the text around it; the cursor
    /// moves on when there are more clusters than were replaced.
    pub fn type_clusters(&mut self, g: Vec<String>)
        requires
            g@.len() > 0,
            all_nonempty(views_of(g@)),
        ensures
            final(self)@ == typed_with(old(self)@, views_of(g@)),
    {
        proof {
            use_type_invariant(&*self);
            lemma_views_of_len(self.value@);
            lemma_views_of_len(g@);
        }
        let n = self.value.len();
        let cur = self.cursor;
        let lo: usize = if cur > 0 { cur - 1 } else { 0 };
        let hi: usize = if cur < n { cur + 1 } else { n };
        let ghost s = self@;
        let new_len = g.len();
        let mut value: Vec<String> = Vec::new();
        let mut i: usize = 0;
        while i < lo
            invariant
                i <= lo,
                lo <= n,
                n == self.value@.len(),
                views_of(value@) == views_of(self.value@.subrange(0, i as int)),
            decreases lo - i,
        {
            let ghost prevv = value@;
            let x = self.value[i].clone();
            value.push(x);
            proof {
                lemma_views_of_push(prevv, x);
                lemma_views_of_push(self.value@.subrange(0, i as int), self.value@[i as int]);
                assert(self.value@.subrange(0, i + 1) =~= self.value@.subrange(0, i as int).push(
                    self.value@[i as int],
                ));
            }
            i = i + 1;
        }
        let mut j: usize = 0;
        while j < g.len()
            invariant
                j <= g@.len(),
                lo <= n,
                n == self.value@.len(),
                views_of(value@) == views_of(self.value@.subrange(0, lo as int)) + views_of(
                    g@.subrange(0, j as int),
                ),
            decreases g.len() - j,
        {
            let ghost prevv = value@;
            let x = g[j].clone();
            value.push(x);
            proof {
                lemma_views_of_push(prevv, x);
                lemma_views_of_push(g@.subrange(0, j as int), g@[j as int]);
                assert(g@.subrange(0, j + 1) =~= g@.subrange(0, j as int).push(g@[j as int]));
            }
            j = j + 1;
        }
        proof {
            assert(g@.subrange(0, g@.len() as int) =~= g@);
            assert(self.value@.subrange(hi as int, hi as int) =~= Seq::<String>::empty());
            assert(views_of(Seq::<String>::empty()) =~= Seq::<Seq<char>>::empty());
            assert(views_of(value@) =~= views_of(self.value@.subrange(0, lo as int)) + views_of(g@)
                + views_of(self.value@.subrange(hi as int, hi as int)));
        }
        let mut k: usize = hi;
        while k < n
            invariant
                hi <= k <= n,
                n == self.value@.len(),
                views_of(value@) == views_of(self.value@.subrange(0, lo as int)) + views_of(g@)
                    + views_of(self.value@.subrange(hi as int, k as int)),
            decreases n - k,
        {
            let ghost prevv = value@;
            let x = self.value[k].clone();
            value.push(x);
            proof {
                lemma_views_of_push(prevv, x);
                lemma_views_of_push(self.value@.subrange(hi as int, k as int), self.value@[k as int]);
                assert(self.value@.subrange(hi as int, k + 1) =~= self.value@.subrange(
                    hi as int,
                    k as int,
                ).push(self.value@[k as int]));
            }
            k = k + 1;
        }
        proof {
            lemma_views_of_subrange(self.value@, 0, lo as int);
            lemma_views_of_subrange(self.value@, hi as int, n as int);
            lemma_views_of_len(value@);
        }
        proof {
            lemma_views_of_len(self.value@);
            assert(value@.len() == lo + g@.len() + (n - hi));
            if cur > 0 && cur < n {
                assert(hi - lo == 2);
            } else if cur > 0 {
                assert(hi - lo == 1);
            } else if cur < n {
                assert(hi - lo == 1);
            }
        }
        let total = value.len();
        let old_len = hi - lo;
        let cursor = if old_len < new_len { cur + 1 } else { cur };
        assert(views_of(value@) =~= typed_with(s, views_of(g@)).value);
        proof {
            let v = views_of(value@);
            assert forall|q: int| 0 <= q < v.len() implies #[trigger] v[q].len() > 0 by {
                if q < lo {
                    assert(v[q] == s.value[q]);
                } else if q < lo + g@.len() {
                    assert(v[q] == views_of(g@)[q - lo]);
                } else {
                    assert(v[q] == s.value[q - lo - g@.len() + hi]);
                }
            }
        }
        *self = InputState { value, cursor, ..*self };
    }

    pub fn set_focus(&mut self, f: bool)
        ensures
            final(self)@ == (InputView { focused: f, ..old(self)@ }),
    {
        proof {
            use_type_invariant(&*self);
        }
        self.focused = f;
    }

    /// Enables the input when `t` holds, disables it otherwise.
    pub fn toggle(&mut self, t: bool)
        ensures
            final(self)@ == (InputView { disabled: !t, ..old(self)@ }),
    {
        proof {
            use_type_invariant(&*self);
        }
        self.disabled = !t;
    }

    pub fn is_focused(&self) -> (r: bool)
        ensures
            r == self@.focused,
    {
        self.focused
    }

    pub fn is_disabled(&self) -> (r: bool)
        ensures
            r == self@.disabled,
    {
        self.disabled
    }

    pub fn is_empty(&self) -> (r: bool)
        ensures
            r == (self@.value.len() == 0),
            r == (joined(self@.value).len() == 0),
            all_nonempty(self@.value),
    {
        proof {
            use_type_invariant(self);
            lemma_views_of_len(self.value@);
            lemma_joined_empty_iff(views_of(self.value@));
        }
        self.value.len() == 0
    }

    /// Replaces the text, split into grapheme clusters. The cursor stays
    /// where it was, or moves to the end of a shorter text.
    pub fn set_value(&mut self, val: &str)
        ensures
            final(self)@.value == graphemes_of(val@),
            joined(final(self)@.value) == val@,
            all_nonempty(final(self)@.value),
            (final(self)@.value.len() == 0) == (val@.len() == 0),
            final(self)@.cursor == min_nat(old(self)@.cursor, graphemes_of(val@).len()),
            final(self)@.focused == old(self)@.focused,
            final(self)@.disabled == old(self)@.disabled,
    {
        let value = split_graphemes(val);
        proof {
            lemma_views_of_len(value@);
            lemma_joined_empty_iff(views_of(value@));
        }
        let cursor = if self.cursor <= value.len() { self.cursor } else { value.len() };
        *self = InputState { value, cursor, ..*self };
    }

    /// The text, clusters joined end to end.
    pub fn get_value(&self) -> (r: String)
        ensures
            r@ == joined(self@.value),
    {
        let mut r = String::new();
        let mut i: usize = 0;
        while i < self.value.len()
            invariant
                i <= self.value@.len(),
                r@ == joined(views_of(self.value@.subrange(0, i as int))),
            decreases self.value.len() - i,
        {
            let ghost prev = r@;
            r.append(self.value[i].as_str());
            proof {
                assert(self.value@.subrange(0, i + 1) =~= self.value@.subrange(0, i as int).push(
                    self.value@[i as int],
                ));
                lemma_views_of_push(self.value@.subrange(0, i as int), self.value@[i as int]);
                lemma_joined_push(views_of(self.value@.subrange(0, i as int)), self.value@[i as int]@);
            }
            i = i + 1;
        }
        proof {
            assert(self.value@.subrange(0, self.value@.len() as int) =~= self.value@);
        }
        r
    }
}

impl Clone for InputState {
    fn clone(&self) -> (r: InputState)
        ensures
            r@ == self@,
    {
        proof {
            use_type_invariant(self);
            lemma_views_of_len(self.value@);
        }
        let value = clone_strings(&self.value);
        proof {
            lemma_views_of_len(value@);
        }
        InputState { value, focused: self.focused, disabled: self.disabled, cursor: self.cursor }
    }
}

impl Default for InputState {
    fn default() -> (r: InputState)
        ensures
            r@.value == Seq::<Seq<char>>::empty(),
            r@.cursor == 0,
            !r@.focused,
            !r@.disabled,
    {
        InputState::new()
    }
}

pub proof fn lemma_views_of_subrange(v: Seq<String>, a: int, b: int)
    requires
        0 <= a <= b <= v.len(),
    ensures
        views_of(v.subrange(a, b)) == views_of(v).subrange(a, b),
{
    lemma_views_of_len(v);
    lemma_views_of_len(v.subrange(a, b));
    assert(views_of(v.subrange(a, b)) =~= views_of(v).subrange(a, b));
}

pub proof fn lemma_views_of_remove(v: Seq<String>, i: int)
    requires
        0 <= i < v.len(),
    ensures
        views_of(v.remove(i)) == views_of(v).remove(i),
{
    lemma_views_of_len(v);
    lemma_views_of_len(v.remove(i));
    assert(views_of(v.remove(i)) =~= views_of(v).remove(i));
}

// ---------------------------------------------------------------------------
// Labelled widgets
// ---------------------------------------------------------------------------

/// The state of a text input shown next to a label.
#[derive(Clone, Debug, Default)]
pub struct LabelledInputState {
    input_state: InputState,
}

impl View for LabelledInputState {
    type V = InputView;

    closed spec fn view(&self) -> InputView {
        self.input_state@
    }
}

impl LabelledInputState {
    pub fn new() -> (r: LabelledInputState)
        ensures
            r@.value == Seq::<Seq<char>>::empty(),
            r@.cursor == 0,
            !r@.focused,
            !r@.disabled,
    {
        LabelledInputState { input_state: InputState::new() }
    }

    pub fn input(&mut self, key: KeyPress) -> (used: bool)
        ensures
            (final(self)@, used) == input_key(old(self)@, key.code),
            all_nonempty(final(self)@.value),
    {
        self.input_state.input(key)
    }

    pub fn set_focus(&mut self, f: bool)
        ensures
            final(self)@ == (InputView { focused: f, ..old(self)@ }),
    {
        self.input_state.set_focus(f);
    }

    /// Enables the input when `d` holds, disables it otherwise.
    pub fn toggle(&mut self, d: bool)
        ensures
            final(self)@ == (InputView { disabled: !d, ..old(self)@ }),
    {
        self.input_state.toggle(d);
    }

    pub fn is_focused(&self) -> (r: bool)
        ensures
            r == self@.focused,
    {
        self.input_state.is_focused()
    }

    pub fn is_disabled(&self) -> (r: bool)
        ensures
            r == self@.disabled,
    {
        self.input_state.is_disabled()
    }

    pub fn set_value(&mut self, val: &str)
        ensures
            final(self)@.value == graphemes_of(val@),
            joined(final(self)@.value) == val@,
            all_nonempty(final(self)@.value),
            (final(self)@.value.len() == 0) == (val@.len() == 0),
            final(self)@.cursor == min_nat(old(self)@.cursor, graphemes_of(val@).len()),
            final(self)@.focused == old(self)@.focused,
            final(self)@.disabled == old(self)@.disabled,
    {
        self.input_state.set_value(val);
    }

    pub fn get_value(&self) -> (r: String)
        ensures
            r@ == joined(self@.value),
    {
        self.input_state.get_value()
    }
}

/// The state of a checkbox shown next to a label.
#[derive(Clone, Copy, Debug, Default)]
pub struct LabelledCheckboxState {
    checkbox_state: CheckboxState,
}

impl View for LabelledCheckboxState {
    type V = CheckboxState;

    closed spec fn view(&self) -> CheckboxState {
        self.checkbox_state
    }
}

impl LabelledCheckboxState {
    pub fn new() -> (r: LabelledCheckboxState)
        ensures
            r@ == (CheckboxState { checked: false, focused: false, disabled: false }),
    {
        LabelledCheckboxState {
            checkbox_state: CheckboxState { checked: false, focused: false, disabled: false },
        }
    }

    pub fn input(&mut self, key: KeyPress) -> (used: bool)
        ensures
            used == (key.code == KeyCode::Char(' ')),
            final(self)@ == if used {
                CheckboxState { checked: !old(self)@.checked, ..old(self)@ }
            } else {
                old(self)@
            },
    {
        self.checkbox_state.input(key)
    }

    pub fn focus(&mut self, f: bool)
        ensures
            final(self)@ == (CheckboxState { focused: f, ..old(self)@ }),
    {
        self.checkbox_state.focus(f);
    }

    /// Enables the checkbox when `d` holds, disables it otherwise.
    pub fn toggle(&mut self, d: bool)
        ensures
            final(self)@ == (CheckboxState { disabled: !d, ..old(self)@ }),
    {
        self.checkbox_state.toggle(d);
    }

    pub fn is_focused(&self) -> (r: bool)
        ensures
            r == self@.focused,
    {
        self.checkbox_state.is_focused()
    }

    pub fn is_enabled(&self) -> (r: bool)
        ensures
            r == !self@.disabled,
    {
        self.checkbox_state.is_enabled()
    }

    pub fn check(&mut self, state: bool)
        ensures
            final(self)@ == (CheckboxState { checked: state, ..old(self)@ }),
    {
        self.checkbox_state.check(state);
    }

    pub fn is_checked(&self) -> (r: bool)
        ensures
            r == self@.checked,
    {
        self.checkbox_state.is_checked()
    }
}

} // verus!
