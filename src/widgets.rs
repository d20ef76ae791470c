use vstd::prelude::*;
use vstd::string::*;

use crate::keys::{Key, KeyCode};
use crate::text::{char_text, is_white_space, is_white_space_char};

verus! {

broadcast use vstd::string::group_string_axioms;

/// Start of the word that ends at `cur`: just after the last white space
/// before `cur`, or the start of the text.
pub open spec fn word_start(s: Seq<char>, cur: int) -> int
    decreases cur,
{
    if cur <= 0 {
        0
    } else if is_white_space(s[cur - 1]) {
        cur
    } else {
        word_start(s, cur - 1)
    }
}

/// Text, cursor and "handled" answer after a key press on a single-line
/// input whose text is `v` and whose cursor stands before character `c`.
pub open spec fn text_after_key(v: Seq<char>, c: int, key: Key) -> (Seq<char>, int, bool) {
    match key.code {
        KeyCode::Char(ch) => if key.ctrl {
            if ch == 'a' {
                (v, 0, true)
            } else if ch == 'e' {
                (v, v.len() as int, true)
            } else if ch == 'u' {
                (v.subrange(c, v.len() as int), 0, true)
            } else if ch == 'k' {
                (v.subrange(0, c), c, true)
            } else if ch == 'w' {
                let st = word_start(v, c);
                (v.subrange(0, st) + v.subrange(c, v.len() as int), st, true)
            } else {
                (v, c, false)
            }
        } else if v.len() < usize::MAX {
            (v.subrange(0, c) + seq![ch] + v.subrange(c, v.len() as int), c + 1, true)
        } else {
            (v, c, false)
        },
        KeyCode::Backspace => if c > 0 {
            (v.subrange(0, c - 1) + v.subrange(c, v.len() as int), c - 1, true)
        } else {
            (v, c, true)
        },
        KeyCode::Delete => if c < v.len() {
            (v.subrange(0, c) + v.subrange(c + 1, v.len() as int), c, true)
        } else {
            (v, c, true)
        },
        KeyCode::Left => (v, if c > 0 { c - 1 } else { c }, true),
        KeyCode::Right => (v, if c < v.len() { c + 1 } else { c }, true),
        KeyCode::Home => (v, 0, true),
        KeyCode::End => (v, v.len() as int, true),
        _ => (v, c, false),
    }
}

/// `b` is the input `a` after the key: text and cursor as
/// `text_after_key` gives them, placeholder kept.
pub open spec fn input_after_key(a: TextInput, b: TextInput, key: Key) -> bool {
    let t = text_after_key(a.value@, a.cursor as int, key);
    b.value@ == t.0 && b.cursor == t.1 && b.placeholder == a.placeholder
}

/// Left or `h` moves a choice list back.
pub open spec fn moves_back(key: Key) -> bool {
    key.code == KeyCode::Left || key.code == KeyCode::Char('h')
}

/// Right, `l`, Enter or space moves a choice list on.
pub open spec fn moves_on(key: Key) -> bool {
    key.code == KeyCode::Right || key.code == KeyCode::Enter || key.code == KeyCode::Char('l')
        || key.code == KeyCode::Char(' ')
}

/// Selected position of a choice list after the key.
pub open spec fn selection_after_key(s: Selector, key: Key) -> usize {
    let n = s.options@.len();
    if n == 0 || !(moves_back(key) || moves_on(key)) {
        s.selected
    } else if moves_back(key) {
        if s.selected == 0 { (n - 1) as usize } else { (s.selected - 1) as usize }
    } else {
        ((s.selected + 1) % (n as int)) as usize
    }
}

/// Space or Enter flips a switch.
pub open spec fn flips(key: Key) -> bool {
    key.code == KeyCode::Enter || key.code == KeyCode::Char(' ')
}

/// Single-line text input; the cursor counts characters.
#[derive(Debug, Clone)]
pub struct TextInput {
    pub value: String,
    pub cursor: usize,
    pub placeholder: String,
}

impl TextInput {
    pub open spec fn wf(&self) -> bool {
        self.cursor <= self.value@.len()
    }

    pub fn new() -> (r: Self)
        ensures
            r.wf(),
            r.value@ == Seq::<char>::empty(),
            r.cursor == 0,
            r.placeholder@ == Seq::<char>::empty(),
    {
        TextInput { value: String::new(), cursor: 0, placeholder: String::new() }
    }

    pub fn with_placeholder(self, placeholder: &str) -> (r: Self)
        ensures
            r.value == self.value,
            r.cursor == self.cursor,
            r.placeholder@ == placeholder@,
    {
        TextInput { placeholder: String::from_str(placeholder), ..self }
    }

    /// Sets the text and puts the cursor at its end.
    pub fn with_value(self, value: &str) -> (r: Self)
        ensures
            r.wf(),
            r.value@ == value@,
            r.cursor == value@.len(),
            r.placeholder == self.placeholder,
    {
        let n = value.unicode_len();
        TextInput { value: String::from_str(value), cursor: n, ..self }
    }

    /// Applies one key press; answers whether the input used the key.
    pub fn handle_key(&mut self, key: Key) -> (r: bool)
        requires
            old(self).wf(),
        ensures
            final(self).wf(),
            final(self).placeholder == old(self).placeholder,
            ({
                let t = text_after_key(old(self).value@, old(self).cursor as int, key);
                final(self).value@ == t.0 && final(self).cursor == t.1 && r == t.2
            }),
    {
        let n = self.value.as_str().unicode_len();
        let c = self.cursor;
        match key.code {
            KeyCode::Char(ch) => {
                if key.ctrl {
                    if ch == 'a' {
                        self.cursor = 0;
                    } else if ch == 'e' {
                        self.cursor = n;
                    } else if ch == 'u' {
                        let rest = String::from_str(self.value.as_str().substring_char(c, n));
                        self.value = rest;
                        self.cursor = 0;
                    } else if ch == 'k' {
                        let head = String::from_str(self.value.as_str().substring_char(0, c));
                        self.value = head;
                    } else if ch == 'w' {
                        let st = self.word_start_before_cursor();
                        let head = String::from_str(self.value.as_str().substring_char(0, st));
                        let joined = head.concat(self.value.as_str().substring_char(c, n));
                        self.value = joined;
                        self.cursor = st;
                    } else {
                        return false;
                    }
                } else {
                    if n == usize::MAX {
                        return false;
                    }
                    let head = String::from_str(self.value.as_str().substring_char(0, c));
                    let mid = char_text(ch);
                    let joined = head.concat(mid.as_str()).concat(
                        self.value.as_str().substring_char(c, n),
                    );
                    self.value = joined;
                    self.cursor = c + 1;
                }
                true
            },
            KeyCode::Backspace => {
                if c > 0 {
                    let head = String::from_str(self.value.as_str().substring_char(0, c - 1));
                    let joined = head.concat(self.value.as_str().substring_char(c, n));
                    self.value = joined;
                    self.cursor = c - 1;
                }
                true
            },
            KeyCode::Delete => {
                if c < n {
                    let head = String::from_str(self.value.as_str().substring_char(0, c));
                    let joined = head.concat(self.value.as_str().substring_char(c + 1, n));
                    self.value = joined;
                }
                true
            },
            KeyCode::Left => {
                if c > 0 {
                    self.cursor = c - 1;
                }
                true
            },
            KeyCode::Right => {
                if c < n {
                    self.cursor = c + 1;
                }
                true
            },
            KeyCode::Home => {
                self.cursor = 0;
                true
            },
            KeyCode::End => {
                self.cursor = n;
                true
            },
            _ => false,
        }
    }

    fn word_start_before_cursor(&self) -> (r: usize)
        requires
            self.wf(),
        ensures
            r == word_start(self.value@, self.cursor as int),
            r <= self.cursor,
    {
        let mut k: usize = self.cursor;
        while k > 0 && !is_white_space_char(self.value.as_str().get_char(k - 1))
            invariant
                k <= self.cursor <= self.value@.len(),
                word_start(self.value@, k as int) == word_start(self.value@, self.cursor as int),
            decreases k,
        {
            k = k - 1;
        }
        k
    }

    pub fn clear(&mut self)
        ensures
            final(self).wf(),
            final(self).value@ == Seq::<char>::empty(),
            final(self).cursor == 0,
            final(self).placeholder == old(self).placeholder,
    {
        self.value = String::new();
        self.cursor = 0;
    }

    pub fn is_empty(&self) -> (r: bool)
        ensures
            r == (self.value@.len() == 0),
    {
        self.value.as_str().unicode_len() == 0
    }
}

impl Default for TextInput {
    fn default() -> (r: Self)
        ensures
            r.wf(),
            r.value@ == Seq::<char>::empty(),
            r.cursor == 0,
            r.placeholder@ == Seq::<char>::empty(),
    {
        TextInput::new()
    }
}

/// Position of the first option whose text is `v`, if any.
pub open spec fn first_option_index(options: Seq<String>, v: Seq<char>) -> Option<int> {
    if exists|i: int| 0 <= i < options.len() && #[trigger] options[i]@ == v {
        Some(choose|i: int| 0 <= i < options.len() && #[trigger] options[i]@ == v && forall|j: int| 0 <= j < i ==> #[trigger] options[j]@ != v)
    } else {
        None
    }
}

/// Choice of one option from a list.
#[derive(Debug, Clone)]
pub struct Selector {
    pub options: Vec<String>,
    pub selected: usize,
}

impl Selector {
    /// The selection points at an option, or the list is empty.
    pub open spec fn wf(&self) -> bool {
        self.options@.len() == 0 || self.selected < self.options@.len()
    }

    /// The text of the selected option, if there is one.
    pub open spec fn selected_text(&self) -> Option<Seq<char>> {
        if self.selected < self.options@.len() {
            Some(self.options@[self.selected as int]@)
        } else {
            None
        }
    }

    pub fn new(options: Vec<String>) -> (r: Self)
        ensures
            r.wf(),
            r.options@ == options@,
            r.selected == 0,
    {
        Selector { options, selected: 0 }
    }

    /// Selects the first option equal to `value`; keeps the selection when
    /// there is none.
    pub fn select_by_value(&mut self, value: &str)
        requires
            old(self).wf(),
        ensures
            final(self).wf(),
            final(self).options == old(self).options,
            final(self).selected == (match first_option_index(old(self).options@, value@) {
                Some(i) => i as usize,
                None => old(self).selected,
            }),
    {
        let mut i: usize = 0;
        while i < self.options.len()
            invariant
                i <= self.options@.len(),
                self.options == old(self).options,
                self.selected == old(self).selected,
                self.wf(),
                forall|j: int| 0 <= j < i ==> #[trigger] self.options@[j]@ != value@,
            decreases self.options@.len() - i,
        {
            if crate::text::same_text(self.options[i].as_str(), value) {
                proof {
                    let ghost w = i as int;
                    assert(0 <= w < self.options@.len() && self.options@[w]@ == value@);
                    let c = choose|k: int| 0 <= k < self.options@.len() && #[trigger] self.options@[k]@ == value@ && forall|j: int| 0 <= j < k ==> #[trigger] self.options@[j]@ != value@;
                    assert(c == w) by {
                        if c < w {
                            assert(self.options@[c]@ != value@);
                        } else if c > w {
                            assert(self.options@[w]@ != value@);
                        }
                    }
                }
                self.selected = i;
                return;
            }
            i = i + 1;
        }
    }

    pub fn next(&mut self)
        requires
            old(self).wf(),
        ensures
            final(self).wf(),
            final(self).options == old(self).options,
            final(self).selected == (if old(self).options@.len() == 0 {
                old(self).selected
            } else {
                ((old(self).selected + 1) % old(self).options@.len() as int) as usize
            }),
    {
        if self.options.len() > 0 {
            self.selected = (self.selected + 1) % self.options.len();
        }
    }

    pub fn previous(&mut self)
        requires
            old(self).wf(),
        ensures
            final(self).wf(),
            final(self).options == old(self).options,
            final(self).selected == (if old(self).options@.len() == 0 {
                old(self).selected
            } else if old(self).selected == 0 {
                (old(self).options@.len() - 1) as usize
            } else {
                (old(self).selected - 1) as usize
            }),
    {
        if self.options.len() > 0 {
            if self.selected == 0 {
                self.selected = self.options.len() - 1;
            } else {
                self.selected = self.selected - 1;
            }
        }
    }

    pub fn selected_value(&self) -> (r: Option<&str>)
        ensures
            r is Some <==> self.selected_text() is Some,
            r matches Some(v) ==> self.selected_text() == Some(v@),
    {
        if self.selected < self.options.len() {
            Some(self.options[self.selected].as_str())
        } else {
            None
        }
    }

    /// Left or `h` moves back; Right, `l`, Enter or space moves on.
    pub fn handle_key(&mut self, key: Key) -> (r: bool)
        requires
            old(self).wf(),
        ensures
            final(self).wf(),
            final(self).options == old(self).options,
            r == (moves_back(key) || moves_on(key)),
            final(self).selected == selection_after_key(*old(self), key),
    {
        match key.code {
            KeyCode::Left => {
                self.previous();
                true
            },
            KeyCode::Char('h') => {
                self.previous();
                true
            },
            KeyCode::Right | KeyCode::Enter => {
                self.next();
                true
            },
            KeyCode::Char('l') | KeyCode::Char(' ') => {
                self.next();
                true
            },
            _ => false,
        }
    }

    pub fn is_empty(&self) -> (r: bool)
        ensures
            r == (self.options@.len() == 0),
    {
        self.options.len() == 0
    }

    pub fn len(&self) -> (r: usize)
        ensures
            r == self.options@.len(),
    {
        self.options.len()
    }
}

impl Default for Selector {
    fn default() -> (r: Self)
        ensures
            r.wf(),
            r.options@.len() == 0,
            r.selected == 0,
    {
        Selector::new(Vec::new())
    }
}

/// A yes/no switch.
#[derive(Debug, Clone)]
pub struct Toggle {
    pub value: bool,
    pub label: String,
}

impl Toggle {
    pub fn new(label: &str) -> (r: Self)
        ensures
            r.value == false,
            r.label@ == label@,
    {
        Toggle { value: false, label: String::from_str(label) }
    }

    pub fn with_value(self, value: bool) -> (r: Self)
        ensures
            r.value == value,
            r.label == self.label,
    {
        Toggle { value, ..self }
    }

    pub fn toggle(&mut self)
        ensures
            final(self).value == !old(self).value,
            final(self).label == old(self).label,
    {
        self.value = !self.value;
    }

    /// Space or Enter flips the switch.
    pub fn handle_key(&mut self, key: Key) -> (r: bool)
        ensures
            r == (key.code == KeyCode::Enter || key.code == KeyCode::Char(' ')),
            final(self).value == (if r { !old(self).value } else { old(self).value }),
            final(self).label == old(self).label,
    {
        match key.code {
            KeyCode::Char(' ') | KeyCode::Enter => {
                self.toggle();
                true
            },
            _ => false,
        }
    }

    pub fn display(&self) -> (r: &'static str)
        ensures
            r@ == (if self.value { "[x]"@ } else { "[ ]"@ }),
    {
        if self.value {
            "[x]"
        } else {
            "[ ]"
        }
    }
}

impl Default for Toggle {
    fn default() -> (r: Self)
        ensures
            r.value == false,
            r.label@ == Seq::<char>::empty(),
    {
        Toggle { value: false, label: String::new() }
    }
}

/// A yes/no prompt; `selected` is true when "confirm" is chosen.
pub struct ConfirmDialog {
    pub title: String,
    pub message: String,
    pub confirm_label: String,
    pub cancel_label: String,
    pub selected: bool,
}

impl ConfirmDialog {
    /// A prompt with "Yes"/"No" labels, starting on "No".
    pub fn new(title: &str, message: &str) -> (r: Self)
        ensures
            r.title@ == title@,
            r.message@ == message@,
            r.confirm_label@ == "Yes"@,
            r.cancel_label@ == "No"@,
            r.selected == false,
    {
        ConfirmDialog {
            title: String::from_str(title),
            message: String::from_str(message),
            confirm_label: String::from_str("Yes"),
            cancel_label: String::from_str("No"),
            selected: false,
        }
    }

    pub fn with_labels(self, confirm: &str, cancel: &str) -> (r: Self)
        ensures
            r.title == self.title,
            r.message == self.message,
            r.confirm_label@ == confirm@,
            r.cancel_label@ == cancel@,
            r.selected == self.selected,
    {
        ConfirmDialog {
            confirm_label: String::from_str(confirm),
            cancel_label: String::from_str(cancel),
            ..self
        }
    }

    pub fn toggle(&mut self)
        ensures
            *final(self) == (ConfirmDialog { selected: !old(self).selected, ..*old(self) }),
    {
        self.selected = !self.selected;
    }

    pub fn select_confirm(&mut self)
        ensures
            *final(self) == (ConfirmDialog { selected: true, ..*old(self) }),
    {
        self.selected = true;
    }

    pub fn select_cancel(&mut self)
        ensures
            *final(self) == (ConfirmDialog { selected: false, ..*old(self) }),
    {
        self.selected = false;
    }

    pub fn is_confirmed(&self) -> (r: bool)
        ensures
            r == self.selected,
    {
        self.selected
    }
}

} // verus!
