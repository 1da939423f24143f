//! The state that the engine keeps for one document: the modes and terms of
//! the three bars, the keys that are held down, and the selection.

use crate::enums::{FindBarState, GoToState, ReplaceBarState};
use vstd::prelude::*;

verus! {

/// What a [`StateManager`] holds.
pub struct StateModel {
    pub find_state: FindBarState,
    pub is_find_open: bool,
    pub find_val: Seq<char>,
    pub replace_state: ReplaceBarState,
    pub is_replace_open: bool,
    pub is_replace_active: bool,
    pub replace_val: Seq<char>,
    pub goto_state: GoToState,
    pub is_goto_open: bool,
    pub goto_val: Seq<char>,
}

impl StateModel {
    /// The rules that hold between the bars: Find and Replace are never
    /// active together, a bar is active only while it is open, and the
    /// Replace bar is open only while the Find bar is.
    pub open spec fn well_formed(self) -> bool {
        &&& !(self.find_state is Finding && self.replace_state is Replacing)
        &&& (self.find_state is Finding ==> self.is_find_open)
        &&& (self.replace_state is Replacing ==> self.is_replace_open)
        &&& (self.goto_state is GoingTo ==> self.is_goto_open)
        &&& (self.is_replace_open ==> self.is_find_open)
    }

    /// All bars closed and idle, all terms empty.
    pub open spec fn initial() -> StateModel {
        StateModel {
            find_state: FindBarState::NotFocused,
            is_find_open: false,
            find_val: Seq::empty(),
            replace_state: ReplaceBarState::NotFocused,
            is_replace_open: false,
            is_replace_active: false,
            replace_val: Seq::empty(),
            goto_state: GoToState::NotFocused,
            is_goto_open: false,
            goto_val: Seq::empty(),
        }
    }
}

/// Modes, open flags and terms of the Find, Replace and Go-To bars, and the
/// flag that arms one replace step.
pub struct StateManager {
    find_state: FindBarState,
    is_find_open: bool,
    pub find_val: String,
    replace_state: ReplaceBarState,
    is_replace_open: bool,
    is_replace_active: bool,
    pub replace_val: String,
    goto_state: GoToState,
    is_goto_open: bool,
    pub goto_val: String,
}

impl View for StateManager {
    type V = StateModel;

    closed spec fn view(&self) -> StateModel {
        StateModel {
            find_state: self.find_state,
            is_find_open: self.is_find_open,
            find_val: self.find_val@,
            replace_state: self.replace_state,
            is_replace_open: self.is_replace_open,
            is_replace_active: self.is_replace_active,
            replace_val: self.replace_val@,
            goto_state: self.goto_state,
            is_goto_open: self.is_goto_open,
            goto_val: self.goto_val@,
        }
    }
}

impl StateManager {
    /// All bars closed and idle, all terms empty.
    pub fn new() -> (r: Self)
        ensures
            r@ == StateModel::initial(),
            r@.well_formed(),
    {
        StateManager {
            find_state: FindBarState::NotFocused,
            is_find_open: false,
            find_val: String::new(),
            replace_state: ReplaceBarState::NotFocused,
            is_replace_open: false,
            is_replace_active: false,
            replace_val: String::new(),
            goto_state: GoToState::NotFocused,
            is_goto_open: false,
            goto_val: String::new(),
        }
    }

    /// The mode of the Find bar.
    pub fn get_find_state(&self) -> (r: FindBarState)
        ensures
            r == self@.find_state,
    {
        self.find_state.clone()
    }

    /// Writes the mode of the Find bar and nothing else.
    pub fn set_find_state(&mut self, find_state: FindBarState)
        ensures
            final(self)@ == (StateModel { find_state, ..old(self)@ }),
    {
        match find_state {
            FindBarState::Finding => {
                self.find_state = FindBarState::Finding;
            },
            FindBarState::Focused => {
                self.find_state = FindBarState::Focused;
            },
            FindBarState::NotFocused => {
                self.find_state = FindBarState::NotFocused;
            },
        }
    }

    /// Whether the Find bar is open.
    pub fn get_is_find_open(&self) -> (r: bool)
        ensures
            r == self@.is_find_open,
    {
        self.is_find_open
    }

    /// Writes whether the Find bar is open and nothing else.
    pub fn set_is_find_open(&mut self, is_find_open: bool)
        ensures
            final(self)@ == (StateModel { is_find_open, ..old(self)@ }),
    {
        self.is_find_open = is_find_open;
    }

    /// The search term.
    pub fn get_find_val(&self) -> (r: String)
        ensures
            r@ == self@.find_val,
    {
        self.find_val.clone()
    }

    /// Writes the search term and nothing else.
    pub fn set_find_val(&mut self, find_val: String)
        ensures
            final(self)@ == (StateModel { find_val: find_val@, ..old(self)@ }),
    {
        self.find_val = find_val;
    }

    /// The mode of the Replace bar.
    pub fn get_replace_state(&self) -> (r: ReplaceBarState)
        ensures
            r == self@.replace_state,
    {
        self.replace_state.clone()
    }

    /// Writes the mode of the Replace bar and nothing else.
    pub fn set_replace_state(&mut self, replace_state: ReplaceBarState)
        ensures
            final(self)@ == (StateModel { replace_state, ..old(self)@ }),
    {
        match replace_state {
            ReplaceBarState::Replacing => {
                self.replace_state = ReplaceBarState::Replacing;
            },
            ReplaceBarState::Focused => {
                self.replace_state = ReplaceBarState::Focused;
            },
            ReplaceBarState::NotFocused => {
                self.replace_state = ReplaceBarState::NotFocused;
            },
        }
    }

    /// Whether the Replace bar is open.
    pub fn get_is_replace_open(&self) -> (r: bool)
        ensures
            r == self@.is_replace_open,
    {
        self.is_replace_open
    }

    /// Writes whether the Replace bar is open and nothing else.
    pub fn set_is_replace_open(&mut self, is_replace_open: bool)
        ensures
            final(self)@ == (StateModel { is_replace_open, ..old(self)@ }),
    {
        self.is_replace_open = is_replace_open;
    }

    /// Whether a replace step is armed.
    pub fn get_is_replace_active(&self) -> (r: bool)
        ensures
            r == self@.is_replace_active,
    {
        self.is_replace_active
    }

    /// Arms or disarms the replace step and writes nothing else.
    pub fn set_is_replace_active(&mut self, is_replace_active: bool)
        ensures
            final(self)@ == (StateModel { is_replace_active, ..old(self)@ }),
    {
        self.is_replace_active = is_replace_active;
    }

    /// The replacement term.
    pub fn get_replace_val(&self) -> (r: String)
        ensures
            r@ == self@.replace_val,
    {
        self.replace_val.clone()
    }

    /// Writes the replacement term and nothing else.
    pub fn set_replace_val(&mut self, replace_val: String)
        ensures
            final(self)@ == (StateModel { replace_val: replace_val@, ..old(self)@ }),
    {
        self.replace_val = replace_val;
    }

    /// The mode of the Go-To bar.
    pub fn get_goto_state(&self) -> (r: GoToState)
        ensures
            r == self@.goto_state,
    {
        self.goto_state.clone()
    }

    /// Writes the mode of the Go-To bar and nothing else.
    pub fn set_goto_state(&mut self, goto_state: GoToState)
        ensures
            final(self)@ == (StateModel { goto_state, ..old(self)@ }),
    {
        match goto_state {
            GoToState::GoingTo => {
                self.goto_state = GoToState::GoingTo;
            },
            GoToState::Focused => {
                self.goto_state = GoToState::Focused;
            },
            GoToState::NotFocused => {
                self.goto_state = GoToState::NotFocused;
            },
        }
    }

    /// Whether the Go-To bar is open.
    pub fn get_is_goto_open(&self) -> (r: bool)
        ensures
            r == self@.is_goto_open,
    {
        self.is_goto_open
    }

    /// Writes whether the Go-To bar is open and nothing else.
    pub fn set_is_goto_open(&mut self, is_goto_open: bool)
        ensures
            final(self)@ == (StateModel { is_goto_open, ..old(self)@ }),
    {
        self.is_goto_open = is_goto_open;
    }

    /// The term of the Go-To bar.
    pub fn get_goto_val(&self) -> (r: String)
        ensures
            r@ == self@.goto_val,
    {
        self.goto_val.clone()
    }

    /// Writes the term of the Go-To bar and nothing else.
    pub fn set_goto_val(&mut self, goto_val: String)
        ensures
            final(self)@ == (StateModel { goto_val: goto_val@, ..old(self)@ }),
    {
        self.goto_val = goto_val;
    }
}

/// A selection: two offsets into a text.
pub struct Selection {
    pub start: int,
    pub end: int,
}

impl Selection {
    /// The selection is in order and lies inside a text of `len` bytes.
    pub open spec fn within(self, len: int) -> bool {
        0 <= self.start <= self.end <= len
    }

    /// The offsets `a` and `b`, each cut down to `len`, lower one first.
    pub open spec fn clamped(a: int, b: int, len: int) -> Selection {
        let a = if a <= len {
            a
        } else {
            len
        };
        let b = if b <= len {
            b
        } else {
            len
        };
        if a <= b {
            Selection { start: a, end: b }
        } else {
            Selection { start: b, end: a }
        }
    }
}

/// Offsets that are not negative come out of [`Selection::clamped`] in order
/// and inside the text, and a selection that was so comes out unchanged.
pub proof fn lemma_clamped(a: int, b: int, len: int)
    requires
        0 <= a,
        0 <= b,
        0 <= len,
    ensures
        Selection::clamped(a, b, len).within(len),
        (Selection { start: a, end: b }).within(len) ==> Selection::clamped(a, b, len) == (Selection {
            start: a,
            end: b,
        }),
{
}

/// The current selection.
pub struct CursorIndexManager {
    start_idx: usize,
    end_idx: usize,
}

impl View for CursorIndexManager {
    type V = Selection;

    closed spec fn view(&self) -> Selection {
        Selection { start: self.start_idx as int, end: self.end_idx as int }
    }
}

impl CursorIndexManager {
    /// The selection is in order. This holds of every value of the type.
    #[verifier::type_invariant]
    spec fn in_order(self) -> bool {
        self.start_idx <= self.end_idx
    }

    /// The empty selection at the start of the text.
    pub fn new() -> (r: Self)
        ensures
            r@ == (Selection { start: 0, end: 0 }),
    {
        CursorIndexManager { start_idx: 0, end_idx: 0 }
    }

    /// The offset at which the selection starts. It never lies behind the
    /// end.
    pub fn get_start_idx(&self) -> (r: usize)
        ensures
            r == self@.start,
            self@.start <= self@.end,
    {
        proof {
            use_type_invariant(self);
        }
        self.start_idx
    }

    /// Moves the start of the selection to `start_idx` and leaves the end
    /// where it is. An offset behind the end is cut down to the end, so that
    /// the selection stays in order.
    pub fn set_start_idx(&mut self, start_idx: usize)
        ensures
            final(self)@.end == old(self)@.end,
            final(self)@.start == if start_idx <= old(self)@.end {
                start_idx as int
            } else {
                old(self)@.end
            },
            final(self)@.start <= final(self)@.end,
    {
        if start_idx <= self.end_idx {
            self.start_idx = start_idx;
        } else {
            self.start_idx = self.end_idx;
        }
    }

    /// The offset at which the selection ends. It never lies before the
    /// start.
    pub fn get_end_idx(&self) -> (r: usize)
        ensures
            r == self@.end,
            self@.start <= self@.end,
    {
        proof {
            use_type_invariant(self);
        }
        self.end_idx
    }

    /// Moves the end of the selection to `end_idx` and leaves the start where
    /// it is. An offset before the start is raised to the start, so that the
    /// selection stays in order.
    pub fn set_end_idx(&mut self, end_idx: usize)
        ensures
            final(self)@.start == old(self)@.start,
            final(self)@.end == if end_idx >= old(self)@.start {
                end_idx as int
            } else {
                old(self)@.start
            },
            final(self)@.start <= final(self)@.end,
    {
        if end_idx >= self.start_idx {
            self.end_idx = end_idx;
        } else {
            self.end_idx = self.start_idx;
        }
    }

    /// Selects from `start` to `end` in a text of `len` bytes. An offset past
    /// the end of the text is cut down to it, and the two are put in order.
    pub fn set(&mut self, start: usize, end: usize, len: usize)
        ensures
            final(self)@ == Selection::clamped(start as int, end as int, len as int),
            final(self)@.within(len as int),
    {
        let a: usize = if start <= len {
            start
        } else {
            len
        };
        let b: usize = if end <= len {
            end
        } else {
            len
        };
        if a <= b {
            *self = CursorIndexManager { start_idx: a, end_idx: b };
        } else {
            *self = CursorIndexManager { start_idx: b, end_idx: a };
        }
    }

    /// Puts both ends of the selection at `offset`, cut down to `len`.
    pub fn collapse_to(&mut self, offset: usize, len: usize)
        ensures
            final(self)@ == Selection::clamped(offset as int, offset as int, len as int),
            final(self)@.within(len as int),
    {
        self.set(offset, offset, len);
    }

    /// Selects a match of `term_len` bytes at `match_offset` in a text of
    /// `len` bytes.
    pub fn on_match(&mut self, match_offset: usize, term_len: usize, len: usize)
        ensures
            final(self)@ == Selection::clamped(
                match_offset as int,
                match_offset + term_len,
                len as int,
            ),
            final(self)@.within(len as int),
    {
        let end: usize = if match_offset <= len && term_len <= len - match_offset {
            match_offset + term_len
        } else {
            len
        };
        self.set(match_offset, end, len);
    }

    /// Selects the whole of a text of `len` bytes.
    pub fn select_all(&mut self, len: usize)
        ensures
            final(self)@ == (Selection { start: 0, end: len as int }),
            final(self)@.within(len as int),
    {
        self.set(0, len, len);
    }
}

/// A key that the engine tells apart.
#[derive(Clone, Copy, Debug, PartialEq, Eq, Structural)]
pub enum Key {
    F,
    R,
    Enter,
    Other,
}

/// The modifier keys that are down while a key is pressed or released.
#[derive(Clone, Copy, Debug, PartialEq, Eq, Structural)]
pub struct Modifiers {
    pub alt: bool,
    pub ctrl: bool,
    pub shift: bool,
}

impl Modifiers {
    /// Control alone.
    pub open spec fn control() -> Modifiers {
        Modifiers { alt: false, ctrl: true, shift: false }
    }

    /// Control alone.
    pub fn ctrl_only() -> (r: Modifiers)
        ensures
            r == Modifiers::control(),
    {
        Modifiers { alt: false, ctrl: true, shift: false }
    }
}

/// One key going down or up, as the host reports it.
#[derive(Clone, Copy, Debug, PartialEq, Eq, Structural)]
pub struct KeyEvent {
    pub key: Key,
    pub pressed: bool,
    pub modifiers: Modifiers,
}

/// The keys and modifiers that are held down, in the order in which they
/// went down.
pub struct KeyManager {
    pub keys_pressed: Vec<Key>,
    pub modifiers_pressed: Vec<Modifiers>,
}

/// `keys` without every `key`.
pub open spec fn without_key(keys: Seq<Key>, key: Key) -> Seq<Key> {
    keys.filter(|k: Key| k != key)
}

/// `held` without every `modifiers`.
pub open spec fn without_modifiers(held: Seq<Modifiers>, modifiers: Modifiers) -> Seq<Modifiers> {
    held.filter(|m: Modifiers| m != modifiers)
}

impl KeyManager {
    /// Nothing held down.
    pub fn new() -> (r: Self)
        ensures
            r.keys_pressed@ == Seq::<Key>::empty(),
            r.modifiers_pressed@ == Seq::<Modifiers>::empty(),
    {
        KeyManager { keys_pressed: Vec::new(), modifiers_pressed: Vec::new() }
    }

    /// Whether `key` is held down.
    pub fn holds_key(&self, key: Key) -> (r: bool)
        ensures
            r == self.keys_pressed@.contains(key),
    {
        let n: usize = self.keys_pressed.len();
        let mut i: usize = 0;
        while i < n
            invariant
                n == self.keys_pressed@.len(),
                0 <= i <= n,
                forall|k: int| 0 <= k < i ==> self.keys_pressed@[k] != key,
            decreases n - i,
        {
            if self.keys_pressed[i] == key {
                return true;
            }
            i = i + 1;
        }
        false
    }

    /// Whether exactly `modifiers` are held down.
    pub fn holds_modifiers(&self, modifiers: Modifiers) -> (r: bool)
        ensures
            r == self.modifiers_pressed@.contains(modifiers),
    {
        let n: usize = self.modifiers_pressed.len();
        let mut i: usize = 0;
        while i < n
            invariant
                n == self.modifiers_pressed@.len(),
                0 <= i <= n,
                forall|k: int| 0 <= k < i ==> self.modifiers_pressed@[k] != modifiers,
            decreases n - i,
        {
            if self.modifiers_pressed[i] == modifiers {
                return true;
            }
            i = i + 1;
        }
        false
    }

    /// Notes that `key` went down.
    pub fn press_key(&mut self, key: Key)
        ensures
            final(self).keys_pressed@ == old(self).keys_pressed@.push(key),
            final(self).modifiers_pressed == old(self).modifiers_pressed,
    {
        self.keys_pressed.push(key);
    }

    /// Notes that `key` went up: it is held no more.
    pub fn release_key(&mut self, key: Key)
        ensures
            final(self).keys_pressed@ == without_key(old(self).keys_pressed@, key),
            final(self).modifiers_pressed == old(self).modifiers_pressed,
    {
        let n: usize = self.keys_pressed.len();
        let mut kept: Vec<Key> = Vec::new();
        let mut i: usize = 0;
        proof {
            reveal(Seq::filter);
            assert(self.keys_pressed@.subrange(0, 0) =~= Seq::<Key>::empty());
        }
        while i < n
            invariant
                n == self.keys_pressed@.len(),
                0 <= i <= n,
                kept@ == without_key(self.keys_pressed@.subrange(0, i as int), key),
            decreases n - i,
        {
            proof {
                reveal(Seq::filter);
                assert(self.keys_pressed@.subrange(0, i + 1).drop_last()
                    =~= self.keys_pressed@.subrange(0, i as int));
            }
            if self.keys_pressed[i] != key {
                kept.push(self.keys_pressed[i]);
            }
            i = i + 1;
        }
        proof {
            assert(self.keys_pressed@.subrange(0, n as int) =~= self.keys_pressed@);
        }
        self.keys_pressed = kept;
    }

    /// Notes that a key went down while `modifiers` were held.
    pub fn press_modifiers(&mut self, modifiers: Modifiers)
        ensures
            final(self).modifiers_pressed@ == old(self).modifiers_pressed@.push(modifiers),
            final(self).keys_pressed == old(self).keys_pressed,
    {
        self.modifiers_pressed.push(modifiers);
    }

    /// Notes that `modifiers` are held no more.
    pub fn release_modifiers(&mut self, modifiers: Modifiers)
        ensures
            final(self).modifiers_pressed@ == without_modifiers(
                old(self).modifiers_pressed@,
                modifiers,
            ),
            final(self).keys_pressed == old(self).keys_pressed,
    {
        let n: usize = self.modifiers_pressed.len();
        let mut kept: Vec<Modifiers> = Vec::new();
        let mut i: usize = 0;
        proof {
            reveal(Seq::filter);
            assert(self.modifiers_pressed@.subrange(0, 0) =~= Seq::<Modifiers>::empty());
        }
        while i < n
            invariant
                n == self.modifiers_pressed@.len(),
                0 <= i <= n,
                kept@ == without_modifiers(self.modifiers_pressed@.subrange(0, i as int), modifiers),
            decreases n - i,
        {
            proof {
                reveal(Seq::filter);
                assert(self.modifiers_pressed@.subrange(0, i + 1).drop_last()
                    =~= self.modifiers_pressed@.subrange(0, i as int));
            }
            if self.modifiers_pressed[i] != modifiers {
                kept.push(self.modifiers_pressed[i]);
            }
            i = i + 1;
        }
        proof {
            assert(self.modifiers_pressed@.subrange(0, n as int) =~= self.modifiers_pressed@);
        }
        self.modifiers_pressed = kept;
    }
}

/// What a [`TextEditor`] holds.
pub struct EditorModel {
    pub state: StateModel,
    pub keys: Seq<Key>,
    pub modifiers: Seq<Modifiers>,
    pub selection: Selection,
}

impl EditorModel {
    /// The state after the shortcut of the Find bar: a closed bar opens if F
    /// and Control are held, and the bar is focused.
    pub open spec fn find_opened(self) -> EditorModel {
        EditorModel {
            state: StateModel {
                is_find_open: self.state.is_find_open || (self.keys.contains(Key::F)
                    && self.modifiers.contains(Modifiers::control())),
                find_state: FindBarState::Focused,
                ..self.state
            },
            ..self
        }
    }

    /// The state after the shortcut of the Replace bar: the Find bar is open
    /// and idle, a closed Replace bar opens if R and Control are held, and
    /// the Replace bar is focused.
    pub open spec fn replace_opened(self) -> EditorModel {
        EditorModel {
            state: StateModel {
                is_find_open: true,
                find_state: FindBarState::NotFocused,
                is_replace_open: self.state.is_replace_open || (self.keys.contains(Key::R)
                    && self.modifiers.contains(Modifiers::control())),
                replace_state: ReplaceBarState::Focused,
                ..self.state
            },
            ..self
        }
    }

    /// The state after the Go-To bar was called up: it is open and focused.
    pub open spec fn goto_opened(self) -> EditorModel {
        EditorModel {
            state: StateModel {
                is_goto_open: true,
                goto_state: GoToState::Focused,
                ..self.state
            },
            ..self
        }
    }

    /// The state after one key event. Control is noted as held or let go when
    /// the event carries it. F and R are noted as they go down and up, and
    /// going down they call up their bars.
    pub open spec fn after_key(self, event: KeyEvent) -> EditorModel {
        let noted = EditorModel {
            modifiers: if !event.modifiers.ctrl {
                self.modifiers
            } else if event.pressed {
                self.modifiers.push(Modifiers::control())
            } else {
                without_modifiers(self.modifiers, Modifiers::control())
            },
            ..self
        };
        match event.key {
            Key::F => if event.pressed {
                (EditorModel { keys: noted.keys.push(Key::F), ..noted }).find_opened()
            } else {
                EditorModel { keys: without_key(noted.keys, Key::F), ..noted }
            },
            Key::R => if event.pressed {
                (EditorModel { keys: noted.keys.push(Key::R), ..noted }).replace_opened()
            } else {
                EditorModel { keys: without_key(noted.keys, Key::R), ..noted }
            },
            _ => noted,
        }
    }

    /// The state after a run of key events.
    pub open spec fn after_keys(self, events: Seq<KeyEvent>) -> EditorModel
        decreases events.len(),
    {
        if events.len() == 0 {
            self
        } else {
            self.after_keys(events.drop_last()).after_key(events.last())
        }
    }

    /// The Find bar may be closed: neither it nor the Replace bar, which
    /// closes with it, is active.
    pub open spec fn find_closable(self) -> bool {
        !(self.state.find_state is Finding) && !(self.state.replace_state is Replacing)
    }

    /// The state after the Find bar was closed: the Find and Replace bars
    /// are closed and idle, and their terms are empty.
    pub open spec fn find_closed(self) -> EditorModel {
        EditorModel {
            state: StateModel {
                is_find_open: false,
                find_state: FindBarState::NotFocused,
                find_val: Seq::empty(),
                is_replace_open: false,
                replace_state: ReplaceBarState::NotFocused,
                replace_val: Seq::empty(),
                ..self.state
            },
            ..self
        }
    }

    /// The state after the Replace bar was closed: it is closed and idle,
    /// and its term is empty.
    pub open spec fn replace_closed(self) -> EditorModel {
        EditorModel {
            state: StateModel {
                is_replace_open: false,
                replace_state: ReplaceBarState::NotFocused,
                replace_val: Seq::empty(),
                ..self.state
            },
            ..self
        }
    }

    /// The state after the Go-To bar was closed: it is closed and idle, and
    /// its term is empty.
    pub open spec fn goto_closed(self) -> EditorModel {
        EditorModel {
            state: StateModel {
                is_goto_open: false,
                goto_state: GoToState::NotFocused,
                goto_val: Seq::empty(),
                ..self.state
            },
            ..self
        }
    }

    /// The same state with the Go-To bar in mode `goto_state`.
    pub open spec fn with_goto_state(self, goto_state: GoToState) -> EditorModel {
        EditorModel { state: StateModel { goto_state, ..self.state }, ..self }
    }

    /// The same state with the replace step armed or not.
    pub open spec fn with_replace_armed(self, is_replace_active: bool) -> EditorModel {
        EditorModel { state: StateModel { is_replace_active, ..self.state }, ..self }
    }

    /// The same state with another selection.
    pub open spec fn with_selection(self, selection: Selection) -> EditorModel {
        EditorModel { selection, ..self }
    }
}

/// Whether a run of key events leaves Enter pressed: what the last event of
/// the Enter key says, and `false` when there is none.
pub open spec fn enter_pressed(events: Seq<KeyEvent>) -> bool
    decreases events.len(),
{
    if events.len() == 0 {
        false
    } else if events.last().key is Enter {
        events.last().pressed
    } else {
        enter_pressed(events.drop_last())
    }
}

/// The engine's state for one document. Every open document has its own.
pub struct TextEditor {
    pub state_manager: StateManager,
    pub key_manager: KeyManager,
    pub cursor_index_manager: CursorIndexManager,
}

impl View for TextEditor {
    type V = EditorModel;

    open spec fn view(&self) -> EditorModel {
        EditorModel {
            state: self.state_manager@,
            keys: self.key_manager.keys_pressed@,
            modifiers: self.key_manager.modifiers_pressed@,
            selection: self.cursor_index_manager@,
        }
    }
}

impl TextEditor {
    /// The state of a document that was just opened: bars closed, nothing
    /// held down, nothing selected.
    pub fn new() -> (r: Self)
        ensures
            r@ == (EditorModel {
                state: StateModel::initial(),
                keys: Seq::empty(),
                modifiers: Seq::empty(),
                selection: Selection { start: 0, end: 0 },
            }),
            r@.state.well_formed(),
    {
        TextEditor {
            state_manager: StateManager::new(),
            key_manager: KeyManager::new(),
            cursor_index_manager: CursorIndexManager::new(),
        }
    }

    /// Reacts to the shortcut of the Find bar.
    pub fn set_find_open(&mut self)
        ensures
            final(self)@ == old(self)@.find_opened(),
            old(self)@.state.well_formed() ==> final(self)@.state.well_formed(),
            final(self)@.selection == old(self)@.selection,
    {
        if !self.state_manager.get_is_find_open() {
            let open = self.key_manager.holds_key(Key::F) && self.key_manager.holds_modifiers(
                Modifiers::ctrl_only(),
            );
            self.state_manager.set_is_find_open(open);
        }
        self.state_manager.set_find_state(FindBarState::Focused);
    }

    /// Reacts to the shortcut of the Replace bar. The Find bar opens with it.
    pub fn set_replace_open(&mut self)
        ensures
            final(self)@ == old(self)@.replace_opened(),
            final(self)@.state.is_find_open,
            old(self)@.state.well_formed() ==> final(self)@.state.well_formed(),
            final(self)@.selection == old(self)@.selection,
    {
        if !self.state_manager.get_is_find_open() {
            self.state_manager.set_is_find_open(true);
        }
        self.state_manager.set_find_state(FindBarState::NotFocused);
        if !self.state_manager.get_is_replace_open() {
            let open = self.key_manager.holds_key(Key::R) && self.key_manager.holds_modifiers(
                Modifiers::ctrl_only(),
            );
            self.state_manager.set_is_replace_open(open);
        }
        self.state_manager.set_replace_state(ReplaceBarState::Focused);
    }

    /// Calls up the Go-To bar.
    pub fn set_goto_open(&mut self)
        ensures
            final(self)@ == old(self)@.goto_opened(),
            old(self)@.state.well_formed() ==> final(self)@.state.well_formed(),
            final(self)@.selection == old(self)@.selection,
    {
        self.state_manager.set_is_goto_open(true);
        self.state_manager.set_goto_state(GoToState::Focused);
    }

    /// Takes in one key event.
    pub fn on_key(&mut self, event: KeyEvent)
        ensures
            final(self)@ == old(self)@.after_key(event),
            old(self)@.state.well_formed() ==> final(self)@.state.well_formed(),
            final(self)@.selection == old(self)@.selection,
    {
        if event.modifiers.ctrl {
            if event.pressed {
                self.key_manager.press_modifiers(Modifiers::ctrl_only());
            } else {
                self.key_manager.release_modifiers(Modifiers::ctrl_only());
            }
        }
        match event.key {
            Key::F => {
                if event.pressed {
                    self.key_manager.press_key(Key::F);
                    self.set_find_open();
                } else {
                    self.key_manager.release_key(Key::F);
                }
            },
            Key::R => {
                if event.pressed {
                    self.key_manager.press_key(Key::R);
                    self.set_replace_open();
                } else {
                    self.key_manager.release_key(Key::R);
                }
            },
            _ => {},
        }
    }

    /// Takes in the key events of one tick, in order, and says whether they
    /// leave Enter pressed.
    pub fn on_keys(&mut self, events: &Vec<KeyEvent>) -> (enter: bool)
        ensures
            final(self)@ == old(self)@.after_keys(events@),
            enter == enter_pressed(events@),
            old(self)@.state.well_formed() ==> final(self)@.state.well_formed(),
            final(self)@.selection == old(self)@.selection,
    {
        let n: usize = events.len();
        let mut enter = false;
        let mut i: usize = 0;
        proof {
            assert(events@.subrange(0, 0) =~= Seq::<KeyEvent>::empty());
        }
        while i < n
            invariant
                n == events@.len(),
                0 <= i <= n,
                self@ == old(self)@.after_keys(events@.subrange(0, i as int)),
                enter == enter_pressed(events@.subrange(0, i as int)),
                old(self)@.state.well_formed() ==> self@.state.well_formed(),
                self@.selection == old(self)@.selection,
            decreases n - i,
        {
            proof {
                assert(events@.subrange(0, i + 1).drop_last() =~= events@.subrange(0, i as int));
            }
            let event = events[i];
            self.on_key(event);
            match event.key {
                Key::Enter => {
                    enter = event.pressed;
                },
                _ => {},
            }
            i = i + 1;
        }
        proof {
            assert(events@.subrange(0, n as int) =~= events@);
        }
        enter
    }

    /// Closes the Find bar, and the Replace bar with it, and clears both
    /// terms. While either of the two is active the request is refused:
    /// nothing changes and the answer is `false`.
    pub fn close_find(&mut self) -> (closed: bool)
        ensures
            closed == old(self)@.find_closable(),
            final(self)@ == if closed {
                old(self)@.find_closed()
            } else {
                old(self)@
            },
            old(self)@.state.well_formed() ==> final(self)@.state.well_formed(),
            final(self)@.selection == old(self)@.selection,
    {
        if matches!(self.state_manager.get_find_state(), FindBarState::Finding) || matches!(
            self.state_manager.get_replace_state(),
            ReplaceBarState::Replacing
        ) {
            return false;
        }
        self.state_manager.set_is_find_open(false);
        self.state_manager.set_find_state(FindBarState::NotFocused);
        self.state_manager.set_find_val(String::new());
        self.state_manager.set_is_replace_open(false);
        self.state_manager.set_replace_state(ReplaceBarState::NotFocused);
        self.state_manager.set_replace_val(String::new());
        true
    }

    /// Closes the Replace bar and clears its term. While the bar is active
    /// the request is refused: nothing changes and the answer is `false`.
    pub fn close_replace(&mut self) -> (closed: bool)
        ensures
            closed == !(old(self)@.state.replace_state is Replacing),
            final(self)@ == if closed {
                old(self)@.replace_closed()
            } else {
                old(self)@
            },
            old(self)@.state.well_formed() ==> final(self)@.state.well_formed(),
            final(self)@.selection == old(self)@.selection,
    {
        if matches!(self.state_manager.get_replace_state(), ReplaceBarState::Replacing) {
            return false;
        }
        self.state_manager.set_is_replace_open(false);
        self.state_manager.set_replace_state(ReplaceBarState::NotFocused);
        self.state_manager.set_replace_val(String::new());
        true
    }

    /// Closes the Go-To bar and clears its term. While the bar is active the
    /// request is refused: nothing changes and the answer is `false`.
    pub fn close_goto(&mut self) -> (closed: bool)
        ensures
            closed == !(old(self)@.state.goto_state is GoingTo),
            final(self)@ == if closed {
                old(self)@.goto_closed()
            } else {
                old(self)@
            },
            old(self)@.state.well_formed() ==> final(self)@.state.well_formed(),
            final(self)@.selection == old(self)@.selection,
    {
        if matches!(self.state_manager.get_goto_state(), GoToState::GoingTo) {
            return false;
        }
        self.state_manager.set_is_goto_open(false);
        self.state_manager.set_goto_state(GoToState::NotFocused);
        self.state_manager.set_goto_val(String::new());
        true
    }

    /// The field of the Go-To bar gained the focus: the bar is focused.
    pub fn goto_focus_gained(&mut self)
        ensures
            final(self)@ == old(self)@.with_goto_state(GoToState::Focused),
            old(self)@.state.well_formed() ==> final(self)@.state.well_formed(),
            final(self)@.selection == old(self)@.selection,
    {
        self.state_manager.set_goto_state(GoToState::Focused);
    }

    /// The field of the Go-To bar lost the focus: the bar goes idle, unless
    /// it is active.
    pub fn goto_focus_lost(&mut self)
        ensures
            final(self)@ == if old(self)@.state.goto_state is GoingTo {
                old(self)@
            } else {
                old(self)@.with_goto_state(GoToState::NotFocused)
            },
            old(self)@.state.well_formed() ==> final(self)@.state.well_formed(),
            final(self)@.selection == old(self)@.selection,
    {
        if !matches!(self.state_manager.get_goto_state(), GoToState::GoingTo) {
            self.state_manager.set_goto_state(GoToState::NotFocused);
        }
    }

    /// Enter was pressed in the field of the Go-To bar: a bar that is open
    /// and focused becomes active. The answer says whether it did.
    pub fn goto_enter(&mut self) -> (activated: bool)
        ensures
            activated == (old(self)@.state.goto_state is Focused && old(self)@.state.is_goto_open),
            final(self)@ == if activated {
                old(self)@.with_goto_state(GoToState::GoingTo)
            } else {
                old(self)@
            },
            old(self)@.state.well_formed() ==> final(self)@.state.well_formed(),
            final(self)@.selection == old(self)@.selection,
    {
        if matches!(self.state_manager.get_goto_state(), GoToState::Focused)
            && self.state_manager.get_is_goto_open() {
            self.state_manager.set_goto_state(GoToState::GoingTo);
            true
        } else {
            false
        }
    }

    /// Arms one replace step, if the Replace bar is active. The answer says
    /// whether the step was armed.
    pub fn begin_replace_cycle(&mut self) -> (armed: bool)
        ensures
            armed == (old(self)@.state.replace_state is Replacing),
            final(self)@ == if armed {
                old(self)@.with_replace_armed(true)
            } else {
                old(self)@
            },
            old(self)@.state.well_formed() ==> final(self)@.state.well_formed(),
            final(self)@.selection == old(self)@.selection,
    {
        if matches!(self.state_manager.get_replace_state(), ReplaceBarState::Replacing) {
            self.state_manager.set_is_replace_active(true);
            true
        } else {
            false
        }
    }
}

} // verus!
