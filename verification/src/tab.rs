//! One open document, and the navigation controller that drives the search
//! through it: it reacts to what the host reports, moves the selection and
//! rewrites the text, and says what the host is to show.

use crate::editor::{EditorModel, Selection, StateModel, TextEditor};
use crate::encoding::{detect_encoding, detected_charset, examinable};
use crate::enums::{FindBarState, ReplaceBarState};
use crate::layout::{lemma_place_bounds, locate, Highlight, Placement};
use crate::search::{
    lemma_next_match_occurs, lemma_next_match_past_end, matches_at, occurs_at, prev_match,
    rfind_in,
};
use crate::text::{
    cut_range, is_char_range, lemma_encode_empty, lemma_match_boundaries, replace_all, replaced,
    same_text, splice,
};
use crate::utility::{
    get_line_ending_format, line_ending_format, locate_next, not_found_message, not_found_text,
    status_line, status_text,
};
use vstd::prelude::*;
use vstd::string::StringExecFns;
use vstd::utf8::encode_utf8;

verus! {

/// What a [`TextEditorTab`] holds.
pub struct TabModel {
    pub id: usize,
    pub file_path: Seq<char>,
    pub title: Seq<char>,
    pub text: Seq<char>,
    pub status: Seq<char>,
    pub language: Seq<char>,
    pub dirty: bool,
    pub is_refreshed: bool,
    pub is_finding: bool,
    pub is_replacing: bool,
    pub has_error: bool,
    pub error_msg: Seq<char>,
}

impl TabModel {
    /// The document's text as bytes. Offsets into the text count these.
    pub open spec fn bytes(self) -> Seq<u8> {
        encode_utf8(self.text)
    }

    /// The same document with the notice that `term` was not found.
    pub open spec fn with_not_found(self, term: Seq<char>) -> TabModel {
        TabModel { has_error: true, error_msg: not_found_text(term), ..self }
    }
}

/// One open document.
pub struct TextEditorTab {
    pub id: usize,
    pub file_path: String,
    pub title: String,
    pub text: String,
    pub status: String,
    pub language: String,
    pub dirty: bool,
    /// The text view is to take the focus at the next tick.
    pub is_refreshed: bool,
    /// The field of the Find bar has the focus.
    pub is_finding: bool,
    /// The field of the Replace bar has the focus.
    pub is_replacing: bool,
    pub has_error: bool,
    pub error_msg: String,
}

impl View for TextEditorTab {
    type V = TabModel;

    open spec fn view(&self) -> TabModel {
        TabModel {
            id: self.id,
            file_path: self.file_path@,
            title: self.title@,
            text: self.text@,
            status: self.status@,
            language: self.language@,
            dirty: self.dirty,
            is_refreshed: self.is_refreshed,
            is_finding: self.is_finding,
            is_replacing: self.is_replacing,
            has_error: self.has_error,
            error_msg: self.error_msg@,
        }
    }
}

/// The selection of `editor` lies inside the text of `tab`, in order.
pub open spec fn selection_in_bounds(tab: TabModel, editor: EditorModel) -> bool {
    editor.selection.within(tab.bytes().len() as int)
}

/// What the host is to do after a step of the controller.
#[derive(Clone, Copy, Debug, PartialEq, Eq, Structural)]
pub enum Effect {
    /// Nothing.
    Nothing,
    /// Show the match as selected and scroll its row into view.
    ScrollTo(Highlight),
    /// Show the document's error message until the user dismisses it.
    ShowError,
}

/// How one replace step ended.
#[derive(Clone, Copy, Debug, PartialEq, Eq, Structural)]
pub enum ReplaceCycle {
    /// A next match was found and selected.
    Continue(Highlight),
    /// No match is left.
    Exhausted,
}

/// What a press of Enter did.
#[derive(Clone, Copy, Debug, PartialEq, Eq, Structural)]
pub enum EnterOutcome {
    /// Nothing.
    Ignored,
    /// The Find bar became active.
    FindActivated,
    /// The Replace bar became active, and a replace step is armed.
    ReplaceActivated,
    /// The Find bar is active: the selection moved past the current match.
    Advanced,
    /// The Replace bar is active: a replace step is armed.
    ReplaceArmed,
}

impl EnterOutcome {
    /// Whether the host leaves the document undrawn for this tick: it does
    /// after a press of Enter that an active bar took.
    pub fn skips_frame(&self) -> (r: bool)
        ensures
            r == (*self is Advanced || *self is ReplaceArmed),
    {
        match self {
            EnterOutcome::Advanced => true,
            EnterOutcome::ReplaceArmed => true,
            _ => false,
        }
    }
}

/// What a press of Enter does in a given state.
///
/// An active Find bar advances. An active Replace bar, with the Find bar
/// idle, arms a step. Otherwise a bar becomes active if it is open and
/// focused and its field has the focus; the Find bar only while the field of
/// the Replace bar has not, and never beside an active Replace bar.
pub open spec fn enter_outcome(tab: TabModel, editor: EditorModel) -> EnterOutcome {
    let state = editor.state;
    if state.find_state is Finding {
        EnterOutcome::Advanced
    } else if state.find_state is NotFocused && state.replace_state is Replacing {
        EnterOutcome::ReplaceArmed
    } else if tab.is_finding && !tab.is_replacing && state.find_state is Focused
        && state.is_find_open && !(state.replace_state is Replacing) {
        EnterOutcome::FindActivated
    } else if tab.is_replacing && state.replace_state is Focused && state.is_replace_open {
        EnterOutcome::ReplaceActivated
    } else {
        EnterOutcome::Ignored
    }
}

/// The state of the engine after a press of Enter.
pub open spec fn after_enter(tab: TabModel, editor: EditorModel) -> EditorModel {
    match enter_outcome(tab, editor) {
        EnterOutcome::Advanced => {
            let past = editor.selection.start + encode_utf8(editor.state.find_val).len();
            editor.with_selection(Selection::clamped(past, past, tab.bytes().len() as int))
        },
        EnterOutcome::ReplaceArmed => editor.with_replace_armed(true),
        EnterOutcome::FindActivated => EditorModel {
            state: StateModel { find_state: FindBarState::Finding, ..editor.state },
            ..editor
        },
        EnterOutcome::ReplaceActivated => EditorModel {
            state: StateModel {
                replace_state: ReplaceBarState::Replacing,
                is_replace_active: true,
                ..editor.state
            },
            ..editor
        },
        EnterOutcome::Ignored => editor,
    }
}

/// The selection on a match of `term_len` bytes at `offset`.
pub open spec fn match_selection(offset: int, term_len: int) -> Selection {
    Selection { start: offset, end: offset + term_len }
}

/// What a find step looks for: the next match of the search term from the
/// start of the selection on, with wraparound.
pub open spec fn find_target(tab: TabModel, editor: EditorModel, width: int) -> Option<Placement> {
    locate(tab.bytes(), encode_utf8(editor.state.find_val), editor.selection.start, width)
}

/// A replace step rewrites the text: the selection starts past the start of
/// the text, on an occurrence of a search term that is not empty.
pub open spec fn replace_applies(tab: TabModel, editor: EditorModel) -> bool {
    &&& editor.selection.start > 0
    &&& editor.state.find_val.len() > 0
    &&& occurs_at(tab.bytes(), encode_utf8(editor.state.find_val), editor.selection.start)
}

/// `text` with the `len` bytes at `at` replaced by `with`.
pub open spec fn replaced_at(text: Seq<u8>, at: int, len: int, with: Seq<u8>) -> Seq<u8> {
    text.subrange(0, at) + with + text.subrange(at + len, text.len() as int)
}

/// The text after a replace step.
pub open spec fn text_after_replace(tab: TabModel, editor: EditorModel) -> Seq<u8> {
    if replace_applies(tab, editor) {
        replaced_at(
            tab.bytes(),
            editor.selection.start,
            encode_utf8(editor.state.find_val).len() as int,
            encode_utf8(editor.state.replace_val),
        )
    } else {
        tab.bytes()
    }
}

/// What a replace step looks for once the text is rewritten: the next match
/// of the search term from the place where the replacement ends.
pub open spec fn replace_target(tab: TabModel, editor: EditorModel, width: int) -> Option<
    Placement,
> {
    locate(
        text_after_replace(tab, editor),
        encode_utf8(editor.state.find_val),
        editor.selection.start + encode_utf8(editor.state.replace_val).len(),
        width,
    )
}

/// The old selection, cut down to a text of `len` bytes.
pub open spec fn kept_selection(editor: EditorModel, len: int) -> Selection {
    Selection::clamped(editor.selection.start, editor.selection.end, len)
}

/// The state of the engine with its selection cut down to the text of `tab`.
/// A selection that was in bounds stays as it is.
pub open spec fn settled(tab: TabModel, editor: EditorModel) -> EditorModel {
    editor.with_selection(kept_selection(editor, tab.bytes().len() as int))
}

/// A replace step is armed and the Replace bar is active.
pub open spec fn replace_armed(editor: EditorModel) -> bool {
    editor.state.replace_state is Replacing && editor.state.is_replace_active
}

/// What a find step does: from the state `tab`, `editor` it leads to the
/// state `tab_after`, `editor_after` and tells the host `effect`.
///
/// A match is selected, and the host is told to scroll to it. When there is
/// none, the selection stays, the document gets its error message, and the
/// host is told to show it.
pub open spec fn find_step_done(
    tab: TabModel,
    editor: EditorModel,
    width: int,
    effect: Effect,
    tab_after: TabModel,
    editor_after: EditorModel,
) -> bool {
    match find_target(tab, editor, width) {
        Some(place) => {
            &&& effect matches Effect::ScrollTo(shown) && shown.covers(
                place,
                encode_utf8(editor.state.find_val).len() as int,
            )
            &&& tab_after == tab
            &&& editor_after == editor.with_selection(
                match_selection(place.offset, encode_utf8(editor.state.find_val).len() as int),
            )
            &&& selection_in_bounds(tab_after, editor_after)
        },
        None => {
            &&& effect == Effect::ShowError
            &&& tab_after == tab.with_not_found(editor.state.find_val)
            &&& editor_after == editor
        },
    }
}

/// What a replace step does: from the state `tab`, `editor` it leads to the
/// state `tab_after`, `editor_after` and ends as `cycle` says.
///
/// Without an armed step nothing happens. Otherwise the step is used up, the
/// text is rewritten, and the next match is looked for in the new text. A
/// match is selected. When there is none, the document gets its error
/// message, and the selection stays, cut down to the new text.
pub open spec fn replace_step_done(
    tab: TabModel,
    editor: EditorModel,
    width: int,
    cycle: Option<ReplaceCycle>,
    tab_after: TabModel,
    editor_after: EditorModel,
) -> bool {
    if !replace_armed(editor) {
        cycle is None && tab_after == tab && editor_after == editor
    } else {
        &&& tab_after.bytes() == text_after_replace(tab, editor)
        &&& match replace_target(tab, editor, width) {
            Some(place) => {
                &&& cycle matches Some(ReplaceCycle::Continue(shown)) && shown.covers(
                    place,
                    encode_utf8(editor.state.find_val).len() as int,
                )
                &&& tab_after == (TabModel { text: tab_after.text, ..tab })
                &&& editor_after == editor.with_replace_armed(false).with_selection(
                    match_selection(place.offset, encode_utf8(editor.state.find_val).len() as int),
                )
            },
            None => {
                &&& cycle == Some(ReplaceCycle::Exhausted)
                &&& tab_after == (TabModel { text: tab_after.text, ..tab }).with_not_found(
                    editor.state.find_val,
                )
                &&& editor_after == editor.with_replace_armed(false).with_selection(
                    kept_selection(editor, tab_after.bytes().len() as int),
                )
            },
        }
    }
}

/// What one tick of the controller does.
#[derive(Clone, Copy, Debug, PartialEq, Eq, Structural)]
pub enum TickAction {
    /// Nothing.
    Idle,
    /// A find step.
    Find,
    /// A replace step, if one is armed.
    Replace,
    /// It takes over the selection that the user made by hand.
    Track,
}

/// What a tick does in a given state. `has_markers` says whether the host
/// reports a selection in the text view; without one a tick does nothing.
///
/// An active Find bar searches. With the Find bar idle, an active Replace bar
/// replaces, and the selection made by hand is taken over while the Replace
/// bar is closed or idle.
pub open spec fn tick_action(editor: EditorModel, has_markers: bool) -> TickAction {
    let state = editor.state;
    if !has_markers {
        TickAction::Idle
    } else {
        match state.find_state {
            FindBarState::Finding => TickAction::Find,
            FindBarState::Focused => TickAction::Idle,
            FindBarState::NotFocused => if !state.is_replace_open {
                TickAction::Track
            } else {
                match state.replace_state {
                    ReplaceBarState::Replacing => TickAction::Replace,
                    ReplaceBarState::NotFocused => TickAction::Track,
                    ReplaceBarState::Focused => TickAction::Idle,
                }
            },
        }
    }
}

impl TickAction {
    /// Whether the tick looks for a match, and so needs a wrap width.
    pub fn searches(&self) -> (r: bool)
        ensures
            r == (*self is Find || *self is Replace),
    {
        match self {
            TickAction::Find => true,
            TickAction::Replace => true,
            _ => false,
        }
    }

    /// Chooses what a tick does in the state of `editor`.
    pub fn pick(editor: &TextEditor, has_markers: bool) -> (r: TickAction)
        ensures
            r == tick_action(editor@, has_markers),
    {
        if !has_markers {
            return TickAction::Idle;
        }
        match editor.state_manager.get_find_state() {
            FindBarState::Finding => TickAction::Find,
            FindBarState::Focused => TickAction::Idle,
            FindBarState::NotFocused => {
                if !editor.state_manager.get_is_replace_open() {
                    TickAction::Track
                } else {
                    match editor.state_manager.get_replace_state() {
                        ReplaceBarState::Replacing => TickAction::Replace,
                        ReplaceBarState::NotFocused => TickAction::Track,
                        ReplaceBarState::Focused => TickAction::Idle,
                    }
                }
            },
        }
    }
}

/// What the host is told after a replace step.
pub open spec fn cycle_effect(cycle: Option<ReplaceCycle>) -> Effect {
    match cycle {
        Some(ReplaceCycle::Continue(shown)) => Effect::ScrollTo(shown),
        Some(ReplaceCycle::Exhausted) => Effect::ShowError,
        None => Effect::Nothing,
    }
}

/// The state after a selection made by hand, with the markers `primary` and
/// `secondary`, was taken over.
pub open spec fn after_tracking(
    tab: TabModel,
    editor: EditorModel,
    primary: int,
    secondary: int,
) -> EditorModel {
    if primary == secondary {
        editor
    } else {
        editor.with_selection(Selection::clamped(primary, secondary, tab.bytes().len() as int))
    }
}

/// The character set that is shown for a text that was read from a file: the
/// detector's answer, and UTF-8 for a text that the detector cannot be asked
/// about, because it is too long or holds an escape byte and no high byte.
pub open spec fn shown_encoding(text: Seq<char>) -> Seq<char> {
    if examinable(encode_utf8(text)) {
        detected_charset(encode_utf8(text))
    } else {
        "UTF-8"@
    }
}

impl TextEditorTab {
    /// A document that has no file yet.
    pub fn new(id: usize, title: String, text: String, status: String) -> (r: Self)
        ensures
            r@ == (TabModel {
                id,
                file_path: Seq::empty(),
                title: title@,
                text: text@,
                status: status@,
                language: Seq::empty(),
                dirty: false,
                is_refreshed: false,
                is_finding: false,
                is_replacing: false,
                has_error: false,
                error_msg: Seq::empty(),
            }),
    {
        TextEditorTab {
            id,
            file_path: String::new(),
            title,
            text,
            status,
            language: String::new(),
            dirty: false,
            is_refreshed: false,
            is_finding: false,
            is_replacing: false,
            has_error: false,
            error_msg: String::new(),
        }
    }

    /// An empty document named "Untitled", as a new tab shows it on the
    /// operating system `os`.
    pub fn untitled(id: usize, os: &str) -> (r: Self)
        ensures
            r@ == (TabModel {
                id,
                file_path: Seq::empty(),
                title: "Untitled"@,
                text: Seq::empty(),
                status: status_text(line_ending_format(os@), "UTF-8"@),
                language: Seq::empty(),
                dirty: false,
                is_refreshed: false,
                is_finding: false,
                is_replacing: false,
                has_error: false,
                error_msg: Seq::empty(),
            }),
    {
        let ending = get_line_ending_format(os);
        let status = status_line(ending.as_str(), "UTF-8");
        TextEditorTab::new(id, String::from_str("Untitled"), String::new(), status)
    }

    /// Whether the tab may be closed: every tab but the one titled "+".
    pub fn closeable(&self) -> (r: bool)
        ensures
            r == (self@.title != "+"@),
    {
        !same_text(self.title.as_str(), "+")
    }

    /// Whether the document has no file yet, so that saving it has to ask
    /// for one.
    pub fn needs_path(&self) -> (r: bool)
        ensures
            r == (self@.file_path.len() == 0),
    {
        self.file_path.as_str().is_empty()
    }

    /// Notes the file that the document was saved to.
    pub fn saved_as(&mut self, file_path: String, title: String, language: String)
        ensures
            final(self)@ == (TabModel {
                file_path: file_path@,
                title: title@,
                language: language@,
                ..old(self)@
            }),
    {
        self.file_path = file_path;
        self.title = title;
        self.language = language;
    }

    /// The user dismissed the error message.
    pub fn dismiss_error(&mut self)
        ensures
            final(self)@ == (TabModel { has_error: false, ..old(self)@ }),
    {
        self.has_error = false;
    }

    /// The length of the text in bytes.
    pub fn text_len(&self) -> (n: usize)
        ensures
            n == self@.bytes().len(),
    {
        self.text.as_str().as_bytes().len()
    }

    /// The field of the Find bar gained the focus: the bar is focused, and
    /// the Replace bar goes idle.
    pub fn find_focus_gained(&mut self, editor: &mut TextEditor)
        ensures
            final(self)@ == (TabModel { is_finding: true, ..old(self)@ }),
            final(editor)@ == (EditorModel {
                state: StateModel {
                    find_state: FindBarState::Focused,
                    replace_state: ReplaceBarState::NotFocused,
                    ..old(editor)@.state
                },
                ..old(editor)@
            }),
            old(editor)@.state.well_formed() ==> final(editor)@.state.well_formed(),
            selection_in_bounds(old(self)@, old(editor)@) ==> selection_in_bounds(
                final(self)@,
                final(editor)@,
            ),
    {
        editor.state_manager.set_find_state(FindBarState::Focused);
        editor.state_manager.set_replace_state(ReplaceBarState::NotFocused);
        self.is_finding = true;
    }

    /// The field of the Find bar lost the focus: the bar goes idle. An active
    /// bar stays as it is.
    pub fn find_focus_lost(&mut self, editor: &mut TextEditor)
        ensures
            final(self)@ == if old(editor)@.state.find_state is Finding {
                old(self)@
            } else {
                (TabModel { is_finding: false, ..old(self)@ })
            },
            final(editor)@ == if old(editor)@.state.find_state is Finding {
                old(editor)@
            } else {
                (EditorModel {
                    state: StateModel {
                        find_state: FindBarState::NotFocused,
                        ..old(editor)@.state
                    },
                    ..old(editor)@
                })
            },
            old(editor)@.state.well_formed() ==> final(editor)@.state.well_formed(),
            selection_in_bounds(old(self)@, old(editor)@) ==> selection_in_bounds(
                final(self)@,
                final(editor)@,
            ),
    {
        if !matches!(editor.state_manager.get_find_state(), FindBarState::Finding) {
            editor.state_manager.set_find_state(FindBarState::NotFocused);
            self.is_finding = false;
        }
    }

    /// The field of the Replace bar gained the focus: the bar is focused, and
    /// the Find bar goes idle.
    pub fn replace_focus_gained(&mut self, editor: &mut TextEditor)
        ensures
            final(self)@ == (TabModel { is_replacing: true, ..old(self)@ }),
            final(editor)@ == (EditorModel {
                state: StateModel {
                    find_state: FindBarState::NotFocused,
                    replace_state: ReplaceBarState::Focused,
                    ..old(editor)@.state
                },
                ..old(editor)@
            }),
            old(editor)@.state.well_formed() ==> final(editor)@.state.well_formed(),
            selection_in_bounds(old(self)@, old(editor)@) ==> selection_in_bounds(
                final(self)@,
                final(editor)@,
            ),
    {
        editor.state_manager.set_find_state(FindBarState::NotFocused);
        editor.state_manager.set_replace_state(ReplaceBarState::Focused);
        self.is_replacing = true;
    }

    /// The field of the Replace bar lost the focus: the bar goes idle. An
    /// active bar stays as it is.
    pub fn replace_focus_lost(&mut self, editor: &mut TextEditor)
        ensures
            final(self)@ == if old(editor)@.state.replace_state is Replacing {
                old(self)@
            } else {
                (TabModel { is_replacing: false, ..old(self)@ })
            },
            final(editor)@ == if old(editor)@.state.replace_state is Replacing {
                old(editor)@
            } else {
                (EditorModel {
                    state: StateModel {
                        replace_state: ReplaceBarState::NotFocused,
                        ..old(editor)@.state
                    },
                    ..old(editor)@
                })
            },
            old(editor)@.state.well_formed() ==> final(editor)@.state.well_formed(),
            selection_in_bounds(old(self)@, old(editor)@) ==> selection_in_bounds(
                final(self)@,
                final(editor)@,
            ),
    {
        if !matches!(editor.state_manager.get_replace_state(), ReplaceBarState::Replacing) {
            editor.state_manager.set_replace_state(ReplaceBarState::NotFocused);
            self.is_replacing = false;
        }
    }

    /// Enter was pressed. The document itself stays as it is.
    pub fn enter_pressed(&self, editor: &mut TextEditor) -> (r: EnterOutcome)
        ensures
            r == enter_outcome(self@, old(editor)@),
            final(editor)@ == after_enter(self@, old(editor)@),
            old(editor)@.state.well_formed() ==> final(editor)@.state.well_formed(),
            selection_in_bounds(self@, old(editor)@) ==> selection_in_bounds(self@, final(editor)@),
    {
        let find_state = editor.state_manager.get_find_state();
        let replace_state = editor.state_manager.get_replace_state();
        if matches!(find_state, FindBarState::Finding) {
            let len = self.text_len();
            let term = editor.state_manager.get_find_val();
            let step: usize = term.as_str().as_bytes().len();
            let start = editor.cursor_index_manager.get_start_idx();
            let past: usize = if start <= len && step <= len - start {
                start + step
            } else {
                len
            };
            editor.cursor_index_manager.collapse_to(past, len);
            EnterOutcome::Advanced
        } else if matches!(find_state, FindBarState::NotFocused) && matches!(
            replace_state,
            ReplaceBarState::Replacing
        ) {
            editor.state_manager.set_is_replace_active(true);
            EnterOutcome::ReplaceArmed
        } else if self.is_finding && !self.is_replacing && matches!(
            find_state,
            FindBarState::Focused
        ) && editor.state_manager.get_is_find_open() && !matches!(
            replace_state,
            ReplaceBarState::Replacing
        ) {
            editor.state_manager.set_find_state(FindBarState::Finding);
            EnterOutcome::FindActivated
        } else if self.is_replacing && matches!(replace_state, ReplaceBarState::Focused)
            && editor.state_manager.get_is_replace_open() {
            editor.state_manager.set_replace_state(ReplaceBarState::Replacing);
            editor.state_manager.set_is_replace_active(true);
            EnterOutcome::ReplaceActivated
        } else {
            EnterOutcome::Ignored
        }
    }

    /// One step of the search: looks for the next match of the search term
    /// from the start of the selection on.
    ///
    /// A match is selected, and the host is told to scroll to it. When there
    /// is none, the selection stays, the document gets its error message, and
    /// the host is told to show it. The bars stay in their modes.
    pub fn find_step(&mut self, editor: &mut TextEditor, wrap_width: usize) -> (r: Effect)
        requires
            wrap_width > 0,
        ensures
            find_step_done(
                old(self)@,
                old(editor)@,
                wrap_width as int,
                r,
                final(self)@,
                final(editor)@,
            ),
            selection_in_bounds(old(self)@, old(editor)@) ==> selection_in_bounds(
                final(self)@,
                final(editor)@,
            ),
            final(editor)@.state == old(editor)@.state,
    {
        let term = editor.state_manager.get_find_val();
        let start = editor.cursor_index_manager.get_start_idx();
        proof {
            lemma_next_match_occurs(self@.bytes(), encode_utf8(term@), start as int);
        }
        match locate_next(self.text.as_str(), term.as_str(), start, wrap_width) {
            Some(m) => {
                let len = self.text_len();
                let step: usize = term.as_str().as_bytes().len();
                proof {
                    lemma_place_bounds(
                        self@.bytes(),
                        encode_utf8(term@),
                        m.offset as int,
                        wrap_width as int,
                    );
                }
                editor.cursor_index_manager.on_match(m.offset, step, len);
                Effect::ScrollTo(m.highlight(step))
            },
            None => {
                self.has_error = true;
                self.error_msg = not_found_message(term.as_str());
                Effect::ShowError
            },
        }
    }

    /// One step of replacing, if one is armed.
    ///
    /// Without an armed step, or while the Replace bar is not active, nothing
    /// happens and the answer is `None`. Otherwise the step is used up. If
    /// the selection starts past the start of the text and on an occurrence
    /// of the search term, that occurrence is replaced. Then the next match
    /// is looked for from the place where the replacement ends, or would
    /// end. A match is selected. When there is none, the document gets its
    /// error message, and the selection stays, cut down to the new text.
    pub fn step_replace_cycle(&mut self, editor: &mut TextEditor, wrap_width: usize) -> (r: Option<
        ReplaceCycle,
    >)
        requires
            wrap_width > 0,
        ensures
            replace_step_done(
                old(self)@,
                old(editor)@,
                wrap_width as int,
                r,
                final(self)@,
                final(editor)@,
            ),
            r is Some ==> selection_in_bounds(final(self)@, final(editor)@),
            old(editor)@.state.well_formed() ==> final(editor)@.state.well_formed(),
    {
        if !(matches!(editor.state_manager.get_replace_state(), ReplaceBarState::Replacing)
            && editor.state_manager.get_is_replace_active()) {
            return None;
        }
        editor.state_manager.set_is_replace_active(false);
        let term = editor.state_manager.get_find_val();
        let with = editor.state_manager.get_replace_val();
        let start = editor.cursor_index_manager.get_start_idx();
        let end = editor.cursor_index_manager.get_end_idx();
        let step: usize = term.as_str().as_bytes().len();
        let grow: usize = with.as_str().as_bytes().len();
        self.replace_selected(term.as_str(), with.as_str(), start);
        let len: usize = self.text_len();
        let from: usize = if grow <= usize::MAX - start {
            start + grow
        } else {
            usize::MAX
        };
        proof {
            if from != start + grow {
                lemma_next_match_past_end(
                    self@.bytes(),
                    encode_utf8(term@),
                    from as int,
                    start + grow,
                );
            }
            lemma_next_match_occurs(self@.bytes(), encode_utf8(term@), start + grow);
        }
        match locate_next(self.text.as_str(), term.as_str(), from, wrap_width) {
            Some(m) => {
                proof {
                    lemma_place_bounds(
                        self@.bytes(),
                        encode_utf8(term@),
                        m.offset as int,
                        wrap_width as int,
                    );
                }
                editor.cursor_index_manager.on_match(m.offset, step, len);
                Some(ReplaceCycle::Continue(m.highlight(step)))
            },
            None => {
                editor.cursor_index_manager.set(start, end, len);
                self.has_error = true;
                self.error_msg = not_found_message(term.as_str());
                Some(ReplaceCycle::Exhausted)
            },
        }
    }

    /// Replaces the occurrence of `term` at `start` by `with`, if `start` lies
    /// past the start of the text, `term` is not empty and stands there.
    fn replace_selected(&mut self, term: &str, with: &str, start: usize)
        ensures
            final(self)@ == (TabModel { text: final(self)@.text, ..old(self)@ }),
            final(self)@.bytes() == if start > 0 && term@.len() > 0 && occurs_at(
                old(self)@.bytes(),
                encode_utf8(term@),
                start as int,
            ) {
                replaced_at(
                    old(self)@.bytes(),
                    start as int,
                    encode_utf8(term@).len() as int,
                    encode_utf8(with@),
                )
            } else {
                old(self)@.bytes()
            },
    {
        let needle = term.as_bytes();
        let step: usize = needle.len();
        let before: usize = self.text_len();
        proof {
            lemma_encode_empty(term@);
        }
        if start > 0 && step > 0 && start <= before && step <= before - start {
            if matches_at(self.text.as_str().as_bytes(), needle, start) {
                proof {
                    lemma_match_boundaries(self.text@, term@, start as int);
                }
                let rewritten = splice(self.text.as_str(), start, start + step, with);
                self.text = rewritten;
            }
        }
    }

    /// Replaces every occurrence of the search term by the replacement term,
    /// in one pass over the text. The bars stay as they are, and so does the
    /// selection, cut down to the new text.
    pub fn replace_all(&mut self, editor: &mut TextEditor)
        ensures
            final(self)@.bytes() == replaced(
                old(self)@.bytes(),
                encode_utf8(old(editor)@.state.find_val),
                encode_utf8(old(editor)@.state.replace_val),
            ),
            final(self)@ == (TabModel { text: final(self)@.text, ..old(self)@ }),
            final(editor)@ == old(editor)@.with_selection(
                kept_selection(old(editor)@, final(self)@.bytes().len() as int),
            ),
            selection_in_bounds(final(self)@, final(editor)@),
    {
        let term = editor.state_manager.get_find_val();
        let with = editor.state_manager.get_replace_val();
        let rewritten = replace_all(self.text.as_str(), term.as_str(), with.as_str());
        self.text = rewritten;
        let start = editor.cursor_index_manager.get_start_idx();
        let end = editor.cursor_index_manager.get_end_idx();
        let len = self.text_len();
        editor.cursor_index_manager.set(start, end, len);
    }

    /// Looks backward for the search term: for its last occurrence that ends
    /// at or before the start of the selection and, when there is none, for
    /// its last occurrence in the text.
    ///
    /// A match is selected and its offset handed back. The text view takes
    /// the focus either way.
    pub fn find_previous(&mut self, editor: &mut TextEditor) -> (r: Option<usize>)
        ensures
            match prev_match(
                old(self)@.bytes(),
                encode_utf8(old(editor)@.state.find_val),
                old(editor)@.selection.start,
            ) {
                Some(offset) => {
                    &&& r == Some(offset as usize)
                    &&& offset <= usize::MAX
                    &&& final(editor)@ == old(editor)@.with_selection(
                        match_selection(
                            offset,
                            encode_utf8(old(editor)@.state.find_val).len() as int,
                        ),
                    )
                    &&& selection_in_bounds(final(self)@, final(editor)@)
                },
                None => r is None && final(editor)@ == old(editor)@,
            },
            final(self)@ == (TabModel { is_refreshed: true, ..old(self)@ }),
            selection_in_bounds(old(self)@, old(editor)@) ==> selection_in_bounds(
                final(self)@,
                final(editor)@,
            ),
    {
        self.is_refreshed = true;
        let term = editor.state_manager.get_find_val();
        let needle = term.as_str().as_bytes();
        let step: usize = needle.len();
        if step == 0 {
            return None;
        }
        let bytes = self.text.as_str().as_bytes();
        let len: usize = bytes.len();
        let start = editor.cursor_index_manager.get_start_idx();
        let cut: usize = if start <= len {
            start
        } else {
            len
        };
        proof {
            assert(bytes@.subrange(0, len as int) =~= bytes@);
            crate::search::lemma_last_match(bytes@.subrange(0, cut as int), needle@);
            crate::search::lemma_last_match(bytes@, needle@);
        }
        let found = match rfind_in(bytes, needle, 0, cut) {
            Some(at) => Some(at),
            None => rfind_in(bytes, needle, 0, len),
        };
        match found {
            Some(at) => {
                editor.cursor_index_manager.on_match(at, step, len);
                Some(at)
            },
            None => None,
        }
    }

    /// Selects the whole text. The text view takes the focus.
    pub fn select_all(&mut self, editor: &mut TextEditor)
        ensures
            final(self)@ == (TabModel { is_refreshed: true, ..old(self)@ }),
            final(editor)@ == old(editor)@.with_selection(
                (Selection { start: 0, end: old(self)@.bytes().len() as int }),
            ),
            selection_in_bounds(final(self)@, final(editor)@),
    {
        let len = self.text_len();
        editor.cursor_index_manager.select_all(len);
        self.is_refreshed = true;
    }

    /// Cuts the selection out of the text and hands back what stood there,
    /// for the clipboard. The selection then stands empty where the cut
    /// began.
    ///
    /// Nothing happens, and `None` comes back, when the selection runs past
    /// the end of the text or would break a character.
    pub fn cut(&mut self, editor: &mut TextEditor) -> (r: Option<String>)
        ensures
            r is Some <==> is_char_range(
                old(self)@.bytes(),
                old(editor)@.selection.start,
                old(editor)@.selection.end,
            ),
            match r {
                Some(taken) => {
                    &&& encode_utf8(taken@) == old(self)@.bytes().subrange(
                        old(editor)@.selection.start,
                        old(editor)@.selection.end,
                    )
                    &&& final(self)@.bytes() == replaced_at(
                        old(self)@.bytes(),
                        old(editor)@.selection.start,
                        old(editor)@.selection.end - old(editor)@.selection.start,
                        Seq::empty(),
                    )
                    &&& final(self)@ == (TabModel { text: final(self)@.text, ..old(self)@ })
                    &&& final(editor)@ == old(editor)@.with_selection(
                        (Selection {
                            start: old(editor)@.selection.start,
                            end: old(editor)@.selection.start,
                        }),
                    )
                    &&& selection_in_bounds(final(self)@, final(editor)@)
                },
                None => final(self)@ == old(self)@ && final(editor)@ == old(editor)@,
            },
    {
        let start = editor.cursor_index_manager.get_start_idx();
        let end = editor.cursor_index_manager.get_end_idx();
        let ghost old_bytes = self@.bytes();
        match cut_range(&mut self.text, start, end) {
            Some(taken) => {
                let len = self.text_len();
                proof {
                    assert(old_bytes.subrange(0, start as int) + Seq::<u8>::empty()
                        =~= old_bytes.subrange(0, start as int));
                }
                editor.cursor_index_manager.collapse_to(start, len);
                Some(taken)
            },
            None => None,
        }
    }

    /// Takes over a selection that the user made by hand: the two markers
    /// that the host reports, in order and cut down to the text. Markers that
    /// coincide change nothing.
    pub fn track_selection(&self, editor: &mut TextEditor, primary: usize, secondary: usize)
        ensures
            final(editor)@ == if primary == secondary {
                old(editor)@
            } else {
                old(editor)@.with_selection(
                    Selection::clamped(
                        primary as int,
                        secondary as int,
                        self@.bytes().len() as int,
                    ),
                )
            },
            selection_in_bounds(self@, old(editor)@) ==> selection_in_bounds(self@, final(editor)@),
    {
        if primary != secondary {
            let len = self.text_len();
            if primary <= secondary {
                editor.cursor_index_manager.set(primary, secondary, len);
            } else {
                editor.cursor_index_manager.set(secondary, primary, len);
            }
        }
    }

    /// Cuts the selection down to the text. This mends a selection that the
    /// text has shrunk under.
    pub fn settle_selection(&self, editor: &mut TextEditor)
        ensures
            final(editor)@ == settled(self@, old(editor)@),
            selection_in_bounds(self@, final(editor)@),
            selection_in_bounds(self@, old(editor)@) ==> final(editor)@ == old(editor)@,
    {
        let start = editor.cursor_index_manager.get_start_idx();
        let end = editor.cursor_index_manager.get_end_idx();
        let len = self.text_len();
        editor.cursor_index_manager.set(start, end, len);
    }

    /// One tick of the controller. It first settles the selection, so that
    /// the selection is in bounds after every tick, whatever the host did to
    /// the text. What it does then is chosen by the modes of the bars.
    /// `markers` are the two ends of the selection in the text view, as the
    /// host reports them, if it has one. The wrap width counts only in a tick
    /// that looks for a match.
    pub fn tick(
        &mut self,
        editor: &mut TextEditor,
        wrap_width: usize,
        markers: Option<(usize, usize)>,
    ) -> (r: Effect)
        requires
            tick_action(old(editor)@, markers is Some) is Find || tick_action(
                old(editor)@,
                markers is Some,
            ) is Replace ==> wrap_width > 0,
        ensures
            match tick_action(old(editor)@, markers is Some) {
                TickAction::Idle => {
                    &&& r == Effect::Nothing
                    &&& final(self)@ == old(self)@
                    &&& final(editor)@ == settled(old(self)@, old(editor)@)
                },
                TickAction::Find => find_step_done(
                    old(self)@,
                    settled(old(self)@, old(editor)@),
                    wrap_width as int,
                    r,
                    final(self)@,
                    final(editor)@,
                ),
                TickAction::Replace => exists|cycle: Option<ReplaceCycle>|
                    {
                        &&& r == cycle_effect(cycle)
                        &&& #[trigger] replace_step_done(
                            old(self)@,
                            settled(old(self)@, old(editor)@),
                            wrap_width as int,
                            cycle,
                            final(self)@,
                            final(editor)@,
                        )
                    },
                TickAction::Track => {
                    &&& r == Effect::Nothing
                    &&& final(self)@ == old(self)@
                    &&& markers matches Some(ends) && final(editor)@ == after_tracking(
                        old(self)@,
                        settled(old(self)@, old(editor)@),
                        ends.0 as int,
                        ends.1 as int,
                    )
                },
            },
            old(editor)@.state.well_formed() ==> final(editor)@.state.well_formed(),
            selection_in_bounds(final(self)@, final(editor)@),
    {
        self.settle_selection(editor);
        let action = TickAction::pick(editor, markers.is_some());
        match (action, markers) {
            (TickAction::Find, _) => self.find_step(editor, wrap_width),
            (TickAction::Replace, _) => {
                match self.step_replace_cycle(editor, wrap_width) {
                    Some(ReplaceCycle::Continue(shown)) => Effect::ScrollTo(shown),
                    Some(ReplaceCycle::Exhausted) => Effect::ShowError,
                    None => Effect::Nothing,
                }
            },
            (TickAction::Track, Some(ends)) => {
                self.track_selection(editor, ends.0, ends.1);
                Effect::Nothing
            },
            _ => Effect::Nothing,
        }
    }

    /// Takes in a text that was read from a file: the document shows it under
    /// the file's name, with the file's extension as its language, and the
    /// status bar names the line ending of the operating system `os` and the
    /// character set of the text. The selection goes back to the start, and
    /// the text view takes the focus.
    pub fn load(
        &mut self,
        editor: &mut TextEditor,
        text: String,
        title: String,
        language: String,
        os: &str,
    )
        ensures
            final(self)@ == (TabModel {
                text: text@,
                title: title@,
                language: language@,
                status: status_text(line_ending_format(os@), shown_encoding(text@)),
                is_refreshed: true,
                ..old(self)@
            }),
            final(editor)@ == old(editor)@.with_selection((Selection { start: 0, end: 0 })),
            selection_in_bounds(final(self)@, final(editor)@),
    {
        let ending = get_line_ending_format(os);
        let status = match detect_encoding(text.as_str()) {
            Some(name) => status_line(ending.as_str(), name.as_str()),
            None => status_line(ending.as_str(), "UTF-8"),
        };
        self.text = text;
        self.title = title;
        self.status = status;
        self.language = language;
        self.is_refreshed = true;
        let len = self.text_len();
        editor.cursor_index_manager.collapse_to(0, len);
    }
}

/// A document that was just opened has its selection in bounds, whatever its
/// text. Every step of the controller keeps the selection in bounds, as its
/// contract says; so it is in bounds in every state that the engine reaches.
pub proof fn lemma_opened_in_bounds(tab: TabModel, editor: EditorModel)
    requires
        editor.selection == (Selection { start: 0, end: 0 }),
    ensures
        selection_in_bounds(tab, editor),
{
}

} // verus!
