use reditor::editor::TextEditor;
use reditor::encoding::{detect_encoding, MAX_EXAMINED};
use reditor::enums::{FindBarState, ReplaceBarState};
use reditor::layout::{Caret, Highlight};
use reditor::tab::{Effect, EnterOutcome, ReplaceCycle, TextEditorTab, TickAction};
use reditor::text::{cut_range, replace_all, same_text};
use reditor::utility::{get_line_ending_format, not_found_message, status_line};

fn document(text: &str) -> (TextEditorTab, TextEditor) {
    let tab = TextEditorTab::new(7, "Untitled".to_string(), text.to_string(), String::new());
    (tab, TextEditor::new())
}

fn selection(editor: &TextEditor) -> (usize, usize) {
    (editor.cursor_index_manager.get_start_idx(), editor.cursor_index_manager.get_end_idx())
}

fn activate_find(tab: &mut TextEditorTab, editor: &mut TextEditor, term: &str) {
    editor.state_manager.set_is_find_open(true);
    editor.state_manager.set_find_val(term.to_string());
    tab.find_focus_gained(editor);
    assert_eq!(tab.enter_pressed(editor), EnterOutcome::FindActivated);
}

fn activate_replace(tab: &mut TextEditorTab, editor: &mut TextEditor, term: &str, with: &str) {
    editor.state_manager.set_is_find_open(true);
    editor.state_manager.set_is_replace_open(true);
    editor.state_manager.set_find_val(term.to_string());
    editor.state_manager.set_replace_val(with.to_string());
    tab.replace_focus_gained(editor);
    assert_eq!(tab.enter_pressed(editor), EnterOutcome::ReplaceActivated);
}

#[test]
fn new_tab_is_clean() {
    let tab = TextEditorTab::new(3, "t".to_string(), "x".to_string(), "s".to_string());
    assert_eq!(tab.id, 3);
    assert_eq!(tab.title, "t");
    assert_eq!(tab.text, "x");
    assert_eq!(tab.status, "s");
    assert_eq!(tab.file_path, "");
    assert_eq!(tab.language, "");
    assert!(!tab.dirty && !tab.is_refreshed && !tab.is_finding && !tab.is_replacing);
    assert!(!tab.has_error);
    assert_eq!(tab.error_msg, "");
    assert!(tab.needs_path());
    assert!(tab.closeable());
    assert_eq!(tab.text_len(), 1);
}

#[test]
fn untitled_tab_shows_the_default_status() {
    let tab = TextEditorTab::untitled(1, "linux");
    assert_eq!(tab.title, "Untitled");
    assert_eq!(tab.text, "");
    assert_eq!(tab.status, "Ln 1 Col 1 | 100% | Linux (LF) | UTF-8");
}

#[test]
fn plus_tab_cannot_be_closed() {
    let tab = TextEditorTab::new(3, "+".to_string(), String::new(), String::new());
    assert!(!tab.closeable());
    let tab = TextEditorTab::new(3, "++".to_string(), String::new(), String::new());
    assert!(tab.closeable());
}

#[test]
fn saving_notes_the_file() {
    let (mut tab, _) = document("x");
    tab.saved_as("/tmp/a.rs".to_string(), "a.rs".to_string(), "rs".to_string());
    assert_eq!(tab.file_path, "/tmp/a.rs");
    assert_eq!(tab.title, "a.rs");
    assert_eq!(tab.language, "rs");
    assert!(!tab.needs_path());
}

#[test]
fn line_ending_format_by_system() {
    assert_eq!(get_line_ending_format("windows"), "Windows (CRLF)");
    assert_eq!(get_line_ending_format("macos"), "macOS (CR)");
    assert_eq!(get_line_ending_format("linux"), "Linux (LF)");
    assert_eq!(get_line_ending_format("freebsd"), "freebsd (LF)");
    assert_eq!(get_line_ending_format(""), " (LF)");
}

#[test]
fn status_line_and_notice() {
    assert_eq!(status_line("Linux (LF)", "ascii"), "Ln 1 Col 1 | 100% | Linux (LF) | ascii");
    assert_eq!(not_found_message("xyz"), "Cannot find \"xyz\"");
    assert_eq!(not_found_message(""), "Cannot find \"\"");
}

#[test]
fn texts_compare_by_content() {
    assert!(same_text("abc", "abc"));
    assert!(same_text("", ""));
    assert!(!same_text("abc", "abd"));
    assert!(!same_text("abc", "ab"));
    assert!(!same_text("é", "e"));
}

#[test]
fn detector_names_the_character_set() {
    assert_eq!(detect_encoding("plain text"), Some("ascii".to_string()));
    assert_eq!(detect_encoding("\u{feff}text"), Some("UTF-8".to_string()));
    assert_eq!(detect_encoding(""), Some(String::new()));
}

#[test]
fn text_with_an_escape_byte_and_no_high_byte_is_not_examined() {
    assert_eq!(detect_encoding("\u{1b}[31mred"), None);
    assert_eq!(detect_encoding("a\u{1b}"), None);
    assert_eq!(detect_encoding("\u{1b}"), None);
}

#[test]
fn text_with_an_escape_byte_beside_a_high_byte_is_examined() {
    for text in ["\u{1b}[31mrouge é\u{1b}[0m", "é\u{1b}", "\u{1b}日本語のテキスト", "à\u{1b}"] {
        assert_eq!(detect_encoding(text), Some(chardet::detect(text.as_bytes()).0));
    }
}

#[test]
fn detector_is_asked_like_the_outside_function() {
    for text in ["plain text", "", "naïve café", "Ελληνικά", "\u{feff}bom", "\u{a0}"] {
        assert_eq!(detect_encoding(text), Some(chardet::detect(text.as_bytes()).0));
    }
}

#[test]
fn loading_a_file_sets_text_and_status() {
    let (mut tab, mut editor) = document("old text");
    editor.cursor_index_manager.set(2, 6, 8);
    tab.load(&mut editor, "new".to_string(), "a.txt".to_string(), "txt".to_string(), "linux");
    assert_eq!(tab.text, "new");
    assert_eq!(tab.title, "a.txt");
    assert_eq!(tab.language, "txt");
    assert_eq!(tab.status, "Ln 1 Col 1 | 100% | Linux (LF) | ascii");
    assert!(tab.is_refreshed);
    assert_eq!(selection(&editor), (0, 0));
    tab.load(&mut editor, "\u{1b}x".to_string(), "b".to_string(), String::new(), "windows");
    assert_eq!(tab.status, "Ln 1 Col 1 | 100% | Windows (CRLF) | UTF-8");
    let text = "naïve café \u{1b}[0m";
    tab.load(&mut editor, text.to_string(), "c".to_string(), String::new(), "linux");
    let answer = chardet::detect(text.as_bytes()).0;
    assert_eq!(tab.status, status_line("Linux (LF)", &answer));
}

#[test]
fn focus_moves_between_the_bars() {
    let (mut tab, mut editor) = document("x");
    tab.replace_focus_gained(&mut editor);
    assert!(tab.is_replacing);
    assert_eq!(editor.state_manager.get_replace_state(), ReplaceBarState::Focused);
    tab.find_focus_gained(&mut editor);
    assert!(tab.is_finding);
    assert_eq!(editor.state_manager.get_find_state(), FindBarState::Focused);
    assert_eq!(editor.state_manager.get_replace_state(), ReplaceBarState::NotFocused);
    tab.replace_focus_gained(&mut editor);
    assert_eq!(editor.state_manager.get_find_state(), FindBarState::NotFocused);
    tab.replace_focus_lost(&mut editor);
    assert!(!tab.is_replacing);
    assert_eq!(editor.state_manager.get_replace_state(), ReplaceBarState::NotFocused);
    tab.find_focus_gained(&mut editor);
    tab.find_focus_lost(&mut editor);
    assert!(!tab.is_finding);
    assert_eq!(editor.state_manager.get_find_state(), FindBarState::NotFocused);
}

#[test]
fn active_bar_keeps_its_mode_when_focus_is_lost() {
    let (mut tab, mut editor) = document("x");
    activate_find(&mut tab, &mut editor, "x");
    tab.find_focus_lost(&mut editor);
    assert_eq!(editor.state_manager.get_find_state(), FindBarState::Finding);
    assert!(tab.is_finding);
    let (mut tab, mut editor) = document("x");
    activate_replace(&mut tab, &mut editor, "x", "y");
    tab.replace_focus_lost(&mut editor);
    assert_eq!(editor.state_manager.get_replace_state(), ReplaceBarState::Replacing);
}

#[test]
fn enter_activates_only_an_open_focused_bar() {
    let (mut tab, mut editor) = document("x");
    assert_eq!(tab.enter_pressed(&mut editor), EnterOutcome::Ignored);
    tab.find_focus_gained(&mut editor);
    assert_eq!(tab.enter_pressed(&mut editor), EnterOutcome::Ignored);
    assert_eq!(editor.state_manager.get_find_state(), FindBarState::Focused);
    editor.state_manager.set_is_find_open(true);
    assert_eq!(tab.enter_pressed(&mut editor), EnterOutcome::FindActivated);
    assert_eq!(editor.state_manager.get_find_state(), FindBarState::Finding);
}

#[test]
fn enter_never_makes_both_bars_active() {
    let (mut tab, mut editor) = document("x");
    activate_replace(&mut tab, &mut editor, "x", "y");
    tab.is_replacing = false;
    tab.is_finding = true;
    editor.state_manager.set_find_state(FindBarState::Focused);
    assert_eq!(tab.enter_pressed(&mut editor), EnterOutcome::Ignored);
    assert_eq!(editor.state_manager.get_find_state(), FindBarState::Focused);
    assert_eq!(editor.state_manager.get_replace_state(), ReplaceBarState::Replacing);
}

#[test]
fn enter_advances_an_active_search() {
    let (mut tab, mut editor) = document("abc abc");
    activate_find(&mut tab, &mut editor, "abc");
    assert_eq!(
        tab.find_step(&mut editor, 80),
        Effect::ScrollTo(Highlight {
            anchor: Caret { index: 0, row: 0, column: 0, paragraph: 0, offset: 0 },
            head: Caret { index: 3, row: 0, column: 3, paragraph: 0, offset: 3 },
        })
    );
    assert_eq!(selection(&editor), (0, 3));
    assert_eq!(tab.enter_pressed(&mut editor), EnterOutcome::Advanced);
    assert_eq!(selection(&editor), (3, 3));
    match tab.find_step(&mut editor, 80) {
        Effect::ScrollTo(shown) => assert_eq!(shown.anchor.index, 4),
        other => panic!("unexpected effect {:?}", other),
    }
    assert_eq!(selection(&editor), (4, 7));
    assert_eq!(tab.enter_pressed(&mut editor), EnterOutcome::Advanced);
    assert_eq!(selection(&editor), (7, 7));
    match tab.find_step(&mut editor, 80) {
        Effect::ScrollTo(shown) => assert_eq!(shown.anchor.index, 0),
        other => panic!("unexpected effect {:?}", other),
    }
    assert_eq!(selection(&editor), (0, 3));
}

#[test]
fn find_step_is_idempotent_on_a_match() {
    let (mut tab, mut editor) = document("xx abc");
    activate_find(&mut tab, &mut editor, "abc");
    tab.find_step(&mut editor, 80);
    assert_eq!(selection(&editor), (3, 6));
    tab.find_step(&mut editor, 80);
    assert_eq!(selection(&editor), (3, 6));
    assert!(!tab.has_error);
}

#[test]
fn absent_term_raises_the_notice_and_keeps_the_selection() {
    let (mut tab, mut editor) = document("abc\nabcabc");
    editor.cursor_index_manager.set(1, 2, 10);
    activate_find(&mut tab, &mut editor, "xyz");
    assert_eq!(tab.find_step(&mut editor, 80), Effect::ShowError);
    assert_eq!(selection(&editor), (1, 2));
    assert!(tab.has_error);
    assert_eq!(tab.error_msg, "Cannot find \"xyz\"");
    assert_eq!(editor.state_manager.get_find_state(), FindBarState::Finding);
    tab.dismiss_error();
    assert!(!tab.has_error);
}

#[test]
fn empty_term_raises_the_notice() {
    let (mut tab, mut editor) = document("abc");
    activate_find(&mut tab, &mut editor, "");
    assert_eq!(tab.find_step(&mut editor, 80), Effect::ShowError);
    assert_eq!(tab.error_msg, "Cannot find \"\"");
    assert_eq!(selection(&editor), (0, 0));
}

#[test]
fn replace_step_needs_an_armed_step() {
    let (mut tab, mut editor) = document("xfoo foo");
    assert_eq!(tab.step_replace_cycle(&mut editor, 80), None);
    activate_replace(&mut tab, &mut editor, "foo", "ba");
    assert!(editor.state_manager.get_is_replace_active());
    let first = tab.step_replace_cycle(&mut editor, 80);
    assert!(matches!(first, Some(ReplaceCycle::Continue(shown)) if shown.anchor.index == 5));
    assert!(!editor.state_manager.get_is_replace_active());
    assert_eq!(tab.text, "xfoo foo");
    assert_eq!(selection(&editor), (5, 8));
    assert_eq!(tab.step_replace_cycle(&mut editor, 80), None);
    assert_eq!(tab.text, "xfoo foo");
}

#[test]
fn replace_step_rewrites_the_selected_match_and_moves_on() {
    let (mut tab, mut editor) = document("xfoo foo");
    activate_replace(&mut tab, &mut editor, "foo", "ba");
    tab.step_replace_cycle(&mut editor, 80);
    assert_eq!(selection(&editor), (5, 8));
    assert_eq!(tab.enter_pressed(&mut editor), EnterOutcome::ReplaceArmed);
    let next = tab.step_replace_cycle(&mut editor, 80);
    assert_eq!(tab.text, "xfoo ba");
    assert!(matches!(next, Some(ReplaceCycle::Continue(shown)) if shown.anchor.index == 1));
    assert_eq!(selection(&editor), (1, 4));
    assert_eq!(tab.enter_pressed(&mut editor), EnterOutcome::ReplaceArmed);
    let last = tab.step_replace_cycle(&mut editor, 80);
    assert_eq!(tab.text, "xba ba");
    assert_eq!(last, Some(ReplaceCycle::Exhausted));
    assert!(tab.has_error);
    assert_eq!(tab.error_msg, "Cannot find \"foo\"");
    assert_eq!(selection(&editor), (1, 4));
    assert_eq!(editor.state_manager.get_replace_state(), ReplaceBarState::Replacing);
}

#[test]
fn replace_step_leaves_a_match_at_the_start_of_the_text() {
    let (mut tab, mut editor) = document("foo bar");
    activate_replace(&mut tab, &mut editor, "foo", "baz");
    editor.cursor_index_manager.set(0, 3, 7);
    let step = tab.step_replace_cycle(&mut editor, 80);
    assert_eq!(tab.text, "foo bar");
    assert!(matches!(step, Some(ReplaceCycle::Continue(shown)) if shown.anchor.index == 0));
}

#[test]
fn replace_step_cuts_the_selection_down_to_a_shorter_text() {
    let (mut tab, mut editor) = document("xfoo");
    activate_replace(&mut tab, &mut editor, "foo", "");
    editor.cursor_index_manager.set(1, 4, 4);
    let step = tab.step_replace_cycle(&mut editor, 80);
    assert_eq!(step, Some(ReplaceCycle::Exhausted));
    assert_eq!(tab.text, "x");
    assert_eq!(selection(&editor), (1, 1));
}

#[test]
fn replace_step_keeps_characters_whole() {
    let (mut tab, mut editor) = document("añb ñ");
    activate_replace(&mut tab, &mut editor, "ñ", "nn");
    editor.cursor_index_manager.set(1, 3, 7);
    let step = tab.step_replace_cycle(&mut editor, 80);
    assert_eq!(tab.text, "annb ñ");
    assert!(matches!(step, Some(ReplaceCycle::Continue(shown)) if shown.anchor.index == 5));
    assert_eq!(selection(&editor), (5, 7));
}

#[test]
fn replace_all_replaces_every_occurrence() {
    assert_eq!(replace_all("foo bar foo", "foo", "baz"), "baz bar baz");
    assert_eq!(replace_all("aaaa", "aa", "b"), "bb");
    assert_eq!(replace_all("aaa", "aa", "b"), "ba");
    assert_eq!(replace_all("abc", "", "x"), "abc");
    assert_eq!(replace_all("abc", "abcd", "x"), "abc");
    assert_eq!(replace_all("abc", "b", ""), "ac");
    assert_eq!(replace_all("aXa", "a", "aa"), "aaXaa");
    assert_eq!(replace_all("ñu ñu", "ñ", "n"), "nu nu");
    assert_eq!(replace_all("", "a", "b"), "");
}

#[test]
fn replace_all_on_a_document_keeps_modes_and_selection() {
    let (mut tab, mut editor) = document("foo bar foo");
    editor.state_manager.set_find_val("foo".to_string());
    editor.state_manager.set_replace_val("baz".to_string());
    editor.state_manager.set_replace_state(ReplaceBarState::Focused);
    editor.cursor_index_manager.set(4, 7, 11);
    tab.replace_all(&mut editor);
    assert_eq!(tab.text, "baz bar baz");
    assert_eq!(selection(&editor), (4, 7));
    assert_eq!(editor.state_manager.get_replace_state(), ReplaceBarState::Focused);
    editor.state_manager.set_find_val("baz".to_string());
    editor.state_manager.set_replace_val(String::new());
    editor.cursor_index_manager.set(4, 11, 11);
    tab.replace_all(&mut editor);
    assert_eq!(tab.text, " bar ");
    assert_eq!(selection(&editor), (4, 5));
}

#[test]
fn find_previous_searches_backward_and_wraps() {
    let (mut tab, mut editor) = document("abc abc abc");
    editor.state_manager.set_find_val("abc".to_string());
    editor.cursor_index_manager.set(8, 11, 11);
    assert_eq!(tab.find_previous(&mut editor), Some(4));
    assert_eq!(selection(&editor), (4, 7));
    assert!(tab.is_refreshed);
    assert_eq!(tab.find_previous(&mut editor), Some(0));
    assert_eq!(tab.find_previous(&mut editor), Some(8));
    assert_eq!(selection(&editor), (8, 11));
    editor.cursor_index_manager.set(6, 6, 11);
    assert_eq!(tab.find_previous(&mut editor), Some(0));
}

#[test]
fn find_previous_without_a_match_changes_nothing() {
    let (mut tab, mut editor) = document("abc");
    editor.cursor_index_manager.set(1, 2, 3);
    editor.state_manager.set_find_val("x".to_string());
    assert_eq!(tab.find_previous(&mut editor), None);
    assert_eq!(selection(&editor), (1, 2));
    assert!(!tab.has_error);
    editor.state_manager.set_find_val(String::new());
    assert_eq!(tab.find_previous(&mut editor), None);
    assert!(tab.is_refreshed);
}

#[test]
fn select_all_selects_the_whole_text() {
    let (mut tab, mut editor) = document("añb");
    tab.select_all(&mut editor);
    assert_eq!(selection(&editor), (0, 4));
    assert!(tab.is_refreshed);
}

#[test]
fn cut_takes_the_selection_out() {
    let (mut tab, mut editor) = document("hello world");
    editor.cursor_index_manager.set(5, 11, 11);
    assert_eq!(tab.cut(&mut editor), Some(" world".to_string()));
    assert_eq!(tab.text, "hello");
    assert_eq!(selection(&editor), (5, 5));
    assert_eq!(tab.cut(&mut editor), Some(String::new()));
    assert_eq!(tab.text, "hello");
}

#[test]
fn cut_counts_bytes_and_keeps_characters_whole() {
    let mut text = "héllo wörld".to_string();
    assert_eq!(cut_range(&mut text, 1, 3), Some("é".to_string()));
    assert_eq!(text, "hllo wörld");
    assert_eq!(cut_range(&mut text, 6, 9), Some("ör".to_string()));
    assert_eq!(text, "hllo wld");
    let mut text = "héllo".to_string();
    assert_eq!(cut_range(&mut text, 2, 3), None);
    assert_eq!(cut_range(&mut text, 1, 2), None);
    assert_eq!(cut_range(&mut text, 3, 1), None);
    assert_eq!(cut_range(&mut text, 0, 7), None);
    assert_eq!(text, "héllo");
    assert_eq!(cut_range(&mut text, 0, 6), Some("héllo".to_string()));
    assert_eq!(text, "");
}

#[test]
fn cut_refuses_a_selection_past_the_end_of_the_text() {
    let (mut tab, mut editor) = document("hello");
    editor.cursor_index_manager.set(2, 5, 5);
    tab.text = "hi".to_string();
    assert_eq!(tab.cut(&mut editor), None);
    assert_eq!(tab.text, "hi");
    assert_eq!(selection(&editor), (2, 5));
}

#[test]
fn cut_refuses_a_selection_that_would_break_a_character() {
    let (mut tab, mut editor) = document("héllo");
    editor.cursor_index_manager.set(2, 4, 6);
    assert_eq!(tab.cut(&mut editor), None);
    assert_eq!(tab.text, "héllo");
    assert_eq!(selection(&editor), (2, 4));
}

#[test]
fn manual_selection_is_put_in_order() {
    let (tab, mut editor) = document("hello");
    tab.track_selection(&mut editor, 4, 1);
    assert_eq!(selection(&editor), (1, 4));
    tab.track_selection(&mut editor, 2, 2);
    assert_eq!(selection(&editor), (1, 4));
    tab.track_selection(&mut editor, 3, 90);
    assert_eq!(selection(&editor), (3, 5));
}

#[test]
fn tick_follows_the_modes() {
    let (mut tab, mut editor) = document("abc abc");
    assert_eq!(tab.tick(&mut editor, 80, None), Effect::Nothing);
    assert_eq!(tab.tick(&mut editor, 80, Some((5, 2))), Effect::Nothing);
    assert_eq!(selection(&editor), (2, 5));
    editor.state_manager.set_is_find_open(true);
    editor.state_manager.set_find_val("abc".to_string());
    tab.find_focus_gained(&mut editor);
    assert_eq!(tab.tick(&mut editor, 80, Some((0, 1))), Effect::Nothing);
    assert_eq!(selection(&editor), (2, 5));
    tab.enter_pressed(&mut editor);
    assert_eq!(tab.tick(&mut editor, 80, None), Effect::Nothing);
    let effect = tab.tick(&mut editor, 80, Some((0, 1)));
    assert!(matches!(effect, Effect::ScrollTo(shown) if shown.anchor.index == 4));
    assert_eq!(selection(&editor), (4, 7));
}

#[test]
fn tick_runs_one_replace_step_per_enter() {
    let (mut tab, mut editor) = document("xfoo foo");
    activate_replace(&mut tab, &mut editor, "foo", "ba");
    editor.cursor_index_manager.set(1, 4, 8);
    let effect = tab.tick(&mut editor, 80, Some((0, 0)));
    assert!(matches!(effect, Effect::ScrollTo(shown) if shown.anchor.index == 4));
    assert_eq!(tab.text, "xba foo");
    assert_eq!(tab.tick(&mut editor, 80, Some((0, 0))), Effect::Nothing);
    assert_eq!(tab.text, "xba foo");
    tab.enter_pressed(&mut editor);
    assert_eq!(tab.tick(&mut editor, 80, Some((0, 0))), Effect::ShowError);
    assert_eq!(tab.text, "xba ba");
    assert_eq!(selection(&editor), (4, 6));
}

#[test]
fn tick_tracks_by_hand_while_replace_is_idle() {
    let (mut tab, mut editor) = document("hello");
    editor.state_manager.set_is_find_open(true);
    editor.state_manager.set_is_replace_open(true);
    assert_eq!(tab.tick(&mut editor, 80, Some((3, 1))), Effect::Nothing);
    assert_eq!(selection(&editor), (1, 3));
    tab.replace_focus_gained(&mut editor);
    assert_eq!(tab.tick(&mut editor, 80, Some((0, 5))), Effect::Nothing);
    assert_eq!(selection(&editor), (1, 3));
}

#[test]
fn selection_stays_in_bounds_through_a_session() {
    let (mut tab, mut editor) = document("foo bar foo");
    let in_bounds = |tab: &TextEditorTab, editor: &TextEditor| {
        let (start, end) = selection(editor);
        start <= end && end <= tab.text_len()
    };
    activate_find(&mut tab, &mut editor, "foo");
    for _ in 0..4 {
        tab.tick(&mut editor, 3, Some((0, 0)));
        assert!(in_bounds(&tab, &editor));
        tab.enter_pressed(&mut editor);
        assert!(in_bounds(&tab, &editor));
    }
    editor.state_manager.set_replace_val(String::new());
    tab.replace_all(&mut editor);
    assert_eq!(tab.text, " bar ");
    assert!(in_bounds(&tab, &editor));
    tab.select_all(&mut editor);
    tab.cut(&mut editor);
    assert_eq!(tab.text, "");
    assert!(in_bounds(&tab, &editor));
}

#[test]
fn tick_mends_a_selection_that_the_text_shrank_under() {
    let (mut tab, mut editor) = document("hello world");
    editor.cursor_index_manager.set(6, 11, 11);
    tab.text = "hello".to_string();
    assert_eq!(tab.tick(&mut editor, 80, None), Effect::Nothing);
    assert_eq!(selection(&editor), (5, 5));
    editor.cursor_index_manager.set(1, 4, 5);
    tab.text = "he".to_string();
    tab.settle_selection(&mut editor);
    assert_eq!(selection(&editor), (1, 2));
    tab.settle_selection(&mut editor);
    assert_eq!(selection(&editor), (1, 2));
}

#[test]
fn action_of_a_tick_is_chosen_by_the_modes() {
    let (mut tab, mut editor) = document("x");
    assert_eq!(TickAction::pick(&editor, false), TickAction::Idle);
    assert_eq!(TickAction::pick(&editor, true), TickAction::Track);
    editor.state_manager.set_is_find_open(true);
    tab.find_focus_gained(&mut editor);
    assert_eq!(TickAction::pick(&editor, true), TickAction::Idle);
    tab.enter_pressed(&mut editor);
    assert_eq!(TickAction::pick(&editor, true), TickAction::Find);
    assert_eq!(TickAction::pick(&editor, false), TickAction::Idle);
    editor.state_manager.set_is_replace_open(true);
    tab.replace_focus_gained(&mut editor);
    assert_eq!(TickAction::pick(&editor, true), TickAction::Idle);
    tab.enter_pressed(&mut editor);
    assert_eq!(TickAction::pick(&editor, true), TickAction::Replace);
    tab.replace_focus_lost(&mut editor);
    assert_eq!(TickAction::pick(&editor, true), TickAction::Replace);
    editor.state_manager.set_replace_state(ReplaceBarState::NotFocused);
    assert_eq!(TickAction::pick(&editor, true), TickAction::Track);
}

#[test]
fn highlight_runs_from_the_match_to_its_end() {
    let (mut tab, mut editor) = document("ab\n0123456789xñy");
    activate_find(&mut tab, &mut editor, "ñy");
    assert_eq!(
        tab.find_step(&mut editor, 4),
        Effect::ScrollTo(Highlight {
            anchor: Caret { index: 14, row: 3, column: 3, paragraph: 1, offset: 11 },
            head: Caret { index: 17, row: 3, column: 6, paragraph: 1, offset: 14 },
        })
    );
    assert_eq!(selection(&editor), (14, 17));
}

#[test]
fn press_of_enter_that_an_active_bar_takes_skips_the_frame() {
    assert!(EnterOutcome::Advanced.skips_frame());
    assert!(EnterOutcome::ReplaceArmed.skips_frame());
    assert!(!EnterOutcome::FindActivated.skips_frame());
    assert!(!EnterOutcome::ReplaceActivated.skips_frame());
    assert!(!EnterOutcome::Ignored.skips_frame());
}

#[test]
fn tick_that_does_not_search_needs_no_width() {
    let (mut tab, mut editor) = document("hello");
    assert!(!TickAction::pick(&editor, true).searches());
    assert_eq!(tab.tick(&mut editor, 0, Some((4, 1))), Effect::Nothing);
    assert_eq!(selection(&editor), (1, 4));
    assert_eq!(tab.tick(&mut editor, 0, None), Effect::Nothing);
    activate_find(&mut tab, &mut editor, "l");
    assert!(TickAction::pick(&editor, true).searches());
    assert!(!TickAction::pick(&editor, false).searches());
    assert_eq!(tab.tick(&mut editor, 0, None), Effect::Nothing);
    assert!(TickAction::Replace.searches());
    assert!(!TickAction::Track.searches());
    assert!(!TickAction::Idle.searches());
}

#[test]
fn detector_is_asked_about_no_more_than_its_counters_hold() {
    assert_eq!(MAX_EXAMINED, i32::MAX as usize);
    let long = "é".repeat(70_000);
    assert!(long.len() <= MAX_EXAMINED);
    assert_eq!(detect_encoding(&long), Some(chardet::detect(long.as_bytes()).0));
}
