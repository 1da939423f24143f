use reditor::editor::{
    CursorIndexManager, Key, KeyEvent, KeyManager, Modifiers, StateManager, TextEditor,
};
use reditor::enums::{FindBarState, GoToState, ReplaceBarState};

fn key(key: Key, pressed: bool, ctrl: bool) -> KeyEvent {
    KeyEvent { key, pressed, modifiers: Modifiers { alt: false, ctrl, shift: false } }
}

#[test]
fn new_state_is_closed_and_idle() {
    let s = StateManager::new();
    assert_eq!(s.get_find_state(), FindBarState::NotFocused);
    assert_eq!(s.get_replace_state(), ReplaceBarState::NotFocused);
    assert_eq!(s.get_goto_state(), GoToState::NotFocused);
    assert!(!s.get_is_find_open());
    assert!(!s.get_is_replace_open());
    assert!(!s.get_is_replace_active());
    assert!(!s.get_is_goto_open());
    assert_eq!(s.get_find_val(), "");
    assert_eq!(s.get_replace_val(), "");
    assert_eq!(s.get_goto_val(), "");
}

#[test]
fn setters_write_one_field() {
    let mut s = StateManager::new();
    s.set_find_state(FindBarState::Finding);
    s.set_is_find_open(true);
    s.set_find_val("needle".to_string());
    s.set_replace_state(ReplaceBarState::Replacing);
    s.set_is_replace_open(true);
    s.set_is_replace_active(true);
    s.set_replace_val("thread".to_string());
    s.set_goto_state(GoToState::GoingTo);
    s.set_is_goto_open(true);
    s.set_goto_val("12".to_string());
    assert_eq!(s.get_find_state(), FindBarState::Finding);
    assert!(s.get_is_find_open());
    assert_eq!(s.get_find_val(), "needle");
    assert_eq!(s.get_replace_state(), ReplaceBarState::Replacing);
    assert!(s.get_is_replace_open());
    assert!(s.get_is_replace_active());
    assert_eq!(s.get_replace_val(), "thread");
    assert_eq!(s.get_goto_state(), GoToState::GoingTo);
    assert!(s.get_is_goto_open());
    assert_eq!(s.get_goto_val(), "12");
    s.set_find_state(FindBarState::Focused);
    assert_eq!(s.get_find_state(), FindBarState::Focused);
    assert_eq!(s.get_replace_state(), ReplaceBarState::Replacing);
}

#[test]
fn bar_modes_clone_and_label() {
    assert_eq!(FindBarState::Finding.clone(), FindBarState::Finding);
    assert_eq!(ReplaceBarState::Focused.clone(), ReplaceBarState::Focused);
    assert_eq!(GoToState::NotFocused.clone(), GoToState::NotFocused);
    assert_eq!(FindBarState::Focused.label(), "Focused");
    assert_eq!(FindBarState::NotFocused.label(), "Not Focused");
    assert_eq!(FindBarState::Finding.label(), "Finding");
}

#[test]
fn setters_move_one_end_and_keep_the_order() {
    let mut c = CursorIndexManager::new();
    assert_eq!((c.get_start_idx(), c.get_end_idx()), (0, 0));
    c.set_start_idx(4);
    assert_eq!((c.get_start_idx(), c.get_end_idx()), (0, 0));
    c.set_end_idx(9);
    assert_eq!((c.get_start_idx(), c.get_end_idx()), (0, 9));
    c.set_start_idx(4);
    assert_eq!((c.get_start_idx(), c.get_end_idx()), (4, 9));
    c.set_start_idx(9);
    assert_eq!((c.get_start_idx(), c.get_end_idx()), (9, 9));
    c.set_start_idx(10);
    assert_eq!((c.get_start_idx(), c.get_end_idx()), (9, 9));
    c.set_start_idx(usize::MAX);
    assert_eq!((c.get_start_idx(), c.get_end_idx()), (9, 9));
    c.set_start_idx(3);
    c.set_end_idx(2);
    assert_eq!((c.get_start_idx(), c.get_end_idx()), (3, 3));
    c.set_end_idx(0);
    assert_eq!((c.get_start_idx(), c.get_end_idx()), (3, 3));
    c.set_end_idx(3);
    assert_eq!((c.get_start_idx(), c.get_end_idx()), (3, 3));
    c.set_end_idx(usize::MAX);
    assert_eq!((c.get_start_idx(), c.get_end_idx()), (3, usize::MAX));
}

#[test]
fn set_clamps_and_orders() {
    let mut c = CursorIndexManager::new();
    c.set(2, 5, 10);
    assert_eq!((c.get_start_idx(), c.get_end_idx()), (2, 5));
    c.set(5, 2, 10);
    assert_eq!((c.get_start_idx(), c.get_end_idx()), (2, 5));
    c.set(7, 50, 10);
    assert_eq!((c.get_start_idx(), c.get_end_idx()), (7, 10));
    c.set(usize::MAX, 3, 10);
    assert_eq!((c.get_start_idx(), c.get_end_idx()), (3, 10));
    c.set(20, 30, 10);
    assert_eq!((c.get_start_idx(), c.get_end_idx()), (10, 10));
    c.set(1, 1, 0);
    assert_eq!((c.get_start_idx(), c.get_end_idx()), (0, 0));
}

#[test]
fn collapse_on_match_and_select_all() {
    let mut c = CursorIndexManager::new();
    c.collapse_to(4, 10);
    assert_eq!((c.get_start_idx(), c.get_end_idx()), (4, 4));
    c.collapse_to(40, 10);
    assert_eq!((c.get_start_idx(), c.get_end_idx()), (10, 10));
    c.on_match(3, 4, 10);
    assert_eq!((c.get_start_idx(), c.get_end_idx()), (3, 7));
    c.on_match(8, 4, 10);
    assert_eq!((c.get_start_idx(), c.get_end_idx()), (8, 10));
    c.on_match(8, usize::MAX, 10);
    assert_eq!((c.get_start_idx(), c.get_end_idx()), (8, 10));
    c.on_match(usize::MAX, usize::MAX, 10);
    assert_eq!((c.get_start_idx(), c.get_end_idx()), (10, 10));
    c.select_all(10);
    assert_eq!((c.get_start_idx(), c.get_end_idx()), (0, 10));
    c.select_all(0);
    assert_eq!((c.get_start_idx(), c.get_end_idx()), (0, 0));
}

#[test]
fn key_manager_notes_keys() {
    let mut k = KeyManager::new();
    assert!(!k.holds_key(Key::F));
    k.press_key(Key::F);
    k.press_key(Key::R);
    k.press_key(Key::F);
    assert!(k.holds_key(Key::F));
    assert!(k.holds_key(Key::R));
    assert!(!k.holds_key(Key::Enter));
    k.release_key(Key::F);
    assert!(!k.holds_key(Key::F));
    assert_eq!(k.keys_pressed, vec![Key::R]);
    k.press_modifiers(Modifiers::ctrl_only());
    assert!(k.holds_modifiers(Modifiers::ctrl_only()));
    assert!(!k.holds_modifiers(Modifiers { alt: true, ctrl: true, shift: false }));
    k.release_modifiers(Modifiers::ctrl_only());
    assert!(!k.holds_modifiers(Modifiers::ctrl_only()));
    assert_eq!(k.keys_pressed, vec![Key::R]);
}

#[test]
fn opening_replace_opens_find() {
    let mut e = TextEditor::new();
    assert!(!e.state_manager.get_is_find_open());
    e.on_key(key(Key::R, true, true));
    assert!(e.state_manager.get_is_find_open());
    assert!(e.state_manager.get_is_replace_open());
    assert_eq!(e.state_manager.get_find_state(), FindBarState::NotFocused);
    assert_eq!(e.state_manager.get_replace_state(), ReplaceBarState::Focused);
}

#[test]
fn set_replace_open_opens_find_without_keys() {
    let mut e = TextEditor::new();
    e.set_replace_open();
    assert!(e.state_manager.get_is_find_open());
    assert!(!e.state_manager.get_is_replace_open());
    assert_eq!(e.state_manager.get_replace_state(), ReplaceBarState::Focused);
}

#[test]
fn find_shortcut_opens_and_focuses() {
    let mut e = TextEditor::new();
    e.on_key(key(Key::F, true, true));
    assert!(e.state_manager.get_is_find_open());
    assert_eq!(e.state_manager.get_find_state(), FindBarState::Focused);
    e.on_key(key(Key::F, false, true));
    assert!(!e.key_manager.holds_key(Key::F));
    assert!(!e.key_manager.holds_modifiers(Modifiers::ctrl_only()));
    assert!(e.state_manager.get_is_find_open());
}

#[test]
fn plain_f_focuses_but_does_not_open() {
    let mut e = TextEditor::new();
    e.on_key(key(Key::F, true, false));
    assert!(!e.state_manager.get_is_find_open());
    assert_eq!(e.state_manager.get_find_state(), FindBarState::Focused);
}

#[test]
fn key_events_of_a_tick_say_whether_enter_is_pressed() {
    let mut e = TextEditor::new();
    assert!(!e.on_keys(&vec![]));
    assert!(e.on_keys(&vec![key(Key::Enter, true, false)]));
    assert!(!e.on_keys(&vec![key(Key::Enter, true, false), key(Key::Enter, false, false)]));
    assert!(e.on_keys(&vec![
        key(Key::Enter, true, false),
        key(Key::F, true, true),
        key(Key::Other, false, false)
    ]));
    assert!(e.state_manager.get_is_find_open());
}

#[test]
fn closing_find_closes_replace_and_clears_terms() {
    let mut e = TextEditor::new();
    e.on_key(key(Key::R, true, true));
    e.state_manager.set_find_val("a".to_string());
    e.state_manager.set_replace_val("b".to_string());
    assert!(e.close_find());
    assert!(!e.state_manager.get_is_find_open());
    assert!(!e.state_manager.get_is_replace_open());
    assert_eq!(e.state_manager.get_find_val(), "");
    assert_eq!(e.state_manager.get_replace_val(), "");
    assert_eq!(e.state_manager.get_find_state(), FindBarState::NotFocused);
    assert_eq!(e.state_manager.get_replace_state(), ReplaceBarState::NotFocused);
}

#[test]
fn closing_an_active_bar_is_refused() {
    let mut e = TextEditor::new();
    e.state_manager.set_is_find_open(true);
    e.state_manager.set_find_state(FindBarState::Finding);
    e.state_manager.set_find_val("a".to_string());
    assert!(!e.close_find());
    assert!(e.state_manager.get_is_find_open());
    assert_eq!(e.state_manager.get_find_state(), FindBarState::Finding);
    assert_eq!(e.state_manager.get_find_val(), "a");

    let mut e = TextEditor::new();
    e.state_manager.set_is_find_open(true);
    e.state_manager.set_is_replace_open(true);
    e.state_manager.set_replace_state(ReplaceBarState::Replacing);
    assert!(!e.close_find());
    assert!(!e.close_replace());
    assert!(e.state_manager.get_is_replace_open());
    e.state_manager.set_replace_state(ReplaceBarState::Focused);
    e.state_manager.set_replace_val("b".to_string());
    assert!(e.close_replace());
    assert!(!e.state_manager.get_is_replace_open());
    assert!(e.state_manager.get_is_find_open());
    assert_eq!(e.state_manager.get_replace_val(), "");
}

#[test]
fn goto_bar_walks_through_its_modes() {
    let mut e = TextEditor::new();
    assert!(!e.goto_enter());
    e.set_goto_open();
    assert!(e.state_manager.get_is_goto_open());
    assert_eq!(e.state_manager.get_goto_state(), GoToState::Focused);
    e.goto_focus_lost();
    assert_eq!(e.state_manager.get_goto_state(), GoToState::NotFocused);
    assert!(!e.goto_enter());
    e.goto_focus_gained();
    assert!(e.goto_enter());
    assert_eq!(e.state_manager.get_goto_state(), GoToState::GoingTo);
    e.goto_focus_lost();
    assert_eq!(e.state_manager.get_goto_state(), GoToState::GoingTo);
    assert!(!e.close_goto());
    e.goto_focus_gained();
    e.state_manager.set_goto_val("3".to_string());
    assert!(e.close_goto());
    assert!(!e.state_manager.get_is_goto_open());
    assert_eq!(e.state_manager.get_goto_val(), "");
}

#[test]
fn replace_step_is_armed_only_while_replacing() {
    let mut e = TextEditor::new();
    assert!(!e.begin_replace_cycle());
    assert!(!e.state_manager.get_is_replace_active());
    e.state_manager.set_replace_state(ReplaceBarState::Replacing);
    assert!(e.begin_replace_cycle());
    assert!(e.state_manager.get_is_replace_active());
}
