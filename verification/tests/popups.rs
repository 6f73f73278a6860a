use rusty_do::app::actions::PendingAction;
use rusty_do::keys::{KeyCode, KeyEvent};
use rusty_do::ui::confirm::ConfirmPopup;
use rusty_do::ui::rename::RenamePopup;

fn key(code: KeyCode) -> KeyEvent {
    KeyEvent::plain(code)
}

fn ch(c: char) -> KeyEvent {
    KeyEvent::plain(KeyCode::Char(c))
}

fn buttons(labels: &[&str]) -> Vec<String> {
    labels.iter().map(|s| s.to_string()).collect()
}

#[test]
fn confirm_enter_picks_highlighted_button() {
    let mut p = ConfirmPopup::new("T".into(), "M".into(), buttons(&["Yes", "No"]));
    assert_eq!(p.selected_idx, 0);
    assert_eq!(p.handle_input(key(KeyCode::Right)), None);
    assert_eq!(p.selected_idx, 1);
    assert_eq!(p.handle_input(ch('l')), None);
    assert_eq!(p.selected_idx, 1);
    assert_eq!(p.handle_input(key(KeyCode::Enter)), Some(1));
    assert_eq!(p.handle_input(ch('h')), None);
    assert_eq!(p.selected_idx, 0);
    assert_eq!(p.handle_input(key(KeyCode::Left)), None);
    assert_eq!(p.selected_idx, 0);
}

#[test]
fn confirm_letter_picks_first_matching_button() {
    let mut p = ConfirmPopup::new(
        "T".into(),
        "M".into(),
        buttons(&["Save & Exit", "Discard", "Cancel"]),
    );
    assert_eq!(p.handle_input(ch('d')), Some(1));
    assert_eq!(p.handle_input(ch('c')), Some(2));
    assert_eq!(p.handle_input(ch('S')), Some(0));
    assert_eq!(p.handle_input(ch('x')), None);
    assert_eq!(p.handle_input(key(KeyCode::Esc)), None);
    assert_eq!(p.selected_idx, 0);
}

#[test]
fn confirm_shortcut_ignores_case_of_label() {
    let mut p = ConfirmPopup::new("T".into(), "M".into(), buttons(&["Yes", "no", "Ünder"]));
    assert_eq!(p.handle_input(ch('y')), Some(0));
    assert_eq!(p.handle_input(ch('n')), Some(1));
    assert_eq!(p.handle_input(ch('ü')), Some(2));
    assert_eq!(p.handle_input(ch('Ü')), Some(2));
}

#[test]
fn confirm_right_on_empty_row_is_refused() {
    let p = ConfirmPopup::new("T".into(), "M".into(), Vec::new());
    assert!(!p.key_ok(key(KeyCode::Right)));
    assert!(p.key_ok(key(KeyCode::Enter)));
}

#[test]
fn rename_starts_with_cursor_at_end() {
    let p = RenamePopup::new("Rename".into(), "héllo".into(), PendingAction::RenameTask);
    assert_eq!(p.input, "héllo");
    assert_eq!(p.cursor_pos, 6);
    assert!(!p.is_first_input);
}

#[test]
fn rename_edits_at_cursor() {
    let mut p = RenamePopup::new("Rename".into(), "abc".into(), PendingAction::RenameTask);
    assert_eq!(p.handle_input(key(KeyCode::Left)), None);
    assert_eq!(p.cursor_pos, 2);
    p.handle_input(ch('X'));
    assert_eq!(p.input, "abXc");
    assert_eq!(p.cursor_pos, 3);
    p.handle_input(key(KeyCode::Backspace));
    assert_eq!(p.input, "abc");
    assert_eq!(p.cursor_pos, 2);
    p.handle_input(key(KeyCode::Delete));
    assert_eq!(p.input, "ab");
    p.handle_input(key(KeyCode::Home));
    assert_eq!(p.cursor_pos, 0);
    p.handle_input(key(KeyCode::Backspace));
    assert_eq!(p.input, "ab");
    p.handle_input(key(KeyCode::End));
    assert_eq!(p.cursor_pos, 2);
    p.handle_input(key(KeyCode::Right));
    assert_eq!(p.cursor_pos, 2);
}

#[test]
fn rename_enter_saves_and_esc_cancels() {
    let mut p = RenamePopup::new("Rename".into(), "abc".into(), PendingAction::RenameTask);
    assert_eq!(p.handle_input(key(KeyCode::Enter)), Some(true));
    assert_eq!(p.handle_input(key(KeyCode::Esc)), Some(false));
    assert_eq!(p.input, "abc");
}

#[test]
fn new_subtask_prompt_replaces_text_on_first_key() {
    let mut p = RenamePopup::new("New Subtask".into(), "old".into(), PendingAction::AddSubtaskAfter);
    assert!(p.is_first_input);
    p.handle_input(ch('n'));
    assert_eq!(p.input, "n");
    assert_eq!(p.cursor_pos, 1);
    assert!(!p.is_first_input);

    let mut q = RenamePopup::new("New Subtask".into(), "old".into(), PendingAction::AddSubtaskBefore);
    q.handle_input(key(KeyCode::Backspace));
    assert_eq!(q.input, "");
    assert_eq!(q.cursor_pos, 0);

    let mut r = RenamePopup::new("New Subtask".into(), "old".into(), PendingAction::AddSubtaskBefore);
    r.handle_input(key(KeyCode::Right));
    assert_eq!(r.cursor_pos, 3);
    assert_eq!(r.input, "old");
}

#[test]
fn rename_refuses_edit_inside_a_character() {
    let mut p = RenamePopup::new("R".into(), "é".into(), PendingAction::RenameTask);
    p.cursor_pos = 1;
    assert!(!p.key_ok(ch('a')));
    assert!(!p.key_ok(key(KeyCode::Delete)));
    assert!(p.key_ok(key(KeyCode::Left)));
}

#[test]
fn law_typing_then_backspace_restores_prompt() {
    for c in ['x', 'é', '€', '🦀'] {
        let mut p = RenamePopup::new("R".into(), "añb".into(), PendingAction::RenameTask);
        p.handle_input(key(KeyCode::Left));
        let before = (p.input.clone(), p.cursor_pos, p.is_first_input);
        p.handle_input(ch(c));
        assert!(p.key_ok(key(KeyCode::Backspace)));
        p.handle_input(key(KeyCode::Backspace));
        assert_eq!((p.input.clone(), p.cursor_pos, p.is_first_input), before);
    }
}

#[test]
fn confirm_capital_letter_picks_button_by_ascii_case() {
    let mut p = ConfirmPopup::new("T".into(), "M".into(), buttons(&["Yes", "No"]));
    assert_eq!(p.handle_input(ch('N')), Some(1));
    assert_eq!(p.handle_input(ch('y')), Some(0));
    assert_eq!(p.handle_input(ch('D')), None);
}

#[test]
fn law_ascii_prompt_stays_whole_on_a_key_sequence() {
    let mut p = RenamePopup::new("Rename".into(), "task".into(), PendingAction::RenameTask);
    let keys = [
        key(KeyCode::Left),
        ch('X'),
        key(KeyCode::Home),
        key(KeyCode::Delete),
        key(KeyCode::Backspace),
        key(KeyCode::End),
        key(KeyCode::Right),
        key(KeyCode::Backspace),
    ];
    for k in keys.iter() {
        assert!(p.key_ok(*k));
        assert_eq!(p.handle_input(*k), None);
        assert!(p.cursor_pos <= p.input.len() && p.input.is_ascii());
    }
    assert_eq!(p.input, "asX");
    let before = (p.input.clone(), p.cursor_pos);
    assert_eq!(p.handle_input(key(KeyCode::Enter)), Some(true));
    assert_eq!(p.handle_input(key(KeyCode::Esc)), Some(false));
    assert_eq!((p.input.clone(), p.cursor_pos), before);
}
