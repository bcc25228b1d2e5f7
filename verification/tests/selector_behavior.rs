use tryrs::error::Error;
use tryrs::model::TryDir;
use tryrs::score::match_against;
use tryrs::selector::{
    delete_confirmed, rank_entries, ActionType, KeyCode, KeyInput, StepAction, TrySelector,
};
use tryrs::tui::compute_viewport;

fn entry(name: &str, key: u64) -> TryDir {
    TryDir {
        basename: name.to_string(),
        path: format!("/base/{}", name),
        ctime: None,
        mtime: None,
        score_key: key,
    }
}

fn plain_key(code: KeyCode) -> KeyInput {
    KeyInput {
        code,
        ctrl: false,
        plain: true,
    }
}

fn ctrl_key(code: KeyCode) -> KeyInput {
    KeyInput {
        code,
        ctrl: true,
        plain: false,
    }
}

#[test]
fn test_compute_viewport_no_scroll_needed() {
    // total 5 items, max_visible 3, starting at top
    let (s, e) = compute_viewport(0, 0, 3, 5);
    assert_eq!((s, e), (0, 3));
    let (s, e) = compute_viewport(1, 0, 3, 5);
    assert_eq!((s, e), (0, 3));
    let (s, e) = compute_viewport(2, 0, 3, 5);
    assert_eq!((s, e), (0, 3));
}

#[test]
fn test_compute_viewport_scrolls_down() {
    // When cursor moves past the last visible index, scroll advances
    let (s, e) = compute_viewport(3, 0, 3, 6);
    assert_eq!((s, e), (1, 4));
    let (s, e) = compute_viewport(4, 1, 3, 6);
    assert_eq!((s, e), (2, 5));
}

#[test]
fn test_compute_viewport_scrolls_up() {
    // If cursor moves above current scroll, scroll follows cursor
    let (s, e) = compute_viewport(1, 2, 3, 6);
    assert_eq!((s, e), (1, 4));
    let (s, e) = compute_viewport(0, 1, 3, 6);
    assert_eq!((s, e), (0, 3));
}

#[test]
fn test_compute_viewport_clamps_end_to_total() {
    // Near the end, end should not exceed total
    let (s, e) = compute_viewport(5, 3, 3, 6);
    assert_eq!((s, e), (3, 6));
}

#[test]
fn test_compute_viewport_idempotent() {
    for cursor in 0..8usize {
        for scroll in 0..9usize {
            let (s1, e1) = compute_viewport(cursor, scroll, 3, 8);
            let (s2, e2) = compute_viewport(cursor, s1, 3, 8);
            assert_eq!((s1, e1), (s2, e2));
        }
    }
}

#[test]
fn test_match_positive_and_negative() {
    // typing "ft" against "foo-test" matches; "zz" against "abc" does not
    assert!(match_against("foo-test", "ft").is_some());
    assert!(match_against("abc", "zz").is_none());
}

#[test]
fn test_match_is_case_insensitive() {
    assert!(match_against("FOO-TEST", "ft").is_some());
    assert!(match_against("foo-test", "FT").is_some());
}

#[test]
fn test_match_positions_and_boundaries() {
    let info = match_against("foo-test", "t").unwrap();
    assert_eq!(info.positions, vec![4]);
    // 't' follows '-', a word boundary
    assert_eq!(info.boundaries, vec![true]);

    let info = match_against("foo-test", "fo").unwrap();
    assert_eq!(info.positions, vec![0, 1]);
    assert_eq!(info.boundaries, vec![true, false]);
}

#[test]
fn test_rank_empty_query_date_prefix_first() {
    // With an empty query and no timestamps, only the fixed date-prefix
    // bonus of 2.0 separates the entries.
    let date_key = (2.0f64).to_bits();
    let entries = vec![entry("plain", 0), entry("2025-08-26-x", date_key)];
    let ranked = rank_entries(entries, false);
    assert_eq!(ranked.len(), 2);
    assert_eq!(ranked[0].basename, "2025-08-26-x");
    assert_eq!(ranked[1].basename, "plain");
}

#[test]
fn test_rank_filters_no_match_on_nonempty_query() {
    let entries = vec![entry("a", 0), entry("b", 7), entry("c", 3)];
    let ranked = rank_entries(entries, true);
    assert_eq!(ranked.len(), 2);
    assert_eq!(ranked[0].basename, "b");
    assert_eq!(ranked[1].basename, "c");
}

#[test]
fn test_rank_is_stable_for_equal_scores() {
    let entries = vec![entry("first", 5), entry("second", 5), entry("third", 9)];
    let ranked = rank_entries(entries, false);
    assert_eq!(ranked[0].basename, "third");
    assert_eq!(ranked[1].basename, "first");
    assert_eq!(ranked[2].basename, "second");
}

#[test]
fn test_new_sanitizes_initial_query() {
    let sel = TrySelector::new("He!!o there", String::from("/base"), 80, 24);
    assert_eq!(sel.input_buf, "Heo there");
    assert_eq!(sel.cursor, 0);
    assert_eq!(sel.scroll, 0);
    assert!(sel.selected.is_none());
}

#[test]
fn test_handle_key_typing_and_backspace() {
    let mut sel = TrySelector::new("", String::from("/base"), 80, 24);
    let tries = vec![entry("one", 1)];
    let act = sel.handle_key(plain_key(KeyCode::Char('a')), &tries, "2025-08-26");
    assert_eq!(act, StepAction::Redraw);
    assert_eq!(sel.input_buf, "a");
    // a disallowed character is ignored
    let act = sel.handle_key(plain_key(KeyCode::Char('!')), &tries, "2025-08-26");
    assert_eq!(act, StepAction::Idle);
    assert_eq!(sel.input_buf, "a");
    let act = sel.handle_key(plain_key(KeyCode::Backspace), &tries, "2025-08-26");
    assert_eq!(act, StepAction::Redraw);
    assert_eq!(sel.input_buf, "");
}

#[test]
fn test_handle_key_cursor_moves() {
    let mut sel = TrySelector::new("", String::from("/base"), 80, 24);
    let tries = vec![entry("one", 1), entry("two", 2)];
    // up at the top is a no-op
    assert_eq!(
        sel.handle_key(plain_key(KeyCode::Up), &tries, "2025-08-26"),
        StepAction::Idle
    );
    assert_eq!(sel.cursor, 0);
    // down walks to the create-new row and stops there
    for _ in 0..5 {
        sel.handle_key(plain_key(KeyCode::Down), &tries, "2025-08-26");
    }
    assert_eq!(sel.cursor, 2);
    assert_eq!(
        sel.handle_key(plain_key(KeyCode::Down), &tries, "2025-08-26"),
        StepAction::Idle
    );
    // control-p moves back up
    assert_eq!(
        sel.handle_key(ctrl_key(KeyCode::Char('p')), &tries, "2025-08-26"),
        StepAction::Redraw
    );
    assert_eq!(sel.cursor, 1);
}

#[test]
fn test_handle_key_escape_cancels() {
    let mut sel = TrySelector::new("", String::from("/base"), 80, 24);
    let tries: Vec<TryDir> = Vec::new();
    let act = sel.handle_key(plain_key(KeyCode::Esc), &tries, "2025-08-26");
    assert_eq!(act, StepAction::Exit);
    let chosen = sel.selected.unwrap();
    assert_eq!(chosen.kind, ActionType::Cancel);
    assert!(chosen.path.is_none());
}

#[test]
fn test_handle_key_enter_on_entry_selects_it() {
    let mut sel = TrySelector::new("", String::from("/base"), 80, 24);
    let tries = vec![entry("one", 1), entry("two", 2)];
    sel.handle_key(plain_key(KeyCode::Down), &tries, "2025-08-26");
    let act = sel.handle_key(plain_key(KeyCode::Enter), &tries, "2025-08-26");
    assert_eq!(act, StepAction::Exit);
    let chosen = sel.selected.unwrap();
    assert_eq!(chosen.kind, ActionType::Cd);
    assert_eq!(chosen.path.as_deref(), Some("/base/two"));
}

#[test]
fn test_handle_key_enter_on_create_row_with_text() {
    let mut sel = TrySelector::new("new thing", String::from("/base"), 80, 24);
    let tries: Vec<TryDir> = Vec::new();
    let act = sel.handle_key(plain_key(KeyCode::Enter), &tries, "2025-08-26");
    assert_eq!(act, StepAction::Exit);
    let chosen = sel.selected.unwrap();
    assert_eq!(chosen.kind, ActionType::Mkdir);
    assert_eq!(chosen.path.as_deref(), Some("/base/2025-08-26-new-thing"));
}

#[test]
fn test_handle_key_enter_on_create_row_empty_prompts() {
    let mut sel = TrySelector::new("", String::from("/base"), 80, 24);
    let tries: Vec<TryDir> = Vec::new();
    let act = sel.handle_key(plain_key(KeyCode::Enter), &tries, "2025-08-26");
    assert_eq!(act, StepAction::PromptName);
    assert!(sel.selected.is_none());
}

#[test]
fn test_handle_key_delete_request() {
    let mut sel = TrySelector::new("", String::from("/base"), 80, 24);
    let tries = vec![entry("one", 1)];
    assert_eq!(
        sel.handle_key(ctrl_key(KeyCode::Char('d')), &tries, "2025-08-26"),
        StepAction::ConfirmDelete
    );
    // on the create-new row the delete key does nothing
    sel.handle_key(plain_key(KeyCode::Down), &tries, "2025-08-26");
    assert_eq!(
        sel.handle_key(ctrl_key(KeyCode::Char('d')), &tries, "2025-08-26"),
        StepAction::Idle
    );
}

#[test]
fn test_apply_prompt_line_empty_aborts() {
    let mut sel = TrySelector::new("", String::from("/base"), 80, 24);
    sel.apply_prompt_line("2025-08-26", "   ");
    assert!(sel.selected.is_none());
}

#[test]
fn test_apply_prompt_line_names_new_entry() {
    let mut sel = TrySelector::new("", String::from("/base"), 80, 24);
    sel.apply_prompt_line("2025-08-26", "  my idea \n");
    let chosen = sel.selected.unwrap();
    assert_eq!(chosen.kind, ActionType::Mkdir);
    assert_eq!(chosen.path.as_deref(), Some("/base/2025-08-26-my-idea"));
}

#[test]
fn test_delete_confirmed_only_on_yes() {
    assert!(delete_confirmed("YES"));
    assert!(delete_confirmed("  YES \n"));
    assert!(!delete_confirmed("yes"));
    assert!(!delete_confirmed("Y"));
    assert!(!delete_confirmed(""));
}

#[test]
fn test_apply_delete_outcome_invalidates_cache() {
    let mut sel = TrySelector::new("", String::from("/base"), 80, 24);
    sel.install_entries(vec![entry("one", 1)]);
    assert!(sel.has_entries());
    sel.apply_delete_outcome(true, "one");
    assert!(!sel.has_entries());
    assert_eq!(sel.status_msg.as_deref(), Some("Deleted: one"));
    sel.apply_delete_outcome(false, "two");
    assert_eq!(sel.status_msg.as_deref(), Some("Delete cancelled"));
}

#[test]
fn test_update_viewport_keeps_cursor_visible() {
    let mut sel = TrySelector::new("", String::from("/base"), 80, 11);
    // height 11 leaves the minimum of three visible rows
    sel.cursor = 7;
    let end = sel.update_viewport(9);
    assert!(sel.scroll <= 7 && 7 < sel.scroll + 3);
    assert_eq!((sel.scroll, end), (5, 8));
}

#[test]
fn test_date_stamp_epoch() {
    assert_eq!(tryrs::util::date_stamp_of_days(0), "1970-01-01");
    assert_eq!(tryrs::util::date_stamp_of_days(10957), "2000-01-01");
    assert_eq!(tryrs::util::date_stamp_of_days(11016), "2000-02-29");
}

#[test]
fn test_handle_key_ctrl_n_moves_down() {
    let mut sel = TrySelector::new("", String::from("/base"), 80, 24);
    let tries = vec![entry("one", 1)];
    assert_eq!(
        sel.handle_key(ctrl_key(KeyCode::Char('n')), &tries, "2025-08-26"),
        StepAction::Redraw
    );
    assert_eq!(sel.cursor, 1);
}

#[test]
fn test_handle_key_ctrl_c_cancels() {
    let mut sel = TrySelector::new("", String::from("/base"), 80, 24);
    let tries: Vec<TryDir> = Vec::new();
    assert_eq!(
        sel.handle_key(ctrl_key(KeyCode::Char('c')), &tries, "2025-08-26"),
        StepAction::Exit
    );
    assert_eq!(sel.selected.unwrap().kind, ActionType::Cancel);
}

#[test]
fn test_handle_key_ignores_unmapped() {
    let mut sel = TrySelector::new("ab", String::from("/base"), 80, 24);
    let tries: Vec<TryDir> = Vec::new();
    assert_eq!(
        sel.handle_key(plain_key(KeyCode::Left), &tries, "2025-08-26"),
        StepAction::Idle
    );
    assert_eq!(
        sel.handle_key(plain_key(KeyCode::Other), &tries, "2025-08-26"),
        StepAction::Idle
    );
    assert_eq!(sel.input_buf, "ab");
}

#[test]
fn test_on_resize_updates_dimensions() {
    let mut sel = TrySelector::new("", String::from("/base"), 80, 24);
    assert_eq!(sel.on_resize(120, 40), StepAction::Redraw);
    assert_eq!((sel.term_w, sel.term_h), (120, 40));
}

#[test]
fn test_error_message_text() {
    let e = Error::Io(String::from("scan failed"));
    assert_eq!(e.message(), "scan failed");
}
