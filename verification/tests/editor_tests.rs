use joshuto_ui::EditCommand;
use joshuto_ui::EditStatus;
use joshuto_ui::LineEditState;

fn chars(s: &str) -> Vec<char> {
    s.chars().collect()
}

#[test]
fn cafe_insert_then_delete_all() {
    // 'é' is one column wide; after MoveHome and four Deletes the
    // buffer is empty and the cursor is back at the origin.
    let mut ed = LineEditState::empty(0);
    for c in "caf\u{e9}".chars() {
        assert_eq!(ed.apply(EditCommand::InsertChar(c)), EditStatus::Editing);
    }
    assert_eq!(ed.len(), 4);
    assert_eq!(ed.cursor(), 4);
    assert_eq!(ed.cursor_col(), 4);
    ed.apply(EditCommand::MoveHome);
    assert_eq!(ed.cursor(), 0);
    assert_eq!(ed.cursor_col(), 0);
    for _ in 0..4 {
        ed.apply(EditCommand::Delete);
    }
    assert_eq!(ed.len(), 0);
    assert_eq!(ed.cursor(), 0);
    assert_eq!(ed.cursor_col(), 0);
    assert_eq!(ed.text(), Vec::<char>::new());
}

#[test]
fn insert_then_backspace_round_trip() {
    let mut ed = LineEditState::seeded(&chars("name"), 2, true);
    let before_text = ed.text();
    let before_cursor = ed.cursor();
    let before_col = ed.cursor_col();
    ed.apply(EditCommand::InsertChar('x'));
    ed.apply(EditCommand::Backspace);
    assert_eq!(ed.text(), before_text);
    assert_eq!(ed.cursor(), before_cursor);
    assert_eq!(ed.cursor_col(), before_col);
}

#[test]
fn seeded_at_a_middle_boundary() {
    // Cursor between the wide glyph and 'b': column is the origin plus
    // the widths of 'a' and the wide glyph.
    let ed = LineEditState::seeded_at(&chars("a\u{4E16}b"), 2, 2);
    assert_eq!(ed.cursor(), 2);
    assert_eq!(ed.cursor_col(), 2 + 1 + 2);
    assert_eq!(ed.text(), chars("a\u{4E16}b"));
}

#[test]
fn seeded_append_and_prepend() {
    let ed = LineEditState::seeded(&chars("name"), 3, true);
    assert_eq!(ed.cursor(), 4);
    assert_eq!(ed.cursor_col(), 3 + 4);
    assert_eq!(ed.text(), chars("name"));

    let ed = LineEditState::seeded(&chars("name"), 3, false);
    assert_eq!(ed.cursor(), 0);
    assert_eq!(ed.cursor_col(), 3);
    assert_eq!(ed.text(), chars("name"));
}

#[test]
fn wide_glyph_moves_cursor_two_columns() {
    let mut ed = LineEditState::empty(0);
    ed.apply(EditCommand::InsertChar('\u{4E16}'));
    assert_eq!(ed.cursor_col(), 2);
    ed.apply(EditCommand::MoveLeft);
    assert_eq!(ed.cursor(), 0);
    assert_eq!(ed.cursor_col(), 0);
    ed.apply(EditCommand::MoveRight);
    assert_eq!(ed.cursor(), 1);
    assert_eq!(ed.cursor_col(), 2);
    assert_eq!(ed.text(), vec!['\u{4E16}']);
}

#[test]
fn insert_in_the_middle() {
    let mut ed = LineEditState::seeded(&chars("ac"), 0, true);
    ed.apply(EditCommand::MoveLeft);
    ed.apply(EditCommand::InsertChar('b'));
    assert_eq!(ed.text(), chars("abc"));
    assert_eq!(ed.cursor(), 2);
    assert_eq!(ed.cursor_col(), 2);
}

#[test]
fn backspace_at_start_and_delete_at_end_are_noops() {
    let mut ed = LineEditState::seeded(&chars("ab"), 0, false);
    ed.apply(EditCommand::Backspace);
    assert_eq!(ed.text(), chars("ab"));
    assert_eq!(ed.cursor(), 0);
    let mut ed = LineEditState::seeded(&chars("ab"), 0, true);
    ed.apply(EditCommand::Delete);
    assert_eq!(ed.text(), chars("ab"));
    assert_eq!(ed.cursor(), 2);
}

#[test]
fn delete_removes_at_cursor_without_moving() {
    let mut ed = LineEditState::seeded(&chars("abc"), 0, false);
    ed.apply(EditCommand::MoveRight);
    ed.apply(EditCommand::Delete);
    assert_eq!(ed.text(), chars("ac"));
    assert_eq!(ed.cursor(), 1);
    assert_eq!(ed.cursor_col(), 1);
}

#[test]
fn home_and_end_recompute_the_column() {
    let mut ed = LineEditState::seeded(&chars("a\u{4E16}b"), 5, false);
    ed.apply(EditCommand::MoveEnd);
    assert_eq!(ed.cursor(), 3);
    assert_eq!(ed.cursor_col(), 5 + 4);
    ed.apply(EditCommand::MoveHome);
    assert_eq!(ed.cursor(), 0);
    assert_eq!(ed.cursor_col(), 5);
}

#[test]
fn confirm_and_cancel_statuses() {
    let mut ed = LineEditState::seeded(&chars("ok"), 0, true);
    assert_eq!(ed.apply(EditCommand::Confirm), EditStatus::Confirmed);
    assert_eq!(ed.text(), chars("ok"));
    let mut ed = LineEditState::seeded(&chars("no"), 0, true);
    assert_eq!(ed.apply(EditCommand::Cancel), EditStatus::Cancelled);
    assert_eq!(ed.text(), chars("no"));
}

#[test]
fn column_invariant_under_a_command_mix() {
    // The cached column always equals the origin plus the widths of the
    // glyphs before the cursor, recomputed here by hand.
    let origin: u128 = 7;
    let mut ed = LineEditState::empty(7);
    let cmds = [
        EditCommand::InsertChar('a'),
        EditCommand::InsertChar('\u{4E16}'),
        EditCommand::MoveLeft,
        EditCommand::InsertChar('x'),
        EditCommand::MoveHome,
        EditCommand::Delete,
        EditCommand::MoveRight,
        EditCommand::MoveRight,
        EditCommand::Backspace,
        EditCommand::MoveEnd,
    ];
    for cmd in cmds {
        ed.apply(cmd);
        let text = ed.text();
        let cursor = ed.cursor();
        let mut col = origin;
        for c in text.iter().take(cursor) {
            col += joshuto_ui::display_width(*c) as u128;
        }
        assert_eq!(ed.cursor_col(), col);
    }
}
