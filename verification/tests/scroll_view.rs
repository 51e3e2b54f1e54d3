use verco::action::Action;
use verco::input::{Key, KeyCode};
use verco::scroll_view::{movement, rows_of_lines, AvailableSize, Movement, ScrollView};

fn plain(code: KeyCode) -> Key {
    Key { code, shift: false, control: false, alt: false }
}

fn ctrl(c: char) -> Key {
    Key { code: KeyCode::Char(c), shift: false, control: true, alt: false }
}

/// Twenty lines of one character each.
fn twenty_lines(selectable: bool) -> ScrollView {
    let mut view = ScrollView::default();
    view.set_content("a\nb\nc\nd\ne\nf\ng\nh\ni\nj\nk\nl\nm\nn\no\np\nq\nr\ns\nt", Action::Log, selectable);
    view
}

#[test]
fn keys_and_their_movements() {
    for key in [ctrl('j'), ctrl('n'), plain(KeyCode::Down), plain(KeyCode::Enter), plain(KeyCode::Char('\n'))] {
        assert!(matches!(movement(key), Some(Movement::LineDown)));
    }
    for key in [ctrl('k'), ctrl('p'), plain(KeyCode::Up)] {
        assert!(matches!(movement(key), Some(Movement::LineUp)));
    }
    for key in [ctrl('d'), plain(KeyCode::PageDown), plain(KeyCode::Char(' '))] {
        assert!(matches!(movement(key), Some(Movement::HalfPageDown)));
    }
    for key in [ctrl('u'), plain(KeyCode::PageUp)] {
        assert!(matches!(movement(key), Some(Movement::HalfPageUp)));
    }
    for key in [ctrl('g'), ctrl('b'), plain(KeyCode::Home)] {
        assert!(matches!(movement(key), Some(Movement::Home)));
    }
    for key in [ctrl('e'), plain(KeyCode::End)] {
        assert!(matches!(movement(key), Some(Movement::End)));
    }
    for key in [plain(KeyCode::Char('j')), plain(KeyCode::Char('e')), ctrl('x'), plain(KeyCode::Other)] {
        assert!(movement(key).is_none());
    }
    let both = Key { code: KeyCode::Char('j'), shift: true, control: true, alt: false };
    assert!(movement(both).is_none());
    let held = Key { code: KeyCode::Down, shift: true, control: true, alt: true };
    assert!(matches!(movement(held), Some(Movement::LineDown)));
}

#[test]
fn a_key_that_moves_nothing_changes_nothing() {
    let mut view = twenty_lines(true);
    assert!(view.update(plain(KeyCode::Down), size(10, 4)));
    assert!(!view.update(plain(KeyCode::Char('x')), size(10, 4)));
    assert_eq!((view.scroll_position(), view.cursor()), (0, Some(1)));
}

#[test]
fn scrolling_stays_within_the_content() {
    let mut view = twenty_lines(false);
    assert!(view.update(plain(KeyCode::Up), size(10, 4)));
    assert_eq!(view.scroll_position(), 0);
    assert!(view.update(plain(KeyCode::Down), size(10, 4)));
    assert_eq!(view.scroll_position(), 1);
    assert!(view.update(plain(KeyCode::PageDown), size(10, 4)));
    assert_eq!(view.scroll_position(), 3);
    assert!(view.update(plain(KeyCode::PageUp), size(10, 5)));
    assert_eq!(view.scroll_position(), 1);
    assert!(view.update(plain(KeyCode::End), size(10, 4)));
    assert_eq!(view.scroll_position(), 16);
    assert!(view.update(plain(KeyCode::Down), size(10, 4)));
    assert_eq!(view.scroll_position(), 16);
    assert!(view.update(plain(KeyCode::Home), size(10, 4)));
    assert_eq!(view.scroll_position(), 0);
    assert_eq!(view.cursor(), None);
    // Content that fits the height cannot be scrolled.
    assert!(view.update(plain(KeyCode::PageDown), size(10, 40)));
    assert_eq!(view.scroll_position(), 0);
    assert!(view.update(plain(KeyCode::End), size(10, 40)));
    assert_eq!(view.scroll_position(), 0);
}

#[test]
fn the_view_follows_the_selected_line() {
    let mut view = twenty_lines(true);
    for _ in 0..3 {
        view.update(plain(KeyCode::Down), size(10, 4));
    }
    assert_eq!((view.scroll_position(), view.cursor()), (0, Some(3)));
    view.update(plain(KeyCode::Down), size(10, 4));
    assert_eq!((view.scroll_position(), view.cursor()), (1, Some(4)));
    view.update(plain(KeyCode::PageDown), size(10, 4));
    assert_eq!((view.scroll_position(), view.cursor()), (3, Some(6)));
    for _ in 0..4 {
        view.update(plain(KeyCode::Up), size(10, 4));
    }
    assert_eq!((view.scroll_position(), view.cursor()), (2, Some(2)));
    view.update(plain(KeyCode::PageUp), size(10, 10));
    assert_eq!((view.scroll_position(), view.cursor()), (0, Some(0)));
    view.update(plain(KeyCode::End), size(10, 4));
    assert_eq!((view.scroll_position(), view.cursor()), (16, Some(20)));
    view.update(plain(KeyCode::Down), size(10, 4));
    assert_eq!((view.scroll_position(), view.cursor()), (16, Some(19)));
    view.update(plain(KeyCode::Home), size(10, 4));
    assert_eq!((view.scroll_position(), view.cursor()), (0, Some(0)));
}

#[test]
fn an_empty_view_keeps_its_selection() {
    let mut view = ScrollView::default();
    view.set_content("", Action::Log, true);
    assert!(view.update(plain(KeyCode::Down), size(10, 4)));
    assert_eq!((view.scroll_position(), view.cursor()), (0, Some(0)));
    assert!(view.update(plain(KeyCode::End), size(10, 4)));
    assert_eq!((view.scroll_position(), view.cursor()), (0, Some(0)));
}

fn size(width: usize, height: usize) -> AvailableSize {
    AvailableSize { width, height }
}

#[test]
fn a_new_view_is_empty() {
    let view = ScrollView::default();
    assert_eq!(view.content(), "");
    assert_eq!(view.scroll_position(), 0);
    assert_eq!(view.cursor(), None);
    assert_eq!(view.action_kind(), Action::Quit);
    assert_eq!(view.content_height(size(10, 5)), Some(0));
}

#[test]
fn set_content_replaces_the_text_and_rewinds() {
    let mut view = ScrollView::default();
    view.set_content("one\ntwo", Action::Log, true);
    assert_eq!(view.content(), "one\ntwo");
    assert_eq!(view.action_kind(), Action::Log);
    assert_eq!(view.scroll_position(), 0);
    assert_eq!(view.cursor(), Some(0));
    view.set_content("three", Action::Status, false);
    assert_eq!(view.content(), "three");
    assert_eq!(view.action_kind(), Action::Status);
    assert_eq!(view.cursor(), None);
}

#[test]
fn each_line_wraps_into_the_rows_it_needs() {
    let mut view = ScrollView::default();
    view.set_content("12345\n1234567890\n12345678901\n\nx", Action::Log, false);
    // 1 + 1 + 2 + 0 + 1 rows in ten columns.
    assert_eq!(view.content_height(size(10, 3)), Some(5));
    // 5 + 10 + 11 + 0 + 1 rows in one column.
    assert_eq!(view.content_height(size(1, 3)), Some(27));
    // 2 + 4 + 4 + 0 + 1 rows in three columns.
    assert_eq!(view.content_height(size(3, 3)), Some(11));
}

#[test]
fn a_last_line_break_adds_no_line() {
    let mut view = ScrollView::default();
    view.set_content("a\nb\n", Action::Log, false);
    assert_eq!(view.content_height(size(80, 24)), Some(2));
    view.set_content("a\r\nb", Action::Log, false);
    assert_eq!(view.content_height(size(1, 24)), Some(2));
}

#[test]
fn rows_are_rounded_up() {
    assert_eq!(rows_of_lines(&vec![], 4), Some(0));
    assert_eq!(rows_of_lines(&vec![0], 4), Some(0));
    assert_eq!(rows_of_lines(&vec![1], 4), Some(1));
    assert_eq!(rows_of_lines(&vec![4], 4), Some(1));
    assert_eq!(rows_of_lines(&vec![5], 4), Some(2));
    assert_eq!(rows_of_lines(&vec![8, 9, 0, 3], 4), Some(6));
    assert_eq!(rows_of_lines(&vec![usize::MAX], usize::MAX), Some(1));
    assert_eq!(rows_of_lines(&vec![usize::MAX], 1), Some(usize::MAX));
}

#[test]
fn rows_that_do_not_fit_give_nothing() {
    assert_eq!(rows_of_lines(&vec![usize::MAX, 1], 1), None);
    assert_eq!(rows_of_lines(&vec![usize::MAX, usize::MAX, 7], 1), None);
    assert_eq!(rows_of_lines(&vec![usize::MAX, usize::MAX], 2), None);
    assert_eq!(rows_of_lines(&vec![usize::MAX, usize::MAX], 4), Some(usize::MAX / 2 + 1));
}
