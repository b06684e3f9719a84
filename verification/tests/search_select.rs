use husako::search_select::{LOAD_THRESHOLD, MAX_VISIBLE};
use husako::select::{cursor_down, cursor_up, needs_more, scroll};

#[test]
fn search_select_constants_are_valid() {
    assert!(LOAD_THRESHOLD > 0);
    assert!(MAX_VISIBLE > LOAD_THRESHOLD);
}

#[test]
fn scroll_follows_cursor_down_and_up() {
    // 20 items, 10 shown: moving to item 12 shows items 3..13
    assert_eq!(scroll(12, 0, 20, MAX_VISIBLE), (10, 3));
    // back up to item 1 moves the view to start there
    assert_eq!(scroll(1, 3, 20, MAX_VISIBLE), (10, 1));
    // a short list is shown whole
    assert_eq!(scroll(2, 0, 4, MAX_VISIBLE), (4, 0));
    assert_eq!(scroll(0, 0, 0, MAX_VISIBLE), (0, 0));
}

#[test]
fn cursor_does_not_wrap() {
    assert_eq!(cursor_up(0), 0);
    assert_eq!(cursor_up(5), 4);
    assert_eq!(cursor_down(4, 5), 4);
    assert_eq!(cursor_down(3, 5), 4);
}

#[test]
fn loads_more_near_the_end() {
    assert!(needs_more(true, 7, 10, LOAD_THRESHOLD));
    assert!(!needs_more(true, 6, 10, LOAD_THRESHOLD));
    assert!(!needs_more(false, 9, 10, LOAD_THRESHOLD));
}

use husako::search_select::{select_start, select_step, SearchSelect, SelectAction, SelectEvent};
use husako::select::PromptKey;

fn items(n: usize) -> Vec<String> {
    (0..n).map(|i| format!("item-{i}")).collect()
}

fn press(p: SearchSelect, k: PromptKey) -> (SearchSelect, SelectAction) {
    select_step(p, SelectEvent::Key(k))
}

#[test]
fn select_without_items_is_nothing() {
    assert!(select_start(Vec::new(), true).is_none());
}

#[test]
fn select_shows_a_full_page_first() {
    let (p, a) = select_start(items(20), true).unwrap();
    assert_eq!(a, SelectAction::Show { visible: 10 });
    assert_eq!(p.cursor, 0);
    assert_eq!(p.offset, 0);
}

#[test]
fn select_short_list_with_more_loads_at_once() {
    let (p, a) = select_start(items(2), true).unwrap();
    assert_eq!(a, SelectAction::Load);
    let (p, a) = select_step(p, SelectEvent::Loaded(Ok((items(5), false))));
    assert_eq!(a, SelectAction::Show { visible: 7 });
    assert_eq!(p.items.len(), 7);
    assert!(!p.has_more);
}

#[test]
fn select_shows_after_a_load_even_near_the_end() {
    let (p, _) = select_start(items(2), true).unwrap();
    // one more item arrived and more are promised: the prompt is shown first
    let (p, a) = select_step(p, SelectEvent::Loaded(Ok((items(1), true))));
    assert_eq!(a, SelectAction::Show { visible: 3 });
    // the next key loads again
    let (_, a) = press(p, PromptKey::Other);
    assert_eq!(a, SelectAction::Load);
}

#[test]
fn select_load_failure_stops_loading() {
    let (p, _) = select_start(items(2), true).unwrap();
    let (p, a) = select_step(p, SelectEvent::Loaded(Err("offline".to_string())));
    assert_eq!(a, SelectAction::Show { visible: 2 });
    assert!(!p.has_more);
    let (_, a) = press(p, PromptKey::Down);
    assert_eq!(a, SelectAction::Show { visible: 2 });
}

#[test]
fn select_scrolls_and_chooses() {
    let (mut p, _) = select_start(items(20), false).unwrap();
    for _ in 0..12 {
        p = press(p, PromptKey::Down).0;
    }
    assert_eq!(p.cursor, 12);
    assert_eq!(p.offset, 3);
    for _ in 0..30 {
        p = press(p, PromptKey::Down).0;
    }
    assert_eq!(p.cursor, 19);
    let (p, _) = press(p, PromptKey::Up);
    assert_eq!(p.cursor, 18);
    let (p, a) = press(p, PromptKey::Enter);
    assert_eq!(a, SelectAction::Chosen(18));
    assert_eq!(p.items[18], "item-18");
}

#[test]
fn select_escape_cancels() {
    let (p, _) = select_start(items(3), false).unwrap();
    let (_, a) = press(p, PromptKey::Escape);
    assert_eq!(a, SelectAction::Cancelled);
}

#[test]
fn select_loads_when_cursor_nears_the_end() {
    let (mut p, _) = select_start(items(10), true).unwrap();
    let mut last = SelectAction::Cancelled;
    for _ in 0..7 {
        let (q, a) = press(p, PromptKey::Down);
        p = q;
        last = a;
    }
    assert_eq!(p.cursor, 7);
    assert_eq!(last, SelectAction::Load);
}
