use husako::name_version_select::{
    chosen_name, format_versions, selected_version, LOAD_THRESHOLD, MAX_VISIBLE, VERSION_PAGE_SIZE,
};

#[test]
fn format_versions_tags_latest() {
    let versions = vec!["1.16.3".to_string(), "1.16.2".to_string()];
    let formatted = format_versions(&versions);
    assert_eq!(formatted[0], "1.16.3 (latest)");
    assert_eq!(formatted[1], "1.16.2");
}

#[test]
fn format_versions_empty() {
    let versions: Vec<String> = vec![];
    let formatted = format_versions(&versions);
    assert!(formatted.is_empty());
}

#[test]
fn strip_latest_suffix() {
    let selected = "1.16.3 (latest)";
    let version = selected_version(selected);
    assert_eq!(version, "1.16.3");
    assert_eq!(version, selected.strip_suffix(" (latest)").unwrap_or(selected));

    let selected = "1.16.2";
    let version = selected_version(selected);
    assert_eq!(version, "1.16.2");
    assert_eq!(version, selected.strip_suffix(" (latest)").unwrap_or(selected));
}

#[test]
fn name_version_select_constants_are_valid() {
    assert!(LOAD_THRESHOLD > 0);
    assert!(MAX_VISIBLE > LOAD_THRESHOLD);
    assert!(VERSION_PAGE_SIZE > 0);
}

#[test]
fn formatted_latest_reads_back_as_version() {
    let versions = vec!["v2.0.0".to_string(), "v1.9.0".to_string()];
    let formatted = format_versions(&versions);
    assert_eq!(selected_version(&formatted[0]), "v2.0.0");
    assert_eq!(selected_version(&formatted[1]), "v1.9.0");
}

#[test]
fn chosen_name_falls_back_to_default() {
    assert_eq!(chosen_name(&String::new(), "cert-manager"), "cert-manager");
    assert_eq!(chosen_name(&"mine".to_string(), "cert-manager"), "mine");
}

use husako::name_version_select::{picker_start, picker_step, Picker, PickerAction, PickerEvent};
use husako::select::PromptKey;

fn page(from: usize, n: usize) -> Vec<String> {
    (0..n).map(|i| format!("1.{}.0", 100 - from - i)).collect()
}

fn key(p: Picker, k: PromptKey) -> (Picker, PickerAction) {
    picker_step(p, "cert-manager", PickerEvent::Key(k))
}

#[test]
fn picker_loads_first_page_then_shows_it() {
    let (p, a) = picker_start();
    assert!(matches!(a, PickerAction::Load { offset: 0 }));
    let (p, a) = picker_step(p, "cert-manager", PickerEvent::Loaded(Ok(page(0, 10))));
    assert!(matches!(a, PickerAction::Show { visible: 8 }));
    assert_eq!(p.versions.len(), 10);
    assert_eq!(p.versions[0], "1.100.0 (latest)");
    assert_eq!(p.versions[1], "1.99.0");
    assert!(p.has_more);
    assert_eq!(p.next_offset, 10);
    assert_eq!(p.cursor, 0);
}

#[test]
fn picker_fetches_more_near_the_end() {
    let (p, _) = picker_start();
    let (mut p, _) = picker_step(p, "cert-manager", PickerEvent::Loaded(Ok(page(0, 10))));
    let mut last = PickerAction::Cancelled;
    for _ in 0..7 {
        let (q, a) = key(p, PromptKey::Down);
        p = q;
        last = a;
    }
    assert_eq!(p.cursor, 7);
    assert!(matches!(last, PickerAction::Load { offset: 10 }));
    let (p, a) = picker_step(p, "cert-manager", PickerEvent::Loaded(Ok(page(10, 4))));
    assert!(matches!(a, PickerAction::Show { visible: 8 }));
    assert_eq!(p.versions.len(), 14);
    assert_eq!(p.versions[10], "1.90.0");
    assert!(!p.has_more);
    assert_eq!(p.next_offset, 20);
    assert_eq!(p.scroll_offset, 0);
    let (p, _) = key(p, PromptKey::Down);
    assert_eq!(p.cursor, 8);
    assert_eq!(p.scroll_offset, 1);
}

#[test]
fn picker_stops_fetching_after_an_error() {
    let (p, _) = picker_start();
    let (mut p, _) = picker_step(p, "x", PickerEvent::Loaded(Ok(page(0, 10))));
    for _ in 0..7 {
        p = key(p, PromptKey::Down).0;
    }
    let (p, a) = picker_step(p, "x", PickerEvent::Loaded(Err("offline".to_string())));
    assert!(matches!(a, PickerAction::Show { visible: 8 }));
    assert!(!p.has_more);
    assert_eq!(p.versions.len(), 10);
}

#[test]
fn picker_enter_checks_name_then_returns_choice() {
    let (p, _) = picker_start();
    let (p, _) = picker_step(p, "cert-manager", PickerEvent::Loaded(Ok(page(0, 3))));
    let (p, _) = key(p, PromptKey::Down);
    let (p, a) = key(p, PromptKey::Enter);
    match a {
        PickerAction::CheckName(n) => assert_eq!(n, "cert-manager"),
        other => panic!("unexpected {:?}", other),
    }
    let (_, a) = picker_step(p, "cert-manager", PickerEvent::NameChecked(Ok(())));
    match a {
        PickerAction::Done(r) => {
            assert_eq!(r.name, "cert-manager");
            assert_eq!(r.version, "1.99.0");
        }
        other => panic!("unexpected {:?}", other),
    }
}

#[test]
fn picker_first_version_loses_latest_mark() {
    let (p, _) = picker_start();
    let (p, _) = picker_step(p, "d", PickerEvent::Loaded(Ok(page(0, 2))));
    let (_, a) = picker_step(p, "d", PickerEvent::NameChecked(Ok(())));
    match a {
        PickerAction::Done(r) => assert_eq!(r.version, "1.100.0"),
        other => panic!("unexpected {:?}", other),
    }
}

#[test]
fn picker_typing_edits_name_and_clears_error() {
    let (p, _) = picker_start();
    let (p, _) = picker_step(p, "d", PickerEvent::Loaded(Ok(page(0, 2))));
    let (p, _) = key(p, PromptKey::Char('a'));
    let (p, _) = key(p, PromptKey::Char('b'));
    let (p, _) = key(p, PromptKey::Char('\u{7}'));
    assert_eq!(p.name_input, "ab");
    let (p, a) = picker_step(p, "d", PickerEvent::NameChecked(Err("taken".to_string())));
    assert!(matches!(a, PickerAction::Show { .. }));
    assert_eq!(p.name_error.as_deref(), Some("taken"));
    let (p, _) = key(p, PromptKey::Backspace);
    assert_eq!(p.name_input, "a");
    assert!(p.name_error.is_none());
    let (_, a) = key(p, PromptKey::Enter);
    match a {
        PickerAction::CheckName(n) => assert_eq!(n, "a"),
        other => panic!("unexpected {:?}", other),
    }
}

#[test]
fn picker_without_versions_asks_by_hand() {
    let (p, _) = picker_start();
    let (p, a) = picker_step(p, "d", PickerEvent::Loaded(Err("offline".to_string())));
    assert!(matches!(a, PickerAction::Show { visible: 0 }));
    assert!(p.versions.is_empty());
    let (p, _) = key(p, PromptKey::Down);
    assert_eq!(p.cursor, 0);
    let (_, a) = picker_step(p, "d", PickerEvent::NameChecked(Ok(())));
    match a {
        PickerAction::Manual(n) => assert_eq!(n, "d"),
        other => panic!("unexpected {:?}", other),
    }
}

#[test]
fn picker_escape_cancels() {
    let (p, _) = picker_start();
    let (p, _) = picker_step(p, "d", PickerEvent::Loaded(Ok(page(0, 2))));
    let (_, a) = key(p, PromptKey::Escape);
    assert!(matches!(a, PickerAction::Cancelled));
}
