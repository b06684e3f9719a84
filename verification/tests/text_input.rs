#[test]
fn validate_fn_type_is_accepted() {
    // A validation function of the shape the text prompt takes.
    fn no_validate(s: &str) -> Result<(), String> {
        if s.is_empty() {
            Err("empty".to_string())
        } else {
            Ok(())
        }
    }
    let _: fn(&str) -> Result<(), String> = no_validate;
}

use husako::select::PromptKey;
use husako::text_input::{input_start, input_step, InputAction, InputEvent, TextInput};

fn key(p: TextInput, k: PromptKey) -> (TextInput, InputAction) {
    input_step(p, "my-app", InputEvent::Key(k))
}

#[test]
fn empty_input_enters_the_default() {
    let (p, a) = input_start();
    assert!(matches!(a, InputAction::Show));
    let (p, a) = key(p, PromptKey::Enter);
    match a {
        InputAction::Check(v) => assert_eq!(v, "my-app"),
        other => panic!("unexpected {:?}", other),
    }
    let (_, a) = input_step(p, "my-app", InputEvent::Checked(Ok(())));
    match a {
        InputAction::Done(v) => assert_eq!(v, "my-app"),
        other => panic!("unexpected {:?}", other),
    }
}

#[test]
fn typed_text_replaces_the_default() {
    let (p, _) = input_start();
    let (p, _) = key(p, PromptKey::Char('x'));
    let (p, _) = key(p, PromptKey::Char('y'));
    let (p, _) = key(p, PromptKey::Char('\n'));
    let (p, _) = key(p, PromptKey::Up);
    assert_eq!(p.input, "xy");
    let (p, a) = key(p, PromptKey::Enter);
    match a {
        InputAction::Check(v) => assert_eq!(v, "xy"),
        other => panic!("unexpected {:?}", other),
    }
    let (_, a) = input_step(p, "my-app", InputEvent::Checked(Ok(())));
    match a {
        InputAction::Done(v) => assert_eq!(v, "xy"),
        other => panic!("unexpected {:?}", other),
    }
}

#[test]
fn rejected_value_shows_error_until_edited() {
    let (p, _) = input_start();
    let (p, _) = key(p, PromptKey::Char('a'));
    let (p, a) = input_step(p, "my-app", InputEvent::Checked(Err("bad name".to_string())));
    assert!(matches!(a, InputAction::Show));
    assert_eq!(p.error.as_deref(), Some("bad name"));
    let (p, _) = key(p, PromptKey::Backspace);
    assert_eq!(p.input, "");
    assert!(p.error.is_none());
    let (p, _) = key(p, PromptKey::Backspace);
    assert_eq!(p.input, "");
}

#[test]
fn escape_cancels_input() {
    let (p, _) = input_start();
    let (_, a) = key(p, PromptKey::Escape);
    assert!(matches!(a, InputAction::Cancelled));
}
