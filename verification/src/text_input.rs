//! The text prompt with a dim default, as a state machine: the caller draws
//! the prompt, reads keys and runs the check; each step says what comes
//! next.
use vstd::prelude::*;

use crate::name_version_select::chosen_name;
use crate::select::{char_is_control, is_control, PromptKey};
use crate::text::{chars_of, string_from};

verus! {

/// Where the prompt stands: the text typed so far, and the message of a
/// rejected value.
#[derive(Debug)]
pub struct TextInput {
    pub input: String,
    pub error: Option<String>,
}

/// What happened since the last action.
#[derive(Debug)]
pub enum InputEvent {
    /// A key was pressed.
    Key(PromptKey),
    /// The check answered for the value handed over.
    Checked(Result<(), String>),
}

/// What the caller does next.
#[derive(Debug)]
pub enum InputAction {
    /// Show the prompt, then read a key.
    Show,
    /// Check this value.
    Check(String),
    /// The value entered.
    Done(String),
    /// The prompt was left with Escape.
    Cancelled,
}

/// The prompt's state as sequences.
pub struct InputView {
    pub input: Seq<char>,
    pub error: Option<Seq<char>>,
}

/// An action as sequences.
pub enum InputActionView {
    Show,
    Check(Seq<char>),
    Done(Seq<char>),
    Cancelled,
}

impl TextInput {
    pub open spec fn view(self) -> InputView {
        InputView {
            input: self.input@,
            error: match self.error {
                Some(e) => Some(e@),
                None => None,
            },
        }
    }
}

pub open spec fn input_action_view(a: InputAction) -> InputActionView {
    match a {
        InputAction::Show => InputActionView::Show,
        InputAction::Check(v) => InputActionView::Check(v@),
        InputAction::Done(v) => InputActionView::Done(v@),
        InputAction::Cancelled => InputActionView::Cancelled,
    }
}

/// The value entered: the text typed, or the default when nothing was
/// typed.
pub open spec fn entered_value(p: InputView, default: Seq<char>) -> Seq<char> {
    if p.input.len() == 0 {
        default
    } else {
        p.input
    }
}

/// The next state and action of the prompt after `e`.
pub open spec fn spec_input_step(p: InputView, default: Seq<char>, e: InputEvent) -> (
    InputView,
    InputActionView,
) {
    match e {
        InputEvent::Key(k) => match k {
            PromptKey::Enter => (p, InputActionView::Check(entered_value(p, default))),
            PromptKey::Escape => (p, InputActionView::Cancelled),
            PromptKey::Backspace => (
                InputView {
                    input: if p.input.len() > 0 {
                        p.input.drop_last()
                    } else {
                        p.input
                    },
                    error: None,
                },
                InputActionView::Show,
            ),
            PromptKey::Char(c) => if !is_control(c) {
                (InputView { input: p.input.push(c), error: None }, InputActionView::Show)
            } else {
                (p, InputActionView::Show)
            },
            _ => (p, InputActionView::Show),
        },
        InputEvent::Checked(r) => match r {
            Ok(()) => (p, InputActionView::Done(entered_value(p, default))),
            Err(m) => (InputView { error: Some(m@), ..p }, InputActionView::Show),
        },
    }
}

/// The empty prompt; its first action shows it.
pub fn input_start() -> (r: (TextInput, InputAction))
    ensures
        r.0.view().input == Seq::<char>::empty(),
        r.0.view().error is None,
        r.1 is Show,
{
    (TextInput { input: String::new(), error: None }, InputAction::Show)
}

/// The next state of the prompt after `event`, and what the caller does
/// next.
pub fn input_step(p: TextInput, default: &str, event: InputEvent) -> (r: (TextInput, InputAction))
    ensures
        (r.0.view(), input_action_view(r.1)) == spec_input_step(p.view(), default@, event),
{
    let ghost pv = p.view();
    let mut p = p;
    match event {
        InputEvent::Key(k) => match k {
            PromptKey::Enter => {
                let v = chosen_name(&p.input, default);
                (p, InputAction::Check(v))
            },
            PromptKey::Escape => (p, InputAction::Cancelled),
            PromptKey::Backspace => {
                let mut cs = chars_of(p.input.as_str());
                if cs.len() > 0 {
                    cs.pop();
                }
                assert(pv.input.len() > 0 ==> cs@ =~= pv.input.drop_last());
                p.input = string_from(&cs);
                p.error = None;
                (p, InputAction::Show)
            },
            PromptKey::Char(c) => {
                if !char_is_control(c) {
                    let mut cs = chars_of(p.input.as_str());
                    cs.push(c);
                    p.input = string_from(&cs);
                    p.error = None;
                }
                (p, InputAction::Show)
            },
            _ => (p, InputAction::Show),
        },
        InputEvent::Checked(res) => match res {
            Ok(()) => {
                let v = chosen_name(&p.input, default);
                (p, InputAction::Done(v))
            },
            Err(m) => {
                p.error = Some(m);
                (p, InputAction::Show)
            },
        },
    }
}

/// Enter hands over the value entered, and once the check accepts it the
/// prompt ends with that same value: the default when nothing was typed,
/// else the text typed.
pub proof fn lemma_done_is_what_was_checked(p: InputView, default: Seq<char>)
    ensures
        spec_input_step(p, default, InputEvent::Key(PromptKey::Enter)) == (
            p,
            InputActionView::Check(entered_value(p, default)),
        ),
        spec_input_step(p, default, InputEvent::Checked(Ok(()))) == (
            p,
            InputActionView::Done(entered_value(p, default)),
        ),
        p.input.len() == 0 ==> entered_value(p, default) == default,
        p.input.len() > 0 ==> entered_value(p, default) == p.input,
{
}

/// Typing a character and then Backspace gives back the text typed before,
/// with no error shown.
pub proof fn lemma_backspace_undoes_typing(p: InputView, default: Seq<char>, c: char)
    requires
        !is_control(c),
    ensures
        ({
            let (q, _) = spec_input_step(p, default, InputEvent::Key(PromptKey::Char(c)));
            let (s, a) = spec_input_step(q, default, InputEvent::Key(PromptKey::Backspace));
            s.input == p.input && s.error is None && a is Show
        }),
{
    assert(p.input.push(c).drop_last() =~= p.input);
}

} // verus!
