//! The combined name and version prompt of `husako add`, as a state
//! machine: the caller draws the prompt, reads keys, fetches versions and
//! checks the name; each step says what comes next.
use vstd::prelude::*;

use crate::select::{
    char_is_control, is_control, lemma_scroll_keeps_cursor_in_view, scroll, spec_scroll_offset,
    spec_visible, texts, PromptKey,
};
use crate::text::{chars_of, has_suffix, push_str, string_from};

verus! {

/// At most this many versions are shown at once.
pub const MAX_VISIBLE: usize = 8;

/// More versions are loaded when the cursor comes this close to the end.
pub const LOAD_THRESHOLD: usize = 3;

/// Versions are fetched this many at a time.
pub const VERSION_PAGE_SIZE: usize = 10;

/// A name with the version chosen for it.
#[derive(Debug)]
pub struct NameVersionResult {
    pub name: String,
    pub version: String,
}

/// The mark shown after the newest version.
pub open spec fn latest_mark() -> Seq<char> {
    " (latest)"@
}

/// The versions as listed: the first, the newest, is marked.
pub fn format_versions(versions: &[String]) -> (r: Vec<String>)
    ensures
        r@.len() == versions@.len(),
        forall|i: int|
            0 <= i < versions@.len() ==> (#[trigger] r@[i])@ == if i == 0 {
                versions@[i]@ + latest_mark()
            } else {
                versions@[i]@
            },
{
    let mut r: Vec<String> = Vec::new();
    let mut i: usize = 0;
    while i < versions.len()
        invariant
            i <= versions@.len(),
            r@.len() == i,
            forall|k: int|
                0 <= k < i ==> (#[trigger] r@[k])@ == if k == 0 {
                    versions@[k]@ + latest_mark()
                } else {
                    versions@[k]@
                },
        decreases versions@.len() - i,
    {
        if i == 0 {
            let mut out = chars_of(versions[i].as_str());
            push_str(&mut out, " (latest)");
            r.push(string_from(&out));
        } else {
            r.push(versions[i].clone());
        }
        i += 1;
    }
    r
}

/// The version a listed item stands for: the item without the mark of the
/// newest version.
pub open spec fn spec_selected_version(item: Seq<char>) -> Seq<char> {
    if has_suffix(item, latest_mark()) {
        item.take(item.len() - latest_mark().len())
    } else {
        item
    }
}

pub fn selected_version(item: &str) -> (r: String)
    ensures
        r@ == spec_selected_version(item@),
{
    let v = chars_of(item);
    let mark = chars_of(" (latest)");
    if crate::text::ends_with(&v, &mark) {
        let k = v.len() - mark.len();
        let t = crate::text::slice(&v, 0, k);
        assert(t@ =~= item@.take(item@.len() - latest_mark().len()));
        string_from(&t)
    } else {
        string_from(&v)
    }
}

/// The name entered, or the default when nothing was typed.
pub fn chosen_name(input: &String, default_name: &str) -> (r: String)
    ensures
        r@ == if input@.len() == 0 {
            default_name@
        } else {
            input@
        },
{
    if input.as_str().unicode_len() == 0 {
        string_from(&chars_of(default_name))
    } else {
        input.clone()
    }
}

/// Marking the newest version and reading it back gives the version again.
pub proof fn lemma_selected_version_of_formatted(v: Seq<char>)
    ensures
        spec_selected_version(v + latest_mark()) == v,
{
    let s = v + latest_mark();
    assert(s.subrange(s.len() - latest_mark().len(), s.len() as int) =~= latest_mark());
    assert(s.take(s.len() - latest_mark().len()) =~= v);
}

// ---------------------------------------------------------------------------
// The prompt as a state machine
// ---------------------------------------------------------------------------

/// Where the prompt stands: the name typed so far and the message of a
/// rejected name, the version cursor and the first version shown, the
/// versions listed (the newest marked), whether more can be fetched, and
/// the offset of the next page.
#[derive(Debug)]
pub struct Picker {
    pub name_input: String,
    pub name_error: Option<String>,
    pub cursor: usize,
    pub scroll_offset: usize,
    pub versions: Vec<String>,
    pub has_more: bool,
    pub next_offset: usize,
}

/// What happened since the last action.
#[derive(Debug)]
pub enum PickerEvent {
    /// A page of versions arrived, or fetching it failed.
    Loaded(Result<Vec<String>, String>),
    /// A key was pressed.
    Key(PromptKey),
    /// The name check answered for the name handed over.
    NameChecked(Result<(), String>),
}

/// What the caller does next.
#[derive(Debug)]
pub enum PickerAction {
    /// Fetch `VERSION_PAGE_SIZE` versions from `offset`, showing that more
    /// are loading.
    Load { offset: usize },
    /// Show the prompt with `visible` versions from `scroll_offset`, then
    /// read a key.
    Show { visible: usize },
    /// Check this name.
    CheckName(String),
    /// No versions are listed: ask for one by hand for this name.
    Manual(String),
    /// The name and the version chosen.
    Done(NameVersionResult),
    /// The prompt was left with Escape.
    Cancelled,
}

/// The prompt's state as sequences and integers.
pub struct PickerView {
    pub name: Seq<char>,
    pub error: Option<Seq<char>>,
    pub cursor: int,
    pub offset: int,
    pub versions: Seq<Seq<char>>,
    pub has_more: bool,
    pub next: int,
}

/// An action as sequences and integers.
pub enum ActionView {
    Load(int),
    Show(int),
    CheckName(Seq<char>),
    Manual(Seq<char>),
    Done(Seq<char>, Seq<char>),
    Cancelled,
}

impl Picker {
    pub open spec fn view(self) -> PickerView {
        PickerView {
            name: self.name_input@,
            error: match self.name_error {
                Some(e) => Some(e@),
                None => None,
            },
            cursor: self.cursor as int,
            offset: self.scroll_offset as int,
            versions: texts(self.versions@),
            has_more: self.has_more,
            next: self.next_offset as int,
        }
    }

    /// The state can occur: before the first page nothing is listed; the
    /// cursor is on a listed version, or at the top of an empty list.
    pub open spec fn wf(self) -> bool {
        &&& self.next_offset == 0 ==> self.versions@.len() == 0
        &&& self.versions@.len() == 0 ==> self.cursor == 0
        &&& self.versions@.len() > 0 ==> self.cursor < self.versions@.len()
    }
}

pub open spec fn action_view(a: PickerAction) -> ActionView {
    match a {
        PickerAction::Load { offset } => ActionView::Load(offset as int),
        PickerAction::Show { visible } => ActionView::Show(visible as int),
        PickerAction::CheckName(n) => ActionView::CheckName(n@),
        PickerAction::Manual(n) => ActionView::Manual(n@),
        PickerAction::Done(r) => ActionView::Done(r.name@, r.version@),
        PickerAction::Cancelled => ActionView::Cancelled,
    }
}

/// The versions as listed: the first, the newest, marked.
pub open spec fn marked(vs: Seq<Seq<char>>) -> Seq<Seq<char>> {
    Seq::new(vs.len(), |i: int| if i == 0 { vs[i] + latest_mark() } else { vs[i] })
}

/// More versions are fetched when the cursor comes near the end of a
/// non-empty list that can grow.
pub open spec fn wants_more(p: PickerView) -> bool {
    p.has_more && p.versions.len() > 0 && p.cursor + LOAD_THRESHOLD >= p.versions.len()
}

/// The top of the prompt's loop: fetch more when needed, else scroll the
/// cursor into view and show the prompt.
pub open spec fn settle(p: PickerView) -> (PickerView, ActionView) {
    if wants_more(p) {
        (p, ActionView::Load(p.next))
    } else {
        let vis = spec_visible(p.versions.len(), MAX_VISIBLE as nat) as int;
        (PickerView { offset: spec_scroll_offset(p.cursor, p.offset, vis), ..p }, ActionView::Show(vis))
    }
}

/// The name entered, or the default when nothing was typed.
pub open spec fn name_value(p: PickerView, default_name: Seq<char>) -> Seq<char> {
    if p.name.len() == 0 {
        default_name
    } else {
        p.name
    }
}

/// The prompt before anything happened, and its first action.
pub open spec fn spec_picker_start() -> (PickerView, ActionView) {
    (
        PickerView {
            name: Seq::empty(),
            error: None,
            cursor: 0,
            offset: 0,
            versions: Seq::empty(),
            has_more: false,
            next: 0,
        },
        ActionView::Load(0),
    )
}

/// The next state and action of the prompt after `e`.
pub open spec fn spec_picker_step(p: PickerView, default_name: Seq<char>, e: PickerEvent) -> (
    PickerView,
    ActionView,
) {
    match e {
        PickerEvent::Loaded(r) => if p.next == 0 {
            let page = match r {
                Ok(v) => texts(v@),
                Err(_) => Seq::empty(),
            };
            settle(
                PickerView {
                    versions: marked(page),
                    has_more: page.len() == VERSION_PAGE_SIZE,
                    next: VERSION_PAGE_SIZE as int,
                    ..p
                },
            )
        } else {
            match r {
                Ok(v) => settle(
                    PickerView {
                        versions: p.versions + texts(v@),
                        has_more: v@.len() == VERSION_PAGE_SIZE,
                        next: p.next + VERSION_PAGE_SIZE,
                        ..p
                    },
                ),
                Err(_) => settle(PickerView { has_more: false, ..p }),
            }
        },
        PickerEvent::Key(k) => match k {
            PromptKey::Up => settle(
                PickerView {
                    cursor: if p.cursor == 0 {
                        0
                    } else {
                        p.cursor - 1
                    },
                    ..p
                },
            ),
            PromptKey::Down => settle(
                PickerView {
                    cursor: if p.versions.len() > 0 && p.cursor + 1 < p.versions.len() {
                        p.cursor + 1
                    } else {
                        p.cursor
                    },
                    ..p
                },
            ),
            PromptKey::Enter => (p, ActionView::CheckName(name_value(p, default_name))),
            PromptKey::Escape => (p, ActionView::Cancelled),
            PromptKey::Backspace => settle(
                PickerView {
                    name: if p.name.len() > 0 {
                        p.name.drop_last()
                    } else {
                        p.name
                    },
                    error: None,
                    ..p
                },
            ),
            PromptKey::Char(c) => if !is_control(c) {
                settle(PickerView { name: p.name.push(c), error: None, ..p })
            } else {
                settle(p)
            },
            PromptKey::Other => settle(p),
        },
        PickerEvent::NameChecked(r) => match r {
            Err(m) => settle(PickerView { error: Some(m@), ..p }),
            Ok(()) => if p.versions.len() == 0 {
                (p, ActionView::Manual(name_value(p, default_name)))
            } else {
                (
                    p,
                    ActionView::Done(
                        name_value(p, default_name),
                        spec_selected_version(p.versions[p.cursor]),
                    ),
                )
            },
        },
    }
}

/// The prompt before anything happened; its first action fetches the first
/// page of versions.
pub fn picker_start() -> (r: (Picker, PickerAction))
    ensures
        r.0.wf(),
        (r.0.view(), action_view(r.1)) == spec_picker_start(),
{
    let p = Picker {
        name_input: String::new(),
        name_error: None,
        cursor: 0,
        scroll_offset: 0,
        versions: Vec::new(),
        has_more: false,
        next_offset: 0,
    };
    assert(p.view().name =~= Seq::<char>::empty());
    assert(p.view().versions =~= Seq::<Seq<char>>::empty());
    (p, PickerAction::Load { offset: 0 })
}

fn settle_exec(p: Picker) -> (r: (Picker, PickerAction))
    requires
        p.wf(),
    ensures
        r.0.wf(),
        (r.0.view(), action_view(r.1)) == settle(p.view()),
        r.1 matches PickerAction::Show { visible } ==> (r.0.versions@.len() > 0 ==> r.0.scroll_offset
            <= r.0.cursor < r.0.scroll_offset + visible),
{
    let mut p = p;
    let len = p.versions.len();
    if p.has_more && len > 0 && len - p.cursor <= LOAD_THRESHOLD {
        let offset = p.next_offset;
        (p, PickerAction::Load { offset })
    } else {
        let (visible, off) = scroll(p.cursor, p.scroll_offset, len, MAX_VISIBLE);
        proof {
            if len > 0 {
                lemma_scroll_keeps_cursor_in_view(
                    p.cursor as int,
                    p.scroll_offset as int,
                    len as int,
                    MAX_VISIBLE as int,
                );
            }
        }
        p.scroll_offset = off;
        (p, PickerAction::Show { visible })
    }
}

/// The next state of the prompt after `event`, and what the caller does
/// next. The cursor stays on a listed version, and a shown prompt shows it.
pub fn picker_step(p: Picker, default_name: &str, event: PickerEvent) -> (r: (Picker, PickerAction))
    requires
        p.wf(),
        (event matches PickerEvent::Loaded(Ok(_)) && p.next_offset > 0) ==> p.next_offset
            + VERSION_PAGE_SIZE <= usize::MAX,
    ensures
        r.0.wf(),
        (r.0.view(), action_view(r.1)) == spec_picker_step(p.view(), default_name@, event),
        r.1 matches PickerAction::Show { visible } ==> (r.0.versions@.len() > 0 ==> r.0.scroll_offset
            <= r.0.cursor < r.0.scroll_offset + visible),
{
    let ghost pv = p.view();
    let mut p = p;
    match event {
        PickerEvent::Loaded(res) => {
            if p.next_offset == 0 {
                let page: Vec<String> = match res {
                    Ok(v) => v,
                    Err(_) => Vec::new(),
                };
                let ghost pg = texts(page@);
                assert(pg =~= match event {
                    PickerEvent::Loaded(Ok(v)) => texts(v@),
                    _ => Seq::empty(),
                });
                let listed = format_versions(page.as_slice());
                assert(texts(listed@) =~= marked(pg));
                p.has_more = page.len() == VERSION_PAGE_SIZE;
                p.versions = listed;
                p.next_offset = VERSION_PAGE_SIZE;
                assert(p.view() == PickerView {
                    versions: marked(pg),
                    has_more: pg.len() == VERSION_PAGE_SIZE,
                    next: VERSION_PAGE_SIZE as int,
                    ..pv
                });
                settle_exec(p)
            } else {
                match res {
                    Ok(v) => {
                        let ghost nv = texts(v@);
                        let ghost old_versions = p.versions@;
                        p.has_more = v.len() == VERSION_PAGE_SIZE;
                        let mut more = v;
                        p.versions.append(&mut more);
                        p.next_offset = p.next_offset + VERSION_PAGE_SIZE;
                        assert(texts(p.versions@) =~= pv.versions + nv);
                        assert(p.view() == PickerView {
                            versions: pv.versions + nv,
                            has_more: nv.len() == VERSION_PAGE_SIZE,
                            next: pv.next + VERSION_PAGE_SIZE,
                            ..pv
                        });
                        settle_exec(p)
                    },
                    Err(_) => {
                        p.has_more = false;
                        assert(p.view() == PickerView { has_more: false, ..pv });
                        settle_exec(p)
                    },
                }
            }
        },
        PickerEvent::Key(k) => match k {
            PromptKey::Up => {
                if p.cursor > 0 {
                    p.cursor = p.cursor - 1;
                }
                settle_exec(p)
            },
            PromptKey::Down => {
                if p.versions.len() > 0 && p.cursor + 1 < p.versions.len() {
                    p.cursor = p.cursor + 1;
                }
                settle_exec(p)
            },
            PromptKey::Enter => {
                let name = chosen_name(&p.name_input, default_name);
                (p, PickerAction::CheckName(name))
            },
            PromptKey::Escape => (p, PickerAction::Cancelled),
            PromptKey::Backspace => {
                let mut cs = chars_of(p.name_input.as_str());
                if cs.len() > 0 {
                    cs.pop();
                }
                assert(pv.name.len() > 0 ==> cs@ =~= pv.name.drop_last());
                p.name_input = string_from(&cs);
                p.name_error = None;
                settle_exec(p)
            },
            PromptKey::Char(c) => {
                if !char_is_control(c) {
                    let mut cs = chars_of(p.name_input.as_str());
                    cs.push(c);
                    p.name_input = string_from(&cs);
                    p.name_error = None;
                }
                settle_exec(p)
            },
            PromptKey::Other => settle_exec(p),
        },
        PickerEvent::NameChecked(res) => match res {
            Err(m) => {
                p.name_error = Some(m);
                settle_exec(p)
            },
            Ok(()) => {
                let name = chosen_name(&p.name_input, default_name);
                if p.versions.len() == 0 {
                    (p, PickerAction::Manual(name))
                } else {
                    let version = selected_version(p.versions[p.cursor].as_str());
                    (p, PickerAction::Done(NameVersionResult { name, version }))
                }
            },
        },
    }
}

/// Confirming with the cursor on the first listed version chooses the
/// newest version fetched, without the mark it is listed with.
pub proof fn lemma_first_choice_is_newest(
    p: PickerView,
    default_name: Seq<char>,
    page: Seq<Seq<char>>,
    more: Seq<Seq<char>>,
)
    requires
        page.len() > 0,
        p.versions == marked(page) + more,
        p.cursor == 0,
    ensures
        spec_picker_step(p, default_name, PickerEvent::NameChecked(Ok(()))) == (
            p,
            ActionView::Done(name_value(p, default_name), page[0]),
        ),
{
    assert(p.versions[0] == page[0] + latest_mark());
    lemma_selected_version_of_formatted(page[0]);
}

} // verus!
