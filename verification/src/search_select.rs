//! The scrollable search prompt of `husako add`, as a state machine: the
//! caller draws the prompt, reads keys and loads items; each step says
//! what comes next.
use vstd::prelude::*;

use crate::select::{
    lemma_scroll_keeps_cursor_in_view, scroll, spec_scroll_offset, spec_visible, texts, PromptKey,
};

verus! {

/// At most this many items are shown at once.
pub const MAX_VISIBLE: usize = 10;

/// More items are loaded when the cursor comes this close to the end.
pub const LOAD_THRESHOLD: usize = 3;

/// Where the prompt stands: the items listed, whether more can be loaded,
/// the cursor and the first item shown.
#[derive(Debug)]
pub struct SearchSelect {
    pub items: Vec<String>,
    pub has_more: bool,
    pub cursor: usize,
    pub offset: usize,
}

/// What happened since the last action.
#[derive(Debug)]
pub enum SelectEvent {
    /// More items arrived, with whether there are more still, or loading
    /// them failed.
    Loaded(Result<(Vec<String>, bool), String>),
    /// A key was pressed.
    Key(PromptKey),
}

/// What the caller does next.
#[derive(Debug, PartialEq, Eq, Structural)]
pub enum SelectAction {
    /// Show that items are loading, and load more.
    Load,
    /// Show `visible` items from `offset`, then read a key.
    Show { visible: usize },
    /// The item at this index was chosen.
    Chosen(usize),
    /// The prompt was left with Escape.
    Cancelled,
}

/// The prompt's state as sequences and integers.
pub struct SelectView {
    pub items: Seq<Seq<char>>,
    pub has_more: bool,
    pub cursor: int,
    pub offset: int,
}

impl SearchSelect {
    pub open spec fn view(self) -> SelectView {
        SelectView {
            items: texts(self.items@),
            has_more: self.has_more,
            cursor: self.cursor as int,
            offset: self.offset as int,
        }
    }

    /// The list is never empty and the cursor is on an item.
    pub open spec fn wf(self) -> bool {
        self.cursor < self.items@.len()
    }
}

/// Scroll the cursor into view and show the prompt.
pub open spec fn show(p: SelectView) -> (SelectView, SelectAction) {
    let vis = spec_visible(p.items.len(), MAX_VISIBLE as nat);
    (
        SelectView { offset: spec_scroll_offset(p.cursor, p.offset, vis as int), ..p },
        SelectAction::Show { visible: vis as usize },
    )
}

/// The top of the prompt's loop: load more when there are more and the
/// cursor is near the end, else show the prompt.
pub open spec fn settle(p: SelectView) -> (SelectView, SelectAction) {
    if p.has_more && p.cursor + LOAD_THRESHOLD >= p.items.len() {
        (p, SelectAction::Load)
    } else {
        show(p)
    }
}

/// The prompt over `items`, with the cursor on the first: nothing when
/// there are no items.
pub open spec fn spec_select_start(items: Seq<Seq<char>>, has_more: bool) -> Option<
    (SelectView, SelectAction),
> {
    if items.len() == 0 {
        None
    } else {
        Some(settle(SelectView { items, has_more, cursor: 0, offset: 0 }))
    }
}

/// The next state and action of the prompt after `e`. After a load the
/// prompt is shown before anything more is loaded.
pub open spec fn spec_select_step(p: SelectView, e: SelectEvent) -> (SelectView, SelectAction) {
    match e {
        SelectEvent::Loaded(r) => match r {
            Ok((more_items, more)) => show(
                SelectView { items: p.items + texts(more_items@), has_more: more, ..p },
            ),
            Err(_) => show(SelectView { has_more: false, ..p }),
        },
        SelectEvent::Key(k) => match k {
            PromptKey::Up => settle(
                SelectView {
                    cursor: if p.cursor == 0 {
                        0
                    } else {
                        p.cursor - 1
                    },
                    ..p
                },
            ),
            PromptKey::Down => settle(
                SelectView {
                    cursor: if p.cursor + 1 < p.items.len() {
                        p.cursor + 1
                    } else {
                        p.cursor
                    },
                    ..p
                },
            ),
            PromptKey::Enter => (p, SelectAction::Chosen(p.cursor as usize)),
            PromptKey::Escape => (p, SelectAction::Cancelled),
            _ => settle(p),
        },
    }
}

fn show_exec(p: SearchSelect) -> (r: (SearchSelect, SelectAction))
    requires
        p.wf(),
    ensures
        r.0.wf(),
        (r.0.view(), r.1) == show(p.view()),
        r.1 matches SelectAction::Show { visible } ==> r.0.offset <= r.0.cursor < r.0.offset
            + visible,
{
    let mut p = p;
    let (visible, off) = scroll(p.cursor, p.offset, p.items.len(), MAX_VISIBLE);
    proof {
        lemma_scroll_keeps_cursor_in_view(
            p.cursor as int,
            p.offset as int,
            p.items@.len() as int,
            MAX_VISIBLE as int,
        );
    }
    p.offset = off;
    (p, SelectAction::Show { visible })
}

fn settle_exec(p: SearchSelect) -> (r: (SearchSelect, SelectAction))
    requires
        p.wf(),
    ensures
        r.0.wf(),
        (r.0.view(), r.1) == settle(p.view()),
        r.1 matches SelectAction::Show { visible } ==> r.0.offset <= r.0.cursor < r.0.offset
            + visible,
{
    if p.has_more && p.items.len() - p.cursor <= LOAD_THRESHOLD {
        (p, SelectAction::Load)
    } else {
        show_exec(p)
    }
}

/// The prompt over `items` with the cursor on the first item, and its
/// first action; `None` when there are no items to choose from.
pub fn select_start(items: Vec<String>, has_more: bool) -> (r: Option<(SearchSelect, SelectAction)>)
    ensures
        match r {
            Some((p, a)) => p.wf() && spec_select_start(texts(items@), has_more) == Some(
                (p.view(), a),
            ),
            None => spec_select_start(texts(items@), has_more) is None,
        },
{
    if items.len() == 0 {
        None
    } else {
        let p = SearchSelect { items, has_more, cursor: 0, offset: 0 };
        Some(settle_exec(p))
    }
}

/// The next state of the prompt after `event`, and what the caller does
/// next. The list only grows, the cursor stays on an item, and a shown
/// prompt shows it.
pub fn select_step(p: SearchSelect, event: SelectEvent) -> (r: (SearchSelect, SelectAction))
    requires
        p.wf(),
    ensures
        r.0.wf(),
        (r.0.view(), r.1) == spec_select_step(p.view(), event),
        r.1 matches SelectAction::Show { visible } ==> r.0.offset <= r.0.cursor < r.0.offset
            + visible,
        r.1 matches SelectAction::Chosen(i) ==> i == p.cursor && i < p.items@.len(),
{
    let ghost pv = p.view();
    let mut p = p;
    match event {
        SelectEvent::Loaded(res) => match res {
            Ok((more_items, more)) => {
                let ghost added = texts(more_items@);
                let mut more_items = more_items;
                p.items.append(&mut more_items);
                p.has_more = more;
                assert(texts(p.items@) =~= pv.items + added);
                assert(p.view() == SelectView { items: pv.items + added, has_more: more, ..pv });
                show_exec(p)
            },
            Err(_) => {
                p.has_more = false;
                assert(p.view() == SelectView { has_more: false, ..pv });
                show_exec(p)
            },
        },
        SelectEvent::Key(k) => match k {
            PromptKey::Up => {
                if p.cursor > 0 {
                    p.cursor = p.cursor - 1;
                }
                settle_exec(p)
            },
            PromptKey::Down => {
                if p.items.len() - p.cursor > 1 {
                    p.cursor = p.cursor + 1;
                }
                settle_exec(p)
            },
            PromptKey::Enter => {
                let i = p.cursor;
                (p, SelectAction::Chosen(i))
            },
            PromptKey::Escape => (p, SelectAction::Cancelled),
            _ => settle_exec(p),
        },
    }
}

} // verus!
