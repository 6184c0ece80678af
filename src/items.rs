use vstd::prelude::*;
use crate::db::ClipboardItem;

verus! {

/// Whether an entry of the history list is shown or being edited.
#[derive(Clone, Copy, Debug, PartialEq, Eq, Structural)]
pub enum ClipboardItemState {
    Idle,
    Editing,
}

impl Default for ClipboardItemState {
    fn default() -> (r: ClipboardItemState)
        ensures
            r == ClipboardItemState::Idle,
    {
        ClipboardItemState::Idle
    }
}

/// What the user can do to one entry of the history list.
#[derive(Debug)]
pub enum ClipboardItemMessage {
    Completed(bool),
    Edit,
    DescriptionEdited(String),
    FinishEdition,
    Delete,
}

/// Which entries the history list shows.
#[derive(Clone, Copy, Debug, PartialEq, Eq, Structural)]
pub enum Filter {
    All,
    Active,
    Completed,
}

impl Default for Filter {
    fn default() -> (r: Filter)
        ensures
            r == Filter::All,
    {
        Filter::All
    }
}

/// One entry of the history list as the user sees and edits it.
pub struct ClipboardItemUI {
    pub id: i32,
    pub content: String,
    pub completed: bool,
    pub state: ClipboardItemState,
}

/// `new` is `old` after `message`: the id never changes; each message sets its own
/// field; finishing an edit leaves editing only when the content is not empty.
pub open spec fn item_updated(
    old: ClipboardItemUI,
    new: ClipboardItemUI,
    message: ClipboardItemMessage,
) -> bool {
    &&& new.id == old.id
    &&& match message {
        ClipboardItemMessage::Completed(c) => {
            &&& new.completed == c
            &&& new.content@ == old.content@
            &&& new.state == old.state
        },
        ClipboardItemMessage::Edit => {
            &&& new.completed == old.completed
            &&& new.content@ == old.content@
            &&& new.state == ClipboardItemState::Editing
        },
        ClipboardItemMessage::DescriptionEdited(d) => {
            &&& new.completed == old.completed
            &&& new.content@ == d@
            &&& new.state == old.state
        },
        ClipboardItemMessage::FinishEdition => {
            &&& new.completed == old.completed
            &&& new.content@ == old.content@
            &&& new.state == (if old.content@.len() == 0 {
                old.state
            } else {
                ClipboardItemState::Idle
            })
        },
        ClipboardItemMessage::Delete => {
            &&& new.completed == old.completed
            &&& new.content@ == old.content@
            &&& new.state == old.state
        },
    }
}

impl ClipboardItemUI {
    /// A fresh entry holding `description`, not completed and not being edited.
    pub fn new(description: String) -> (r: ClipboardItemUI)
        ensures
            r.id == 1,
            r.content@ == description@,
            !r.completed,
            r.state == ClipboardItemState::Idle,
    {
        ClipboardItemUI {
            id: 1,
            content: description,
            completed: false,
            state: ClipboardItemState::Idle,
        }
    }

    /// The list entry for a recorded history item: same id and content, not
    /// completed, not being edited.
    pub fn from_item(item: ClipboardItem) -> (r: ClipboardItemUI)
        ensures
            r.id == item.id,
            r.content@ == item.content@,
            !r.completed,
            r.state == ClipboardItemState::Idle,
    {
        ClipboardItemUI {
            id: item.id,
            content: item.content,
            completed: false,
            state: ClipboardItemState::Idle,
        }
    }

    /// Applies one user action to the entry. Finishing an edit leaves editing only
    /// when the content is not empty; deleting is done by the list that holds it.
    pub fn update(&mut self, message: ClipboardItemMessage)
        ensures
            item_updated(*old(self), *final(self), message),
    {
        match message {
            ClipboardItemMessage::Completed(completed) => {
                self.completed = completed;
            },
            ClipboardItemMessage::Edit => {
                self.state = ClipboardItemState::Editing;
            },
            ClipboardItemMessage::DescriptionEdited(new_description) => {
                self.content = new_description;
            },
            ClipboardItemMessage::FinishEdition => {
                if !self.content.as_str().is_empty() {
                    self.state = ClipboardItemState::Idle;
                }
            },
            ClipboardItemMessage::Delete => {},
        }
    }
}

/// The entries the filter shows: all of them, those not completed, or those completed.
pub open spec fn shows(filter: Filter, completed: bool) -> bool {
    match filter {
        Filter::All => true,
        Filter::Active => !completed,
        Filter::Completed => completed,
    }
}

impl Filter {
    /// True when the list shows `task` under this filter.
    pub fn matches(self, task: &ClipboardItemUI) -> (r: bool)
        ensures
            r == shows(self, task.completed),
    {
        match self {
            Filter::All => true,
            Filter::Active => !task.completed,
            Filter::Completed => task.completed,
        }
    }
}

/// The history list for `items`, one entry per item in the same order.
pub fn items_from_history(items: Vec<ClipboardItem>) -> (r: Vec<ClipboardItemUI>)
    ensures
        r@.len() == items@.len(),
        forall|i: int|
            0 <= i < r@.len() ==> {
                &&& (#[trigger] r@[i]).id == items@[i].id
                &&& r@[i].content@ == items@[i].content@
                &&& !r@[i].completed
                &&& r@[i].state == ClipboardItemState::Idle
            },
{
    let mut items = items;
    let ghost all = items@;
    let mut out: Vec<ClipboardItemUI> = Vec::new();
    let n: usize = items.len();
    let mut j: usize = 0;
    while j < n
        invariant
            n == all.len(),
            0 <= j <= n,
            items@ == all.subrange(j as int, n as int),
            out@.len() == j,
            forall|i: int|
                0 <= i < j ==> {
                    &&& (#[trigger] out@[i]).id == all[i].id
                    &&& out@[i].content@ == all[i].content@
                    &&& !out@[i].completed
                    &&& out@[i].state == ClipboardItemState::Idle
                },
        decreases n - j,
    {
        let item = items.remove(0);
        proof {
            assert(item == all[j as int]);
            assert(items@ =~= all.subrange(j + 1, n as int));
        }
        out.push(ClipboardItemUI::from_item(item));
        j = j + 1;
    }
    out
}

/// How many entries of `tasks` are not completed.
pub open spec fn active_count(tasks: Seq<ClipboardItemUI>) -> nat
    decreases tasks.len(),
{
    if tasks.len() == 0 {
        0
    } else {
        active_count(tasks.drop_last()) + if tasks.last().completed {
            0nat
        } else {
            1nat
        }
    }
}

/// Counts the entries of `tasks` that are not completed.
pub fn tasks_left(tasks: &Vec<ClipboardItemUI>) -> (r: usize)
    ensures
        r == active_count(tasks@),
{
    let mut count: usize = 0;
    let mut i: usize = 0;
    while i < tasks.len()
        invariant
            0 <= i <= tasks@.len(),
            count == active_count(tasks@.subrange(0, i as int)),
            count <= i,
        decreases tasks@.len() - i,
    {
        proof {
            assert(tasks@.subrange(0, i + 1).drop_last() =~= tasks@.subrange(0, i as int));
        }
        if !tasks[i].completed {
            count = count + 1;
        }
        i = i + 1;
    }
    proof {
        assert(tasks@.subrange(0, i as int) =~= tasks@);
    }
    count
}

/// The positions of the entries of `tasks` that `filter` shows, in list order.
pub fn visible_tasks(tasks: &Vec<ClipboardItemUI>, filter: Filter) -> (r: Vec<usize>)
    ensures
        forall|k: int| 0 <= k < r@.len() ==> (#[trigger] r@[k]) < tasks@.len() && shows(filter, tasks@[r@[k] as int].completed),
        forall|k: int, l: int| 0 <= k < l < r@.len() ==> r@[k] < r@[l],
        forall|i: int| 0 <= i < tasks@.len() && shows(filter, (#[trigger] tasks@[i]).completed) ==> r@.contains(i as usize),
{
    let mut out: Vec<usize> = Vec::new();
    let mut i: usize = 0;
    while i < tasks.len()
        invariant
            0 <= i <= tasks@.len(),
            forall|k: int| 0 <= k < out@.len() ==> (#[trigger] out@[k]) < i && shows(filter, tasks@[out@[k] as int].completed),
            forall|k: int, l: int| 0 <= k < l < out@.len() ==> out@[k] < out@[l],
            forall|j: int| 0 <= j < i && shows(filter, (#[trigger] tasks@[j]).completed) ==> out@.contains(j as usize),
        decreases tasks@.len() - i,
    {
        if filter.matches(&tasks[i]) {
            let ghost before = out@;
            out.push(i);
            assert forall|j: int| 0 <= j < i + 1 && shows(filter, (#[trigger] tasks@[j]).completed) implies out@.contains(j as usize) by {
                if j < i {
                    let k = choose|k: int| 0 <= k < before.len() && before[k] == j as usize;
                    assert(out@[k] == j as usize);
                } else {
                    assert(out@[before.len() as int] == i);
                }
            }
        }
        i = i + 1;
    }
    out
}

/// What the list says when `filter` shows no entry.
pub fn empty_message(filter: Filter) -> (r: &'static str)
    ensures
        filter == Filter::All ==> r@ == "You have not created a task yet..."@,
        filter == Filter::Active ==> r@ == "All your tasks are done! :D"@,
        filter == Filter::Completed ==> r@ == "You have not completed a task yet..."@,
{
    match filter {
        Filter::All => "You have not created a task yet...",
        Filter::Active => "All your tasks are done! :D",
        Filter::Completed => "You have not completed a task yet...",
    }
}

} // verus!
