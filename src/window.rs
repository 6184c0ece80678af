use vstd::prelude::*;
use crate::db::{ClipboardItem, StoreError};
use crate::items::{
    item_updated, items_from_history, ClipboardItemMessage, ClipboardItemState, ClipboardItemUI,
    Filter,
};

verus! {

/// What the history window starts from.
pub struct SavedState {
    pub input_value: String,
    pub filter: Filter,
    pub items: Vec<ClipboardItemUI>,
}

/// Why the history window could not be filled.
#[derive(Clone, Copy, Debug, PartialEq, Eq, Structural)]
pub enum LoadError {
    File,
    Format,
}

/// The window's starting state made of the history as read from the store: an
/// empty input, every entry shown, one list entry per item; a read error gives
/// `LoadError::Format`.
pub fn load_state(history: Result<Vec<ClipboardItem>, StoreError>) -> (r: Result<
    SavedState,
    LoadError,
>)
    ensures
        history is Err <==> r == Err::<SavedState, LoadError>(LoadError::Format),
        history matches Ok(items) ==> (r matches Ok(s) && {
            &&& s.input_value@.len() == 0
            &&& s.filter == Filter::All
            &&& s.items@.len() == items@.len()
            &&& forall|i: int|
                0 <= i < s.items@.len() ==> {
                    &&& (#[trigger] s.items@[i]).id == items@[i].id
                    &&& s.items@[i].content@ == items@[i].content@
                    &&& !s.items@[i].completed
                    &&& s.items@[i].state == ClipboardItemState::Idle
                }
        }),
{
    match history {
        Ok(items) => Ok(
            SavedState {
                input_value: String::new(),
                filter: Filter::All,
                items: items_from_history(items),
            },
        ),
        Err(_) => Err(LoadError::Format),
    }
}

/// An action of the window's own, beyond its state.
pub enum WindowCommand {
    Nothing,
    /// Focus the input line.
    FocusInput,
    /// Focus the edit field of the entry at this index and select its text.
    FocusEntry(usize),
    FocusNext,
    FocusPrevious,
    /// Switch to full screen (`true`) or to a window (`false`).
    SetFullscreen(bool),
}

/// What happens in the history window.
pub enum ListMessage {
    Loaded(Result<SavedState, LoadError>),
    Saved,
    InputChanged(String),
    CreateTask,
    FilterChanged(Filter),
    TaskMessage(usize, ClipboardItemMessage),
    TabPressed { shift: bool },
    ToggleFullscreen(bool),
}

/// The state of the loaded history window.
pub struct ListState {
    pub input_value: String,
    pub filter: Filter,
    pub tasks: Vec<ClipboardItemUI>,
    pub dirty: bool,
    pub saving: bool,
}

/// The history window: loading, or loaded.
pub enum HistoryWindow {
    Loading,
    Loaded(ListState),
}

/// `new` is `old` after `message`, apart from the saving flags.
pub open spec fn list_updated(old: ListState, new: ListState, message: ListMessage) -> bool {
    match message {
        ListMessage::InputChanged(v) => {
            &&& new.input_value@ == v@
            &&& new.filter == old.filter
            &&& new.tasks@ == old.tasks@
        },
        ListMessage::CreateTask => {
            &&& new.filter == old.filter
            &&& if old.input_value@.len() == 0 {
                &&& new.input_value@ == old.input_value@
                &&& new.tasks@ == old.tasks@
            } else {
                &&& new.input_value@.len() == 0
                &&& new.tasks@.len() == old.tasks@.len() + 1
                &&& new.tasks@.drop_last() == old.tasks@
                &&& new.tasks@.last().id == 1
                &&& new.tasks@.last().content@ == old.input_value@
                &&& !new.tasks@.last().completed
                &&& new.tasks@.last().state == ClipboardItemState::Idle
            }
        },
        ListMessage::FilterChanged(f) => {
            &&& new.input_value@ == old.input_value@
            &&& new.filter == f
            &&& new.tasks@ == old.tasks@
        },
        ListMessage::TaskMessage(i, m) => {
            &&& new.input_value@ == old.input_value@
            &&& new.filter == old.filter
            &&& if i >= old.tasks@.len() {
                new.tasks@ == old.tasks@
            } else if m is Delete {
                new.tasks@ == old.tasks@.remove(i as int)
            } else {
                &&& new.tasks@.len() == old.tasks@.len()
                &&& forall|j: int|
                    0 <= j < old.tasks@.len() && j != i ==> #[trigger] new.tasks@[j]
                        == old.tasks@[j]
                &&& item_updated(old.tasks@[i as int], new.tasks@[i as int], m)
            }
        },
        _ => {
            &&& new.input_value@ == old.input_value@
            &&& new.filter == old.filter
            &&& new.tasks@ == old.tasks@
        },
    }
}

/// The command that goes with `message` in the loaded window.
pub open spec fn list_command(old: ListState, message: ListMessage) -> WindowCommand {
    match message {
        ListMessage::TaskMessage(i, m) => if i < old.tasks@.len() && m is Edit {
            WindowCommand::FocusEntry(i)
        } else {
            WindowCommand::Nothing
        },
        ListMessage::TabPressed { shift } => if shift {
            WindowCommand::FocusPrevious
        } else {
            WindowCommand::FocusNext
        },
        ListMessage::ToggleFullscreen(full) => WindowCommand::SetFullscreen(full),
        _ => WindowCommand::Nothing,
    }
}

impl ListState {
    /// The loaded window made of a saved state; nothing to save yet.
    pub fn from_saved(saved: SavedState) -> (r: ListState)
        ensures
            r.input_value@ == saved.input_value@,
            r.filter == saved.filter,
            r.tasks@ == saved.items@,
            !r.dirty,
            !r.saving,
    {
        ListState {
            input_value: saved.input_value,
            filter: saved.filter,
            tasks: saved.items,
            dirty: false,
            saving: false,
        }
    }

    /// The loaded window with nothing in it.
    pub fn empty() -> (r: ListState)
        ensures
            r.input_value@.len() == 0,
            r.filter == Filter::All,
            r.tasks@.len() == 0,
            !r.dirty,
            !r.saving,
    {
        ListState {
            input_value: String::new(),
            filter: Filter::All,
            tasks: Vec::new(),
            dirty: false,
            saving: false,
        }
    }

    /// Applies one message. Returns the command that goes with it and whether a
    /// save of the state is to start: every message but a finished save marks the
    /// state as changed, and a save starts when the state is changed and no save
    /// is running.
    pub fn update(&mut self, message: ListMessage) -> (r: (WindowCommand, bool))
        ensures
            list_updated(*old(self), *final(self), message),
            r.0 == list_command(*old(self), message),
            message is Saved ==> {
                &&& r.1 == old(self).dirty
                &&& !final(self).dirty
                &&& final(self).saving == old(self).dirty
            },
            !(message is Saved) ==> {
                &&& r.1 == !old(self).saving
                &&& final(self).dirty == old(self).saving
                &&& final(self).saving
            },
    {
        let mut saved = false;
        let command = match message {
            ListMessage::InputChanged(value) => {
                self.input_value = value;
                WindowCommand::Nothing
            },
            ListMessage::CreateTask => {
                if !self.input_value.as_str().is_empty() {
                    let ghost before = self.tasks@;
                    self.tasks.push(ClipboardItemUI::new(self.input_value.clone()));
                    self.input_value = String::new();
                    assert(self.tasks@.drop_last() =~= before);
                }
                WindowCommand::Nothing
            },
            ListMessage::FilterChanged(filter) => {
                self.filter = filter;
                WindowCommand::Nothing
            },
            ListMessage::TaskMessage(i, task_message) => {
                if i >= self.tasks.len() {
                    WindowCommand::Nothing
                } else if let ClipboardItemMessage::Delete = task_message {
                    self.tasks.remove(i);
                    WindowCommand::Nothing
                } else {
                    let should_focus = matches!(task_message, ClipboardItemMessage::Edit);
                    let ghost before = self.tasks@;
                    let mut task = self.tasks.remove(i);
                    task.update(task_message);
                    self.tasks.insert(i, task);
                    assert forall|j: int| 0 <= j < before.len() && j != i implies #[trigger] self.tasks@[j]
                        == before[j] by {
                        if j < i {
                            assert(self.tasks@[j] == before.remove(i as int)[j]);
                        } else {
                            assert(self.tasks@[j] == before.remove(i as int)[j - 1]);
                        }
                    }
                    if should_focus {
                        WindowCommand::FocusEntry(i)
                    } else {
                        WindowCommand::Nothing
                    }
                }
            },
            ListMessage::Saved => {
                self.saving = false;
                saved = true;
                WindowCommand::Nothing
            },
            ListMessage::TabPressed { shift } => {
                if shift {
                    WindowCommand::FocusPrevious
                } else {
                    WindowCommand::FocusNext
                }
            },
            ListMessage::ToggleFullscreen(full) => WindowCommand::SetFullscreen(full),
            ListMessage::Loaded(_) => WindowCommand::Nothing,
        };
        if !saved {
            self.dirty = true;
        }
        let save = if self.dirty && !self.saving {
            self.dirty = false;
            self.saving = true;
            true
        } else {
            false
        };
        (command, save)
    }
}

impl HistoryWindow {
    /// The window before the history has been read.
    pub fn new() -> (r: HistoryWindow)
        ensures
            r is Loading,
    {
        HistoryWindow::Loading
    }

    /// Applies one message. While loading, only the outcome of the load counts:
    /// a loaded state fills the window, a load error leaves it empty, and the
    /// input line gets the focus. Once loaded, see `ListState::update`.
    pub fn update(&mut self, message: ListMessage) -> (r: (WindowCommand, bool))
        ensures
            *old(self) is Loading ==> {
                &&& r == (WindowCommand::FocusInput, false)
                &&& match message {
                    ListMessage::Loaded(Ok(s)) => *final(self) matches HistoryWindow::Loaded(l) && {
                        &&& l.input_value@ == s.input_value@
                        &&& l.filter == s.filter
                        &&& l.tasks@ == s.items@
                        &&& !l.dirty
                        &&& !l.saving
                    },
                    ListMessage::Loaded(Err(_)) => *final(self) matches HistoryWindow::Loaded(l) && {
                        &&& l.input_value@.len() == 0
                        &&& l.filter == Filter::All
                        &&& l.tasks@.len() == 0
                        &&& !l.dirty
                        &&& !l.saving
                    },
                    _ => *final(self) is Loading,
                }
            },
            *old(self) matches HistoryWindow::Loaded(o) ==> (*final(self) matches HistoryWindow::Loaded(
                f,
            ) && list_updated(o, f, message) && r.0 == list_command(o, message) && if message is Saved {
                &&& r.1 == o.dirty
                &&& !f.dirty
                &&& f.saving == o.dirty
            } else {
                &&& r.1 == !o.saving
                &&& f.dirty == o.saving
                &&& f.saving
            }),
    {
        match self {
            HistoryWindow::Loading => {
                match message {
                    ListMessage::Loaded(Ok(state)) => {
                        *self = HistoryWindow::Loaded(ListState::from_saved(state));
                    },
                    ListMessage::Loaded(Err(_)) => {
                        *self = HistoryWindow::Loaded(ListState::empty());
                    },
                    _ => {},
                }
                (WindowCommand::FocusInput, false)
            },
            HistoryWindow::Loaded(state) => state.update(message),
        }
    }
}

} // verus!
