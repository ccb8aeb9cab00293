//! What the user does in the panes.
//!
//! An action runs in steps. Each step either ends with a reply or names the one
//! thing that the host is to do on disk, together with what it has to hand back;
//! the effects that wait in the store are performed before that.

use crate::docs::{self, FileStat, ViewMode};
use crate::json::{self, at, text_at, text_or_empty, texts_at, Json, JsonView};
use crate::panes::{self, document_schema, notes_schema, recent_row_id, PaneState};
use crate::paths;
use crate::store::{
    self, DiskFile, Moved, ReadBack, RenameStep, SaveOutcome, SaveStep, Target, Written,
};
use crate::text::{self, join2, join3, push_decimal, same, same_option, trim};
use vstd::prelude::*;
use vstd::string::StringExecFns;

verus! {

/// Who posted an action: the sidebar or the viewport, and whether the viewport is
/// to be fetched again afterwards.
#[derive(Clone, Copy)]
pub struct Turn {
    pub notes_pane: bool,
    pub refetch: bool,
}

/// The end of an action.
pub struct Reply {
    pub turn: Turn,
    pub toast: Option<String>,
}

/// Why a file is opened.
pub enum Then {
    /// The user gave its path.
    Path,
    /// The user picked it among the recent files.
    Recent,
    /// It is a new note, at this path.
    Untitled { path: String },
}

/// How an action goes on.
pub enum Step {
    /// It has ended.
    Done(Reply),
    /// Make `path` canonical where that can be, and read what stands there; hand
    /// it to `open_loaded`.
    Load { turn: Turn, then: Then, path: String },
    /// See whether something stands at `path`; tell `untitled_checked`.
    Exists { turn: Turn, cwd: Option<String>, n: usize, path: String },
    /// See how the file at `path` stands; tell `save_checked`.
    Stat { turn: Turn, id: String, force: bool, path: String },
    /// Make the directory `parent`, then write the file; tell `save_written`.
    Write { turn: Turn, id: String, parent: Option<String>, path: String, content: String },
    /// Read the file at `path` again; hand it to `reload_read`.
    Read { turn: Turn, id: String, path: String },
    /// Make `path` canonical where that can be; hand it to `rename_resolved`.
    Canonical { turn: Turn, id: String, name: String, path: String },
    /// See whether something stands at the two paths; tell `rename_probed`.
    Probe { turn: Turn, id: String, name: String, old: String, target: String },
    /// Make the directory `parent`, then move the file; tell `rename_moved`.
    Move {
        turn: Turn,
        id: String,
        name: String,
        parent: Option<String>,
        from: String,
        to: String,
    },
}

/// Why a file is opened, as mathematics.
pub ghost enum ThenView {
    Path,
    Recent,
    Untitled { path: Seq<char> },
}

impl View for Then {
    type V = ThenView;

    open spec fn view(&self) -> ThenView {
        match *self {
            Then::Path => ThenView::Path,
            Then::Recent => ThenView::Recent,
            Then::Untitled { path } => ThenView::Untitled { path: path@ },
        }
    }
}

/// How an action goes on, as mathematics.
pub ghost enum StepView {
    Done { turn: Turn, toast: Option<Seq<char>> },
    Load { turn: Turn, then: ThenView, path: Seq<char> },
    Exists { turn: Turn, cwd: Option<Seq<char>>, n: usize, path: Seq<char> },
    Stat { turn: Turn, id: Seq<char>, force: bool, path: Seq<char> },
    Write {
        turn: Turn,
        id: Seq<char>,
        parent: Option<Seq<char>>,
        path: Seq<char>,
        content: Seq<char>,
    },
    Read { turn: Turn, id: Seq<char>, path: Seq<char> },
    Canonical { turn: Turn, id: Seq<char>, name: Seq<char>, path: Seq<char> },
    Probe { turn: Turn, id: Seq<char>, name: Seq<char>, old: Seq<char>, target: Seq<char> },
    Move {
        turn: Turn,
        id: Seq<char>,
        name: Seq<char>,
        parent: Option<Seq<char>>,
        from: Seq<char>,
        to: Seq<char>,
    },
}

impl View for Step {
    type V = StepView;

    open spec fn view(&self) -> StepView {
        match *self {
            Step::Done(reply) => StepView::Done {
                turn: reply.turn,
                toast: text::maybe_text(reply.toast),
            },
            Step::Load { turn, then, path } => StepView::Load { turn, then: then@, path: path@ },
            Step::Exists { turn, cwd, n, path } => StepView::Exists {
                turn,
                cwd: text::maybe_text(cwd),
                n,
                path: path@,
            },
            Step::Stat { turn, id, force, path } => StepView::Stat {
                turn,
                id: id@,
                force,
                path: path@,
            },
            Step::Write { turn, id, parent, path, content } => StepView::Write {
                turn,
                id: id@,
                parent: text::maybe_text(parent),
                path: path@,
                content: content@,
            },
            Step::Read { turn, id, path } => StepView::Read { turn, id: id@, path: path@ },
            Step::Canonical { turn, id, name, path } => StepView::Canonical {
                turn,
                id: id@,
                name: name@,
                path: path@,
            },
            Step::Probe { turn, id, name, old, target } => StepView::Probe {
                turn,
                id: id@,
                name: name@,
                old: old@,
                target: target@,
            },
            Step::Move { turn, id, name, parent, from, to } => StepView::Move {
                turn,
                id: id@,
                name: name@,
                parent: text::maybe_text(parent),
                from: from@,
                to: to@,
            },
        }
    }
}

/// An action that has ended without a message.
pub open spec fn quiet(turn: Turn) -> StepView {
    StepView::Done { turn, toast: None }
}

/// An action that has ended with a message.
pub open spec fn toast(turn: Turn, line: Seq<char>) -> StepView {
    StepView::Done { turn, toast: Some(line) }
}

/// The text of a member; empty where it has none.
pub open spec fn text_in(value: JsonView, key: Seq<char>) -> Seq<char> {
    match value.at(key).text() {
        Some(t) => t,
        None => seq![],
    }
}

/// Who posted an action.
pub open spec fn turn_of(body: JsonView) -> Turn {
    let notes_pane = body.at("pane"@).text() == Some("notes"@);
    Turn { notes_pane, refetch: notes_pane && text_in(body, "action"@) != "search"@ }
}

/// The path of an untitled note in the working directory, as the user is told it.
pub open spec fn untitled(cwd: Option<Seq<char>>, n: usize) -> Seq<char> {
    let dir = match cwd {
        Some(dir) => dir,
        None => "."@,
    };
    paths::joined(dir, "untitled-"@ + text::decimal(n as nat) + ".md"@)
}

/// Whether a note at a path is open.
pub open spec fn open_at(notes: Seq<docs::NoteView>, path: Seq<char>) -> bool {
    exists|i: int| 0 <= i < notes.len() && paths::same_path((#[trigger] notes[i]).path, path)
}

/// The first recent path whose row has an id.
pub open spec fn recent_with(recent: Seq<Seq<char>>, id: Seq<char>) -> Option<Seq<char>>
    decreases recent.len(),
{
    if recent.len() == 0 {
        None
    } else if panes::recent_id(recent[0]) == id {
        Some(recent[0])
    } else {
        recent_with(recent.skip(1), id)
    }
}

impl panes::PaneView {
    /// With another store.
    pub open spec fn with_store(self, store: store::StoreView) -> panes::PaneView {
        panes::PaneView { store, ..self }
    }

    /// Which note an editor draft belongs to: the one that it names, or the active
    /// one if it names none; and none, if that note is not open.
    pub open spec fn draft_target(self, keys: JsonView) -> Option<Seq<char>> {
        let target = match keys.at("editor"@).text() {
            Some(id) => Some(id),
            None => self.store.active_id,
        };
        match target {
            Some(id) => if self.store.has(id) {
                Some(id)
            } else {
                None
            },
            None => None,
        }
    }

    /// With the editor draft of an action in the note that it belongs to.
    pub open spec fn absorbed(self, body: JsonView) -> panes::PaneView {
        match (
            body.at("values"@).at("editor"@).text(),
            self.draft_target(body.at("value_keys"@)),
        ) {
            (Some(draft), Some(target)) => self.with_store(self.store.edited(target, draft)),
            _ => self,
        }
    }

    /// The start of a save of the active note.
    pub open spec fn save_started(self, turn: Turn, force: bool) -> StepView {
        match self.store.active_id {
            Some(id) => match self.store.note(id) {
                Some(note) => StepView::Stat { turn, id, force, path: note.path },
                None => toast(turn, "Save failed: "@ + store::unknown_note(id)),
            },
            None => quiet(turn),
        }
    }

    /// The start of a reload of the active note.
    pub open spec fn reload_started(self, turn: Turn) -> StepView {
        match self.store.active_id {
            Some(id) => match self.store.note(id) {
                Some(note) => StepView::Read { turn, id, path: note.path },
                None => toast(turn, "Reload failed: "@ + store::unknown_note(id)),
            },
            None => quiet(turn),
        }
    }

    /// The start of a rename of the note that is being renamed.
    pub open spec fn rename_started(
        self,
        turn: Turn,
        values: JsonView,
        cwd: Option<Seq<char>>,
    ) -> StepView {
        match self.renaming {
            Some(id) => {
                let name = text::trimmed(text_in(values, "rename:"@ + id));
                if name.len() == 0 {
                    toast(turn, "Enter a name"@)
                } else {
                    match self.store.rename_target(id, name, cwd) {
                        Ok(store::TargetView::Path(target)) => self.rename_probing(
                            turn,
                            id,
                            name,
                            target,
                        ),
                        Ok(store::TargetView::Resolve(path)) => StepView::Canonical {
                            turn,
                            id,
                            name,
                            path,
                        },
                        Err(why) => toast(turn, "Rename failed: "@ + why),
                    }
                }
            },
            None => quiet(turn),
        }
    }

    /// The question for the two paths of a rename.
    pub open spec fn rename_probing(
        self,
        turn: Turn,
        id: Seq<char>,
        name: Seq<char>,
        target: Seq<char>,
    ) -> StepView {
        match self.store.note(id) {
            Some(note) => StepView::Probe { turn, id, name, old: note.path, target },
            None => toast(turn, "Rename failed: "@ + store::unknown_note(id)),
        }
    }

    /// The start of an opening of the path in the open field.
    pub open spec fn open_started(
        self,
        turn: Turn,
        values: JsonView,
        cwd: Option<Seq<char>>,
    ) -> StepView {
        let raw = text::trimmed(text_in(values, "open_path"@));
        if raw.len() == 0 {
            toast(turn, "Enter a path to open"@)
        } else {
            StepView::Load {
                turn,
                then: ThenView::Path,
                path: store::resolved(self.store.home, cwd, raw),
            }
        }
    }

    /// The first step of an action, once the draft is absorbed: the state after it
    /// and how the action goes on.
    pub open spec fn acted(self, body: JsonView, cwd: Option<Seq<char>>) -> (
        panes::PaneView,
        StepView,
    ) {
        let action = text_in(body, "action"@);
        let values = body.at("values"@);
        let value = text_in(values, "value"@);
        let turn = turn_of(body);
        if action == "draft"@ {
            (self, quiet(turn))
        } else if action == "switch"@ {
            if self.store.has(value) {
                let p = panes::PaneView {
                    store: self.store.focused(value).touched(),
                    conflict: None,
                    renaming: None,
                    ..self
                };
                (p, quiet(turn))
            } else {
                (self, quiet(turn))
            }
        } else if action == "rename"@ {
            if self.store.has(value) {
                (panes::PaneView { renaming: Some(value), ..self }, quiet(turn))
            } else {
                (self, quiet(turn))
            }
        } else if action == "rename_apply"@ {
            (self, self.rename_started(turn, values, cwd))
        } else if action == "rename_cancel"@ {
            (panes::PaneView { renaming: None, ..self }, quiet(turn))
        } else if action == "reorder_notes"@ {
            let s = self.store.reordered(values.at("order"@).item_texts());
            if store::note_ids(s.notes) != store::note_ids(self.store.notes) {
                (self.with_store(s.touched()), quiet(turn))
            } else {
                (self.with_store(s), quiet(turn))
            }
        } else if action == "set_mode"@ {
            match docs::mode_named(value) {
                Some(mode) => {
                    let s = store::StoreView { view_mode: mode, ..self.store };
                    (self.with_store(s.touched()), quiet(turn))
                },
                None => (self, quiet(turn)),
            }
        } else if action == "save"@ {
            (self, self.save_started(turn, false))
        } else if action == "overwrite"@ {
            (self, self.save_started(turn, true))
        } else if action == "reload"@ {
            (self, self.reload_started(turn))
        } else if action == "close_active"@ {
            match self.store.active_id {
                Some(id) => {
                    let p = panes::PaneView {
                        store: self.store.closed(id),
                        conflict: None,
                        renaming: None,
                        ..self
                    };
                    (p, quiet(turn))
                },
                None => (self, quiet(turn)),
            }
        } else if action == "close_note"@ {
            if self.store.has(value) {
                let p = panes::PaneView {
                    store: self.store.closed(value),
                    conflict: None,
                    renaming: if self.renaming == Some(value) {
                        None
                    } else {
                        self.renaming
                    },
                    ..self
                };
                (p, quiet(turn))
            } else {
                (self, quiet(turn))
            }
        } else if action == "search"@ {
            let search = text::trimmed(text_in(values, "search"@));
            (panes::PaneView { search, ..self }, quiet(turn))
        } else if action == "new_note"@ {
            (self, self.untitled_asked(turn, cwd, 1))
        } else if action == "toggle_open_input"@ {
            (panes::PaneView { open_input: !self.open_input, ..self }, quiet(turn))
        } else if action == "toggle_wrap"@ {
            let s = store::StoreView { word_wrap: value == "true"@, ..self.store };
            (self.with_store(s.touched()), quiet(turn))
        } else if action == "open"@ {
            (self, self.open_started(turn, values, cwd))
        } else if action == "open_recent"@ {
            (self, self.recent_started(turn, value, cwd))
        } else {
            (self, toast(turn, "Unknown action "@ + action))
        }
    }

    /// The start of an opening of a recent file.
    pub open spec fn recent_started(
        self,
        turn: Turn,
        id: Seq<char>,
        cwd: Option<Seq<char>>,
    ) -> StepView {
        match recent_with(self.store.recent, id) {
            Some(path) => StepView::Load {
                turn,
                then: ThenView::Recent,
                path: store::resolved(self.store.home, cwd, path),
            },
            None => quiet(turn),
        }
    }

    /// An action: the editor draft is absorbed first, so that nothing typed is
    /// lost, and then the action takes its first step.
    pub open spec fn handled(self, body: JsonView, cwd: Option<Seq<char>>) -> (
        panes::PaneView,
        StepView,
    ) {
        self.absorbed(body).acted(body, cwd)
    }

    /// After a file was opened.
    pub open spec fn after_load(self, then: ThenView, file: store::DiskFileView) -> panes::PaneView {
        let p = self.with_store(self.store.opened(file));
        match (self.store.open_result(file), then) {
            (Ok(_), ThenView::Path) => panes::PaneView { open_input: false, ..p },
            (Ok(_), ThenView::Untitled { .. }) => panes::PaneView { renaming: None, ..p },
            _ => p,
        }
    }

    /// What the opening of a file comes to.
    pub open spec fn load_step(
        self,
        turn: Turn,
        then: ThenView,
        file: store::DiskFileView,
    ) -> StepView {
        match (self.store.open_result(file), then) {
            (Ok(_), ThenView::Untitled { path }) => toast(
                turn,
                "New note "@ + path + " (created on save)"@,
            ),
            (Ok(_), _) => quiet(turn),
            (Err(why), ThenView::Untitled { .. }) => toast(turn, "New note failed: "@ + why),
            (Err(why), _) => toast(turn, "Open failed: "@ + why),
        }
    }

    /// Where an untitled note would be.
    pub open spec fn untitled_at(self, cwd: Option<Seq<char>>, n: usize) -> Seq<char> {
        store::resolved(self.store.home, cwd, untitled(cwd, n))
    }

    /// The question for the path of an untitled note.
    pub open spec fn untitled_asked(
        self,
        turn: Turn,
        cwd: Option<Seq<char>>,
        n: usize,
    ) -> StepView {
        StepView::Exists { turn, cwd, n, path: self.untitled_at(cwd, n) }
    }

    /// The next step of a new note: a path where nothing stands and no note is
    /// open is taken, and otherwise the next one is tried.
    pub open spec fn untitled_step(
        self,
        turn: Turn,
        cwd: Option<Seq<char>>,
        n: usize,
        exists: bool,
    ) -> StepView {
        let path = self.untitled_at(cwd, n);
        if !exists && !open_at(self.store.notes, path) {
            StepView::Load { turn, then: ThenView::Untitled { path: untitled(cwd, n) }, path }
        } else {
            self.untitled_asked(turn, cwd, n.wrapping_add(1))
        }
    }

    /// The content that a note is saved with: its buffer.
    pub open spec fn content_of(self, id: Seq<char>) -> Seq<char> {
        match self.store.note(id) {
            Some(note) => note.content,
            None => seq![],
        }
    }

    /// After the guard of a save: a conflict is remembered under the name of the
    /// note.
    pub open spec fn after_check(
        self,
        id: Seq<char>,
        force: bool,
        disk: Option<FileStat>,
    ) -> panes::PaneView {
        let content = self.content_of(id);
        let p = self.with_store(self.store.save_begun(id, content));
        match self.store.save_step(id, content, force, disk) {
            Ok(store::SaveStepView::Conflict { .. }) => panes::PaneView {
                conflict: Some(
                    match p.store.note(id) {
                        Some(note) => docs::shown_name(note.path),
                        None => seq![],
                    },
                ),
                ..p
            },
            _ => p,
        }
    }

    /// The next step of a save after its guard.
    pub open spec fn check_step(
        self,
        turn: Turn,
        id: Seq<char>,
        force: bool,
        disk: Option<FileStat>,
    ) -> StepView {
        match self.store.save_step(id, self.content_of(id), force, disk) {
            Ok(store::SaveStepView::Write { parent, path, content }) => StepView::Write {
                turn,
                id,
                parent,
                path,
                content,
            },
            Ok(_) => quiet(turn),
            Err(why) => toast(turn, "Save failed: "@ + why),
        }
    }

    /// After the attempt to write the file of a note.
    pub open spec fn after_write(self, id: Seq<char>, written: Written) -> panes::PaneView {
        let p = self.with_store(self.store.saved(id, written));
        if self.store.save_result(id, written) is Ok {
            panes::PaneView { conflict: None, ..p }
        } else {
            p
        }
    }

    /// What the attempt to write the file of a note comes to.
    pub open spec fn write_step(self, turn: Turn, id: Seq<char>, written: Written) -> StepView {
        match self.store.save_result(id, written) {
            Ok(_) => toast(turn, "Saved"@),
            Err(why) => toast(turn, "Save failed: "@ + why),
        }
    }

    /// After the file of a note was read again.
    pub open spec fn after_read(self, id: Seq<char>, read: store::ReadBackView) -> panes::PaneView {
        let p = self.with_store(self.store.reloaded(id, read));
        if self.store.reload_result(id, read) is Ok {
            panes::PaneView { conflict: None, ..p }
        } else {
            p
        }
    }

    /// What reading the file of a note again comes to.
    pub open spec fn read_step(
        self,
        turn: Turn,
        id: Seq<char>,
        read: store::ReadBackView,
    ) -> StepView {
        match self.store.reload_result(id, read) {
            Ok(_) => toast(turn, "Reloaded from disk"@),
            Err(why) => toast(turn, "Reload failed: "@ + why),
        }
    }

    /// With a rename that has ended well.
    pub open spec fn named(self) -> panes::PaneView {
        panes::PaneView { renaming: None, conflict: None, ..self }
    }

    /// After the decision on a rename.
    pub open spec fn after_probe(
        self,
        id: Seq<char>,
        name: Seq<char>,
        target: Seq<char>,
        old_exists: bool,
        target_exists: bool,
    ) -> panes::PaneView {
        let p = self.with_store(self.store.rename_decided(id, target, old_exists));
        match self.store.rename_step(id, name, target, old_exists, target_exists) {
            Ok(store::RenameStepView::Over(_)) => p.named(),
            _ => p,
        }
    }

    /// The next step of a rename after the decision.
    pub open spec fn probe_step(
        self,
        turn: Turn,
        id: Seq<char>,
        name: Seq<char>,
        target: Seq<char>,
        old_exists: bool,
        target_exists: bool,
    ) -> StepView {
        match self.store.rename_step(id, name, target, old_exists, target_exists) {
            Ok(store::RenameStepView::Over(_)) => toast(turn, "Renamed to "@ + name),
            Ok(store::RenameStepView::Move { parent, from, to }) => StepView::Move {
                turn,
                id,
                name,
                parent,
                from,
                to,
            },
            Err(why) => toast(turn, "Rename failed: "@ + why),
        }
    }

    /// After the attempt to move the file of a note.
    pub open spec fn after_move(
        self,
        id: Seq<char>,
        target: Seq<char>,
        moved: Moved,
    ) -> panes::PaneView {
        let p = self.with_store(self.store.renamed(id, target, moved));
        if self.store.rename_result(id, target, moved) is Ok {
            p.named()
        } else {
            p
        }
    }

    /// What the attempt to move the file of a note comes to.
    pub open spec fn move_step(
        self,
        turn: Turn,
        id: Seq<char>,
        name: Seq<char>,
        target: Seq<char>,
        moved: Moved,
    ) -> StepView {
        match self.store.rename_result(id, target, moved) {
            Ok(_) => toast(turn, "Renamed to "@ + name),
            Err(why) => toast(turn, "Rename failed: "@ + why),
        }
    }
}

/// Ends an action without a message.
fn end(turn: Turn) -> (r: Step)
    ensures
        r@ == quiet(turn),
{
    Step::Done(Reply { turn, toast: None })
}

/// Ends an action with a message.
fn say(turn: Turn, line: String) -> (r: Step)
    ensures
        r@ == toast(turn, line@),
{
    Step::Done(Reply { turn, toast: Some(line) })
}

/// The path of an untitled note in the working directory, as the user is told it.
fn untitled_path(cwd: Option<&str>, n: usize) -> (r: String)
    ensures
        r@ == untitled(text::maybe_str(cwd), n),
{
    let mut name = "untitled-".to_owned();
    push_decimal(&mut name, n as u128);
    name.append(".md");
    match cwd {
        Some(dir) => paths::join(dir, name.as_str()),
        None => paths::join(".", name.as_str()),
    }
}

impl PaneState {
    /// Which note an incoming editor draft belongs to. The draft names the note
    /// that its editor was holding, as it may come late, when another note is
    /// already active. Only a draft that names none goes to the active note. The
    /// draft of a note that is no longer open goes nowhere.
    pub fn draft_target_id(&self, value_keys: Option<&Json>) -> (r: Option<String>)
        ensures
            text::maybe_text(r) == self@.draft_target(json::seen(value_keys)),
    {
        let target: Option<String> = match text_at(value_keys, "editor") {
            Some(id) => Some(id.to_owned()),
            None => self.store.active_id.clone(),
        };
        match target {
            Some(id) => if self.store.has(id.as_str()) {
                Some(id)
            } else {
                None
            },
            None => None,
        }
    }

    /// Puts the editor draft of an action into the note that it belongs to.
    pub fn absorb_editor_draft(&mut self, body: &Json)
        ensures
            final(self)@ == old(self)@.absorbed(body@),
    {
        if let Some(draft) = text_at(at(Some(body), "values"), "editor") {
            if let Some(target) = self.draft_target_id(at(Some(body), "value_keys")) {
                self.store.edit(target.as_str(), draft.to_owned());
            }
        }
    }

    fn start_save(&self, turn: Turn, force: bool) -> (r: Step)
        ensures
            r@ == self@.save_started(turn, force),
    {
        match &self.store.active_id {
            Some(id) => match self.store.get(id.as_str()) {
                Some(note) => Step::Stat { turn, id: id.clone(), force, path: note.path.clone() },
                None => say(
                    turn,
                    join2("Save failed: ", join2("unknown note ", id.as_str()).as_str()),
                ),
            },
            None => end(turn),
        }
    }

    fn start_reload(&self, turn: Turn) -> (r: Step)
        ensures
            r@ == self@.reload_started(turn),
    {
        match &self.store.active_id {
            Some(id) => match self.store.get(id.as_str()) {
                Some(note) => Step::Read { turn, id: id.clone(), path: note.path.clone() },
                None => say(
                    turn,
                    join2("Reload failed: ", join2("unknown note ", id.as_str()).as_str()),
                ),
            },
            None => end(turn),
        }
    }

    fn probe_rename(&self, turn: Turn, id: String, name: String, target: String) -> (r: Step)
        ensures
            r@ == self@.rename_probing(turn, id@, name@, target@),
    {
        match self.store.get(id.as_str()) {
            Some(note) => Step::Probe { turn, old: note.path.clone(), id, name, target },
            None => say(
                turn,
                join2("Rename failed: ", join2("unknown note ", id.as_str()).as_str()),
            ),
        }
    }

    fn start_rename(&self, turn: Turn, values: Option<&Json>, cwd: Option<&str>) -> (r: Step)
        ensures
            r@ == self@.rename_started(turn, json::seen(values), text::maybe_str(cwd)),
    {
        match &self.renaming {
            Some(id) => {
                let key = join2("rename:", id.as_str());
                let name = trim(text_or_empty(values, key.as_str()).as_str());
                if name.as_str().is_empty() {
                    return say(turn, "Enter a name".to_owned());
                }
                match self.store.rename_to(id.as_str(), name.as_str(), cwd) {
                    Ok(Target::Path(target)) => self.probe_rename(turn, id.clone(), name, target),
                    Ok(Target::Resolve(path)) => Step::Canonical {
                        turn,
                        id: id.clone(),
                        name,
                        path,
                    },
                    Err(why) => say(turn, join2("Rename failed: ", why.as_str())),
                }
            },
            None => end(turn),
        }
    }

    fn start_open(&self, turn: Turn, values: Option<&Json>, cwd: Option<&str>) -> (r: Step)
        ensures
            r@ == self@.open_started(turn, json::seen(values), text::maybe_str(cwd)),
    {
        let raw = trim(text_or_empty(values, "open_path").as_str());
        if raw.as_str().is_empty() {
            say(turn, "Enter a path to open".to_owned())
        } else {
            Step::Load { turn, then: Then::Path, path: self.store.resolve(raw.as_str(), cwd) }
        }
    }

    fn start_recent(&self, turn: Turn, id: &str, cwd: Option<&str>) -> (r: Step)
        ensures
            r@ == self@.recent_started(turn, id@, text::maybe_str(cwd)),
    {
        let ghost recent = self@.store.recent;
        let mut i: usize = 0;
        assert(recent.skip(0) =~= recent);
        while i < self.store.recent.len()
            invariant
                i <= self.store.recent@.len(),
                recent == text::texts(self.store.recent@),
                recent == self@.store.recent,
                recent_with(recent, id@) == recent_with(recent.skip(i as int), id@),
            decreases self.store.recent@.len() - i,
        {
            let path = self.store.recent[i].as_str();
            assert(recent.skip(i as int)[0] == path@);
            if same(recent_row_id(path).as_str(), id) {
                return Step::Load {
                    turn,
                    then: Then::Recent,
                    path: self.store.resolve(path, cwd),
                };
            }
            assert(recent.skip(i as int).skip(1) =~= recent.skip(i + 1));
            i += 1;
        }
        end(turn)
    }

    fn ask_untitled(&self, turn: Turn, cwd: Option<&str>, n: usize) -> (r: Step)
        ensures
            r@ == self@.untitled_asked(turn, text::maybe_str(cwd), n),
    {
        let path = self.store.resolve(untitled_path(cwd, n).as_str(), cwd);
        let cwd: Option<String> = match cwd {
            Some(dir) => Some(dir.to_owned()),
            None => None,
        };
        Step::Exists { turn, cwd, n, path }
    }

    /// Takes an action up: absorbs the editor draft that rides along, and takes
    /// the first step. `cwd` is the working directory, where there is one.
    #[verifier::rlimit(50)]
    #[verifier::spinoff_prover]
    pub fn handle_action(&mut self, body: &Json, cwd: Option<&str>) -> (r: Step)
        ensures
            (final(self)@, r@) == old(self)@.handled(body@, text::maybe_str(cwd)),
    {
        let action = text_or_empty(Some(body), "action");
        let action = action.as_str();
        let values = at(Some(body), "values");
        let value = text_or_empty(values, "value");
        let value = value.as_str();
        let notes_pane: bool = match text_at(Some(body), "pane") {
            Some(pane) => same(pane, "notes"),
            None => false,
        };
        let turn = Turn { notes_pane, refetch: notes_pane && !same(action, "search") };
        assert(turn == turn_of(body@));
        self.absorb_editor_draft(body);
        if same(action, "draft") {
            end(turn)
        } else if same(action, "switch") {
            if self.store.has(value) {
                self.store.active_id = Some(value.to_owned());
                self.conflict = None;
                self.renaming = None;
                self.store.touch();
            }
            end(turn)
        } else if same(action, "rename") {
            if self.store.has(value) {
                self.renaming = Some(value.to_owned());
            }
            end(turn)
        } else if same(action, "rename_apply") {
            self.start_rename(turn, values, cwd)
        } else if same(action, "rename_cancel") {
            self.renaming = None;
            end(turn)
        } else if same(action, "reorder_notes") {
            let order = texts_at(values, "order");
            if self.store.reorder_notes(&order) {
                self.store.touch();
            }
            end(turn)
        } else if same(action, "set_mode") {
            if let Some(mode) = ViewMode::parse(value) {
                self.store.view_mode = mode;
                self.store.touch();
            }
            end(turn)
        } else if same(action, "save") {
            self.start_save(turn, false)
        } else if same(action, "overwrite") {
            self.start_save(turn, true)
        } else if same(action, "reload") {
            self.start_reload(turn)
        } else if same(action, "close_active") {
            if let Some(id) = self.store.active_id.clone() {
                self.store.close(id.as_str());
                self.conflict = None;
                self.renaming = None;
            }
            end(turn)
        } else if same(action, "close_note") {
            if self.store.has(value) {
                self.store.close(value);
                self.conflict = None;
                if same_option(&self.renaming, value) {
                    self.renaming = None;
                }
            }
            end(turn)
        } else if same(action, "search") {
            self.search = trim(text_or_empty(values, "search").as_str());
            end(turn)
        } else if same(action, "new_note") {
            self.ask_untitled(turn, cwd, 1)
        } else if same(action, "toggle_open_input") {
            self.open_input = !self.open_input;
            end(turn)
        } else if same(action, "toggle_wrap") {
            self.store.word_wrap = same(value, "true");
            self.store.touch();
            end(turn)
        } else if same(action, "open") {
            self.start_open(turn, values, cwd)
        } else if same(action, "open_recent") {
            self.start_recent(turn, value, cwd)
        } else {
            say(turn, join2("Unknown action ", action))
        }
    }

    /// Goes on with a file that was loaded.
    pub fn open_loaded(&mut self, turn: Turn, then: Then, file: DiskFile) -> (r: Step)
        ensures
            final(self)@ == old(self)@.after_load(then@, file@),
            r@ == old(self)@.load_step(turn, then@, file@),
    {
        match (self.store.open(file), then) {
            (Ok(_), Then::Path) => {
                self.open_input = false;
                end(turn)
            },
            (Ok(_), Then::Recent) => end(turn),
            (Ok(_), Then::Untitled { path }) => {
                self.renaming = None;
                say(turn, join3("New note ", path.as_str(), " (created on save)"))
            },
            (Err(why), Then::Untitled { .. }) => say(
                turn,
                join2("New note failed: ", why.as_str()),
            ),
            (Err(why), _) => say(turn, join2("Open failed: ", why.as_str())),
        }
    }

    /// Goes on with a new note, once it is known whether something stands at the
    /// path that it might take.
    pub fn untitled_checked(&self, turn: Turn, cwd: Option<String>, n: usize, exists: bool) -> (r:
        Step)
        ensures
            r@ == self@.untitled_step(turn, text::maybe_text(cwd), n, exists),
    {
        let cwd: Option<&str> = match &cwd {
            Some(dir) => Some(dir.as_str()),
            None => None,
        };
        let told = untitled_path(cwd, n);
        let path = self.store.resolve(told.as_str(), cwd);
        let ghost notes = self@.store.notes;
        let mut open: bool = false;
        let mut i: usize = 0;
        while i < self.store.notes.len()
            invariant
                i <= self.store.notes@.len(),
                notes == store::notes_view(self.store.notes@),
                open == (exists|j: int|
                    0 <= j < i && paths::same_path((#[trigger] notes[j]).path, path@)),
            decreases self.store.notes@.len() - i,
        {
            assert(notes[i as int] == self.store.notes@[i as int]@);
            if paths::equal(self.store.notes[i].path.as_str(), path.as_str()) {
                open = true;
            }
            i += 1;
        }
        if !exists && !open {
            Step::Load { turn, then: Then::Untitled { path: told }, path }
        } else {
            self.ask_untitled(turn, cwd, n.wrapping_add(1))
        }
    }

    /// Goes on with a save, once it is known how the file stands.
    pub fn save_checked(&mut self, turn: Turn, id: String, force: bool, disk: Option<FileStat>) -> (r:
        Step)
        ensures
            final(self)@ == old(self)@.after_check(id@, force, disk),
            r@ == old(self)@.check_step(turn, id@, force, disk),
    {
        let content: String = match self.store.get(id.as_str()) {
            Some(note) => note.content.clone(),
            None => String::new(),
        };
        assert(content@ == self@.content_of(id@));
        match self.store.save(id.as_str(), content, force, disk) {
            Ok(SaveStep::Write { parent, path, content }) => Step::Write {
                turn,
                id,
                parent,
                path,
                content,
            },
            Ok(SaveStep::Over(SaveOutcome::Saved { .. })) => end(turn),
            Ok(SaveStep::Over(SaveOutcome::Conflict { .. })) => {
                let name: String = match self.store.get(id.as_str()) {
                    Some(note) => note.name(),
                    None => String::new(),
                };
                self.conflict = Some(name);
                end(turn)
            },
            Err(why) => say(turn, join2("Save failed: ", why.as_str())),
        }
    }

    /// Goes on with a save, once the file was written or could not be.
    pub fn save_written(&mut self, turn: Turn, id: String, written: Written) -> (r: Step)
        ensures
            final(self)@ == old(self)@.after_write(id@, written),
            r@ == old(self)@.write_step(turn, id@, written),
    {
        match self.store.save_written(id.as_str(), written) {
            Ok(_) => {
                self.conflict = None;
                say(turn, "Saved".to_owned())
            },
            Err(why) => say(turn, join2("Save failed: ", why.as_str())),
        }
    }

    /// Goes on with a reload, once the file was read or could not be.
    pub fn reload_read(&mut self, turn: Turn, id: String, read: ReadBack) -> (r: Step)
        ensures
            final(self)@ == old(self)@.after_read(id@, read@),
            r@ == old(self)@.read_step(turn, id@, read@),
    {
        match self.store.reload(id.as_str(), read) {
            Ok(_) => {
                self.conflict = None;
                say(turn, "Reloaded from disk".to_owned())
            },
            Err(why) => say(turn, join2("Reload failed: ", why.as_str())),
        }
    }

    /// Goes on with a rename, once its target is canonical.
    pub fn rename_resolved(&self, turn: Turn, id: String, name: String, target: String) -> (r: Step)
        ensures
            r@ == self@.rename_probing(turn, id@, name@, target@),
    {
        self.probe_rename(turn, id, name, target)
    }

    /// Goes on with a rename, once it is known what stands at its two paths.
    pub fn rename_probed(
        &mut self,
        turn: Turn,
        id: String,
        name: String,
        target: String,
        old_exists: bool,
        target_exists: bool,
    ) -> (r: Step)
        ensures
            final(self)@ == old(self)@.after_probe(
                id@,
                name@,
                target@,
                old_exists,
                target_exists,
            ),
            r@ == old(self)@.probe_step(turn, id@, name@, target@, old_exists, target_exists),
    {
        match self.store.rename(
            id.as_str(),
            name.as_str(),
            target,
            old_exists,
            target_exists,
        ) {
            Ok(RenameStep::Over(_)) => {
                self.renaming = None;
                self.conflict = None;
                say(turn, join2("Renamed to ", name.as_str()))
            },
            Ok(RenameStep::Move { parent, from, to }) => Step::Move {
                turn,
                id,
                name,
                parent,
                from,
                to,
            },
            Err(why) => say(turn, join2("Rename failed: ", why.as_str())),
        }
    }

    /// Goes on with a rename, once the file was moved or could not be.
    pub fn rename_moved(
        &mut self,
        turn: Turn,
        id: String,
        name: String,
        target: String,
        moved: Moved,
    ) -> (r: Step)
        ensures
            final(self)@ == old(self)@.after_move(id@, target@, moved),
            r@ == old(self)@.move_step(turn, id@, name@, target@, moved),
    {
        match self.store.rename_moved(id.as_str(), target, moved) {
            Ok(_) => {
                self.renaming = None;
                self.conflict = None;
                say(turn, join2("Renamed to ", name.as_str()))
            },
            Err(why) => say(turn, join2("Rename failed: ", why.as_str())),
        }
    }
}

/// The answer to an action: the pane that posted it, whether the viewport is to be
/// fetched again, and the message.
pub open spec fn answer_of(
    p: panes::PaneView,
    turn: Turn,
    toast: Option<Seq<char>>,
    on_disk: Seq<bool>,
) -> JsonView {
    let a = JsonView::object().with(
        "schema"@,
        if turn.notes_pane {
            panes::notes_of(p, panes::searched(p), on_disk)
        } else {
            panes::document_of(p.store)
        },
    );
    let b = if turn.refetch {
        a.with("refetch_document"@, JsonView::Bool(true))
    } else {
        a
    };
    match toast {
        Some(line) => b.with("toast"@, JsonView::Text(line)),
        None => b,
    }
}

/// The answer to an action, given which notes have a file on disk.
pub fn answer(pane: &PaneState, reply: &Reply, on_disk: &Vec<bool>) -> (r: Json)
    ensures
        r@ == answer_of(pane@, reply.turn, text::maybe_text(reply.toast), on_disk@),
{
    let schema: Json = if reply.turn.notes_pane {
        notes_schema(pane, on_disk)
    } else {
        document_schema(pane)
    };
    let mut out = Json::object().with("schema", schema);
    if reply.turn.refetch {
        out = out.with("refetch_document", Json::Bool(true));
    }
    match &reply.toast {
        Some(line) => out.with("toast", Json::text(line.as_str())),
        None => out,
    }
}

} // verus!
