use serde_json::Value;
use std::collections::BTreeMap;
use yedit::actions::{answer, Step};
use yedit::docs::{disk_revision, note_id, FileStat, ViewMode};
use yedit::json::Json;
use yedit::panes::{document_schema, notes_schema, PaneState};
use yedit::server::{document_version, fresh_panes};
use yedit::store::{
    session_paths, session_value, DiskFile, Draft, Effect, Found, Moved, ReadBack, RenameStep,
    SaveOutcome, SaveStep, Store, Target, Written,
};

const HOME: &str = "/home/u";

fn to_value(json: &Json) -> Value {
    match json {
        Json::Null => Value::Null,
        Json::Bool(b) => Value::Bool(*b),
        Json::Number(n) => serde_json::from_str(n).unwrap(),
        Json::Text(t) => Value::String(t.clone()),
        Json::Array(items) => Value::Array(items.iter().map(to_value).collect()),
        Json::Object(members) => Value::Object(
            members.iter().map(|(key, value)| (key.clone(), to_value(value))).collect(),
        ),
    }
}

fn from_value(value: &Value) -> Json {
    match value {
        Value::Null => Json::Null,
        Value::Bool(b) => Json::Bool(*b),
        Value::Number(n) => Json::Number(n.to_string()),
        Value::String(t) => Json::Text(t.clone()),
        Value::Array(items) => Json::Array(items.iter().map(from_value).collect()),
        Value::Object(members) => Json::Object(
            members.iter().map(|(key, value)| (key.clone(), from_value(value))).collect(),
        ),
    }
}

fn json(text: &str) -> Json {
    from_value(&serde_json::from_str(text).unwrap())
}

/// A host in memory: files with their time of modification, the two tables of the
/// database, and the session file.
struct Host {
    files: BTreeMap<String, (String, u128)>,
    unreadable: Vec<String>,
    read_only: Vec<String>,
    has_db: bool,
    drafts: BTreeMap<String, (String, String)>,
    session: Option<String>,
    session_file: Option<String>,
    clock: u128,
}

impl Host {
    fn new() -> Host {
        Host {
            files: BTreeMap::new(),
            unreadable: Vec::new(),
            read_only: Vec::new(),
            has_db: true,
            drafts: BTreeMap::new(),
            session: None,
            session_file: None,
            clock: 1000,
        }
    }

    fn write(&mut self, path: &str, content: &str) {
        self.clock += 1;
        self.files.insert(path.to_string(), (content.to_string(), self.clock));
    }

    fn read(&self, path: &str) -> Option<&str> {
        self.files.get(path).map(|(content, _)| content.as_str())
    }

    fn stands(&self, path: &str) -> bool {
        self.files.contains_key(path) || self.unreadable.iter().any(|p| p == path)
    }

    fn stat(&self, path: &str) -> Option<FileStat> {
        self.files.get(path).map(|(content, ms)| FileStat {
            modified_ms: Some(*ms),
            len: content.len() as u64,
        })
    }

    fn load(&self, path: &str) -> DiskFile {
        let found = match self.files.get(path) {
            Some((content, _)) => Found::Text {
                content: content.clone(),
                stat: self.stat(path),
            },
            None if self.stands(path) => Found::Unreadable,
            None => Found::Missing,
        };
        DiskFile { path: path.to_string(), found }
    }

    fn perform(&mut self, store: &mut Store) {
        for effect in store.take_effects() {
            match effect {
                Effect::PutDraft { path, base_revision, content } => {
                    assert!(self.has_db);
                    self.drafts.insert(path, (base_revision, content));
                }
                Effect::DropDraft { path } => {
                    assert!(self.has_db);
                    self.drafts.remove(&path);
                }
                Effect::PutSession { session } => {
                    assert!(self.has_db);
                    self.session = Some(to_value(&session).to_string());
                }
                Effect::WriteSessionFile { path, session } => {
                    assert!(!self.has_db);
                    assert_eq!(path, "/home/u/.yggterm/yedit/session.json");
                    self.session_file = Some(to_value(&session).to_string());
                }
                Effect::DropSessionFile { path } => {
                    assert_eq!(path, "/home/u/.yggterm/yedit/session.json");
                    self.session_file = None;
                }
            }
        }
    }

    fn start(&mut self) -> Store {
        let parse = |text: &String| serde_json::from_str::<Value>(text).ok().map(|v| from_value(&v));
        let row = if self.has_db { self.session.as_ref().map(parse) } else { None };
        let file = self.session_file.as_ref().and_then(parse);
        let session = session_value(row, file);
        let store = Store::empty(HOME.to_string(), self.has_db);
        let files: Vec<DiskFile> = match &session {
            Some(session) => session_paths(session)
                .iter()
                .map(|path| self.load(&store.resolve(path, Some("/work"))))
                .collect(),
            None => Vec::new(),
        };
        let rows = if self.has_db {
            Some(
                self.drafts
                    .iter()
                    .map(|(path, (revision, content))| Draft {
                        path: path.clone(),
                        base_revision: revision.clone(),
                        content: content.clone(),
                    })
                    .collect(),
            )
        } else {
            None
        };
        let mut store = Store::new(HOME.to_string(), self.has_db, session, files, rows);
        self.perform(&mut store);
        store
    }

    fn open(&mut self, store: &mut Store, raw: &str) -> Result<String, String> {
        let path = store.resolve(raw, Some("/work"));
        let result = store.open(self.load(&path));
        self.perform(store);
        result
    }

    fn edit(&mut self, store: &mut Store, id: &str, content: &str) {
        store.edit(id, content.to_string());
        self.perform(store);
    }

    fn written(&mut self, path: &str, content: &str) -> Written {
        if self.read_only.iter().any(|p| p == path) {
            return Written::NotWritten;
        }
        self.write(path, content);
        Written::Written { stat: self.stat(path) }
    }

    fn save(
        &mut self,
        store: &mut Store,
        id: &str,
        content: &str,
        force: bool,
    ) -> Result<SaveOutcome, String> {
        let disk = store.get(id).and_then(|note| self.stat(&note.path));
        let step = store.save(id, content.to_string(), force, disk)?;
        let result = match step {
            SaveStep::Over(outcome) => Ok(outcome),
            SaveStep::Write { path, content, .. } => {
                let written = self.written(&path, &content);
                store.save_written(id, written)
            }
        };
        self.perform(store);
        result
    }

    fn moved(&mut self, from: &str, to: &str) -> Moved {
        if self.read_only.iter().any(|p| p == to) {
            return Moved::NotMoved;
        }
        let file = self.files.remove(from).unwrap();
        self.files.insert(to.to_string(), file);
        Moved::Moved
    }

    fn rename(&mut self, store: &mut Store, id: &str, name: &str) -> Result<String, String> {
        let target = match store.rename_to(id, name, Some("/work"))? {
            Target::Path(path) => path,
            Target::Resolve(path) => path,
        };
        let old = store.get(id).unwrap().path.clone();
        let old_exists = self.stands(&old);
        let target_exists = self.stands(&target);
        let step = store.rename(id, name, target.clone(), old_exists, target_exists)?;
        let result = match step {
            RenameStep::Over(id) => Ok(id),
            RenameStep::Move { from, to, .. } => {
                let moved = self.moved(&from, &to);
                store.rename_moved(id, target, moved)
            }
        };
        self.perform(store);
        result
    }

    fn reload(&mut self, store: &mut Store, id: &str) -> Result<(), String> {
        let read = match store.get(id).map(|note| note.path.clone()) {
            Some(path) => self.read_back(&path),
            None => ReadBack::Unreadable,
        };
        let result = store.reload(id, read);
        self.perform(store);
        result
    }

    fn read_back(&self, path: &str) -> ReadBack {
        match self.files.get(path) {
            Some((content, _)) => ReadBack::Text {
                content: content.clone(),
                stat: self.stat(path),
            },
            None => ReadBack::Unreadable,
        }
    }

    fn on_disk(&self, pane: &PaneState) -> Vec<bool> {
        pane.store.notes.iter().map(|note| self.stands(&note.path)).collect()
    }

    fn act(&mut self, pane: &mut PaneState, body: &str) -> Value {
        self.act_in(pane, body, Some("/work"))
    }

    fn act_in(&mut self, pane: &mut PaneState, body: &str, cwd: Option<&str>) -> Value {
        let mut step = pane.handle_action(&json(body), cwd);
        loop {
            self.perform(&mut pane.store);
            step = match step {
                Step::Done(reply) => {
                    return to_value(&answer(pane, &reply, &self.on_disk(pane)));
                }
                Step::Load { turn, then, path } => {
                    let file = self.load(&path);
                    pane.open_loaded(turn, then, file)
                }
                Step::Exists { turn, cwd, n, path } => {
                    let exists = self.stands(&path);
                    pane.untitled_checked(turn, cwd, n, exists)
                }
                Step::Stat { turn, id, force, path } => {
                    let stat = self.stat(&path);
                    pane.save_checked(turn, id, force, stat)
                }
                Step::Write { turn, id, path, content, .. } => {
                    let written = self.written(&path, &content);
                    pane.save_written(turn, id, written)
                }
                Step::Read { turn, id, path } => {
                    let read = self.read_back(&path);
                    pane.reload_read(turn, id, read)
                }
                Step::Canonical { turn, id, name, path } => {
                    pane.rename_resolved(turn, id, name, path)
                }
                Step::Probe { turn, id, name, old, target } => {
                    let old_exists = self.stands(&old);
                    let target_exists = self.stands(&target);
                    pane.rename_probed(turn, id, name, target, old_exists, target_exists)
                }
                Step::Move { turn, id, name, from, to, .. } => {
                    let moved = self.moved(&from, &to);
                    pane.rename_moved(turn, id, name, to, moved)
                }
            };
        }
    }
}

fn store_with_notes(names: &[&str]) -> (Host, Store) {
    let mut host = Host::new();
    let mut store = host.start();
    for name in names {
        let file = format!("{HOME}/{name}");
        host.write(&file, &format!("body of {name}"));
        host.open(&mut store, &file).unwrap();
    }
    (host, store)
}

fn pane_with(on_disk: &[&str], new: &[&str]) -> (Host, PaneState) {
    let (mut host, mut store) = store_with_notes(on_disk);
    for name in new {
        host.open(&mut store, &format!("{HOME}/{name}")).unwrap();
    }
    (host, fresh_panes(store))
}

fn names(store: &Store) -> Vec<String> {
    store.notes.iter().map(|note| note.name()).collect()
}

fn ids(store: &Store) -> Vec<String> {
    store.notes.iter().map(|note| note.id.clone()).collect()
}

fn content_of(pane: &PaneState, id: &str) -> String {
    pane.store.get(id).expect("the note is open").content.clone()
}

fn row(schema: &Value, id: &str) -> Value {
    schema["widgets"]
        .as_array()
        .unwrap()
        .iter()
        .find(|w| w["id"] == id)
        .unwrap_or_else(|| panic!("row {id} is in the rail"))
        .clone()
}

#[test]
fn reorder_adopts_the_rails_order_and_reports_whether_anything_moved() {
    let (_host, mut store) = store_with_notes(&["a.md", "b.md", "c.md"]);
    let ids = ids(&store);
    let moved = vec![ids[2].clone(), ids[0].clone(), ids[1].clone()];
    assert!(store.reorder_notes(&moved));
    assert_eq!(names(&store), vec!["c.md", "a.md", "b.md"]);
    assert!(!store.reorder_notes(&moved));
}

#[test]
fn reorder_keeps_notes_the_order_does_not_mention() {
    let (_host, mut store) = store_with_notes(&["a.md", "b.md", "c.md"]);
    let ids = ids(&store);
    assert!(store.reorder_notes(&vec![ids[2].clone(), ids[0].clone()]));
    assert_eq!(names(&store).len(), 3, "no note may be lost by a reorder");
    assert_eq!(names(&store)[0], "c.md");
    assert_eq!(names(&store)[1], "a.md");
    assert!(names(&store).contains(&"b.md".to_string()));
}

#[test]
fn an_empty_order_is_ignored_rather_than_clearing_the_list() {
    let (_host, mut store) = store_with_notes(&["a.md", "b.md"]);
    assert!(!store.reorder_notes(&Vec::new()));
    assert_eq!(names(&store), vec!["a.md", "b.md"]);
}

#[test]
fn a_reorder_survives_a_restart() {
    let (mut host, mut store) = store_with_notes(&["a.md", "b.md", "c.md"]);
    let ids = ids(&store);
    assert!(store.reorder_notes(&vec![ids[2].clone(), ids[1].clone(), ids[0].clone()]));
    store.touch();
    host.perform(&mut store);
    drop(store);

    let reopened = host.start();
    assert_eq!(names(&reopened), vec!["c.md", "b.md", "a.md"]);
}

#[test]
fn save_guard_conflicts_when_disk_changed_and_force_overwrites() {
    let mut host = Host::new();
    let file = "/home/u/note.md";
    host.write(file, "original");
    let mut store = host.start();
    let id = host.open(&mut store, file).unwrap();

    host.write(file, "outside edit, longer content");

    match host.save(&mut store, &id, "my edit", false).unwrap() {
        SaveOutcome::Conflict { disk, loaded } => {
            assert_eq!(loaded, "1001:8");
            assert_eq!(disk, "1002:28");
        }
        SaveOutcome::Saved { .. } => panic!("save must conflict, not clobber"),
    }
    assert_eq!(
        host.read(file).unwrap(),
        "outside edit, longer content",
        "a conflicted save must not touch the file"
    );

    match host.save(&mut store, &id, "my edit", true).unwrap() {
        SaveOutcome::Saved { revision } => assert_eq!(revision, "1003:7"),
        SaveOutcome::Conflict { .. } => panic!("force save must overwrite"),
    }
    assert_eq!(host.read(file).unwrap(), "my edit");
}

#[test]
fn session_restores_tabs_active_note_and_markdown_mode() {
    let mut host = Host::new();
    let (a, b) = ("/home/u/a.md", "/home/u/b.md");
    host.write(a, "# a");
    host.write(b, "# b");
    {
        let mut store = host.start();
        host.open(&mut store, a).unwrap();
        let id_b = host.open(&mut store, b).unwrap();
        store.active_id = Some(id_b);
        store.view_mode = ViewMode::Text;
        store.touch();
        host.perform(&mut store);
    }
    let restored = host.start();
    assert_eq!(restored.notes.len(), 2, "both tabs restore");
    assert_eq!(
        restored.active().map(|n| n.name()),
        Some("b.md".to_string()),
        "the active tab restores"
    );
    assert_eq!(restored.view_mode, ViewMode::Text, "the view mode restores");
}

#[test]
fn a_crash_reopens_dirty_buffers_from_the_drafts_db() {
    let mut host = Host::new();
    let file = "/home/u/note.md";
    host.write(file, "on disk");
    let id = {
        let mut store = host.start();
        let id = host.open(&mut store, file).unwrap();
        host.edit(&mut store, &id, "typed but never saved");
        id
    };
    let mut reborn = host.start();
    let note = reborn.get(&id).expect("the draft's tab reopens");
    assert!(note.dirty, "the buffer comes back dirty");
    assert_eq!(note.content, "typed but never saved");
    assert_eq!(host.read(file).unwrap(), "on disk", "the crash never touched the file");

    match host.save(&mut reborn, &id, "typed but never saved", false).unwrap() {
        SaveOutcome::Saved { .. } => {}
        SaveOutcome::Conflict { .. } => panic!("draft save must not conflict"),
    }
    let clean = host.start();
    assert!(
        clean.get(&id).is_some_and(|n| !n.dirty),
        "after save the reopened note is clean"
    );
}

#[test]
fn rename_retargets_an_unsaved_note_and_moves_a_saved_file() {
    let mut host = Host::new();
    let mut store = host.start();

    let untitled = "/home/u/untitled-1.md";
    let id = host.open(&mut store, untitled).unwrap();
    host.edit(&mut store, &id, "draft body");
    let new_id = host.rename(&mut store, &id, "todo.md").unwrap();
    assert_ne!(new_id, id, "the id re-keys with the path");
    assert_eq!(store.active_id.as_deref(), Some(new_id.as_str()), "active follows");
    let note = store.get(&new_id).expect("the renamed note is present");
    assert_eq!(note.name(), "todo.md");
    assert_eq!(note.content, "draft body", "the dirty buffer follows the rename");
    assert!(note.dirty);
    assert_eq!(note.loaded_revision, "new");
    assert!(!host.stands(untitled), "an unsaved rename never wrote the old name");

    let reborn = host.start();
    assert!(
        reborn.get(&new_id).is_some_and(|n| n.dirty && n.content == "draft body"),
        "the draft row moved with the note"
    );

    let mut store = host.start();
    let saved = "/home/u/a.md";
    host.write(saved, "# saved");
    let id = host.open(&mut store, saved).unwrap();
    let new_id = host.rename(&mut store, &id, "b.md").unwrap();
    assert!(!host.stands(saved), "the old file is gone");
    assert_eq!(
        host.read("/home/u/b.md").unwrap(),
        "# saved",
        "the file moved to the new name with its content"
    );
    assert_eq!(store.get(&new_id).unwrap().name(), "b.md");

    host.write("/home/u/c.md", "other");
    assert!(host.rename(&mut store, &new_id, "c.md").is_err(), "rename never clobbers");
    assert_eq!(host.read("/home/u/c.md").unwrap(), "other");
}

#[test]
fn note_ids_are_stable_and_open_is_idempotent() {
    let mut host = Host::new();
    let file = "/home/u/x.md";
    host.write(file, "x");
    let mut store = host.start();
    let first = host.open(&mut store, file).unwrap();
    let second = host.open(&mut store, file).unwrap();
    assert_eq!(first, second);
    assert_eq!(store.notes.len(), 1, "re-opening focuses, never duplicates");
}

#[test]
fn a_late_draft_lands_in_the_note_it_was_typed_in_not_the_active_one() {
    let (mut host, mut pane) = pane_with(&[], &["untitled-1.md", "untitled-2.md"]);
    let ids = ids(&pane.store);
    let (a, b) = (ids[0].clone(), ids[1].clone());
    pane.store.active_id = Some(b.clone());

    host.act(
        &mut pane,
        &format!(
            r#"{{"pane":"doc","action":"draft","values":{{"editor":"pasted into A"}},"value_keys":{{"editor":"{a}"}}}}"#
        ),
    );

    assert_eq!(content_of(&pane, &a), "pasted into A", "A keeps its text");
    assert_eq!(content_of(&pane, &b), "", "B must not inherit A's paste");
    assert_eq!(
        pane.store.active_id.as_deref(),
        Some(b.as_str()),
        "absorbing a draft never moves the user"
    );
}

#[test]
fn a_draft_for_a_note_that_is_gone_is_dropped() {
    let (mut host, mut pane) = pane_with(&[], &["only.md"]);
    let id = ids(&pane.store)[0].clone();
    host.act(
        &mut pane,
        r#"{"pane":"doc","action":"draft","values":{"editor":"text for a closed note"},"value_keys":{"editor":"a-note-id-that-is-not-open"}}"#,
    );
    assert_eq!(content_of(&pane, &id), "", "the open note is untouched");
}

#[test]
fn a_draft_with_no_declared_target_still_reaches_the_active_note() {
    let (mut host, mut pane) = pane_with(&[], &["only.md"]);
    let id = ids(&pane.store)[0].clone();
    host.act(&mut pane, r#"{"pane":"doc","action":"draft","values":{"editor":"typed"}}"#);
    assert_eq!(content_of(&pane, &id), "typed");
}

#[test]
fn every_editor_widget_declares_the_note_it_is_holding() {
    let (_host, mut pane) = pane_with(&["a.md"], &[]);
    let id = ids(&pane.store)[0].clone();
    let mut seen = 0usize;
    for mode in [ViewMode::Split, ViewMode::Text, ViewMode::Markdown] {
        pane.store.view_mode = mode;
        let schema = to_value(&document_schema(&pane));
        for widget in schema["widgets"].as_array().unwrap() {
            if widget["kind"] != "text-input" {
                continue;
            }
            seen += 1;
            assert_eq!(
                widget["value_key"], id,
                "the {mode:?} editor must name the note it is holding"
            );
        }
    }
    assert_eq!(seen, 2, "Split and Text each render an editor; Markdown does not");
}

#[test]
fn a_rows_save_state_is_a_status_class_not_a_glyph_in_its_title() {
    let (mut host, mut pane) = pane_with(&["saved.md"], &["brand-new.md"]);
    let ids = ids(&pane.store);
    let (saved, fresh) = (ids[0].clone(), ids[1].clone());
    host.edit(&mut pane.store, &saved, "edited");

    let schema = to_value(&notes_schema(&pane, &host.on_disk(&pane)));
    assert_eq!(row(&schema, &saved)["status"], "transient", "dirty lives in the db");
    assert_eq!(row(&schema, &saved)["title"], "saved.md", "the name is just the name");
    assert_eq!(
        row(&schema, &fresh)["status"], "",
        "a new note never typed into is neither in the db nor on disk — empty slot"
    );
    for id in [&saved, &fresh] {
        let title = row(&schema, id)["title"].as_str().unwrap().to_string();
        assert!(!title.contains('\u{25cf}'), "status must not live in the title: {title:?}");
    }

    let content = pane.store.get(&saved).unwrap().content.clone();
    host.save(&mut pane.store, &saved, &content, false).unwrap();
    let schema = to_value(&notes_schema(&pane, &host.on_disk(&pane)));
    assert_eq!(row(&schema, &saved)["status"], "durable", "saved is on disk");
}

#[test]
fn note_ids_are_the_hash_of_the_path() {
    assert_eq!(note_id(""), "cbf29ce484222325");
    assert_eq!(note_id("a"), "af63dc4c8601ec8c");
    assert_eq!(note_id("foobar"), "85944171f73967e8");
}

#[test]
fn a_note_is_changed_in_place() {
    let (_host, mut store) = store_with_notes(&["a.md", "b.md"]);
    let ids = ids(&store);
    store.get_mut(&ids[1]).unwrap().dirty = true;
    assert!(store.get_mut("nobody").is_none());
    assert_eq!(store.notes.iter().map(|n| n.dirty).collect::<Vec<_>>(), vec![false, true]);
}

#[test]
fn revisions() {
    let stat = |modified_ms, len| Some(FileStat { modified_ms, len });
    assert_eq!(disk_revision(None), "new");
    assert_eq!(disk_revision(stat(Some(1234), 56)), "1234:56");
    assert_eq!(disk_revision(stat(None, 7)), "0:7");
    assert_eq!(disk_revision(stat(Some((1u128 << 64) + 9), 0)), "9:0");
}

#[test]
fn the_rows_hold_the_dirty_buffers() {
    let (mut host, mut store) = store_with_notes(&["a.md", "b.md", "c.md"]);
    let ids = ids(&store);
    assert!(host.drafts.is_empty());
    host.edit(&mut store, &ids[0], "one");
    host.edit(&mut store, &ids[1], "two");
    host.edit(&mut store, &ids[2], "body of c.md");
    let rows: Vec<&String> = host.drafts.keys().collect();
    assert_eq!(rows, vec!["/home/u/a.md", "/home/u/b.md"], "an unchanged buffer is not dirty");
    assert_eq!(host.drafts["/home/u/a.md"], ("1001:12".to_string(), "one".to_string()));
    store.close(&ids[0]);
    host.perform(&mut store);
    assert!(!host.drafts.contains_key("/home/u/a.md"), "closing discards");
    assert_eq!(store.active_id.as_deref(), Some(ids[2].as_str()));
    host.reload(&mut store, &ids[1]).unwrap();
    assert!(host.drafts.is_empty(), "reloading discards");
    assert_eq!(store.get(&ids[1]).unwrap().content, "body of b.md");
    store.close(&ids[2]);
    assert_eq!(store.active_id.as_deref(), Some(ids[1].as_str()), "the first note follows");
    store.close(&ids[1]);
    assert_eq!(store.active_id, None);
}

#[test]
fn errors_of_the_store() {
    let mut host = Host::new();
    host.unreadable.push("/home/u/binary".to_string());
    let mut store = host.start();
    assert_eq!(host.open(&mut store, "binary").unwrap_err(), "reading /home/u/binary");
    assert!(store.notes.is_empty());
    assert_eq!(host.save(&mut store, "x", "", false).err().unwrap(), "unknown note x");
    assert_eq!(host.reload(&mut store, "x").unwrap_err(), "unknown note x");
    assert_eq!(store.rename_to("x", "y", None).err().unwrap(), "unknown note x");
    assert_eq!(store.rename_to("x", "  ", None).err().unwrap(), "a name is required");
    assert_eq!(store.save_written("x", Written::NotWritten).err().unwrap(), "unknown note x");

    let id = host.open(&mut store, "dir/note.md").unwrap();
    assert_eq!(host.reload(&mut store, &id).unwrap_err(), "reading /home/u/dir/note.md");
    assert_eq!(
        store.save_written(&id, Written::NoDirectory).err().unwrap(),
        "creating /home/u/dir"
    );
    assert_eq!(
        store.save_written(&id, Written::NotWritten).err().unwrap(),
        "writing /home/u/dir/note.md"
    );
    host.open(&mut store, "dir/other.md").unwrap();
    assert_eq!(
        host.rename(&mut store, &id, " other.md ").unwrap_err(),
        "a note named other.md is already open"
    );
    host.write("/home/u/dir/note.md", "x");
    host.write("/home/u/dir/third.md", "y");
    assert_eq!(
        host.rename(&mut store, &id, "third.md").unwrap_err(),
        "/home/u/dir/third.md already exists"
    );
    host.read_only.push("/home/u/away/n.md".to_string());
    assert_eq!(
        host.rename(&mut store, &id, "~/away/n.md").unwrap_err(),
        "renaming /home/u/dir/note.md to /home/u/away/n.md"
    );
    assert_eq!(
        store.rename_moved(&id, "/q/r".to_string(), Moved::NoDirectory).unwrap_err(),
        "creating /q"
    );
}

#[test]
fn renames_go_where_they_say() {
    let mut host = Host::new();
    let mut store = host.start();
    let id = host.open(&mut store, "/d/a.md").unwrap();
    let target = |store: &Store, name: &str| match store.rename_to(&id, name, None).unwrap() {
        Target::Path(path) => format!("path {path}"),
        Target::Resolve(path) => format!("resolve {path}"),
    };
    assert_eq!(target(&store, " b.md "), "path /d/b.md");
    assert_eq!(target(&store, "~/b.md"), "resolve /home/u/b.md");
    assert_eq!(target(&store, "~b"), "resolve /home/u/~b");
    assert_eq!(target(&store, "x/b.md"), "resolve /home/u/x/b.md");
    assert_eq!(target(&store, "/x"), "resolve /x");
    assert_eq!(host.rename(&mut store, &id, "a.md").unwrap(), id, "its own name changes nothing");
    host.write("/d/a.md", "text");
    host.edit(&mut store, &id, "typed");
    let new_id = host.rename(&mut store, &id, "/e/f.md").unwrap();
    assert_eq!(new_id, note_id("/e/f.md"));
    assert_eq!(store.get(&new_id).unwrap().content, "typed");
    assert!(store.get(&id).is_none());
    assert_eq!(host.drafts.keys().collect::<Vec<_>>(), vec!["/e/f.md"]);
    assert_eq!(store.recent, vec!["/e/f.md"], "the old entry is retargeted");
}

#[test]
fn a_store_without_a_session_starts_rendered() {
    let store = Host::new().start();
    assert_eq!(store.view_mode, ViewMode::Markdown);
    assert!(store.word_wrap);
    assert!(store.notes.is_empty() && store.recent.is_empty());
    assert_eq!(store.active_id, None);
}

#[test]
fn a_rename_keeps_the_save_guard() {
    let (mut host, mut store) = store_with_notes(&["a.md", "b.md"]);
    let ids = ids(&store);
    host.write("/home/u/a.md", "edited outside");
    let a = host.rename(&mut store, &ids[0], "c.md").unwrap();
    host.write("/home/u/a.md", "something new at the old path");
    match host.save(&mut store, &a, "mine", false).unwrap() {
        SaveOutcome::Conflict { .. } => {}
        SaveOutcome::Saved { .. } => panic!("the outside edit must not be overwritten"),
    }
    assert_eq!(host.read("/home/u/c.md").unwrap(), "edited outside");
    let b = host.rename(&mut store, &ids[1], "d.md").unwrap();
    match host.save(&mut store, &b, "mine", false).unwrap() {
        SaveOutcome::Saved { .. } => {}
        SaveOutcome::Conflict { .. } => panic!("a rename is no outside edit"),
    }
    assert_eq!(store.recent, vec!["/home/u/d.md", "/home/u/c.md"]);
}

#[test]
fn recent_paths_are_limited_and_the_latest_is_first() {
    let mut host = Host::new();
    let mut store = host.start();
    for n in 0..14 {
        host.open(&mut store, &format!("n{n}")).unwrap();
    }
    assert_eq!(store.recent.len(), 12);
    assert_eq!(store.recent[0], "/home/u/n13");
    assert_eq!(store.recent[11], "/home/u/n2");
    let id = note_id("/home/u/n5");
    store.close(&id);
    host.open(&mut store, "n5").unwrap();
    assert_eq!(store.recent[0], "/home/u/n5");
    assert_eq!(store.recent.iter().filter(|p| *p == "/home/u/n5").count(), 1);
}

#[test]
fn paths_are_read_from_home() {
    let store = Store::empty(HOME.to_string(), true);
    for cwd in [None, Some("/work")] {
        assert_eq!(store.resolve("~", cwd), "/home/u");
        assert_eq!(store.resolve("~/x/y", cwd), "/home/u/x/y");
        assert_eq!(store.resolve("x", cwd), "/home/u/x");
        assert_eq!(store.resolve("/x", cwd), "/x");
        assert_eq!(store.resolve("~x", cwd), "/home/u/~x");
    }
    let store = Store::empty(".".to_string(), true);
    assert_eq!(store.resolve("~", Some("/work")), "/work/.");
    assert_eq!(store.resolve("~/x", Some("/work")), "/work/./x");
    assert_eq!(store.resolve("x", Some("/work")), "/work/./x");
    assert_eq!(store.resolve("~/x", None), "./x");
    assert_eq!(store.resolve("/x", Some("/work")), "/x");
    assert_eq!(Store::state_dir("/home/u"), "/home/u/.yggterm/yedit");
}

#[test]
fn old_sessions_migrate() {
    let mut host = Host::new();
    host.write("/home/u/a.md", "a");
    host.session_file = Some(
        r#"{"markdown_mode":false,"open":["/home/u/a.md",7,"/home/u/gone.md"],"active":"/home/u/gone.md","recent":["/r"]}"#
            .to_string(),
    );
    let store = host.start();
    assert_eq!(store.view_mode, ViewMode::Text);
    assert!(store.word_wrap);
    assert_eq!(names(&store), vec!["a.md"], "a file that is gone is dropped");
    assert_eq!(store.active_id, Some(note_id("/home/u/a.md")));
    assert_eq!(store.recent, vec!["/home/u/a.md", "/r"]);
    assert_eq!(host.session_file, None, "the database retires the file");
    assert!(host.session.is_some());
    for (session, mode) in [
        (r#"{"markdown_mode":true}"#, ViewMode::Split),
        (r#"{}"#, ViewMode::Split),
        (r#"{"view_mode":"markdown","markdown_mode":false}"#, ViewMode::Markdown),
        (r#"{"view_mode":"other","markdown_mode":false}"#, ViewMode::Text),
        (r#"[1]"#, ViewMode::Split),
        (r#"no json"#, ViewMode::Markdown),
    ] {
        host.session = Some(session.to_string());
        assert_eq!(host.start().view_mode, mode, "{session}");
    }
    host.session = Some(r#"{"word_wrap":false}"#.to_string());
    assert!(!host.start().word_wrap);
}

#[test]
fn without_a_database_the_session_goes_to_the_file() {
    let mut host = Host::new();
    host.has_db = false;
    let mut store = host.start();
    let id = host.open(&mut store, "a.md").unwrap();
    host.edit(&mut store, &id, "typed");
    let session: Value = serde_json::from_str(host.session_file.as_ref().unwrap()).unwrap();
    let expected: Value = serde_json::from_str(
        r#"{"view_mode":"markdown","word_wrap":true,"open":["/home/u/a.md"],"active":"/home/u/a.md","recent":["/home/u/a.md"]}"#,
    )
    .unwrap();
    assert_eq!(session, expected);
    assert!(host.drafts.is_empty());
}

#[test]
fn no_draft_stays_invisible() {
    let mut host = Host::new();
    host.unreadable.push("/home/u/odd".to_string());
    host.drafts.insert("/home/u/odd".to_string(), ("1:2".to_string(), "kept".to_string()));
    host.drafts.insert("/home/u/never".to_string(), ("new".to_string(), "typed".to_string()));
    let store = host.start();
    assert_eq!(names(&store), vec!["never", "odd"]);
    let odd = store.get(&note_id("/home/u/odd")).unwrap();
    assert!(odd.dirty);
    assert_eq!((odd.content.as_str(), odd.loaded_revision.as_str()), ("kept", "1:2"));
    assert_eq!(store.active_id, Some(note_id("/home/u/odd")));
    let again = host.start();
    assert_eq!(names(&again), names(&store), "a tab with a draft keeps its place");
}

#[test]
fn a_conflict_is_offered_and_settled() {
    let (mut host, mut pane) = pane_with(&["a.md"], &[]);
    let file = "/home/u/a.md";
    let version = document_version(&pane);
    host.write(file, "changed outside");
    let reply = host.act(
        &mut pane,
        r#"{"pane":"notes","action":"save","values":{"editor":"mine"}}"#,
    );
    assert_eq!(reply.get("toast"), None);
    assert_eq!(reply["refetch_document"], true);
    assert_eq!(host.read(file).unwrap(), "changed outside");
    assert_eq!(pane.conflict.as_deref(), Some("a.md"));
    assert_ne!(document_version(&pane), version);
    assert!(document_version(&pane).ends_with(":true"));
    let widgets = reply["schema"]["widgets"].as_array().unwrap();
    assert!(widgets.iter().any(|w| w["text"] == "⚠ a.md changed on disk"));
    assert!(widgets.iter().any(|w| w["id"] == "overwrite" && w["primary"] == true));
    assert!(widgets.iter().any(|w| w["id"] == "reload"));

    let reply = host.act(&mut pane, r#"{"pane":"notes","action":"overwrite"}"#);
    assert_eq!(reply["toast"], "Saved");
    assert_eq!(host.read(file).unwrap(), "mine");
    assert_eq!(pane.conflict, None);

    host.write(file, "again");
    host.act(&mut pane, r#"{"action":"save"}"#);
    assert!(pane.conflict.is_some());
    let reply = host.act(&mut pane, r#"{"action":"reload"}"#);
    assert_eq!(reply["toast"], "Reloaded from disk");
    assert_eq!(reply.get("refetch_document"), None);
    let id = ids(&pane.store)[0].clone();
    assert_eq!(content_of(&pane, &id), "again");
    assert_eq!(pane.conflict, None);
}

#[test]
fn actions_without_a_note() {
    let (mut host, mut pane) = pane_with(&[], &[]);
    for action in ["save", "overwrite", "reload", "close_active", "rename_apply"] {
        let reply = host.act(&mut pane, &format!(r#"{{"action":"{action}"}}"#));
        assert_eq!(reply.get("toast"), None, "{action}");
    }
    let reply = host.act(&mut pane, r#"{"action":"fly"}"#);
    assert_eq!(reply["toast"], "Unknown action fly");
    let reply = host.act(&mut pane, r#"{}"#);
    assert_eq!(reply["toast"], "Unknown action ");
    let reply = host.act(&mut pane, r#"{"action":"open","values":{"open_path":"  "}}"#);
    assert_eq!(reply["toast"], "Enter a path to open");
    pane.store.active_id = Some("lost".to_string());
    let reply = host.act(&mut pane, r#"{"action":"save"}"#);
    assert_eq!(reply["toast"], "Save failed: unknown note lost");
    let reply = host.act(&mut pane, r#"{"action":"reload"}"#);
    assert_eq!(reply["toast"], "Reload failed: unknown note lost");
    pane.renaming = Some("lost".to_string());
    let reply = host.act(&mut pane, r#"{"action":"rename_apply","values":{"rename:lost":"x"}}"#);
    assert_eq!(reply["toast"], "Rename failed: unknown note lost");
}

#[test]
fn actions_move_the_tabs() {
    let (mut host, mut pane) = pane_with(&["a.md", "b.md", "c.md"], &[]);
    let ids = ids(&pane.store);
    pane.conflict = Some("a.md".to_string());
    host.act(&mut pane, &format!(r#"{{"action":"switch","values":{{"value":"{}"}}}}"#, ids[0]));
    assert_eq!(pane.store.active_id.as_deref(), Some(ids[0].as_str()));
    assert_eq!(pane.conflict, None);
    host.act(&mut pane, r#"{"action":"switch","values":{"value":"nobody"}}"#);
    assert_eq!(pane.store.active_id.as_deref(), Some(ids[0].as_str()));
    let epoch = pane.store.epoch;
    let order = format!(
        r#"{{"action":"reorder_notes","values":{{"order":["{}",5,"{}"]}}}}"#,
        ids[2], ids[0]
    );
    host.act(&mut pane, &order);
    assert_eq!(names(&pane.store), vec!["c.md", "a.md", "b.md"]);
    assert_eq!(pane.store.epoch, epoch + 1);
    host.act(&mut pane, &order);
    assert_eq!(pane.store.epoch, epoch + 1, "a settled order is no change");
    host.act(&mut pane, &format!(r#"{{"action":"rename","values":{{"value":"{}"}}}}"#, ids[1]));
    assert_eq!(pane.renaming.as_deref(), Some(ids[1].as_str()));
    host.act(&mut pane, &format!(r#"{{"action":"close_note","values":{{"value":"{}"}}}}"#, ids[2]));
    assert_eq!(names(&pane.store), vec!["a.md", "b.md"]);
    assert_eq!(pane.renaming.as_deref(), Some(ids[1].as_str()), "another note is renamed");
    host.act(&mut pane, &format!(r#"{{"action":"close_note","values":{{"value":"{}"}}}}"#, ids[1]));
    assert_eq!(pane.renaming, None);
    host.act(&mut pane, r#"{"action":"close_active"}"#);
    assert!(pane.store.notes.is_empty());
}

#[test]
fn actions_set_the_view() {
    let (mut host, mut pane) = pane_with(&["a.md"], &[]);
    host.act(&mut pane, r#"{"action":"set_mode","values":{"value":"markdown"}}"#);
    assert_eq!(pane.store.view_mode, ViewMode::Markdown);
    host.act(&mut pane, r#"{"action":"set_mode","values":{"value":"nonsense"}}"#);
    assert_eq!(pane.store.view_mode, ViewMode::Markdown);
    host.act(&mut pane, r#"{"action":"toggle_wrap","values":{"value":"false"}}"#);
    assert!(!pane.store.word_wrap);
    host.act(&mut pane, r#"{"action":"toggle_wrap","values":{"value":"true"}}"#);
    assert!(pane.store.word_wrap);
    host.act(&mut pane, r#"{"action":"toggle_open_input"}"#);
    assert!(pane.open_input);
    let schema = to_value(&notes_schema(&pane, &host.on_disk(&pane)));
    assert_eq!(row(&schema, "open_path")["placeholder"], "open or create: ~/notes/todo.md");
    host.act(&mut pane, r#"{"action":"open","values":{"open_path":" ~/new.md "}}"#);
    assert!(!pane.open_input, "opening closes the field");
    assert_eq!(names(&pane.store), vec!["a.md", "new.md"]);
    host.unreadable.push("/home/u/bad".to_string());
    let reply = host.act(&mut pane, r#"{"action":"open","values":{"open_path":"bad"}}"#);
    assert_eq!(reply["toast"], "Open failed: reading /home/u/bad");
    let reply = host.act(&mut pane, r#"{"pane":"notes","action":"search","values":{"search":" x "}}"#);
    assert_eq!(pane.search, "x");
    assert_eq!(reply.get("refetch_document"), None, "a search leaves the document");
}

#[test]
fn a_new_note_takes_a_free_path() {
    let (mut host, mut pane) = pane_with(&[], &[]);
    host.write("/work/untitled-1.md", "taken");
    host.open(&mut pane.store, "/work/./untitled-2.md").unwrap();
    let reply = host.act(&mut pane, r#"{"action":"new_note"}"#);
    assert_eq!(reply["toast"], "New note /work/untitled-3.md (created on save)");
    assert_eq!(pane.store.active().unwrap().path, "/work/untitled-3.md");
    assert!(!host.stands("/work/untitled-3.md"));
    let reply = host.act(&mut pane, r#"{"action":"save","values":{"editor":"now"}}"#);
    assert_eq!(reply["toast"], "Saved");
    assert_eq!(host.read("/work/untitled-3.md").unwrap(), "now");
    let reply = host.act_in(&mut pane, r#"{"action":"new_note"}"#, None);
    assert_eq!(reply["toast"], "New note ./untitled-1.md (created on save)");
    assert_eq!(pane.store.active().unwrap().path, "/home/u/./untitled-1.md");
    let open = pane.store.notes.len();
    host.write("/home/u/./untitled-2.md", "taken too");
    let reply = host.act_in(&mut pane, r#"{"action":"new_note"}"#, None);
    assert_eq!(reply["toast"], "New note ./untitled-3.md (created on save)");
    assert_eq!(pane.store.active().unwrap().path, "/home/u/./untitled-3.md");
    assert_eq!(pane.store.active().unwrap().content, "");
    assert_eq!(pane.store.notes.len(), open + 1);
}

#[test]
fn a_rename_in_its_row() {
    let (mut host, mut pane) = pane_with(&["a.md"], &[]);
    let id = ids(&pane.store)[0].clone();
    host.act(&mut pane, &format!(r#"{{"action":"rename","values":{{"value":"{id}"}}}}"#));
    let schema = to_value(&notes_schema(&pane, &host.on_disk(&pane)));
    let field = &row(&schema, &id)["rename"];
    assert_eq!(field["value"], "a.md");
    assert_eq!(field["ai_source"], "body of a.md");
    let apply = |name: &str| {
        format!(r#"{{"action":"rename_apply","values":{{"rename:{id}":"{name}"}}}}"#)
    };
    let reply = host.act(&mut pane, &apply("  "));
    assert_eq!(reply["toast"], "Enter a name");
    host.write("/home/u/taken.md", "t");
    let reply = host.act(&mut pane, &apply("taken.md"));
    assert_eq!(reply["toast"], "Rename failed: /home/u/taken.md already exists");
    assert!(pane.renaming.is_some());
    let reply = host.act(&mut pane, &apply(" b.md "));
    assert_eq!(reply["toast"], "Renamed to b.md");
    assert_eq!(pane.renaming, None);
    assert_eq!(host.read("/home/u/b.md").unwrap(), "body of a.md");
    let new_id = ids(&pane.store)[0].clone();
    pane.renaming = Some(new_id.clone());
    let reply = host.act(
        &mut pane,
        &format!(r#"{{"action":"rename_apply","values":{{"rename:{new_id}":"sub/c.md"}}}}"#),
    );
    assert_eq!(reply["toast"], "Renamed to sub/c.md");
    assert_eq!(host.read("/home/u/sub/c.md").unwrap(), "body of a.md");
    pane.renaming = Some(new_id);
    host.act(&mut pane, r#"{"action":"rename_cancel"}"#);
    assert_eq!(pane.renaming, None);
}

#[test]
fn recent_files_are_offered_and_opened() {
    let (mut host, mut pane) = pane_with(&["a.md", "b.md"], &[]);
    host.act(&mut pane, r#"{"action":"close_active"}"#);
    host.act(&mut pane, r#"{"action":"close_active"}"#);
    let schema = to_value(&document_schema(&pane));
    let id = format!("recent-{}", note_id("/home/u/a.md"));
    let recent = row(&schema, &id);
    assert_eq!(recent["title"], "a.md");
    assert_eq!(recent["subtitle"], "/home/u/a.md");
    assert_eq!(recent["actions"][0]["action"], "open_recent");
    host.act(&mut pane, &format!(r#"{{"action":"open_recent","values":{{"value":"{id}"}}}}"#));
    assert_eq!(names(&pane.store), vec!["a.md"]);
    host.act(&mut pane, r#"{"action":"open_recent","values":{"value":"recent-0"}}"#);
    assert_eq!(names(&pane.store), vec!["a.md"]);
    host.act(&mut pane, r#"{"action":"close_active"}"#);
    host.files.clear();
    host.unreadable.push("/home/u/a.md".to_string());
    let reply =
        host.act(&mut pane, &format!(r#"{{"action":"open_recent","values":{{"value":"{id}"}}}}"#));
    assert_eq!(reply["toast"], "Open failed: reading /home/u/a.md");
}

#[test]
fn the_search_is_a_regex_or_a_text() {
    let (mut host, mut pane) = pane_with(&[], &["one.md", "two.TXT"]);
    let ids = ids(&pane.store);
    host.edit(&mut pane.store, &ids[0], "Alpha beta alpha ( (");
    host.edit(&mut pane.store, &ids[1], "gamma");
    let shown = |host: &Host, pane: &mut PaneState, query: &str| {
        pane.search = query.to_string();
        let schema = to_value(&notes_schema(pane, &host.on_disk(pane)));
        schema["widgets"]
            .as_array()
            .unwrap()
            .iter()
            .filter(|w| w["kind"] == "list-row")
            .map(|w| {
                format!("{} {}", w["title"].as_str().unwrap(), w["subtitle"].as_str().unwrap())
            })
            .collect::<Vec<_>>()
    };
    assert_eq!(shown(&host, &mut pane, "  "), vec!["one.md ", "two.TXT "]);
    assert_eq!(shown(&host, &mut pane, "ALPHA"), vec!["one.md 2 matches"]);
    assert_eq!(shown(&host, &mut pane, "^alpha"), vec!["one.md 1 match"]);
    assert_eq!(shown(&host, &mut pane, " t.o "), vec!["two.TXT "]);
    assert_eq!(shown(&host, &mut pane, "("), vec!["one.md 2 matches"], "no regex");
    assert_eq!(shown(&host, &mut pane, "A ("), vec!["one.md 1 match"], "no regex, in any case");
    assert!(shown(&host, &mut pane, "delta").is_empty());
    let schema = to_value(&notes_schema(&pane, &host.on_disk(&pane)));
    assert!(schema["widgets"]
        .as_array()
        .unwrap()
        .iter()
        .any(|w| w["text"] == "No note matches \"delta\"."));
}

#[test]
fn the_whole_sidebar() {
    let (host, mut pane) = pane_with(&[], &["a.MD"]);
    pane.store.word_wrap = false;
    pane.store.view_mode = ViewMode::Split;
    let id = ids(&pane.store)[0].clone();
    pane.store.notes[0].content = "two words\n\u{e9}".to_string();
    let schema = to_value(&notes_schema(&pane, &host.on_disk(&pane)));
    let expected = r#"{
        "title": "Yedit",
        "widgets": [
            {"kind": "toolbar", "id": "quick", "buttons": [
                {"action": "save", "label": "💾︎", "title": "Save the active note (Ctrl+S)", "primary": false},
                {"action": "new_note", "label": "🗋︎", "title": "New note"},
                {"action": "toggle_open_input", "label": "📂︎", "title": "Open or create a file by path"},
                {"action": "close_active", "label": "✕", "title": "Close the active note"}
            ]},
            {"kind": "search-box", "id": "search", "placeholder": "Search notes (regex)…", "value": "", "action": "search"},
            {"kind": "tabs", "id": "mode", "action": "set_mode", "active": "split", "tabs": [
                {"id": "markdown", "label": "Markdown"},
                {"id": "split", "label": "Split"},
                {"id": "text", "label": "Text"}
            ]},
            {"kind": "section", "text": "Files", "action": "new_note", "action_label": "+", "action_title": "New note"},
            {"kind": "list-row", "id": "ID", "icon": "file:md", "title": "a.MD", "status": "", "subtitle": "",
             "selected": true, "row_action": "switch", "reorder_action": "reorder_notes",
             "actions": [{"action": "close_note", "label": "✕", "title": "Close this note"}],
             "menu": [
                {"action": "rename", "label": "✎︎  Rename", "title": "Rename this note"},
                {"action": "close_note", "label": "✕  Close", "title": "Close this note"}
             ]}
        ],
        "footer": [
            {"kind": "label", "text": "3 words · 2 lines · 11 chars"},
            {"kind": "toggle", "id": "wrap", "label": "Wrap", "action": "toggle_wrap", "value": false}
        ]
    }"#
    .replace("\"ID\"", &format!("\"{id}\""));
    assert_eq!(schema, serde_json::from_str::<Value>(&expected).unwrap());
    let document = to_value(&document_schema(&pane));
    let expected = r#"{"title": "Yedit", "widgets": [
        {"kind": "text-input", "id": "editor", "multiline": true, "line_numbers": true, "word_wrap": false,
         "value": "two words\né", "value_key": "ID"},
        {"kind": "markdown", "id": "body", "source": "two words\né", "live_from": "editor"}
    ]}"#
    .replace("\"ID\"", &format!("\"{id}\""));
    assert_eq!(document, serde_json::from_str::<Value>(&expected).unwrap());

    let empty = fresh_panes(Store::empty(HOME.to_string(), true));
    let schema = to_value(&notes_schema(&empty, &Vec::new()));
    assert_eq!(
        schema["widgets"][4]["text"],
        "No files open. 🗋 creates one; 📂 opens a path."
    );
    assert_eq!(schema["footer"].as_array().unwrap().len(), 1);
    assert_eq!(schema["widgets"][0]["buttons"].as_array().unwrap().len(), 3);
}
