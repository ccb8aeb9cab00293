//! The note store: the single source of truth for the open notes.
//!
//! The store decides and the host acts: what was found on disk comes in as plain
//! values, and what is to be kept durably goes out as effects, in their order.

use crate::docs::{self, disk_revision, note_id, FileStat, Note, ViewMode};
use crate::json::{self, flag_at, text_at, texts_at, Json, JsonView};
use crate::paths;
use crate::store_laws;
use crate::text::{self, join2, same, same_option, strip_prefix, trim};
use vstd::prelude::*;
use vstd::string::StringExecFns;

verus! {

/// How many recent paths are remembered.
pub const RECENT_LIMIT: usize = 12;

/// What is to be kept durably: draft rows, one full buffer per dirty note, and
/// the session. Without a database the session goes to a file.
pub enum Effect {
    /// Write the draft row of `path`, over an older one.
    PutDraft { path: String, base_revision: String, content: String },
    /// Remove the draft row of `path`, if there is one.
    DropDraft { path: String },
    /// Write the session row.
    PutSession { session: Json },
    /// Write the session file.
    WriteSessionFile { path: String, session: Json },
    /// Remove the session file, if there is one.
    DropSessionFile { path: String },
}

/// An effect as mathematics.
pub ghost enum EffectView {
    PutDraft { path: Seq<char>, revision: Seq<char>, content: Seq<char> },
    DropDraft { path: Seq<char> },
    PutSession { session: JsonView },
    WriteSessionFile { path: Seq<char>, session: JsonView },
    DropSessionFile { path: Seq<char> },
}

impl View for Effect {
    type V = EffectView;

    open spec fn view(&self) -> EffectView {
        match *self {
            Effect::PutDraft { path, base_revision, content } => EffectView::PutDraft {
                path: path@,
                revision: base_revision@,
                content: content@,
            },
            Effect::DropDraft { path } => EffectView::DropDraft { path: path@ },
            Effect::PutSession { session } => EffectView::PutSession { session: session@ },
            Effect::WriteSessionFile { path, session } => EffectView::WriteSessionFile {
                path: path@,
                session: session@,
            },
            Effect::DropSessionFile { path } => EffectView::DropSessionFile { path: path@ },
        }
    }
}

/// What stands at a path on disk.
pub enum Found {
    /// Nothing.
    Missing,
    /// Something that cannot be read as text.
    Unreadable,
    /// A text, and how the file stood when it had been read.
    Text { content: String, stat: Option<FileStat> },
}

/// What stands on disk, as mathematics.
pub ghost enum FoundView {
    Missing,
    Unreadable,
    Text { content: Seq<char>, stat: Option<FileStat> },
}

impl View for Found {
    type V = FoundView;

    open spec fn view(&self) -> FoundView {
        match *self {
            Found::Missing => FoundView::Missing,
            Found::Unreadable => FoundView::Unreadable,
            Found::Text { content, stat } => FoundView::Text { content: content@, stat },
        }
    }
}

/// A canonical path and what stands there.
pub struct DiskFile {
    pub path: String,
    pub found: Found,
}

/// A path and what stands there, as mathematics.
pub ghost struct DiskFileView {
    pub path: Seq<char>,
    pub found: FoundView,
}

impl View for DiskFile {
    type V = DiskFileView;

    open spec fn view(&self) -> DiskFileView {
        DiskFileView { path: self.path@, found: self.found@ }
    }
}

/// A draft row.
pub struct Draft {
    pub path: String,
    pub base_revision: String,
    pub content: String,
}

/// A draft row as mathematics.
pub ghost struct DraftView {
    pub path: Seq<char>,
    pub revision: Seq<char>,
    pub content: Seq<char>,
}

impl View for Draft {
    type V = DraftView;

    open spec fn view(&self) -> DraftView {
        DraftView {
            path: self.path@,
            revision: self.base_revision@,
            content: self.content@,
        }
    }
}

/// The open notes and what the session keeps of them.
pub struct Store {
    /// The notes, in the order in which they are shown and persisted.
    pub notes: Vec<Note>,
    pub active_id: Option<String>,
    pub view_mode: ViewMode,
    /// Whether the editor wraps long lines.
    pub word_wrap: bool,
    /// Bumped when the store changes; what is shown is fetched again by it.
    pub epoch: u64,
    /// The paths opened last, the latest first.
    pub recent: Vec<String>,
    /// The directory that `~` and relative paths are read from.
    pub home: String,
    /// Whether there is a database for the session and the drafts.
    pub has_db: bool,
    /// The effects that the host has not taken yet.
    pub outbox: Vec<Effect>,
}

/// The store as mathematics.
#[verifier::ext_equal]
pub ghost struct StoreView {
    pub notes: Seq<docs::NoteView>,
    pub active_id: Option<Seq<char>>,
    pub view_mode: ViewMode,
    pub word_wrap: bool,
    pub epoch: u64,
    pub recent: Seq<Seq<char>>,
    pub home: Seq<char>,
    pub has_db: bool,
    pub outbox: Seq<EffectView>,
}

/// Notes as mathematics.
pub open spec fn notes_view(notes: Seq<Note>) -> Seq<docs::NoteView> {
    notes.map_values(|n: Note| n@)
}

proof fn notes_view_update(notes: Seq<Note>, i: int)
    requires
        0 <= i < notes.len(),
    ensures
        forall|n: Note| #[trigger]
            notes_view(notes.update(i, n)) == notes_view(notes).update(i, n@),
{
    assert forall|n: Note| #[trigger]
        notes_view(notes.update(i, n)) == notes_view(notes).update(i, n@) by {
        assert(notes_view(notes.update(i, n)) =~= notes_view(notes).update(i, n@));
    }
}

/// Effects as mathematics.
pub open spec fn effects_view(effects: Seq<Effect>) -> Seq<EffectView> {
    effects.map_values(|e: Effect| e@)
}

/// Files as mathematics.
pub open spec fn files_view(files: Seq<DiskFile>) -> Seq<DiskFileView> {
    files.map_values(|f: DiskFile| f@)
}

/// Draft rows as mathematics.
pub open spec fn drafts_view(rows: Seq<Draft>) -> Seq<DraftView> {
    rows.map_values(|d: Draft| d@)
}

impl View for Store {
    type V = StoreView;

    open spec fn view(&self) -> StoreView {
        StoreView {
            notes: notes_view(self.notes@),
            active_id: text::maybe_text(self.active_id),
            view_mode: self.view_mode,
            word_wrap: self.word_wrap,
            epoch: self.epoch,
            recent: text::texts(self.recent@),
            home: self.home@,
            has_db: self.has_db,
            outbox: effects_view(self.outbox@),
        }
    }
}

/// The position of the first note with an id.
pub open spec fn seek(notes: Seq<docs::NoteView>, id: Seq<char>) -> Option<int>
    decreases notes.len(),
{
    if notes.len() == 0 {
        None
    } else if notes[0].id == id {
        Some(0)
    } else {
        match seek(notes.skip(1), id) {
            Some(i) => Some(i + 1),
            None => None,
        }
    }
}

/// What `seek` finds is the first note with the id, and it finds one if there is
/// one.
pub proof fn seek_finds(notes: Seq<docs::NoteView>, id: Seq<char>)
    ensures
        match seek(notes, id) {
            Some(i) => 0 <= i < notes.len() && notes[i].id == id && forall|j: int|
                0 <= j < i ==> (#[trigger] notes[j]).id != id,
            None => forall|j: int| 0 <= j < notes.len() ==> (#[trigger] notes[j]).id != id,
        },
    decreases notes.len(),
{
    if notes.len() > 0 && notes[0].id != id {
        let rest = notes.skip(1);
        seek_finds(rest, id);
        match seek(rest, id) {
            Some(i) => {
                assert(notes[i + 1] == rest[i]);
                assert forall|j: int| 0 <= j < i + 1 implies (#[trigger] notes[j]).id != id by {
                    if j > 0 {
                        assert(notes[j] == rest[j - 1]);
                    }
                }
            },
            None => {
                assert forall|j: int| 0 <= j < notes.len() implies (#[trigger] notes[j]).id
                    != id by {
                    if j > 0 {
                        assert(notes[j] == rest[j - 1]);
                    }
                }
            },
        }
    }
}

/// The paths of notes.
pub open spec fn note_paths(notes: Seq<docs::NoteView>) -> Seq<Seq<char>> {
    notes.map_values(|n: docs::NoteView| n.path)
}

/// The ids of notes.
pub open spec fn note_ids(notes: Seq<docs::NoteView>) -> Seq<Seq<char>> {
    notes.map_values(|n: docs::NoteView| n.id)
}

/// The notes with an id.
pub open spec fn picked(notes: Seq<docs::NoteView>, id: Seq<char>) -> Seq<docs::NoteView>
    decreases notes.len(),
{
    if notes.len() == 0 {
        seq![]
    } else if notes.last().id == id {
        picked(notes.drop_last(), id).push(notes.last())
    } else {
        picked(notes.drop_last(), id)
    }
}

/// The notes without those with an id.
pub open spec fn without(notes: Seq<docs::NoteView>, id: Seq<char>) -> Seq<docs::NoteView>
    decreases notes.len(),
{
    if notes.len() == 0 {
        seq![]
    } else if notes.last().id == id {
        without(notes.drop_last(), id)
    } else {
        without(notes.drop_last(), id).push(notes.last())
    }
}

/// The notes in a wanted order: the note of each id of the order in turn, then
/// the notes that the order does not mention, as they stood.
pub open spec fn arranged(notes: Seq<docs::NoteView>, order: Seq<Seq<char>>) -> Seq<docs::NoteView>
    decreases order.len(),
{
    if order.len() == 0 {
        notes
    } else {
        picked(notes, order[0]) + arranged(without(notes, order[0]), order.skip(1))
    }
}

/// The paths that are not the given one.
pub open spec fn without_path(paths: Seq<Seq<char>>, path: Seq<char>) -> Seq<Seq<char>>
    decreases paths.len(),
{
    if paths.len() == 0 {
        seq![]
    } else if paths::same_path(paths.last(), path) {
        without_path(paths.drop_last(), path)
    } else {
        without_path(paths.drop_last(), path).push(paths.last())
    }
}

/// The first paths, as many as are remembered.
pub open spec fn limited(paths: Seq<Seq<char>>) -> Seq<Seq<char>> {
    if paths.len() > RECENT_LIMIT {
        paths.take(RECENT_LIMIT as int)
    } else {
        paths
    }
}

/// The directory of the durable state.
pub open spec fn state_dir_of(home: Seq<char>) -> Seq<char> {
    paths::joined(paths::joined(home, ".yggterm"@), "yedit"@)
}

/// The file that the session goes to without a database.
pub open spec fn session_file_of(home: Seq<char>) -> Seq<char> {
    paths::joined(state_dir_of(home), "session.json"@)
}

/// A path as written: `~` and relative paths are read from the home directory, and
/// what is not absolute then, as the home directory is not, from the working
/// directory, where there is one.
pub open spec fn resolved(home: Seq<char>, cwd: Option<Seq<char>>, raw: Seq<char>) -> Seq<char> {
    let expanded = if "~/"@.is_prefix_of(raw) {
        paths::joined(home, raw.skip("~/"@.len() as int))
    } else if raw == "~"@ {
        home
    } else {
        paths::joined(home, raw)
    };
    match cwd {
        Some(dir) => paths::joined(dir, expanded),
        None => expanded,
    }
}

impl StoreView {
    /// Whether a note with the id is open.
    pub open spec fn has(self, id: Seq<char>) -> bool {
        seek(self.notes, id) is Some
    }

    /// The note with the id.
    pub open spec fn note(self, id: Seq<char>) -> Option<docs::NoteView> {
        match seek(self.notes, id) {
            Some(i) => Some(self.notes[i]),
            None => None,
        }
    }

    /// The active note.
    pub open spec fn active(self) -> Option<docs::NoteView> {
        match self.active_id {
            Some(id) => self.note(id),
            None => None,
        }
    }

    /// The session: what is restored on the next start.
    pub open spec fn session(self) -> JsonView {
        JsonView::object().with(
            "view_mode"@,
            JsonView::Text(docs::mode_name(self.view_mode)),
        ).with("word_wrap"@, JsonView::Bool(self.word_wrap)).with(
            "open"@,
            json::text_array(note_paths(self.notes)),
        ).with(
            "active"@,
            match self.active() {
                Some(note) => JsonView::Text(note.path),
                None => JsonView::Null,
            },
        ).with("recent"@, json::text_array(self.recent))
    }

    /// With one effect more for the host.
    pub open spec fn emit(self, effect: EffectView) -> StoreView {
        StoreView { outbox: self.outbox.push(effect), ..self }
    }

    /// With the session handed out: to the database, which retires the session
    /// file, or to the file.
    pub open spec fn persisted(self) -> StoreView {
        if self.has_db {
            self.emit(EffectView::PutSession { session: self.session() }).emit(
                EffectView::DropSessionFile { path: session_file_of(self.home) },
            )
        } else {
            self.emit(
                EffectView::WriteSessionFile {
                    path: session_file_of(self.home),
                    session: self.session(),
                },
            )
        }
    }

    /// With the epoch moved on.
    pub open spec fn bumped(self) -> StoreView {
        StoreView { epoch: self.epoch.wrapping_add(1), ..self }
    }

    /// Changed: the epoch moves on and the session is handed out.
    pub open spec fn touched(self) -> StoreView {
        self.bumped().persisted()
    }

    /// With the draft row of a note written.
    pub open spec fn put_draft(self, note: docs::NoteView) -> StoreView {
        if self.has_db {
            self.emit(
                EffectView::PutDraft {
                    path: note.path,
                    revision: note.revision,
                    content: note.content,
                },
            )
        } else {
            self
        }
    }

    /// With the draft row of a path removed.
    pub open spec fn drop_draft(self, path: Seq<char>) -> StoreView {
        if self.has_db {
            self.emit(EffectView::DropDraft { path })
        } else {
            self
        }
    }

    /// With the note at a position replaced.
    pub open spec fn with_note(self, i: int, note: docs::NoteView) -> StoreView {
        StoreView { notes: self.notes.update(i, note), ..self }
    }

    /// Without a path among the recent ones.
    pub open spec fn forgotten(self, path: Seq<char>) -> StoreView {
        StoreView { recent: without_path(self.recent, path), ..self }
    }

    /// With a path remembered as the latest.
    pub open spec fn remembered(self, path: Seq<char>) -> StoreView {
        StoreView { recent: limited(seq![path] + without_path(self.recent, path)), ..self }
    }
}

/// The store of a home directory before anything is restored: without notes, in
/// the rendered mode, with long lines wrapped.
pub open spec fn fresh(home: Seq<char>, has_db: bool) -> StoreView {
    StoreView {
        notes: seq![],
        active_id: None,
        view_mode: ViewMode::Markdown,
        word_wrap: true,
        epoch: 1,
        recent: seq![],
        home,
        has_db,
        outbox: seq![],
    }
}

impl Store {
    /// The directory of the durable state.
    pub fn state_dir(home: &str) -> (r: String)
        ensures
            r@ == state_dir_of(home@),
    {
        paths::join(paths::join(home, ".yggterm").as_str(), "yedit")
    }

    /// A store without notes, in the rendered mode. `has_db` says whether there is a database for the
    /// session and the drafts.
    pub fn empty(home: String, has_db: bool) -> (r: Self)
        ensures
            r@ == fresh(home@, has_db),
            r@.is_sound(),
    {
        let r = Store {
            notes: Vec::new(),
            active_id: None,
            view_mode: ViewMode::Markdown,
            word_wrap: true,
            epoch: 1,
            recent: Vec::new(),
            home,
            has_db,
            outbox: Vec::new(),
        };
        assert(r@ =~= fresh(home@, has_db));
        r
    }

    /// Hands the waiting effects over, in their order.
    pub fn take_effects(&mut self) -> (r: Vec<Effect>)
        ensures
            effects_view(r@) == old(self)@.outbox,
            final(self)@ == (StoreView { outbox: seq![], ..old(self)@ }),
    {
        let mut out: Vec<Effect> = Vec::new();
        std::mem::swap(&mut out, &mut self.outbox);
        assert(effects_view(self.outbox@) =~= seq![]);
        out
    }

    fn emit(&mut self, effect: Effect)
        ensures
            final(self)@ == old(self)@.emit(effect@),
    {
        self.outbox.push(effect);
        assert(effects_view(self.outbox@) =~= effects_view(old(self).outbox@).push(effect@));
    }

    /// The position of the first note with an id.
    fn position(&self, id: &str) -> (r: Option<usize>)
        ensures
            match seek(self@.notes, id@) {
                Some(i) => r matches Some(k) && k == i && 0 <= i < self.notes@.len(),
                None => r is None,
            },
    {
        let ghost all = self@.notes;
        let mut i: usize = 0;
        assert(all.skip(0) =~= all);
        while i < self.notes.len()
            invariant
                i <= self.notes@.len(),
                all == notes_view(self.notes@),
                seek(all, id@) == (match seek(all.skip(i as int), id@) {
                    Some(k) => Some(k + i),
                    None => None,
                }),
            decreases self.notes@.len() - i,
        {
            assert(all.skip(i as int)[0] == self.notes@[i as int]@);
            if same(self.notes[i].id.as_str(), id) {
                return Some(i);
            }
            assert(all.skip(i as int).skip(1) =~= all.skip(i + 1));
            i += 1;
        }
        None
    }

    /// Whether a note with the id is open.
    pub fn has(&self, id: &str) -> (r: bool)
        ensures
            r == self@.has(id@),
    {
        self.position(id).is_some()
    }

    /// The note with the id.
    pub fn get(&self, id: &str) -> (r: Option<&Note>)
        ensures
            match self@.note(id@) {
                Some(note) => r matches Some(n) && n@ == note,
                None => r is None,
            },
    {
        match self.position(id) {
            Some(i) => Some(&self.notes[i]),
            None => None,
        }
    }

    /// The active note.
    pub fn active(&self) -> (r: Option<&Note>)
        ensures
            match self@.active() {
                Some(note) => r matches Some(n) && n@ == note,
                None => r is None,
            },
    {
        match &self.active_id {
            Some(id) => self.get(id.as_str()),
            None => None,
        }
    }

    /// The note with the id, to be changed in place.
    pub fn get_mut(&mut self, id: &str) -> (r: Option<&mut Note>)
        ensures
            match seek(old(self)@.notes, id@) {
                Some(i) => {
                    &&& r is Some
                    &&& (*r->0)@ == old(self)@.notes[i]
                    &&& final(self)@ == old(self)@.with_note(i, (*final(r->0))@)
                },
                None => r is None && final(self)@ == old(self)@,
            },
    {
        match self.position(id) {
            Some(i) => {
                proof {
                    notes_view_update(self.notes@, i as int);
                }
                Some(&mut self.notes[i])
            },
            None => None,
        }
    }
}

impl StoreView {
    /// With the buffer of a note replaced. A buffer that changes makes the note
    /// dirty and writes its draft row.
    pub open spec fn edited(self, id: Seq<char>, content: Seq<char>) -> StoreView {
        match seek(self.notes, id) {
            Some(i) => if self.notes[i].content != content {
                let note = docs::NoteView { content, dirty: true, ..self.notes[i] };
                self.with_note(i, note).put_draft(note).bumped()
            } else {
                self.bumped()
            },
            None => self.bumped(),
        }
    }

    /// Without the note of an id. Its draft row goes with it; if it was active,
    /// the first note becomes active.
    pub open spec fn closed(self, id: Seq<char>) -> StoreView {
        let s = match self.note(id) {
            Some(note) => self.drop_draft(note.path),
            None => self,
        };
        let notes = without(s.notes, id);
        StoreView {
            notes,
            active_id: if s.active_id == Some(id) {
                if notes.len() > 0 {
                    Some(notes[0].id)
                } else {
                    None
                }
            } else {
                s.active_id
            },
            ..s
        }.touched()
    }

    /// With the notes in a wanted order.
    pub open spec fn reordered(self, order: Seq<Seq<char>>) -> StoreView {
        StoreView { notes: arranged(self.notes, order), ..self }
    }

    /// With a note active.
    pub open spec fn focused(self, id: Seq<char>) -> StoreView {
        StoreView { active_id: Some(id), ..self }
    }

    /// With a file opened: its note becomes active, and joins the notes if it is
    /// not open yet. A file that is missing opens empty, as a new note. A file
    /// that cannot be read changes nothing.
    pub open spec fn opened(self, file: DiskFileView) -> StoreView {
        let id = docs::id_of(file.path);
        if self.has(id) {
            self.focused(id).touched()
        } else {
            match file.found {
                FoundView::Unreadable => self,
                _ => StoreView { notes: self.notes.push(new_note(file)), ..self }.focused(
                    id,
                ).remembered(file.path).touched(),
            }
        }
    }

    /// What opening a file comes to: the id of its note, or why there is none.
    pub open spec fn open_result(self, file: DiskFileView) -> Result<Seq<char>, Seq<char>> {
        let id = docs::id_of(file.path);
        if !self.has(id) && file.found is Unreadable {
            Err("reading "@ + file.path)
        } else {
            Ok(id)
        }
    }
}

/// The note of a file that has just been opened.
pub open spec fn new_note(file: DiskFileView) -> docs::NoteView {
    docs::NoteView {
        id: docs::id_of(file.path),
        path: file.path,
        content: match file.found {
            FoundView::Text { content, .. } => content,
            _ => seq![],
        },
        revision: match file.found {
            FoundView::Text { stat, .. } => docs::revision_of(stat),
            _ => "new"@,
        },
        dirty: false,
    }
}

impl Store {
    /// The session: what is restored on the next start.
    pub fn session(&self) -> (r: Json)
        ensures
            r@ == self@.session(),
    {
        let mut open: Vec<String> = Vec::new();
        let mut i: usize = 0;
        assert(text::texts(open@) =~= note_paths(self@.notes).take(0));
        while i < self.notes.len()
            invariant
                i <= self.notes@.len(),
                text::texts(open@) == note_paths(self@.notes).take(i as int),
            decreases self.notes@.len() - i,
        {
            let ghost before = open@;
            open.push(self.notes[i].path.clone());
            assert(text::texts(open@) =~= text::texts(before).push(self.notes@[i as int].path@));
            i += 1;
            assert(note_paths(self@.notes).take(i as int) =~= note_paths(self@.notes).take(
                i - 1,
            ).push(self@.notes[i - 1].path));
        }
        assert(note_paths(self@.notes).take(i as int) =~= note_paths(self@.notes));
        let active: Json = match self.active() {
            Some(note) => Json::text(note.path.as_str()),
            None => Json::Null,
        };
        Json::object().with("view_mode", Json::text(self.view_mode.as_str())).with(
            "word_wrap",
            Json::Bool(self.word_wrap),
        ).with("open", Json::texts(&open)).with("active", active).with(
            "recent",
            Json::texts(&self.recent),
        )
    }

    /// The file that the session goes to without a database.
    pub fn session_json_path(&self) -> (r: String)
        ensures
            r@ == session_file_of(self@.home),
    {
        paths::join(Store::state_dir(self.home.as_str()).as_str(), "session.json")
    }

    /// Hands the session out to be kept.
    pub fn persist_session(&mut self)
        ensures
            final(self)@ == old(self)@.persisted(),
    {
        let session = self.session();
        let path = self.session_json_path();
        if self.has_db {
            self.emit(Effect::PutSession { session });
            self.emit(Effect::DropSessionFile { path });
        } else {
            self.emit(Effect::WriteSessionFile { path, session });
        }
    }

    /// Moves the epoch on.
    fn bump(&mut self)
        ensures
            final(self)@ == old(self)@.bumped(),
    {
        self.epoch = self.epoch.wrapping_add(1);
    }

    /// Notes a change: moves the epoch on and hands the session out.
    pub fn touch(&mut self)
        ensures
            final(self)@ == old(self)@.touched(),
            old(self)@.is_sound() ==> final(self)@.is_sound(),
    {
        self.bump();
        self.persist_session();
    }

    /// Writes the draft row of the note at a position.
    fn upsert_draft(&mut self, i: usize)
        requires
            i < old(self).notes@.len(),
        ensures
            final(self)@ == old(self)@.put_draft(old(self)@.notes[i as int]),
    {
        if self.has_db {
            let effect = Effect::PutDraft {
                path: self.notes[i].path.clone(),
                base_revision: self.notes[i].loaded_revision.clone(),
                content: self.notes[i].content.clone(),
            };
            self.emit(effect);
        }
    }

    /// Removes the draft row of a path.
    fn delete_draft(&mut self, path: &str)
        ensures
            final(self)@ == old(self)@.drop_draft(path@),
    {
        if self.has_db {
            self.emit(Effect::DropDraft { path: path.to_owned() });
        }
    }

    /// Updates the editor buffer of a note. Every change of a buffer writes its
    /// draft row: the row is what a crash leaves.
    pub fn edit(&mut self, id: &str, content: String)
        ensures
            final(self)@ == old(self)@.edited(id@, content@),
            old(self)@.is_sound() ==> final(self)@.is_sound(),
    {
        proof {
            if self@.is_sound() {
                store_laws::edit_keeps_soundness(self@, id@, content@);
            }
        }
        if let Some(i) = self.position(id) {
            if !same(self.notes[i].content.as_str(), content.as_str()) {
                proof {
                    notes_view_update(self.notes@, i as int);
                }
                self.notes[i].content = content;
                self.notes[i].dirty = true;
                assert(notes_view(self.notes@) =~= notes_view(old(self).notes@).update(
                    i as int,
                    self.notes@[i as int]@,
                ));
                self.upsert_draft(i);
            }
        }
        self.bump();
    }

    /// Takes the notes with an id out of a list, in their order.
    fn take_out(notes: &mut Vec<Note>, id: &str) -> (r: Vec<Note>)
        ensures
            notes_view(final(notes)@) == without(notes_view(old(notes)@), id@),
            notes_view(r@) == picked(notes_view(old(notes)@), id@),
    {
        let ghost all = notes_view(notes@);
        let mut out: Vec<Note> = Vec::new();
        let mut i: usize = 0;
        let ghost mut seen: int = 0;
        assert(all.take(0) =~= seq![]);
        assert(notes_view(out@) =~= seq![]);
        assert(notes_view(notes@).take(0) =~= seq![]);
        assert(all.skip(0) =~= all);
        assert(notes_view(notes@).skip(0) =~= all);
        while i < notes.len()
            invariant
                i <= notes@.len(),
                i <= seen <= all.len(),
                notes_view(notes@).take(i as int) == without(all.take(seen), id@),
                notes_view(notes@).skip(i as int) == all.skip(seen),
                notes_view(out@) == picked(all.take(seen), id@),
            decreases notes@.len() - i,
        {
            let ghost now = notes_view(notes@);
            assert(now.skip(i as int).len() == all.skip(seen).len());
            assert(now.skip(i as int)[0] == all.skip(seen)[0]);
            assert(now[i as int] == all[seen]);
            assert(all.take(seen + 1).drop_last() =~= all.take(seen));
            assert(now.skip(i as int).skip(1) =~= now.skip(i + 1));
            assert(all.skip(seen).skip(1) =~= all.skip(seen + 1));
            if same(notes[i].id.as_str(), id) {
                let ghost before = out@;
                let note = notes.remove(i);
                out.push(note);
                assert(notes_view(out@) =~= notes_view(before).push(note@));
                assert(notes_view(notes@).take(i as int) =~= now.take(i as int));
                assert(notes_view(notes@).skip(i as int) =~= now.skip(i + 1));
            } else {
                assert(now.take(i + 1) =~= now.take(i as int).push(now[i as int]));
                i += 1;
            }
            proof {
                seen = seen + 1;
            }
        }
        assert(notes_view(notes@).skip(i as int).len() == 0);
        assert(all.take(seen) =~= all);
        assert(notes_view(notes@).take(i as int) =~= notes_view(notes@));
        out
    }

    /// Closes a note. Closing is a deliberate discard: the draft row goes too.
    pub fn close(&mut self, id: &str)
        ensures
            final(self)@ == old(self)@.closed(id@),
            old(self)@.is_sound() ==> final(self)@.is_sound(),
    {
        proof {
            if self@.is_sound() {
                store_laws::close_keeps_soundness(self@, id@);
            }
        }
        if let Some(i) = self.position(id) {
            let path = self.notes[i].path.clone();
            self.delete_draft(path.as_str());
        }
        let _ = Store::take_out(&mut self.notes, id);
        if same_option(&self.active_id, id) {
            if self.notes.len() > 0 {
                self.active_id = Some(self.notes[0].id.clone());
                assert(notes_view(self.notes@)[0] == self.notes@[0]@);
            } else {
                self.active_id = None;
            }
        }
        self.touch();
    }

    /// Adopts `order`, a list of note ids, as the order of the notes, and says
    /// whether anything moved. The notes that it does not mention stay, behind
    /// the others and in their order: a list that shows only some of the notes
    /// must not delete the rest.
    pub fn reorder_notes(&mut self, order: &Vec<String>) -> (r: bool)
        ensures
            final(self)@ == old(self)@.reordered(text::texts(order@)),
            r == (note_ids(final(self)@.notes) != note_ids(old(self)@.notes)),
            old(self)@.is_sound() ==> final(self)@.is_sound(),
    {
        proof {
            if self@.is_sound() {
                store_laws::reorder_keeps_soundness(self@, text::texts(order@));
            }
        }
        let ghost wanted = text::texts(order@);
        let ghost start = self@.notes;
        let mut before: Vec<String> = Vec::new();
        let mut k: usize = 0;
        while k < self.notes.len()
            invariant
                k <= self.notes@.len(),
                start == notes_view(self.notes@),
                *self == *old(self),
                before@.len() == k,
                forall|j: int| 0 <= j < k ==> (#[trigger] before@[j])@ == start[j].id,
            decreases self.notes@.len() - k,
        {
            before.push(self.notes[k].id.clone());
            k += 1;
        }
        let mut rest: Vec<Note> = Vec::new();
        std::mem::swap(&mut rest, &mut self.notes);
        let ghost emptied = self@;
        let mut i: usize = 0;
        assert(wanted.skip(0) =~= wanted);
        assert(notes_view(self.notes@) + arranged(notes_view(rest@), wanted) =~= arranged(
            start,
            wanted,
        ));
        while i < order.len()
            invariant
                i <= order@.len(),
                wanted == text::texts(order@),
                self@ == (StoreView { notes: notes_view(self.notes@), ..emptied }),
                notes_view(self.notes@) + arranged(notes_view(rest@), wanted.skip(i as int))
                    == arranged(start, wanted),
            decreases order@.len() - i,
        {
            let ghost had = notes_view(self.notes@);
            let mut found = Store::take_out(&mut rest, order[i].as_str());
            let ghost got = notes_view(found@);
            self.notes.append(&mut found);
            assert(notes_view(self.notes@) =~= had + got);
            assert(wanted.skip(i as int)[0] == order@[i as int]@);
            assert(wanted.skip(i as int).skip(1) =~= wanted.skip(i + 1));
            assert(had + got + arranged(notes_view(rest@), wanted.skip(i + 1)) =~= had + (got
                + arranged(notes_view(rest@), wanted.skip(i + 1))));
            i += 1;
        }
        let ghost had = notes_view(self.notes@);
        let ghost left = notes_view(rest@);
        assert(wanted.skip(i as int) =~= seq![]);
        self.notes.append(&mut rest);
        assert(notes_view(self.notes@) =~= had + left);
        assert(self@ =~= old(self)@.reordered(wanted));
        let ghost now = self@.notes;
        if self.notes.len() != before.len() {
            assert(note_ids(now).len() != note_ids(start).len());
            return true;
        }
        let mut j: usize = 0;
        while j < self.notes.len()
            invariant
                j <= self.notes@.len(),
                now == notes_view(self.notes@),
                before@.len() == self.notes@.len(),
                before@.len() == start.len(),
                self@ == old(self)@.reordered(wanted),
                old(self)@.is_sound() ==> self@.is_sound(),
                start == old(self)@.notes,
                wanted == text::texts(order@),
                forall|m: int| 0 <= m < before@.len() ==> (#[trigger] before@[m])@ == start[m].id,
                forall|m: int| 0 <= m < j ==> (#[trigger] now[m]).id == start[m].id,
            decreases self.notes@.len() - j,
        {
            if !same(self.notes[j].id.as_str(), before[j].as_str()) {
                assert(note_ids(now)[j as int] != note_ids(start)[j as int]);
                return true;
            }
            j += 1;
        }
        assert(note_ids(now) =~= note_ids(start));
        false
    }

    /// Takes a path out of the recent ones.
    fn forget_recent(&mut self, path: &str)
        ensures
            final(self)@ == old(self)@.forgotten(path@),
    {
        let ghost old_recent = text::texts(self.recent@);
        let mut kept: Vec<String> = Vec::new();
        let mut i: usize = 0;
        assert(old_recent.take(0) =~= seq![]);
        assert(text::texts(kept@) =~= without_path(old_recent.take(0), path@));
        while i < self.recent.len()
            invariant
                i <= self.recent@.len(),
                *self == *old(self),
                old_recent == text::texts(self.recent@),
                text::texts(kept@) == without_path(old_recent.take(i as int), path@),
            decreases self.recent@.len() - i,
        {
            assert(old_recent.take(i + 1).drop_last() =~= old_recent.take(i as int));
            if !paths::equal(self.recent[i].as_str(), path) {
                let ghost before = kept@;
                kept.push(self.recent[i].clone());
                assert(text::texts(kept@) =~= text::texts(before).push(old_recent[i as int]));
            }
            i += 1;
        }
        assert(old_recent.take(i as int) =~= old_recent);
        self.recent = kept;
    }

    /// Puts a path at the front of the recent ones.
    fn remember_recent(&mut self, path: &str)
        ensures
            final(self)@ == old(self)@.remembered(path@),
    {
        self.forget_recent(path);
        let ghost others = self.recent@;
        self.recent.insert(0, path.to_owned());
        let ghost all = self.recent@;
        assert(text::texts(all) =~= seq![path@] + text::texts(others));
        self.recent.truncate(RECENT_LIMIT);
        assert(text::texts(self.recent@) =~= limited(text::texts(all)));
    }

    /// The path that a text stands for: `~` and relative paths are read from the
    /// home directory, and a home directory that is not absolute from the working
    /// directory. The host makes it canonical where it can.
    pub fn resolve(&self, raw: &str, cwd: Option<&str>) -> (r: String)
        ensures
            r@ == resolved(self@.home, text::maybe_str(cwd), raw@),
    {
        let expanded: String = match strip_prefix(raw, "~/") {
            Some(rest) => paths::join(self.home.as_str(), rest.as_str()),
            None => if same(raw, "~") {
                self.home.clone()
            } else {
                paths::join(self.home.as_str(), raw)
            },
        };
        match cwd {
            Some(dir) => paths::join(dir, expanded.as_str()),
            None => expanded,
        }
    }

    /// Opens (or focuses) the note of a file and returns its id. A path with no
    /// file opens as an empty new note, which the first save creates. A file
    /// that cannot be read is refused.
    pub fn open(&mut self, file: DiskFile) -> (r: Result<String, String>)
        ensures
            final(self)@ == old(self)@.opened(file@),
            match old(self)@.open_result(file@) {
                Ok(id) => r matches Ok(t) && t@ == id,
                Err(why) => r matches Err(t) && t@ == why,
            },
            old(self)@.is_sound() ==> final(self)@.is_sound(),
    {
        proof {
            if self@.is_sound() {
                store_laws::open_keeps_soundness(self@, file@);
            }
        }
        let id = note_id(file.path.as_str());
        if self.has(id.as_str()) {
            self.active_id = Some(id.clone());
            self.touch();
            return Ok(id);
        }
        let DiskFile { path, found } = file;
        let (content, loaded_revision): (String, String) = match found {
            Found::Text { content, stat } => (content, disk_revision(stat)),
            Found::Missing => (String::new(), "new".to_owned()),
            Found::Unreadable => {
                return Err(join2("reading ", path.as_str()));
            },
        };
        let note = Note {
            id: id.clone(),
            path: path.clone(),
            content,
            loaded_revision,
            dirty: false,
        };
        self.notes.push(note);
        assert(notes_view(self.notes@) =~= notes_view(old(self).notes@).push(note@));
        assert(note@ == new_note(file@));
        self.active_id = Some(id.clone());
        self.remember_recent(path.as_str());
        self.touch();
        Ok(id)
    }
}

/// What a save attempt came to.
pub enum SaveOutcome {
    Saved { revision: String },
    /// The file changed on disk since this note loaded it. It is never silently
    /// overwritten: only a forced save does that.
    Conflict { disk: String, loaded: String },
}

/// What is to be done for a save once the guard has spoken.
pub enum SaveStep {
    /// Nothing: the attempt is over.
    Over(SaveOutcome),
    /// Make the directory, if there is one to make, then write the file.
    Write { parent: Option<String>, path: String, content: String },
}

/// What is to be done for a save, as mathematics.
pub ghost enum SaveStepView {
    Saved { revision: Seq<char> },
    Conflict { disk: Seq<char>, loaded: Seq<char> },
    Write { parent: Option<Seq<char>>, path: Seq<char>, content: Seq<char> },
}

/// What came of writing a file.
pub enum Written {
    /// The directory could not be made.
    NoDirectory,
    /// The file could not be written.
    NotWritten,
    /// The file was written and stands so.
    Written { stat: Option<FileStat> },
}

/// What came of reading a file again.
pub enum ReadBack {
    Unreadable,
    Text { content: String, stat: Option<FileStat> },
}

/// What came of reading a file again, as mathematics.
pub ghost enum ReadBackView {
    Unreadable,
    Text { content: Seq<char>, stat: Option<FileStat> },
}

impl View for SaveOutcome {
    type V = SaveStepView;

    open spec fn view(&self) -> SaveStepView {
        match *self {
            SaveOutcome::Saved { revision } => SaveStepView::Saved { revision: revision@ },
            SaveOutcome::Conflict { disk, loaded } => SaveStepView::Conflict {
                disk: disk@,
                loaded: loaded@,
            },
        }
    }
}

impl View for SaveStep {
    type V = SaveStepView;

    open spec fn view(&self) -> SaveStepView {
        match *self {
            SaveStep::Over(outcome) => outcome@,
            SaveStep::Write { parent, path, content } => SaveStepView::Write {
                parent: text::maybe_text(parent),
                path: path@,
                content: content@,
            },
        }
    }
}

impl View for ReadBack {
    type V = ReadBackView;

    open spec fn view(&self) -> ReadBackView {
        match *self {
            ReadBack::Unreadable => ReadBackView::Unreadable,
            ReadBack::Text { content, stat } => ReadBackView::Text { content: content@, stat },
        }
    }
}

/// Where a renamed note is to go.
pub enum Target {
    /// To this path.
    Path(String),
    /// To this path, which the host makes canonical first.
    Resolve(String),
}

/// Where a renamed note is to go, as mathematics.
pub ghost enum TargetView {
    Path(Seq<char>),
    Resolve(Seq<char>),
}

impl View for Target {
    type V = TargetView;

    open spec fn view(&self) -> TargetView {
        match *self {
            Target::Path(path) => TargetView::Path(path@),
            Target::Resolve(path) => TargetView::Resolve(path@),
        }
    }
}

/// What is to be done for a rename.
pub enum RenameStep {
    /// Nothing: the note has this id.
    Over(String),
    /// Make the directory, if there is one to make, then move the file.
    Move { parent: Option<String>, from: String, to: String },
}

/// What is to be done for a rename, as mathematics.
pub ghost enum RenameStepView {
    Over(Seq<char>),
    Move { parent: Option<Seq<char>>, from: Seq<char>, to: Seq<char> },
}

impl View for RenameStep {
    type V = RenameStepView;

    open spec fn view(&self) -> RenameStepView {
        match *self {
            RenameStep::Over(id) => RenameStepView::Over(id@),
            RenameStep::Move { parent, from, to } => RenameStepView::Move {
                parent: text::maybe_text(parent),
                from: from@,
                to: to@,
            },
        }
    }
}

/// What came of moving a file.
pub enum Moved {
    /// The directory could not be made.
    NoDirectory,
    /// The file could not be moved.
    NotMoved,
    /// The file was moved.
    Moved,
}

/// What a call comes to, as mathematics.
pub open spec fn told<T: View>(r: Result<T, String>) -> Result<T::V, Seq<char>> {
    match r {
        Ok(t) => Ok(t@),
        Err(why) => Err(why@),
    }
}

/// The message for an id that no note has.
pub open spec fn unknown_note(id: Seq<char>) -> Seq<char> {
    "unknown note "@ + id
}

/// The message for a directory that could not be made.
pub open spec fn cannot_create(parent: Option<Seq<char>>) -> Seq<char> {
    "creating "@ + match parent {
        Some(parent) => parent,
        None => seq![],
    }
}

impl StoreView {
    /// With the buffer of the note replaced by the content to be saved.
    pub open spec fn save_begun(self, id: Seq<char>, content: Seq<char>) -> StoreView {
        match seek(self.notes, id) {
            Some(i) => self.with_note(i, docs::NoteView { content, ..self.notes[i] }),
            None => self,
        }
    }

    /// The save guard: the file is written if the save is forced or the file on
    /// disk has the revision that the note was loaded with.
    pub open spec fn save_step(
        self,
        id: Seq<char>,
        content: Seq<char>,
        force: bool,
        disk: Option<FileStat>,
    ) -> Result<SaveStepView, Seq<char>> {
        match self.note(id) {
            Some(note) => {
                let now = docs::revision_of(disk);
                if !force && now != note.revision {
                    Ok(SaveStepView::Conflict { disk: now, loaded: note.revision })
                } else {
                    Ok(
                        SaveStepView::Write {
                            parent: paths::parent(note.path),
                            path: note.path,
                            content,
                        },
                    )
                }
            },
            None => Err(unknown_note(id)),
        }
    }

    /// After the attempt to write the file of a note: written, the note is clean
    /// at the revision of the file and its draft row goes.
    pub open spec fn saved(self, id: Seq<char>, written: Written) -> StoreView {
        match (seek(self.notes, id), written) {
            (Some(i), Written::Written { stat }) => self.with_note(
                i,
                docs::NoteView {
                    revision: docs::revision_of(stat),
                    dirty: false,
                    ..self.notes[i]
                },
            ).drop_draft(self.notes[i].path).touched(),
            _ => self,
        }
    }

    /// What the attempt to write the file of a note comes to.
    pub open spec fn save_result(self, id: Seq<char>, written: Written) -> Result<
        SaveStepView,
        Seq<char>,
    > {
        match self.note(id) {
            Some(note) => match written {
                Written::Written { stat } => Ok(
                    SaveStepView::Saved { revision: docs::revision_of(stat) },
                ),
                Written::NoDirectory => Err(cannot_create(paths::parent(note.path))),
                Written::NotWritten => Err("writing "@ + note.path),
            },
            None => Err(unknown_note(id)),
        }
    }

    /// After the file of a note was read again: the buffer is the file, clean,
    /// and the draft row goes.
    pub open spec fn reloaded(self, id: Seq<char>, read: ReadBackView) -> StoreView {
        match (seek(self.notes, id), read) {
            (Some(i), ReadBackView::Text { content, stat }) => self.with_note(
                i,
                docs::NoteView {
                    content,
                    revision: docs::revision_of(stat),
                    dirty: false,
                    ..self.notes[i]
                },
            ).drop_draft(self.notes[i].path).touched(),
            _ => self,
        }
    }

    /// What reading the file of a note again comes to.
    pub open spec fn reload_result(self, id: Seq<char>, read: ReadBackView) -> Result<
        (),
        Seq<char>,
    > {
        match self.note(id) {
            Some(note) => match read {
                ReadBackView::Text { .. } => Ok(()),
                ReadBackView::Unreadable => Err("reading "@ + note.path),
            },
            None => Err(unknown_note(id)),
        }
    }

    /// Where a rename sends a note: a bare name stays in the directory of the
    /// note, a name with several components or with `~` goes where it says.
    pub open spec fn rename_target(
        self,
        id: Seq<char>,
        new_name: Seq<char>,
        cwd: Option<Seq<char>>,
    ) -> Result<TargetView, Seq<char>> {
        let name = text::trimmed(new_name);
        if name.len() == 0 {
            Err("a name is required"@)
        } else {
            match self.note(id) {
                Some(note) => if paths::components(name).len() > 1 || name[0] == '~' {
                    Ok(TargetView::Resolve(resolved(self.home, cwd, name)))
                } else {
                    match paths::parent(note.path) {
                        Some(dir) => Ok(TargetView::Path(paths::joined(dir, name))),
                        None => Ok(TargetView::Resolve(resolved(self.home, cwd, name))),
                    }
                },
                None => Err(unknown_note(id)),
            }
        }
    }

    /// What a rename to a path comes to: nothing, if that is the path already;
    /// a refusal, if a note or a file is there; a move, if there is a file to
    /// move; and otherwise the new id, as there is no file yet.
    pub open spec fn rename_step(
        self,
        id: Seq<char>,
        new_name: Seq<char>,
        target: Seq<char>,
        old_exists: bool,
        target_exists: bool,
    ) -> Result<RenameStepView, Seq<char>> {
        match self.note(id) {
            Some(note) => if paths::same_path(target, note.path) {
                Ok(RenameStepView::Over(id))
            } else if self.has(docs::id_of(target)) {
                Err("a note named "@ + text::trimmed(new_name) + " is already open"@)
            } else if !old_exists {
                Ok(RenameStepView::Over(docs::id_of(target)))
            } else if target_exists {
                Err(target + " already exists"@)
            } else {
                Ok(
                    RenameStepView::Move {
                        parent: paths::parent(target),
                        from: note.path,
                        to: target,
                    },
                )
            },
            None => Err(unknown_note(id)),
        }
    }

    /// With a note at a new path: its id follows, and so do the active note, the
    /// draft row and the recent paths. The revision moves with the file, unchanged,
    /// so that a note that is out of step with its file stays so.
    pub open spec fn rekeyed(self, id: Seq<char>, target: Seq<char>) -> StoreView {
        match seek(self.notes, id) {
            Some(i) => {
                let was = self.notes[i];
                let note = docs::NoteView { id: docs::id_of(target), path: target, ..was };
                let s = StoreView {
                    active_id: if self.active_id == Some(id) {
                        Some(note.id)
                    } else {
                        self.active_id
                    },
                    ..self.with_note(i, note)
                }.drop_draft(was.path);
                (if was.dirty {
                    s.put_draft(note)
                } else {
                    s
                }).forgotten(was.path).remembered(target).touched()
            },
            None => self,
        }
    }

    /// After the decision on a rename: a note without a file is at its new path.
    pub open spec fn rename_decided(
        self,
        id: Seq<char>,
        target: Seq<char>,
        old_exists: bool,
    ) -> StoreView {
        match self.note(id) {
            Some(note) => if paths::same_path(target, note.path) || self.has(
                docs::id_of(target),
            ) || old_exists {
                self
            } else {
                self.rekeyed(id, target)
            },
            None => self,
        }
    }

    /// After the attempt to move the file of a note.
    pub open spec fn renamed(self, id: Seq<char>, target: Seq<char>, moved: Moved) -> StoreView {
        match moved {
            Moved::Moved => self.rekeyed(id, target),
            _ => self,
        }
    }

    /// What the attempt to move the file of a note comes to.
    pub open spec fn rename_result(
        self,
        id: Seq<char>,
        target: Seq<char>,
        moved: Moved,
    ) -> Result<Seq<char>, Seq<char>> {
        match self.note(id) {
            Some(note) => match moved {
                Moved::Moved => Ok(docs::id_of(target)),
                Moved::NoDirectory => Err(cannot_create(paths::parent(target))),
                Moved::NotMoved => Err("renaming "@ + note.path + " to "@ + target),
            },
            None => Err(unknown_note(id)),
        }
    }
}

/// The message for a directory that could not be made.
fn creating(path: &str) -> (r: String)
    ensures
        r@ == cannot_create(paths::parent(path@)),
{
    match paths::parent_of(path) {
        Some(parent) => join2("creating ", parent.as_str()),
        None => {
            let r = "creating ".to_owned();
            assert(r@ =~= "creating "@ + seq![]);
            r
        },
    }
}

impl Store {
    /// Takes up the content of a note to be saved, and decides by the revision of
    /// the file on disk: a file that has changed since the note was loaded is a
    /// conflict, unless the save is forced.
    pub fn save(&mut self, id: &str, content: String, force: bool, disk: Option<FileStat>) -> (r:
        Result<SaveStep, String>)
        ensures
            final(self)@ == old(self)@.save_begun(id@, content@),
            told(r) == old(self)@.save_step(id@, content@, force, disk),
            old(self)@.is_sound() ==> final(self)@.is_sound(),
    {
        proof {
            if self@.is_sound() {
                store_laws::save_keeps_soundness(self@, id@, content@, Written::NotWritten);
            }
        }
        match self.position(id) {
            Some(i) => {
                let ghost was = self.notes@;
                self.notes[i].content = content.clone();
                assert(notes_view(self.notes@) =~= notes_view(was).update(
                    i as int,
                    self.notes@[i as int]@,
                ));
                let now = disk_revision(disk);
                if !force && !same(now.as_str(), self.notes[i].loaded_revision.as_str()) {
                    return Ok(
                        SaveStep::Over(
                            SaveOutcome::Conflict {
                                disk: now,
                                loaded: self.notes[i].loaded_revision.clone(),
                            },
                        ),
                    );
                }
                Ok(
                    SaveStep::Write {
                        parent: paths::parent_of(self.notes[i].path.as_str()),
                        path: self.notes[i].path.clone(),
                        content,
                    },
                )
            },
            None => Err(join2("unknown note ", id)),
        }
    }

    /// Takes up what came of writing the file of a note.
    pub fn save_written(&mut self, id: &str, written: Written) -> (r: Result<SaveOutcome, String>)
        ensures
            final(self)@ == old(self)@.saved(id@, written),
            told(r) == old(self)@.save_result(id@, written),
            old(self)@.is_sound() ==> final(self)@.is_sound(),
    {
        proof {
            if self@.is_sound() {
                store_laws::save_keeps_soundness(self@, id@, seq![], written);
            }
        }
        match self.position(id) {
            Some(i) => match written {
                Written::NoDirectory => Err(creating(self.notes[i].path.as_str())),
                Written::NotWritten => Err(join2("writing ", self.notes[i].path.as_str())),
                Written::Written { stat } => {
                    let revision = disk_revision(stat);
                    let path = self.notes[i].path.clone();
                    self.notes[i].loaded_revision = revision.clone();
                    self.notes[i].dirty = false;
                    assert(notes_view(self.notes@) =~= notes_view(old(self).notes@).update(
                        i as int,
                        self.notes@[i as int]@,
                    ));
                    self.delete_draft(path.as_str());
                    self.touch();
                    Ok(SaveOutcome::Saved { revision })
                },
            },
            None => Err(join2("unknown note ", id)),
        }
    }

    /// Drops the buffer of a note for the file that was read again. Reloading is
    /// the other deliberate discard: the draft row goes too.
    pub fn reload(&mut self, id: &str, read: ReadBack) -> (r: Result<(), String>)
        ensures
            final(self)@ == old(self)@.reloaded(id@, read@),
            match old(self)@.reload_result(id@, read@) {
                Ok(_) => r is Ok,
                Err(why) => r matches Err(t) && t@ == why,
            },
            old(self)@.is_sound() ==> final(self)@.is_sound(),
    {
        proof {
            if self@.is_sound() {
                store_laws::reload_keeps_soundness(self@, id@, read@);
            }
        }
        match self.position(id) {
            Some(i) => match read {
                ReadBack::Unreadable => Err(join2("reading ", self.notes[i].path.as_str())),
                ReadBack::Text { content, stat } => {
                    let path = self.notes[i].path.clone();
                    self.notes[i].content = content;
                    self.notes[i].loaded_revision = disk_revision(stat);
                    self.notes[i].dirty = false;
                    assert(notes_view(self.notes@) =~= notes_view(old(self).notes@).update(
                        i as int,
                        self.notes@[i as int]@,
                    ));
                    self.delete_draft(path.as_str());
                    self.touch();
                    Ok(())
                },
            },
            None => Err(join2("unknown note ", id)),
        }
    }

    /// Where a note is to go under a new name. The name is the base name of the
    /// file: a bare name keeps the note in its directory, and a name of several
    /// components, or with `~` in front, moves it there.
    pub fn rename_to(&self, id: &str, new_name: &str, cwd: Option<&str>) -> (r: Result<
        Target,
        String,
    >)
        ensures
            told(r) == self@.rename_target(id@, new_name@, text::maybe_str(cwd)),
    {
        let name = trim(new_name);
        if name.as_str().is_empty() {
            return Err("a name is required".to_owned());
        }
        match self.get(id) {
            Some(note) => {
                let parts = paths::split(name.as_str());
                let first = text::chars_of(name.as_str());
                assert(parts@.len() == paths::components(name@).len());
                if parts.len() > 1 || first[0] == '~' {
                    return Ok(Target::Resolve(self.resolve(name.as_str(), cwd)));
                }
                match paths::parent_of(note.path.as_str()) {
                    Some(dir) => Ok(Target::Path(paths::join(dir.as_str(), name.as_str()))),
                    None => Ok(Target::Resolve(self.resolve(name.as_str(), cwd))),
                }
            },
            None => Err(join2("unknown note ", id)),
        }
    }

    /// Puts a note at a new path.
    fn rekey(&mut self, i: usize, target: String) -> (r: String)
        requires
            i < old(self).notes@.len(),
            seek(old(self)@.notes, old(self)@.notes[i as int].id) == Some(i as int),
        ensures
            final(self)@ == old(self)@.rekeyed(old(self)@.notes[i as int].id, target@),
            r@ == docs::id_of(target@),
    {
        let new_id = note_id(target.as_str());
        let was_active = same_option(&self.active_id, self.notes[i].id.as_str());
        let was_dirty = self.notes[i].dirty;
        let old_path = self.notes[i].path.clone();
        self.notes[i].path = target.clone();
        self.notes[i].id = new_id.clone();
        assert(notes_view(self.notes@) =~= notes_view(old(self).notes@).update(
            i as int,
            self.notes@[i as int]@,
        ));
        if was_active {
            self.active_id = Some(new_id.clone());
        }
        self.delete_draft(old_path.as_str());
        if was_dirty {
            self.upsert_draft(i);
        }
        self.forget_recent(old_path.as_str());
        self.remember_recent(target.as_str());
        self.touch();
        new_id
    }

    /// Decides on a rename to a path. A note is never put over another one, nor
    /// over an existing file. A note that was never saved has no file to move and
    /// only changes where it will be saved.
    pub fn rename(
        &mut self,
        id: &str,
        new_name: &str,
        target: String,
        old_exists: bool,
        target_exists: bool,
    ) -> (r: Result<RenameStep, String>)
        ensures
            final(self)@ == old(self)@.rename_decided(id@, target@, old_exists),
            told(r) == old(self)@.rename_step(
                id@,
                new_name@,
                target@,
                old_exists,
                target_exists,
            ),
            old(self)@.is_sound() ==> final(self)@.is_sound(),
    {
        proof {
            if self@.is_sound() {
                store_laws::rename_keeps_soundness(
                    self@,
                    id@,
                    target@,
                    old_exists,
                    Moved::NotMoved,
                );
            }
        }
        match self.position(id) {
            Some(i) => {
                proof {
                    seek_finds(self@.notes, id@);
                }
                if paths::equal(target.as_str(), self.notes[i].path.as_str()) {
                    return Ok(RenameStep::Over(id.to_owned()));
                }
                let new_id = note_id(target.as_str());
                if self.has(new_id.as_str()) {
                    let name = trim(new_name);
                    return Err(text::join3("a note named ", name.as_str(), " is already open"));
                }
                if !old_exists {
                    return Ok(RenameStep::Over(self.rekey(i, target)));
                }
                if target_exists {
                    return Err(join2(target.as_str(), " already exists"));
                }
                Ok(
                    RenameStep::Move {
                        parent: paths::parent_of(target.as_str()),
                        from: self.notes[i].path.clone(),
                        to: target,
                    },
                )
            },
            None => Err(join2("unknown note ", id)),
        }
    }

    /// Takes up what came of moving the file of a note.
    pub fn rename_moved(&mut self, id: &str, target: String, moved: Moved) -> (r: Result<
        String,
        String,
    >)
        ensures
            final(self)@ == old(self)@.renamed(id@, target@, moved),
            told(r) == old(self)@.rename_result(id@, target@, moved),
            old(self)@.is_sound() && !old(self)@.has(docs::id_of(target@))
                ==> final(self)@.is_sound(),
    {
        proof {
            if self@.is_sound() {
                store_laws::rename_keeps_soundness(self@, id@, target@, true, moved);
            }
        }
        match self.position(id) {
            Some(i) => {
                proof {
                    seek_finds(self@.notes, id@);
                }
                match moved {
                    Moved::NoDirectory => Err(creating(target.as_str())),
                    Moved::NotMoved => {
                        let mut out = text::join3(
                            "renaming ",
                            self.notes[i].path.as_str(),
                            " to ",
                        );
                        out.append(target.as_str());
                        Err(out)
                    },
                    Moved::Moved => Ok(self.rekey(i, target)),
                }
            },
            None => Err(join2("unknown note ", id)),
        }
    }
}

/// Whether a draft row holds the buffer of the note with an id.
pub open spec fn drafted(rows: Seq<DraftView>, id: Seq<char>) -> bool {
    exists|i: int| 0 <= i < rows.len() && docs::id_of((#[trigger] rows[i]).path) == id
}

/// Whether the tab of a file is restored: a file that no longer exists is
/// dropped, unless a draft row holds its buffer.
pub open spec fn restorable(file: DiskFileView, rows: Seq<DraftView>) -> bool {
    !(file.found is Missing) || drafted(rows, docs::id_of(file.path))
}

/// The view mode of a session. An old session has a truth value instead, where
/// false stands for plain text.
pub open spec fn session_mode(session: JsonView) -> ViewMode {
    let named = match session.at("view_mode"@).text() {
        Some(name) => docs::mode_named(name),
        None => None,
    };
    match named {
        Some(mode) => mode,
        None => match session.at("markdown_mode"@).flag() {
            Some(false) => ViewMode::Text,
            _ => ViewMode::Split,
        },
    }
}

impl StoreView {
    /// With the settings and the recent paths of a session.
    pub open spec fn configured(self, session: JsonView) -> StoreView {
        StoreView {
            view_mode: session_mode(session),
            word_wrap: match session.at("word_wrap"@).flag() {
                Some(wrap) => wrap,
                None => true,
            },
            recent: if session.at("recent"@) is Array {
                session.at("recent"@).item_texts()
            } else {
                self.recent
            },
            ..self
        }
    }

    /// With the files of the tabs opened again, one after the other.
    pub open spec fn reopened(self, files: Seq<DiskFileView>, rows: Seq<DraftView>) -> StoreView
        decreases files.len(),
    {
        if files.len() == 0 {
            self
        } else {
            let s = self.reopened(files.drop_last(), rows);
            if restorable(files.last(), rows) {
                s.opened(files.last())
            } else {
                s
            }
        }
    }

    /// With the active note of a session active, if it is open.
    pub open spec fn refocused(self, session: JsonView) -> StoreView {
        match session.at("active"@).text() {
            Some(path) => if self.has(docs::id_of(path)) {
                self.focused(docs::id_of(path))
            } else {
                self
            },
            None => self,
        }
    }

    /// With a session restored. `files` is what stands at the paths that were
    /// open, in their order.
    pub open spec fn restored(
        self,
        session: JsonView,
        files: Seq<DiskFileView>,
        rows: Seq<DraftView>,
    ) -> StoreView {
        self.configured(session).reopened(files, rows).refocused(session)
    }

    /// With one draft row taken up: its note has the buffer and the base revision
    /// of the row, dirty. A note that is not open opens with them, whatever stands
    /// at its path, and becomes active.
    pub open spec fn undrafted(self, row: DraftView) -> StoreView {
        match seek(self.notes, docs::id_of(row.path)) {
            Some(i) => self.with_note(
                i,
                docs::NoteView {
                    content: row.content,
                    revision: row.revision,
                    dirty: true,
                    ..self.notes[i]
                },
            ),
            None => StoreView { notes: self.notes.push(drafted_note(row)), ..self }.focused(
                docs::id_of(row.path),
            ).remembered(row.path).touched(),
        }
    }

    /// With the draft rows taken up, one after the other.
    pub open spec fn all_undrafted(self, rows: Seq<DraftView>) -> StoreView
        decreases rows.len(),
    {
        if rows.len() == 0 {
            self
        } else {
            self.all_undrafted(rows.drop_last()).undrafted(rows.last())
        }
    }
}

/// The note of a draft row whose note was not open.
pub open spec fn drafted_note(row: DraftView) -> docs::NoteView {
    docs::NoteView {
        id: docs::id_of(row.path),
        path: row.path,
        content: row.content,
        revision: row.revision,
        dirty: true,
    }
}

/// The session to restore: the one in the database, if its row is there, and
/// otherwise the one in the session file. Each is none where it is not JSON.
pub fn session_value(row: Option<Option<Json>>, file: Option<Json>) -> (r: Option<Json>)
    ensures
        r == (match row {
            Some(session) => session,
            None => file,
        }),
{
    match row {
        Some(session) => session,
        None => file,
    }
}

/// The paths that were open in a session, in their order.
pub fn session_paths(session: &Json) -> (r: Vec<String>)
    ensures
        text::texts(r@) == session@.at("open"@).item_texts(),
{
    texts_at(Some(session), "open")
}

impl Store {
    /// Whether a draft row holds the buffer of the note with an id.
    fn is_drafted(rows: &Vec<Draft>, id: &str) -> (r: bool)
        ensures
            r == drafted(drafts_view(rows@), id@),
    {
        let mut i: usize = 0;
        while i < rows.len()
            invariant
                i <= rows@.len(),
                forall|j: int| 0 <= j < i ==> docs::id_of((#[trigger] rows@[j]).path@) != id@,
            decreases rows@.len() - i,
        {
            if same(note_id(rows[i].path.as_str()).as_str(), id) {
                assert(docs::id_of(drafts_view(rows@)[i as int].path) == id@);
                return true;
            }
            i += 1;
        }
        assert forall|j: int| 0 <= j < drafts_view(rows@).len() implies docs::id_of(
            (#[trigger] drafts_view(rows@)[j]).path,
        ) != id@ by {
            assert(drafts_view(rows@)[j] == rows@[j]@);
        }
        false
    }

    /// Restores the view mode, the recent paths and the open tabs of a session.
    /// `files` is what stands at the paths that were open, in their order. Files
    /// that no longer exist are dropped silently; a buffer that a draft row holds
    /// is no such file.
    pub fn load_session(&mut self, session: &Json, files: Vec<DiskFile>, rows: &Vec<Draft>)
        ensures
            final(self)@ == old(self)@.restored(
                session@,
                files_view(files@),
                drafts_view(rows@),
            ),
            old(self)@.is_sound() ==> final(self)@.is_sound(),
    {
        proof {
            if self@.is_sound() {
                store_laws::session_keeps_soundness(
                    self@,
                    session@,
                    files_view(files@),
                    drafts_view(rows@),
                );
            }
        }
        let named: Option<ViewMode> = match text_at(Some(session), "view_mode") {
            Some(name) => ViewMode::parse(name),
            None => None,
        };
        self.view_mode = match named {
            Some(mode) => mode,
            None => match flag_at(Some(session), "markdown_mode") {
                Some(false) => ViewMode::Text,
                _ => ViewMode::Split,
            },
        };
        self.word_wrap = match flag_at(Some(session), "word_wrap") {
            Some(wrap) => wrap,
            None => true,
        };
        if let Some(Json::Array(_)) = json::at(Some(session), "recent") {
            self.recent = texts_at(Some(session), "recent");
        }
        let ghost configured = self@;
        assert(configured == old(self)@.configured(session@));
        let ghost all = files_view(files@);
        let ghost drafts = drafts_view(rows@);
        let mut rest = files;
        let ghost mut done: int = 0;
        assert(all.take(0) =~= seq![]);
        assert(files_view(rest@) =~= all.skip(0));
        while rest.len() > 0
            invariant
                0 <= done <= all.len(),
                files_view(rest@) == all.skip(done),
                drafts == drafts_view(rows@),
                self@ == configured.reopened(all.take(done), drafts),
            decreases rest@.len(),
        {
            let ghost left = rest@;
            assert(files_view(rest@).len() == all.skip(done).len());
            assert(files_view(left)[0] == all.skip(done)[0]);
            let file = rest.remove(0);
            assert(files_view(rest@) =~= files_view(left).skip(1));
            assert(all.skip(done).skip(1) =~= all.skip(done + 1));
            assert(all.take(done + 1).drop_last() =~= all.take(done));
            let gone: bool = match &file.found {
                Found::Missing => !Store::is_drafted(rows, note_id(file.path.as_str()).as_str()),
                _ => false,
            };
            if !gone {
                let _ = self.open(file);
            }
            proof {
                done = done + 1;
            }
        }
        assert(files_view(rest@).len() == 0);
        assert(all.take(done) =~= all);
        if let Some(path) = text_at(Some(session), "active") {
            let id = note_id(path);
            if self.has(id.as_str()) {
                self.active_id = Some(id);
            }
        }
    }

    /// Takes the draft rows up, as if the process had never died: the row of an
    /// open note replaces its buffer, and the row of another path opens as a tab.
    /// A buffer that was never saved must not be invisible.
    pub fn restore_drafts(&mut self, rows: Vec<Draft>)
        ensures
            final(self)@ == old(self)@.all_undrafted(drafts_view(rows@)).bumped(),
            old(self)@.is_sound() ==> final(self)@.is_sound(),
    {
        proof {
            if self@.is_sound() {
                store_laws::drafts_keep_soundness(self@, drafts_view(rows@));
            }
        }
        let ghost start = self@;
        let ghost all = drafts_view(rows@);
        let mut rest = rows;
        let ghost mut done: int = 0;
        assert(all.take(0) =~= seq![]);
        assert(drafts_view(rest@) =~= all.skip(0));
        while rest.len() > 0
            invariant
                0 <= done <= all.len(),
                drafts_view(rest@) == all.skip(done),
                self@ == start.all_undrafted(all.take(done)),
            decreases rest@.len(),
        {
            let ghost left = rest@;
            assert(drafts_view(rest@).len() == all.skip(done).len());
            assert(drafts_view(left)[0] == all.skip(done)[0]);
            let row = rest.remove(0);
            assert(drafts_view(rest@) =~= drafts_view(left).skip(1));
            assert(all.skip(done).skip(1) =~= all.skip(done + 1));
            assert(all.take(done + 1).drop_last() =~= all.take(done));
            let Draft { path, base_revision, content } = row;
            let ghost was = self.notes@;
            let id = note_id(path.as_str());
            match self.position(id.as_str()) {
                Some(i) => {
                    self.notes[i].content = content;
                    self.notes[i].loaded_revision = base_revision;
                    self.notes[i].dirty = true;
                    assert(notes_view(self.notes@) =~= notes_view(was).update(
                        i as int,
                        self.notes@[i as int]@,
                    ));
                },
                None => {
                    let note = Note {
                        id: id.clone(),
                        path: path.clone(),
                        content,
                        loaded_revision: base_revision,
                        dirty: true,
                    };
                    self.notes.push(note);
                    assert(notes_view(self.notes@) =~= notes_view(was).push(note@));
                    self.active_id = Some(id);
                    self.remember_recent(path.as_str());
                    self.touch();
                },
            }
            proof {
                done = done + 1;
            }
        }
        assert(drafts_view(rest@).len() == 0);
        assert(all.take(done) =~= all);
        self.bump();
    }
}

/// An optional session as mathematics.
pub open spec fn maybe_session(session: Option<Json>) -> Option<JsonView> {
    match session {
        Some(session) => Some(session@),
        None => None,
    }
}

/// Optional draft rows as mathematics.
pub open spec fn maybe_rows(rows: Option<Vec<Draft>>) -> Option<Seq<DraftView>> {
    match rows {
        Some(rows) => Some(drafts_view(rows@)),
        None => None,
    }
}

/// The store at the start: with the session restored, if there is one, and then
/// the draft rows, if they could be read.
pub open spec fn started(
    home: Seq<char>,
    has_db: bool,
    session: Option<JsonView>,
    files: Seq<DiskFileView>,
    rows: Option<Seq<DraftView>>,
) -> StoreView {
    let s = match session {
        Some(session) => fresh(home, has_db).restored(
            session,
            files,
            match rows {
                Some(rows) => rows,
                None => seq![],
            },
        ),
        None => fresh(home, has_db),
    };
    match rows {
        Some(rows) => s.all_undrafted(rows).bumped(),
        None => s,
    }
}

impl Store {
    /// The store of a home directory, with the previous session and the drafts
    /// restored. `files` is what stands at the paths that were open, in their
    /// order; `rows` is none where the draft rows could not be read.
    pub fn new(
        home: String,
        has_db: bool,
        session: Option<Json>,
        files: Vec<DiskFile>,
        rows: Option<Vec<Draft>>,
    ) -> (r: Self)
        ensures
            r@ == started(
                home@,
                has_db,
                maybe_session(session),
                files_view(files@),
                maybe_rows(rows),
            ),
            r@.is_sound(),
    {
        proof {
            store_laws::start_is_sound(
                home@,
                has_db,
                maybe_session(session),
                files_view(files@),
                maybe_rows(rows),
            );
        }
        let mut store = Store::empty(home, has_db);
        if let Some(session) = &session {
            match &rows {
                Some(rows) => {
                    store.load_session(session, files, rows);
                },
                None => {
                    let none: Vec<Draft> = Vec::new();
                    assert(drafts_view(none@) =~= seq![]);
                    store.load_session(session, files, &none);
                },
            }
        }
        if let Some(rows) = rows {
            store.restore_drafts(rows);
        }
        store
    }
}

} // verus!
