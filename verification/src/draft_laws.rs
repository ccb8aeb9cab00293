//! The draft rows: one full buffer for each dirty note, so that a crash loses
//! nothing that was typed.

use crate::docs::{self, FileStat};
use crate::json::JsonView;
use crate::order_laws;
use crate::store::{self, EffectView, Moved, Written};
use crate::store_laws;
use vstd::prelude::*;

verus! {

/// The draft rows, by path: the base revision and the content of each.
pub type Rows = Map<Seq<char>, (Seq<char>, Seq<char>)>;

/// The draft rows after one effect.
pub open spec fn row_after(rows: Rows, effect: EffectView) -> Rows {
    match effect {
        EffectView::PutDraft { path, revision, content } => rows.insert(path, (revision, content)),
        EffectView::DropDraft { path } => rows.remove(path),
        _ => rows,
    }
}

/// The draft rows after effects, one after the other.
pub open spec fn rows_after(rows: Rows, effects: Seq<EffectView>) -> Rows
    decreases effects.len(),
{
    if effects.len() == 0 {
        rows
    } else {
        row_after(rows_after(rows, effects.drop_last()), effects.last())
    }
}

/// Whether the draft rows hold the buffers of the dirty notes and nothing else.
pub open spec fn rows_hold(notes: Seq<docs::NoteView>, rows: Rows) -> bool {
    &&& forall|i: int|
        0 <= i < notes.len() && (#[trigger] notes[i]).dirty ==> rows.contains_key(notes[i].path)
            && rows[notes[i].path] == (notes[i].revision, notes[i].content)
    &&& forall|path: Seq<char>| #[trigger]
        rows.contains_key(path) ==> exists|i: int|
            0 <= i < notes.len() && (#[trigger] notes[i]).dirty && notes[i].path == path
}

impl store::StoreView {
    /// Whether the draft rows will hold the buffers of the dirty notes and nothing
    /// else, once the waiting effects are performed on the rows that there are.
    /// Without a database nothing is owed.
    pub open spec fn keeps_drafts(self, rows: Rows) -> bool {
        self.has_db ==> rows_hold(self.notes, rows_after(rows, self.outbox))
    }
}

proof fn after_emit(rows: Rows, s: store::StoreView, effect: EffectView)
    ensures
        rows_after(rows, s.emit(effect).outbox) == row_after(rows_after(rows, s.outbox), effect),
{
    assert(s.outbox.push(effect).drop_last() =~= s.outbox);
}

/// Handing the session out does not change the draft rows.
pub proof fn touch_leaves_the_rows(rows: Rows, s: store::StoreView)
    ensures
        rows_after(rows, s.touched().outbox) == rows_after(rows, s.outbox),
{
    let t = s.bumped();
    if s.has_db {
        let put = EffectView::PutSession { session: t.session() };
        let gone = EffectView::DropSessionFile { path: store::session_file_of(t.home) };
        after_emit(rows, t, put);
        after_emit(rows, t.emit(put), gone);
    } else {
        let write = EffectView::WriteSessionFile {
            path: store::session_file_of(t.home),
            session: t.session(),
        };
        after_emit(rows, t, write);
    }
}

/// Notes of a sound store have distinct paths.
proof fn paths_are_distinct(s: store::StoreView, i: int, j: int)
    requires
        s.is_sound(),
        0 <= i < s.notes.len(),
        0 <= j < s.notes.len(),
        s.notes[i].path == s.notes[j].path,
    ensures
        i == j,
{
    assert(s.notes[i].id == s.notes[j].id);
}

/// With the row of a note that became dirty, or changed, the rows hold.
proof fn put_holds(s: store::StoreView, i: int, note: docs::NoteView, rows: Rows)
    requires
        s.is_sound(),
        0 <= i < s.notes.len(),
        note.path == s.notes[i].path,
        note.dirty,
        rows_hold(s.notes, rows),
    ensures
        rows_hold(
            s.notes.update(i, note),
            rows.insert(note.path, (note.revision, note.content)),
        ),
{
    let all = s.notes.update(i, note);
    let after = rows.insert(note.path, (note.revision, note.content));
    assert forall|j: int| 0 <= j < all.len() && (#[trigger] all[j]).dirty implies after.contains_key(
        all[j].path,
    ) && after[all[j].path] == (all[j].revision, all[j].content) by {
        if j != i {
            assert(all[j] == s.notes[j]);
            if s.notes[j].path == note.path {
                paths_are_distinct(s, i, j);
            }
        }
    }
    assert forall|path: Seq<char>| #[trigger] after.contains_key(path) implies exists|j: int|
        0 <= j < all.len() && (#[trigger] all[j]).dirty && all[j].path == path by {
        if path == note.path {
            assert(all[i].dirty && all[i].path == path);
        } else {
            assert(rows.contains_key(path));
            let j = choose|j: int|
                0 <= j < s.notes.len() && (#[trigger] s.notes[j]).dirty && s.notes[j].path == path;
            assert(all[j] == s.notes[j]);
        }
    }
}

/// Without the row of a note that became clean, the rows hold.
proof fn drop_holds(s: store::StoreView, i: int, note: docs::NoteView, rows: Rows)
    requires
        s.is_sound(),
        0 <= i < s.notes.len(),
        note.path == s.notes[i].path,
        !note.dirty,
        rows_hold(s.notes, rows),
    ensures
        rows_hold(s.notes.update(i, note), rows.remove(note.path)),
{
    let all = s.notes.update(i, note);
    let after = rows.remove(note.path);
    assert forall|j: int| 0 <= j < all.len() && (#[trigger] all[j]).dirty implies after.contains_key(
        all[j].path,
    ) && after[all[j].path] == (all[j].revision, all[j].content) by {
        assert(j != i);
        assert(all[j] == s.notes[j]);
        if s.notes[j].path == note.path {
            paths_are_distinct(s, i, j);
        }
    }
    assert forall|path: Seq<char>| #[trigger] after.contains_key(path) implies exists|j: int|
        0 <= j < all.len() && (#[trigger] all[j]).dirty && all[j].path == path by {
        assert(rows.contains_key(path));
        let j = choose|j: int|
            0 <= j < s.notes.len() && (#[trigger] s.notes[j]).dirty && s.notes[j].path == path;
        assert(all[j] == s.notes[j]);
    }
}

/// An edit writes the row of its note: the rows hold the dirty buffers after it.
pub proof fn edit_keeps_drafts(
    s: store::StoreView,
    rows: Rows,
    id: Seq<char>,
    content: Seq<char>,
)
    requires
        s.is_sound(),
        s.keeps_drafts(rows),
    ensures
        s.edited(id, content).keeps_drafts(rows),
{
    store::seek_finds(s.notes, id);
    if let Some(i) = store::seek(s.notes, id) {
        if s.notes[i].content != content && s.has_db {
            let note = docs::NoteView { content, dirty: true, ..s.notes[i] };
            put_holds(s, i, note, rows_after(rows, s.outbox));
            after_emit(
                rows,
                s.with_note(i, note),
                EffectView::PutDraft { path: note.path, revision: note.revision, content },
            );
        }
    }
}

/// Closing a note drops its row: the rows hold the dirty buffers after it.
pub proof fn close_keeps_drafts(s: store::StoreView, rows: Rows, id: Seq<char>)
    requires
        s.is_sound(),
        s.keeps_drafts(rows),
    ensures
        s.closed(id).keeps_drafts(rows),
{
    let before = rows_after(rows, s.outbox);
    let left = store::without(s.notes, id);
    store::seek_finds(s.notes, id);
    order_laws::without_keeps_the_others(s.notes, id);
    if s.has_db {
        let dropped = match s.note(id) {
            Some(note) => s.drop_draft(note.path),
            None => s,
        };
        let after = match s.note(id) {
            Some(note) => before.remove(note.path),
            None => before,
        };
        if let Some(i) = store::seek(s.notes, id) {
            after_emit(rows, s, EffectView::DropDraft { path: s.notes[i].path });
        }
        touch_leaves_the_rows(
            rows,
            store::StoreView {
                notes: left,
                active_id: if dropped.active_id == Some(id) {
                    if left.len() > 0 {
                        Some(left[0].id)
                    } else {
                        None
                    }
                } else {
                    dropped.active_id
                },
                ..dropped
            },
        );
        assert forall|j: int| 0 <= j < left.len() && (#[trigger] left[j]).dirty implies
            after.contains_key(left[j].path) && after[left[j].path] == (
            left[j].revision,
            left[j].content,
        ) by {
            assert(left.contains(left[j]));
            assert(s.notes.contains(left[j]));
            let k = choose|k: int| 0 <= k < s.notes.len() && s.notes[k] == left[j];
            assert(s.notes[k].dirty);
            if let Some(i) = store::seek(s.notes, id) {
                if s.notes[i].path == s.notes[k].path {
                    paths_are_distinct(s, i, k);
                }
            }
        }
        assert forall|path: Seq<char>| #[trigger] after.contains_key(path) implies exists|j: int|
            0 <= j < left.len() && (#[trigger] left[j]).dirty && left[j].path == path by {
            assert(before.contains_key(path));
            let k = choose|k: int|
                0 <= k < s.notes.len() && (#[trigger] s.notes[k]).dirty && s.notes[k].path == path;
            assert(s.notes.contains(s.notes[k]));
            if s.notes[k].id == id {
                order_laws::own_position(s.notes, k);
            }
            assert(left.contains(s.notes[k]));
            let j = choose|j: int| 0 <= j < left.len() && left[j] == s.notes[k];
            assert(left[j].dirty && left[j].path == path);
        }
        assert(rows_hold(left, after));
    }
}

/// Opening a file leaves the rows: a note that opens is clean.
pub proof fn open_keeps_drafts(s: store::StoreView, rows: Rows, file: store::DiskFileView)
    requires
        s.is_sound(),
        s.keeps_drafts(rows),
    ensures
        s.opened(file).keeps_drafts(rows),
{
    let id = docs::id_of(file.path);
    let before = rows_after(rows, s.outbox);
    if s.has_db {
        if s.has(id) {
            touch_leaves_the_rows(rows, s.focused(id));
        } else if !(file.found is Unreadable) {
            let note = store::new_note(file);
            let all = s.notes.push(note);
            let t = store::StoreView { notes: all, ..s }.focused(id).remembered(file.path);
            touch_leaves_the_rows(rows, t);
            assert forall|j: int| 0 <= j < all.len() && (#[trigger] all[j]).dirty implies
                before.contains_key(all[j].path) && before[all[j].path] == (
                all[j].revision,
                all[j].content,
            ) by {
                assert(all[j] == s.notes[j]);
            }
            assert forall|path: Seq<char>| #[trigger] before.contains_key(path) implies exists|
                j: int,
            |
                0 <= j < all.len() && (#[trigger] all[j]).dirty && all[j].path == path by {
                let k = choose|k: int|
                    0 <= k < s.notes.len() && (#[trigger] s.notes[k]).dirty && s.notes[k].path
                        == path;
                assert(all[k] == s.notes[k]);
            }
        }
    }
}

/// A save drops the row of its note: the rows hold the dirty buffers after it. A
/// save takes up the buffer of its note, and no other text.
pub proof fn save_keeps_drafts(
    s: store::StoreView,
    rows: Rows,
    id: Seq<char>,
    content: Seq<char>,
    written: Written,
)
    requires
        s.is_sound(),
        s.keeps_drafts(rows),
        s.note(id) matches Some(note) ==> note.content == content,
    ensures
        s.save_begun(id, content).keeps_drafts(rows),
        s.saved(id, written).keeps_drafts(rows),
{
    store::seek_finds(s.notes, id);
    if let Some(i) = store::seek(s.notes, id) {
        assert(s.notes.update(i, docs::NoteView { content, ..s.notes[i] }) =~= s.notes);
        if let Written::Written { stat } = written {
            let note = docs::NoteView {
                revision: docs::revision_of(stat),
                dirty: false,
                ..s.notes[i]
            };
            if s.has_db {
                let t = s.with_note(i, note);
                drop_holds(s, i, note, rows_after(rows, s.outbox));
                after_emit(rows, t, EffectView::DropDraft { path: note.path });
                touch_leaves_the_rows(rows, t.drop_draft(note.path));
            }
        }
    }
}

/// A save that is written drops the row of its note, whatever text it saved: the
/// rows hold the dirty buffers after it.
pub proof fn written_save_keeps_drafts(
    s: store::StoreView,
    rows: Rows,
    id: Seq<char>,
    content: Seq<char>,
    stat: Option<FileStat>,
)
    requires
        s.is_sound(),
        s.keeps_drafts(rows),
    ensures
        s.save_begun(id, content).saved(id, Written::Written { stat }).keeps_drafts(rows),
{
    let begun = s.save_begun(id, content);
    store::seek_finds(s.notes, id);
    order_laws::same_ids_same_positions(begun.notes, s.notes, id);
    if let Some(i) = store::seek(s.notes, id) {
        let note = docs::NoteView {
            content,
            revision: docs::revision_of(stat),
            dirty: false,
            ..s.notes[i]
        };
        if s.has_db {
            let t = begun.with_note(i, note);
            drop_holds(s, i, note, rows_after(rows, s.outbox));
            assert(t.notes =~= s.notes.update(i, note));
            after_emit(rows, t, EffectView::DropDraft { path: note.path });
            touch_leaves_the_rows(rows, t.drop_draft(note.path));
        }
    }
}

/// A reload drops the row of its note: the rows hold the dirty buffers after it.
pub proof fn reload_keeps_drafts(
    s: store::StoreView,
    rows: Rows,
    id: Seq<char>,
    read: store::ReadBackView,
)
    requires
        s.is_sound(),
        s.keeps_drafts(rows),
    ensures
        s.reloaded(id, read).keeps_drafts(rows),
{
    store::seek_finds(s.notes, id);
    if let (Some(i), store::ReadBackView::Text { content, stat }) = (
        store::seek(s.notes, id),
        read,
    ) {
        let note = docs::NoteView {
            content,
            revision: docs::revision_of(stat),
            dirty: false,
            ..s.notes[i]
        };
        if s.has_db {
            let t = s.with_note(i, note);
            drop_holds(s, i, note, rows_after(rows, s.outbox));
            after_emit(rows, t, EffectView::DropDraft { path: note.path });
            touch_leaves_the_rows(rows, t.drop_draft(note.path));
        }
    }
}

/// The row of a dirty note moves with it to its new path.
proof fn rekey_keeps_drafts(
    s: store::StoreView,
    rows: Rows,
    id: Seq<char>,
    target: Seq<char>,
)
    requires
        s.is_sound(),
        s.keeps_drafts(rows),
        !s.has(docs::id_of(target)),
    ensures
        s.rekeyed(id, target).keeps_drafts(rows),
{
    store::seek_finds(s.notes, id);
    store::seek_finds(s.notes, docs::id_of(target));
    if let Some(i) = store::seek(s.notes, id) {
        if s.has_db {
            let was = s.notes[i];
            let note = docs::NoteView { id: docs::id_of(target), path: target, ..was };
            let t = store::StoreView {
                active_id: if s.active_id == Some(id) {
                    Some(note.id)
                } else {
                    s.active_id
                },
                ..s.with_note(i, note)
            };
            let before = rows_after(rows, s.outbox);
            let gone = EffectView::DropDraft { path: was.path };
            let put = EffectView::PutDraft {
                path: note.path,
                revision: note.revision,
                content: note.content,
            };
            after_emit(rows, t, gone);
            after_emit(rows, t.emit(gone), put);
            let u = if was.dirty {
                t.emit(gone).emit(put)
            } else {
                t.emit(gone)
            };
            touch_leaves_the_rows(rows, u.forgotten(was.path).remembered(target));
            let all = t.notes;
            let after = if was.dirty {
                before.remove(was.path).insert(note.path, (note.revision, note.content))
            } else {
                before.remove(was.path)
            };
            assert(rows_after(rows, u.outbox) == after);
            assert forall|j: int| 0 <= j < s.notes.len() implies (#[trigger] s.notes[j]).path
                != target by {
                assert(s.notes[j].id == docs::id_of(s.notes[j].path));
            }
            assert forall|j: int| 0 <= j < all.len() && (#[trigger] all[j]).dirty implies
                after.contains_key(all[j].path) && after[all[j].path] == (
                all[j].revision,
                all[j].content,
            ) by {
                if j != i {
                    assert(all[j] == s.notes[j]);
                    if s.notes[j].path == was.path {
                        paths_are_distinct(s, i, j);
                    }
                }
            }
            assert forall|path: Seq<char>| #[trigger] after.contains_key(path) implies exists|
                j: int,
            |
                0 <= j < all.len() && (#[trigger] all[j]).dirty && all[j].path == path by {
                if was.dirty && path == target {
                    assert(all[i].dirty && all[i].path == path);
                } else {
                    assert(before.contains_key(path));
                    let k = choose|k: int|
                        0 <= k < s.notes.len() && (#[trigger] s.notes[k]).dirty && s.notes[k].path
                            == path;
                    assert(all[k] == s.notes[k]);
                }
            }
        }
    }
}

/// The dirty buffer and its row follow a rename: the rows hold the dirty buffers
/// after it.
pub proof fn rename_keeps_drafts(
    s: store::StoreView,
    rows: Rows,
    id: Seq<char>,
    target: Seq<char>,
    old_exists: bool,
    moved: Moved,
)
    requires
        s.is_sound(),
        s.keeps_drafts(rows),
    ensures
        s.rename_decided(id, target, old_exists).keeps_drafts(rows),
        !s.has(docs::id_of(target)) ==> s.renamed(id, target, moved).keeps_drafts(rows),
{
    if !s.has(docs::id_of(target)) {
        rekey_keeps_drafts(s, rows, id, target);
    }
}

/// A reorder leaves the rows.
pub proof fn reorder_keeps_drafts(s: store::StoreView, rows: Rows, order: Seq<Seq<char>>)
    requires
        s.is_sound(),
        s.keeps_drafts(rows),
    ensures
        s.reordered(order).keeps_drafts(rows),
{
    let all = store::arranged(s.notes, order);
    let now = rows_after(rows, s.outbox);
    order_laws::reorder_keeps_every_note(s.notes, order);
    if s.has_db {
        assert forall|j: int| 0 <= j < all.len() && (#[trigger] all[j]).dirty implies
            now.contains_key(all[j].path) && now[all[j].path] == (
            all[j].revision,
            all[j].content,
        ) by {
            assert(all.contains(all[j]));
            assert(s.notes.contains(all[j]));
            let k = choose|k: int| 0 <= k < s.notes.len() && s.notes[k] == all[j];
            assert(s.notes[k].dirty);
        }
        assert forall|path: Seq<char>| #[trigger] now.contains_key(path) implies exists|j: int|
            0 <= j < all.len() && (#[trigger] all[j]).dirty && all[j].path == path by {
            let k = choose|k: int|
                0 <= k < s.notes.len() && (#[trigger] s.notes[k]).dirty && s.notes[k].path == path;
            assert(s.notes.contains(s.notes[k]));
            assert(all.contains(s.notes[k]));
            let j = choose|j: int| 0 <= j < all.len() && all[j] == s.notes[k];
            assert(all[j].dirty);
        }
    }
}

/// Whether a list of draft rows has no two rows for the same note.
pub open spec fn rows_apart(rows: Seq<store::DraftView>) -> bool {
    forall|i: int, j: int|
        0 <= i < j < rows.len() ==> docs::id_of((#[trigger] rows[i]).path) != docs::id_of(
            (#[trigger] rows[j]).path,
        )
}

/// Whether a note has the buffer of a draft row.
pub open spec fn has_draft(note: Option<docs::NoteView>, row: store::DraftView) -> bool {
    note matches Some(n) && n.dirty && n.content == row.content && n.revision == row.revision
}

/// Taking up a draft row gives its note the buffer of the row and leaves the other
/// notes.
proof fn draft_is_taken_up(s: store::StoreView, row: store::DraftView)
    requires
        s.is_sound(),
    ensures
        has_draft(s.undrafted(row).note(docs::id_of(row.path)), row),
        forall|id: Seq<char>|
            id != docs::id_of(row.path) ==> #[trigger] s.undrafted(row).note(id) == s.note(id),
{
    let own = docs::id_of(row.path);
    let t = s.undrafted(row);
    store::seek_finds(s.notes, own);
    store_laws::draft_keeps_soundness(s, row);
    match store::seek(s.notes, own) {
        Some(i) => {
            order_laws::own_position(t.notes, i);
            assert forall|id: Seq<char>| id != own implies #[trigger] t.note(id) == s.note(id) by {
                order_laws::same_ids_same_positions(t.notes, s.notes, id);
                store::seek_finds(s.notes, id);
            }
        },
        None => {
            let n = s.notes.len() as int;
            assert(t.notes[n].id == own);
            order_laws::own_position(t.notes, n);
            assert forall|id: Seq<char>| id != own implies #[trigger] t.note(id) == s.note(id) by {
                store::seek_finds(s.notes, id);
                store::seek_finds(t.notes, id);
                match (store::seek(s.notes, id), store::seek(t.notes, id)) {
                    (Some(i), _) => {
                        assert(t.notes[i] == s.notes[i]);
                        order_laws::own_position(t.notes, i);
                    },
                    (None, Some(j)) => {
                        assert(j != n);
                        assert(t.notes[j] == s.notes[j]);
                    },
                    (None, None) => {},
                }
            }
        },
    }
}

/// No draft row stays invisible: after the start, the note of each row is open and
/// dirty, with the buffer and the base revision of the row, whatever the session
/// was and whatever stands on disk.
pub proof fn every_draft_is_visible(
    home: Seq<char>,
    has_db: bool,
    session: Option<JsonView>,
    files: Seq<store::DiskFileView>,
    rows: Seq<store::DraftView>,
    j: int,
)
    requires
        rows_apart(rows),
        0 <= j < rows.len(),
    ensures
        has_draft(
            store::started(home, has_db, session, files, Some(rows)).note(
                docs::id_of(rows[j].path),
            ),
            rows[j],
        ),
{
    let s = match session {
        Some(session) => store::fresh(home, has_db).restored(session, files, rows),
        None => store::fresh(home, has_db),
    };
    if let Some(session) = session {
        store_laws::session_keeps_soundness(store::fresh(home, has_db), session, files, rows);
    }
    rows_are_taken_up(s, rows, j);
    assert(s.all_undrafted(rows).bumped().note(docs::id_of(rows[j].path)) == s.all_undrafted(
        rows,
    ).note(docs::id_of(rows[j].path)));
}

proof fn rows_are_taken_up(s: store::StoreView, rows: Seq<store::DraftView>, j: int)
    requires
        s.is_sound(),
        rows_apart(rows),
        0 <= j < rows.len(),
    ensures
        has_draft(s.all_undrafted(rows).note(docs::id_of(rows[j].path)), rows[j]),
    decreases rows.len(),
{
    let before = rows.drop_last();
    let t = s.all_undrafted(before);
    store_laws::drafts_keep_soundness(s, before);
    draft_is_taken_up(t, rows.last());
    if j < before.len() {
        assert(before[j] == rows[j]);
        assert forall|i: int, k: int| 0 <= i < k < before.len() implies docs::id_of(
            (#[trigger] before[i]).path,
        ) != docs::id_of((#[trigger] before[k]).path) by {
            assert(before[i] == rows[i] && before[k] == rows[k]);
        }
        rows_are_taken_up(s, before, j);
        assert(docs::id_of(rows[j].path) != docs::id_of(rows[rows.len() - 1].path));
    }
}

/// Whether a list holds exactly the draft rows, each once.
pub open spec fn lists(list: Seq<store::DraftView>, rows: Rows) -> bool {
    &&& forall|i: int, j: int|
        0 <= i < j < list.len() ==> (#[trigger] list[i]).path != (#[trigger] list[j]).path
    &&& forall|i: int|
        0 <= i < list.len() ==> rows.contains_key((#[trigger] list[i]).path) && rows[list[i].path]
            == (list[i].revision, list[i].content)
    &&& forall|path: Seq<char>| #[trigger]
        rows.contains_key(path) ==> exists|i: int|
            0 <= i < list.len() && (#[trigger] list[i]).path == path
}

/// A crash loses nothing that was typed: if the process dies at any moment after
/// its effects were performed, the next start reopens every dirty note with its
/// buffer and its base revision, dirty.
pub proof fn crash_reopens_dirty_buffers(
    s: store::StoreView,
    rows: Rows,
    list: Seq<store::DraftView>,
    home: Seq<char>,
    has_db: bool,
    session: Option<JsonView>,
    files: Seq<store::DiskFileView>,
    i: int,
)
    requires
        s.is_sound(),
        s.has_db,
        s.keeps_drafts(rows),
        lists(list, rows_after(rows, s.outbox)),
        0 <= i < s.notes.len(),
        s.notes[i].dirty,
    ensures
        store::started(home, has_db, session, files, Some(list)).note(s.notes[i].id) matches Some(
            note,
        ) && note.dirty && note.content == s.notes[i].content && note.revision
            == s.notes[i].revision,
{
    let now = rows_after(rows, s.outbox);
    assert(now.contains_key(s.notes[i].path));
    let j = choose|j: int| 0 <= j < list.len() && (#[trigger] list[j]).path == s.notes[i].path;
    assert forall|a: int, b: int| 0 <= a < b < list.len() implies docs::id_of(
        (#[trigger] list[a]).path,
    ) != docs::id_of((#[trigger] list[b]).path) by {
        assert(now.contains_key(list[a].path) && now.contains_key(list[b].path));
        let m = choose|m: int|
            0 <= m < s.notes.len() && (#[trigger] s.notes[m]).dirty && s.notes[m].path
                == list[a].path;
        let n = choose|n: int|
            0 <= n < s.notes.len() && (#[trigger] s.notes[n]).dirty && s.notes[n].path
                == list[b].path;
        assert(m != n);
        assert(s.notes[m].id != s.notes[n].id);
    }
    every_draft_is_visible(home, has_db, session, files, list, j);
}

/// Whether no file of a session shares its id with another path of a draft row.
pub open spec fn files_apart(
    files: Seq<store::DiskFileView>,
    list: Seq<store::DraftView>,
) -> bool {
    forall|k: int, j: int|
        0 <= k < files.len() && 0 <= j < list.len() && docs::id_of((#[trigger] files[k]).path)
            == docs::id_of((#[trigger] list[j]).path) ==> files[k].path == list[j].path
}

/// Whether every note is clean and at the path of a file.
spec fn all_clean(notes: Seq<docs::NoteView>, files: Seq<store::DiskFileView>) -> bool {
    forall|i: int|
        0 <= i < notes.len() ==> !(#[trigger] notes[i]).dirty && exists|k: int|
            0 <= k < files.len() && (#[trigger] files[k]).path == notes[i].path
}

proof fn reopened_is_clean(
    s: store::StoreView,
    files: Seq<store::DiskFileView>,
    list: Seq<store::DraftView>,
    rows: Rows,
)
    requires
        s.notes.len() == 0,
        s.outbox.len() == 0,
    ensures
        all_clean(s.reopened(files, list).notes, files),
        rows_after(rows, s.reopened(files, list).outbox) == rows,
        s.reopened(files, list).has_db == s.has_db,
    decreases files.len(),
{
    if files.len() > 0 {
        let before = files.drop_last();
        let t = s.reopened(before, list);
        let file = files.last();
        let id = docs::id_of(file.path);
        reopened_is_clean(s, before, list, rows);
        touch_leaves_the_rows(rows, t.focused(id));
        let u = store::StoreView { notes: t.notes.push(store::new_note(file)), ..t };
        touch_leaves_the_rows(rows, u.focused(id).remembered(file.path));
        let all = s.reopened(files, list).notes;
        assert forall|i: int| 0 <= i < all.len() implies !(#[trigger] all[i]).dirty && exists|
            k: int,
        |
            0 <= k < files.len() && (#[trigger] files[k]).path == all[i].path by {
            if i < t.notes.len() {
                assert(all[i] == t.notes[i]);
                let k = choose|k: int|
                    0 <= k < before.len() && (#[trigger] before[k]).path == t.notes[i].path;
                assert(files[k].path == all[i].path);
            } else {
                assert(files[files.len() - 1].path == all[i].path);
            }
        }
    }
}

/// Whether the dirty notes are those of the draft rows, and every other note is at
/// the path of a file.
spec fn dirty_are(
    notes: Seq<docs::NoteView>,
    files: Seq<store::DiskFileView>,
    list: Seq<store::DraftView>,
) -> bool {
    &&& forall|i: int|
        0 <= i < notes.len() ==> if (#[trigger] notes[i]).dirty {
            exists|j: int|
                0 <= j < list.len() && (#[trigger] list[j]).path == notes[i].path
                    && list[j].content == notes[i].content && list[j].revision
                    == notes[i].revision
        } else {
            exists|k: int| 0 <= k < files.len() && (#[trigger] files[k]).path == notes[i].path
        }
    &&& forall|j: int|
        0 <= j < list.len() ==> exists|i: int|
            0 <= i < notes.len() && (#[trigger] notes[i]).dirty && notes[i].path == (
            #[trigger] list[j]).path
}

proof fn drafts_make_dirty(
    s: store::StoreView,
    files: Seq<store::DiskFileView>,
    list: Seq<store::DraftView>,
    rows: Rows,
)
    requires
        s.is_sound(),
        all_clean(s.notes, files),
        rows_after(rows, s.outbox) == rows,
        rows_apart(list),
        files_apart(files, list),
    ensures
        s.all_undrafted(list).is_sound(),
        dirty_are(s.all_undrafted(list).notes, files, list),
        rows_after(rows, s.all_undrafted(list).outbox) == rows,
        s.all_undrafted(list).has_db == s.has_db,
    decreases list.len(),
{
    if list.len() > 0 {
        let before = list.drop_last();
        assert forall|i: int, k: int| 0 <= i < k < before.len() implies docs::id_of(
            (#[trigger] before[i]).path,
        ) != docs::id_of((#[trigger] before[k]).path) by {
            assert(before[i] == list[i] && before[k] == list[k]);
        }
        assert forall|k: int, j: int|
            0 <= k < files.len() && 0 <= j < before.len() && docs::id_of(
                (#[trigger] files[k]).path,
            ) == docs::id_of((#[trigger] before[j]).path) implies files[k].path
            == before[j].path by {
            assert(before[j] == list[j]);
        }
        drafts_make_dirty(s, files, before, rows);
        assert(list =~= before.push(list.last()));
        draft_makes_dirty(s.all_undrafted(before), files, before, list.last(), rows);
    }
}

/// Where the note of a draft row stands once the row is taken up.
spec fn place_of(notes: Seq<docs::NoteView>, row: store::DraftView) -> int {
    match store::seek(notes, docs::id_of(row.path)) {
        Some(i) => i,
        None => notes.len() as int,
    }
}

proof fn draft_makes_dirty(
    t: store::StoreView,
    files: Seq<store::DiskFileView>,
    before: Seq<store::DraftView>,
    row: store::DraftView,
    rows: Rows,
)
    requires
        t.is_sound(),
        dirty_are(t.notes, files, before),
        rows_after(rows, t.outbox) == rows,
        rows_apart(before.push(row)),
        files_apart(files, before.push(row)),
    ensures
        t.undrafted(row).is_sound(),
        dirty_are(t.undrafted(row).notes, files, before.push(row)),
        rows_after(rows, t.undrafted(row).outbox) == rows,
        t.undrafted(row).has_db == t.has_db,
{
    let list = before.push(row);
    let n = before.len() as int;
    let all = t.undrafted(row).notes;
    let id = docs::id_of(row.path);
    let at = place_of(t.notes, row);
    store_laws::draft_keeps_soundness(t, row);
    store::seek_finds(t.notes, id);
    if let Some(i) = store::seek(t.notes, id) {
        if t.notes[i].dirty {
            let j = choose|j: int|
                0 <= j < before.len() && (#[trigger] before[j]).path == t.notes[i].path;
            assert(before[j] == list[j]);
            assert(docs::id_of(list[j].path) != docs::id_of(list[n].path));
        } else {
            let k = choose|k: int|
                0 <= k < files.len() && (#[trigger] files[k]).path == t.notes[i].path;
            assert(files[k].path == list[n].path);
        }
    } else {
        let u = store::StoreView { notes: t.notes.push(store::drafted_note(row)), ..t };
        touch_leaves_the_rows(rows, u.focused(id).remembered(row.path));
    }
    assert(all[at].path == row.path && all[at].dirty && all[at].content == row.content
        && all[at].revision == row.revision);
    assert(forall|i: int| 0 <= i < all.len() && i != at ==> #[trigger] all[i] == t.notes[i]);
    dirty_with_the_row(t.notes, all, files, before, row, at);
}

proof fn dirty_with_the_row(
    notes: Seq<docs::NoteView>,
    all: Seq<docs::NoteView>,
    files: Seq<store::DiskFileView>,
    before: Seq<store::DraftView>,
    row: store::DraftView,
    at: int,
)
    requires
        dirty_are(notes, files, before),
        notes.len() <= all.len(),
        0 <= at < all.len(),
        all.len() == notes.len() || at == notes.len() && all.len() == notes.len() + 1,
        all[at].path == row.path && all[at].dirty && all[at].content == row.content
            && all[at].revision == row.revision,
        forall|i: int| 0 <= i < all.len() && i != at ==> #[trigger] all[i] == notes[i],
        at < notes.len() && notes[at].dirty ==> forall|j: int|
            0 <= j < before.len() ==> (#[trigger] before[j]).path != notes[at].path,
    ensures
        dirty_are(all, files, before.push(row)),
{
    let list = before.push(row);
    let n = before.len() as int;
    assert forall|i: int| 0 <= i < all.len() implies if (#[trigger] all[i]).dirty {
        exists|j: int|
            0 <= j < list.len() && (#[trigger] list[j]).path == all[i].path && list[j].content
                == all[i].content && list[j].revision == all[i].revision
    } else {
        exists|k: int| 0 <= k < files.len() && (#[trigger] files[k]).path == all[i].path
    } by {
        if i == at {
            assert(list[n].path == all[i].path);
        } else {
            assert(all[i] == notes[i]);
            if notes[i].dirty {
                let j = choose|j: int|
                    0 <= j < before.len() && (#[trigger] before[j]).path == notes[i].path
                        && before[j].content == notes[i].content && before[j].revision
                        == notes[i].revision;
                assert(list[j] == before[j]);
            }
        }
    }
    assert forall|j: int| 0 <= j < list.len() implies exists|i: int|
        0 <= i < all.len() && (#[trigger] all[i]).dirty && all[i].path == (
        #[trigger] list[j]).path by {
        if j < n {
            assert(before[j] == list[j]);
            let i = choose|i: int|
                0 <= i < notes.len() && (#[trigger] notes[i]).dirty && notes[i].path
                    == before[j].path;
            assert(i != at);
            assert(all[i] == notes[i]);
        } else {
            assert(all[at].dirty && all[at].path == list[j].path);
        }
    }
}

/// From the start on, the draft rows hold the buffers of the dirty notes and
/// nothing else, where no two paths at hand share an id.
pub proof fn start_keeps_drafts(
    home: Seq<char>,
    has_db: bool,
    session: Option<JsonView>,
    files: Seq<store::DiskFileView>,
    list: Seq<store::DraftView>,
    rows: Rows,
)
    requires
        lists(list, rows),
        rows_apart(list),
        files_apart(files, list),
    ensures
        store::started(home, has_db, session, files, Some(list)).keeps_drafts(rows),
{
    let fresh = store::fresh(home, has_db);
    let s = match session {
        Some(session) => fresh.restored(session, files, list),
        None => fresh,
    };
    if let Some(session) = session {
        reopened_is_clean(fresh.configured(session), files, list, rows);
        store_laws::session_keeps_soundness(fresh, session, files, list);
    }
    drafts_make_dirty(s, files, list, rows);
    dirty_rows_hold(s.all_undrafted(list).notes, files, list, rows);
}

proof fn dirty_rows_hold(
    notes: Seq<docs::NoteView>,
    files: Seq<store::DiskFileView>,
    list: Seq<store::DraftView>,
    rows: Rows,
)
    requires
        dirty_are(notes, files, list),
        lists(list, rows),
    ensures
        rows_hold(notes, rows),
{
    assert forall|i: int| 0 <= i < notes.len() && (#[trigger] notes[i]).dirty implies
        rows.contains_key(notes[i].path) && rows[notes[i].path] == (
        notes[i].revision,
        notes[i].content,
    ) by {
        let j = choose|j: int|
            0 <= j < list.len() && (#[trigger] list[j]).path == notes[i].path && list[j].content
                == notes[i].content && list[j].revision == notes[i].revision;
        assert(rows.contains_key(list[j].path));
    }
    assert forall|path: Seq<char>| #[trigger] rows.contains_key(path) implies exists|i: int|
        0 <= i < notes.len() && (#[trigger] notes[i]).dirty && notes[i].path == path by {
        let j = choose|j: int| 0 <= j < list.len() && (#[trigger] list[j]).path == path;
        let i = choose|i: int|
            0 <= i < notes.len() && (#[trigger] notes[i]).dirty && notes[i].path == list[j].path;
        assert(notes[i].dirty);
    }
}

} // verus!
