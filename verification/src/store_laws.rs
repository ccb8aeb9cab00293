//! What every operation of the store keeps.

use crate::docs;
use crate::json::JsonView;
use crate::order_laws;
use crate::store::{self, Moved, Written};
use vstd::prelude::*;

verus! {

impl store::StoreView {
    /// Whether the store is sound: no two notes have the same id, the id of each
    /// note is that of its path, and the active note is open; there is an active
    /// note while there are notes.
    pub open spec fn is_sound(self) -> bool {
        &&& order_laws::distinct(self.notes)
        &&& forall|i: int|
            0 <= i < self.notes.len() ==> (#[trigger] self.notes[i]).id == docs::id_of(
                self.notes[i].path,
            )
        &&& match self.active_id {
            Some(id) => self.has(id),
            None => self.notes.len() == 0,
        }
    }
}

/// A store without notes is sound.
pub proof fn fresh_is_sound(home: Seq<char>, has_db: bool)
    ensures
        store::fresh(home, has_db).is_sound(),
{
}

/// Another buffer, revision or mark in a note keeps the store sound.
proof fn changed_note_is_sound(s: store::StoreView, i: int, note: docs::NoteView)
    requires
        s.is_sound(),
        0 <= i < s.notes.len(),
        note.id == s.notes[i].id,
        note.path == s.notes[i].path,
    ensures
        s.with_note(i, note).is_sound(),
        forall|id: Seq<char>| #[trigger]
            store::seek(s.with_note(i, note).notes, id) == store::seek(s.notes, id),
{
    let t = s.with_note(i, note);
    assert forall|id: Seq<char>| #[trigger]
        store::seek(t.notes, id) == store::seek(s.notes, id) by {
        order_laws::same_ids_same_positions(t.notes, s.notes, id);
    }
}

/// A note more, with an id that none has, keeps the store sound if it becomes
/// active.
proof fn pushed_note_is_sound(s: store::StoreView, note: docs::NoteView)
    requires
        s.is_sound(),
        !s.has(note.id),
        note.id == docs::id_of(note.path),
    ensures
        (store::StoreView { notes: s.notes.push(note), ..s }.focused(note.id)).is_sound(),
        store::seek(s.notes.push(note), note.id) == Some(s.notes.len() as int),
{
    let all = s.notes.push(note);
    store::seek_finds(s.notes, note.id);
    assert forall|i: int, j: int| 0 <= i < j < all.len() implies (#[trigger] all[i]).id != (
    #[trigger] all[j]).id by {
        assert(s.notes[i].id != note.id);
    }
    order_laws::own_position(all, s.notes.len() as int);
    assert(all[s.notes.len() as int] == note);
}

/// An edit keeps the store sound.
pub proof fn edit_keeps_soundness(s: store::StoreView, id: Seq<char>, content: Seq<char>)
    requires
        s.is_sound(),
    ensures
        s.edited(id, content).is_sound(),
{
    store::seek_finds(s.notes, id);
    match store::seek(s.notes, id) {
        Some(i) => {
            let note = docs::NoteView { content, dirty: true, ..s.notes[i] };
            changed_note_is_sound(s, i, note);
        },
        None => {},
    }
}

/// Closing a note keeps the store sound.
pub proof fn close_keeps_soundness(s: store::StoreView, id: Seq<char>)
    requires
        s.is_sound(),
    ensures
        s.closed(id).is_sound(),
{
    let left = store::without(s.notes, id);
    order_laws::without_keeps_the_others(s.notes, id);
    assert forall|i: int| 0 <= i < left.len() implies (#[trigger] left[i]).id == docs::id_of(
        left[i].path,
    ) by {
        assert(left.contains(left[i]));
        assert(s.notes.contains(left[i]));
    }
    if left.len() > 0 {
        order_laws::own_position(left, 0);
    }
    match s.active_id {
        Some(active) => {
            if active != id {
                store::seek_finds(s.notes, active);
                let i = store::seek(s.notes, active)->0;
                assert(s.notes.contains(s.notes[i]));
                assert(left.contains(s.notes[i]));
                let j = choose|j: int| 0 <= j < left.len() && left[j] == s.notes[i];
                order_laws::own_position(left, j);
            }
        },
        None => {
            if left.len() > 0 {
                assert(left.contains(left[0]));
            }
        },
    }
}

/// A reorder keeps the store sound.
pub proof fn reorder_keeps_soundness(s: store::StoreView, order: Seq<Seq<char>>)
    requires
        s.is_sound(),
    ensures
        s.reordered(order).is_sound(),
        forall|id: Seq<char>| #[trigger] s.reordered(order).note(id) == s.note(id),
{
    let all = store::arranged(s.notes, order);
    order_laws::reorder_keeps_every_note(s.notes, order);
    assert forall|i: int| 0 <= i < all.len() implies (#[trigger] all[i]).id == docs::id_of(
        all[i].path,
    ) by {
        assert(all.contains(all[i]));
        assert(s.notes.contains(all[i]));
    }
    assert forall|id: Seq<char>| #[trigger] s.reordered(order).note(id) == s.note(id) by {
        store::seek_finds(s.notes, id);
        store::seek_finds(all, id);
        match (store::seek(s.notes, id), store::seek(all, id)) {
            (Some(i), _) => {
                assert(s.notes.contains(s.notes[i]));
                let j = choose|j: int| 0 <= j < all.len() && all[j] == s.notes[i];
                order_laws::own_position(all, j);
            },
            (None, Some(j)) => {
                assert(all.contains(all[j]));
                let i = choose|i: int| 0 <= i < s.notes.len() && s.notes[i] == all[j];
            },
            (None, None) => {},
        }
    }
    match s.active_id {
        Some(id) => {
            assert(s.reordered(order).note(id) == s.note(id));
        },
        None => {},
    }
}

/// Opening a file keeps the store sound.
pub proof fn open_keeps_soundness(s: store::StoreView, file: store::DiskFileView)
    requires
        s.is_sound(),
    ensures
        s.opened(file).is_sound(),
{
    if !s.has(docs::id_of(file.path)) {
        pushed_note_is_sound(s, store::new_note(file));
    }
}

/// A save keeps the store sound, at its start and at its end.
pub proof fn save_keeps_soundness(
    s: store::StoreView,
    id: Seq<char>,
    content: Seq<char>,
    written: Written,
)
    requires
        s.is_sound(),
    ensures
        s.save_begun(id, content).is_sound(),
        s.saved(id, written).is_sound(),
{
    store::seek_finds(s.notes, id);
    match store::seek(s.notes, id) {
        Some(i) => {
            changed_note_is_sound(s, i, docs::NoteView { content, ..s.notes[i] });
            if let Written::Written { stat } = written {
                changed_note_is_sound(
                    s,
                    i,
                    docs::NoteView {
                        revision: docs::revision_of(stat),
                        dirty: false,
                        ..s.notes[i]
                    },
                );
            }
        },
        None => {},
    }
}

/// A reload keeps the store sound.
pub proof fn reload_keeps_soundness(
    s: store::StoreView,
    id: Seq<char>,
    read: store::ReadBackView,
)
    requires
        s.is_sound(),
    ensures
        s.reloaded(id, read).is_sound(),
{
    store::seek_finds(s.notes, id);
    if let (Some(i), store::ReadBackView::Text { content, stat }) = (
        store::seek(s.notes, id),
        read,
    ) {
        changed_note_is_sound(
            s,
            i,
            docs::NoteView {
                content,
                revision: docs::revision_of(stat),
                dirty: false,
                ..s.notes[i]
            },
        );
    }
}

/// A note at a new path, where no note is, keeps the store sound.
proof fn rekey_keeps_soundness(s: store::StoreView, id: Seq<char>, target: Seq<char>)
    requires
        s.is_sound(),
        !s.has(docs::id_of(target)),
    ensures
        s.rekeyed(id, target).is_sound(),
{
    store::seek_finds(s.notes, id);
    if let Some(i) = store::seek(s.notes, id) {
        let new_id = docs::id_of(target);
        let all = s.rekeyed(id, target).notes;
        store::seek_finds(s.notes, new_id);
        assert(all[i].id == new_id);
        assert forall|j: int, k: int| 0 <= j < k < all.len() implies (#[trigger] all[j]).id != (
        #[trigger] all[k]).id by {
            assert(s.notes[j].id != s.notes[k].id);
        }
        order_laws::own_position(all, i);
        if let Some(active) = s.active_id {
            if active != id {
                store::seek_finds(s.notes, active);
                let j = store::seek(s.notes, active)->0;
                order_laws::own_position(all, j);
            }
        }
    }
}

/// A rename keeps the store sound, whether there is a file to move or not.
pub proof fn rename_keeps_soundness(
    s: store::StoreView,
    id: Seq<char>,
    target: Seq<char>,
    old_exists: bool,
    moved: Moved,
)
    requires
        s.is_sound(),
    ensures
        s.rename_decided(id, target, old_exists).is_sound(),
        !s.has(docs::id_of(target)) ==> s.renamed(id, target, moved).is_sound(),
{
    if !s.has(docs::id_of(target)) {
        rekey_keeps_soundness(s, id, target);
    }
}

/// Opening the files of a session again keeps the store sound.
pub proof fn reopening_keeps_soundness(
    s: store::StoreView,
    files: Seq<store::DiskFileView>,
    rows: Seq<store::DraftView>,
)
    requires
        s.is_sound(),
    ensures
        s.reopened(files, rows).is_sound(),
    decreases files.len(),
{
    if files.len() > 0 {
        reopening_keeps_soundness(s, files.drop_last(), rows);
        open_keeps_soundness(s.reopened(files.drop_last(), rows), files.last());
    }
}

/// Restoring a session keeps the store sound, whatever the session holds.
pub proof fn session_keeps_soundness(
    s: store::StoreView,
    session: JsonView,
    files: Seq<store::DiskFileView>,
    rows: Seq<store::DraftView>,
)
    requires
        s.is_sound(),
    ensures
        s.restored(session, files, rows).is_sound(),
{
    reopening_keeps_soundness(s.configured(session), files, rows);
}

/// Taking up a draft row keeps the store sound.
pub proof fn draft_keeps_soundness(s: store::StoreView, row: store::DraftView)
    requires
        s.is_sound(),
    ensures
        s.undrafted(row).is_sound(),
{
    let id = docs::id_of(row.path);
    store::seek_finds(s.notes, id);
    match store::seek(s.notes, id) {
        Some(i) => {
            changed_note_is_sound(
                s,
                i,
                docs::NoteView {
                    content: row.content,
                    revision: row.revision,
                    dirty: true,
                    ..s.notes[i]
                },
            );
        },
        None => {
            pushed_note_is_sound(s, store::drafted_note(row));
        },
    }
}

/// Taking up the draft rows keeps the store sound.
pub proof fn drafts_keep_soundness(s: store::StoreView, rows: Seq<store::DraftView>)
    requires
        s.is_sound(),
    ensures
        s.all_undrafted(rows).is_sound(),
    decreases rows.len(),
{
    if rows.len() > 0 {
        drafts_keep_soundness(s, rows.drop_last());
        draft_keeps_soundness(s.all_undrafted(rows.drop_last()), rows.last());
    }
}

/// The store is sound at the start, whatever the session and the draft rows hold.
pub proof fn start_is_sound(
    home: Seq<char>,
    has_db: bool,
    session: Option<JsonView>,
    files: Seq<store::DiskFileView>,
    rows: Option<Seq<store::DraftView>>,
)
    ensures
        store::started(home, has_db, session, files, rows).is_sound(),
{
    let s = store::fresh(home, has_db);
    let drafts = match rows {
        Some(rows) => rows,
        None => seq![],
    };
    if let Some(session) = session {
        session_keeps_soundness(s, session, files, drafts);
        drafts_keep_soundness(s.restored(session, files, drafts), drafts);
    }
    drafts_keep_soundness(s, drafts);
}

} // verus!
