//! What each operation of the store does to the notes, and what it leaves alone.

use crate::docs::{self, FileStat, ViewMode};
use crate::json::JsonView;
use crate::order_laws;
use crate::paths;
use crate::store::{self, EffectView, Moved, SaveStepView, Written};
use crate::store_laws;
use crate::text;
use vstd::prelude::*;

verus! {

impl store::StoreView {
    /// Whether two stores agree in everything but the notes, the active note, the
    /// recent paths, the epoch and the waiting effects.
    pub open spec fn set_as(self, s: store::StoreView) -> bool {
        &&& self.view_mode == s.view_mode
        &&& self.word_wrap == s.word_wrap
        &&& self.home == s.home
        &&& self.has_db == s.has_db
    }

    /// What a change hands out for the session.
    pub open spec fn kept_session(self) -> Seq<EffectView> {
        let file = paths::joined(
            paths::joined(paths::joined(self.home, ".yggterm"@), "yedit"@),
            "session.json"@,
        );
        if self.has_db {
            seq![
                EffectView::PutSession { session: self.session() },
                EffectView::DropSessionFile { path: file },
            ]
        } else {
            seq![EffectView::WriteSessionFile { path: file, session: self.session() }]
        }
    }
}

/// A touch moves the epoch on by one and hands the session out; it changes nothing
/// else.
pub proof fn touch_only_hands_out(s: store::StoreView)
    ensures
        s.touched().notes == s.notes,
        s.touched().active_id == s.active_id,
        s.touched().recent == s.recent,
        s.touched().set_as(s),
        s.touched().epoch == s.epoch.wrapping_add(1),
        s.touched().epoch != s.epoch,
        s.touched().outbox == s.outbox + s.kept_session(),
{
    assert(s.bumped().session() == s.session());
    assert(s.touched().outbox =~= s.outbox + s.kept_session());
}

/// An edit makes the text the buffer of its note, dirty, whatever the note was
/// before, and writes that text, in full, to its draft row. A text that is the
/// buffer already changes nothing but the epoch.
pub proof fn edit_makes_the_text_the_buffer(
    s: store::StoreView,
    id: Seq<char>,
    content: Seq<char>,
)
    ensures
        ({
            let t = s.edited(id, content);
            &&& s.note(id) matches Some(note) ==> t.note(id) == Some(
                docs::NoteView {
                    id: note.id,
                    path: note.path,
                    content,
                    revision: note.revision,
                    dirty: note.dirty || note.content != content,
                },
            )
            &&& s.note(id) matches Some(note) ==> t.outbox == (if note.content != content
                && s.has_db {
                s.outbox.push(
                    EffectView::PutDraft { path: note.path, revision: note.revision, content },
                )
            } else {
                s.outbox
            })
            &&& s.note(id) is None ==> t.notes == s.notes && t.outbox == s.outbox
            &&& forall|other: Seq<char>| other != id ==> #[trigger] t.note(other) == s.note(other)
            &&& t.notes.len() == s.notes.len()
            &&& forall|i: int|
                0 <= i < s.notes.len() ==> (#[trigger] t.notes[i]).id == s.notes[i].id
            &&& t.active_id == s.active_id
            &&& t.recent == s.recent
            &&& t.set_as(s)
            &&& t.epoch == s.epoch.wrapping_add(1)
        }),
{
    let t = s.edited(id, content);
    store::seek_finds(s.notes, id);
    order_laws::same_ids_same_positions(t.notes, s.notes, id);
    assert forall|other: Seq<char>| other != id implies #[trigger] t.note(other) == s.note(
        other,
    ) by {
        store::seek_finds(s.notes, other);
        order_laws::same_ids_same_positions(t.notes, s.notes, other);
    }
}

/// Of any number of edits the last counts: after two, the buffer is the second text,
/// and the note is dirty unless neither changed it.
pub proof fn last_edit_counts(
    s: store::StoreView,
    id: Seq<char>,
    first: Seq<char>,
    second: Seq<char>,
)
    requires
        s.has(id),
    ensures
        s.edited(id, first).edited(id, second).note(id) matches Some(note) && note.content
            == second && (note.dirty <==> s.note(id)->0.dirty || first != s.note(id)->0.content
            || second != first),
{
    edit_makes_the_text_the_buffer(s, id, first);
    edit_makes_the_text_the_buffer(s.edited(id, first), id, second);
}

/// Closing a note takes it out of its place. Its draft row goes; the active note
/// stays, and if it was the one that closed, the first of the others follows, if
/// there is one.
pub proof fn close_takes_the_note_out(s: store::StoreView, id: Seq<char>)
    ensures
        ({
            let t = s.closed(id);
            &&& t.notes == store::without(s.notes, id)
            &&& order_laws::distinct(s.notes) ==> t.notes == (match store::seek(s.notes, id) {
                Some(k) => s.notes.remove(k),
                None => s.notes,
            })
            &&& t.active_id == (if s.active_id != Some(id) {
                s.active_id
            } else if t.notes.len() > 0 {
                Some(t.notes[0].id)
            } else {
                None
            })
            &&& t.outbox == (match s.note(id) {
                Some(note) => if s.has_db {
                    s.outbox.push(EffectView::DropDraft { path: note.path })
                } else {
                    s.outbox
                },
                None => s.outbox,
            }) + t.kept_session()
            &&& t.recent == s.recent
            &&& t.set_as(s)
            &&& t.epoch == s.epoch.wrapping_add(1)
        }),
{
    store::seek_finds(s.notes, id);
    match store::seek(s.notes, id) {
        Some(k) => {
            if order_laws::distinct(s.notes) {
                order_laws::without_removes_the_one(s.notes, k);
            }
        },
        None => {
            order_laws::without_nobody_removes_nothing(s.notes, id);
        },
    }
    let dropped = match s.note(id) {
        Some(note) => s.drop_draft(note.path),
        None => s,
    };
    let notes = store::without(dropped.notes, id);
    let before = store::StoreView {
        notes,
        active_id: if dropped.active_id == Some(id) {
            if notes.len() > 0 {
                Some(notes[0].id)
            } else {
                None
            }
        } else {
            dropped.active_id
        },
        ..dropped
    };
    touch_only_hands_out(before);
    assert(before.touched().session() == before.session());
}

/// A reorder changes the order of the notes and nothing else.
pub proof fn reorder_only_moves(s: store::StoreView, order: Seq<Seq<char>>)
    ensures
        ({
            let t = s.reordered(order);
            &&& t.active_id == s.active_id
            &&& t.recent == s.recent
            &&& t.set_as(s)
            &&& t.epoch == s.epoch
            &&& t.outbox == s.outbox
            &&& t.notes.to_multiset() == s.notes.to_multiset()
        }),
{
    order_laws::reorder_keeps_every_note(s.notes, order);
}

/// Opening the file of an open note focuses the note, and does not read it again.
pub proof fn open_focuses_an_open_note(s: store::StoreView, file: store::DiskFileView)
    requires
        s.has(docs::id_of(file.path)),
    ensures
        ({
            let t = s.opened(file);
            &&& s.open_result(file) == Ok::<Seq<char>, Seq<char>>(docs::id_of(file.path))
            &&& t.notes == s.notes
            &&& t.active_id == Some(docs::id_of(file.path))
            &&& t.recent == s.recent
            &&& t.set_as(s)
            &&& t.epoch == s.epoch.wrapping_add(1)
            &&& t.outbox == s.outbox + t.kept_session()
        }),
{
    touch_only_hands_out(s.focused(docs::id_of(file.path)));
    assert(s.focused(docs::id_of(file.path)).touched().session() == s.focused(
        docs::id_of(file.path),
    ).session());
}

/// Opening another file puts its note behind the others and makes it active: with
/// the text of the file and its revision, or empty and with the revision of a
/// missing file; clean either way. Its path becomes the latest.
pub proof fn open_adds_the_file_as_a_note(s: store::StoreView, file: store::DiskFileView)
    requires
        !s.has(docs::id_of(file.path)),
        !(file.found is Unreadable),
    ensures
        ({
            let t = s.opened(file);
            let n = s.notes.len() as int;
            &&& s.open_result(file) == Ok::<Seq<char>, Seq<char>>(docs::id_of(file.path))
            &&& t.notes.len() == n + 1
            &&& t.notes.take(n) == s.notes
            &&& t.notes[n].id == docs::id_of(file.path)
            &&& t.notes[n].path == file.path
            &&& !t.notes[n].dirty
            &&& match file.found {
                store::FoundView::Text { content, stat } => t.notes[n].content == content
                    && t.notes[n].revision == docs::revision_of(stat),
                _ => t.notes[n].content.len() == 0 && t.notes[n].revision == "new"@,
            }
            &&& t.active_id == Some(docs::id_of(file.path))
            &&& t.recent == store::limited(
                seq![file.path] + store::without_path(s.recent, file.path),
            )
            &&& t.set_as(s)
            &&& t.epoch == s.epoch.wrapping_add(1)
            &&& t.outbox == s.outbox + t.kept_session()
        }),
{
    let before = store::StoreView { notes: s.notes.push(store::new_note(file)), ..s }.focused(
        docs::id_of(file.path),
    ).remembered(file.path);
    touch_only_hands_out(before);
    assert(before.touched().session() == before.session());
    assert(s.opened(file).notes.take(s.notes.len() as int) =~= s.notes);
}

/// A file that cannot be read is refused with a message, and changes nothing.
pub proof fn unreadable_file_is_refused(s: store::StoreView, file: store::DiskFileView)
    requires
        !s.has(docs::id_of(file.path)),
        file.found is Unreadable,
    ensures
        s.opened(file) == s,
        s.open_result(file) == Err::<Seq<char>, Seq<char>>("reading "@ + file.path),
{
}

/// A save writes to the path of the note, below its directory, the text that was
/// given; the text becomes the buffer at once, and nothing else changes before the
/// file is written.
pub proof fn save_takes_the_text_up(
    s: store::StoreView,
    id: Seq<char>,
    content: Seq<char>,
    force: bool,
    disk: Option<FileStat>,
)
    ensures
        ({
            let t = s.save_begun(id, content);
            let step = s.save_step(id, content, force, disk);
            &&& s.note(id) matches Some(note) ==> t.note(id) == Some(
                docs::NoteView {
                    id: note.id,
                    path: note.path,
                    content,
                    revision: note.revision,
                    dirty: note.dirty,
                },
            )
            &&& forall|other: Seq<char>| other != id ==> #[trigger] t.note(other) == s.note(other)
            &&& s.note(id) is None ==> t == s && step == Err::<SaveStepView, Seq<char>>(
                "unknown note "@ + id,
            )
            &&& t.notes.len() == s.notes.len()
            &&& t.active_id == s.active_id
            &&& t.recent == s.recent
            &&& t.set_as(s)
            &&& t.epoch == s.epoch
            &&& t.outbox == s.outbox
            &&& match step {
                Ok(SaveStepView::Write { parent, path, content: written }) => {
                    &&& s.note(id) matches Some(note) && path == note.path && parent
                        == paths::parent(note.path)
                    &&& written == content
                    &&& force || docs::revision_of(disk) == s.note(id)->0.revision
                },
                Ok(SaveStepView::Conflict { disk: now, loaded }) => {
                    &&& !force
                    &&& now == docs::revision_of(disk)
                    &&& s.note(id) matches Some(note) && loaded == note.revision
                    &&& now != loaded
                },
                Ok(SaveStepView::Saved { .. }) => false,
                Err(_) => s.note(id) is None,
            }
        }),
{
    let t = s.save_begun(id, content);
    store::seek_finds(s.notes, id);
    order_laws::same_ids_same_positions(t.notes, s.notes, id);
    assert forall|other: Seq<char>| other != id implies #[trigger] t.note(other) == s.note(
        other,
    ) by {
        store::seek_finds(s.notes, other);
        order_laws::same_ids_same_positions(t.notes, s.notes, other);
    }
}

/// A file that was written makes its note clean, at the revision of the file, and
/// drops its draft row; the buffer stays. One that was not leaves the store, and the
/// message says what failed.
pub proof fn written_file_makes_the_note_clean(
    s: store::StoreView,
    id: Seq<char>,
    written: Written,
)
    ensures
        ({
            let t = s.saved(id, written);
            let result = s.save_result(id, written);
            match (s.note(id), written) {
                (Some(note), Written::Written { stat }) => {
                    &&& result == Ok::<SaveStepView, Seq<char>>(
                        SaveStepView::Saved { revision: docs::revision_of(stat) },
                    )
                    &&& t.note(id) == Some(
                        docs::NoteView {
                            id: note.id,
                            path: note.path,
                            content: note.content,
                            revision: docs::revision_of(stat),
                            dirty: false,
                        },
                    )
                    &&& forall|other: Seq<char>|
                        other != id ==> #[trigger] t.note(other) == s.note(other)
                    &&& t.notes.len() == s.notes.len()
                    &&& t.active_id == s.active_id
                    &&& t.recent == s.recent
                    &&& t.set_as(s)
                    &&& t.epoch == s.epoch.wrapping_add(1)
                    &&& t.outbox == (if s.has_db {
                        s.outbox.push(EffectView::DropDraft { path: note.path })
                    } else {
                        s.outbox
                    }) + t.kept_session()
                },
                (Some(note), Written::NoDirectory) => t == s && result == Err::<
                    SaveStepView,
                    Seq<char>,
                >(
                    "creating "@ + match paths::parent(note.path) {
                        Some(parent) => parent,
                        None => seq![],
                    },
                ),
                (Some(note), Written::NotWritten) => t == s && result == Err::<
                    SaveStepView,
                    Seq<char>,
                >("writing "@ + note.path),
                (None, _) => t == s && result == Err::<SaveStepView, Seq<char>>(
                    "unknown note "@ + id,
                ),
            }
        }),
{
    let t = s.saved(id, written);
    store::seek_finds(s.notes, id);
    if let (Some(i), Written::Written { stat }) = (store::seek(s.notes, id), written) {
        let note = docs::NoteView {
            revision: docs::revision_of(stat),
            dirty: false,
            ..s.notes[i]
        };
        let before = s.with_note(i, note).drop_draft(s.notes[i].path);
        touch_only_hands_out(before);
        assert(before.touched().session() == before.session());
        order_laws::same_ids_same_positions(t.notes, s.notes, id);
        assert forall|other: Seq<char>| other != id implies #[trigger] t.note(other) == s.note(
            other,
        ) by {
            store::seek_finds(s.notes, other);
            order_laws::same_ids_same_positions(t.notes, s.notes, other);
        }
    }
}

/// A file that was read again becomes the buffer of its note, clean, at its
/// revision, and the draft row goes. One that could not be read leaves the store,
/// with a message.
pub proof fn reload_takes_the_file_up(
    s: store::StoreView,
    id: Seq<char>,
    read: store::ReadBackView,
)
    ensures
        ({
            let t = s.reloaded(id, read);
            let result = s.reload_result(id, read);
            match (s.note(id), read) {
                (Some(note), store::ReadBackView::Text { content, stat }) => {
                    &&& result is Ok
                    &&& t.note(id) == Some(
                        docs::NoteView {
                            id: note.id,
                            path: note.path,
                            content,
                            revision: docs::revision_of(stat),
                            dirty: false,
                        },
                    )
                    &&& forall|other: Seq<char>|
                        other != id ==> #[trigger] t.note(other) == s.note(other)
                    &&& t.notes.len() == s.notes.len()
                    &&& t.active_id == s.active_id
                    &&& t.recent == s.recent
                    &&& t.set_as(s)
                    &&& t.epoch == s.epoch.wrapping_add(1)
                    &&& t.outbox == (if s.has_db {
                        s.outbox.push(EffectView::DropDraft { path: note.path })
                    } else {
                        s.outbox
                    }) + t.kept_session()
                },
                (Some(note), store::ReadBackView::Unreadable) => t == s && result == Err::<
                    (),
                    Seq<char>,
                >("reading "@ + note.path),
                (None, _) => t == s && result == Err::<(), Seq<char>>("unknown note "@ + id),
            }
        }),
{
    let t = s.reloaded(id, read);
    store::seek_finds(s.notes, id);
    if let (Some(i), store::ReadBackView::Text { content, stat }) = (
        store::seek(s.notes, id),
        read,
    ) {
        let note = docs::NoteView {
            content,
            revision: docs::revision_of(stat),
            dirty: false,
            ..s.notes[i]
        };
        let before = s.with_note(i, note).drop_draft(s.notes[i].path);
        touch_only_hands_out(before);
        assert(before.touched().session() == before.session());
        order_laws::same_ids_same_positions(t.notes, s.notes, id);
        assert forall|other: Seq<char>| other != id implies #[trigger] t.note(other) == s.note(
            other,
        ) by {
            store::seek_finds(s.notes, other);
            order_laws::same_ids_same_positions(t.notes, s.notes, other);
        }
    }
}

/// A rename to where the note is already is over at once and changes nothing; one to
/// the path of an open note, or from a file to a path where a file is, is refused; a
/// file is moved, from the path of its note; and a note without a file is at its new
/// path at once, under the id of that path.
pub proof fn rename_moves_the_file_or_the_note(
    s: store::StoreView,
    id: Seq<char>,
    name: Seq<char>,
    target: Seq<char>,
    old_exists: bool,
    target_exists: bool,
)
    ensures
        ({
            let t = s.rename_decided(id, target, old_exists);
            let step = s.rename_step(id, name, target, old_exists, target_exists);
            let new_id = docs::id_of(target);
            match s.note(id) {
                Some(note) => if paths::same_path(target, note.path) {
                    step == Ok::<store::RenameStepView, Seq<char>>(
                        store::RenameStepView::Over(id),
                    ) && t == s
                } else if s.has(new_id) {
                    step == Err::<store::RenameStepView, Seq<char>>(
                        "a note named "@ + text::trimmed(name) + " is already open"@,
                    ) && t == s
                } else if old_exists && target_exists {
                    step == Err::<store::RenameStepView, Seq<char>>(target + " already exists"@)
                        && t == s
                } else if old_exists {
                    step == Ok::<store::RenameStepView, Seq<char>>(
                        store::RenameStepView::Move {
                            parent: paths::parent(target),
                            from: note.path,
                            to: target,
                        },
                    ) && t == s
                } else {
                    &&& step == Ok::<store::RenameStepView, Seq<char>>(
                        store::RenameStepView::Over(new_id),
                    )
                    &&& t == s.renamed(id, target, Moved::Moved)
                },
                None => step == Err::<store::RenameStepView, Seq<char>>("unknown note "@ + id)
                    && t == s,
            }
        }),
{
}

/// A rename that is over leaves a note under the id that it gives, at the target.
pub proof fn finished_rename_has_its_note(
    s: store::StoreView,
    id: Seq<char>,
    name: Seq<char>,
    target: Seq<char>,
    old_exists: bool,
    target_exists: bool,
)
    requires
        s.is_sound(),
    ensures
        s.rename_step(id, name, target, old_exists, target_exists) matches Ok(
            store::RenameStepView::Over(r),
        ) ==> (s.rename_decided(id, target, old_exists).note(r) matches Some(note)
            && paths::same_path(note.path, target) && note.content == s.note(id)->0.content
            && note.dirty == s.note(id)->0.dirty && note.revision == s.note(id)->0.revision),
{
    if s.has(id) && !s.has(docs::id_of(target)) {
        renamed_note_is_at_the_target(s, id, target);
    }
    store::seek_finds(s.notes, id);
}

/// A note that was renamed is at its new path, under the id of that path, in its
/// place among the notes, with its buffer, its revision and its mark. It is active
/// if it was. Its draft row moves with it, and so does its entry among the recent
/// paths.
pub proof fn renamed_note_is_at_the_target(s: store::StoreView, id: Seq<char>, target: Seq<char>)
    requires
        s.has(id),
    ensures
        ({
            let t = s.renamed(id, target, Moved::Moved);
            let k = store::seek(s.notes, id)->0;
            let note = s.notes[k];
            let moved = docs::NoteView {
                id: docs::id_of(target),
                path: target,
                content: note.content,
                revision: note.revision,
                dirty: note.dirty,
            };
            &&& s.rename_result(id, target, Moved::Moved) == Ok::<Seq<char>, Seq<char>>(
                docs::id_of(target),
            )
            &&& t.notes == s.notes.update(k, moved)
            &&& s.is_sound() && !s.has(docs::id_of(target)) ==> t.note(docs::id_of(target))
                == Some(moved)
            &&& t.active_id == (if s.active_id == Some(id) {
                Some(docs::id_of(target))
            } else {
                s.active_id
            })
            &&& t.recent == store::limited(
                seq![target] + store::without_path(store::without_path(s.recent, note.path), target),
            )
            &&& t.set_as(s)
            &&& t.epoch == s.epoch.wrapping_add(1)
            &&& t.outbox == s.outbox + (if !s.has_db {
                Seq::<EffectView>::empty()
            } else if note.dirty {
                seq![
                    EffectView::DropDraft { path: note.path },
                    EffectView::PutDraft {
                        path: target,
                        revision: note.revision,
                        content: note.content,
                    },
                ]
            } else {
                seq![EffectView::DropDraft { path: note.path }]
            }) + t.kept_session()
        }),
{
    let t = s.renamed(id, target, Moved::Moved);
    store::seek_finds(s.notes, id);
    let k = store::seek(s.notes, id)->0;
    let was = s.notes[k];
    let note = docs::NoteView { id: docs::id_of(target), path: target, ..was };
    let dropped = store::StoreView {
        active_id: if s.active_id == Some(id) {
            Some(note.id)
        } else {
            s.active_id
        },
        ..s.with_note(k, note)
    }.drop_draft(was.path);
    let put = if was.dirty {
        dropped.put_draft(note)
    } else {
        dropped
    };
    let before = put.forgotten(was.path).remembered(target);
    touch_only_hands_out(before);
    assert(before.touched().session() == before.session());
    assert(t.notes[k] == note);
    if s.is_sound() && !s.has(docs::id_of(target)) {
        store_laws::rename_keeps_soundness(s, id, target, false, Moved::Moved);
        order_laws::own_position(t.notes, k);
    }
    assert(t.outbox =~= s.outbox + (if !s.has_db {
        Seq::<EffectView>::empty()
    } else if was.dirty {
        seq![
            EffectView::DropDraft { path: was.path },
            EffectView::PutDraft { path: target, revision: was.revision, content: was.content },
        ]
    } else {
        seq![EffectView::DropDraft { path: was.path }]
    }) + t.kept_session());
}

/// A file that could not be moved leaves the store, and the message says what
/// failed.
pub proof fn failed_move_changes_nothing(
    s: store::StoreView,
    id: Seq<char>,
    target: Seq<char>,
    moved: Moved,
)
    requires
        !(moved is Moved) || !s.has(id),
    ensures
        s.renamed(id, target, moved) == s,
        s.rename_result(id, target, moved) == Err::<Seq<char>, Seq<char>>(
            match (s.note(id), moved) {
                (Some(_), Moved::NoDirectory) => "creating "@ + match paths::parent(target) {
                    Some(parent) => parent,
                    None => seq![],
                },
                (Some(note), _) => "renaming "@ + note.path + " to "@ + target,
                (None, _) => "unknown note "@ + id,
            },
        ),
{
}

/// Where a rename sends a note: a name is required; a name of several components, or
/// with `~` in front, is read like any path; any other name stays in the directory.
pub proof fn rename_goes_where_the_name_says(
    s: store::StoreView,
    id: Seq<char>,
    new_name: Seq<char>,
    cwd: Option<Seq<char>>,
)
    ensures
        ({
            let name = text::trimmed(new_name);
            let target = s.rename_target(id, new_name, cwd);
            &&& name.len() == 0 ==> target == Err::<store::TargetView, Seq<char>>(
                "a name is required"@,
            )
            &&& name.len() > 0 && s.note(id) is None ==> target == Err::<
                store::TargetView,
                Seq<char>,
            >("unknown note "@ + id)
            &&& name.len() > 0 && s.note(id) is Some && (name[0] == '~' || paths::components(
                name,
            ).len() > 1) ==> target == Ok::<store::TargetView, Seq<char>>(
                store::TargetView::Resolve(store::resolved(s.home, cwd, name)),
            )
            &&& name.len() > 0 && s.note(id) is Some && name[0] != '~' && paths::components(
                name,
            ).len() <= 1 ==> target == Ok::<store::TargetView, Seq<char>>(
                match paths::parent(s.note(id)->0.path) {
                    Some(dir) => store::TargetView::Path(paths::joined(dir, name)),
                    None => store::TargetView::Resolve(store::resolved(s.home, cwd, name)),
                },
            )
        }),
{
}

/// How a path is read: `~` is the home directory, and what follows it and a slash is
/// read from there; any other path is read from there too, where an absolute one
/// stands for itself; and what is still relative is read from the working
/// directory, if there is one.
pub proof fn paths_are_read_from_home(home: Seq<char>, dir: Seq<char>, raw: Seq<char>)
    ensures
        paths::is_absolute(raw) ==> store::resolved(home, None, raw) == raw,
        store::resolved(home, None, seq!['~']) == home,
        store::resolved(home, None, seq!['~', '/'] + raw) == paths::joined(home, raw),
        raw != seq!['~'] && !seq!['~', '/'].is_prefix_of(raw) ==> store::resolved(home, None, raw)
            == paths::joined(home, raw),
        store::resolved(home, Some(dir), raw) == paths::joined(
            dir,
            store::resolved(home, None, raw),
        ),
        paths::is_absolute(store::resolved(home, None, raw)) ==> store::resolved(
            home,
            Some(dir),
            raw,
        ) == store::resolved(home, None, raw),
        paths::is_absolute(home) || paths::is_absolute(dir) ==> paths::is_absolute(
            store::resolved(home, Some(dir), raw),
        ),
{
    reveal_strlit("~/");
    reveal_strlit("~");
    assert("~/"@ =~= seq!['~', '/']);
    assert("~"@ =~= seq!['~']);
    let more = seq!['~', '/'] + raw;
    assert(more.take(2) =~= seq!['~', '/']);
    assert("~/"@.is_prefix_of(more));
    assert(more.skip(2) =~= raw);
    if "~/"@.is_prefix_of(raw) {
        assert("~/"@[0] == raw[0]);
    }
    assert(!"~/"@.is_prefix_of(seq!['~']));
}

/// The durable state has its place below the home directory.
pub proof fn state_is_below_home(home: Seq<char>)
    ensures
        store::state_dir_of(home) == paths::joined(paths::joined(home, ".yggterm"@), "yedit"@),
        paths::components(store::state_dir_of(home)) == paths::components(home) + seq![
            ".yggterm"@,
            "yedit"@,
        ],
        paths::components(store::session_file_of(home)) == paths::components(home) + seq![
            ".yggterm"@,
            "yedit"@,
            "session.json"@,
        ],
{
    reveal_strlit(".yggterm");
    reveal_strlit("yedit");
    reveal_strlit("session.json");
    assert(".yggterm"@.len() == 8 && "yedit"@.len() == 5 && "session.json"@.len() == 12);
    assert(paths::is_bare(".yggterm"@));
    assert(paths::is_bare("yedit"@));
    assert(paths::is_bare("session.json"@));
    let a = paths::joined(home, ".yggterm"@);
    let b = paths::joined(a, "yedit"@);
    paths::joined_components(home, ".yggterm"@);
    paths::joined_components(a, "yedit"@);
    paths::joined_components(b, "session.json"@);
    assert(paths::components(b) =~= paths::components(home) + seq![".yggterm"@, "yedit"@]);
    assert(paths::components(store::session_file_of(home)) =~= paths::components(home) + seq![
        ".yggterm"@,
        "yedit"@,
        "session.json"@,
    ]);
}

/// A path is taken out of a list part by part, so that the others keep their order.
pub proof fn recent_paths_keep_their_order(
    a: Seq<Seq<char>>,
    b: Seq<Seq<char>>,
    path: Seq<char>,
)
    ensures
        store::without_path(a + b, path) == store::without_path(a, path) + store::without_path(
            b,
            path,
        ),
        store::without_path(seq![], path) == Seq::<Seq<char>>::empty(),
        a.len() == 1 ==> store::without_path(a, path) == (if paths::same_path(a[0], path) {
            Seq::<Seq<char>>::empty()
        } else {
            a
        }),
    decreases b.len(),
{
    if a.len() == 1 {
        assert(store::without_path(a.drop_last(), path) =~= Seq::<Seq<char>>::empty());
        assert(seq![a[0]] =~= a);
        assert(Seq::<Seq<char>>::empty().push(a[0]) =~= a);
    }
    if b.len() == 0 {
        assert(a + b =~= a);
        assert(store::without_path(a, path) + store::without_path(b, path)
            =~= store::without_path(a, path));
    } else {
        recent_paths_keep_their_order(a, b.drop_last(), path);
        assert((a + b).drop_last() =~= a + b.drop_last());
        assert((a + b).last() == b.last());
        assert(store::without_path(a + b, path) =~= store::without_path(a, path)
            + store::without_path(b, path));
    }
}

/// The latest path goes to the front of the others, and the list is cut at twelve.
pub proof fn recent_paths_are_the_latest_twelve(s: store::StoreView, path: Seq<char>)
    ensures
        ({
            let all = seq![path] + store::without_path(s.recent, path);
            let recent = s.remembered(path).recent;
            &&& recent.is_prefix_of(all)
            &&& recent.len() == (if all.len() <= 12 {
                all.len()
            } else {
                12
            })
        }),
        s.remembered(path).notes == s.notes,
        s.remembered(path).active_id == s.active_id,
        s.remembered(path).set_as(s),
{
}

/// Without a session and without draft rows the start is an empty store: no notes,
/// the rendered mode, long lines wrapped, the first epoch.
pub proof fn start_without_anything_is_empty(
    home: Seq<char>,
    has_db: bool,
    files: Seq<store::DiskFileView>,
)
    ensures
        ({
            let t = store::started(home, has_db, None, files, None);
            &&& t.notes.len() == 0
            &&& t.active_id is None
            &&& t.view_mode == ViewMode::Markdown
            &&& t.word_wrap
            &&& t.epoch == 1
            &&& t.recent.len() == 0
            &&& t.home == home
            &&& t.has_db == has_db
            &&& t.outbox.len() == 0
        }),
{
}

/// How the settings of a session are read: the mode by its name; an old session by
/// its truth value, where only false is plain text; the wrapping, which is on unless
/// it is off; the recent paths, if there is a list.
pub proof fn session_sets_the_view(s: store::StoreView, session: JsonView)
    ensures
        ({
            let t = s.configured(session);
            &&& session.at("view_mode"@) == JsonView::Text("markdown"@) ==> t.view_mode
                == ViewMode::Markdown
            &&& session.at("view_mode"@) == JsonView::Text("split"@) ==> t.view_mode
                == ViewMode::Split
            &&& session.at("view_mode"@) == JsonView::Text("text"@) ==> t.view_mode
                == ViewMode::Text
            &&& (session.at("view_mode"@) matches JsonView::Text(name) ==> name != "markdown"@
                && name != "split"@ && name != "text"@) ==> t.view_mode == (if session.at(
                "markdown_mode"@,
            ) == JsonView::Bool(false) {
                ViewMode::Text
            } else {
                ViewMode::Split
            })
            &&& t.word_wrap == (session.at("word_wrap"@) != JsonView::Bool(false))
            &&& session.at("recent"@) matches JsonView::Array(items) ==> t.recent
                == crate::json::texts_among(items)
            &&& !(session.at("recent"@) is Array) ==> t.recent == s.recent
            &&& t.notes == s.notes && t.active_id == s.active_id && t.home == s.home && t.has_db
                == s.has_db && t.epoch == s.epoch && t.outbox == s.outbox
        }),
{
    reveal_strlit("markdown");
    reveal_strlit("split");
    reveal_strlit("text");
    assert("markdown"@.len() == 8 && "split"@.len() == 5 && "text"@.len() == 4);
}

/// Which tabs a session restores: a tab for each file that can be read, or that a
/// draft row holds though it is gone; and no other.
pub proof fn tabs_are_those_of_the_files(
    s: store::StoreView,
    files: Seq<store::DiskFileView>,
    rows: Seq<store::DraftView>,
)
    requires
        s.is_sound(),
        s.notes.len() == 0,
    ensures
        ({
            let t = s.reopened(files, rows);
            &&& forall|k: int|
                0 <= k < files.len() && comes_back(#[trigger] files[k], rows) ==> t.has(
                    docs::id_of(files[k].path),
                )
            &&& forall|i: int|
                0 <= i < t.notes.len() ==> !(#[trigger] t.notes[i]).dirty && exists|k: int|
                    0 <= k < files.len() && comes_back(#[trigger] files[k], rows)
                        && t.notes[i].path == files[k].path && holds_file(t.notes[i], files[k])
            &&& t.set_as(s)
        }),
    decreases files.len(),
{
    let t = s.reopened(files, rows);
    if files.len() > 0 {
        let before = files.drop_last();
        let u = s.reopened(before, rows);
        let n = files.len() - 1;
        let file = files.last();
        let id = docs::id_of(file.path);
        tabs_are_those_of_the_files(s, before, rows);
        store_laws::reopening_keeps_soundness(s, before, rows);
        store_laws::reopening_keeps_soundness(s, files, rows);
        store::seek_finds(u.notes, id);
        assert forall|k: int| 0 <= k < files.len() && comes_back(
            #[trigger] files[k],
            rows,
        ) implies t.has(docs::id_of(files[k].path)) by {
            if k < n {
                assert(before[k] == files[k]);
                let other = docs::id_of(files[k].path);
                store::seek_finds(u.notes, other);
                let j = store::seek(u.notes, other)->0;
                assert(t.notes[j] == u.notes[j]);
                order_laws::own_position(t.notes, j);
            } else if !u.has(id) {
                let j = u.notes.len() as int;
                assert(t.notes[j].id == id);
                order_laws::own_position(t.notes, j);
            }
        }
        assert forall|i: int| 0 <= i < t.notes.len() implies !(#[trigger] t.notes[i]).dirty
            && exists|k: int|
            0 <= k < files.len() && comes_back(#[trigger] files[k], rows) && t.notes[i].path
                == files[k].path && holds_file(t.notes[i], files[k]) by {
            if i < u.notes.len() {
                assert(t.notes[i] == u.notes[i]);
                let k = choose|k: int|
                    0 <= k < before.len() && comes_back(#[trigger] before[k], rows)
                        && u.notes[i].path == before[k].path && holds_file(u.notes[i], before[k]);
                assert(files[k] == before[k]);
            } else {
                assert(comes_back(files[n], rows));
                assert(holds_file(t.notes[i], files[n]));
            }
        }
    }
}

/// Whether the tab of a file comes back: the file can be read, or is gone while a
/// draft row holds its buffer.
pub open spec fn comes_back(file: store::DiskFileView, rows: Seq<store::DraftView>) -> bool {
    match file.found {
        store::FoundView::Text { .. } => true,
        store::FoundView::Unreadable => false,
        store::FoundView::Missing => exists|j: int|
            0 <= j < rows.len() && docs::id_of((#[trigger] rows[j]).path) == docs::id_of(file.path),
    }
}

/// Whether a note holds what was read of a file.
pub open spec fn holds_file(note: docs::NoteView, file: store::DiskFileView) -> bool {
    match file.found {
        store::FoundView::Text { content, stat } => note.content == content && note.revision
            == docs::revision_of(stat),
        _ => note.content.len() == 0 && note.revision == "new"@,
    }
}

/// A draft row whose note is not open opens it behind the others, at the path of the
/// row, and makes it active; one whose note is open leaves the active note.
pub proof fn draft_row_opens_its_note(s: store::StoreView, row: store::DraftView)
    ensures
        ({
            let t = s.undrafted(row);
            let id = docs::id_of(row.path);
            &&& t.set_as(s)
            &&& s.has(id) ==> t.active_id == s.active_id && t.notes.len() == s.notes.len()
                && t.recent == s.recent && t.outbox == s.outbox && (t.note(id) matches Some(note)
                && note.path == s.note(id)->0.path && note.content == row.content
                && note.revision == row.revision && note.dirty)
            &&& !s.has(id) ==> t.active_id == Some(id) && t.recent == store::limited(
                seq![row.path] + store::without_path(s.recent, row.path),
            ) && t.notes == s.notes.push(
                docs::NoteView {
                    id,
                    path: row.path,
                    content: row.content,
                    revision: row.revision,
                    dirty: true,
                },
            )
            &&& forall|other: Seq<char>|
                other != id && s.has(other) ==> #[trigger] t.note(other) == s.note(other)
        }),
{
    let t = s.undrafted(row);
    let id = docs::id_of(row.path);
    store::seek_finds(s.notes, id);
    order_laws::same_ids_same_positions(
        s.notes,
        if s.has(id) {
            t.notes
        } else {
            s.notes
        },
        id,
    );
    assert forall|other: Seq<char>| other != id && s.has(other) implies #[trigger] t.note(other)
        == s.note(other) by {
        store::seek_finds(s.notes, other);
        store::seek_finds(t.notes, other);
        let i = store::seek(s.notes, other)->0;
        let j = store::seek(t.notes, other)->0;
        assert(t.notes[i].id == other);
        assert(j <= i && s.notes[j].id == other);
    }
}

} // verus!
