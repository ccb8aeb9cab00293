//! What the store does to files: nothing is overwritten unseen.

use crate::docs::{self, FileStat};
use crate::order_laws;
use crate::paths;
use crate::store::{self, Moved, SaveStepView, Written};
use crate::store_laws;
use crate::text;
use crate::text_laws;
use vstd::prelude::*;

verus! {

/// Two files with the same revision have the same modification time, in the low 64
/// bits of its milliseconds, and the same length; and a file that is there has
/// another revision than one that is missing.
pub proof fn revisions_tell_files_apart(a: FileStat, b: FileStat)
    ensures
        docs::revision_of(Some(a)) == docs::revision_of(Some(b)) <==> docs::revision_ms(a)
            == docs::revision_ms(b) && a.len == b.len,
        docs::revision_of(Some(a)) != docs::revision_of(None),
{
    reveal_strlit(":");
    reveal_strlit("new");
    let x = text::decimal(docs::revision_ms(a));
    let y = text::decimal(docs::revision_ms(b));
    text_laws::decimal_is_read_back(docs::revision_ms(a));
    text_laws::decimal_is_read_back(docs::revision_ms(b));
    text_laws::decimal_is_read_back(a.len as nat);
    text_laws::decimal_is_read_back(b.len as nat);
    assert(":"@ =~= seq![':']);
    text_laws::split_at(x, ':', text::decimal(a.len as nat));
    text_laws::split_at(y, ':', text::decimal(b.len as nat));
    assert(docs::revision_of(Some(a))[0] == x[0]);
    assert("new"@[0] == 'n');
}

/// The save guard: a file is written only if the save is forced or the file has the
/// revision that the note was loaded with; otherwise the save is a conflict. What
/// is written is the content of the save, to the path of the note.
pub proof fn save_is_guarded(
    s: store::StoreView,
    id: Seq<char>,
    content: Seq<char>,
    force: bool,
    disk: Option<FileStat>,
)
    ensures
        match s.note(id) {
            Some(note) => if force || docs::revision_of(disk) == note.revision {
                s.save_step(id, content, force, disk) matches Ok(
                    SaveStepView::Write { path, content: written, .. },
                ) && path == note.path && written == content
            } else {
                s.save_step(id, content, force, disk) matches Ok(
                    SaveStepView::Conflict { disk: now, loaded },
                ) && now == docs::revision_of(disk) && loaded == note.revision
            },
            None => s.save_step(id, content, force, disk) is Err,
        },
        s.save_begun(id, content).outbox == s.outbox,
{
}

/// A file that was changed, removed or created since its note was loaded is a
/// conflict for a save that is not forced.
pub proof fn changed_file_is_a_conflict(
    s: store::StoreView,
    id: Seq<char>,
    content: Seq<char>,
    loaded: Option<FileStat>,
    disk: Option<FileStat>,
)
    requires
        s.note(id) matches Some(note) && note.revision == docs::revision_of(loaded),
        match (loaded, disk) {
            (Some(a), Some(b)) => docs::revision_ms(a) != docs::revision_ms(b) || a.len != b.len,
            (None, None) => false,
            _ => true,
        },
    ensures
        s.save_step(id, content, false, disk) matches Ok(SaveStepView::Conflict { .. }),
{
    match (loaded, disk) {
        (Some(a), Some(b)) => {
            revisions_tell_files_apart(a, b);
        },
        (Some(a), None) => {
            revisions_tell_files_apart(a, a);
        },
        (None, Some(b)) => {
            revisions_tell_files_apart(b, b);
        },
        (None, None) => {},
    }
}

/// A note that was saved is clean, has the buffer that was saved, and can be saved
/// again without a conflict while its file stays as it is. No other note changes.
pub proof fn saved_note_is_clean(
    s: store::StoreView,
    id: Seq<char>,
    content: Seq<char>,
    stat: Option<FileStat>,
    again: Seq<char>,
)
    requires
        s.has(id),
    ensures
        ({
            let t = s.save_begun(id, content).saved(id, Written::Written { stat });
            &&& t.note(id) matches Some(note) && !note.dirty && note.content == content
                && note.revision == docs::revision_of(stat)
            &&& t.save_step(id, again, false, stat) matches Ok(SaveStepView::Write { .. })
            &&& forall|other: Seq<char>| other != id ==> #[trigger] t.note(other) == s.note(other)
        }),
{
    let begun = s.save_begun(id, content);
    let t = begun.saved(id, Written::Written { stat });
    store::seek_finds(s.notes, id);
    order_laws::same_ids_same_positions(begun.notes, s.notes, id);
    order_laws::same_ids_same_positions(t.notes, s.notes, id);
    assert forall|other: Seq<char>| other != id implies #[trigger] t.note(other) == s.note(
        other,
    ) by {
        store::seek_finds(s.notes, other);
        order_laws::same_ids_same_positions(t.notes, s.notes, other);
    }
}

/// A save whose file could not be written changes nothing in the store.
pub proof fn failed_save_changes_nothing(s: store::StoreView, id: Seq<char>, written: Written)
    requires
        !(written is Written),
    ensures
        s.saved(id, written) == s,
{
}

/// A reload makes the buffer the file, clean. No other note changes.
pub proof fn reloaded_note_is_the_file(
    s: store::StoreView,
    id: Seq<char>,
    content: Seq<char>,
    stat: Option<FileStat>,
)
    requires
        s.has(id),
    ensures
        ({
            let t = s.reloaded(id, store::ReadBackView::Text { content, stat });
            &&& t.note(id) matches Some(note) && !note.dirty && note.content == content
                && note.revision == docs::revision_of(stat)
            &&& forall|other: Seq<char>| other != id ==> #[trigger] t.note(other) == s.note(other)
        }),
{
    let t = s.reloaded(id, store::ReadBackView::Text { content, stat });
    store::seek_finds(s.notes, id);
    order_laws::same_ids_same_positions(t.notes, s.notes, id);
    assert forall|other: Seq<char>| other != id implies #[trigger] t.note(other) == s.note(
        other,
    ) by {
        store::seek_finds(s.notes, other);
        order_laws::same_ids_same_positions(t.notes, s.notes, other);
    }
}

/// Opening a file again focuses its note and never doubles it: the notes stay as
/// they are, whatever stands on disk by then, and the id is the same.
pub proof fn open_is_idempotent(
    s: store::StoreView,
    file: store::DiskFileView,
    again: store::DiskFileView,
)
    requires
        s.is_sound(),
        s.open_result(file) is Ok,
        again.path == file.path,
    ensures
        ({
            let t = s.opened(file);
            &&& t.open_result(again) == s.open_result(file)
            &&& t.opened(again).notes == t.notes
            &&& t.active_id == Some(s.open_result(file)->Ok_0)
            &&& t.opened(again).active_id == t.active_id
            &&& t.notes.len() <= s.notes.len() + 1
        }),
{
    store_laws::open_keeps_soundness(s, file);
}

/// A file that is missing opens as an empty note with the revision of a missing
/// file, and a file that can be read opens with its content, clean.
pub proof fn opened_note_is_the_file(s: store::StoreView, file: store::DiskFileView)
    requires
        s.is_sound(),
        !s.has(docs::id_of(file.path)),
        !(file.found is Unreadable),
    ensures
        s.opened(file).note(docs::id_of(file.path)) == Some(store::new_note(file)),
        s.opened(file).notes == s.notes.push(store::new_note(file)),
{
    store_laws::open_keeps_soundness(s, file);
    let all = s.opened(file).notes;
    assert(all[s.notes.len() as int] == store::new_note(file));
    order_laws::own_position(all, s.notes.len() as int);
}

/// A note without a file is created by its first save, if nobody else has made the
/// file by then: that save is no conflict.
pub proof fn new_note_is_created_on_save(
    s: store::StoreView,
    file: store::DiskFileView,
    content: Seq<char>,
)
    requires
        s.is_sound(),
        !s.has(docs::id_of(file.path)),
        file.found is Missing,
    ensures
        s.opened(file).save_step(docs::id_of(file.path), content, false, None) == Ok::<
            SaveStepView,
            Seq<char>,
        >(SaveStepView::Write { parent: paths::parent(file.path), path: file.path, content }),
{
    opened_note_is_the_file(s, file);
}

/// A rename never overwrites: a file is moved only to a path where no file is and
/// of which no note is open; a rename that is refused changes nothing.
pub proof fn rename_never_clobbers(
    s: store::StoreView,
    id: Seq<char>,
    new_name: Seq<char>,
    target: Seq<char>,
    old_exists: bool,
    target_exists: bool,
)
    ensures
        match s.rename_step(id, new_name, target, old_exists, target_exists) {
            Ok(store::RenameStepView::Move { from, to, .. }) => {
                &&& old_exists && !target_exists
                &&& !s.has(docs::id_of(to))
                &&& s.note(id) matches Some(note) && from == note.path
                &&& to == target
                &&& s.rename_decided(id, target, old_exists) == s
            },
            Ok(store::RenameStepView::Over(_)) => true,
            Err(_) => s.rename_decided(id, target, old_exists) == s,
        },
{
}

/// A note without a file only changes where it will be saved: nothing is moved on
/// disk, and it keeps its revision.
pub proof fn unsaved_rename_moves_no_file(
    s: store::StoreView,
    id: Seq<char>,
    new_name: Seq<char>,
    target: Seq<char>,
    target_exists: bool,
)
    ensures
        !(s.rename_step(id, new_name, target, false, target_exists) matches Ok(
            store::RenameStepView::Move { .. },
        )),
{
}

/// What a rename carries along: the note is at its new path, under the id of that
/// path, with its buffer, its mark and its revision; it is active if it was; the
/// old id is gone, and no other note changes. Its entry among the recent paths is
/// retargeted. A note without a file is carried in the same way.
pub proof fn rename_carries_the_note(s: store::StoreView, id: Seq<char>, target: Seq<char>)
    requires
        s.is_sound(),
        s.has(id),
        !s.has(docs::id_of(target)),
    ensures
        ({
            let t = s.renamed(id, target, Moved::Moved);
            let new_id = docs::id_of(target);
            let was = s.note(id)->0;
            &&& t.note(new_id) == Some(docs::NoteView { id: new_id, path: target, ..was })
            &&& !t.has(id)
            &&& t.active_id == (if s.active_id == Some(id) {
                Some(new_id)
            } else {
                s.active_id
            })
            &&& forall|other: Seq<char>|
                other != id && other != new_id ==> #[trigger] t.note(other) == s.note(other)
            &&& t.recent == store::limited(
                seq![target] + store::without_path(
                    store::without_path(s.recent, was.path),
                    target,
                ),
            )
            &&& !paths::same_path(target, was.path) ==> s.rename_decided(id, target, false) == t
        }),
{
    let new_id = docs::id_of(target);
    let t = s.rekeyed(id, target);
    store::seek_finds(s.notes, id);
    store::seek_finds(s.notes, new_id);
    store_laws::rename_keeps_soundness(s, id, target, false, Moved::Moved);
    let i = store::seek(s.notes, id)->0;
    assert(t.notes[i].id == new_id);
    order_laws::own_position(t.notes, i);
    store::seek_finds(t.notes, id);
    if let Some(j) = store::seek(t.notes, id) {
        if j != i {
            assert(t.notes[j] == s.notes[j]);
            order_laws::own_position(s.notes, j);
        }
    }
    assert forall|other: Seq<char>| other != id && other != new_id implies #[trigger] t.note(other)
        == s.note(other) by {
        store::seek_finds(s.notes, other);
        store::seek_finds(t.notes, other);
        match (store::seek(s.notes, other), store::seek(t.notes, other)) {
            (Some(j), _) => {
                assert(t.notes[j] == s.notes[j]);
                order_laws::own_position(t.notes, j);
            },
            (None, Some(j)) => {
                assert(j != i);
                assert(t.notes[j] == s.notes[j]);
            },
            (None, None) => {},
        }
    }
}

/// A rename leaves the save guard as it was: a save after it conflicts if and only
/// if a save before it would have, as the file keeps its modification time and its
/// length when it is moved. An outside edit is noticed as before, and none is seen
/// where there was none.
pub proof fn rename_keeps_the_guard(
    s: store::StoreView,
    id: Seq<char>,
    target: Seq<char>,
    content: Seq<char>,
    disk: Option<FileStat>,
)
    requires
        s.is_sound(),
        s.has(id),
        !s.has(docs::id_of(target)),
    ensures
        ({
            let t = s.renamed(id, target, Moved::Moved);
            let before = s.save_step(id, content, false, disk);
            let after = t.save_step(docs::id_of(target), content, false, disk);
            &&& before is Ok && after is Ok
            &&& after->Ok_0 is Conflict <==> before->Ok_0 is Conflict
            &&& t.note(docs::id_of(target)) matches Some(note) && note.revision
                == s.note(id)->0.revision
        }),
{
    rename_carries_the_note(s, id, target);
}

/// After a rename the new path stands first among the recent ones, and once; the
/// old path is no longer among them.
pub proof fn rename_retargets_the_recent_path(
    s: store::StoreView,
    id: Seq<char>,
    target: Seq<char>,
)
    requires
        s.is_sound(),
        s.has(id),
        !s.has(docs::id_of(target)),
        !paths::same_path(target, s.note(id)->0.path),
    ensures
        ({
            let recent = s.renamed(id, target, Moved::Moved).recent;
            &&& 0 < recent.len() <= store::RECENT_LIMIT
            &&& recent[0] == target
            &&& forall|i: int| 1 <= i < recent.len() ==> !paths::same_path(#[trigger] recent[i], target)
            &&& forall|i: int|
                0 <= i < recent.len() ==> !paths::same_path(
                    #[trigger] recent[i],
                    s.note(id)->0.path,
                )
        }),
{
    let old_path = s.note(id)->0.path;
    let left = store::without_path(s.recent, old_path);
    let rest = store::without_path(left, target);
    let recent = s.renamed(id, target, Moved::Moved).recent;
    rename_carries_the_note(s, id, target);
    without_path_has_none(s.recent, old_path);
    without_path_has_none(left, target);
    without_path_brings_none(left, target, old_path);
    let all = seq![target] + rest;
    assert(recent == store::limited(all));
    assert forall|i: int| 1 <= i < recent.len() implies !paths::same_path(
        #[trigger] recent[i],
        target,
    ) && !paths::same_path(recent[i], old_path) by {
        assert(recent[i] == all[i]);
        assert(all[i] == rest[i - 1]);
    }
}

/// A bare name keeps a note in its directory and becomes its name.
pub proof fn bare_rename_stays_in_the_directory(
    s: store::StoreView,
    id: Seq<char>,
    new_name: Seq<char>,
    cwd: Option<Seq<char>>,
)
    requires
        s.note(id) matches Some(note) && paths::parent(note.path) is Some,
        paths::is_bare(text::trimmed(new_name)),
        text::trimmed(new_name) != seq!['.', '.'],
        text::trimmed(new_name)[0] != '~',
    ensures
        ({
            let name = text::trimmed(new_name);
            let dir = paths::parent(s.note(id)->0.path)->0;
            &&& s.rename_target(id, new_name, cwd) == Ok::<store::TargetView, Seq<char>>(
                store::TargetView::Path(paths::joined(dir, name)),
            )
            &&& paths::components(paths::joined(dir, name)) == paths::components(
                s.note(id)->0.path,
            ).drop_last().push(name)
            &&& docs::shown_name(paths::joined(dir, name)) == name
        }),
{
    paths::parent_components(s.note(id)->0.path);
    let name = text::trimmed(new_name);
    let dir = paths::parent(s.note(id)->0.path)->0;
    paths::joined_components(dir, name);
    paths::joined_file_name(dir, name);
    paths::joined_components(seq![], name);
    assert(paths::components(name).len() == 1) by {
        assert(paths::joined(seq![], name) =~= name);
        paths::no_components(seq![]);
    }
}

/// The recent paths: the one opened last stands first, there are no more than are
/// remembered, and it stands there once.
pub proof fn recent_path_is_first(s: store::StoreView, path: Seq<char>)
    ensures
        s.remembered(path).recent.len() <= store::RECENT_LIMIT,
        s.remembered(path).recent[0] == path,
        forall|i: int|
            1 <= i < s.remembered(path).recent.len() ==> !paths::same_path(
                #[trigger] s.remembered(path).recent[i],
                path,
            ),
{
    let rest = store::without_path(s.recent, path);
    without_path_has_none(s.recent, path);
    let all = seq![path] + rest;
    assert forall|i: int| 1 <= i < all.len() implies !paths::same_path(
        #[trigger] all[i],
        path,
    ) by {
        assert(all[i] == rest[i - 1]);
    }
}

proof fn without_path_has_none(list: Seq<Seq<char>>, path: Seq<char>)
    ensures
        forall|i: int|
            0 <= i < store::without_path(list, path).len() ==> !paths::same_path(
                #[trigger] store::without_path(list, path)[i],
                path,
            ),
    decreases list.len(),
{
    if list.len() > 0 {
        without_path_has_none(list.drop_last(), path);
        let before = store::without_path(list.drop_last(), path);
        let all = store::without_path(list, path);
        assert forall|i: int| 0 <= i < all.len() implies !paths::same_path(
            #[trigger] all[i],
            path,
        ) by {
            if i < before.len() {
                assert(all[i] == before[i]);
            }
        }
    }
}

proof fn without_path_brings_none(list: Seq<Seq<char>>, path: Seq<char>, other: Seq<char>)
    requires
        forall|i: int| 0 <= i < list.len() ==> !paths::same_path(#[trigger] list[i], other),
    ensures
        forall|i: int|
            0 <= i < store::without_path(list, path).len() ==> !paths::same_path(
                #[trigger] store::without_path(list, path)[i],
                other,
            ),
    decreases list.len(),
{
    if list.len() > 0 {
        let rest = list.drop_last();
        assert forall|i: int| 0 <= i < rest.len() implies !paths::same_path(
            #[trigger] rest[i],
            other,
        ) by {
            assert(rest[i] == list[i]);
        }
        without_path_brings_none(rest, path, other);
        let before = store::without_path(rest, path);
        let all = store::without_path(list, path);
        assert forall|i: int| 0 <= i < all.len() implies !paths::same_path(
            #[trigger] all[i],
            other,
        ) by {
            if i < before.len() {
                assert(all[i] == before[i]);
            } else {
                assert(all[i] == list[list.len() - 1]);
            }
        }
    }
}

} // verus!
