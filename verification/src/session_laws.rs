//! The session: the tabs, the active tab and the mode come back on the next run.

use crate::docs;
use crate::json::{self, JsonView};
use crate::order_laws;
use crate::store::{self, EffectView};
use vstd::prelude::*;

verus! {

/// What a session says of its store is read back from it: the view mode, the
/// wrapping, the paths of the notes in their order, the path of the active note
/// and the recent paths.
pub proof fn session_is_read_back(s: store::StoreView)
    ensures
        store::session_mode(s.session()) == s.view_mode,
        s.session().at("word_wrap"@).flag() == Some(s.word_wrap),
        s.session().at("open"@).item_texts() == store::note_paths(s.notes),
        s.session().at("active"@).text() == (match s.active() {
            Some(note) => Some(note.path),
            None => None,
        }),
        s.session().at("recent"@) is Array,
        s.session().at("recent"@).item_texts() == s.recent,
{
    broadcast use json::object_holds, json::with_at;

    reveal_strlit("view_mode");
    reveal_strlit("word_wrap");
    reveal_strlit("open");
    reveal_strlit("active");
    reveal_strlit("recent");
    docs::mode_names_are_read_back(s.view_mode);
    json::text_array_items(store::note_paths(s.notes));
    json::text_array_items(s.recent);
    assert("view_mode"@[0] != "word_wrap"@[0]);
    assert("active"@[0] != "recent"@[0]);
}

/// Every change hands the session out as it stands: to the database, which
/// retires the session file so that there is no second session to diverge; and
/// without a database to the file.
pub proof fn touch_hands_the_session_out(s: store::StoreView)
    ensures
        s.touched().session() == s.session(),
        s.has_db ==> s.touched().outbox == s.outbox + seq![
            EffectView::PutSession { session: s.session() },
            EffectView::DropSessionFile { path: store::session_file_of(s.home) },
        ],
        !s.has_db ==> s.touched().outbox == s.outbox + seq![
            EffectView::WriteSessionFile {
                path: store::session_file_of(s.home),
                session: s.session(),
            },
        ],
{
    assert(s.bumped().session() == s.session());
    if s.has_db {
        assert(s.touched().outbox =~= s.outbox + seq![
            EffectView::PutSession { session: s.session() },
            EffectView::DropSessionFile { path: store::session_file_of(s.home) },
        ]);
    } else {
        assert(s.touched().outbox =~= s.outbox + seq![
            EffectView::WriteSessionFile {
                path: store::session_file_of(s.home),
                session: s.session(),
            },
        ]);
    }
}

/// Whether files are what stands at the paths of notes, each to be restored.
pub open spec fn are_files_of(
    files: Seq<store::DiskFileView>,
    notes: Seq<docs::NoteView>,
    list: Seq<store::DraftView>,
) -> bool {
    &&& files.len() == notes.len()
    &&& forall|i: int|
        0 <= i < files.len() ==> (#[trigger] files[i]).path == notes[i].path && !(
        files[i].found is Unreadable) && store::restorable(files[i], list)
}

proof fn reopened_paths(
    s: store::StoreView,
    fresh: store::StoreView,
    files: Seq<store::DiskFileView>,
    list: Seq<store::DraftView>,
    n: int,
)
    requires
        s.is_sound(),
        fresh.notes.len() == 0,
        are_files_of(files, s.notes, list),
        0 <= n <= files.len(),
    ensures
        store::note_paths(fresh.reopened(files.take(n), list).notes) == store::note_paths(
            s.notes,
        ).take(n),
        store::note_ids(fresh.reopened(files.take(n), list).notes) == store::note_ids(
            s.notes,
        ).take(n),
        fresh.reopened(files.take(n), list).view_mode == fresh.view_mode,
        fresh.reopened(files.take(n), list).word_wrap == fresh.word_wrap,
        n == 0 ==> fresh.reopened(files.take(n), list).active_id == fresh.active_id,
    decreases n,
{
    let t = fresh.reopened(files.take(n), list);
    if n == 0 {
        assert(files.take(0) =~= seq![]);
        assert(store::note_paths(t.notes) =~= store::note_paths(s.notes).take(0));
        assert(store::note_ids(t.notes) =~= store::note_ids(s.notes).take(0));
    } else {
        let file = files[n - 1];
        let id = docs::id_of(file.path);
        reopened_paths(s, fresh, files, list, n - 1);
        let u = fresh.reopened(files.take(n - 1), list);
        assert(files.take(n).drop_last() =~= files.take(n - 1));
        assert(files.take(n).last() == file);
        assert(s.notes[n - 1].id == id);
        store::seek_finds(u.notes, id);
        assert(u.notes.len() == n - 1) by {
            assert(store::note_ids(u.notes).len() == store::note_ids(s.notes).take(n - 1).len());
        }
        if let Some(j) = store::seek(u.notes, id) {
            assert(store::note_ids(u.notes)[j] == id);
            assert(store::note_ids(s.notes).take(n - 1)[j] == s.notes[j].id);
            assert(s.notes[j].id != s.notes[n - 1].id);
        }
        assert(t.notes == u.notes.push(store::new_note(file)));
        assert forall|k: int| 0 <= k < n implies store::note_paths(t.notes)[k]
            == store::note_paths(s.notes).take(n)[k] && store::note_ids(t.notes)[k]
            == store::note_ids(s.notes).take(n)[k] by {
            if k < n - 1 {
                assert(t.notes[k] == u.notes[k]);
                assert(store::note_paths(u.notes)[k] == store::note_paths(s.notes).take(n - 1)[k]);
                assert(store::note_ids(u.notes)[k] == store::note_ids(s.notes).take(n - 1)[k]);
            }
        }
        assert(store::note_paths(t.notes) =~= store::note_paths(s.notes).take(n));
        assert(store::note_ids(t.notes) =~= store::note_ids(s.notes).take(n));
    }
}

/// Draft rows of notes that are open move no tab.
proof fn drafts_move_no_tab(s: store::StoreView, list: Seq<store::DraftView>)
    requires
        forall|j: int| 0 <= j < list.len() ==> s.has(docs::id_of((#[trigger] list[j]).path)),
    ensures
        s.all_undrafted(list).notes.len() == s.notes.len(),
        forall|i: int|
            0 <= i < s.notes.len() ==> (#[trigger] s.all_undrafted(list).notes[i]).path
                == s.notes[i].path && s.all_undrafted(list).notes[i].id == s.notes[i].id,
        s.all_undrafted(list).active_id == s.active_id,
        s.all_undrafted(list).view_mode == s.view_mode,
        s.all_undrafted(list).word_wrap == s.word_wrap,
    decreases list.len(),
{
    if list.len() > 0 {
        let before = list.drop_last();
        assert forall|j: int| 0 <= j < before.len() implies s.has(
            docs::id_of((#[trigger] before[j]).path),
        ) by {
            assert(before[j] == list[j]);
        }
        drafts_move_no_tab(s, before);
        let t = s.all_undrafted(before);
        let id = docs::id_of(list.last().path);
        assert(s.has(docs::id_of(list[list.len() - 1].path)));
        order_laws::same_ids_same_positions(t.notes, s.notes, id);
        store::seek_finds(t.notes, id);
    }
}

/// The session restores: the next run has the same tabs in the same order, the
/// same active tab, view mode and wrapping, where the files can still be read. A
/// tab whose file was never saved comes back with its draft row; the draft rows
/// are those of open tabs.
pub proof fn session_restores_the_tabs(
    s: store::StoreView,
    home: Seq<char>,
    has_db: bool,
    files: Seq<store::DiskFileView>,
    rows: Option<Seq<store::DraftView>>,
)
    requires
        s.is_sound(),
        are_files_of(
            files,
            s.notes,
            match rows {
                Some(list) => list,
                None => seq![],
            },
        ),
        rows matches Some(list) ==> forall|j: int|
            0 <= j < list.len() ==> s.has(docs::id_of((#[trigger] list[j]).path)),
    ensures
        ({
            let t = store::started(home, has_db, Some(s.session()), files, rows);
            &&& store::note_paths(t.notes) == store::note_paths(s.notes)
            &&& store::note_ids(t.notes) == store::note_ids(s.notes)
            &&& t.active_id == s.active_id
            &&& t.view_mode == s.view_mode
            &&& t.word_wrap == s.word_wrap
        }),
{
    let list = match rows {
        Some(list) => list,
        None => seq![],
    };
    let session = s.session();
    let fresh = store::fresh(home, has_db).configured(session);
    let n = files.len() as int;
    session_is_read_back(s);
    reopened_paths(s, fresh, files, list, n);
    assert(files.take(n) =~= files);
    assert(store::note_paths(s.notes).take(n) =~= store::note_paths(s.notes));
    assert(store::note_ids(s.notes).take(n) =~= store::note_ids(s.notes));
    let u = fresh.reopened(files, list);
    let r = u.refocused(session);
    assert(u.notes.len() == s.notes.len()) by {
        assert(store::note_ids(u.notes).len() == store::note_ids(s.notes).len());
    }
    assert forall|i: int| 0 <= i < u.notes.len() implies (#[trigger] u.notes[i]).id == (
    #[trigger] s.notes[i]).id by {
        assert(store::note_ids(u.notes)[i] == store::note_ids(s.notes)[i]);
    }
    match s.active_id {
        Some(id) => {
            store::seek_finds(s.notes, id);
            order_laws::same_ids_same_positions(u.notes, s.notes, id);
            let i = store::seek(s.notes, id)->0;
            assert(s.notes[i].id == docs::id_of(s.notes[i].path));
            assert(r.active_id == Some(id));
        },
        None => {
            assert(u.active_id == fresh.active_id);
        },
    }
    if rows is Some {
        assert forall|j: int| 0 <= j < list.len() implies r.has(
            docs::id_of((#[trigger] list[j]).path),
        ) by {
            order_laws::same_ids_same_positions(
                u.notes,
                s.notes,
                docs::id_of(list[j].path),
            );
        }
        drafts_move_no_tab(r, list);
        let t = r.all_undrafted(list);
        assert(store::note_paths(t.notes) =~= store::note_paths(s.notes)) by {
            assert forall|i: int| 0 <= i < s.notes.len() implies (#[trigger] t.notes[i]).path
                == s.notes[i].path by {
                assert(store::note_paths(u.notes)[i] == store::note_paths(s.notes)[i]);
            }
        }
        assert(store::note_ids(t.notes) =~= store::note_ids(s.notes));
    }
}

/// What a session says stands under its keys: the name of the mode, the wrapping, the
/// paths of the notes, the path of the active note or null, and the recent paths.
pub proof fn session_says_what_is_shown(s: store::StoreView)
    ensures
        s.session().at("view_mode"@) == JsonView::Text(
            match s.view_mode {
                docs::ViewMode::Markdown => "markdown"@,
                docs::ViewMode::Split => "split"@,
                docs::ViewMode::Text => "text"@,
            },
        ),
        s.session().at("word_wrap"@) == JsonView::Bool(s.word_wrap),
        s.session().at("open"@).item_texts().len() == s.notes.len(),
        forall|i: int|
            0 <= i < s.notes.len() ==> #[trigger] s.session().at("open"@).item_texts()[i]
                == s.notes[i].path,
        s.session().at("active"@) == (match s.active() {
            Some(note) => JsonView::Text(note.path),
            None => JsonView::Null,
        }),
        s.session().at("recent"@).item_texts() == s.recent,
{
    broadcast use json::object_holds, json::with_at;

    session_is_read_back(s);
    reveal_strlit("view_mode");
    reveal_strlit("word_wrap");
    reveal_strlit("open");
    reveal_strlit("active");
    reveal_strlit("recent");
    assert("view_mode"@[0] != "word_wrap"@[0]);
    assert("active"@[0] != "recent"@[0]);
    assert("view_mode"@.len() == 9 && "word_wrap"@.len() == 9 && "open"@.len() == 4
        && "active"@.len() == 6 && "recent"@.len() == 6);
}

/// The tabs are opened again one by one: each whose file is there, or whose buffer a
/// draft row holds, is opened like any file, and each other is left out.
pub proof fn tabs_are_opened_one_by_one(
    s: store::StoreView,
    files: Seq<store::DiskFileView>,
    file: store::DiskFileView,
    rows: Seq<store::DraftView>,
)
    ensures
        s.reopened(seq![], rows) == s,
        !(file.found is Missing) ==> s.reopened(files.push(file), rows) == s.reopened(
            files,
            rows,
        ).opened(file),
        file.found is Missing && (exists|j: int|
            0 <= j < rows.len() && docs::id_of((#[trigger] rows[j]).path) == docs::id_of(
                file.path,
            )) ==> s.reopened(files.push(file), rows) == s.reopened(files, rows).opened(file),
        file.found is Missing && (forall|j: int|
            0 <= j < rows.len() ==> docs::id_of((#[trigger] rows[j]).path) != docs::id_of(
                file.path,
            )) ==> s.reopened(files.push(file), rows) == s.reopened(files, rows),
{
    assert(files.push(file).drop_last() =~= files);
}

/// The active note of a session is active again if it is open; otherwise the active
/// note stays. Nothing else changes.
pub proof fn active_tab_is_focused_again(s: store::StoreView, session: JsonView)
    ensures
        ({
            let t = s.refocused(session);
            &&& t.notes == s.notes && t.view_mode == s.view_mode && t.word_wrap == s.word_wrap
                && t.epoch == s.epoch && t.recent == s.recent && t.home == s.home && t.has_db
                == s.has_db && t.outbox == s.outbox
            &&& t.active_id == (match session.at("active"@) {
                JsonView::Text(path) => if s.has(docs::id_of(path)) {
                    Some(docs::id_of(path))
                } else {
                    s.active_id
                },
                _ => s.active_id,
            })
        }),
{
}

/// A start takes up the settings of the session, then its tabs, then its active tab,
/// and then the draft rows, one by one; without a session it takes up the draft
/// rows alone.
pub proof fn start_takes_up_the_session_and_the_drafts(
    home: Seq<char>,
    has_db: bool,
    session: JsonView,
    files: Seq<store::DiskFileView>,
    rows: Seq<store::DraftView>,
    row: store::DraftView,
)
    ensures
        ({
            let empty = store::StoreView {
                notes: seq![],
                active_id: None,
                view_mode: docs::ViewMode::Markdown,
                word_wrap: true,
                epoch: 1,
                recent: seq![],
                home,
                has_db,
                outbox: seq![],
            };
            let again = empty.configured(session).reopened(files, rows).refocused(session);
            let bare = empty.configured(session).reopened(files, seq![]).refocused(session);
            &&& store::started(home, has_db, None, files, None) == empty
            &&& store::started(home, has_db, Some(session), files, None) == bare
            &&& store::started(home, has_db, Some(session), files, Some(rows))
                == again.all_undrafted(rows).bumped()
            &&& store::started(home, has_db, None, files, Some(rows)) == empty.all_undrafted(
                rows,
            ).bumped()
            &&& empty.all_undrafted(seq![]) == empty
            &&& again.all_undrafted(rows.push(row)) == again.all_undrafted(rows).undrafted(row)
            &&& empty.all_undrafted(rows.push(row)) == empty.all_undrafted(rows).undrafted(row)
        }),
{
    assert(rows.push(row).drop_last() =~= rows);
}

/// Moving the epoch on changes nothing else, and always moves it.
pub proof fn bump_only_moves_the_epoch(s: store::StoreView)
    ensures
        s.bumped().epoch != s.epoch,
        s.epoch < u64::MAX ==> s.bumped().epoch == s.epoch + 1,
        s.bumped().notes == s.notes && s.bumped().active_id == s.active_id && s.bumped().view_mode
            == s.view_mode && s.bumped().word_wrap == s.word_wrap && s.bumped().recent == s.recent
            && s.bumped().home == s.home && s.bumped().has_db == s.has_db && s.bumped().outbox
            == s.outbox,
{
}

} // verus!
