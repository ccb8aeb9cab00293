//! What the actions keep and what the panes show.

use crate::actions;
use crate::docs::{self, FileStat, ViewMode};
use crate::draft_laws::{self, Rows};
use crate::json::{self, JsonView};
use crate::order_laws;
use crate::panes::{self, PaneView};
use crate::paths;
use crate::search;
use crate::server;
use crate::store::{self, Moved, Written};
use crate::store_laws;
use crate::text;
use crate::text_laws;
use vstd::prelude::*;

verus! {

/// An editor draft lands in the note that it belongs to and nowhere else: that note
/// has the draft as its buffer, no other note changes, and the active note stays.
pub proof fn draft_lands_in_its_note(p: PaneView, body: JsonView)
    requires
        body.at("values"@).at("editor"@).text() is Some,
        p.draft_target(body.at("value_keys"@)) is Some,
    ensures
        ({
            let q = p.absorbed(body);
            let draft = body.at("values"@).at("editor"@).text()->0;
            let target = p.draft_target(body.at("value_keys"@))->0;
            &&& q.store.note(target) matches Some(note) && note.content == draft
            &&& forall|other: Seq<char>|
                other != target ==> #[trigger] q.store.note(other) == p.store.note(other)
            &&& q.store.active_id == p.store.active_id
        }),
{
    let target = p.draft_target(body.at("value_keys"@))->0;
    let q = p.absorbed(body);
    store::seek_finds(p.store.notes, target);
    order_laws::same_ids_same_positions(q.store.notes, p.store.notes, target);
    assert forall|other: Seq<char>| other != target implies #[trigger] q.store.note(other)
        == p.store.note(other) by {
        store::seek_finds(p.store.notes, other);
        order_laws::same_ids_same_positions(q.store.notes, p.store.notes, other);
    }
}

/// The note that a draft names is its target, whichever note is active; a draft
/// that names none goes to the active note.
pub proof fn draft_target_is_the_named_note(p: PaneView, keys: JsonView)
    requires
        p.store.is_sound(),
    ensures
        keys.at("editor"@).text() matches Some(id) ==> p.draft_target(keys) == (if p.store.has(
            id,
        ) {
            Some(id)
        } else {
            None
        }),
        keys.at("editor"@).text() is None ==> p.draft_target(keys) == p.store.active_id,
{
}

/// The draft of a note that is no longer open is dropped.
pub proof fn draft_of_a_closed_note_is_dropped(p: PaneView, body: JsonView)
    requires
        body.at("value_keys"@).at("editor"@).text() matches Some(id) && !p.store.has(id),
    ensures
        p.absorbed(body) == p,
{
}

/// Closing a note removes that note and leaves the others.
pub proof fn close_leaves_the_others(s: store::StoreView, id: Seq<char>)
    requires
        s.is_sound(),
    ensures
        !s.closed(id).has(id),
        forall|other: Seq<char>|
            other != id ==> #[trigger] s.closed(id).note(other) == s.note(other),
{
    let left = s.closed(id).notes;
    order_laws::without_keeps_the_others(s.notes, id);
    store_laws::close_keeps_soundness(s, id);
    assert(left == store::without(s.notes, id));
    store::seek_finds(left, id);
    if let Some(j) = store::seek(left, id) {
        assert(left.contains(left[j]));
    }
    assert forall|other: Seq<char>| other != id implies #[trigger] s.closed(id).note(other)
        == s.note(other) by {
        store::seek_finds(s.notes, other);
        store::seek_finds(left, other);
        match (store::seek(s.notes, other), store::seek(left, other)) {
            (Some(i), _) => {
                assert(s.notes.contains(s.notes[i]));
                assert(left.contains(s.notes[i]));
                let j = choose|j: int| 0 <= j < left.len() && left[j] == s.notes[i];
                order_laws::own_position(left, j);
            },
            (None, Some(j)) => {
                assert(left.contains(left[j]));
                assert(s.notes.contains(left[j]));
                let i = choose|i: int| 0 <= i < s.notes.len() && s.notes[i] == left[j];
                assert(s.notes[i].id == other);
            },
            (None, None) => {},
        }
    }
}

/// Whether a store is what the first step of an action can make of another.
spec fn is_step_of(t: store::StoreView, s: store::StoreView, value: Seq<char>, order: Seq<
    Seq<char>,
>) -> bool {
    ||| t == s
    ||| s.has(value) && t == s.focused(value).touched()
    ||| t == s.reordered(order)
    ||| t == s.reordered(order).touched()
    ||| docs::mode_named(value) matches Some(mode) && t == (store::StoreView {
        view_mode: mode,
        ..s
    }).touched()
    ||| s.active_id matches Some(id) && t == s.closed(id)
    ||| s.has(value) && t == s.closed(value)
    ||| t == (store::StoreView { word_wrap: value == "true"@, ..s }).touched()
}

proof fn first_step_of(p: PaneView, body: JsonView, cwd: Option<Seq<char>>)
    ensures
        is_step_of(
            p.acted(body, cwd).0.store,
            p.store,
            actions::text_in(body.at("values"@), "value"@),
            body.at("values"@).at("order"@).item_texts(),
        ),
{
}

/// The first step of an action changes no buffer: a note that is open after it is
/// as it was.
proof fn first_step_changes_no_note(
    t: store::StoreView,
    s: store::StoreView,
    value: Seq<char>,
    order: Seq<Seq<char>>,
)
    requires
        s.is_sound(),
        is_step_of(t, s, value, order),
    ensures
        t.is_sound(),
        forall|id: Seq<char>| t.has(id) ==> #[trigger] t.note(id) == s.note(id),
{
    store_laws::reorder_keeps_soundness(s, order);
    if s.active_id is Some && t == s.closed(s.active_id->0) {
        store_laws::close_keeps_soundness(s, s.active_id->0);
        close_leaves_the_others(s, s.active_id->0);
    } else if t == s.closed(value) {
        store_laws::close_keeps_soundness(s, value);
        close_leaves_the_others(s, value);
    } else if t == s.reordered(order) || t == s.reordered(order).touched() {
        assert forall|id: Seq<char>| t.has(id) implies #[trigger] t.note(id) == s.note(id) by {
            assert(s.reordered(order).note(id) == s.note(id));
        }
    }
}

/// Nothing typed is lost: whatever the action, the draft that rides along is the
/// buffer of its note after the first step, unless that step closes the note.
pub proof fn typed_text_is_never_lost(p: PaneView, body: JsonView, cwd: Option<Seq<char>>)
    requires
        p.store.is_sound(),
        body.at("values"@).at("editor"@).text() is Some,
        p.draft_target(body.at("value_keys"@)) is Some,
    ensures
        ({
            let q = p.handled(body, cwd).0;
            let draft = body.at("values"@).at("editor"@).text()->0;
            let target = p.draft_target(body.at("value_keys"@))->0;
            q.store.note(target) matches Some(note) ==> note.content == draft
        }),
{
    let draft = body.at("values"@).at("editor"@).text()->0;
    let target = p.draft_target(body.at("value_keys"@))->0;
    draft_lands_in_its_note(p, body);
    store_laws::edit_keeps_soundness(p.store, target, draft);
    let q = p.handled(body, cwd).0;
    first_step_of(p.absorbed(body), body, cwd);
    first_step_changes_no_note(
        q.store,
        p.absorbed(body).store,
        actions::text_in(body.at("values"@), "value"@),
        body.at("values"@).at("order"@).item_texts(),
    );
    if q.store.note(target) is Some {
        assert(q.store.has(target));
    }
}

/// An action keeps the store sound.
pub proof fn action_keeps_soundness(p: PaneView, body: JsonView, cwd: Option<Seq<char>>)
    requires
        p.store.is_sound(),
    ensures
        p.absorbed(body).store.is_sound(),
        p.handled(body, cwd).0.store.is_sound(),
{
    if let (Some(draft), Some(target)) = (
        body.at("values"@).at("editor"@).text(),
        p.draft_target(body.at("value_keys"@)),
    ) {
        store_laws::edit_keeps_soundness(p.store, target, draft);
    }
    first_step_of(p.absorbed(body), body, cwd);
    first_step_changes_no_note(
        p.handled(body, cwd).0.store,
        p.absorbed(body).store,
        actions::text_in(body.at("values"@), "value"@),
        body.at("values"@).at("order"@).item_texts(),
    );
}

/// A request keeps the store sound.
pub proof fn request_keeps_soundness(
    p: PaneView,
    method: Seq<char>,
    path: Seq<char>,
    body: JsonView,
    cwd: Option<Seq<char>>,
)
    requires
        p.store.is_sound(),
    ensures
        p.routed(method, path, body, cwd).0.store.is_sound(),
{
    action_keeps_soundness(p, body, cwd);
}

/// The draft rows hold the dirty buffers after the first step of every action.
pub proof fn action_keeps_drafts(
    p: PaneView,
    rows: Rows,
    body: JsonView,
    cwd: Option<Seq<char>>,
)
    requires
        p.store.is_sound(),
        p.store.keeps_drafts(rows),
    ensures
        p.handled(body, cwd).0.store.keeps_drafts(rows),
{
    if let (Some(draft), Some(target)) = (
        body.at("values"@).at("editor"@).text(),
        p.draft_target(body.at("value_keys"@)),
    ) {
        store_laws::edit_keeps_soundness(p.store, target, draft);
        draft_laws::edit_keeps_drafts(p.store, rows, target, draft);
    }
    first_step_of(p.absorbed(body), body, cwd);
    first_step_keeps_drafts(
        p.handled(body, cwd).0.store,
        p.absorbed(body).store,
        rows,
        actions::text_in(body.at("values"@), "value"@),
        body.at("values"@).at("order"@).item_texts(),
    );
}

proof fn touch_keeps_drafts(s: store::StoreView, rows: Rows)
    requires
        s.keeps_drafts(rows),
    ensures
        s.touched().keeps_drafts(rows),
{
    draft_laws::touch_leaves_the_rows(rows, s);
}

proof fn first_step_keeps_drafts(
    t: store::StoreView,
    s: store::StoreView,
    rows: Rows,
    value: Seq<char>,
    order: Seq<Seq<char>>,
)
    requires
        s.is_sound(),
        s.keeps_drafts(rows),
        is_step_of(t, s, value, order),
    ensures
        t.keeps_drafts(rows),
{
    draft_laws::reorder_keeps_drafts(s, rows, order);
    draft_laws::close_keeps_drafts(s, rows, value);
    if let Some(id) = s.active_id {
        draft_laws::close_keeps_drafts(s, rows, id);
    }
    touch_keeps_drafts(s.focused(value), rows);
    touch_keeps_drafts(s.reordered(order), rows);
    if let Some(mode) = docs::mode_named(value) {
        touch_keeps_drafts(store::StoreView { view_mode: mode, ..s }, rows);
    }
    touch_keeps_drafts(store::StoreView { word_wrap: value == "true"@, ..s }, rows);
}

/// The steps in which an action goes on keep the store sound.
pub proof fn steps_keep_soundness(
    p: PaneView,
    id: Seq<char>,
    then: actions::ThenView,
    file: store::DiskFileView,
    force: bool,
    disk: Option<FileStat>,
    written: Written,
    read: store::ReadBackView,
)
    requires
        p.store.is_sound(),
    ensures
        p.after_load(then, file).store.is_sound(),
        p.after_check(id, force, disk).store.is_sound(),
        p.after_write(id, written).store.is_sound(),
        p.after_read(id, read).store.is_sound(),
{
    store_laws::open_keeps_soundness(p.store, file);
    store_laws::save_keeps_soundness(p.store, id, p.content_of(id), written);
    store_laws::reload_keeps_soundness(p.store, id, read);
}

/// The steps of a rename keep the store sound, if a file is moved only where no
/// note is.
pub proof fn rename_steps_keep_soundness(
    p: PaneView,
    id: Seq<char>,
    name: Seq<char>,
    target: Seq<char>,
    old_exists: bool,
    target_exists: bool,
    moved: Moved,
)
    requires
        p.store.is_sound(),
    ensures
        p.after_probe(id, name, target, old_exists, target_exists).store.is_sound(),
        !p.store.has(docs::id_of(target)) ==> p.after_move(id, target, moved).store.is_sound(),
{
    store_laws::rename_keeps_soundness(p.store, id, target, old_exists, moved);
}

/// The draft rows hold the dirty buffers after every step in which an action goes
/// on: the save of an action takes up the buffer of its note.
pub proof fn steps_keep_drafts(
    p: PaneView,
    rows: Rows,
    id: Seq<char>,
    then: actions::ThenView,
    file: store::DiskFileView,
    force: bool,
    disk: Option<FileStat>,
    written: Written,
    read: store::ReadBackView,
)
    requires
        p.store.is_sound(),
        p.store.keeps_drafts(rows),
    ensures
        p.after_load(then, file).store.keeps_drafts(rows),
        p.after_check(id, force, disk).store.keeps_drafts(rows),
        p.after_write(id, written).store.keeps_drafts(rows),
        p.after_read(id, read).store.keeps_drafts(rows),
{
    draft_laws::open_keeps_drafts(p.store, rows, file);
    draft_laws::save_keeps_drafts(p.store, rows, id, p.content_of(id), written);
    draft_laws::reload_keeps_drafts(p.store, rows, id, read);
}

/// The draft rows hold the dirty buffers after every step of a rename.
pub proof fn rename_steps_keep_drafts(
    p: PaneView,
    rows: Rows,
    id: Seq<char>,
    name: Seq<char>,
    target: Seq<char>,
    old_exists: bool,
    target_exists: bool,
    moved: Moved,
)
    requires
        p.store.is_sound(),
        p.store.keeps_drafts(rows),
    ensures
        p.after_probe(id, name, target, old_exists, target_exists).store.keeps_drafts(rows),
        !p.store.has(docs::id_of(target)) ==> p.after_move(id, target, moved).store.keeps_drafts(
            rows,
        ),
{
    draft_laws::rename_keeps_drafts(p.store, rows, id, target, old_exists, moved);
}

/// A save of the active note that finds its file changed writes nothing, changes no
/// note, and asks the user: the sidebar then offers to overwrite the file or to
/// reload it. Only an overwrite is forced.
pub proof fn save_conflict_asks_the_user(
    p: PaneView,
    turn: actions::Turn,
    id: Seq<char>,
    disk: Option<FileStat>,
    on_disk: Seq<bool>,
)
    requires
        p.store.note(id) matches Some(note) && note.revision != docs::revision_of(disk),
    ensures
        ({
            let q = p.after_check(id, false, disk);
            let shown = panes::notes_of(q, panes::searched(q), on_disk);
            &&& p.check_step(turn, id, false, disk) == actions::quiet(turn)
            &&& q.store == p.store
            &&& q.conflict == Some(docs::shown_name(p.store.note(id)->0.path))
            &&& shown.at("widgets"@).items().contains(panes::overwrite_button())
            &&& shown.at("widgets"@).items().contains(panes::reload_button())
        }),
{
    let q = p.after_check(id, false, disk);
    let i = store::seek(p.store.notes, id)->0;
    store::seek_finds(p.store.notes, id);
    let note = p.store.notes[i];
    assert(p.store.notes.update(i, docs::NoteView { content: note.content, ..note })
        =~= p.store.notes);
    assert(q.store =~= p.store);
    conflict_is_shown(q, panes::searched(q), on_disk);
}

/// A save looks at the file of the active note first, and only an overwrite is
/// forced.
pub proof fn only_an_overwrite_is_forced(p: PaneView, body: JsonView, cwd: Option<Seq<char>>)
    ensures
        p.handled(body, cwd).1 matches actions::StepView::Stat { id, force, path, .. } ==> {
            &&& force == (actions::text_in(body, "action"@) == "overwrite"@)
            &&& p.absorbed(body).store.active_id == Some(id)
            &&& p.absorbed(body).store.note(id) matches Some(note) && note.path == path
        },
        !(p.handled(body, cwd).1 is Write) && !(p.handled(body, cwd).1 is Move),
{
    reveal_strlit("save");
    reveal_strlit("overwrite");
    assert("save"@.len() == 4 && "overwrite"@.len() == 9);
}

/// While a conflict waits, the sidebar offers both ways out of it.
pub proof fn conflict_is_shown(p: PaneView, hits: Seq<(bool, nat)>, on_disk: Seq<bool>)
    requires
        p.conflict is Some,
    ensures
        panes::notes_of(p, hits, on_disk).at("widgets"@).items().contains(
            panes::overwrite_button(),
        ),
        panes::notes_of(p, hits, on_disk).at("widgets"@).items().contains(panes::reload_button()),
{
    let head = panes::head_widgets(p).items();
    let k: int = if p.open_input {
        3
    } else {
        2
    };
    assert(head[k] == panes::overwrite_button());
    assert(head[k + 1] == panes::reload_button());
    rows_of_the_sidebar(p, hits, on_disk);
    let all = panes::notes_of(p, hits, on_disk).at("widgets"@).items();
    assert(all[k] == head[k]);
    assert(all[k + 1] == head[k + 1]);
}

/// The widgets of the sidebar are those above the notes and those of the notes,
/// with at most a line behind them.
proof fn rows_of_the_sidebar(p: PaneView, hits: Seq<(bool, nat)>, on_disk: Seq<bool>)
    ensures
        ({
            let all = panes::notes_of(p, hits, on_disk).at("widgets"@);
            let rows = panes::note_widgets(p, hits, on_disk, p.store.notes.len());
            &&& all is Array
            &&& rows is Array
            &&& panes::head_widgets(p).items().is_prefix_of(all.items())
            &&& rows.items().is_prefix_of(all.items())
        }),
{
    broadcast use json::object_holds, json::with_at;

    reveal_strlit("title");
    reveal_strlit("widgets");
    reveal_strlit("footer");
    assert("title"@.len() == 5 && "widgets"@.len() == 7 && "footer"@.len() == 6);
    let rows = panes::note_widgets(p, hits, on_disk, p.store.notes.len());
    widgets_of_the_sidebar(p, hits, on_disk, p.store.notes.len());
    let all = panes::notes_of(p, hits, on_disk).at("widgets"@);
    assert(all == rows || all == rows.and(panes::muted_label(panes::nothing_shown(p))));
}

/// The widgets of the notes start with those above the notes and hold the row of
/// each note that is shown.
proof fn widgets_of_the_sidebar(
    p: PaneView,
    hits: Seq<(bool, nat)>,
    on_disk: Seq<bool>,
    n: nat,
)
    ensures
        panes::note_widgets(p, hits, on_disk, n) is Array,
        panes::head_widgets(p) is Array,
        panes::head_widgets(p).items().is_prefix_of(
            panes::note_widgets(p, hits, on_disk, n).items(),
        ),
        forall|i: int|
            0 <= i < n && panes::is_shown(#[trigger] panes::hits_at(hits, i))
                ==> panes::note_widgets(p, hits, on_disk, n).items().contains(
                panes::note_row(
                    p,
                    p.store.notes[i],
                    panes::hits_at(hits, i).1,
                    panes::flag_at(on_disk, i),
                ),
            ),
    decreases n,
{
    let all = panes::note_widgets(p, hits, on_disk, n);
    if n > 0 {
        let m = (n - 1) as nat;
        let above = panes::note_widgets(p, hits, on_disk, m);
        widgets_of_the_sidebar(p, hits, on_disk, m);
        assert forall|i: int| 0 <= i < n && panes::is_shown(
            #[trigger] panes::hits_at(hits, i),
        ) implies all.items().contains(
            panes::note_row(
                p,
                p.store.notes[i],
                panes::hits_at(hits, i).1,
                panes::flag_at(on_disk, i),
            ),
        ) by {
            let row = panes::note_row(
                p,
                p.store.notes[i],
                panes::hits_at(hits, i).1,
                panes::flag_at(on_disk, i),
            );
            if i < m {
                let k = choose|k: int| 0 <= k < above.items().len() && above.items()[k] == row;
                assert(all.items()[k] == row);
            } else {
                assert(all.items()[above.items().len() as int] == row);
            }
        }
    }
}

/// Every editor names the note that it holds: a text field of the viewport has the
/// id of the active note as its key. There is one while a note is active, in every
/// mode but the rendered one.
pub proof fn every_editor_names_its_note(s: store::StoreView)
    ensures
        ({
            let widgets = panes::document_of(s).at("widgets"@).items();
            &&& forall|k: int|
                0 <= k < widgets.len() && (#[trigger] widgets[k]).at("kind"@) == JsonView::Text(
                    "text-input"@,
                ) ==> (s.active() matches Some(note) && widgets[k].at("value_key"@)
                    == JsonView::Text(note.id) && widgets[k].at("value"@) == JsonView::Text(
                    note.content,
                ))
            &&& s.active() is Some && s.view_mode != ViewMode::Markdown ==> widgets.len() > 0
                && widgets[0].at("kind"@) == JsonView::Text("text-input"@)
        }),
{
    broadcast use json::object_holds, json::with_at;

    reveal_strlit("title");
    reveal_strlit("widgets");
    assert("title"@.len() == 5 && "widgets"@.len() == 7);
    assert(panes::document_of(s).at("widgets"@) == panes::document_widgets(s));
    match s.active() {
        Some(note) => {
            editor_is_a_text_field(note, s.word_wrap);
            rendered_is_no_text_field(note);
        },
        None => {
            let n = if s.recent.len() > panes::RECENT_SHOWN {
                panes::RECENT_SHOWN as nat
            } else {
                s.recent.len()
            };
            recent_rows_are_no_text_fields(s.recent, n);
        },
    }
}

proof fn editor_is_a_text_field(note: docs::NoteView, wrap: bool)
    ensures
        panes::editor_widget(note, wrap).at("kind"@) == JsonView::Text("text-input"@),
        panes::editor_widget(note, wrap).at("value_key"@) == JsonView::Text(note.id),
        panes::editor_widget(note, wrap).at("value"@) == JsonView::Text(note.content),
{
    broadcast use json::object_holds, json::with_at;

    reveal_strlit("kind");
    reveal_strlit("id");
    reveal_strlit("multiline");
    reveal_strlit("line_numbers");
    reveal_strlit("word_wrap");
    reveal_strlit("value");
    reveal_strlit("value_key");
    assert("kind"@.len() == 4 && "id"@.len() == 2 && "multiline"@.len() == 9
        && "line_numbers"@.len() == 12 && "word_wrap"@.len() == 9 && "value"@.len() == 5
        && "value_key"@.len() == 9);
    assert("multiline"@[0] == 'm' && "word_wrap"@[0] == 'w' && "value_key"@[0] == 'v');
}

proof fn rendered_is_no_text_field(note: docs::NoteView)
    ensures
        panes::markdown_widget(note).at("kind"@) != JsonView::Text("text-input"@),
        panes::markdown_widget(note).with("live_from"@, JsonView::Text("editor"@)).at("kind"@)
            != JsonView::Text("text-input"@),
{
    broadcast use json::object_holds, json::with_at;

    reveal_strlit("kind");
    reveal_strlit("id");
    reveal_strlit("source");
    reveal_strlit("live_from");
    reveal_strlit("markdown");
    reveal_strlit("text-input");
    assert("kind"@.len() == 4 && "id"@.len() == 2 && "source"@.len() == 6 && "live_from"@.len()
        == 9);
    assert("markdown"@.len() == 8 && "text-input"@.len() == 10);
}

proof fn recent_rows_are_no_text_fields(recent: Seq<Seq<char>>, n: nat)
    ensures
        panes::recent_rows(recent, n) is Array,
        forall|k: int|
            0 <= k < panes::recent_rows(recent, n).items().len() ==> (
            #[trigger] panes::recent_rows(recent, n).items()[k]).at("kind"@) != JsonView::Text(
                "text-input"@,
            ),
    decreases n,
{
    broadcast use json::object_holds, json::with_at;

    if n > 0 {
        let before = panes::recent_rows(recent, (n - 1) as nat).items();
        recent_rows_are_no_text_fields(recent, (n - 1) as nat);
        let row = panes::recent_row(recent[n - 1]);
        reveal_strlit("kind");
        reveal_strlit("id");
        reveal_strlit("title");
        reveal_strlit("subtitle");
        reveal_strlit("actions");
        reveal_strlit("list-row");
        reveal_strlit("text-input");
        assert("kind"@.len() == 4 && "id"@.len() == 2 && "title"@.len() == 5 && "subtitle"@.len()
            == 8 && "actions"@.len() == 7);
        assert("list-row"@.len() == 8 && "text-input"@.len() == 10);
        assert(row.at("kind"@) == JsonView::Text("list-row"@));
        let all = panes::recent_rows(recent, n).items();
        assert forall|k: int| 0 <= k < all.len() implies (#[trigger] all[k]).at("kind"@)
            != JsonView::Text("text-input"@) by {
            if k < before.len() {
                assert(all[k] == before[k]);
            } else {
                assert(all[k] == row);
            }
        }
    }
}

/// The row of a note tells its save state by its status and not by its title: the
/// title is the name of the note, whatever its state; a dirty note is transient, a
/// clean one with a file durable, and a clean one without a file neither.
pub proof fn save_state_is_a_status(
    p: PaneView,
    note: docs::NoteView,
    hits: nat,
    on_disk: bool,
)
    ensures
        ({
            let row = panes::note_row(p, note, hits, on_disk);
            &&& row.at("id"@) == JsonView::Text(note.id)
            &&& row.at("title"@) == JsonView::Text(docs::shown_name(note.path))
            &&& row.at("status"@) == JsonView::Text(
                if note.dirty {
                    "transient"@
                } else if on_disk {
                    "durable"@
                } else {
                    ""@
                },
            )
            &&& row.at("selected"@) == JsonView::Bool(p.store.active_id == Some(note.id))
        }),
{
    broadcast use json::object_holds, json::with_at;

    reveal_strlit("kind");
    reveal_strlit("id");
    reveal_strlit("icon");
    reveal_strlit("title");
    reveal_strlit("status");
    reveal_strlit("subtitle");
    reveal_strlit("selected");
    reveal_strlit("row_action");
    reveal_strlit("reorder_action");
    reveal_strlit("actions");
    reveal_strlit("menu");
    reveal_strlit("rename");
    assert("kind"@.len() == 4 && "id"@.len() == 2 && "icon"@.len() == 4 && "title"@.len() == 5
        && "status"@.len() == 6 && "subtitle"@.len() == 8 && "selected"@.len() == 8);
    assert("row_action"@.len() == 10 && "reorder_action"@.len() == 14 && "actions"@.len() == 7
        && "menu"@.len() == 4 && "rename"@.len() == 6);
    assert("status"@[0] == 's' && "rename"@[0] == 'r');
    assert("subtitle"@[1] == 'u' && "selected"@[1] == 'e');
}

/// Every note in which the search is found has its row in the sidebar.
pub proof fn found_notes_have_rows(
    p: PaneView,
    hits: Seq<(bool, nat)>,
    on_disk: Seq<bool>,
    i: int,
)
    requires
        0 <= i < p.store.notes.len(),
        panes::is_shown(panes::hits_at(hits, i)),
    ensures
        panes::notes_of(p, hits, on_disk).at("widgets"@).items().contains(
            panes::note_row(
                p,
                p.store.notes[i],
                panes::hits_at(hits, i).1,
                panes::flag_at(on_disk, i),
            ),
        ),
{
    let n = p.store.notes.len();
    let row = panes::note_row(
        p,
        p.store.notes[i],
        panes::hits_at(hits, i).1,
        panes::flag_at(on_disk, i),
    );
    rows_of_the_sidebar(p, hits, on_disk);
    widgets_of_the_sidebar(p, hits, on_disk, n);
    let rows = panes::note_widgets(p, hits, on_disk, n).items();
    let all = panes::notes_of(p, hits, on_disk).at("widgets"@).items();
    let k = choose|k: int| 0 <= k < rows.len() && rows[k] == row;
    assert(all[k] == rows[k]);
}

/// A search of nothing but spaces is found in every note.
pub proof fn empty_search_shows_every_note(p: PaneView, i: int)
    requires
        text::trimmed(p.search).len() == 0,
        0 <= i < p.store.notes.len(),
    ensures
        panes::is_shown(panes::hits_at(panes::searched(p), i)),
{
}

/// The stamp tells states apart: the same stamp means the same epoch, and a
/// conflict in both or in neither.
pub proof fn stamps_tell_states_apart(p: PaneView, q: PaneView)
    ensures
        server::stamp_of(p) == server::stamp_of(q) <==> p.store.epoch == q.store.epoch && (
        p.conflict is Some) == (q.conflict is Some),
{
    reveal_strlit(":");
    reveal_strlit("true");
    reveal_strlit("false");
    assert("true"@.len() == 4 && "false"@.len() == 5);
    let x = text::decimal(p.store.epoch as nat);
    let y = text::decimal(q.store.epoch as nat);
    text_laws::decimal_is_read_back(p.store.epoch as nat);
    text_laws::decimal_is_read_back(q.store.epoch as nat);
    assert(":"@ =~= seq![':']);
    text_laws::split_at(x, ':', server::word_of(p.conflict is Some));
    text_laws::split_at(y, ':', server::word_of(q.conflict is Some));
}

/// Every change moves the stamp.
pub proof fn change_moves_the_stamp(p: PaneView, s: store::StoreView)
    requires
        s.epoch == p.store.epoch,
    ensures
        server::stamp_of(p.with_store(s.touched())) != server::stamp_of(p),
        server::stamp_of(p.with_store(s.bumped())) != server::stamp_of(p),
{
    stamps_tell_states_apart(p.with_store(s.touched()), p);
    stamps_tell_states_apart(p.with_store(s.bumped()), p);
    assert(s.epoch.wrapping_add(1) != s.epoch);
}

/// The document changes only with the stamp: while the stamp stays, an action
/// leaves what the viewport shows.
pub proof fn document_changes_with_the_stamp(p: PaneView, body: JsonView, cwd: Option<Seq<char>>)
    requires
        p.store.is_sound(),
        server::stamp_of(p.handled(body, cwd).0) == server::stamp_of(p),
    ensures
        panes::document_of(p.handled(body, cwd).0.store) == panes::document_of(p.store),
{
    let s = p.absorbed(body).store;
    let t = p.handled(body, cwd).0.store;
    let order = body.at("values"@).at("order"@).item_texts();
    stamps_tell_states_apart(p.handled(body, cwd).0, p);
    first_step_of(p.absorbed(body), body, cwd);
    assert(s.epoch == p.store.epoch || s.epoch == p.store.epoch.wrapping_add(1));
    assert(t.epoch == s.epoch || t.epoch == s.epoch.wrapping_add(1));
    assert(s.epoch == p.store.epoch);
    assert(s == p.store);
    assert(t == s || t == s.reordered(order));
    store_laws::reorder_keeps_soundness(s, order);
    if let Some(id) = s.active_id {
        assert(s.reordered(order).note(id) == s.note(id));
    }
}

/// The document changes only with the stamp in the steps of an action too.
pub proof fn steps_change_the_document_with_the_stamp(
    p: PaneView,
    id: Seq<char>,
    then: actions::ThenView,
    file: store::DiskFileView,
    force: bool,
    disk: Option<FileStat>,
    written: Written,
    read: store::ReadBackView,
)
    ensures
        server::stamp_of(p.after_load(then, file)) == server::stamp_of(p) ==> panes::document_of(
            p.after_load(then, file).store,
        ) == panes::document_of(p.store),
        panes::document_of(p.after_check(id, force, disk).store) == panes::document_of(p.store),
        server::stamp_of(p.after_write(id, written)) == server::stamp_of(p) ==> panes::document_of(
            p.after_write(id, written).store,
        ) == panes::document_of(p.store),
        server::stamp_of(p.after_read(id, read)) == server::stamp_of(p) ==> panes::document_of(
            p.after_read(id, read).store,
        ) == panes::document_of(p.store),
{
    stamps_tell_states_apart(p.after_load(then, file), p);
    stamps_tell_states_apart(p.after_write(id, written), p);
    stamps_tell_states_apart(p.after_read(id, read), p);
    store::seek_finds(p.store.notes, id);
    if let Some(i) = store::seek(p.store.notes, id) {
        let note = p.store.notes[i];
        assert(p.store.notes.update(i, docs::NoteView { content: note.content, ..note })
            =~= p.store.notes);
    }
    assert(p.after_check(id, force, disk).store =~= p.store);
}

/// The document changes only with the stamp in the steps of a rename too.
pub proof fn rename_steps_change_the_document_with_the_stamp(
    p: PaneView,
    id: Seq<char>,
    name: Seq<char>,
    target: Seq<char>,
    old_exists: bool,
    target_exists: bool,
    moved: Moved,
)
    ensures
        ({
            let q = p.after_probe(id, name, target, old_exists, target_exists);
            server::stamp_of(q) == server::stamp_of(p) ==> panes::document_of(q.store)
                == panes::document_of(p.store)
        }),
        server::stamp_of(p.after_move(id, target, moved)) == server::stamp_of(p)
            ==> panes::document_of(p.after_move(id, target, moved).store) == panes::document_of(
            p.store,
        ),
{
    let q = p.after_probe(id, name, target, old_exists, target_exists);
    stamps_tell_states_apart(q, p);
    stamps_tell_states_apart(p.after_move(id, target, moved), p);
    assert(q.store == p.store || q.store.epoch == p.store.epoch.wrapping_add(1));
}

/// A new note takes a free path: the path that is loaded is the one that was asked
/// about, nothing stands there, and no note at that path is open.
pub proof fn new_note_takes_a_free_path(
    p: PaneView,
    turn: actions::Turn,
    cwd: Option<Seq<char>>,
    n: usize,
    exists: bool,
)
    ensures
        match p.untitled_step(turn, cwd, n, exists) {
            actions::StepView::Load { path, .. } => {
                &&& p.untitled_asked(turn, cwd, n) == (actions::StepView::Exists {
                    turn,
                    cwd,
                    n,
                    path,
                })
                &&& !exists
                &&& forall|i: int|
                    0 <= i < p.store.notes.len() ==> !paths::same_path(
                        (#[trigger] p.store.notes[i]).path,
                        path,
                    )
            },
            next => next == p.untitled_asked(turn, cwd, n.wrapping_add(1)),
        },
{
}

/// Whether there is an action of that name.
pub open spec fn is_action(name: Seq<char>) -> bool {
    ||| name == "draft"@
    ||| name == "switch"@
    ||| name == "rename"@
    ||| name == "rename_apply"@
    ||| name == "rename_cancel"@
    ||| name == "reorder_notes"@
    ||| name == "set_mode"@
    ||| name == "save"@
    ||| name == "overwrite"@
    ||| name == "reload"@
    ||| name == "close_active"@
    ||| name == "close_note"@
    ||| name == "search"@
    ||| name == "new_note"@
    ||| name == "toggle_open_input"@
    ||| name == "toggle_wrap"@
    ||| name == "open"@
    ||| name == "open_recent"@
}

/// An action that there is not is answered with a message, and does nothing but
/// take the draft up.
pub proof fn unknown_action_only_absorbs(p: PaneView, body: JsonView, cwd: Option<Seq<char>>)
    requires
        !is_action(actions::text_in(body, "action"@)),
    ensures
        p.handled(body, cwd).0 == p.absorbed(body),
        p.handled(body, cwd).1 == actions::toast(
            actions::turn_of(body),
            "Unknown action "@ + actions::text_in(body, "action"@),
        ),
{
}

} // verus!
