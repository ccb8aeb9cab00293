//! What each action of the panes comes to, step by step.

use crate::actions::{self, StepView, ThenView, Turn};
use crate::docs::{self, FileStat, ViewMode};
use crate::json::{self, JsonView};
use crate::note_laws;
use crate::panes::{self, PaneView};
use crate::paths;
use crate::store::{self, Moved, Written};
use crate::text;
use crate::text_laws;
use vstd::prelude::*;

verus! {

/// Whether two states of the panes agree in everything but the store.
pub open spec fn panes_alike(p: PaneView, q: PaneView) -> bool {
    &&& p.conflict == q.conflict
    &&& p.search == q.search
    &&& p.open_input == q.open_input
    &&& p.renaming == q.renaming
}

/// Whether an action is the one of a name.
pub open spec fn is_named(body: JsonView, name: Seq<char>) -> bool {
    body.at("action"@) == JsonView::Text(name)
}

/// The value that an action carries; empty where it carries none.
pub open spec fn value_of(body: JsonView) -> Seq<char> {
    match body.at("values"@).at("value"@) {
        JsonView::Text(value) => value,
        _ => seq![],
    }
}

/// The names of the actions are told apart.
proof fn names_differ()
    ensures
        "draft"@.len() == 5 && "switch"@.len() == 6 && "rename"@.len() == 6
            && "rename_apply"@.len() == 12 && "rename_cancel"@.len() == 13
            && "reorder_notes"@.len() == 13 && "set_mode"@.len() == 8 && "save"@.len() == 4
            && "overwrite"@.len() == 9 && "reload"@.len() == 6 && "close_active"@.len() == 12
            && "close_note"@.len() == 10 && "search"@.len() == 6 && "new_note"@.len() == 8
            && "toggle_open_input"@.len() == 17 && "toggle_wrap"@.len() == 11 && "open"@.len()
            == 4 && "open_recent"@.len() == 11,
        "switch"@ != "rename"@ && "switch"@ != "reload"@ && "switch"@ != "search"@ && "rename"@
            != "reload"@ && "rename"@ != "search"@ && "reload"@ != "search"@,
        "rename_apply"@ != "close_active"@ && "rename_cancel"@ != "reorder_notes"@ && "set_mode"@
            != "new_note"@ && "save"@ != "open"@ && "toggle_wrap"@ != "open_recent"@,
{
    reveal_strlit("draft");
    reveal_strlit("switch");
    reveal_strlit("rename");
    reveal_strlit("rename_apply");
    reveal_strlit("rename_cancel");
    reveal_strlit("reorder_notes");
    reveal_strlit("set_mode");
    reveal_strlit("save");
    reveal_strlit("overwrite");
    reveal_strlit("reload");
    reveal_strlit("close_active");
    reveal_strlit("close_note");
    reveal_strlit("search");
    reveal_strlit("new_note");
    reveal_strlit("toggle_open_input");
    reveal_strlit("toggle_wrap");
    reveal_strlit("open");
    reveal_strlit("open_recent");
    assert("switch"@[2] == 'i' && "rename"@[2] == 'n' && "reload"@[2] == 'l' && "search"@[2]
        == 'a');
    assert("rename_apply"@[0] == 'r' && "close_active"@[0] == 'c');
    assert("rename_cancel"@[2] == 'n' && "reorder_notes"@[2] == 'o');
    assert("set_mode"@[0] == 's' && "new_note"@[0] == 'n');
    assert("save"@[0] == 's' && "open"@[0] == 'o');
    assert("toggle_wrap"@[0] == 't' && "open_recent"@[0] == 'o');
}

/// The text of a member is the text that stands under the key; where none stands
/// there, it is empty.
pub proof fn member_text_is_that_under_the_key(value: JsonView, key: Seq<char>, t: Seq<char>)
    ensures
        value.at(key) == JsonView::Text(t) ==> actions::text_in(value, key) == t,
        !(value.at(key) is Text) ==> actions::text_in(value, key).len() == 0,
{
}

/// An action comes from the sidebar if it says so, and then the document is fetched
/// again, unless it is a search.
pub proof fn turn_tells_the_pane(body: JsonView)
    ensures
        actions::turn_of(body).notes_pane <==> body.at("pane"@) == JsonView::Text("notes"@),
        actions::turn_of(body).refetch <==> body.at("pane"@) == JsonView::Text("notes"@)
            && !is_named(body, "search"@),
{
    reveal_strlit("search");
    assert("search"@.len() == 6);
}

/// The draft of an editor goes, in full, into the open note that it names; one that
/// names none goes into the active note; and else nothing changes.
pub proof fn draft_goes_into_its_note(p: PaneView, body: JsonView)
    ensures
        ({
            let q = p.absorbed(body);
            &&& panes_alike(p, q)
            &&& body.at("values"@).at("editor"@) matches JsonView::Text(draft) ==> {
                let named = match body.at("value_keys"@).at("editor"@) {
                    JsonView::Text(id) => Some(id),
                    _ => p.store.active_id,
                };
                match named {
                    Some(id) => if p.store.has(id) {
                        q.store == p.store.edited(id, draft)
                    } else {
                        q == p
                    },
                    None => q == p,
                }
            }
            &&& !(body.at("values"@).at("editor"@) is Text) ==> q == p
        }),
{
}

/// A draft changes nothing but the note it goes into; whatever else an action does,
/// it does after that.
pub proof fn draft_does_nothing_else(p: PaneView, body: JsonView, cwd: Option<Seq<char>>)
    requires
        is_named(body, "draft"@),
    ensures
        p.handled(body, cwd).0 == p.absorbed(body),
        p.handled(body, cwd).1 == (StepView::Done { turn: actions::turn_of(body), toast: None }),
{
}

/// A switch makes an open note active, and ends a conflict and a renaming; a switch
/// to a note that is not open does nothing.
pub proof fn switch_makes_the_note_active(p: PaneView, body: JsonView, cwd: Option<Seq<char>>)
    requires
        is_named(body, "switch"@),
    ensures
        ({
            let a = p.absorbed(body);
            let (q, step) = p.handled(body, cwd);
            &&& step == (StepView::Done { turn: actions::turn_of(body), toast: None })
            &&& a.store.has(value_of(body)) ==> {
                &&& q.store.active_id == Some(value_of(body))
                &&& q.store.notes == a.store.notes
                &&& q.store.recent == a.store.recent
                &&& q.store.set_as(a.store)
                &&& q.store.epoch == a.store.epoch.wrapping_add(1)
                &&& q.store.outbox == a.store.outbox + q.store.kept_session()
                &&& q.conflict is None
                &&& q.renaming is None
                &&& q.search == a.search
                &&& q.open_input == a.open_input
            }
            &&& !a.store.has(value_of(body)) ==> q == a
        }),
{
    names_differ();
    let a = p.absorbed(body);
    let s = a.store.focused(value_of(body));
    note_laws::touch_only_hands_out(s);
    assert(s.touched().session() == s.session());
}

/// A renaming starts in the row of an open note, and ends with a cancel; neither
/// changes anything else.
pub proof fn renaming_starts_and_ends(p: PaneView, body: JsonView, cwd: Option<Seq<char>>)
    requires
        is_named(body, "rename"@) || is_named(body, "rename_cancel"@),
    ensures
        ({
            let a = p.absorbed(body);
            let (q, step) = p.handled(body, cwd);
            &&& step == (StepView::Done { turn: actions::turn_of(body), toast: None })
            &&& q.store == a.store
            &&& q.conflict == a.conflict
            &&& q.search == a.search
            &&& q.open_input == a.open_input
            &&& q.renaming == (if is_named(body, "rename_cancel"@) {
                None
            } else if a.store.has(value_of(body)) {
                Some(value_of(body))
            } else {
                a.renaming
            })
        }),
{
    names_differ();
}

/// A rename needs a name, which is taken from the field of its note without the
/// spaces around it; the state stays until the disk was asked.
pub proof fn rename_takes_the_name_of_its_field(
    p: PaneView,
    body: JsonView,
    cwd: Option<Seq<char>>,
)
    requires
        is_named(body, "rename_apply"@),
    ensures
        ({
            let a = p.absorbed(body);
            let (q, step) = p.handled(body, cwd);
            let turn = actions::turn_of(body);
            &&& q == a
            &&& a.renaming is None ==> step == (StepView::Done { turn, toast: None })
            &&& a.renaming matches Some(id) ==> {
                let typed = match body.at("values"@).at("rename:"@ + id) {
                    JsonView::Text(t) => t,
                    _ => seq![],
                };
                let name = text::trimmed(typed);
                if name.len() == 0 {
                    step == (StepView::Done { turn, toast: Some("Enter a name"@) })
                } else {
                    match (a.store.rename_target(id, name, cwd), a.store.note(id)) {
                        (Ok(store::TargetView::Path(target)), Some(note)) => step == (
                        StepView::Probe { turn, id, name, old: note.path, target }),
                        (Ok(store::TargetView::Resolve(path)), Some(_)) => step == (
                        StepView::Canonical { turn, id, name, path }),
                        (Err(why), _) => step == (StepView::Done {
                            turn,
                            toast: Some("Rename failed: "@ + why),
                        }),
                        (Ok(_), None) => false,
                    }
                }
            }
        }),
{
    names_differ();
}

/// A path that was made canonical is asked about together with the path of the note.
pub proof fn rename_asks_about_both_paths(
    p: PaneView,
    turn: Turn,
    id: Seq<char>,
    name: Seq<char>,
    target: Seq<char>,
)
    ensures
        p.rename_probing(turn, id, name, target) == (match p.store.note(id) {
            Some(note) => StepView::Probe { turn, id, name, old: note.path, target },
            None => StepView::Done { turn, toast: Some("Rename failed: unknown note "@ + id) },
        }),
{
    reveal_strlit("Rename failed: unknown note ");
    reveal_strlit("Rename failed: ");
    reveal_strlit("unknown note ");
    assert("Rename failed: "@ + ("unknown note "@ + id) =~= "Rename failed: unknown note "@ + id);
}

/// A reorder arranges the notes by the ids of its order, and hands the session out
/// if that changed anything.
pub proof fn reorder_arranges_by_the_order(p: PaneView, body: JsonView, cwd: Option<Seq<char>>)
    requires
        is_named(body, "reorder_notes"@),
    ensures
        ({
            let a = p.absorbed(body);
            let (q, step) = p.handled(body, cwd);
            let order = body.at("values"@).at("order"@).item_texts();
            &&& step == (StepView::Done { turn: actions::turn_of(body), toast: None })
            &&& panes_alike(a, q)
            &&& q.store.notes == store::arranged(a.store.notes, order)
            &&& q.store.active_id == a.store.active_id
            &&& q.store.recent == a.store.recent
            &&& q.store.set_as(a.store)
            &&& if store::note_ids(q.store.notes) == store::note_ids(a.store.notes) {
                q.store.epoch == a.store.epoch && q.store.outbox == a.store.outbox
            } else {
                q.store.epoch == a.store.epoch.wrapping_add(1) && q.store.outbox == a.store.outbox
                    + q.store.kept_session()
            }
        }),
{
    names_differ();
    let a = p.absorbed(body);
    let s = a.store.reordered(body.at("values"@).at("order"@).item_texts());
    note_laws::touch_only_hands_out(s);
    assert(s.touched().session() == s.session());
}

/// The mode becomes the one of the three that is named, and stays at any other name.
pub proof fn mode_becomes_the_named_one(p: PaneView, body: JsonView, cwd: Option<Seq<char>>)
    requires
        is_named(body, "set_mode"@),
    ensures
        ({
            let a = p.absorbed(body);
            let (q, step) = p.handled(body, cwd);
            let value = value_of(body);
            &&& step == (StepView::Done { turn: actions::turn_of(body), toast: None })
            &&& panes_alike(a, q)
            &&& q.store.notes == a.store.notes
            &&& q.store.active_id == a.store.active_id
            &&& q.store.recent == a.store.recent
            &&& q.store.word_wrap == a.store.word_wrap
            &&& q.store.home == a.store.home
            &&& q.store.has_db == a.store.has_db
            &&& value == "markdown"@ ==> q.store.view_mode == ViewMode::Markdown
            &&& value == "split"@ ==> q.store.view_mode == ViewMode::Split
            &&& value == "text"@ ==> q.store.view_mode == ViewMode::Text
            &&& if value == "markdown"@ || value == "split"@ || value == "text"@ {
                q.store.epoch == a.store.epoch.wrapping_add(1) && q.store.outbox == a.store.outbox
                    + q.store.kept_session()
            } else {
                q == a
            }
        }),
{
    names_differ();
    reveal_strlit("markdown");
    reveal_strlit("split");
    reveal_strlit("text");
    assert("markdown"@.len() == 8 && "split"@.len() == 5 && "text"@.len() == 4);
    let a = p.absorbed(body);
    if let Some(mode) = docs::mode_named(value_of(body)) {
        let s = store::StoreView { view_mode: mode, ..a.store };
        note_laws::touch_only_hands_out(s);
        assert(s.touched().session() == s.session());
    }
}

/// Long lines are wrapped from when the toggle says so until it says otherwise.
pub proof fn wrap_becomes_what_the_toggle_says(
    p: PaneView,
    body: JsonView,
    cwd: Option<Seq<char>>,
)
    requires
        is_named(body, "toggle_wrap"@),
    ensures
        ({
            let a = p.absorbed(body);
            let (q, step) = p.handled(body, cwd);
            &&& step == (StepView::Done { turn: actions::turn_of(body), toast: None })
            &&& panes_alike(a, q)
            &&& q.store.word_wrap <==> body.at("values"@).at("value"@) == JsonView::Text("true"@)
            &&& q.store.notes == a.store.notes
            &&& q.store.active_id == a.store.active_id
            &&& q.store.recent == a.store.recent
            &&& q.store.view_mode == a.store.view_mode
            &&& q.store.home == a.store.home
            &&& q.store.has_db == a.store.has_db
            &&& q.store.epoch == a.store.epoch.wrapping_add(1)
            &&& q.store.outbox == a.store.outbox + q.store.kept_session()
        }),
{
    names_differ();
    reveal_strlit("true");
    assert("true"@.len() == 4);
    let a = p.absorbed(body);
    let s = store::StoreView { word_wrap: value_of(body) == "true"@, ..a.store };
    note_laws::touch_only_hands_out(s);
    assert(s.touched().session() == s.session());
}

/// A save looks at the file of the active note, an overwrite too; a reload reads it.
/// Without an active note there is nothing to do.
pub proof fn save_and_reload_go_to_the_active_note(
    p: PaneView,
    body: JsonView,
    cwd: Option<Seq<char>>,
)
    requires
        is_named(body, "save"@) || is_named(body, "overwrite"@) || is_named(body, "reload"@),
    ensures
        ({
            let a = p.absorbed(body);
            let (q, step) = p.handled(body, cwd);
            let turn = actions::turn_of(body);
            &&& q == a
            &&& a.store.active_id is None ==> step == (StepView::Done { turn, toast: None })
            &&& a.store.active_id matches Some(id) ==> match a.store.note(id) {
                Some(note) => if is_named(body, "reload"@) {
                    step == (StepView::Read { turn, id, path: note.path })
                } else {
                    step == (StepView::Stat {
                        turn,
                        id,
                        force: is_named(body, "overwrite"@),
                        path: note.path,
                    })
                },
                None => step == (StepView::Done {
                    turn,
                    toast: Some(
                        if is_named(body, "reload"@) {
                            "Reload failed: "@
                        } else {
                            "Save failed: "@
                        } + ("unknown note "@ + id),
                    ),
                }),
            }
        }),
{
    names_differ();
}

/// Closing the active note, or the note of a row, closes that note and ends a
/// conflict. A renaming of the note ends with it; closing the active note ends any.
pub proof fn close_closes_the_note(p: PaneView, body: JsonView, cwd: Option<Seq<char>>)
    requires
        is_named(body, "close_active"@) || is_named(body, "close_note"@),
    ensures
        ({
            let a = p.absorbed(body);
            let (q, step) = p.handled(body, cwd);
            let closing = if is_named(body, "close_active"@) {
                a.store.active_id
            } else if a.store.has(value_of(body)) {
                Some(value_of(body))
            } else {
                None
            };
            &&& step == (StepView::Done { turn: actions::turn_of(body), toast: None })
            &&& closing is None ==> q == a
            &&& closing matches Some(id) ==> {
                &&& q.store == a.store.closed(id)
                &&& q.conflict is None
                &&& q.search == a.search
                &&& q.open_input == a.open_input
                &&& q.renaming == (if is_named(body, "close_active"@) || a.renaming == Some(id) {
                    None
                } else {
                    a.renaming
                })
            }
        }),
{
    names_differ();
}

/// A search takes the text of its field, without the spaces around it, and leaves
/// the notes.
pub proof fn search_takes_its_text(p: PaneView, body: JsonView, cwd: Option<Seq<char>>)
    requires
        is_named(body, "search"@),
    ensures
        ({
            let a = p.absorbed(body);
            let (q, step) = p.handled(body, cwd);
            &&& step == (StepView::Done { turn: actions::turn_of(body), toast: None })
            &&& q.store == a.store
            &&& q.conflict == a.conflict
            &&& q.open_input == a.open_input
            &&& q.renaming == a.renaming
            &&& q.search == text::trimmed(
                match body.at("values"@).at("search"@) {
                    JsonView::Text(t) => t,
                    _ => seq![],
                },
            )
        }),
{
    names_differ();
}

/// The field for a path is shown and hidden in turn.
pub proof fn open_field_comes_and_goes(p: PaneView, body: JsonView, cwd: Option<Seq<char>>)
    requires
        is_named(body, "toggle_open_input"@),
    ensures
        ({
            let a = p.absorbed(body);
            let (q, step) = p.handled(body, cwd);
            &&& step == (StepView::Done { turn: actions::turn_of(body), toast: None })
            &&& q.store == a.store
            &&& q.conflict == a.conflict
            &&& q.search == a.search
            &&& q.renaming == a.renaming
            &&& q.open_input == !a.open_input
        }),
{
    names_differ();
}

/// The path of the open field is read from the home directory and loaded; an empty
/// one is refused.
pub proof fn open_loads_the_path_of_its_field(p: PaneView, body: JsonView, cwd: Option<Seq<char>>)
    requires
        is_named(body, "open"@),
    ensures
        ({
            let a = p.absorbed(body);
            let (q, step) = p.handled(body, cwd);
            let turn = actions::turn_of(body);
            let typed = text::trimmed(
                match body.at("values"@).at("open_path"@) {
                    JsonView::Text(t) => t,
                    _ => seq![],
                },
            );
            &&& q == a
            &&& if typed.len() == 0 {
                step == (StepView::Done { turn, toast: Some("Enter a path to open"@) })
            } else {
                step == (StepView::Load {
                    turn,
                    then: ThenView::Path,
                    path: store::resolved(a.store.home, cwd, typed),
                })
            }
        }),
{
    names_differ();
}

/// A recent file is loaded by the id of its row: the first of the recent paths that
/// has it. An id that none has does nothing.
pub proof fn recent_file_is_loaded_by_its_row(
    p: PaneView,
    body: JsonView,
    cwd: Option<Seq<char>>,
)
    requires
        is_named(body, "open_recent"@),
    ensures
        ({
            let a = p.absorbed(body);
            let (q, step) = p.handled(body, cwd);
            let turn = actions::turn_of(body);
            let recent = a.store.recent;
            let id = value_of(body);
            &&& q == a
            &&& forall|k: int|
                0 <= k < recent.len() && #[trigger] is_row(recent, k, id) && (forall|j: int|
                    0 <= j < k ==> !#[trigger] is_row(recent, j, id)) ==> step == (StepView::Load {
                    turn,
                    then: ThenView::Recent,
                    path: store::resolved(a.store.home, cwd, recent[k]),
                })
            &&& (forall|k: int| 0 <= k < recent.len() ==> !#[trigger] is_row(recent, k, id))
                ==> step == (StepView::Done { turn, toast: None })
        }),
{
    names_differ();
    let a = p.absorbed(body);
    let recent = a.store.recent;
    let id = value_of(body);
    first_of_the_rows(recent, id);
    assert forall|k: int|
        0 <= k < recent.len() && #[trigger] is_row(recent, k, id) && (forall|j: int|
            0 <= j < k ==> !#[trigger] is_row(
                recent,
                j,
                id,
            )) implies p.handled(body, cwd).1 == (StepView::Load {
        turn: actions::turn_of(body),
        then: ThenView::Recent,
        path: store::resolved(a.store.home, cwd, recent[k]),
    }) by {
        let path = actions::recent_with(recent, id)->0;
        let m = choose|m: int|
            0 <= m < recent.len() && recent[m] == path && #[trigger] is_row(recent, m, id) && (
            forall|j: int| 0 <= j < m ==> !#[trigger] is_row(recent, j, id));
        assert(m == k);
    }
}

/// Whether the recent path at a position has a row of that id.
pub open spec fn is_row(recent: Seq<Seq<char>>, k: int, id: Seq<char>) -> bool {
    "recent-"@ + docs::id_of(recent[k]) == id
}

proof fn first_of_the_rows(recent: Seq<Seq<char>>, id: Seq<char>)
    ensures
        match actions::recent_with(recent, id) {
            Some(path) => exists|m: int|
                0 <= m < recent.len() && recent[m] == path && #[trigger] is_row(recent, m, id) && (
                forall|j: int| 0 <= j < m ==> !#[trigger] is_row(recent, j, id)),
            None => forall|k: int| 0 <= k < recent.len() ==> !#[trigger] is_row(recent, k, id),
        },
    decreases recent.len(),
{
    if recent.len() > 0 {
        if panes::recent_id(recent[0]) == id {
            assert(is_row(recent, 0, id));
        } else {
            let rest = recent.skip(1);
            first_of_the_rows(rest, id);
            assert(!is_row(recent, 0, id));
            match actions::recent_with(rest, id) {
                Some(path) => {
                    let m = choose|m: int|
                        0 <= m < rest.len() && rest[m] == path && #[trigger] is_row(rest, m, id)
                            && (forall|j: int| 0 <= j < m ==> !#[trigger] is_row(rest, j, id));
                    assert(recent[m + 1] == path && is_row(recent, m + 1, id));
                    assert forall|j: int| 0 <= j < m + 1 implies !#[trigger] is_row(
                        recent,
                        j,
                        id,
                    ) by {
                        if j > 0 {
                            assert(!is_row(rest, j - 1, id));
                        }
                    }
                },
                None => {
                    assert forall|k: int| 0 <= k < recent.len() implies !#[trigger] is_row(
                        recent,
                        k,
                        id,
                    ) by {
                        if k > 0 {
                            assert(!is_row(rest, k - 1, id));
                        }
                    }
                },
            }
        }
    }
}

/// A new note is tried at the first untitled path of the working directory.
pub proof fn new_note_is_untitled(p: PaneView, body: JsonView, cwd: Option<Seq<char>>)
    requires
        is_named(body, "new_note"@),
    ensures
        ({
            let a = p.absorbed(body);
            let (q, step) = p.handled(body, cwd);
            &&& q == a
            &&& step == (StepView::Exists {
                turn: actions::turn_of(body),
                cwd,
                n: 1,
                path: store::resolved(a.store.home, cwd, actions::untitled(cwd, 1)),
            })
        }),
{
    names_differ();
}

/// A new note takes the path that was asked about, if it is free on disk and among
/// the notes, and is told by its name in the working directory; else the path of
/// the next number is asked about.
pub proof fn new_note_counts_on(
    p: PaneView,
    turn: Turn,
    cwd: Option<Seq<char>>,
    n: usize,
    found: bool,
)
    requires
        n < usize::MAX,
    ensures
        ({
            let step = p.untitled_step(turn, cwd, n, found);
            let path = store::resolved(p.store.home, cwd, actions::untitled(cwd, n));
            let taken = found || exists|i: int|
                0 <= i < p.store.notes.len() && paths::same_path(
                    (#[trigger] p.store.notes[i]).path,
                    path,
                );
            if taken {
                step == (StepView::Exists {
                    turn,
                    cwd,
                    n: (n + 1) as usize,
                    path: store::resolved(
                        p.store.home,
                        cwd,
                        actions::untitled(cwd, (n + 1) as usize),
                    ),
                })
            } else {
                step == (StepView::Load {
                    turn,
                    then: ThenView::Untitled { path: actions::untitled(cwd, n) },
                    path,
                })
            }
        }),
{
}

/// The untitled path of a number is the file `untitled-<number>.md` in the working
/// directory, and the numbers tell the paths apart.
pub proof fn untitled_paths_are_told_apart(cwd: Option<Seq<char>>, n: usize, m: usize)
    ensures
        paths::components(actions::untitled(cwd, n)) == paths::components(
            match cwd {
                Some(dir) => dir,
                None => "."@,
            },
        ).push("untitled-"@ + text::decimal(n as nat) + ".md"@),
        n != m ==> actions::untitled(cwd, n) != actions::untitled(cwd, m),
{
    let dir = match cwd {
        Some(dir) => dir,
        None => "."@,
    };
    untitled_is_bare(n);
    untitled_is_bare(m);
    let a = "untitled-"@ + text::decimal(n as nat) + ".md"@;
    let b = "untitled-"@ + text::decimal(m as nat) + ".md"@;
    paths::joined_components(dir, a);
    paths::joined_components(dir, b);
    if n != m {
        text_laws::decimal_is_read_back(n as nat);
        text_laws::decimal_is_read_back(m as nat);
        reveal_strlit("untitled-");
        reveal_strlit(".md");
        let x = text::decimal(n as nat);
        let y = text::decimal(m as nat);
        if a == b {
            assert(x =~= a.subrange(9, a.len() - 3));
            assert(y =~= b.subrange(9, b.len() - 3));
        }
        assert(a != b);
        assert(paths::components(actions::untitled(cwd, n)).last() == a);
        assert(paths::components(actions::untitled(cwd, m)).last() == b);
    }
}

proof fn untitled_is_bare(n: usize)
    ensures
        paths::is_bare("untitled-"@ + text::decimal(n as nat) + ".md"@),
{
    let d = text::decimal(n as nat);
    let a = "untitled-"@ + d + ".md"@;
    text_laws::decimal_is_read_back(n as nat);
    reveal_strlit("untitled-");
    reveal_strlit(".md");
    assert forall|i: int| 0 <= i < a.len() implies a[i] != '/' by {
        if 9 <= i < 9 + d.len() {
            assert(a[i] == d[i - 9]);
        } else if i >= 9 + d.len() {
            assert(a[i] == ".md"@[i - 9 - d.len()]);
        } else {
            assert(a[i] == "untitled-"@[i]);
        }
    }
    assert(a.len() > 2);
}

/// A file that was loaded is opened. A path from the open field closes the field, a
/// new note ends a renaming, and nothing else changes.
pub proof fn load_opens_the_file(
    p: PaneView,
    turn: Turn,
    then: ThenView,
    file: store::DiskFileView,
)
    ensures
        ({
            let q = p.after_load(then, file);
            let step = p.load_step(turn, then, file);
            &&& q.store == p.store.opened(file)
            &&& q.conflict == p.conflict
            &&& q.search == p.search
            &&& match p.store.open_result(file) {
                Ok(_) => {
                    &&& q.open_input == (p.open_input && then != ThenView::Path)
                    &&& then is Untitled ==> q.renaming is None
                    &&& !(then is Untitled) ==> q.renaming == p.renaming
                    &&& then matches ThenView::Untitled { path } ==> step == (StepView::Done {
                        turn,
                        toast: Some("New note "@ + path + " (created on save)"@),
                    })
                    &&& !(then is Untitled) ==> step == (StepView::Done { turn, toast: None })
                },
                Err(why) => {
                    &&& q.open_input == p.open_input
                    &&& q.renaming == p.renaming
                    &&& then is Untitled ==> step == (StepView::Done {
                        turn,
                        toast: Some("New note failed: "@ + why),
                    })
                    &&& !(then is Untitled) ==> step == (StepView::Done {
                        turn,
                        toast: Some("Open failed: "@ + why),
                    })
                },
            }
        }),
{
}

/// What a save writes is the whole buffer of its note, to the path of the note,
/// below the directory of that path; and it writes if it is forced or if the file
/// is as the note knows it. Otherwise it writes nothing, and the note is named in
/// the conflict. No save changes a note before its file was written.
pub proof fn save_writes_the_whole_buffer(
    p: PaneView,
    turn: Turn,
    id: Seq<char>,
    force: bool,
    disk: Option<FileStat>,
)
    ensures
        ({
            let q = p.after_check(id, force, disk);
            let step = p.check_step(turn, id, force, disk);
            &&& q.store == p.store
            &&& q.search == p.search
            &&& q.open_input == p.open_input
            &&& q.renaming == p.renaming
            &&& match p.store.note(id) {
                Some(note) => if force || note.revision == docs::revision_of(disk) {
                    &&& step == (StepView::Write {
                        turn,
                        id,
                        parent: paths::parent(note.path),
                        path: note.path,
                        content: note.content,
                    })
                    &&& q.conflict == p.conflict
                } else {
                    &&& step == (StepView::Done { turn, toast: None })
                    &&& q.conflict == Some(docs::shown_name(note.path))
                },
                None => {
                    &&& step == (StepView::Done {
                        turn,
                        toast: Some("Save failed: unknown note "@ + id),
                    })
                    &&& q.conflict == p.conflict
                },
            }
        }),
{
    let q = p.after_check(id, force, disk);
    store::seek_finds(p.store.notes, id);
    if let Some(i) = store::seek(p.store.notes, id) {
        let note = p.store.notes[i];
        assert(p.store.notes.update(i, docs::NoteView { content: note.content, ..note })
            =~= p.store.notes);
        assert(q.store =~= p.store);
    }
    reveal_strlit("Save failed: unknown note ");
    reveal_strlit("Save failed: ");
    reveal_strlit("unknown note ");
    assert("Save failed: "@ + ("unknown note "@ + id) =~= "Save failed: unknown note "@ + id);
}

/// A save that was written is told so and ends the conflict; one that failed tells
/// why and leaves the conflict.
pub proof fn save_tells_how_it_went(p: PaneView, turn: Turn, id: Seq<char>, written: Written)
    ensures
        ({
            let q = p.after_write(id, written);
            let step = p.write_step(turn, id, written);
            &&& q.store == p.store.saved(id, written)
            &&& q.search == p.search
            &&& q.open_input == p.open_input
            &&& q.renaming == p.renaming
            &&& p.store.has(id) && written is Written ==> {
                &&& step == (StepView::Done { turn, toast: Some("Saved"@) })
                &&& q.conflict is None
            }
            &&& !(p.store.has(id) && written is Written) ==> {
                &&& p.store.save_result(id, written) matches Err(why) && step == (StepView::Done {
                    turn,
                    toast: Some("Save failed: "@ + why),
                })
                &&& q == p
            }
        }),
{
}

/// A reload that was read is told so and ends the conflict; one that failed tells
/// why and leaves the conflict.
pub proof fn reload_tells_how_it_went(
    p: PaneView,
    turn: Turn,
    id: Seq<char>,
    read: store::ReadBackView,
)
    ensures
        ({
            let q = p.after_read(id, read);
            let step = p.read_step(turn, id, read);
            &&& q.store == p.store.reloaded(id, read)
            &&& q.search == p.search
            &&& q.open_input == p.open_input
            &&& q.renaming == p.renaming
            &&& p.store.has(id) && read is Text ==> {
                &&& step == (StepView::Done { turn, toast: Some("Reloaded from disk"@) })
                &&& q.conflict is None
            }
            &&& !(p.store.has(id) && read is Text) ==> {
                &&& p.store.reload_result(id, read) matches Err(why) && step == (StepView::Done {
                    turn,
                    toast: Some("Reload failed: "@ + why),
                })
                &&& q == p
            }
        }),
{
}

/// A rename of a note with a file, to another path that is free on disk and among
/// the notes, moves the file there, and the note stays until that is done. One that
/// is over at once, and only such a one, ends the renaming and the conflict. One
/// that is refused tells why and changes nothing.
pub proof fn rename_tells_how_it_went(
    p: PaneView,
    turn: Turn,
    id: Seq<char>,
    name: Seq<char>,
    target: Seq<char>,
    old_exists: bool,
    target_exists: bool,
)
    ensures
        ({
            let q = p.after_probe(id, name, target, old_exists, target_exists);
            let step = p.probe_step(turn, id, name, target, old_exists, target_exists);
            &&& q.search == p.search
            &&& q.open_input == p.open_input
            &&& match p.store.note(id) {
                Some(note) => if paths::same_path(target, note.path) {
                    &&& step == (StepView::Done { turn, toast: Some("Renamed to "@ + name) })
                    &&& q.store == p.store
                    &&& q.renaming is None
                    &&& q.conflict is None
                } else if p.store.has(docs::id_of(target)) || (old_exists && target_exists) {
                    &&& q == p
                    &&& p.store.rename_step(id, name, target, old_exists, target_exists) matches Err(
                        why,
                    ) && step == (StepView::Done { turn, toast: Some("Rename failed: "@ + why) })
                } else if old_exists {
                    &&& q == p
                    &&& step == (StepView::Move {
                        turn,
                        id,
                        name,
                        parent: paths::parent(target),
                        from: note.path,
                        to: target,
                    })
                } else {
                    &&& step == (StepView::Done { turn, toast: Some("Renamed to "@ + name) })
                    &&& q.store == p.store.renamed(id, target, Moved::Moved)
                    &&& q.renaming is None
                    &&& q.conflict is None
                },
                None => {
                    &&& q == p
                    &&& step == (StepView::Done {
                        turn,
                        toast: Some("Rename failed: "@ + ("unknown note "@ + id)),
                    })
                },
            }
        }),
{
    note_laws::rename_moves_the_file_or_the_note(
        p.store,
        id,
        name,
        target,
        old_exists,
        target_exists,
    );
}

/// A file that was moved ends the renaming and the conflict; one that was not tells
/// why and changes nothing.
pub proof fn move_tells_how_it_went(
    p: PaneView,
    turn: Turn,
    id: Seq<char>,
    name: Seq<char>,
    target: Seq<char>,
    moved: Moved,
)
    ensures
        ({
            let q = p.after_move(id, target, moved);
            let step = p.move_step(turn, id, name, target, moved);
            &&& q.search == p.search
            &&& q.open_input == p.open_input
            &&& p.store.has(id) && moved is Moved ==> {
                &&& step == (StepView::Done { turn, toast: Some("Renamed to "@ + name) })
                &&& q.store == p.store.renamed(id, target, moved)
                &&& q.renaming is None
                &&& q.conflict is None
            }
            &&& !(p.store.has(id) && moved is Moved) ==> {
                &&& q == p
                &&& p.store.rename_result(id, target, moved) matches Err(why) && step == (
                StepView::Done { turn, toast: Some("Rename failed: "@ + why) })
            }
        }),
{
}

/// The answer shows the pane that posted the action, says whether the document is to
/// be fetched again, and carries the message, if there is one.
pub proof fn answer_shows_the_posting_pane(
    p: PaneView,
    turn: Turn,
    toast: Option<Seq<char>>,
    on_disk: Seq<bool>,
)
    ensures
        ({
            let answer = actions::answer_of(p, turn, toast, on_disk);
            &&& turn.notes_pane ==> answer.at("schema"@) == panes::notes_of(
                p,
                panes::searched(p),
                on_disk,
            )
            &&& !turn.notes_pane ==> answer.at("schema"@) == panes::document_of(p.store)
            &&& answer.at("refetch_document"@) == (if turn.refetch {
                JsonView::Bool(true)
            } else {
                JsonView::Null
            })
            &&& answer.at("toast"@) == (match toast {
                Some(line) => JsonView::Text(line),
                None => JsonView::Null,
            })
        }),
{
    broadcast use json::object_holds, json::with_at;

    reveal_strlit("schema");
    reveal_strlit("refetch_document");
    reveal_strlit("toast");
    assert("schema"@.len() == 6 && "refetch_document"@.len() == 16 && "toast"@.len() == 5);
}

} // verus!
