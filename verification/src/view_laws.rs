//! What the panes show of a state, widget by widget.

use crate::docs::{self, ViewMode};
use crate::json::{self, JsonView};
use crate::panes::{self, PaneView};
use crate::paths;
use crate::search;
use crate::store;
use crate::text;
use crate::text_laws;
use vstd::prelude::*;

verus! {

/// Whether a widget is of a kind and has an id.
pub open spec fn is_widget(widget: JsonView, kind: Seq<char>, id: Seq<char>) -> bool {
    widget.at("kind"@) == JsonView::Text(kind) && widget.at("id"@) == JsonView::Text(id)
}

/// Whether a widget offers an action.
pub open spec fn offers(widget: JsonView, action: Seq<char>) -> bool {
    widget.at("action"@) == JsonView::Text(action)
}

/// Whether a widget offers an action under a label and with a title.
pub open spec fn offers_as(
    widget: JsonView,
    action: Seq<char>,
    label: Seq<char>,
    title: Seq<char>,
) -> bool {
    &&& offers(widget, action)
    &&& widget.at("label"@) == JsonView::Text(label)
    &&& widget.at("title"@) == JsonView::Text(title)
}

/// Whether a widget is the editor of a note: it holds the whole buffer and names the
/// note.
pub open spec fn edits(widget: JsonView, note: docs::NoteView, wrap: bool) -> bool {
    &&& is_widget(widget, "text-input"@, "editor"@)
    &&& widget.at("value"@) == JsonView::Text(note.content)
    &&& widget.at("value_key"@) == JsonView::Text(note.id)
    &&& widget.at("word_wrap"@) == JsonView::Bool(wrap)
    &&& widget.at("multiline"@) == JsonView::Bool(true)
    &&& widget.at("line_numbers"@) == JsonView::Bool(true)
}

/// Whether a widget renders a note: its source is the whole buffer.
pub open spec fn renders(widget: JsonView, note: docs::NoteView) -> bool {
    &&& is_widget(widget, "markdown"@, "body"@)
    &&& widget.at("source"@) == JsonView::Text(note.content)
}

/// Whether a widget is the row of a recent file.
pub open spec fn recalls(widget: JsonView, path: Seq<char>) -> bool {
    &&& is_widget(widget, "list-row"@, "recent-"@ + docs::id_of(path))
    &&& widget.at("title"@) == JsonView::Text(docs::shown_name(path))
    &&& widget.at("subtitle"@) == JsonView::Text(path)
    &&& widget.at("actions"@).items().len() == 1
    &&& offers_as(widget.at("actions"@).items()[0], "open_recent"@, "⤢"@, "Open this file"@)
}

proof fn editor_edits(note: docs::NoteView, wrap: bool)
    ensures
        edits(panes::editor_widget(note, wrap), note, wrap),
{
    broadcast use json::object_holds, json::with_at;

    reveal_strlit("kind");
    reveal_strlit("id");
    reveal_strlit("multiline");
    reveal_strlit("line_numbers");
    reveal_strlit("word_wrap");
    reveal_strlit("value");
    reveal_strlit("value_key");
    assert("kind"@.len() == 4 && "id"@.len() == 2 && "multiline"@.len() == 9
        && "line_numbers"@.len() == 12 && "word_wrap"@.len() == 9 && "value"@.len() == 5
        && "value_key"@.len() == 9);
    assert("multiline"@[0] == 'm' && "word_wrap"@[0] == 'w' && "value_key"@[0] == 'v');
}

proof fn rendered_renders(note: docs::NoteView)
    ensures
        renders(panes::markdown_widget(note), note),
        panes::markdown_widget(note).at("live_from"@) == JsonView::Null,
        renders(panes::markdown_widget(note).with("live_from"@, JsonView::Text("editor"@)), note),
        panes::markdown_widget(note).with("live_from"@, JsonView::Text("editor"@)).at(
            "live_from"@,
        ) == JsonView::Text("editor"@),
{
    broadcast use json::object_holds, json::with_at;

    reveal_strlit("kind");
    reveal_strlit("id");
    reveal_strlit("source");
    reveal_strlit("live_from");
    assert("kind"@.len() == 4 && "id"@.len() == 2 && "source"@.len() == 6 && "live_from"@.len()
        == 9);
}

proof fn offer_offers(action: Seq<char>, label: Seq<char>, title: Seq<char>)
    ensures
        offers_as(panes::action_widget(action, label, title), action, label, title),
        panes::action_widget(action, label, title) is Object,
        !panes::action_widget(action, label, title).holds("primary"@),
{
    broadcast use json::object_holds, json::with_at;

    reveal_strlit("action");
    reveal_strlit("label");
    reveal_strlit("title");
    reveal_strlit("primary");
    assert("action"@.len() == 6 && "label"@.len() == 5 && "title"@.len() == 5 && "primary"@.len()
        == 7);
    assert("label"@[0] == 'l' && "title"@[0] == 't');
}

proof fn recent_row_recalls(path: Seq<char>)
    ensures
        recalls(panes::recent_row(path), path),
{
    broadcast use json::object_holds, json::with_at;

    reveal_strlit("kind");
    reveal_strlit("id");
    reveal_strlit("title");
    reveal_strlit("subtitle");
    reveal_strlit("actions");
    assert("kind"@.len() == 4 && "id"@.len() == 2 && "title"@.len() == 5 && "subtitle"@.len() == 8
        && "actions"@.len() == 7);
    offer_offers("open_recent"@, "⤢"@, "Open this file"@);
}

proof fn recent_rows_recall(recent: Seq<Seq<char>>, n: nat)
    ensures
        panes::recent_rows(recent, n) is Array,
        panes::recent_rows(recent, n).items().len() == n,
        forall|k: int|
            0 <= k < n ==> recalls(
                #[trigger] panes::recent_rows(recent, n).items()[k],
                recent[k],
            ),
    decreases n,
{
    if n > 0 {
        let m = (n - 1) as nat;
        let before = panes::recent_rows(recent, m).items();
        let all = panes::recent_rows(recent, n).items();
        recent_rows_recall(recent, m);
        recent_row_recalls(recent[n - 1]);
        assert forall|k: int| 0 <= k < n implies recalls(#[trigger] all[k], recent[k]) by {
            if k < m {
                assert(all[k] == before[k]);
            }
        }
    }
}

/// The active note is shown: rendered from its buffer and nothing beside it in the
/// rendered mode, edited and rendered live behind that in the split mode, and edited
/// alone as plain text. Without an active note the recent files are offered, the
/// latest first, ten at most.
pub proof fn document_shows_the_active_note(s: store::StoreView)
    ensures
        ({
            let document = panes::document_of(s);
            let widgets = document.at("widgets"@).items();
            &&& document.at("title"@) == JsonView::Text("Yedit"@)
            &&& document.at("widgets"@) is Array
            &&& match s.active() {
                Some(note) => match s.view_mode {
                    ViewMode::Markdown => {
                        &&& widgets.len() == 1
                        &&& renders(widgets[0], note)
                        &&& widgets[0].at("live_from"@) == JsonView::Null
                    },
                    ViewMode::Split => {
                        &&& widgets.len() == 2
                        &&& edits(widgets[0], note, s.word_wrap)
                        &&& renders(widgets[1], note)
                        &&& widgets[1].at("live_from"@) == JsonView::Text("editor"@)
                    },
                    ViewMode::Text => {
                        &&& widgets.len() == 1
                        &&& edits(widgets[0], note, s.word_wrap)
                    },
                },
                None => {
                    &&& widgets.len() == (if s.recent.len() < 10 {
                        s.recent.len()
                    } else {
                        10
                    })
                    &&& forall|k: int|
                        0 <= k < widgets.len() ==> recalls(#[trigger] widgets[k], s.recent[k])
                },
            }
        }),
{
    broadcast use json::object_holds, json::with_at;

    reveal_strlit("title");
    reveal_strlit("widgets");
    assert("title"@.len() == 5 && "widgets"@.len() == 7);
    assert(panes::document_of(s).at("widgets"@) == panes::document_widgets(s));
    match s.active() {
        Some(note) => {
            editor_edits(note, s.word_wrap);
            rendered_renders(note);
        },
        None => {
            recent_rows_recall(
                s.recent,
                if s.recent.len() < 10 {
                    s.recent.len()
                } else {
                    10
                },
            );
        },
    }
}

/// A note is shown if the search is found in its name or in its content, whether in
/// one or in both, and the number of the matches in the content is counted whatever
/// the name is. A search that is a regular expression is found as one; any other is
/// found as a text, in small letters.
pub proof fn notes_are_shown_where_the_search_is_found(p: PaneView, i: int)
    requires
        0 <= i < p.store.notes.len(),
    ensures
        ({
            let note = p.store.notes[i];
            let name = docs::shown_name(note.path);
            let query = text::trimmed(p.search);
            let found = panes::hits_at(panes::searched(p), i);
            let small = text::lowercased(query);
            &&& panes::searched(p).len() == p.store.notes.len()
            &&& query.len() == 0 ==> panes::is_shown(found) && found.1 == 0
            &&& query.len() > 0 ==> match search::regex_built(query, true, usize::BITS) {
                Some(re) => {
                    &&& panes::is_shown(found) <==> search::regex_matches(re, name)
                        || search::regex_count(re, note.content) > 0
                    &&& found.1 == search::regex_count(re, note.content)
                },
                None => {
                    &&& panes::is_shown(found) <==> (exists|k: int|
                        #[trigger] stands_at(text::lowercased(name), small, k))
                        || text::match_count(text::lowercased(note.content), small) > 0
                    &&& found.1 == text::match_count(text::lowercased(note.content), small)
                },
            }
        }),
{
    let note = p.store.notes[i];
    let name = text::lowercased(docs::shown_name(note.path));
    let small = text::lowercased(text::trimmed(p.search));
    found_where_it_stands(name, small);
}

/// Where a query is found in a name and a content, given the regular expression that
/// it is, if it is one.
pub proof fn queries_are_found_by_name_and_content(
    re: Option<regex::Regex>,
    query: Seq<char>,
    name: Seq<char>,
    content: Seq<char>,
)
    ensures
        ({
            let found = search::hits_by(re, query, name, content);
            let small = text::lowercased(query);
            &&& query.len() == 0 ==> found.0 && found.1 == 0
            &&& query.len() > 0 ==> match re {
                Some(re) => {
                    &&& found.0 <==> search::regex_matches(re, name)
                    &&& found.1 == search::regex_count(re, content)
                    &&& panes::is_shown(found) <==> search::regex_matches(re, name)
                        || search::regex_count(re, content) > 0
                },
                None => {
                    &&& found.0 <==> exists|k: int|
                        #[trigger] stands_at(text::lowercased(name), small, k)
                    &&& found.1 == text::match_count(text::lowercased(content), small)
                    &&& panes::is_shown(found) <==> (exists|k: int|
                        #[trigger] stands_at(text::lowercased(name), small, k))
                        || text::match_count(text::lowercased(content), small) > 0
                },
            }
        }),
{
    found_where_it_stands(text::lowercased(name), text::lowercased(query));
}

/// Whether a text stands in another at a position.
pub open spec fn stands_at(s: Seq<char>, needle: Seq<char>, k: int) -> bool {
    0 <= k <= s.len() - needle.len() && s.subrange(k, k + needle.len()) == needle
}

/// A text is found in another if it stands there.
pub proof fn found_where_it_stands(s: Seq<char>, needle: Seq<char>)
    ensures
        text::find(s, needle) is Some <==> exists|k: int| #[trigger] stands_at(s, needle, k),
{
    text_laws::find_is_the_first(s, needle);
    match text::find(s, needle) {
        Some(k) => {
            assert(s.skip(k).take(needle.len() as int) =~= s.subrange(k, k + needle.len()));
            assert(needle =~= s.skip(k).take(needle.len() as int));
            assert(stands_at(s, needle, k));
        },
        None => {
            assert forall|k: int| !#[trigger] stands_at(s, needle, k) by {
                if stands_at(s, needle, k) {
                    assert(s.skip(k).take(needle.len() as int) =~= needle);
                    assert(needle.is_prefix_of(s.skip(k)));
                }
            }
        },
    }
}

/// How many of the first notes are shown.
pub open spec fn shown_before(hits: Seq<(bool, nat)>, n: nat) -> nat
    decreases n,
{
    if n == 0 {
        0
    } else {
        shown_before(hits, (n - 1) as nat) + (if hits[n - 1].0 || hits[n - 1].1 > 0 {
            1nat
        } else {
            0
        })
    }
}

/// Where the row of a note stands in the sidebar, if it has one: behind the widgets
/// above the notes and the rows of the notes before it.
pub open spec fn row_place(p: PaneView, hits: Seq<(bool, nat)>, i: int) -> int {
    (panes::head_widgets(p).items().len() + shown_before(hits, i as nat)) as int
}

proof fn shown_grow(hits: Seq<(bool, nat)>, i: nat, n: nat)
    requires
        i <= n,
    ensures
        shown_before(hits, i) <= shown_before(hits, n),
    decreases n,
{
    if i < n {
        shown_grow(hits, i, (n - 1) as nat);
    }
}

proof fn rows_stand_in_order(p: PaneView, hits: Seq<(bool, nat)>, on_disk: Seq<bool>, n: nat)
    requires
        hits.len() == p.store.notes.len(),
        n <= hits.len(),
    ensures
        ({
            let all = panes::note_widgets(p, hits, on_disk, n);
            let head = panes::head_widgets(p).items();
            &&& all is Array
            &&& panes::head_widgets(p) is Array
            &&& head.is_prefix_of(all.items())
            &&& all.items().len() == head.len() + shown_before(hits, n)
            &&& forall|i: int|
                0 <= i < n && (#[trigger] hits[i].0 || hits[i].1 > 0) ==> all.items()[row_place(
                    p,
                    hits,
                    i,
                )] == panes::note_row(
                    p,
                    p.store.notes[i],
                    hits[i].1,
                    i < on_disk.len() && on_disk[i],
                )
        }),
    decreases n,
{
    if n > 0 {
        let m = (n - 1) as nat;
        let above = panes::note_widgets(p, hits, on_disk, m).items();
        let all = panes::note_widgets(p, hits, on_disk, n).items();
        let head = panes::head_widgets(p).items();
        rows_stand_in_order(p, hits, on_disk, m);
        assert(panes::hits_at(hits, n - 1) == hits[n - 1]);
        assert forall|i: int| 0 <= i < n && (#[trigger] hits[i].0 || hits[i].1 > 0) implies all[
            row_place(p, hits, i)] == panes::note_row(
            p,
            p.store.notes[i],
            hits[i].1,
            i < on_disk.len() && on_disk[i],
        ) by {
            if i < m {
                shown_grow(hits, (i + 1) as nat, m);
                assert(shown_before(hits, (i + 1) as nat) == shown_before(hits, i as nat) + 1);
                assert(0 <= row_place(p, hits, i) < above.len());
                assert(hits[i].0 || hits[i].1 > 0);
                assert(all[row_place(p, hits, i)] == above[row_place(p, hits, i)]);
            } else {
                assert(panes::is_shown(panes::hits_at(hits, m as int)));
                assert(panes::flag_at(on_disk, i) == (i < on_disk.len() && on_disk[i]));
                assert(row_place(p, hits, i) == above.len());
                assert(all.len() == above.len() + 1);
            }
        }
    }
}

/// The sidebar shows, behind the widgets above them, one row for each note that is
/// shown, in the order of the notes, and no other; and in their place a line, if
/// none is shown.
pub proof fn sidebar_shows_the_found_notes(
    p: PaneView,
    hits: Seq<(bool, nat)>,
    on_disk: Seq<bool>,
)
    requires
        hits.len() == p.store.notes.len(),
    ensures
        ({
            let shown = panes::notes_of(p, hits, on_disk);
            let all = shown.at("widgets"@).items();
            let head = panes::head_widgets(p).items();
            let n = shown_before(hits, hits.len());
            &&& shown.at("title"@) == JsonView::Text("Yedit"@)
            &&& shown.at("footer"@) == panes::footer_widgets(p.store)
            &&& shown.at("widgets"@) is Array
            &&& head.is_prefix_of(all)
            &&& forall|i: int|
                0 <= i < hits.len() && (#[trigger] hits[i].0 || hits[i].1 > 0) ==> all[row_place(
                    p,
                    hits,
                    i,
                )] == panes::note_row(
                    p,
                    p.store.notes[i],
                    hits[i].1,
                    i < on_disk.len() && on_disk[i],
                )
            &&& n > 0 ==> all.len() == head.len() + n
            &&& n == 0 ==> {
                &&& all.len() == head.len() + 1
                &&& all.last().at("kind"@) == JsonView::Text("label"@)
                &&& all.last().at("muted"@) == JsonView::Bool(true)
                &&& all.last().at("text"@) == JsonView::Text(
                    if p.store.notes.len() == 0 {
                        "No files open. 🗋 creates one; 📂 opens a path."@
                    } else {
                        "No note matches \""@ + p.search + "\"."@
                    },
                )
            }
        }),
{
    parts_of_the_sidebar(p, hits, on_disk);
    let n = hits.len();
    rows_stand_in_order(p, hits, on_disk, n);
    muted_line(panes::nothing_shown(p));
    if panes::any_shown(hits, n) {
        let i = choose|i: int| 0 <= i < n && panes::is_shown(#[trigger] panes::hits_at(hits, i));
        shown_grow(hits, (i + 1) as nat, n);
        assert(shown_before(hits, (i + 1) as nat) == shown_before(hits, i as nat) + 1);
    } else {
        none_before(hits, n);
        assert forall|i: int| 0 <= i < n implies !(#[trigger] hits[i].0 || hits[i].1 > 0) by {
            assert(!panes::is_shown(panes::hits_at(hits, i)));
        }
        let rows = panes::note_widgets(p, hits, on_disk, n);
        let all = panes::notes_of(p, hits, on_disk).at("widgets"@).items();
        assert(all =~= rows.items().push(panes::muted_label(panes::nothing_shown(p))));
    }
}

proof fn parts_of_the_sidebar(p: PaneView, hits: Seq<(bool, nat)>, on_disk: Seq<bool>)
    ensures
        ({
            let shown = panes::notes_of(p, hits, on_disk);
            let n = p.store.notes.len();
            let rows = panes::note_widgets(p, hits, on_disk, n);
            &&& shown.at("title"@) == JsonView::Text("Yedit"@)
            &&& shown.at("footer"@) == panes::footer_widgets(p.store)
            &&& shown.at("widgets"@) == (if panes::any_shown(hits, n) {
                rows
            } else {
                rows.and(panes::muted_label(panes::nothing_shown(p)))
            })
        }),
{
    broadcast use json::object_holds, json::with_at;

    reveal_strlit("title");
    reveal_strlit("widgets");
    reveal_strlit("footer");
    assert("title"@.len() == 5 && "widgets"@.len() == 7 && "footer"@.len() == 6);
}

proof fn none_before(hits: Seq<(bool, nat)>, n: nat)
    requires
        n <= hits.len(),
        !panes::any_shown(hits, hits.len()),
    ensures
        shown_before(hits, n) == 0,
    decreases n,
{
    if n > 0 {
        none_before(hits, (n - 1) as nat);
        assert(!panes::is_shown(panes::hits_at(hits, n - 1)));
    }
}

proof fn muted_line(line: Seq<char>)
    ensures
        panes::muted_label(line).at("kind"@) == JsonView::Text("label"@),
        panes::muted_label(line).at("muted"@) == JsonView::Bool(true),
        panes::muted_label(line).at("text"@) == JsonView::Text(line),
{
    broadcast use json::object_holds, json::with_at;

    reveal_strlit("kind");
    reveal_strlit("muted");
    reveal_strlit("text");
    assert("kind"@.len() == 4 && "muted"@.len() == 5 && "text"@.len() == 4);
    assert("kind"@[0] == 'k' && "text"@[0] == 't');
}

/// The row of a note tells its name, its extension in small letters, its save state,
/// whether it is active, and how often the search was found in it; it switches to
/// the note, closes it and starts its renaming, and holds the field for the new name
/// while the note is renamed.
#[verifier::spinoff_prover]
pub proof fn row_tells_of_its_note(p: PaneView, note: docs::NoteView, hits: nat, on_disk: bool)
    ensures
        ({
            let row = panes::note_row(p, note, hits, on_disk);
            let extension = match paths::extension(note.path) {
                Some(extension) => text::lowercased(extension),
                None => seq![],
            };
            &&& is_widget(row, "list-row"@, note.id)
            &&& row.at("title"@) == JsonView::Text(docs::shown_name(note.path))
            &&& row.at("icon"@) == JsonView::Text("file:"@ + extension)
            &&& row.at("status"@) == JsonView::Text(
                if note.dirty {
                    "transient"@
                } else if on_disk {
                    "durable"@
                } else {
                    ""@
                },
            )
            &&& row.at("selected"@) == JsonView::Bool(p.store.active_id == Some(note.id))
            &&& hits == 0 ==> row.at("subtitle"@) == JsonView::Text(seq![])
            &&& hits == 1 ==> row.at("subtitle"@) == JsonView::Text(text::decimal(1) + " match"@)
            &&& hits > 1 ==> row.at("subtitle"@) == JsonView::Text(
                text::decimal(hits) + " matches"@,
            )
            &&& row.at("row_action"@) == JsonView::Text("switch"@)
            &&& row.at("reorder_action"@) == JsonView::Text("reorder_notes"@)
            &&& row.at("actions"@).items().len() == 1
            &&& offers_as(row.at("actions"@).items()[0], "close_note"@, "✕"@, "Close this note"@)
            &&& row.at("menu"@).items().len() == 2
            &&& offers_as(
                row.at("menu"@).items()[0],
                "rename"@,
                "✎\u{fe0e}  Rename"@,
                "Rename this note"@,
            )
            &&& offers_as(
                row.at("menu"@).items()[1],
                "close_note"@,
                "✕  Close"@,
                "Close this note"@,
            )
            &&& p.renaming != Some(note.id) ==> row.at("rename"@) == JsonView::Null
            &&& p.renaming == Some(note.id) ==> {
                let field = row.at("rename"@);
                &&& field.at("value"@) == JsonView::Text(docs::shown_name(note.path))
                &&& offers(field, "rename_apply"@)
                &&& field.at("cancel_action"@) == JsonView::Text("rename_cancel"@)
                &&& field.at("ai_source"@) == JsonView::Text(note.content)
                &&& field.at("placeholder"@) == JsonView::Text("new name…"@)
            }
        }),
{
    broadcast use json::object_holds, json::with_at;

    reveal_strlit("kind");
    reveal_strlit("id");
    reveal_strlit("icon");
    reveal_strlit("title");
    reveal_strlit("status");
    reveal_strlit("subtitle");
    reveal_strlit("selected");
    reveal_strlit("row_action");
    reveal_strlit("reorder_action");
    reveal_strlit("actions");
    reveal_strlit("menu");
    reveal_strlit("rename");
    assert("kind"@.len() == 4 && "id"@.len() == 2 && "icon"@.len() == 4 && "title"@.len() == 5
        && "status"@.len() == 6 && "subtitle"@.len() == 8 && "selected"@.len() == 8);
    assert("row_action"@.len() == 10 && "reorder_action"@.len() == 14 && "actions"@.len() == 7
        && "menu"@.len() == 4 && "rename"@.len() == 6);
    assert("kind"@[0] == 'k' && "icon"@[0] == 'i' && "menu"@[0] == 'm');
    assert("status"@[0] == 's' && "rename"@[0] == 'r');
    assert("subtitle"@[1] == 'u' && "selected"@[1] == 'e');
    offer_offers("close_note"@, "✕"@, "Close this note"@);
    offer_offers("close_note"@, "✕  Close"@, "Close this note"@);
    offer_offers("rename"@, "✎\u{fe0e}  Rename"@, "Rename this note"@);
    field_takes_a_name(note);
}

proof fn field_takes_a_name(note: docs::NoteView)
    ensures
        ({
            let field = panes::rename_field(note);
            &&& field.at("value"@) == JsonView::Text(docs::shown_name(note.path))
            &&& offers(field, "rename_apply"@)
            &&& field.at("cancel_action"@) == JsonView::Text("rename_cancel"@)
            &&& field.at("ai_source"@) == JsonView::Text(note.content)
            &&& field.at("placeholder"@) == JsonView::Text("new name…"@)
        }),
{
    broadcast use json::object_holds, json::with_at;

    reveal_strlit("value");
    reveal_strlit("action");
    reveal_strlit("cancel_action");
    reveal_strlit("ai_source");
    reveal_strlit("placeholder");
    assert("value"@.len() == 5 && "action"@.len() == 6 && "cancel_action"@.len() == 13
        && "ai_source"@.len() == 9 && "placeholder"@.len() == 11);
}

/// Above the notes stand the quick actions, the field for a path while it is shown,
/// the two ways out of a conflict while there is one, the search, the modes and the
/// heading.
#[verifier::spinoff_prover]
pub proof fn head_stands_above_the_notes(p: PaneView)
    ensures
        ({
            let head = panes::head_widgets(p).items();
            let a: int = if p.open_input {
                2
            } else {
                1
            };
            let b: int = if p.conflict is Some {
                a + 3
            } else {
                a
            };
            &&& panes::head_widgets(p) is Array
            &&& head.len() == b + 3
            &&& is_widget(head[0], "toolbar"@, "quick"@)
            &&& p.open_input ==> {
                &&& is_widget(head[1], "text-input"@, "open_path"@)
                &&& offers(head[1], "open"@)
                &&& head[1].at("value"@) == JsonView::Text(""@)
                &&& head[1].at("placeholder"@) == JsonView::Text(
                    "open or create: ~/notes/todo.md"@,
                )
            }
            &&& p.conflict matches Some(name) ==> {
                &&& head[a].at("kind"@) == JsonView::Text("label"@)
                &&& head[a].at("text"@) == JsonView::Text("⚠ "@ + name + " changed on disk"@)
                &&& is_widget(head[a + 1], "button"@, "overwrite"@)
                &&& head[a].at("muted"@) == JsonView::Bool(true)
                &&& offers(head[a + 1], "overwrite"@)
                &&& head[a + 1].at("label"@) == JsonView::Text("Overwrite"@)
                &&& head[a + 1].at("primary"@) == JsonView::Bool(true)
                &&& is_widget(head[a + 2], "button"@, "reload"@)
                &&& offers(head[a + 2], "reload"@)
                &&& head[a + 2].at("label"@) == JsonView::Text("Reload from disk"@)
            }
            &&& is_widget(head[b], "search-box"@, "search"@)
            &&& offers(head[b], "search"@)
            &&& head[b].at("value"@) == JsonView::Text(p.search)
            &&& head[b].at("placeholder"@) == JsonView::Text("Search notes (regex)…"@)
            &&& is_widget(head[b + 1], "tabs"@, "mode"@)
            &&& offers(head[b + 1], "set_mode"@)
            &&& head[b + 1].at("active"@) == JsonView::Text(
                match p.store.view_mode {
                    ViewMode::Markdown => "markdown"@,
                    ViewMode::Split => "split"@,
                    ViewMode::Text => "text"@,
                },
            )
            &&& head[b + 2].at("kind"@) == JsonView::Text("section"@)
            &&& head[b + 2].at("text"@) == JsonView::Text("Files"@)
            &&& offers(head[b + 2], "new_note"@)
            &&& head[b + 2].at("action_label"@) == JsonView::Text("+"@)
            &&& head[b + 2].at("action_title"@) == JsonView::Text("New note"@)
            &&& head[0] == panes::toolbar_widget(p.store)
            &&& head[b + 1] == panes::mode_widget(p.store.view_mode)
        }),
{
    toolbar_offers_the_quick_actions(p.store);
    open_field_opens();
    conflict_buttons_offer();
    search_field_searches(p.search);
    mode_tabs_set_the_mode(p.store.view_mode);
    heading_is_of_files();
    if let Some(name) = p.conflict {
        muted_line("⚠ "@ + name + " changed on disk"@);
    }
}

/// The quick actions are to save, which stands out while the active note is dirty,
/// to make a note, to open a path, and to close the active note if there is one.
pub proof fn toolbar_offers_the_quick_actions(s: store::StoreView)
    ensures
        ({
            let toolbar = panes::toolbar_widget(s);
            let buttons = toolbar.at("buttons"@).items();
            &&& is_widget(toolbar, "toolbar"@, "quick"@)
            &&& buttons.len() == (if s.active() is Some {
                4int
            } else {
                3
            })
            &&& offers_as(
                buttons[0],
                "save"@,
                "💾\u{fe0e}"@,
                "Save the active note (Ctrl+S)"@,
            )
            &&& buttons[0].at("primary"@) == JsonView::Bool(
                s.active() matches Some(note) && note.dirty,
            )
            &&& offers_as(buttons[1], "new_note"@, "🗋\u{fe0e}"@, "New note"@)
            &&& offers_as(
                buttons[2],
                "toggle_open_input"@,
                "📂\u{fe0e}"@,
                "Open or create a file by path"@,
            )
            &&& s.active() is Some ==> offers_as(
                buttons[3],
                "close_active"@,
                "✕"@,
                "Close the active note"@,
            )
        }),
{
    broadcast use json::object_holds, json::with_at;

    reveal_strlit("kind");
    reveal_strlit("id");
    reveal_strlit("buttons");
    reveal_strlit("primary");
    reveal_strlit("action");
    reveal_strlit("label");
    reveal_strlit("title");
    assert("kind"@.len() == 4 && "id"@.len() == 2 && "buttons"@.len() == 7 && "primary"@.len() == 7
        && "action"@.len() == 6 && "label"@.len() == 5 && "title"@.len() == 5);
    offer_offers("save"@, "💾\u{fe0e}"@, "Save the active note (Ctrl+S)"@);
    offer_offers("new_note"@, "🗋\u{fe0e}"@, "New note"@);
    offer_offers("toggle_open_input"@, "📂\u{fe0e}"@, "Open or create a file by path"@);
    offer_offers("close_active"@, "✕"@, "Close the active note"@);
    let save = panes::action_widget("save"@, "💾\u{fe0e}"@, "Save the active note (Ctrl+S)"@);
    let dirty = JsonView::Bool(s.active() matches Some(note) && note.dirty);
    assert(save.with("primary"@, dirty).at("primary"@) == dirty);
    assert(save.with("primary"@, dirty).at("action"@) == save.at("action"@));
    assert(save.with("primary"@, dirty).at("label"@) == save.at("label"@));
    assert(save.with("primary"@, dirty).at("title"@) == save.at("title"@));
}

proof fn open_field_opens()
    ensures
        is_widget(panes::open_input_widget(), "text-input"@, "open_path"@),
        offers(panes::open_input_widget(), "open"@),
        panes::open_input_widget().at("value"@) == JsonView::Text(""@),
        panes::open_input_widget().at("placeholder"@) == JsonView::Text(
            "open or create: ~/notes/todo.md"@,
        ),
{
    broadcast use json::object_holds, json::with_at;

    reveal_strlit("kind");
    reveal_strlit("id");
    reveal_strlit("placeholder");
    reveal_strlit("value");
    reveal_strlit("action");
    assert("kind"@.len() == 4 && "id"@.len() == 2 && "placeholder"@.len() == 11 && "value"@.len()
        == 5 && "action"@.len() == 6);
}

proof fn conflict_buttons_offer()
    ensures
        is_widget(panes::overwrite_button(), "button"@, "overwrite"@),
        offers(panes::overwrite_button(), "overwrite"@),
        panes::overwrite_button().at("label"@) == JsonView::Text("Overwrite"@),
        panes::overwrite_button().at("primary"@) == JsonView::Bool(true),
        panes::reload_button().at("label"@) == JsonView::Text("Reload from disk"@),
        is_widget(panes::reload_button(), "button"@, "reload"@),
        offers(panes::reload_button(), "reload"@),
{
    broadcast use json::object_holds, json::with_at;

    reveal_strlit("kind");
    reveal_strlit("id");
    reveal_strlit("label");
    reveal_strlit("action");
    reveal_strlit("primary");
    assert("kind"@.len() == 4 && "id"@.len() == 2 && "label"@.len() == 5 && "action"@.len() == 6
        && "primary"@.len() == 7);
}

proof fn search_field_searches(search: Seq<char>)
    ensures
        is_widget(panes::search_widget(search), "search-box"@, "search"@),
        offers(panes::search_widget(search), "search"@),
        panes::search_widget(search).at("value"@) == JsonView::Text(search),
        panes::search_widget(search).at("placeholder"@) == JsonView::Text(
            "Search notes (regex)…"@,
        ),
{
    broadcast use json::object_holds, json::with_at;

    reveal_strlit("kind");
    reveal_strlit("id");
    reveal_strlit("placeholder");
    reveal_strlit("value");
    reveal_strlit("action");
    assert("kind"@.len() == 4 && "id"@.len() == 2 && "placeholder"@.len() == 11 && "value"@.len()
        == 5 && "action"@.len() == 6);
}

/// The mode switch has a tab for each of the three modes, under the name by which
/// the mode is set, and marks the one that is on.
pub proof fn mode_tabs_set_the_mode(mode: ViewMode)
    ensures
        ({
            let widget = panes::mode_widget(mode);
            let tabs = widget.at("tabs"@).items();
            &&& is_widget(widget, "tabs"@, "mode"@)
            &&& offers(widget, "set_mode"@)
            &&& widget.at("active"@) == JsonView::Text(
                match mode {
                    ViewMode::Markdown => "markdown"@,
                    ViewMode::Split => "split"@,
                    ViewMode::Text => "text"@,
                },
            )
            &&& tabs.len() == 3
            &&& tabs[0].at("id"@) == JsonView::Text("markdown"@)
            &&& tabs[1].at("id"@) == JsonView::Text("split"@)
            &&& tabs[2].at("id"@) == JsonView::Text("text"@)
            &&& tabs[0].at("label"@) == JsonView::Text("Markdown"@)
            &&& tabs[1].at("label"@) == JsonView::Text("Split"@)
            &&& tabs[2].at("label"@) == JsonView::Text("Text"@)
        }),
{
    broadcast use json::object_holds, json::with_at;

    reveal_strlit("kind");
    reveal_strlit("id");
    reveal_strlit("action");
    reveal_strlit("active");
    reveal_strlit("tabs");
    reveal_strlit("label");
    assert("kind"@.len() == 4 && "id"@.len() == 2 && "action"@.len() == 6 && "active"@.len() == 6
        && "tabs"@.len() == 4 && "label"@.len() == 5);
    assert("kind"@[0] == 'k' && "tabs"@[0] == 't' && "action"@[3] == 'i' && "active"@[3] == 'i'
        && "action"@[4] == 'o' && "active"@[4] == 'v');
}

proof fn heading_is_of_files()
    ensures
        panes::files_heading().at("kind"@) == JsonView::Text("section"@),
        panes::files_heading().at("text"@) == JsonView::Text("Files"@),
        offers(panes::files_heading(), "new_note"@),
        panes::files_heading().at("action_label"@) == JsonView::Text("+"@),
        panes::files_heading().at("action_title"@) == JsonView::Text("New note"@),
{
    broadcast use json::object_holds, json::with_at;

    reveal_strlit("kind");
    reveal_strlit("text");
    reveal_strlit("action");
    reveal_strlit("action_label");
    reveal_strlit("action_title");
    assert("kind"@.len() == 4 && "text"@.len() == 4 && "action"@.len() == 6
        && "action_label"@.len() == 12 && "action_title"@.len() == 12);
    assert("kind"@[0] == 'k' && "text"@[0] == 't' && "action_label"@[7] == 'l'
        && "action_title"@[7] == 't');
}

/// Under the notes stand the counts of the active note, if there is one, and the
/// wrap toggle. The words, the lines and the characters are counted; a text without
/// a line break has one line.
pub proof fn footer_counts_the_active_note(s: store::StoreView)
    ensures
        ({
            let footer = panes::footer_widgets(s).items();
            let toggle = footer.last();
            &&& panes::footer_widgets(s) is Array
            &&& is_widget(toggle, "toggle"@, "wrap"@)
            &&& offers(toggle, "toggle_wrap"@)
            &&& toggle.at("label"@) == JsonView::Text("Wrap"@)
            &&& toggle.at("value"@) == JsonView::Bool(s.word_wrap)
            &&& match s.active() {
                Some(note) => {
                    &&& footer.len() == 2
                    &&& footer[0].at("kind"@) == JsonView::Text("label"@)
                    &&& footer[0].at("text"@) == JsonView::Text(
                        text::decimal(text::word_count(note.content)) + " words \u{b7} "@
                            + text::decimal(text::char_count(note.content, '\n') + 1)
                            + " lines \u{b7} "@ + text::decimal(note.content.len()) + " chars"@,
                    )
                },
                None => footer.len() == 1,
            }
        }),
{
    broadcast use json::object_holds, json::with_at;

    reveal_strlit("kind");
    reveal_strlit("id");
    reveal_strlit("text");
    reveal_strlit("label");
    reveal_strlit("action");
    reveal_strlit("value");
    assert("kind"@.len() == 4 && "id"@.len() == 2 && "text"@.len() == 4 && "label"@.len() == 5
        && "action"@.len() == 6 && "value"@.len() == 5);
    assert("kind"@[0] == 'k' && "text"@[0] == 't' && "label"@[0] == 'l' && "value"@[0] == 'v');
}

/// A note is found by its id: the first that has it, if one has it. The active note
/// is the one of the active id.
pub proof fn notes_are_found_by_id(s: store::StoreView, id: Seq<char>)
    ensures
        s.has(id) <==> exists|i: int| 0 <= i < s.notes.len() && (#[trigger] s.notes[i]).id == id,
        s.has(id) <==> s.note(id) is Some,
        s.note(id) matches Some(note) ==> exists|i: int|
            0 <= i < s.notes.len() && #[trigger] s.notes[i] == note && note.id == id && forall|
                j: int,
            |
                0 <= j < i ==> (#[trigger] s.notes[j]).id != id,
        s.active_id == Some(id) ==> s.active() == s.note(id),
        s.active_id is None ==> s.active() is None,
{
    store::seek_finds(s.notes, id);
    if let Some(k) = store::seek(s.notes, id) {
        assert(s.notes[k].id == id);
    }
}

} // verus!
