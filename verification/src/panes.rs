//! What the two panes show: the document in the viewport and the notes in the
//! sidebar, as widgets in JSON.

use crate::docs::{self, name_shown, note_id, Note, ViewMode};
use crate::json::{Json, JsonView};
use crate::paths;
use crate::search::{self, search_notes, Hits};
use crate::store::{self, Store};
use crate::text::{
    self, count_char, count_words, decimal_text, join2, join3, lowercase, push_decimal,
    same_option,
};
use vstd::prelude::*;
use vstd::string::{StrSliceExecFns, StringExecFns};

verus! {

/// How many recent files are offered while no note is active.
pub const RECENT_SHOWN: usize = 10;

/// The store and what only the panes know.
pub struct PaneState {
    pub store: Store,
    /// The name of the note whose save hit the guard. While it is set, the
    /// sidebar offers to overwrite the file or to reload it.
    pub conflict: Option<String>,
    /// The search over the notes. Empty shows every note.
    pub search: String,
    /// Whether the field for a path to open is shown.
    pub open_input: bool,
    /// The id of the note that is being renamed, in its row.
    pub renaming: Option<String>,
}

/// The state of the panes as mathematics.
pub ghost struct PaneView {
    pub store: store::StoreView,
    pub conflict: Option<Seq<char>>,
    pub search: Seq<char>,
    pub open_input: bool,
    pub renaming: Option<Seq<char>>,
}

impl View for PaneState {
    type V = PaneView;

    open spec fn view(&self) -> PaneView {
        PaneView {
            store: self.store@,
            conflict: text::maybe_text(self.conflict),
            search: self.search@,
            open_input: self.open_input,
            renaming: text::maybe_text(self.renaming),
        }
    }
}

/// The editor widget, which names the note it holds.
pub open spec fn editor_widget(note: docs::NoteView, wrap: bool) -> JsonView {
    JsonView::object().with("kind"@, JsonView::Text("text-input"@)).with(
        "id"@,
        JsonView::Text("editor"@),
    ).with("multiline"@, JsonView::Bool(true)).with("line_numbers"@, JsonView::Bool(true)).with(
        "word_wrap"@,
        JsonView::Bool(wrap),
    ).with("value"@, JsonView::Text(note.content)).with("value_key"@, JsonView::Text(note.id))
}

/// The widget of the rendered document.
pub open spec fn markdown_widget(note: docs::NoteView) -> JsonView {
    JsonView::object().with("kind"@, JsonView::Text("markdown"@)).with(
        "id"@,
        JsonView::Text("body"@),
    ).with("source"@, JsonView::Text(note.content))
}

/// The id of the row of a recent file.
pub open spec fn recent_id(path: Seq<char>) -> Seq<char> {
    "recent-"@ + docs::id_of(path)
}

/// An action that a row or a toolbar offers.
pub open spec fn action_widget(action: Seq<char>, label: Seq<char>, title: Seq<char>) -> JsonView {
    JsonView::object().with("action"@, JsonView::Text(action)).with(
        "label"@,
        JsonView::Text(label),
    ).with("title"@, JsonView::Text(title))
}

/// The row of a recent file.
pub open spec fn recent_row(path: Seq<char>) -> JsonView {
    JsonView::object().with("kind"@, JsonView::Text("list-row"@)).with(
        "id"@,
        JsonView::Text(recent_id(path)),
    ).with("title"@, JsonView::Text(docs::shown_name(path))).with(
        "subtitle"@,
        JsonView::Text(path),
    ).with(
        "actions"@,
        JsonView::array().and(action_widget("open_recent"@, "⤢"@, "Open this file"@)),
    )
}

/// The rows of the first `n` recent files.
pub open spec fn recent_rows(recent: Seq<Seq<char>>, n: nat) -> JsonView
    decreases n,
{
    if n == 0 {
        JsonView::array()
    } else {
        recent_rows(recent, (n - 1) as nat).and(recent_row(recent[n - 1]))
    }
}

/// The widgets of the viewport: the active note in the view mode, or the recent
/// files if there is no active note.
pub open spec fn document_widgets(s: store::StoreView) -> JsonView {
    match s.active() {
        Some(note) => match s.view_mode {
            ViewMode::Markdown => JsonView::array().and(markdown_widget(note)),
            ViewMode::Split => JsonView::array().and(editor_widget(note, s.word_wrap)).and(
                markdown_widget(note).with("live_from"@, JsonView::Text("editor"@)),
            ),
            ViewMode::Text => JsonView::array().and(editor_widget(note, s.word_wrap)),
        },
        None => recent_rows(
            s.recent,
            if s.recent.len() > RECENT_SHOWN {
                RECENT_SHOWN as nat
            } else {
                s.recent.len()
            },
        ),
    }
}

/// What the viewport shows.
pub open spec fn document_of(s: store::StoreView) -> JsonView {
    JsonView::object().with("title"@, JsonView::Text("Yedit"@)).with(
        "widgets"@,
        document_widgets(s),
    )
}

/// The editor widget.
fn editor(note: &Note, wrap: bool) -> (r: Json)
    ensures
        r@ == editor_widget(note@, wrap),
{
    Json::object().with("kind", Json::text("text-input")).with("id", Json::text("editor")).with(
        "multiline",
        Json::Bool(true),
    ).with("line_numbers", Json::Bool(true)).with("word_wrap", Json::Bool(wrap)).with(
        "value",
        Json::text(note.content.as_str()),
    ).with("value_key", Json::text(note.id.as_str()))
}

/// The widget of the rendered document.
fn rendered(note: &Note) -> (r: Json)
    ensures
        r@ == markdown_widget(note@),
{
    Json::object().with("kind", Json::text("markdown")).with("id", Json::text("body")).with(
        "source",
        Json::text(note.content.as_str()),
    )
}

/// An action that a row or a toolbar offers.
fn offer(action: &str, label: &str, title: &str) -> (r: Json)
    ensures
        r@ == action_widget(action@, label@, title@),
{
    Json::object().with("action", Json::text(action)).with("label", Json::text(label)).with(
        "title",
        Json::text(title),
    )
}

/// The id of the row of a recent file.
pub fn recent_row_id(path: &str) -> (r: String)
    ensures
        r@ == recent_id(path@),
{
    join2("recent-", note_id(path).as_str())
}

/// The viewport pane: the body of the document only. Rendered in markdown mode,
/// editor with live preview in split mode, plain editor in text mode; the recent
/// files when nothing is open. An editor names the note that it holds, as it is
/// one slot for many buffers.
pub fn document_schema(pane: &PaneState) -> (r: Json)
    ensures
        r@ == document_of(pane@.store),
{
    let store = &pane.store;
    let widgets: Json = match store.active() {
        Some(note) => match store.view_mode {
            ViewMode::Markdown => Json::array().and(rendered(note)),
            ViewMode::Split => Json::array().and(editor(note, store.word_wrap)).and(
                rendered(note).with("live_from", Json::text("editor")),
            ),
            ViewMode::Text => Json::array().and(editor(note, store.word_wrap)),
        },
        None => {
            let mut rows = Json::array();
            let mut i: usize = 0;
            let ghost recent = store@.recent;
            while i < store.recent.len() && i < RECENT_SHOWN
                invariant
                    i <= store.recent@.len(),
                    i <= RECENT_SHOWN,
                    recent == text::texts(store.recent@),
                    rows@ == recent_rows(recent, i as nat),
                decreases store.recent@.len() - i,
            {
                let path = store.recent[i].as_str();
                assert(recent[i as int] == path@);
                let row = Json::object().with("kind", Json::text("list-row")).with(
                    "id",
                    Json::Text(recent_row_id(path)),
                ).with("title", Json::Text(name_shown(path))).with(
                    "subtitle",
                    Json::text(path),
                ).with(
                    "actions",
                    Json::array().and(offer("open_recent", "⤢", "Open this file")),
                );
                rows = rows.and(row);
                i += 1;
            }
            rows
        },
    };
    Json::object().with("title", Json::text("Yedit")).with("widgets", widgets)
}

/// The toolbar of quick actions.
pub open spec fn toolbar_widget(s: store::StoreView) -> JsonView {
    let dirty = s.active() matches Some(note) && note.dirty;
    let buttons = JsonView::array().and(
        action_widget("save"@, "💾\u{fe0e}"@, "Save the active note (Ctrl+S)"@).with(
            "primary"@,
            JsonView::Bool(dirty),
        ),
    ).and(action_widget("new_note"@, "🗋\u{fe0e}"@, "New note"@)).and(
        action_widget("toggle_open_input"@, "📂\u{fe0e}"@, "Open or create a file by path"@),
    );
    JsonView::object().with("kind"@, JsonView::Text("toolbar"@)).with(
        "id"@,
        JsonView::Text("quick"@),
    ).with(
        "buttons"@,
        if s.active() is Some {
            buttons.and(action_widget("close_active"@, "✕"@, "Close the active note"@))
        } else {
            buttons
        },
    )
}

/// The field for a path to open or create.
pub open spec fn open_input_widget() -> JsonView {
    JsonView::object().with("kind"@, JsonView::Text("text-input"@)).with(
        "id"@,
        JsonView::Text("open_path"@),
    ).with("placeholder"@, JsonView::Text("open or create: ~/notes/todo.md"@)).with(
        "value"@,
        JsonView::Text(""@),
    ).with("action"@, JsonView::Text("open"@))
}

/// A muted line of text.
pub open spec fn muted_label(line: Seq<char>) -> JsonView {
    JsonView::object().with("kind"@, JsonView::Text("label"@)).with(
        "muted"@,
        JsonView::Bool(true),
    ).with("text"@, JsonView::Text(line))
}

/// The button that overwrites the file of a conflict.
pub open spec fn overwrite_button() -> JsonView {
    JsonView::object().with("kind"@, JsonView::Text("button"@)).with(
        "id"@,
        JsonView::Text("overwrite"@),
    ).with("label"@, JsonView::Text("Overwrite"@)).with(
        "action"@,
        JsonView::Text("overwrite"@),
    ).with("primary"@, JsonView::Bool(true))
}

/// The button that reloads the file of a conflict.
pub open spec fn reload_button() -> JsonView {
    JsonView::object().with("kind"@, JsonView::Text("button"@)).with(
        "id"@,
        JsonView::Text("reload"@),
    ).with("label"@, JsonView::Text("Reload from disk"@)).with(
        "action"@,
        JsonView::Text("reload"@),
    )
}

/// The search field.
pub open spec fn search_widget(search: Seq<char>) -> JsonView {
    JsonView::object().with("kind"@, JsonView::Text("search-box"@)).with(
        "id"@,
        JsonView::Text("search"@),
    ).with("placeholder"@, JsonView::Text("Search notes (regex)…"@)).with(
        "value"@,
        JsonView::Text(search),
    ).with("action"@, JsonView::Text("search"@))
}

/// One tab of the mode switch.
pub open spec fn mode_tab(id: Seq<char>, label: Seq<char>) -> JsonView {
    JsonView::object().with("id"@, JsonView::Text(id)).with("label"@, JsonView::Text(label))
}

/// The mode switch.
pub open spec fn mode_widget(mode: ViewMode) -> JsonView {
    JsonView::object().with("kind"@, JsonView::Text("tabs"@)).with(
        "id"@,
        JsonView::Text("mode"@),
    ).with("action"@, JsonView::Text("set_mode"@)).with(
        "active"@,
        JsonView::Text(docs::mode_name(mode)),
    ).with(
        "tabs"@,
        JsonView::array().and(mode_tab("markdown"@, "Markdown"@)).and(
            mode_tab("split"@, "Split"@),
        ).and(mode_tab("text"@, "Text"@)),
    )
}

/// The heading above the notes.
pub open spec fn files_heading() -> JsonView {
    JsonView::object().with("kind"@, JsonView::Text("section"@)).with(
        "text"@,
        JsonView::Text("Files"@),
    ).with("action"@, JsonView::Text("new_note"@)).with("action_label"@, JsonView::Text("+"@)).with(
        "action_title"@,
        JsonView::Text("New note"@),
    )
}

/// The widgets above the notes.
pub open spec fn head_widgets(p: PaneView) -> JsonView {
    let a = JsonView::array().and(toolbar_widget(p.store));
    let b = if p.open_input {
        a.and(open_input_widget())
    } else {
        a
    };
    let c = match p.conflict {
        Some(name) => b.and(muted_label("⚠ "@ + name + " changed on disk"@)).and(
            overwrite_button(),
        ).and(reload_button()),
        None => b,
    };
    c.and(search_widget(p.search)).and(mode_widget(p.store.view_mode)).and(files_heading())
}

/// The save state of a note: `transient` while its content lives only in the
/// draft row, `durable` once it is the file on disk, and nothing for a new note
/// that was never typed into.
pub open spec fn status_of(note: docs::NoteView, on_disk: bool) -> Seq<char> {
    if note.dirty {
        "transient"@
    } else if on_disk {
        "durable"@
    } else {
        ""@
    }
}

/// The badge of a note: the extension of its file in small letters.
pub open spec fn icon_of(path: Seq<char>) -> Seq<char> {
    "file:"@ + match paths::extension(path) {
        Some(extension) => text::lowercased(extension),
        None => seq![],
    }
}

/// How often the search was found in the content, in words.
pub open spec fn match_line(n: nat) -> Seq<char> {
    if n == 0 {
        seq![]
    } else if n == 1 {
        text::decimal(n) + " match"@
    } else {
        text::decimal(n) + " matches"@
    }
}

/// The field in the row of the note that is being renamed.
pub open spec fn rename_field(note: docs::NoteView) -> JsonView {
    JsonView::object().with("value"@, JsonView::Text(docs::shown_name(note.path))).with(
        "action"@,
        JsonView::Text("rename_apply"@),
    ).with("cancel_action"@, JsonView::Text("rename_cancel"@)).with(
        "ai_source"@,
        JsonView::Text(note.content),
    ).with("placeholder"@, JsonView::Text("new name…"@))
}

/// The row of a note.
pub open spec fn note_row(p: PaneView, note: docs::NoteView, hits: nat, on_disk: bool) -> JsonView {
    let row = JsonView::object().with("kind"@, JsonView::Text("list-row"@)).with(
        "id"@,
        JsonView::Text(note.id),
    ).with("icon"@, JsonView::Text(icon_of(note.path))).with(
        "title"@,
        JsonView::Text(docs::shown_name(note.path)),
    ).with("status"@, JsonView::Text(status_of(note, on_disk))).with(
        "subtitle"@,
        JsonView::Text(match_line(hits)),
    ).with("selected"@, JsonView::Bool(p.store.active_id == Some(note.id))).with(
        "row_action"@,
        JsonView::Text("switch"@),
    ).with("reorder_action"@, JsonView::Text("reorder_notes"@)).with(
        "actions"@,
        JsonView::array().and(action_widget("close_note"@, "✕"@, "Close this note"@)),
    ).with(
        "menu"@,
        JsonView::array().and(
            action_widget("rename"@, "✎\u{fe0e}  Rename"@, "Rename this note"@),
        ).and(action_widget("close_note"@, "✕  Close"@, "Close this note"@)),
    );
    if p.renaming == Some(note.id) {
        row.with("rename"@, rename_field(note))
    } else {
        row
    }
}

/// Whether a note is shown: the search was found in its name or its content.
pub open spec fn is_shown(hits: (bool, nat)) -> bool {
    hits.0 || hits.1 > 0
}

/// Where the search was found in the note at a position.
pub open spec fn hits_at(hits: Seq<(bool, nat)>, i: int) -> (bool, nat) {
    if 0 <= i < hits.len() {
        hits[i]
    } else {
        (false, 0)
    }
}

/// Where the search was found in the notes, as mathematics.
pub open spec fn hits_view(hits: Seq<Hits>) -> Seq<(bool, nat)> {
    hits.map_values(|h: Hits| (h.in_name, h.in_content as nat))
}

/// Where the search is found in each of the notes.
pub open spec fn searched(p: PaneView) -> Seq<(bool, nat)> {
    p.store.notes.map_values(|n: docs::NoteView| search::hits_of(p.search, n))
}

/// Whether the file of the note at a position is on disk.
pub open spec fn flag_at(flags: Seq<bool>, i: int) -> bool {
    0 <= i < flags.len() && flags[i]
}

/// The widgets of the sidebar down to the first `n` notes.
pub open spec fn note_widgets(p: PaneView, hits: Seq<(bool, nat)>, on_disk: Seq<bool>, n: nat) -> JsonView
    decreases n,
{
    if n == 0 {
        head_widgets(p)
    } else {
        let above = note_widgets(p, hits, on_disk, (n - 1) as nat);
        let found = hits_at(hits, n - 1);
        if is_shown(found) {
            above.and(note_row(p, p.store.notes[n - 1], found.1, flag_at(on_disk, n - 1)))
        } else {
            above
        }
    }
}

/// Whether one of the first `n` notes is shown.
pub open spec fn any_shown(hits: Seq<(bool, nat)>, n: nat) -> bool {
    exists|i: int| 0 <= i < n && is_shown(#[trigger] hits_at(hits, i))
}

/// The line in place of the notes when none is shown.
pub open spec fn nothing_shown(p: PaneView) -> Seq<char> {
    if p.store.notes.len() == 0 {
        "No files open. 🗋 creates one; 📂 opens a path."@
    } else {
        "No note matches \""@ + p.search + "\"."@
    }
}

/// The counts of a text, in words.
pub open spec fn counts_line(content: Seq<char>) -> Seq<char> {
    text::decimal(text::word_count(content)) + " words \u{b7} "@ + text::decimal(
        text::char_count(content, '\n') + 1,
    ) + " lines \u{b7} "@ + text::decimal(content.len()) + " chars"@
}

/// The line under the notes: the counts of the active note and the wrap toggle.
pub open spec fn footer_widgets(s: store::StoreView) -> JsonView {
    let a = match s.active() {
        Some(note) => JsonView::array().and(
            JsonView::object().with("kind"@, JsonView::Text("label"@)).with(
                "text"@,
                JsonView::Text(counts_line(note.content)),
            ),
        ),
        None => JsonView::array(),
    };
    a.and(
        JsonView::object().with("kind"@, JsonView::Text("toggle"@)).with(
            "id"@,
            JsonView::Text("wrap"@),
        ).with("label"@, JsonView::Text("Wrap"@)).with(
            "action"@,
            JsonView::Text("toggle_wrap"@),
        ).with("value"@, JsonView::Bool(s.word_wrap)),
    )
}

/// What the sidebar shows, given where the search was found and which notes have
/// a file on disk.
pub open spec fn notes_of(p: PaneView, hits: Seq<(bool, nat)>, on_disk: Seq<bool>) -> JsonView {
    let n = p.store.notes.len();
    let rows = note_widgets(p, hits, on_disk, n);
    JsonView::object().with("title"@, JsonView::Text("Yedit"@)).with(
        "widgets"@,
        if any_shown(hits, n) {
            rows
        } else {
            rows.and(muted_label(nothing_shown(p)))
        },
    ).with("footer"@, footer_widgets(p.store))
}

/// The toolbar of quick actions.
fn toolbar(store: &Store) -> (r: Json)
    ensures
        r@ == toolbar_widget(store@),
{
    let active = store.active();
    let dirty: bool = match active {
        Some(note) => note.dirty,
        None => false,
    };
    let mut buttons = Json::array().and(
        offer("save", "💾\u{fe0e}", "Save the active note (Ctrl+S)").with(
            "primary",
            Json::Bool(dirty),
        ),
    ).and(offer("new_note", "🗋\u{fe0e}", "New note")).and(
        offer("toggle_open_input", "📂\u{fe0e}", "Open or create a file by path"),
    );
    if active.is_some() {
        buttons = buttons.and(offer("close_active", "✕", "Close the active note"));
    }
    Json::object().with("kind", Json::text("toolbar")).with("id", Json::text("quick")).with(
        "buttons",
        buttons,
    )
}

/// A muted line of text.
fn muted(line: &str) -> (r: Json)
    ensures
        r@ == muted_label(line@),
{
    Json::object().with("kind", Json::text("label")).with("muted", Json::Bool(true)).with(
        "text",
        Json::text(line),
    )
}

/// The mode switch.
fn mode_tabs(mode: ViewMode) -> (r: Json)
    ensures
        r@ == mode_widget(mode),
{
    let markdown = Json::object().with("id", Json::text("markdown")).with(
        "label",
        Json::text("Markdown"),
    );
    let split = Json::object().with("id", Json::text("split")).with("label", Json::text("Split"));
    let plain = Json::object().with("id", Json::text("text")).with("label", Json::text("Text"));
    Json::object().with("kind", Json::text("tabs")).with("id", Json::text("mode")).with(
        "action",
        Json::text("set_mode"),
    ).with("active", Json::text(mode.as_str())).with(
        "tabs",
        Json::array().and(markdown).and(split).and(plain),
    )
}

/// The widgets above the notes.
fn head(pane: &PaneState) -> (r: Json)
    ensures
        r@ == head_widgets(pane@),
{
    let mut widgets = Json::array().and(toolbar(&pane.store));
    if pane.open_input {
        widgets = widgets.and(
            Json::object().with("kind", Json::text("text-input")).with(
                "id",
                Json::text("open_path"),
            ).with("placeholder", Json::text("open or create: ~/notes/todo.md")).with(
                "value",
                Json::text(""),
            ).with("action", Json::text("open")),
        );
    }
    if let Some(name) = &pane.conflict {
        let line = join3("⚠ ", name.as_str(), " changed on disk");
        widgets = widgets.and(muted(line.as_str())).and(
            Json::object().with("kind", Json::text("button")).with(
                "id",
                Json::text("overwrite"),
            ).with("label", Json::text("Overwrite")).with("action", Json::text("overwrite")).with(
                "primary",
                Json::Bool(true),
            ),
        ).and(
            Json::object().with("kind", Json::text("button")).with("id", Json::text("reload")).with(
                "label",
                Json::text("Reload from disk"),
            ).with("action", Json::text("reload")),
        );
    }
    widgets.and(
        Json::object().with("kind", Json::text("search-box")).with("id", Json::text("search")).with(
            "placeholder",
            Json::text("Search notes (regex)…"),
        ).with("value", Json::text(pane.search.as_str())).with("action", Json::text("search")),
    ).and(mode_tabs(pane.store.view_mode)).and(
        Json::object().with("kind", Json::text("section")).with("text", Json::text("Files")).with(
            "action",
            Json::text("new_note"),
        ).with("action_label", Json::text("+")).with("action_title", Json::text("New note")),
    )
}

/// The badge of a note.
fn icon(path: &str) -> (r: String)
    ensures
        r@ == icon_of(path@),
{
    match paths::extension_of(path) {
        Some(extension) => join2("file:", lowercase(extension.as_str()).as_str()),
        None => {
            let r = "file:".to_owned();
            assert(r@ =~= "file:"@ + seq![]);
            r
        },
    }
}

/// How often the search was found in the content, in words.
fn match_words(n: u128) -> (r: String)
    ensures
        r@ == match_line(n as nat),
{
    if n == 0 {
        String::new()
    } else if n == 1 {
        join2(decimal_text(n).as_str(), " match")
    } else {
        join2(decimal_text(n).as_str(), " matches")
    }
}

/// The row of a note.
fn row(pane: &PaneState, note: &Note, hits: u128, on_disk: bool) -> (r: Json)
    ensures
        r@ == note_row(pane@, note@, hits as nat, on_disk),
{
    let status: &str = if note.dirty {
        "transient"
    } else if on_disk {
        "durable"
    } else {
        ""
    };
    let r = Json::object().with("kind", Json::text("list-row")).with(
        "id",
        Json::text(note.id.as_str()),
    ).with("icon", Json::Text(icon(note.path.as_str()))).with(
        "title",
        Json::Text(note.name()),
    ).with("status", Json::text(status)).with("subtitle", Json::Text(match_words(hits))).with(
        "selected",
        Json::Bool(same_option(&pane.store.active_id, note.id.as_str())),
    ).with("row_action", Json::text("switch")).with(
        "reorder_action",
        Json::text("reorder_notes"),
    ).with(
        "actions",
        Json::array().and(offer("close_note", "✕", "Close this note")),
    ).with(
        "menu",
        Json::array().and(offer("rename", "✎\u{fe0e}  Rename", "Rename this note")).and(
            offer("close_note", "✕  Close", "Close this note"),
        ),
    );
    if same_option(&pane.renaming, note.id.as_str()) {
        r.with(
            "rename",
            Json::object().with("value", Json::Text(note.name())).with(
                "action",
                Json::text("rename_apply"),
            ).with("cancel_action", Json::text("rename_cancel")).with(
                "ai_source",
                Json::text(note.content.as_str()),
            ).with("placeholder", Json::text("new name…")),
        )
    } else {
        r
    }
}

/// The counts of a text, in words.
fn counts(content: &str) -> (r: String)
    ensures
        r@ == counts_line(content@),
{
    let mut out = decimal_text(count_words(content) as u128);
    out.append(" words \u{b7} ");
    push_decimal(&mut out, count_char(content, '\n') as u128 + 1);
    out.append(" lines \u{b7} ");
    push_decimal(&mut out, content.unicode_len() as u128);
    out.append(" chars");
    out
}

/// The line under the notes.
fn footer(store: &Store) -> (r: Json)
    ensures
        r@ == footer_widgets(store@),
{
    let mut out = Json::array();
    if let Some(note) = store.active() {
        out = out.and(
            Json::object().with("kind", Json::text("label")).with(
                "text",
                Json::Text(counts(note.content.as_str())),
            ),
        );
    }
    out.and(
        Json::object().with("kind", Json::text("toggle")).with("id", Json::text("wrap")).with(
            "label",
            Json::text("Wrap"),
        ).with("action", Json::text("toggle_wrap")).with("value", Json::Bool(store.word_wrap)),
    )
}

/// The sidebar pane, given where the search was found in each note and which
/// notes have a file on disk: the quick actions, the search, the mode switch, the
/// notes that the search was found in, and the counts of the active note.
pub fn notes_schema_with(pane: &PaneState, hits: &Vec<Hits>, on_disk: &Vec<bool>) -> (r: Json)
    ensures
        r@ == notes_of(pane@, hits_view(hits@), on_disk@),
{
    let ghost found = hits_view(hits@);
    let mut widgets = head(pane);
    let mut shown: bool = false;
    let mut i: usize = 0;
    while i < pane.store.notes.len()
        invariant
            i <= pane.store.notes@.len(),
            found == hits_view(hits@),
            widgets@ == note_widgets(pane@, found, on_disk@, i as nat),
            shown == any_shown(found, i as nat),
        decreases pane.store.notes@.len() - i,
    {
        let (in_name, in_content): (bool, u128) = if i < hits.len() {
            (hits[i].in_name, hits[i].in_content)
        } else {
            (false, 0)
        };
        assert((in_name, in_content as nat) == hits_at(found, i as int));
        if in_name || in_content > 0 {
            assert(is_shown(hits_at(found, i as int)));
            let there: bool = i < on_disk.len() && on_disk[i];
            assert(pane@.store.notes[i as int] == pane.store.notes@[i as int]@);
            widgets = widgets.and(row(pane, &pane.store.notes[i], in_content, there));
            shown = true;
            assert(any_shown(found, (i + 1) as nat));
        } else {
            assert(!is_shown(hits_at(found, i as int)));
            proof {
                if any_shown(found, (i + 1) as nat) {
                    let k = choose|k: int|
                        0 <= k < i + 1 && is_shown(#[trigger] hits_at(found, k));
                    assert(k != i);
                    assert(any_shown(found, i as nat));
                }
                if any_shown(found, i as nat) {
                    let k = choose|k: int| 0 <= k < i && is_shown(#[trigger] hits_at(found, k));
                    assert(any_shown(found, (i + 1) as nat));
                }
            }
        }
        i += 1;
    }
    if !shown {
        if pane.store.notes.len() == 0 {
            widgets = widgets.and(muted("No files open. 🗋 creates one; 📂 opens a path."));
        } else {
            let line = join3("No note matches \"", pane.search.as_str(), "\".");
            widgets = widgets.and(muted(line.as_str()));
        }
    }
    Json::object().with("title", Json::text("Yedit")).with("widgets", widgets).with(
        "footer",
        footer(&pane.store),
    )
}

/// The sidebar pane, given which notes have a file on disk.
pub fn notes_schema(pane: &PaneState, on_disk: &Vec<bool>) -> (r: Json)
    ensures
        r@ == notes_of(pane@, searched(pane@), on_disk@),
{
    let hits = search_notes(pane.search.as_str(), &pane.store.notes);
    assert(hits_view(hits@) =~= searched(pane@));
    notes_schema_with(pane, &hits, on_disk)
}

} // verus!
