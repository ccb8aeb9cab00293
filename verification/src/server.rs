//! The control endpoint: what it reads in a request and what it answers.
//!
//! The host moves the bytes and the JSON; a request of one small shape is read
//! here line by line, and each route is answered here.

use crate::actions::{self, Step};
use crate::json::{text_or_empty, Json, JsonView};
use crate::panes::{self, document_schema, PaneState};
use crate::store::{self, DiskFile, Store};
use crate::text::{
    self, decimal_text, parse_usize, push_decimal, same, same_ignoring_case, split_once, trim,
    two_words,
};
use vstd::prelude::*;
use vstd::string::StringExecFns;

verus! {

/// The state of the panes before anything was done in them.
pub fn fresh_panes(store: Store) -> (r: PaneState)
    ensures
        r@ == (panes::PaneView {
            store: store@,
            conflict: None,
            search: seq![],
            open_input: false,
            renaming: None,
        }),
{
    PaneState {
        store,
        conflict: None,
        search: String::new(),
        open_input: false,
        renaming: None,
    }
}

/// The address of the endpoint on a port of this host.
pub fn control_url(port: u16) -> (r: String)
    ensures
        r@ == "http://127.0.0.1:"@ + text::decimal(port as nat),
{
    let mut out = "http://127.0.0.1:".to_owned();
    push_decimal(&mut out, port as u128);
    out
}

/// A truth value as a word.
pub open spec fn word_of(b: bool) -> Seq<char> {
    if b {
        "true"@
    } else {
        "false"@
    }
}

/// The stamp of what is shown: the epoch of the store, and whether a conflict
/// waits.
pub open spec fn stamp_of(p: panes::PaneView) -> Seq<char> {
    text::decimal(p.store.epoch as nat) + ":"@ + word_of(p.conflict is Some)
}

/// The stamp of what is shown, which moves when the store changes.
pub fn document_version(pane: &PaneState) -> (r: String)
    ensures
        r@ == stamp_of(pane@),
{
    let mut out = decimal_text(pane.store.epoch as u128);
    out.append(":");
    if pane.conflict.is_some() {
        out.append("true");
    } else {
        out.append("false");
    }
    out
}

/// The first line of a request: its method, and its path without the query.
pub open spec fn asked(line: Seq<char>) -> (Seq<char>, Seq<char>) {
    match text::next_word(line) {
        Some((method, rest)) => {
            let target = match text::next_word(rest) {
                Some((target, _)) => target,
                None => "/"@,
            };
            (
                method,
                match text::halves(target, "?"@) {
                    Some((path, _)) => path,
                    None => target,
                },
            )
        },
        None => (seq![], "/"@),
    }
}

/// Reads the first line of a request: its method, and its path without the query.
/// A line without a path asks for `/`.
pub fn read_request(line: &str) -> (r: (String, String))
    ensures
        (r.0@, r.1@) == asked(line@),
{
    match two_words(line) {
        (Some(method), Some(target)) => match split_once(target.as_str(), "?") {
            Some((path, _)) => (method, path),
            None => (method, target),
        },
        (Some(method), None) => {
            proof {
                reveal_strlit("/");
                reveal_strlit("?");
                assert(!"?"@.is_prefix_of("/"@)) by {
                    assert("?"@[0] != "/"@[0]);
                }
                assert("/"@.skip(1) =~= seq![]);
                reveal_with_fuel(text::find, 3);
                assert(!"?"@.is_prefix_of("/"@.skip(1)));
                assert(text::find("/"@, "?"@) is None);
            }
            (method, "/".to_owned())
        },
        _ => (String::new(), "/".to_owned()),
    }
}

/// The length of the body after a header, given the length so far.
pub open spec fn length_after(length: usize, header: Seq<char>) -> usize {
    match text::halves(header, ":"@) {
        Some((name, value)) => if text::same_but_case(name, "content-length"@) {
            match text::parsed(text::trimmed(value)) {
                Some(n) => if n <= usize::MAX {
                    n as usize
                } else {
                    0
                },
                None => 0,
            }
        } else {
            length
        },
        None => length,
    }
}

/// Reads a header, given the length of the body so far: the length after it, or
/// none if the headers have ended, as they do with a blank line. A length that is
/// no number counts as zero.
pub fn read_header(length: usize, header: &str) -> (r: Option<usize>)
    ensures
        r == (if text::trimmed(header@).len() == 0 {
            None
        } else {
            Some(length_after(length, header@))
        }),
{
    if trim(header).as_str().is_empty() {
        return None;
    }
    match split_once(header, ":") {
        Some((name, value)) => if same_ignoring_case(name.as_str(), "content-length") {
            match parse_usize(trim(value.as_str()).as_str()) {
                Some(n) => Some(n),
                None => Some(0),
            }
        } else {
            Some(length)
        },
        None => Some(length),
    }
}

/// How a request is answered.
pub enum Answer {
    /// Send this.
    Send { status: u16, body: Json },
    /// Make `path` canonical where that can be, and read what stands there; hand
    /// it to `client_opened` and send what that returns.
    Load { path: String },
    /// See which notes have a file on disk; hand it to `notes_schema` and send
    /// what that returns.
    List,
    /// Go on with the action so.
    Act(Step),
}

/// How a request is answered, as mathematics.
pub ghost enum AnswerView {
    Send { status: u16, body: JsonView },
    Load { path: Seq<char> },
    List,
    Act(actions::StepView),
}

impl View for Answer {
    type V = AnswerView;

    open spec fn view(&self) -> AnswerView {
        match *self {
            Answer::Send { status, body } => AnswerView::Send { status, body: body@ },
            Answer::Load { path } => AnswerView::Load { path: path@ },
            Answer::List => AnswerView::List,
            Answer::Act(step) => AnswerView::Act(step@),
        }
    }
}

/// The answer to a client that opens a note.
pub open spec fn opened_answer(p: panes::PaneView, id: Seq<char>) -> JsonView {
    JsonView::object().with("ok"@, JsonView::Bool(true)).with("id"@, JsonView::Text(id)).with(
        "document_version"@,
        JsonView::Text(stamp_of(p)),
    )
}

/// The answer to a client that asks for nothing to be opened.
pub open spec fn idle_answer(p: panes::PaneView) -> JsonView {
    JsonView::object().with("ok"@, JsonView::Bool(true)).with(
        "document_version"@,
        JsonView::Text(stamp_of(p)),
    )
}

/// The answer to a client whose note cannot be opened.
pub open spec fn refused_answer(why: Seq<char>) -> JsonView {
    JsonView::object().with("ok"@, JsonView::Bool(false)).with("error"@, JsonView::Text(why))
}

/// The answer to a ping.
pub open spec fn ping_answer(p: panes::PaneView) -> JsonView {
    JsonView::object().with("ok"@, JsonView::Bool(true)).with(
        "app_name"@,
        JsonView::Text("Yedit"@),
    ).with("document_version"@, JsonView::Text(stamp_of(p)))
}

impl panes::PaneView {
    /// The state after a request and how it is answered.
    pub open spec fn routed(
        self,
        method: Seq<char>,
        path: Seq<char>,
        body: JsonView,
        cwd: Option<Seq<char>>,
    ) -> (panes::PaneView, AnswerView) {
        if method == "POST"@ && path == "/open"@ {
            let raw = actions::text_in(body, "path"@);
            if raw.len() == 0 {
                (self, AnswerView::Send { status: 200, body: idle_answer(self) })
            } else {
                (self, AnswerView::Load { path: store::resolved(self.store.home, cwd, raw) })
            }
        } else if method == "GET"@ && path == "/ping"@ {
            (self, AnswerView::Send { status: 200, body: ping_answer(self) })
        } else if method == "GET"@ && path == "/pane/doc"@ {
            (self, AnswerView::Send { status: 200, body: panes::document_of(self.store) })
        } else if method == "GET"@ && path == "/pane/notes"@ {
            (self, AnswerView::List)
        } else if method == "POST"@ && path == "/action"@ {
            let (p, step) = self.handled(body, cwd);
            (p, AnswerView::Act(step))
        } else {
            (self, AnswerView::Send { status: 404, body: JsonView::object() })
        }
    }
}

impl PaneState {
    /// Takes a request up: a client that opens a file, a ping, one of the two
    /// panes, an action, or a route that there is not.
    pub fn handle_request(&mut self, method: &str, path: &str, body: &Json, cwd: Option<&str>) -> (r:
        Answer)
        ensures
            (final(self)@, r@) == old(self)@.routed(
                method@,
                path@,
                body@,
                text::maybe_str(cwd),
            ),
    {
        let posted = same(method, "POST");
        let got = same(method, "GET");
        if posted && same(path, "/open") {
            let raw = text_or_empty(Some(body), "path");
            if raw.as_str().is_empty() {
                let version = document_version(self);
                let body = Json::object().with("ok", Json::Bool(true)).with(
                    "document_version",
                    Json::Text(version),
                );
                Answer::Send { status: 200, body }
            } else {
                Answer::Load { path: self.store.resolve(raw.as_str(), cwd) }
            }
        } else if got && same(path, "/ping") {
            let version = document_version(self);
            let body = Json::object().with("ok", Json::Bool(true)).with(
                "app_name",
                Json::text("Yedit"),
            ).with("document_version", Json::Text(version));
            Answer::Send { status: 200, body }
        } else if got && same(path, "/pane/doc") {
            Answer::Send { status: 200, body: document_schema(self) }
        } else if got && same(path, "/pane/notes") {
            Answer::List
        } else if posted && same(path, "/action") {
            Answer::Act(self.handle_action(body, cwd))
        } else {
            Answer::Send { status: 404, body: Json::object() }
        }
    }

    /// Opens the file of a client and says what came of it.
    pub fn client_opened(&mut self, file: DiskFile) -> (r: Json)
        ensures
            final(self)@ == old(self)@.with_store(old(self)@.store.opened(file@)),
            r@ == (match old(self)@.store.open_result(file@) {
                Ok(id) => opened_answer(final(self)@, id),
                Err(why) => refused_answer(why),
            }),
    {
        match self.store.open(file) {
            Ok(id) => {
                let version = document_version(self);
                Json::object().with("ok", Json::Bool(true)).with("id", Json::Text(id)).with(
                    "document_version",
                    Json::Text(version),
                )
            },
            Err(why) => Json::object().with("ok", Json::Bool(false)).with(
                "error",
                Json::Text(why),
            ),
        }
    }
}

/// The reason that goes with a status.
pub open spec fn reason_of(status: u16) -> Seq<char> {
    if status == 200 {
        "OK"@
    } else if status == 404 {
        "Not Found"@
    } else {
        "Error"@
    }
}

/// What stands above the body of a response, without the blank line.
pub open spec fn response_head(status: u16, length: nat) -> Seq<char> {
    "HTTP/1.1 "@ + text::decimal(status as nat) + " "@ + reason_of(status)
        + "\r\ncontent-type: application/json\r\ncontent-length: "@ + text::decimal(length)
        + "\r\nconnection: close"@
}

/// A response: the status, the length of the body in bytes, and the body.
pub open spec fn response_of(status: u16, body: Seq<char>) -> Seq<char> {
    response_head(status, vstd::utf8::encode_utf8(body).len()) + "\r\n\r\n"@ + body
}

/// The response that carries a serialised body.
pub fn respond_json(status: u16, body: &str) -> (r: String)
    ensures
        r@ == response_of(status, body@),
{
    let mut out = "HTTP/1.1 ".to_owned();
    push_decimal(&mut out, status as u128);
    out.append(" ");
    if status == 200 {
        out.append("OK");
    } else if status == 404 {
        out.append("Not Found");
    } else {
        out.append("Error");
    }
    out.append("\r\ncontent-type: application/json\r\ncontent-length: ");
    push_decimal(&mut out, body.as_bytes().len() as u128);
    out.append("\r\nconnection: close");
    out.append("\r\n\r\n");
    out.append(body);
    out
}

} // verus!
