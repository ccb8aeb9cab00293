//! What a request asks for, what it is answered, and what the client makes of it.

use crate::client;
use crate::json::{self, JsonView};
use crate::manifest;
use crate::osc;
use crate::panes::{self, PaneView};
use crate::paths;
use crate::server::{self, AnswerView};
use crate::store;
use crate::text;
use crate::text_laws;
use vstd::prelude::*;

verus! {

/// Whether a text is one word: not empty, and without spaces.
pub open spec fn is_word(s: Seq<char>) -> bool {
    s.len() > 0 && forall|i: int| 0 <= i < s.len() ==> !text::is_space(#[trigger] s[i])
}

/// Whether a text is nothing but spaces.
pub open spec fn is_blank(s: Seq<char>) -> bool {
    forall|i: int| 0 <= i < s.len() ==> text::is_space(#[trigger] s[i])
}

/// The first line of a request is read for any method and any path: the first word
/// is the method, the second the path, and a query behind the path is left out.
pub proof fn request_is_read(
    before: Seq<char>,
    method: Seq<char>,
    between: Seq<char>,
    path: Seq<char>,
    query: Seq<char>,
    rest: Seq<char>,
)
    requires
        is_blank(before),
        is_word(method),
        is_blank(between) && between.len() > 0,
        is_word(path),
        !path.contains('?'),
        forall|i: int| 0 <= i < query.len() ==> !text::is_space(#[trigger] query[i]),
        rest.len() == 0 || text::is_space(rest[0]),
    ensures
        server::asked(before + method + (between + path + rest)) == (method, path),
        server::asked(before + method + (between + (path + seq!['?'] + query) + rest)) == (
            method,
            path,
        ),
{
    let target = path + seq!['?'] + query;
    reveal_strlit("?");
    assert("?"@ =~= seq!['?']);
    assert forall|i: int| 0 <= i < target.len() implies !text::is_space(#[trigger] target[i]) by {
        if i > path.len() {
            assert(target[i] == query[i - path.len() - 1]);
        } else if i < path.len() {
            assert(target[i] == path[i]);
        }
    }
    assert((between + path + rest)[0] == between[0]);
    assert((between + target + rest)[0] == between[0]);
    text_laws::first_word_is_found(before, method, between + path + rest);
    text_laws::first_word_is_found(before, method, between + target + rest);
    text_laws::first_word_is_found(between, path, rest);
    text_laws::first_word_is_found(between, target, rest);
    text_laws::no_split(path, '?');
    text_laws::split_at(path, '?', query);
}

/// A line of spaces asks for the root with no method, and a line of one word asks
/// for the root.
pub proof fn bare_request_asks_for_the_root(line: Seq<char>, method: Seq<char>)
    requires
        is_blank(line),
        is_word(method),
    ensures
        server::asked(line) == (Seq::<char>::empty(), "/"@),
        server::asked(method + line) == (method, "/"@),
{
    let none = Seq::<char>::empty();
    text_laws::spaces_have_no_word(line);
    assert(method + line =~= none + method + line);
    text_laws::first_word_is_found(none, method, line);
    reveal_strlit("/");
    reveal_strlit("?");
    assert("?"@ =~= seq!['?']);
    assert(!"/"@.contains('?'));
    text_laws::no_split("/"@, '?');
}

/// A header of the length sets it, whatever the case of its name and the spaces
/// around its number; one that is no number, or too large, sets it to zero. Any
/// other line leaves the length.
pub proof fn headers_set_the_length(
    length: usize,
    name: Seq<char>,
    value: Seq<char>,
    n: nat,
)
    requires
        !name.contains(':'),
    ensures
        server::length_after(length, name) == length,
        ({
            let after = server::length_after(length, name + seq![':'] + value);
            &&& !text::same_but_case(name, "content-length"@) ==> after == length
            &&& text::same_but_case(name, "content-length"@) && text::trimmed(value)
                == text::decimal(n) ==> after == (if n <= usize::MAX {
                n
            } else {
                0
            })
            &&& text::same_but_case(name, "content-length"@) ==> match text::parsed(
                text::trimmed(value),
            ) {
                Some(m) => after == (if m <= usize::MAX {
                    m
                } else {
                    0
                }),
                None => after == 0,
            }
        }),
{
    reveal_strlit(":");
    assert(":"@ =~= seq![':']);
    text_laws::no_split(name, ':');
    text_laws::split_at(name, ':', value);
    text_laws::decimal_is_read_back(n);
}

/// The lines of a response: the status with its reason, the type, the length of the
/// body in bytes, the closing of the connection, a blank line, and the body.
pub proof fn response_is_its_lines(status: u16, body: Seq<char>)
    ensures
        server::response_of(status, body) == "HTTP/1.1 "@ + text::decimal(status as nat) + " "@ + (
        if status == 200 {
            "OK"@
        } else if status == 404 {
            "Not Found"@
        } else {
            "Error"@
        }) + "\r\n"@ + "content-type: application/json\r\n"@ + ("content-length: "@
            + text::decimal(vstd::utf8::encode_utf8(body).len()) + "\r\n"@)
            + "connection: close\r\n"@ + "\r\n"@ + body,
{
    reveal_strlit("\r\n");
    reveal_strlit("content-length: ");
    reveal_strlit("content-type: application/json\r\n");
    reveal_strlit("connection: close\r\n");
    reveal_strlit("\r\nconnection: close");
    reveal_strlit("\r\n\r\n");
    reveal_strlit("\r\ncontent-type: application/json\r\ncontent-length: ");
    assert("\r\ncontent-type: application/json\r\ncontent-length: "@ =~= "\r\n"@
        + "content-type: application/json\r\n"@ + "content-length: "@);
    assert("\r\nconnection: close"@ + "\r\n\r\n"@ =~= "\r\n"@ + "connection: close\r\n"@ + "\r\n"@);
    let reason = if status == 200 {
        "OK"@
    } else if status == 404 {
        "Not Found"@
    } else {
        "Error"@
    };
    let n = text::decimal(vstd::utf8::encode_utf8(body).len());
    let start = "HTTP/1.1 "@ + text::decimal(status as nat) + " "@ + reason;
    assert(server::response_of(status, body) =~= start
        + "\r\ncontent-type: application/json\r\ncontent-length: "@ + n + ("\r\nconnection: close"@
        + "\r\n\r\n"@) + body);
    assert(start + ("\r\n"@ + "content-type: application/json\r\n"@ + "content-length: "@) + n + (
    "\r\n"@ + "connection: close\r\n"@ + "\r\n"@) + body =~= start + "\r\n"@
        + "content-type: application/json\r\n"@ + ("content-length: "@ + n + "\r\n"@)
        + "connection: close\r\n"@ + "\r\n"@ + body);
}

proof fn routes_differ()
    ensures
        "POST"@ != "GET"@,
        "/open"@ != "/action"@ && "/ping"@ != "/pane/doc"@ && "/ping"@ != "/pane/notes"@
            && "/pane/doc"@ != "/pane/notes"@,
{
    reveal_strlit("POST");
    reveal_strlit("GET");
    reveal_strlit("/open");
    reveal_strlit("/action");
    reveal_strlit("/ping");
    reveal_strlit("/pane/doc");
    reveal_strlit("/pane/notes");
    assert("POST"@.len() == 4 && "GET"@.len() == 3 && "/open"@.len() == 5 && "/action"@.len() == 7
        && "/ping"@.len() == 5 && "/pane/doc"@.len() == 9 && "/pane/notes"@.len() == 11);
}

/// The routes that are only read: a ping is answered with the name of the app and
/// the stamp, the viewport with the document, the sidebar with its notes; the state
/// stays.
pub proof fn reading_changes_nothing(
    p: PaneView,
    path: Seq<char>,
    body: JsonView,
    cwd: Option<Seq<char>>,
)
    ensures
        ({
            let (q, answer) = p.routed("GET"@, path, body, cwd);
            &&& q == p
            &&& path == "/ping"@ ==> match answer {
                AnswerView::Send { status, body } => {
                    &&& status == 200
                    &&& body.at("ok"@) == JsonView::Bool(true)
                    &&& body.at("app_name"@) == JsonView::Text("Yedit"@)
                    &&& body.at("document_version"@) == JsonView::Text(server::stamp_of(p))
                },
                _ => false,
            }
            &&& path == "/pane/doc"@ ==> answer == (AnswerView::Send {
                status: 200,
                body: panes::document_of(p.store),
            })
            &&& path == "/pane/notes"@ ==> answer == AnswerView::List
            &&& path != "/ping"@ && path != "/pane/doc"@ && path != "/pane/notes"@ ==> match answer {
                AnswerView::Send { status, body } => status == 404 && body
                    == JsonView::Object(seq![]),
                _ => false,
            }
        }),
{
    broadcast use json::object_holds, json::with_at;

    routes_differ();
    reveal_strlit("ok");
    reveal_strlit("app_name");
    reveal_strlit("document_version");
    assert("ok"@.len() == 2 && "app_name"@.len() == 8 && "document_version"@.len() == 16);
}

/// The routes that are posted to: an action is handled; a file is loaded from its
/// path, read from the home directory; and a client that names no file is answered
/// with the stamp.
pub proof fn posting_acts_or_opens(
    p: PaneView,
    path: Seq<char>,
    body: JsonView,
    cwd: Option<Seq<char>>,
)
    ensures
        ({
            let (q, answer) = p.routed("POST"@, path, body, cwd);
            let raw = match body.at("path"@) {
                JsonView::Text(raw) => raw,
                _ => seq![],
            };
            &&& path == "/action"@ ==> q == p.handled(body, cwd).0 && answer == AnswerView::Act(
                p.handled(body, cwd).1,
            )
            &&& path != "/action"@ ==> q == p
            &&& path == "/open"@ && raw.len() > 0 ==> answer == (AnswerView::Load {
                path: store::resolved(p.store.home, cwd, raw),
            })
            &&& path == "/open"@ && raw.len() == 0 ==> match answer {
                AnswerView::Send { status, body } => {
                    &&& status == 200
                    &&& body.at("ok"@) == JsonView::Bool(true)
                    &&& body.at("document_version"@) == JsonView::Text(server::stamp_of(p))
                },
                _ => false,
            }
            &&& path != "/action"@ && path != "/open"@ ==> match answer {
                AnswerView::Send { status, body } => status == 404 && body
                    == JsonView::Object(seq![]),
                _ => false,
            }
        }),
{
    broadcast use json::object_holds, json::with_at;

    routes_differ();
    reveal_strlit("ok");
    reveal_strlit("document_version");
    assert("ok"@.len() == 2 && "document_version"@.len() == 16);
}

/// Any other method is answered with 404.
pub proof fn other_methods_find_nothing(
    p: PaneView,
    method: Seq<char>,
    path: Seq<char>,
    body: JsonView,
    cwd: Option<Seq<char>>,
)
    requires
        method != "GET"@,
        method != "POST"@,
    ensures
        p.routed(method, path, body, cwd).0 == p,
        match p.routed(method, path, body, cwd).1 {
            AnswerView::Send { status, body } => status == 404 && body == JsonView::Object(seq![]),
            _ => false,
        },
{
}

/// The answers to a client that opens a file are told apart: the one has the id of
/// the note and the stamp, the other the reason, and the client tells the user only
/// of the other.
pub proof fn opening_is_told(p: PaneView, id: Seq<char>, why: Seq<char>, path: Seq<char>)
    ensures
        server::opened_answer(p, id).at("ok"@) == JsonView::Bool(true),
        server::opened_answer(p, id).at("id"@) == JsonView::Text(id),
        server::opened_answer(p, id).at("document_version"@) == JsonView::Text(
            server::stamp_of(p),
        ),
        client::failure_in(server::opened_answer(p, id), path) is None,
        server::refused_answer(why).at("ok"@) == JsonView::Bool(false),
        server::refused_answer(why).at("error"@) == JsonView::Text(why),
        client::failure_in(server::refused_answer(why), path) == Some(
            "yedit: open "@ + path + " failed: "@ + why,
        ),
{
    broadcast use json::object_holds, json::with_at;

    reveal_strlit("ok");
    reveal_strlit("id");
    reveal_strlit("error");
    reveal_strlit("document_version");
    assert("ok"@.len() == 2 && "id"@.len() == 2 && "error"@.len() == 5
        && "document_version"@.len() == 16);
    assert("ok"@[0] == 'o' && "id"@[0] == 'i');
}

/// The user is told of every reply that is not plainly a success.
pub proof fn failure_is_told(reply: JsonView, path: Seq<char>)
    ensures
        reply.at("ok"@) == JsonView::Bool(true) <==> client::failure_in(reply, path) is None,
        reply.at("ok"@) != JsonView::Bool(true) ==> client::failure_in(reply, path) == Some(
            "yedit: open "@ + path + " failed: "@ + match reply.at("error"@) {
                JsonView::Text(why) => why,
                _ => "unknown error"@,
            },
        ),
{
}

/// The stamp is the epoch, a colon, and whether a conflict waits.
pub proof fn stamp_is_epoch_and_conflict(p: PaneView)
    ensures
        server::stamp_of(p) == text::decimal(p.store.epoch as nat) + ":"@ + (if p.conflict is Some {
            "true"@
        } else {
            "false"@
        }),
{
}

/// The host and the port stand between the scheme and the first slash behind it, or
/// the end. Another address than one of HTTP has none.
pub proof fn host_and_port_are_found(host_port: Seq<char>, rest: Seq<char>, url: Seq<char>)
    requires
        !host_port.contains('/'),
        !"http://"@.is_prefix_of(url),
    ensures
        client::host_port_of("http://"@ + host_port) == Some(host_port),
        client::host_port_of("http://"@ + host_port + seq!['/'] + rest) == Some(host_port),
        client::host_port_of(url) is None,
{
    reveal_strlit("http://");
    reveal_strlit("/");
    assert("/"@ =~= seq!['/']);
    let a = "http://"@ + host_port;
    let b = "http://"@ + host_port + seq!['/'] + rest;
    assert(a.take(7) =~= "http://"@);
    assert(b.take(7) =~= "http://"@);
    assert("http://"@.is_prefix_of(a) && "http://"@.is_prefix_of(b));
    assert(a.skip(7) =~= host_port);
    assert(b.skip(7) =~= host_port + seq!['/'] + rest);
    text_laws::no_split(host_port, '/');
    text_laws::split_at(host_port, '/', rest);
}

/// A ping asks for the route of the ping, of the host that it names, and ends there.
pub proof fn ping_asks_for_the_ping(host_port: Seq<char>)
    ensures
        client::ping_of(host_port) == "GET /ping HTTP/1.1\r\n"@ + ("Host: "@ + host_port + "\r\n"@)
            + "Connection: close\r\n"@ + "\r\n"@,
        server::asked("GET /ping HTTP/1.1\r\n"@) == ("GET"@, "/ping"@),
{
    reveal_strlit("GET /ping HTTP/1.1\r\n");
    reveal_strlit("GET /ping HTTP/1.1\r\nHost: ");
    reveal_strlit("Host: ");
    reveal_strlit("\r\n");
    reveal_strlit("Connection: close\r\n");
    reveal_strlit("\r\nConnection: close\r\n\r\n");
    reveal_strlit("GET");
    reveal_strlit("/ping");
    reveal_strlit(" HTTP/1.1\r\n");
    assert("GET /ping HTTP/1.1\r\nHost: "@ =~= "GET /ping HTTP/1.1\r\n"@ + "Host: "@);
    assert("\r\nConnection: close\r\n\r\n"@ =~= "\r\n"@ + "Connection: close\r\n"@ + "\r\n"@);
    assert(client::ping_of(host_port) =~= "GET /ping HTTP/1.1\r\n"@ + ("Host: "@ + host_port
        + "\r\n"@) + "Connection: close\r\n"@ + "\r\n"@);
    let none = Seq::<char>::empty();
    assert("GET /ping HTTP/1.1\r\n"@ =~= none + "GET"@ + (seq![' '] + "/ping"@
        + " HTTP/1.1\r\n"@));
    assert(is_word("GET"@));
    assert(is_word("/ping"@));
    assert(!"/ping"@.contains('?'));
    request_is_read(none, "GET"@, seq![' '], "/ping"@, none, " HTTP/1.1\r\n"@);
}

/// The body of a reply stands behind its first blank line, up to the next, if there
/// is one; a reply without a blank line has none.
pub proof fn body_stands_behind_the_blank_line(raw: Seq<char>)
    ensures
        match text::find(raw, "\r\n\r\n"@) {
            Some(i) => {
                let rest = raw.skip(i + 4);
                client::body_of(raw) == Some(
                    text::trimmed(
                        match text::find(rest, "\r\n\r\n"@) {
                            Some(j) => rest.take(j),
                            None => rest,
                        },
                    ),
                )
            },
            None => client::body_of(raw) is None,
        },
{
    reveal_strlit("\r\n\r\n");
    assert("\r\n\r\n"@.len() == 4);
    text_laws::halves_part_the_text(raw, "\r\n\r\n"@);
    if let Some(i) = text::find(raw, "\r\n\r\n"@) {
        text_laws::halves_part_the_text(raw.skip(i + 4), "\r\n\r\n"@);
    }
}

/// The address in the file of the daemon is its text without the spaces around it;
/// a missing file, or one of spaces, has none.
pub proof fn address_is_the_text_of_the_file(a: Seq<char>, url: Seq<char>, b: Seq<char>)
    requires
        url.len() > 0,
        !text::is_space(url[0]),
        !text::is_space(url.last()),
        is_blank(a),
        is_blank(b),
    ensures
        client::address_in(Some(a + url + b)) == Some(url),
        client::address_in(Some(a)) is None,
        client::address_in(None) is None,
{
    text_laws::trim_takes_spaces(a, url, b);
    text_laws::trim_of_spaces_is_empty(a);
}

/// A daemon that answers is used at any look. Without one, the first look starts
/// one, the looks behind it wait, and the fiftieth of these gives up.
pub proof fn looks_go_on_for_five_seconds(look: usize, url: Seq<char>)
    ensures
        client::looked_of(look, Some(url)) == (client::LookView::Found { url }),
        client::looked_of(look, None) is Start <==> look == 0,
        client::looked_of(look, None) is Wait <==> 0 < look < 50,
        client::looked_of(look, None) is GiveUp <==> look >= 50,
        look >= 50 ==> client::looked_of(look, None) == (client::LookView::GiveUp {
            why: "the yedit daemon did not come up within 5s"@,
        }),
        client::TRIES * client::TRY_MS == 5000,
{
}

/// The files of the client and of the manifests have their places below the home
/// directory.
pub proof fn files_are_below_home(home: Seq<char>)
    ensures
        paths::components(client::control_file_of(home)) == paths::components(home) + seq![
            ".yggterm"@,
            "yedit"@,
            "control-url"@,
        ],
        paths::components(manifest::apps_dir_of(home)) == paths::components(home) + seq![
            ".yggterm"@,
            "apps"@,
        ],
{
    reveal_strlit(".yggterm");
    reveal_strlit("yedit");
    reveal_strlit("control-url");
    reveal_strlit("apps");
    assert(".yggterm"@.len() == 8 && "yedit"@.len() == 5 && "control-url"@.len() == 11
        && "apps"@.len() == 4);
    assert(paths::is_bare(".yggterm"@));
    assert(paths::is_bare("yedit"@));
    assert(paths::is_bare("control-url"@));
    assert(paths::is_bare("apps"@));
    let a = paths::joined(home, ".yggterm"@);
    let b = paths::joined(a, "yedit"@);
    paths::joined_components(home, ".yggterm"@);
    paths::joined_components(a, "yedit"@);
    paths::joined_components(b, "control-url"@);
    paths::joined_components(a, "apps"@);
    assert(paths::components(client::control_file_of(home)) =~= paths::components(home) + seq![
        ".yggterm"@,
        "yedit"@,
        "control-url"@,
    ]);
    assert(paths::components(manifest::apps_dir_of(home)) =~= paths::components(home) + seq![
        ".yggterm"@,
        "apps"@,
    ]);
}

/// The manifest names the app and its binary, and has one verb, which starts it
/// without arguments.
pub proof fn manifest_names_the_binary(binary: Seq<char>)
    ensures
        ({
            let m = manifest::manifest_of(binary);
            let verb = m.at("verbs"@).items()[0];
            &&& m.at("name"@) == JsonView::Text("yedit"@)
            &&& m.at("label"@) == JsonView::Text("Yedit"@)
            &&& m.at("icon"@) == JsonView::Text(""@)
            &&& m.at("binary"@) == JsonView::Text(binary)
            &&& m.at("verbs"@).items().len() == 1
            &&& verb.at("id"@) == JsonView::Text("new"@)
            &&& verb.at("label"@) == JsonView::Text("New Yedit"@)
            &&& verb.at("args"@) == JsonView::Array(seq![])
        }),
{
    broadcast use json::object_holds, json::with_at;

    reveal_strlit("name");
    reveal_strlit("label");
    reveal_strlit("icon");
    reveal_strlit("binary");
    reveal_strlit("verbs");
    reveal_strlit("id");
    reveal_strlit("args");
    assert("name"@.len() == 4 && "label"@.len() == 5 && "icon"@.len() == 4 && "binary"@.len() == 6
        && "verbs"@.len() == 5 && "id"@.len() == 2 && "args"@.len() == 4);
    assert("name"@[0] == 'n' && "icon"@[0] == 'i' && "label"@[0] == 'l' && "verbs"@[0] == 'v');
}

/// A declaration names the session, the endpoint and the stamp, each under its key,
/// and has the one pane, in the viewport.
pub proof fn declaration_names_the_session(
    session: Seq<char>,
    control: Seq<char>,
    version: Seq<char>,
)
    ensures
        ({
            let d = osc::declared(session, control, version);
            let pane = d.at("panes"@).items()[0];
            &&& d.at("session"@) == JsonView::Text(session)
            &&& d.at("control"@) == JsonView::Text(control)
            &&& d.at("app_name"@) == JsonView::Text("Yedit"@)
            &&& d.at("document_version"@) == JsonView::Text(version)
            &&& d.at("panes"@).items().len() == 1
            &&& pane.at("id"@) == JsonView::Text("doc"@)
            &&& pane.at("icon"@) == JsonView::Text("🗒\u{fe0e}"@)
            &&& pane.at("title"@) == JsonView::Text("Yedit (tabbed notepad / markdown reader)"@)
            &&& pane.at("placement"@) == JsonView::Text("viewport"@)
        }),
{
    broadcast use json::object_holds, json::with_at;

    reveal_strlit("session");
    reveal_strlit("control");
    reveal_strlit("app_name");
    reveal_strlit("document_version");
    reveal_strlit("panes");
    reveal_strlit("id");
    reveal_strlit("icon");
    reveal_strlit("title");
    reveal_strlit("placement");
    assert("session"@.len() == 7 && "control"@.len() == 7 && "app_name"@.len() == 8
        && "document_version"@.len() == 16 && "panes"@.len() == 5 && "id"@.len() == 2
        && "icon"@.len() == 4 && "title"@.len() == 5 && "placement"@.len() == 9);
    assert("session"@[0] == 's' && "control"@[0] == 'c');
}

/// The number that a character of base64 stands for.
pub open spec fn sextet(c: char) -> int {
    if 'A' <= c <= 'Z' {
        c as int - 'A' as int
    } else if 'a' <= c <= 'z' {
        c as int - 'a' as int + 26
    } else if '0' <= c <= '9' {
        c as int - '0' as int + 52
    } else if c == '+' {
        62
    } else {
        63
    }
}

/// Every byte is read back from the two characters of the base64 over which its bits
/// are spread; the length is a multiple of four, and what is behind the bits is
/// padding, two characters at most.
pub proof fn base64_is_read_back(bytes: Seq<u8>, i: int)
    requires
        0 <= i < bytes.len(),
    ensures
        ({
            let s = osc::base64(bytes);
            let n = bytes.len() as int;
            let q = i / 3 * 4;
            &&& s.len() % 4 == 0
            &&& 3 * s.len() >= 4 * n
            &&& 3 * s.len() <= 4 * n + 8
            &&& i % 3 == 0 ==> bytes[i] == sextet(s[q]) * 4 + sextet(s[q + 1]) / 16
            &&& i % 3 == 1 ==> bytes[i] == sextet(s[q + 1]) % 16 * 16 + sextet(s[q + 2]) / 4
            &&& i % 3 == 2 ==> bytes[i] == sextet(s[q + 2]) % 4 * 64 + sextet(s[q + 3])
            &&& forall|k: int|
                0 <= k < s.len() ==> (#[trigger] s[k] == '=' <==> 6 * k >= 8 * n)
        }),
{
    let s = osc::base64(bytes);
    let n = bytes.len() as int;
    let k = i / 3;
    let q = k * 4;
    length_is_padded(n as nat);
    four_letters(bytes, k);
    assert forall|j: int| 0 <= j < s.len() implies (#[trigger] s[j] == '=' <==> 6 * j >= 8 * n) by {
        letter_is_read_back(bytes, j);
    }
    letter_is_read_back(bytes, q);
    letter_is_read_back(bytes, q + 1);
    let a = osc::byte_at(bytes, 3 * k);
    let b = osc::byte_at(bytes, 3 * k + 1);
    let c = osc::byte_at(bytes, 3 * k + 2);
    if i % 3 == 0 {
        assert(i == 3 * k);
        bytes_are_put_together(a, b, c);
    } else if i % 3 == 1 {
        assert(i == 3 * k + 1);
        letter_is_read_back(bytes, q + 2);
        bytes_are_put_together(a, b, c);
    } else {
        assert(i == 3 * k + 2);
        letter_is_read_back(bytes, q + 2);
        letter_is_read_back(bytes, q + 3);
        bytes_are_put_together(a, b, c);
    }
}

proof fn length_is_padded(n: nat)
    ensures
        osc::base64_len(n) % 4 == 0,
        3 * osc::base64_len(n) >= 4 * n,
        3 * osc::base64_len(n) <= 4 * n + 8,
{
}

proof fn bytes_are_put_together(a: int, b: int, c: int)
    requires
        0 <= a < 256,
        0 <= b < 256,
        0 <= c < 256,
    ensures
        a == a / 4 * 4 + (a % 4 * 16 + b / 16) / 16,
        b == (a % 4 * 16 + b / 16) % 16 * 16 + (b % 16 * 4 + c / 64) / 4,
        c == (b % 16 * 4 + c / 64) % 4 * 64 + c % 64,
{
    let (x, y) = (a / 4, a % 4);
    let (z, w) = (b / 16, b % 16);
    let (u, v) = (c / 64, c % 64);
    assert(a == 4 * x + y && b == 16 * z + w && c == 64 * u + v);
    assert(0 <= y < 4 && 0 <= z < 16 && 0 <= w < 16 && 0 <= u < 4 && 0 <= v < 64);
    divided(y * 16 + z, 16, y, z);
    divided(w * 4 + u, 4, w, u);
}

proof fn letter_is_read_back(bytes: Seq<u8>, k: int)
    requires
        0 <= k < osc::base64_len(bytes.len()),
    ensures
        6 * k < 8 * bytes.len() ==> sextet(osc::base64(bytes)[k]) == osc::six_bits(bytes, k)
            && osc::base64(bytes)[k] != '=',
        6 * k >= 8 * bytes.len() ==> osc::base64(bytes)[k] == '=',
{
    letters_are_read_back();
    let bits = osc::six_bits(bytes, k);
    assert(0 <= bits < 64);
}

proof fn letters_are_read_back()
    ensures
        forall|b: int|
            0 <= b < 64 ==> sextet(#[trigger] osc::letter(b)) == b && osc::letter(b) != '=',
{
}

proof fn four_letters(bytes: Seq<u8>, k: int)
    requires
        0 <= k,
    ensures
        ({
            let a = osc::byte_at(bytes, 3 * k);
            let b = osc::byte_at(bytes, 3 * k + 1);
            let c = osc::byte_at(bytes, 3 * k + 2);
            &&& osc::six_bits(bytes, 4 * k) == a / 4
            &&& osc::six_bits(bytes, 4 * k + 1) == a % 4 * 16 + b / 16
            &&& osc::six_bits(bytes, 4 * k + 2) == b % 16 * 4 + c / 64
            &&& osc::six_bits(bytes, 4 * k + 3) == c % 64
        }),
{
    let a = osc::byte_at(bytes, 3 * k);
    let b = osc::byte_at(bytes, 3 * k + 1);
    let c = osc::byte_at(bytes, 3 * k + 2);
    let d = osc::byte_at(bytes, 3 * k + 3);
    assert(0 <= a < 256 && 0 <= b < 256 && 0 <= c < 256 && 0 <= d < 256);
    where_the_bits_lie(k);
    four_powers();
    bits_of_three(a, b, c, d);
}

proof fn where_the_bits_lie(k: int)
    ensures
        (6 * (4 * k)) / 8 == 3 * k && (6 * (4 * k)) % 8 == 0,
        (6 * (4 * k + 1)) / 8 == 3 * k && (6 * (4 * k + 1)) % 8 == 6,
        (6 * (4 * k + 2)) / 8 == 3 * k + 1 && (6 * (4 * k + 2)) % 8 == 4,
        (6 * (4 * k + 3)) / 8 == 3 * k + 2 && (6 * (4 * k + 3)) % 8 == 2,
{
}

proof fn four_powers()
    ensures
        vstd::arithmetic::power2::pow2(4) == 16,
        vstd::arithmetic::power2::pow2(6) == 64,
        vstd::arithmetic::power2::pow2(8) == 256,
        vstd::arithmetic::power2::pow2(10) == 1024,
{
    vstd::arithmetic::power2::lemma2_to64();
}

proof fn bits_of_three(a: int, b: int, c: int, d: int)
    requires
        0 <= a < 256,
        0 <= b < 256,
        0 <= c < 256,
        0 <= d < 256,
    ensures
        (a * 256 + b) / 1024 % 64 == a / 4,
        (a * 256 + b) / 16 % 64 == a % 4 * 16 + b / 16,
        (b * 256 + c) / 64 % 64 == b % 16 * 4 + c / 64,
        (c * 256 + d) / 256 % 64 == c % 64,
{
    let (x, y) = (a / 4, a % 4);
    let (z, w) = (b / 16, b % 16);
    let (u, v) = (c / 64, c % 64);
    assert(a == 4 * x + y && b == 16 * z + w && c == 64 * u + v);
    assert(0 <= x < 64 && 0 <= y < 4 && 0 <= z < 16 && 0 <= w < 16 && 0 <= u < 4 && 0 <= v < 64);
    divided(a * 256 + b, 1024, x, y * 256 + b);
    divided(x, 64, 0, x);
    divided(a * 256 + b, 16, a * 16 + z, w);
    divided(a * 16 + z, 64, x, y * 16 + z);
    divided(b * 256 + c, 64, b * 4 + u, v);
    divided(b * 4 + u, 64, z, w * 4 + u);
    divided(c * 256 + d, 256, c, d);
}

proof fn divided(n: int, d: int, q: int, r: int)
    requires
        d > 0,
        n == q * d + r,
        0 <= r < d,
    ensures
        n / d == q,
        n % d == r,
{
    vstd::arithmetic::div_mod::lemma_fundamental_div_mod_converse(n, d, q, r);
}

} // verus!
