//! The client: how it finds the daemon, talks to it and tells the user.

use crate::json::{flag_at, text_at, Json, JsonView};
use crate::paths;
use crate::store::{self, Store};
use crate::text::{self, join2, push_decimal, split_once, strip_prefix, trim};
use vstd::prelude::*;
use vstd::string::StringExecFns;

verus! {

/// How often the client looks for a daemon that it has started.
pub const TRIES: usize = 50;

/// How long it sleeps before each look, in milliseconds.
pub const TRY_MS: u64 = 100;

/// How long a ping may take to connect, and to be answered, in milliseconds.
pub const PING_MS: u64 = 800;

/// How long a post may take to connect, in milliseconds.
pub const POST_CONNECT_MS: u64 = 1500;

/// How long a post may take to be answered, in milliseconds.
pub const POST_READ_MS: u64 = 3000;

/// The file in which the daemon leaves its address.
pub open spec fn control_file_of(home: Seq<char>) -> Seq<char> {
    paths::joined(store::state_dir_of(home), "control-url"@)
}

/// The file in which the daemon leaves its address.
pub fn control_url_path(home: &str) -> (r: String)
    ensures
        r@ == control_file_of(home@),
{
    paths::join(Store::state_dir(home).as_str(), "control-url")
}

/// The host and the port in an address, if it is one of HTTP.
pub open spec fn host_port_of(url: Seq<char>) -> Option<Seq<char>> {
    if "http://"@.is_prefix_of(url) {
        let address = url.skip("http://"@.len() as int);
        Some(
            match text::halves(address, "/"@) {
                Some((host_port, _)) => host_port,
                None => address,
            },
        )
    } else {
        None
    }
}

/// The host and the port in an address, if it is one of HTTP.
pub fn host_port(url: &str) -> (r: Option<String>)
    ensures
        text::maybe_text(r) == host_port_of(url@),
{
    match strip_prefix(url, "http://") {
        Some(address) => match split_once(address.as_str(), "/") {
            Some((host_port, _)) => Some(host_port),
            None => Some(address),
        },
        None => None,
    }
}

/// A ping.
pub open spec fn ping_of(host_port: Seq<char>) -> Seq<char> {
    "GET /ping HTTP/1.1\r\nHost: "@ + host_port + "\r\nConnection: close\r\n\r\n"@
}

/// The request that pings the daemon.
pub fn ping_request(host_port: &str) -> (r: String)
    ensures
        r@ == ping_of(host_port@),
{
    let mut out = "GET /ping HTTP/1.1\r\nHost: ".to_owned();
    out.append(host_port);
    out.append("\r\nConnection: close\r\n\r\n");
    out
}

/// A request that posts.
pub open spec fn post_of(host_port: Seq<char>, path: Seq<char>, payload: Seq<char>) -> Seq<char> {
    "POST "@ + path + " HTTP/1.1\r\nHost: "@ + host_port
        + "\r\nContent-Type: application/json\r\nContent-Length: "@ + text::decimal(
        vstd::utf8::encode_utf8(payload).len(),
    ) + "\r\nConnection: close\r\n\r\n"@ + payload
}

/// The request that posts a serialised payload to the daemon.
pub fn post_request(host_port: &str, path: &str, payload: &str) -> (r: String)
    ensures
        r@ == post_of(host_port@, path@, payload@),
{
    let mut out = "POST ".to_owned();
    out.append(path);
    out.append(" HTTP/1.1\r\nHost: ");
    out.append(host_port);
    out.append("\r\nContent-Type: application/json\r\nContent-Length: ");
    push_decimal(&mut out, payload.as_bytes().len() as u128);
    out.append("\r\nConnection: close\r\n\r\n");
    out.append(payload);
    out
}

/// The body of a reply: what stands between the first blank line and the second,
/// or the end, without the spaces at its ends.
pub open spec fn body_of(raw: Seq<char>) -> Option<Seq<char>> {
    match text::halves(raw, "\r\n\r\n"@) {
        Some((_, rest)) => Some(
            text::trimmed(
                match text::halves(rest, "\r\n\r\n"@) {
                    Some((body, _)) => body,
                    None => rest,
                },
            ),
        ),
        None => None,
    }
}

/// The body of a reply, if it has one.
pub fn reply_body(raw: &str) -> (r: Option<String>)
    ensures
        text::maybe_text(r) == body_of(raw@),
{
    match split_once(raw, "\r\n\r\n") {
        Some((_, rest)) => match split_once(rest.as_str(), "\r\n\r\n") {
            Some((body, _)) => Some(trim(body.as_str())),
            None => Some(trim(rest.as_str())),
        },
        None => None,
    }
}

/// The stamp of the document in the reply to a ping. A reply without one is no
/// sign of life.
pub fn version_in(reply: &Json) -> (r: Option<String>)
    ensures
        text::maybe_text(r) == reply@.at("document_version"@).text(),
{
    match text_at(Some(reply), "document_version") {
        Some(version) => Some(version.to_owned()),
        None => None,
    }
}

/// The address in the file of the daemon, if there is one. It is trusted only
/// once it answers a ping.
pub open spec fn address_in(file: Option<Seq<char>>) -> Option<Seq<char>> {
    match file {
        Some(content) => if text::trimmed(content).len() > 0 {
            Some(text::trimmed(content))
        } else {
            None
        },
        None => None,
    }
}

/// The address in the file of the daemon, if there is one.
pub fn address(file: Option<&str>) -> (r: Option<String>)
    ensures
        text::maybe_text(r) == address_in(text::maybe_str(file)),
{
    match file {
        Some(content) => {
            let url = trim(content);
            if url.as_str().is_empty() {
                None
            } else {
                Some(url)
            }
        },
        None => None,
    }
}

/// What the client does after a look for the daemon.
pub enum Look {
    /// It has found one at this address.
    Found { url: String },
    /// It starts one, sleeps, and looks again.
    Start,
    /// It sleeps and looks again.
    Wait,
    /// It gives up with this message.
    GiveUp { why: String },
}

/// What the client does after a look for the daemon, as mathematics.
pub ghost enum LookView {
    Found { url: Seq<char> },
    Start,
    Wait,
    GiveUp { why: Seq<char> },
}

impl View for Look {
    type V = LookView;

    open spec fn view(&self) -> LookView {
        match *self {
            Look::Found { url } => LookView::Found { url: url@ },
            Look::Start => LookView::Start,
            Look::Wait => LookView::Wait,
            Look::GiveUp { why } => LookView::GiveUp { why: why@ },
        }
    }
}

/// What the client does after its look number `look`, the first of which is
/// number zero. `answered` is the address, if one was in the file and answered.
pub open spec fn looked_of(look: usize, answered: Option<Seq<char>>) -> LookView {
    match answered {
        Some(url) => LookView::Found { url },
        None => if look == 0 {
            LookView::Start
        } else if look < TRIES {
            LookView::Wait
        } else {
            LookView::GiveUp { why: "the yedit daemon did not come up within 5s"@ }
        },
    }
}

/// What the client does after its look number `look` for the daemon: a daemon
/// that answers is used; if none does, the first look starts one, and the last
/// gives up.
pub fn looked(look: usize, answered: Option<String>) -> (r: Look)
    ensures
        r@ == looked_of(look, text::maybe_text(answered)),
{
    match answered {
        Some(url) => Look::Found { url },
        None => if look == 0 {
            Look::Start
        } else if look < TRIES {
            Look::Wait
        } else {
            Look::GiveUp { why: "the yedit daemon did not come up within 5s".to_owned() }
        },
    }
}

/// What a run of the program does.
pub enum Run {
    /// It is the daemon.
    Daemon,
    /// It closes the surface of the session.
    Close,
    /// It ends with this message.
    Refuse { why: String },
    /// It opens the files and shows the surface.
    Show,
}

/// What a run of the program does, as mathematics.
pub ghost enum RunView {
    Daemon,
    Close,
    Refuse { why: Seq<char> },
    Show,
}

impl View for Run {
    type V = RunView;

    open spec fn view(&self) -> RunView {
        match *self {
            Run::Daemon => RunView::Daemon,
            Run::Close => RunView::Close,
            Run::Refuse { why } => RunView::Refuse { why: why@ },
            Run::Show => RunView::Show,
        }
    }
}

/// What a run of the program does: a surface is closed only in a session.
pub fn run_of(daemon: bool, close: bool, session: &str) -> (r: Run)
    ensures
        r@ == (if daemon {
            RunView::Daemon
        } else if close {
            if session@.len() == 0 {
                RunView::Refuse {
                    why: "yedit --close needs a yggterm session (YGGTERM_SESSION_ID unset)"@,
                }
            } else {
                RunView::Close
            }
        } else {
            RunView::Show
        }),
{
    if daemon {
        Run::Daemon
    } else if close {
        if session.is_empty() {
            Run::Refuse {
                why: "yedit --close needs a yggterm session (YGGTERM_SESSION_ID unset)".to_owned(),
            }
        } else {
            Run::Close
        }
    } else {
        Run::Show
    }
}

/// A file of the command line as the daemon is to open it: read from the working
/// directory of the client, as that of the daemon is its own.
pub fn absolute_file(file: &str, cwd: Option<&str>) -> (r: String)
    ensures
        r@ == (match cwd {
            Some(cwd) => paths::joined(cwd@, file@),
            None => file@,
        }),
{
    match cwd {
        Some(cwd) => paths::join(cwd, file),
        None => file.to_owned(),
    }
}

/// What the client posts to open a file.
pub fn open_payload(path: &str) -> (r: Json)
    ensures
        r@ == JsonView::object().with("path"@, JsonView::Text(path@)),
{
    Json::object().with("path", Json::text(path))
}

/// What the user is told of a file that the daemon did not open.
pub open spec fn failure_in(reply: JsonView, path: Seq<char>) -> Option<Seq<char>> {
    if reply.at("ok"@).flag() == Some(true) {
        None
    } else {
        Some(
            "yedit: open "@ + path + " failed: "@ + match reply.at("error"@).text() {
                Some(why) => why,
                None => "unknown error"@,
            },
        )
    }
}

/// What the user is told of a file that the daemon did not open.
pub fn open_failure(reply: &Json, path: &str) -> (r: Option<String>)
    ensures
        text::maybe_text(r) == failure_in(reply@, path@),
{
    match flag_at(Some(reply), "ok") {
        Some(true) => None,
        _ => {
            let mut out = join2("yedit: open ", path);
            out.append(" failed: ");
            match text_at(Some(reply), "error") {
                Some(why) => {
                    out.append(why);
                },
                None => {
                    out.append("unknown error");
                },
            }
            Some(out)
        },
    }
}

/// What the user is told outside a session, where there is no surface.
pub fn outside_message(control_url: &str) -> (r: String)
    ensures
        r@ == "yedit: not inside yggterm (YGGTERM_SESSION_ID unset).\nDaemon control endpoint at "@
            + control_url@ + " — the document surface needs the yggterm GUI."@,
{
    let mut out = join2(
        "yedit: not inside yggterm (YGGTERM_SESSION_ID unset).\nDaemon control endpoint at ",
        control_url,
    );
    out.append(" — the document surface needs the yggterm GUI.");
    out
}

} // verus!
