use base64::Engine;
use yedit::actions::Step;
use yedit::client::{
    absolute_file, address, control_url_path, host_port, looked, open_failure, open_payload,
    outside_message, ping_request, post_request, reply_body, run_of, version_in, Look, Run, TRIES,
    TRY_MS,
};
use yedit::json::{flag_at, text_at, Json};
use yedit::manifest::{apps_dir, manifest_path, manifest_value};
use yedit::osc::{close_payload, declare_payload, emit, emit_close, emit_declare, frame};
use yedit::panes::PaneState;
use yedit::render::{markdown_to_html, page_html};
use yedit::server::{
    control_url, document_version, fresh_panes, read_header, read_request, respond_json, Answer,
};
use yedit::store::{DiskFile, Found, Store};

fn to_value(json: &Json) -> serde_json::Value {
    match json {
        Json::Null => serde_json::Value::Null,
        Json::Bool(b) => serde_json::Value::Bool(*b),
        Json::Number(n) => serde_json::from_str(n).unwrap(),
        Json::Text(t) => serde_json::Value::String(t.clone()),
        Json::Array(items) => serde_json::Value::Array(items.iter().map(to_value).collect()),
        Json::Object(members) => serde_json::Value::Object(
            members.iter().map(|(key, value)| (key.clone(), to_value(value))).collect(),
        ),
    }
}

fn parsed(text: &str) -> serde_json::Value {
    serde_json::from_str(text).unwrap()
}

fn pane() -> PaneState {
    fresh_panes(Store::empty("/home/u".to_string(), true))
}

fn body_length(headers: &[&str]) -> usize {
    let mut length = 0;
    for header in headers {
        match read_header(length, header) {
            Some(now) => length = now,
            None => return length,
        }
    }
    length
}

#[test]
fn manifest_names_match_the_file_stem_and_binary_is_absolute() {
    let value = to_value(&manifest_value("/usr/local/bin/yedit"));
    assert_eq!(value["name"], "yedit");
    assert!(value["binary"].as_str().unwrap().starts_with('/'));
    assert!(value["verbs"].as_array().unwrap().len() == 1);
    assert_eq!(
        value,
        parsed(
            r#"{"name":"yedit","label":"Yedit","icon":"","binary":"/usr/local/bin/yedit",
                "verbs":[{"id":"new","label":"New Yedit","args":[]}]}"#
        )
    );
    assert_eq!(manifest_path(&apps_dir("/home/u")), "/home/u/.yggterm/apps/yedit.json");
}

#[test]
fn request_lines() {
    let read = |line: &str| {
        let (method, path) = read_request(line);
        format!("{method} {path}")
    };
    assert_eq!(read("GET /ping HTTP/1.1\r\n"), "GET /ping");
    assert_eq!(read("POST   /open?x=1?y\r\n"), "POST /open");
    assert_eq!(read("GET\r\n"), "GET /");
    assert_eq!(read("\r\n"), " /");
    assert_eq!(read("GET ?q HTTP/1.1"), "GET ");
}

#[test]
fn headers_give_the_length_of_the_body() {
    assert_eq!(body_length(&["Host: a:1\r\n", "CONTENT-length:  12 \r\n", "X: y\r\n", "\r\n"]), 12);
    assert_eq!(body_length(&["Content-Length: 3\r\n", "content-length: many\r\n", "\r\n"]), 0);
    assert_eq!(body_length(&["Content-Length: 3\r\n", "\r\n", "Content-Length: 9\r\n"]), 3);
    assert_eq!(body_length(&["no colon\r\n", ""]), 0);
    assert_eq!(read_header(5, " \t\r\n"), None);
    assert_eq!(read_header(5, "Content-Length : 7\r\n"), Some(5));
    assert_eq!(read_header(5, "Content-Length: 99999999999999999999\r\n"), Some(0));
}

#[test]
fn what_the_client_posts_the_endpoint_reads() {
    let payload = "{\"path\":\"/tmp/\u{e9}.md\"}";
    let request = post_request("127.0.0.1:80", "/open", payload);
    let lines: Vec<&str> = request.split_inclusive("\r\n").collect();
    assert_eq!(read_request(lines[0]), ("POST".to_string(), "/open".to_string()));
    assert_eq!(body_length(&lines[1..]), payload.len());
    assert!(request.ends_with(&format!("\r\n\r\n{payload}")));
    assert_eq!(
        ping_request("127.0.0.1:80"),
        "GET /ping HTTP/1.1\r\nHost: 127.0.0.1:80\r\nConnection: close\r\n\r\n"
    );
}

#[test]
fn what_the_endpoint_sends_the_client_reads() {
    assert_eq!(
        respond_json(200, "{\"a\":\"\u{e9}\"}"),
        "HTTP/1.1 200 OK\r\ncontent-type: application/json\r\ncontent-length: 10\r\nconnection: close\r\n\r\n{\"a\":\"\u{e9}\"}"
    );
    assert!(respond_json(404, "{}").starts_with("HTTP/1.1 404 Not Found\r\n"));
    assert!(respond_json(500, "{}").starts_with("HTTP/1.1 500 Error\r\n"));
    assert_eq!(reply_body(&respond_json(200, " {\"a\":1}\n")).as_deref(), Some("{\"a\":1}"));
    assert_eq!(reply_body("HTTP/1.1 200 OK\r\n\r\nx\r\n\r\ny").as_deref(), Some("x"));
    assert_eq!(reply_body("no body"), None);
    let reply = Json::object().with("document_version", Json::text("1:false"));
    assert_eq!(version_in(&reply).as_deref(), Some("1:false"));
    assert_eq!(version_in(&Json::Null), None);
}

#[test]
fn routes() {
    let mut pane = pane();
    let send = |pane: &mut PaneState, method: &str, path: &str, body: &Json| {
        match pane.handle_request(method, path, body, None) {
            Answer::Send { status, body } => (status, to_value(&body)),
            _ => panic!("{method} {path} is answered at once"),
        }
    };
    assert_eq!(
        send(&mut pane, "GET", "/ping", &Json::Null),
        (200, parsed(r#"{"ok":true,"app_name":"Yedit","document_version":"1:false"}"#))
    );
    assert_eq!(
        send(&mut pane, "POST", "/open", &Json::Null),
        (200, parsed(r#"{"ok":true,"document_version":"1:false"}"#))
    );
    assert_eq!(
        send(&mut pane, "GET", "/pane/doc", &Json::Null),
        (200, parsed(r#"{"title":"Yedit","widgets":[]}"#))
    );
    for (method, path) in [("GET", "/open"), ("POST", "/ping"), ("GET", "/"), ("", "/"), ("get", "/ping")] {
        assert_eq!(send(&mut pane, method, path, &Json::Null), (404, parsed("{}")), "{method} {path}");
    }
    assert!(matches!(pane.handle_request("GET", "/pane/notes", &Json::Null, None), Answer::List));
    let body = Json::object().with("action", Json::text("toggle_open_input"));
    assert!(matches!(
        pane.handle_request("POST", "/action", &body, None),
        Answer::Act(Step::Done(_))
    ));
    assert!(pane.open_input);
}

#[test]
fn a_client_opens_a_file() {
    let mut pane = pane();
    let path = match pane.handle_request("POST", "/open", &open_payload("~/a.md"), None) {
        Answer::Load { path } => path,
        _ => panic!("the file is loaded first"),
    };
    assert_eq!(path, "/home/u/a.md");
    let reply = pane.client_opened(DiskFile { path: path.clone(), found: Found::Unreadable });
    assert_eq!(to_value(&reply), parsed(r#"{"ok":false,"error":"reading /home/u/a.md"}"#));
    assert_eq!(
        open_failure(&reply, &path).as_deref(),
        Some("yedit: open /home/u/a.md failed: reading /home/u/a.md")
    );
    let reply = pane.client_opened(DiskFile { path: path.clone(), found: Found::Missing });
    assert_eq!(flag_at(Some(&reply), "ok"), Some(true));
    assert_eq!(text_at(Some(&reply), "id"), pane.store.active_id.as_deref());
    assert_eq!(text_at(Some(&reply), "document_version"), Some("2:false"));
    assert_eq!(document_version(&pane), "2:false");
    assert_eq!(open_failure(&reply, &path), None);
    assert_eq!(
        open_failure(&Json::Null, "x").as_deref(),
        Some("yedit: open x failed: unknown error")
    );
}

#[test]
fn addresses() {
    assert_eq!(control_url_path("/home/u"), "/home/u/.yggterm/yedit/control-url");
    assert_eq!(control_url(4321), "http://127.0.0.1:4321");
    assert_eq!(host_port(&control_url(4321)).as_deref(), Some("127.0.0.1:4321"));
    assert_eq!(host_port("http://h:1/x/y").as_deref(), Some("h:1"));
    assert_eq!(host_port("https://h:1"), None);
    assert_eq!(address(Some(" http://h:1\n")).as_deref(), Some("http://h:1"));
    assert_eq!(address(Some(" \n")), None);
    assert_eq!(address(None), None);
}

#[test]
fn the_client_starts_a_daemon_and_waits_for_it() {
    assert!(matches!(looked(0, Some("u".to_string())), Look::Found { url } if url == "u"));
    assert!(matches!(looked(0, None), Look::Start));
    assert!(matches!(looked(1, None), Look::Wait));
    assert!(matches!(looked(TRIES - 1, None), Look::Wait));
    assert!(matches!(looked(TRIES, Some("u".to_string())), Look::Found { .. }));
    assert!(matches!(
        looked(TRIES, None),
        Look::GiveUp { why } if why == "the yedit daemon did not come up within 5s"
    ));
    assert_eq!(TRIES as u64 * TRY_MS, 5000);
}

#[test]
fn what_a_run_does() {
    assert!(matches!(run_of(true, true, ""), Run::Daemon));
    assert!(matches!(run_of(false, true, "s"), Run::Close));
    assert!(matches!(
        run_of(false, true, ""),
        Run::Refuse { why } if why == "yedit --close needs a yggterm session (YGGTERM_SESSION_ID unset)"
    ));
    assert!(matches!(run_of(false, false, ""), Run::Show));
    assert_eq!(absolute_file("a.md", Some("/w")), "/w/a.md");
    assert_eq!(absolute_file("/a.md", Some("/w")), "/a.md");
    assert_eq!(absolute_file("a.md", None), "a.md");
    assert_eq!(
        outside_message("http://h:1"),
        "yedit: not inside yggterm (YGGTERM_SESSION_ID unset).\nDaemon control endpoint at http://h:1 — the document surface needs the yggterm GUI."
    );
}

#[test]
fn frames_carry_their_payload_in_base64() {
    assert_eq!(frame("v", "a", "e"), "\u{1b}]7717;v;a;e\u{7}");
    assert_eq!(emit("v", "a", "hi\u{7};"), "\u{1b}]7717;v;a;aGkHOw==\u{7}");
    let payload = declare_payload("s1", "http://h:1", "3:false");
    assert_eq!(
        to_value(&payload),
        parsed(
            r#"{"session":"s1","control":"http://h:1","app_name":"Yedit","document_version":"3:false",
                "panes":[{"id":"doc","icon":"🗒︎","title":"Yedit (tabbed notepad / markdown reader)","placement":"viewport"}]}"#
        )
    );
    let text = to_value(&payload).to_string();
    let sent = emit_declare(&text);
    let encoded = sent
        .strip_prefix("\u{1b}]7717;sidebar;declare;")
        .and_then(|rest| rest.strip_suffix('\u{7}'))
        .unwrap();
    let decoded = base64::engine::general_purpose::STANDARD.decode(encoded).unwrap();
    assert_eq!(String::from_utf8(decoded).unwrap(), text);
    let text = to_value(&close_payload("s1")).to_string();
    assert_eq!(text, r#"{"session":"s1"}"#);
    assert_eq!(emit_close(&text), "\u{1b}]7717;sidebar;close;eyJzZXNzaW9uIjoiczEifQ==\u{7}");
}

#[test]
fn the_encoding_is_padded_and_uses_the_whole_alphabet() {
    let encoded = |payload: &str| {
        let sent = emit("", "", payload);
        sent["\u{1b}]7717;;;".len()..sent.len() - 1].to_string()
    };
    for (payload, expected) in [
        ("", ""),
        ("f", "Zg=="),
        ("fo", "Zm8="),
        ("foo", "Zm9v"),
        ("foob", "Zm9vYg=="),
        ("fooba", "Zm9vYmE="),
        ("foobar", "Zm9vYmFy"),
        ("~~~???", "fn5+Pz8/"),
        ("\u{ff}\u{10ffff}", "w7/0j7+/"),
    ] {
        assert_eq!(encoded(payload), expected, "{payload:?}");
    }
}

#[test]
fn markdown_has_tables_and_the_other_extensions() {
    assert_eq!(markdown_to_html("# a"), "<h1>a</h1>\n");
    let table = markdown_to_html("| a | b |\n|---|---|\n| 1 | 2 |\n");
    assert!(table.contains("<table>") && table.contains("<td>2</td>"));
    assert_eq!(markdown_to_html("~~gone~~"), "<p><del>gone</del></p>\n");
    assert!(markdown_to_html("- [x] done").contains("type=\"checkbox\""));
    assert!(markdown_to_html("a[^1]\n\n[^1]: note").contains("footnote"));
    assert_eq!(markdown_to_html("\"q\" -- $x$"), "<p>\"q\" -- $x$</p>\n");
}

#[test]
fn the_page_is_whole() {
    let page = page_html();
    assert!(page.starts_with("<!doctype html>\n<html>"));
    assert!(page.ends_with("</html>\n"));
    assert!(page.contains("prefers-color-scheme: dark"));
    assert_eq!(page.matches("<script>").count(), 1);
    assert_eq!(page.len(), PAGE_BYTES);
}

const PAGE_BYTES: usize = 10665;
