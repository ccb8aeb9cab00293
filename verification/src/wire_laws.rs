//! What the client and the endpoint write to each other is read back, and what the
//! terminal is sent is one frame.

use crate::client;
use crate::osc;
use crate::server;
use crate::text;
use crate::text_laws;
use vstd::prelude::*;

verus! {

/// Whether a carriage return is always followed, two characters on, by another
/// character than a carriage return: there is no blank line, and none can begin at
/// the end.
spec fn unbroken(s: Seq<char>) -> bool {
    forall|i: int| 0 <= i < s.len() && #[trigger] s[i] == '\r' ==> i + 2 < s.len() && s[i + 2] != '\r'
}

proof fn unbroken_add(a: Seq<char>, b: Seq<char>)
    requires
        unbroken(a),
        unbroken(b),
    ensures
        unbroken(a + b),
{
    let s = a + b;
    assert forall|i: int| 0 <= i < s.len() && #[trigger] s[i] == '\r' implies i + 2 < s.len() && s[i
        + 2] != '\r' by {
        if i < a.len() {
            assert(a[i] == '\r');
        } else {
            assert(b[i - a.len()] == '\r');
        }
    }
}

proof fn unbroken_decimal(n: nat)
    ensures
        unbroken(text::decimal(n)),
{
    text_laws::decimal_is_read_back(n);
}

proof fn unbroken_head(status: u16, length: nat)
    ensures
        unbroken(server::response_head(status, length)),
{
    reveal_strlit("HTTP/1.1 ");
    reveal_strlit(" ");
    reveal_strlit("OK");
    reveal_strlit("Not Found");
    reveal_strlit("Error");
    reveal_strlit("\r\ncontent-type: application/json\r\ncontent-length: ");
    reveal_strlit("\r\nconnection: close");
    unbroken_decimal(status as nat);
    unbroken_decimal(length);
    let a = "HTTP/1.1 "@ + text::decimal(status as nat);
    let b = a + " "@;
    let c = b + server::reason_of(status);
    let d = c + "\r\ncontent-type: application/json\r\ncontent-length: "@;
    let e = d + text::decimal(length);
    assert(unbroken("HTTP/1.1 "@));
    assert(unbroken(" "@));
    assert(unbroken(server::reason_of(status)));
    assert(unbroken("\r\ncontent-type: application/json\r\ncontent-length: "@));
    assert(unbroken("\r\nconnection: close"@));
    unbroken_add("HTTP/1.1 "@, text::decimal(status as nat));
    unbroken_add(a, " "@);
    unbroken_add(b, server::reason_of(status));
    unbroken_add(c, "\r\ncontent-type: application/json\r\ncontent-length: "@);
    unbroken_add(d, text::decimal(length));
    unbroken_add(e, "\r\nconnection: close"@);
}

/// The client reads back the body that the endpoint sends, without the spaces at
/// its ends, if the body has no blank line in it; serialised JSON has none.
pub proof fn reply_is_read_back(status: u16, body: Seq<char>)
    requires
        text::find(body, "\r\n\r\n"@) is None,
    ensures
        client::body_of(server::response_of(status, body)) == Some(text::trimmed(body)),
{
    reveal_strlit("\r\n\r\n");
    let blank = "\r\n\r\n"@;
    let head = server::response_head(status, vstd::utf8::encode_utf8(body).len());
    let behind = blank + body;
    let whole = server::response_of(status, body);
    unbroken_head(status, vstd::utf8::encode_utf8(body).len());
    assert(whole =~= head + behind);
    assert(blank.is_prefix_of(behind)) by {
        assert(behind.take(4) =~= blank);
    }
    assert forall|i: int| 0 <= i < head.len() implies !blank.is_prefix_of(
        (#[trigger] (head + behind).skip(i)),
    ) by {
        let t = (head + behind).skip(i);
        assert(t[0] == head[i]);
        if blank.is_prefix_of(t) {
            assert(blank[0] == t[0]);
            assert(blank[2] == t[2]);
            assert(t[2] == head[i + 2]);
        }
    }
    text_laws::find_behind(head, behind, blank);
    assert(whole.skip(head.len() as int + blank.len()) =~= body);
}

/// The first line of a post.
pub open spec fn post_line(path: Seq<char>) -> Seq<char> {
    "POST "@ + path + " HTTP/1.1\r\n"@
}

/// The headers of a post, in their order, with the blank line that ends them.
pub open spec fn post_headers(host_port: Seq<char>, length: nat) -> Seq<Seq<char>> {
    seq![
        "Host: "@ + host_port + "\r\n"@,
        "Content-Type: application/json\r\n"@,
        "Content-Length: "@ + text::decimal(length) + "\r\n"@,
        "Connection: close\r\n"@,
        "\r\n"@,
    ]
}

/// A post is its first line, its headers and its payload.
pub proof fn post_is_its_lines(host_port: Seq<char>, path: Seq<char>, payload: Seq<char>)
    ensures
        ({
            let h = post_headers(host_port, vstd::utf8::encode_utf8(payload).len());
            client::post_of(host_port, path, payload) == post_line(path) + h[0] + h[1] + h[2]
                + h[3] + h[4] + payload
        }),
{
    reveal_strlit(" HTTP/1.1\r\n");
    reveal_strlit(" HTTP/1.1\r\nHost: ");
    reveal_strlit("Host: ");
    reveal_strlit("\r\n");
    reveal_strlit("Content-Type: application/json\r\n");
    reveal_strlit("Content-Length: ");
    reveal_strlit("\r\nContent-Type: application/json\r\nContent-Length: ");
    reveal_strlit("Connection: close\r\n");
    reveal_strlit("\r\nConnection: close\r\n\r\n");
    let h = post_headers(host_port, vstd::utf8::encode_utf8(payload).len());
    assert(" HTTP/1.1\r\nHost: "@ =~= " HTTP/1.1\r\n"@ + "Host: "@);
    assert("\r\nContent-Type: application/json\r\nContent-Length: "@ =~= "\r\n"@
        + "Content-Type: application/json\r\n"@ + "Content-Length: "@);
    assert("\r\nConnection: close\r\n\r\n"@ =~= "\r\n"@ + "Connection: close\r\n"@ + "\r\n"@);
    assert(client::post_of(host_port, path, payload) =~= post_line(path) + h[0] + h[1] + h[2] + h[3]
        + h[4] + payload);
}

/// A word at the start of a text, with a space behind it, is its first word.
proof fn word_comes_first(word: Seq<char>, rest: Seq<char>)
    requires
        word.len() > 0,
        forall|i: int| 0 <= i < word.len() ==> !text::is_space(#[trigger] word[i]),
        rest.len() > 0,
        text::is_space(rest[0]),
    ensures
        text::next_word(word + rest) == Some((word, rest)),
{
    let s = word + rest;
    assert(s[0] == word[0]);
    assert(text::after_space(s) == s);
    first_space_behind(word, rest);
    assert(s.take(word.len() as int) =~= word);
    assert(s.skip(word.len() as int) =~= rest);
}

proof fn first_space_behind(word: Seq<char>, rest: Seq<char>)
    requires
        forall|i: int| 0 <= i < word.len() ==> !text::is_space(#[trigger] word[i]),
        rest.len() > 0,
        text::is_space(rest[0]),
    ensures
        text::first_space(word + rest) == word.len(),
    decreases word.len(),
{
    let s = word + rest;
    if word.len() > 0 {
        assert(s[0] == word[0]);
        assert(s.skip(1) =~= word.skip(1) + rest);
        first_space_behind(word.skip(1), rest);
    } else {
        assert(s =~= rest);
    }
}

/// The endpoint reads back the method and the path of a post: a path without
/// spaces and without a query.
pub proof fn request_line_is_read_back(path: Seq<char>)
    requires
        path.len() > 0,
        forall|i: int| 0 <= i < path.len() ==> !text::is_space(#[trigger] path[i]),
        !path.contains('?'),
    ensures
        server::asked(post_line(path)) == ("POST"@, path),
{
    reveal_strlit("POST ");
    reveal_strlit("POST");
    reveal_strlit(" HTTP/1.1\r\n");
    reveal_strlit("?");
    let tail = " HTTP/1.1\r\n"@;
    let rest = seq![' '] + path + tail;
    let more = path + tail;
    assert("POST "@ =~= "POST"@ + seq![' ']);
    assert(post_line(path) =~= "POST"@ + rest);
    word_comes_first("POST"@, rest);
    assert(rest.skip(1) =~= more);
    assert(more[0] == path[0]);
    assert(text::after_space(more) == more);
    assert(text::after_space(rest) == more);
    word_comes_first(path, tail);
    assert(text::next_word(rest) == text::next_word(more));
    assert("?"@ =~= seq!['?']);
    text_laws::no_split(path, '?');
}

/// A header whose name is not that of the length leaves the length.
proof fn other_header_leaves_the_length(name: Seq<char>, value: Seq<char>, length: usize)
    requires
        !name.contains(':'),
        name.len() != 14,
    ensures
        server::length_after(length, name + seq![':'] + value) == length,
{
    reveal_strlit(":");
    reveal_strlit("content-length");
    assert(":"@ =~= seq![':']);
    text_laws::split_at(name, ':', value);
}

proof fn length_header_sets_the_length(n: nat, length: usize)
    requires
        n <= usize::MAX,
    ensures
        server::length_after(length, "Content-Length: "@ + text::decimal(n) + "\r\n"@) == n,
{
    reveal_strlit(":");
    reveal_strlit("\r\n");
    reveal_strlit("Content-Length: ");
    reveal_strlit("Content-Length");
    reveal_strlit("content-length");
    let name = "Content-Length"@;
    let value = seq![' '] + text::decimal(n) + "\r\n"@;
    assert(":"@ =~= seq![':']);
    assert("Content-Length: "@ =~= name + seq![':'] + seq![' ']);
    assert("Content-Length: "@ + text::decimal(n) + "\r\n"@ =~= name + seq![':'] + value);
    text_laws::split_at(name, ':', value);
    text_laws::decimal_is_read_back(n);
    text_laws::trim_takes_spaces(seq![' '], text::decimal(n), "\r\n"@);
    assert(text::same_but_case(name, "content-length"@));
}

/// The endpoint reads back the length of the payload of a post: the headers before
/// the blank line leave that length, and the blank line ends them.
pub proof fn headers_are_read_back(host_port: Seq<char>, n: nat)
    requires
        n <= usize::MAX,
    ensures
        ({
            let h = post_headers(host_port, n);
            let a = server::length_after(0, h[0]);
            let b = server::length_after(a, h[1]);
            let c = server::length_after(b, h[2]);
            let d = server::length_after(c, h[3]);
            &&& d == n
            &&& text::trimmed(h[4]).len() == 0
        }),
{
    reveal_strlit("Host: ");
    reveal_strlit("Host");
    reveal_strlit("\r\n");
    reveal_strlit("Content-Type: application/json\r\n");
    reveal_strlit("Content-Type");
    reveal_strlit(" application/json\r\n");
    reveal_strlit("Connection: close\r\n");
    reveal_strlit("Connection");
    reveal_strlit(" close\r\n");
    let h = post_headers(host_port, n);
    assert(h[0] =~= "Host"@ + seq![':'] + (seq![' '] + host_port + "\r\n"@));
    assert(h[1] =~= "Content-Type"@ + seq![':'] + " application/json\r\n"@);
    assert(h[3] =~= "Connection"@ + seq![':'] + " close\r\n"@);
    other_header_leaves_the_length("Host"@, seq![' '] + host_port + "\r\n"@, 0);
    other_header_leaves_the_length("Content-Type"@, " application/json\r\n"@, 0);
    length_header_sets_the_length(n, 0);
    other_header_leaves_the_length("Connection"@, " close\r\n"@, n as usize);
    reveal_with_fuel(text::after_space, 3);
    assert(h[4].skip(1).skip(1) =~= seq![]);
}

/// The client reads back the host and the port of the address that the endpoint
/// leaves in its file.
pub proof fn address_is_read_back(port: u16)
    ensures
        ({
            let url = "http://127.0.0.1:"@ + text::decimal(port as nat);
            &&& client::address_in(Some(url)) == Some(url)
            &&& client::host_port_of(url) == Some("127.0.0.1:"@ + text::decimal(port as nat))
        }),
{
    reveal_strlit("http://127.0.0.1:");
    reveal_strlit("http://");
    reveal_strlit("127.0.0.1:");
    reveal_strlit("/");
    let digits = text::decimal(port as nat);
    let url = "http://127.0.0.1:"@ + digits;
    let address = "127.0.0.1:"@ + digits;
    text_laws::decimal_is_read_back(port as nat);
    assert(url =~= "http://"@ + address);
    assert("http://"@.is_prefix_of(url)) by {
        assert(url.take(7) =~= "http://"@);
    }
    assert(url.skip(7) =~= address);
    assert("/"@ =~= seq!['/']);
    assert(!address.contains('/')) by {
        assert forall|i: int| 0 <= i < address.len() implies address[i] != '/' by {
            if i >= 10 {
                assert(address[i] == digits[i - 10]);
            }
        }
    }
    text_laws::no_split(address, '/');
    assert(url.last() == digits.last());
    assert(seq![] + url + seq![] =~= url);
    text_laws::trim_takes_spaces(seq![], url, seq![]);
}

/// Whether a character occurs in base64: a letter, a digit, `+`, `/`, or `=`.
pub open spec fn is_base64(c: char) -> bool {
    ||| 'A' <= c <= 'Z'
    ||| 'a' <= c <= 'z'
    ||| '0' <= c <= '9'
    ||| c == '+'
    ||| c == '/'
    ||| c == '='
}

/// The base64 of bytes has no other characters than those of base64, so no
/// semicolon and no control character.
pub proof fn base64_is_plain(bytes: Seq<u8>)
    ensures
        forall|i: int|
            0 <= i < osc::base64(bytes).len() ==> is_base64(#[trigger] osc::base64(bytes)[i]),
{
}

/// A frame is one frame: its terminator stands at its end only, and its fields are
/// split by the semicolons into the verb, the action and the encoded payload.
pub proof fn frame_is_whole(verb: Seq<char>, action: Seq<char>, encoded: Seq<char>)
    requires
        !verb.contains(';') && !verb.contains('\u{7}'),
        !action.contains(';') && !action.contains('\u{7}'),
        forall|i: int| 0 <= i < encoded.len() ==> is_base64(#[trigger] encoded[i]),
    ensures
        ({
            let f = osc::frame_of(verb, action, encoded);
            &&& f.last() == '\u{7}'
            &&& forall|i: int| 0 <= i < f.len() - 1 ==> #[trigger] f[i] != '\u{7}'
            &&& "\u{1b}]7717;"@.is_prefix_of(f)
            &&& text::halves(f.skip("\u{1b}]7717;"@.len() as int), ";"@) == Some(
                (verb, action + ";"@ + encoded + "\u{7}"@),
            )
            &&& text::halves(action + ";"@ + encoded + "\u{7}"@, ";"@) == Some(
                (action, encoded + "\u{7}"@),
            )
        }),
{
    reveal_strlit("\u{1b}]7717;");
    reveal_strlit(";");
    reveal_strlit("\u{7}");
    let intro = "\u{1b}]7717;"@;
    let f = osc::frame_of(verb, action, encoded);
    let tail = encoded + "\u{7}"@;
    assert(";"@ =~= seq![';']);
    assert(f.take(intro.len() as int) =~= intro);
    assert(action + ";"@ + encoded + "\u{7}"@ =~= action + seq![';'] + tail);
    assert(f.skip(intro.len() as int) =~= verb + seq![';'] + (action + ";"@ + encoded + "\u{7}"@));
    text_laws::split_at(verb, ';', action + ";"@ + encoded + "\u{7}"@);
    text_laws::split_at(action, ';', tail);
    let a = (intro.len() + verb.len()) as int;
    let b = a + 1 + action.len();
    assert forall|i: int| 0 <= i < f.len() - 1 implies #[trigger] f[i] != '\u{7}' by {
        if i < intro.len() {
            assert(f[i] == intro[i]);
        } else if i < a {
            assert(f[i] == verb[i - intro.len()]);
            assert(verb.contains(verb[i - intro.len()]));
        } else if i == a {
            assert(f[i] == ';');
        } else if i < b {
            assert(f[i] == action[i - a - 1]);
            assert(action.contains(action[i - a - 1]));
        } else if i == b {
            assert(f[i] == ';');
        } else {
            assert(f[i] == encoded[i - b - 1]);
        }
    }
}

} // verus!
