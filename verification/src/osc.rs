//! The frames by which the terminal learns of the document surface: OSC 7717,
//! with a JSON payload in base64.

use crate::json::{Json, JsonView};
use vstd::prelude::*;
use vstd::string::StringExecFns;

verus! {

/// The byte at a position, zero behind the end.
pub open spec fn byte_at(bytes: Seq<u8>, i: int) -> int {
    if 0 <= i < bytes.len() {
        bytes[i] as int
    } else {
        0
    }
}

/// The character that stands for six bits.
pub open spec fn letter(bits: int) -> char {
    if bits < 26 {
        (0x41 + bits) as char
    } else if bits < 52 {
        (0x61 + bits - 26) as char
    } else if bits < 62 {
        (0x30 + bits - 52) as char
    } else if bits == 62 {
        '+'
    } else {
        '/'
    }
}

/// The six bits from bit `6 * i` on, out of the two bytes in which they lie.
pub open spec fn six_bits(bytes: Seq<u8>, i: int) -> int {
    let bit = 6 * i;
    let two = byte_at(bytes, bit / 8) * 256 + byte_at(bytes, bit / 8 + 1);
    two / (vstd::arithmetic::power2::pow2((10 - bit % 8) as nat) as int) % 64
}

/// How many characters the base64 of `n` bytes has: four for each three bytes
/// begun.
pub open spec fn base64_len(n: nat) -> nat {
    (n + 2) / 3 * 4
}

/// The base64 of bytes, in the standard alphabet: a character for each six bits
/// begun, and `=` up to the length.
pub open spec fn base64(bytes: Seq<u8>) -> Seq<char> {
    Seq::new(
        base64_len(bytes.len()),
        |i: int|
            if 6 * i < 8 * bytes.len() {
                letter(six_bits(bytes, i))
            } else {
                '='
            },
    )
}

/// `base64::Engine::encode` of the standard engine, which pads, on the bytes of the
/// text. It allocates the result at once, which has to be possible.
#[verifier::external_body]
fn encode(text: &str) -> (r: String)
    requires
        base64_len(vstd::utf8::encode_utf8(text@).len()) <= isize::MAX,
    ensures
        r@ == base64(vstd::utf8::encode_utf8(text@)),
{
    base64::Engine::encode(&base64::engine::general_purpose::STANDARD, text)
}

/// A frame: the introducer, the verb, the action and the encoded payload, each
/// behind a semicolon, and the terminator.
pub open spec fn frame_of(verb: Seq<char>, action: Seq<char>, encoded: Seq<char>) -> Seq<char> {
    "\u{1b}]7717;"@ + verb + ";"@ + action + ";"@ + encoded + "\u{7}"@
}

/// Puts an encoded payload into a frame.
pub fn frame(verb: &str, action: &str, encoded: &str) -> (r: String)
    ensures
        r@ == frame_of(verb@, action@, encoded@),
{
    let mut out = "\u{1b}]7717;".to_owned();
    out.append(verb);
    out.append(";");
    out.append(action);
    out.append(";");
    out.append(encoded);
    out.append("\u{7}");
    out
}

/// The frame that carries a payload. The payload is encoded, so that it can hold
/// any character and the frame still ends only at its end.
pub fn emit(verb: &str, action: &str, payload: &str) -> (r: String)
    requires
        base64_len(vstd::utf8::encode_utf8(payload@).len()) <= isize::MAX,
    ensures
        r@ == frame_of(verb@, action@, base64(vstd::utf8::encode_utf8(payload@))),
{
    let encoded = encode(payload);
    frame(verb, action, encoded.as_str())
}

/// What a declaration says: the session, the control endpoint, the stamp of the
/// document, and the one pane, which takes the viewport.
pub open spec fn declared(session: Seq<char>, control: Seq<char>, version: Seq<char>) -> JsonView {
    JsonView::object().with("session"@, JsonView::Text(session)).with(
        "control"@,
        JsonView::Text(control),
    ).with("app_name"@, JsonView::Text("Yedit"@)).with(
        "document_version"@,
        JsonView::Text(version),
    ).with(
        "panes"@,
        JsonView::array().and(
            JsonView::object().with("id"@, JsonView::Text("doc"@)).with(
                "icon"@,
                JsonView::Text("🗒\u{fe0e}"@),
            ).with(
                "title"@,
                JsonView::Text("Yedit (tabbed notepad / markdown reader)"@),
            ).with("placement"@, JsonView::Text("viewport"@)),
        ),
    )
}

/// What a declaration says.
pub fn declare_payload(session: &str, control: &str, version: &str) -> (r: Json)
    ensures
        r@ == declared(session@, control@, version@),
{
    let pane = Json::object().with("id", Json::text("doc")).with(
        "icon",
        Json::text("🗒\u{fe0e}"),
    ).with("title", Json::text("Yedit (tabbed notepad / markdown reader)")).with(
        "placement",
        Json::text("viewport"),
    );
    Json::object().with("session", Json::text(session)).with(
        "control",
        Json::text(control),
    ).with("app_name", Json::text("Yedit")).with(
        "document_version",
        Json::text(version),
    ).with("panes", Json::array().and(pane))
}

/// What a closing says: the session whose surface closes.
pub fn close_payload(session: &str) -> (r: Json)
    ensures
        r@ == JsonView::object().with("session"@, JsonView::Text(session@)),
{
    Json::object().with("session", Json::text(session))
}

/// The frame that declares the surface, of a serialised declaration.
pub fn emit_declare(payload: &str) -> (r: String)
    requires
        base64_len(vstd::utf8::encode_utf8(payload@).len()) <= isize::MAX,
    ensures
        r@ == frame_of("sidebar"@, "declare"@, base64(vstd::utf8::encode_utf8(payload@))),
{
    emit("sidebar", "declare", payload)
}

/// The frame that closes the surface, of a serialised closing.
pub fn emit_close(payload: &str) -> (r: String)
    requires
        base64_len(vstd::utf8::encode_utf8(payload@).len()) <= isize::MAX,
    ensures
        r@ == frame_of("sidebar"@, "close"@, base64(vstd::utf8::encode_utf8(payload@))),
{
    emit("sidebar", "close", payload)
}

} // verus!
