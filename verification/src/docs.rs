//! Notes: their ids, their names, the revisions of their files, and how the
//! document is shown.

use crate::paths;
use crate::text::{self, push_decimal, push_hex, same};
use vstd::prelude::*;
use vstd::string::StringExecFns;

verus! {

/// The offset basis of the 64-bit FNV-1a hash.
pub const FNV_OFFSET: u64 = 0xcbf29ce484222325;

/// The prime of the 64-bit FNV-1a hash.
pub const FNV_PRIME: u64 = 0x100000001b3;

/// The 64-bit FNV-1a hash.
pub open spec fn fnv(bytes: Seq<u8>) -> u64
    decreases bytes.len(),
{
    if bytes.len() == 0 {
        FNV_OFFSET
    } else {
        (fnv(bytes.drop_last()) ^ (bytes.last() as u64)).wrapping_mul(FNV_PRIME)
    }
}

/// The id of the note at a path: the hash of the path, in hexadecimal.
pub open spec fn id_of(path: Seq<char>) -> Seq<char> {
    text::hex(fnv(vstd::utf8::encode_utf8(path)) as nat, 16)
}

/// A stable id for a path: FNV-1a over its bytes, in sixteen hexadecimal digits.
/// Rows and actions go by this, never by an index: indices shift when a tab
/// closes.
pub fn note_id(path: &str) -> (r: String)
    ensures
        r@ == id_of(path@),
{
    let bytes = path.as_bytes();
    let mut hash: u64 = FNV_OFFSET;
    let mut i: usize = 0;
    while i < bytes.len()
        invariant
            i <= bytes@.len(),
            hash == fnv(bytes@.take(i as int)),
        decreases bytes@.len() - i,
    {
        assert(bytes@.take(i + 1).drop_last() =~= bytes@.take(i as int));
        hash = (hash ^ (bytes[i] as u64)).wrapping_mul(FNV_PRIME);
        i += 1;
    }
    assert(bytes@.take(i as int) =~= bytes@);
    let mut out = String::new();
    push_hex(&mut out, hash, 16);
    assert(out@ =~= id_of(path@));
    out
}

/// How a file stood on disk: when it was modified, in milliseconds of the Unix
/// epoch where that is known, and its length in bytes.
#[derive(Clone, Copy)]
pub struct FileStat {
    pub modified_ms: Option<u128>,
    pub len: u64,
}

/// The milliseconds of a revision: the low 64 bits, zero where unknown.
pub open spec fn revision_ms(stat: FileStat) -> nat {
    match stat.modified_ms {
        Some(ms) => (ms % 0x1_0000_0000_0000_0000) as nat,
        None => 0,
    }
}

/// The revision of a file that stood so, or that was not there.
pub open spec fn revision_of(stat: Option<FileStat>) -> Seq<char> {
    match stat {
        Some(stat) => text::decimal(revision_ms(stat)) + ":"@ + text::decimal(stat.len as nat),
        None => "new"@,
    }
}

/// `milliseconds:length` of the file on disk, which the save guard compares. A
/// missing file has the revision `new`.
pub fn disk_revision(stat: Option<FileStat>) -> (r: String)
    ensures
        r@ == revision_of(stat),
{
    match stat {
        Some(stat) => {
            let ms: u128 = match stat.modified_ms {
                Some(ms) => ms % 0x1_0000_0000_0000_0000,
                None => 0,
            };
            let mut out = String::new();
            push_decimal(&mut out, ms);
            out.append(":");
            push_decimal(&mut out, stat.len as u128);
            assert(out@ =~= revision_of(Some(stat)));
            out
        },
        None => "new".to_owned(),
    }
}

/// How the document is shown: rendered, editor with preview, or plain text.
#[derive(Clone, Copy, PartialEq, Eq, Debug, Structural)]
pub enum ViewMode {
    Markdown,
    Split,
    Text,
}

/// The name of a view mode.
pub open spec fn mode_name(mode: ViewMode) -> Seq<char> {
    match mode {
        ViewMode::Markdown => "markdown"@,
        ViewMode::Split => "split"@,
        ViewMode::Text => "text"@,
    }
}

/// The view mode of a name.
pub open spec fn mode_named(name: Seq<char>) -> Option<ViewMode> {
    if name == "markdown"@ {
        Some(ViewMode::Markdown)
    } else if name == "split"@ {
        Some(ViewMode::Split)
    } else if name == "text"@ {
        Some(ViewMode::Text)
    } else {
        None
    }
}

impl ViewMode {
    /// The name of the mode.
    pub fn as_str(self) -> (r: &'static str)
        ensures
            r@ == mode_name(self),
    {
        match self {
            ViewMode::Markdown => "markdown",
            ViewMode::Split => "split",
            ViewMode::Text => "text",
        }
    }

    /// The mode of a name.
    pub fn parse(text: &str) -> (r: Option<Self>)
        ensures
            r == mode_named(text@),
    {
        if same(text, "markdown") {
            Some(ViewMode::Markdown)
        } else if same(text, "split") {
            Some(ViewMode::Split)
        } else if same(text, "text") {
            Some(ViewMode::Text)
        } else {
            None
        }
    }
}

/// The name of a mode names that mode.
pub proof fn mode_names_are_read_back(mode: ViewMode)
    ensures
        mode_named(mode_name(mode)) == Some(mode),
{
    reveal_strlit("markdown");
    reveal_strlit("split");
    reveal_strlit("text");
    assert("markdown"@.len() == 8);
    assert("split"@.len() == 5);
    assert("text"@.len() == 4);
}

/// An open note.
pub struct Note {
    pub id: String,
    pub path: String,
    /// The editor buffer. May be ahead of disk (dirty).
    pub content: String,
    /// Disk revision at load or last save: the baseline of the save guard.
    pub loaded_revision: String,
    pub dirty: bool,
}

/// An open note as mathematics.
pub ghost struct NoteView {
    pub id: Seq<char>,
    pub path: Seq<char>,
    pub content: Seq<char>,
    pub revision: Seq<char>,
    pub dirty: bool,
}

impl View for Note {
    type V = NoteView;

    open spec fn view(&self) -> NoteView {
        NoteView {
            id: self.id@,
            path: self.path@,
            content: self.content@,
            revision: self.loaded_revision@,
            dirty: self.dirty,
        }
    }
}

/// The name shown for a path: its file name, or the whole path if it has none.
pub open spec fn shown_name(path: Seq<char>) -> Seq<char> {
    match paths::file_name(path) {
        Some(name) => name,
        None => path,
    }
}

/// The name shown for a path.
pub fn name_shown(path: &str) -> (r: String)
    ensures
        r@ == shown_name(path@),
{
    match paths::name_of(path) {
        Some(name) => name,
        None => path.to_owned(),
    }
}

impl Note {
    /// The name of the note: the file name of its path.
    pub fn name(&self) -> (r: String)
        ensures
            r@ == shown_name(self@.path),
    {
        name_shown(self.path.as_str())
    }
}

} // verus!
