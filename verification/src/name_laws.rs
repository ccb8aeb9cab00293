//! Ids, revisions, modes, paths and values: what their spellings stand for.

use crate::docs::{self, FileStat, ViewMode};
use crate::json::{self, JsonView};
use crate::paths;
use crate::render;
use crate::text;
use crate::text_laws;
use vstd::prelude::*;

verus! {

/// The id of a path is sixteen hexadecimal digits of the 64-bit FNV-1a hash of its
/// bytes: the hash starts at the offset basis, and each byte is mixed in and
/// multiplied by the prime.
pub proof fn id_is_the_hash_of_the_path(path: Seq<char>, bytes: Seq<u8>, byte: u8)
    ensures
        docs::id_of(path).len() == 16,
        text_laws::hex_value(docs::id_of(path)) == docs::fnv(vstd::utf8::encode_utf8(path)),
        docs::fnv(seq![]) == 0xcbf29ce484222325u64,
        docs::fnv(bytes.push(byte)) == (docs::fnv(bytes) ^ (byte as u64)).wrapping_mul(
            0x100000001b3u64,
        ),
{
    let n = docs::fnv(vstd::utf8::encode_utf8(path)) as nat;
    text_laws::hex_is_read_back(n, 16);
    assert(vstd::arithmetic::power::pow(16, 16) == 0x1_0000_0000_0000_0000) by {
        reveal_with_fuel(vstd::arithmetic::power::pow, 17);
    }
    assert(bytes.push(byte).drop_last() =~= bytes);
}

/// Paths with different hashes have different ids.
pub proof fn ids_tell_hashes_apart(a: Seq<char>, b: Seq<char>)
    ensures
        docs::id_of(a) == docs::id_of(b) <==> docs::fnv(vstd::utf8::encode_utf8(a)) == docs::fnv(
            vstd::utf8::encode_utf8(b),
        ),
{
    id_is_the_hash_of_the_path(a, seq![], 0);
    id_is_the_hash_of_the_path(b, seq![], 0);
}

/// A revision is when the file was modified, in milliseconds, a colon, and how long
/// it is, in bytes. An unknown time counts as zero. A missing file has a revision
/// of its own, which no file has.
pub proof fn revision_is_time_and_length(ms: u128, len: u64)
    requires
        ms < 0x1_0000_0000_0000_0000,
    ensures
        docs::revision_of(Some(FileStat { modified_ms: Some(ms), len })) == text::decimal(ms as nat)
            + ":"@ + text::decimal(len as nat),
        docs::revision_of(Some(FileStat { modified_ms: None, len })) == "0:"@ + text::decimal(
            len as nat,
        ),
        docs::revision_of(None) == "new"@,
        docs::revision_of(Some(FileStat { modified_ms: Some(ms), len })) != "new"@,
{
    reveal_strlit("0:");
    reveal_strlit(":");
    reveal_strlit("new");
    assert(text::decimal(0) =~= seq!['0']);
    assert("0:"@ =~= seq!['0'] + ":"@);
    assert(text::decimal(0) + ":"@ =~= "0:"@);
    let r = docs::revision_of(Some(FileStat { modified_ms: Some(ms), len }));
    text_laws::decimal_is_read_back(ms as nat);
    assert(r[0] == text::decimal(ms as nat)[0]);
    assert("new"@[0] == 'n');
}

/// Of a time that is too large for 64 bits only the low 64 bits count.
pub proof fn revision_keeps_the_low_bits(ms: u128, len: u64)
    requires
        ms + 0x1_0000_0000_0000_0000 <= u128::MAX,
    ensures
        docs::revision_of(
            Some(FileStat { modified_ms: Some((ms + 0x1_0000_0000_0000_0000) as u128), len }),
        ) == docs::revision_of(Some(FileStat { modified_ms: Some(ms), len })),
{
    let more = (ms + 0x1_0000_0000_0000_0000) as u128;
    assert(more % 0x1_0000_0000_0000_0000 == ms % 0x1_0000_0000_0000_0000) by (bit_vector)
        requires
            more == ms + 0x1_0000_0000_0000_0000,
    ;
}

/// Markdown is rendered with four extensions, each a bit of its own: tables,
/// footnotes, struck out text and lists of tasks, in the bits by which they go.
pub proof fn extensions_are_four_bits()
    ensures
        render::TABLES == 1u32 << 1,
        render::FOOTNOTES == 1u32 << 2,
        render::STRIKETHROUGH == 1u32 << 3,
        render::TASKLISTS == 1u32 << 4,
        render::TABLES + render::STRIKETHROUGH + render::TASKLISTS + render::FOOTNOTES == 30,
{
    assert(1u32 << 1 == 2 && 1u32 << 2 == 4 && 1u32 << 3 == 8 && 1u32 << 4 == 16) by (bit_vector);
}

/// There are three modes, each under its name, and no other name is one.
pub proof fn modes_have_three_names(name: Seq<char>)
    ensures
        docs::mode_named("markdown"@) == Some(ViewMode::Markdown),
        docs::mode_named("split"@) == Some(ViewMode::Split),
        docs::mode_named("text"@) == Some(ViewMode::Text),
        docs::mode_named(name) is Some <==> name == "markdown"@ || name == "split"@ || name
            == "text"@,
        docs::mode_name(ViewMode::Markdown) == "markdown"@,
        docs::mode_name(ViewMode::Split) == "split"@,
        docs::mode_name(ViewMode::Text) == "text"@,
{
    reveal_strlit("markdown");
    reveal_strlit("split");
    reveal_strlit("text");
    assert("markdown"@.len() == 8 && "split"@.len() == 5 && "text"@.len() == 4);
}

/// A note is shown under its file name, in whatever directory it is; a path without
/// a file name is shown as it is.
pub proof fn notes_are_shown_by_file_name(dir: Seq<char>, name: Seq<char>, path: Seq<char>)
    requires
        paths::is_bare(name),
        name != seq!['.', '.'],
    ensures
        docs::shown_name(paths::joined(dir, name)) == name,
        paths::file_name(path) matches Some(last) ==> docs::shown_name(path) == last,
        paths::file_name(path) is None ==> docs::shown_name(path) == path,
{
    paths::joined_file_name(dir, name);
}

proof fn pieces_are_some(s: Seq<char>)
    ensures
        paths::pieces(s).len() > 0,
    decreases s.len(),
{
    if s.len() > 0 {
        pieces_are_some(s.drop_last());
    }
}

/// A slash parts a path: the pieces are those before it and those behind it. A text
/// without a slash is one piece.
pub proof fn slashes_part_the_pieces(a: Seq<char>, b: Seq<char>)
    ensures
        paths::pieces(a + seq!['/'] + b) == paths::pieces(a) + paths::pieces(b),
        !a.contains('/') ==> paths::pieces(a) == seq![a],
    decreases a.len() + b.len(),
{
    let s = a + seq!['/'] + b;
    if b.len() == 0 {
        assert(s.drop_last() =~= a);
        assert(paths::pieces(b) =~= seq![seq![]]);
        assert(paths::pieces(s) =~= paths::pieces(a) + paths::pieces(b));
    } else {
        let c = b.drop_last();
        slashes_part_the_pieces(a, c);
        pieces_are_some(c);
        assert(s.drop_last() =~= a + seq!['/'] + c);
        assert(paths::pieces(s) =~= paths::pieces(a) + paths::pieces(b));
    }
    if !a.contains('/') {
        if a.len() == 0 {
            assert(a =~= seq![]);
            assert(paths::pieces(a) =~= seq![a]);
        } else {
            let c = a.drop_last();
            assert(!c.contains('/')) by {
                if c.contains('/') {
                    let i = choose|i: int| 0 <= i < c.len() && c[i] == '/';
                    assert(a[i] == '/');
                }
            }
            assert(a[a.len() - 1] == a.last());
            slashes_part_the_pieces(c, seq![]);
            assert(c.push(a.last()) =~= a);
            assert(paths::pieces(a) =~= seq![a]);
        }
    }
}

/// Of the pieces every one is a component but an empty one, and a dot that is not
/// the first.
pub proof fn components_are_the_named_pieces(before: Seq<Seq<char>>, piece: Seq<char>)
    ensures
        paths::kept(seq![]) == Seq::<Seq<char>>::empty(),
        piece.len() == 0 ==> paths::kept(before.push(piece)) == paths::kept(before),
        piece == seq!['.'] && before.len() > 0 ==> paths::kept(before.push(piece)) == paths::kept(
            before,
        ),
        piece == seq!['.'] && before.len() == 0 ==> paths::kept(before.push(piece)) == paths::kept(
            before,
        ).push(piece),
        piece.len() > 0 && piece != seq!['.'] ==> paths::kept(before.push(piece)) == paths::kept(
            before,
        ).push(piece),
{
    assert(before.push(piece).drop_last() =~= before);
}

/// The components of a path are the root, if the path starts with a slash, and its
/// named pieces; paths are the same if their components are.
pub proof fn components_start_at_the_root(s: Seq<char>, t: Seq<char>)
    ensures
        s.len() > 0 && s[0] == '/' ==> paths::components(s) == seq![seq!['/']] + paths::kept(
            paths::pieces(s),
        ),
        s.len() == 0 || s[0] != '/' ==> paths::components(s) == paths::kept(paths::pieces(s)),
        paths::same_path(s, t) <==> paths::components(s) == paths::components(t),
{
    assert(paths::components(s) =~= paths::root(s) + paths::kept(paths::pieces(s)));
    if !paths::is_absolute(s) {
        assert(paths::components(s) =~= paths::kept(paths::pieces(s)));
    }
}

/// A slash at the end, or one more between two parts, makes no other path.
pub proof fn slashes_more_make_no_other_path(a: Seq<char>, b: Seq<char>)
    requires
        a.len() > 0,
    ensures
        paths::same_path(a + seq!['/'], a),
        paths::same_path(a + seq!['/'] + (seq!['/'] + b), a + seq!['/'] + b),
{
    let none = Seq::<char>::empty();
    slashes_part_the_pieces(a, none);
    assert(a + seq!['/'] + none =~= a + seq!['/']);
    assert(paths::pieces(none) =~= seq![none]);
    let p = paths::pieces(a);
    pieces_are_some(a);
    assert(p + seq![none] =~= p.push(none));
    components_are_the_named_pieces(p, none);
    assert((a + seq!['/'])[0] == a[0]);
    assert(paths::same_path(a + seq!['/'], a));
    let x = a + seq!['/'] + (seq!['/'] + b);
    let y = a + seq!['/'] + b;
    slashes_part_the_pieces(a, b);
    slashes_part_the_pieces(a, seq!['/'] + b);
    slashes_part_the_pieces(none, b);
    assert(none + seq!['/'] + b =~= seq!['/'] + b);
    assert(x[0] == a[0] && y[0] == a[0]);
    let q = paths::pieces(b);
    kept_in_parts(p, q);
    kept_in_parts(p.push(none), q);
    assert(paths::pieces(x) =~= p.push(none) + q);
    assert(paths::pieces(y) =~= p + q);
}

/// Behind other pieces it makes no difference for a piece how many they are.
proof fn kept_in_parts(p: Seq<Seq<char>>, q: Seq<Seq<char>>)
    requires
        p.len() > 0,
    ensures
        paths::kept(p + q) == paths::kept(p) + named(q),
    decreases q.len(),
{
    if q.len() == 0 {
        assert(p + q =~= p);
        assert(paths::kept(p) + named(q) =~= paths::kept(p));
    } else {
        kept_in_parts(p, q.drop_last());
        assert((p + q).drop_last() =~= p + q.drop_last());
        assert(paths::kept(p + q) =~= paths::kept(p) + named(q));
    }
}

spec fn named(q: Seq<Seq<char>>) -> Seq<Seq<char>>
    decreases q.len(),
{
    if q.len() == 0 {
        seq![]
    } else if q.last().len() > 0 && q.last() != seq!['.'] {
        named(q.drop_last()).push(q.last())
    } else {
        named(q.drop_last())
    }
}

/// The file name is the last component, unless that is the root, a dot or two dots.
pub proof fn file_name_is_the_last_component(s: Seq<char>)
    ensures
        ({
            let c = paths::components(s);
            &&& paths::file_name(s) matches Some(name) ==> c.len() > 0 && name == c.last() && name
                != seq!['/'] && name != seq!['.'] && name != seq!['.', '.']
            &&& paths::file_name(s) is None ==> c.len() == 0 || c.last() == seq!['/'] || c.last()
                == seq!['.'] || c.last() == seq!['.', '.']
        }),
{
}

/// The extension stands behind the last dot of a file name, if something stands
/// before that dot.
pub proof fn extension_stands_behind_the_last_dot(
    path: Seq<char>,
    stem: Seq<char>,
    end: Seq<char>,
)
    requires
        !end.contains('.'),
    ensures
        stem.len() > 0 && paths::file_name(path) == Some(stem + seq!['.'] + end)
            ==> paths::extension(path) == Some(end),
        paths::file_name(path) == Some(seq!['.'] + end) ==> paths::extension(path) is None,
        paths::file_name(path) == Some(end) ==> paths::extension(path) is None,
        paths::file_name(path) is None ==> paths::extension(path) is None,
{
    last_dot_before(stem, end);
    last_dot_before(seq![], end);
    no_dot(end);
    let name = stem + seq!['.'] + end;
    assert(name.skip(stem.len() as int + 1) =~= end);
    assert(Seq::<char>::empty() + seq!['.'] + end =~= seq!['.'] + end);
}

proof fn no_dot(s: Seq<char>)
    requires
        !s.contains('.'),
    ensures
        paths::last_dot(s) is None,
    decreases s.len(),
{
    if s.len() > 0 {
        let t = s.drop_last();
        assert(s[s.len() - 1] == s.last());
        assert(!t.contains('.')) by {
            if t.contains('.') {
                let i = choose|i: int| 0 <= i < t.len() && t[i] == '.';
                assert(s[i] == '.');
            }
        }
        no_dot(t);
    }
}

proof fn last_dot_before(stem: Seq<char>, end: Seq<char>)
    requires
        !end.contains('.'),
    ensures
        paths::last_dot(stem + seq!['.'] + end) == Some(stem.len() as int),
    decreases end.len(),
{
    let s = stem + seq!['.'] + end;
    if end.len() > 0 {
        let t = end.drop_last();
        assert(end[end.len() - 1] == end.last());
        assert(!t.contains('.')) by {
            if t.contains('.') {
                let i = choose|i: int| 0 <= i < t.len() && t[i] == '.';
                assert(end[i] == '.');
            }
        }
        assert(s.drop_last() =~= stem + seq!['.'] + t);
        last_dot_before(stem, t);
    } else {
        assert(s.last() == '.');
    }
}

/// The parent of a path is the shortest start of it that has all its components but
/// the last; a path has one unless it is empty or the root.
pub proof fn parent_is_a_start_of_the_path(s: Seq<char>)
    ensures
        ({
            let c = paths::components(s);
            match paths::parent(s) {
                Some(p) => {
                    &&& c.len() > 0 && c.last() != seq!['/']
                    &&& p.is_prefix_of(s)
                    &&& paths::components(p) == c.drop_last()
                    &&& forall|n: int|
                        0 <= n < p.len() ==> paths::components(#[trigger] s.take(n))
                            != c.drop_last()
                },
                None => c.len() == 0 || c.last() == seq!['/'],
            }
        }),
{
    if paths::parent(s) is Some {
        let c = paths::components(s);
        paths::parent_components(s);
        shortest_is_first(s, c.drop_last(), 0);
        let n = paths::shortest(s, c.drop_last(), 0);
        assert(s.take(n as int).is_prefix_of(s)) by {
            assert(s.take(n as int) =~= s.subrange(0, n as int));
        }
    }
}

proof fn shortest_is_first(s: Seq<char>, wanted: Seq<Seq<char>>, n: nat)
    requires
        n <= s.len(),
    ensures
        n <= paths::shortest(s, wanted, n) <= s.len(),
        forall|m: int|
            n <= m < paths::shortest(s, wanted, n) ==> paths::components(#[trigger] s.take(m))
                != wanted,
    decreases s.len() - n,
{
    if !(n >= s.len() || paths::components(s.take(n as int)) == wanted) {
        shortest_is_first(s, wanted, n + 1);
    }
}

/// A path that is read from a directory is below it, with one slash between; an
/// absolute one is itself.
pub proof fn paths_are_joined_by_a_slash(dir: Seq<char>, rel: Seq<char>)
    ensures
        rel.len() > 0 && rel[0] == '/' ==> paths::joined(dir, rel) == rel,
        (rel.len() == 0 || rel[0] != '/') ==> {
            &&& dir.len() == 0 ==> paths::joined(dir, rel) == rel
            &&& paths::joined(dir.push('/'), rel) == dir + seq!['/'] + rel
            &&& dir.len() > 0 && dir.last() != '/' ==> paths::joined(dir, rel) == dir + seq!['/']
                + rel
        },
{
    if dir.len() == 0 {
        assert(dir + rel =~= rel);
    }
    assert(dir.push('/').last() == '/');
    assert(dir.push('/') + rel =~= dir + seq!['/'] + rel);
}

/// The members of an object are found under their keys, the first of them where
/// there are several, and nothing is found in anything else; the items of an array
/// are those put in, in their order.
pub proof fn values_hold_what_was_put_in(
    members: Seq<(Seq<char>, JsonView)>,
    i: int,
    items: Seq<JsonView>,
    value: JsonView,
    key: Seq<char>,
)
    requires
        0 <= i < members.len(),
        forall|j: int| 0 <= j < i ==> (#[trigger] members[j]).0 != members[i].0,
        forall|j: int| 0 <= j < members.len() ==> (#[trigger] members[j]).0 != key,
    ensures
        JsonView::Object(members).at(members[i].0) == members[i].1,
        JsonView::Object(members).at(key) == JsonView::Null,
        !(value is Object) ==> value.at(key) == JsonView::Null,
        JsonView::Array(items).and(value) == JsonView::Array(items.push(value)),
        JsonView::Array(items).items() == items,
        !(value is Array) ==> value.items().len() == 0,
        JsonView::array() == JsonView::Array(seq![]),
        JsonView::object() == JsonView::Object(seq![]),
{
    not_a_member(members, key);
    first_member(members, i);
}

proof fn not_a_member(members: Seq<(Seq<char>, JsonView)>, key: Seq<char>)
    requires
        forall|j: int| 0 <= j < members.len() ==> (#[trigger] members[j]).0 != key,
    ensures
        json::member(members, key) == JsonView::Null,
    decreases members.len(),
{
    if members.len() > 0 {
        let rest = members.skip(1);
        assert forall|j: int| 0 <= j < rest.len() implies (#[trigger] rest[j]).0 != key by {
            assert(rest[j] == members[j + 1]);
        }
        not_a_member(rest, key);
    }
}

proof fn first_member(members: Seq<(Seq<char>, JsonView)>, i: int)
    requires
        0 <= i < members.len(),
        forall|j: int| 0 <= j < i ==> (#[trigger] members[j]).0 != members[i].0,
    ensures
        json::member(members, members[i].0) == members[i].1,
    decreases members.len(),
{
    if i > 0 {
        let rest = members.skip(1);
        assert(rest[i - 1] == members[i]);
        assert(members[0].0 != members[i].0);
        assert forall|j: int| 0 <= j < i - 1 implies (#[trigger] rest[j]).0 != rest[i - 1].0 by {
            assert(rest[j] == members[j + 1]);
        }
        first_member(rest, i - 1);
    }
}

/// The texts among values are those that are texts, in their order.
pub proof fn texts_are_picked_in_order(items: Seq<JsonView>, value: JsonView)
    ensures
        json::texts_among(seq![]) == Seq::<Seq<char>>::empty(),
        value matches JsonView::Text(t) ==> json::texts_among(items.push(value))
            == json::texts_among(items).push(t),
        !(value is Text) ==> json::texts_among(items.push(value)) == json::texts_among(items),
        JsonView::Array(items).item_texts() == json::texts_among(items),
        !(value is Array) ==> value.item_texts() == Seq::<Seq<char>>::empty(),
{
    assert(items.push(value).drop_last() =~= items);
}

} // verus!
