//! Paths as text: Unix paths, whose components are separated by slashes. There are
//! no drive letters, and a backslash is a character like any other.
//!
//! A path is compared by its components, so that repeated slashes, a slash at
//! the end and inner dots make no difference.

use crate::text::{self, chars_of, join2, join3, same, text_of};
use vstd::prelude::*;

verus! {

/// What stands between the slashes.
pub open spec fn pieces(s: Seq<char>) -> Seq<Seq<char>>
    decreases s.len(),
{
    if s.len() == 0 {
        seq![seq![]]
    } else {
        let front = pieces(s.drop_last());
        if s.last() == '/' {
            front.push(seq![])
        } else {
            front.update(front.len() - 1, front.last().push(s.last()))
        }
    }
}

/// Whether the piece at position `i` is a component: an empty piece is none, and
/// a dot is one only at the very start.
pub open spec fn is_component(i: int, piece: Seq<char>) -> bool {
    piece.len() > 0 && (piece != seq!['.'] || i == 0)
}

/// The pieces that are components.
pub open spec fn kept(pieces: Seq<Seq<char>>) -> Seq<Seq<char>>
    decreases pieces.len(),
{
    if pieces.len() == 0 {
        seq![]
    } else if is_component(pieces.len() - 1, pieces.last()) {
        kept(pieces.drop_last()).push(pieces.last())
    } else {
        kept(pieces.drop_last())
    }
}

/// Whether a path starts at the root.
pub open spec fn is_absolute(s: Seq<char>) -> bool {
    s.len() > 0 && s[0] == '/'
}

/// The component that stands for the root.
pub open spec fn root(s: Seq<char>) -> Seq<Seq<char>> {
    if is_absolute(s) {
        seq![seq!['/']]
    } else {
        seq![]
    }
}

/// The components of a path, the root among them.
pub open spec fn components(s: Seq<char>) -> Seq<Seq<char>> {
    root(s) + kept(pieces(s))
}

/// Whether two texts name the same path.
pub open spec fn same_path(a: Seq<char>, b: Seq<char>) -> bool {
    components(a) == components(b)
}

/// The last component, unless that is the root, a dot or two dots.
pub open spec fn file_name(s: Seq<char>) -> Option<Seq<char>> {
    let c = components(s);
    if c.len() == 0 || c.last() == seq!['/'] || c.last() == seq!['.'] || c.last() == seq![
        '.',
        '.',
    ] {
        None
    } else {
        Some(c.last())
    }
}

/// The position of the last dot.
pub open spec fn last_dot(s: Seq<char>) -> Option<int>
    decreases s.len(),
{
    if s.len() == 0 {
        None
    } else if s.last() == '.' {
        Some(s.len() - 1)
    } else {
        last_dot(s.drop_last())
    }
}

/// What follows the last dot of the file name, unless the name has no dot or
/// its only dot at the start.
pub open spec fn extension(s: Seq<char>) -> Option<Seq<char>> {
    match file_name(s) {
        Some(name) => match last_dot(name) {
            Some(i) => if i > 0 {
                Some(name.skip(i + 1))
            } else {
                None
            },
            None => None,
        },
        None => None,
    }
}

/// The length, from `n` on, of the shortest start of the path with the given
/// components.
pub open spec fn shortest(s: Seq<char>, wanted: Seq<Seq<char>>, n: nat) -> nat
    decreases s.len() - n,
{
    if n >= s.len() || components(s.take(n as int)) == wanted {
        n
    } else {
        shortest(s, wanted, n + 1)
    }
}

/// The path without its last component: the shortest start of the text that has
/// the other components. The root and the empty path have no parent.
pub open spec fn parent(s: Seq<char>) -> Option<Seq<char>> {
    let c = components(s);
    if c.len() == 0 || c.last() == seq!['/'] {
        None
    } else {
        Some(s.take(shortest(s, c.drop_last(), 0) as int))
    }
}

/// `rel` read from `base`: an absolute path stands for itself.
pub open spec fn joined(base: Seq<char>, rel: Seq<char>) -> Seq<char> {
    if is_absolute(rel) {
        rel
    } else if base.len() == 0 || base.last() == '/' {
        base + rel
    } else {
        base + seq!['/'] + rel
    }
}

/// A name that is one component and leaves the directory alone.
pub open spec fn is_bare(name: Seq<char>) -> bool {
    &&& name.len() > 0
    &&& name != seq!['.']
    &&& forall|i: int| 0 <= i < name.len() ==> name[i] != '/'
}

proof fn pieces_nonempty(s: Seq<char>)
    ensures
        pieces(s).len() > 0,
    decreases s.len(),
{
    if s.len() > 0 {
        pieces_nonempty(s.drop_last());
    }
}

/// The empty path has no components.
pub proof fn no_components(s: Seq<char>)
    requires
        s.len() == 0,
    ensures
        components(s) == Seq::<Seq<char>>::empty(),
{
    let p = pieces(s);
    assert(p.drop_last() =~= seq![]);
    assert(kept(p.drop_last()) =~= seq![]);
    assert(components(s) =~= seq![]);
}

/// Characters other than slashes lengthen the last piece.
proof fn pieces_extend(s: Seq<char>, t: Seq<char>)
    requires
        forall|i: int| 0 <= i < t.len() ==> t[i] != '/',
    ensures
        pieces(s + t) == pieces(s).update(pieces(s).len() - 1, pieces(s).last() + t),
    decreases t.len(),
{
    pieces_nonempty(s);
    if t.len() == 0 {
        assert(s + t =~= s);
        assert(pieces(s).last() + t =~= pieces(s).last());
        assert(pieces(s).update(pieces(s).len() - 1, pieces(s).last()) =~= pieces(s));
    } else {
        pieces_extend(s, t.drop_last());
        assert((s + t).drop_last() =~= s + t.drop_last());
        assert((pieces(s).last() + t.drop_last()).push(t.last()) =~= pieces(s).last() + t);
        assert(pieces(s + t) =~= pieces(s).update(
            pieces(s).len() - 1,
            pieces(s).last() + t,
        ));
    }
}

/// A bare name joined to a directory adds itself to the components.
pub proof fn joined_components(base: Seq<char>, name: Seq<char>)
    requires
        is_bare(name),
    ensures
        components(joined(base, name)) == components(base).push(name),
{
    pieces_nonempty(base);
    assert(name[0] != '/');
    if base.len() == 0 {
        pieces_extend(base, name);
        assert(base + name =~= name);
        let p = pieces(base);
        assert(p =~= seq![seq![]]);
        assert(p.last() + name =~= name);
        assert(pieces(name) =~= seq![name]);
        assert(pieces(name).drop_last() =~= seq![]);
        assert(p.drop_last() =~= seq![]);
        assert(components(name) =~= components(base).push(name));
    } else if base.last() == '/' {
        pieces_extend(base, name);
        let p = pieces(base);
        assert(p.last() + name =~= name);
        assert(pieces(base + name).drop_last() =~= p.drop_last());
        assert((base + name)[0] == base[0]);
        assert(components(base + name) =~= components(base).push(name));
    } else {
        let b = base.push('/');
        assert(b.drop_last() =~= base);
        assert(base + seq!['/'] + name =~= b + name);
        pieces_extend(b, name);
        let p = pieces(b);
        assert(p.last() + name =~= name);
        assert(pieces(b + name).drop_last() =~= pieces(base));
        assert((b + name)[0] == base[0]);
        assert(components(b + name) =~= components(base).push(name));
    }
}

/// The file name of a bare name in a directory is that name.
pub proof fn joined_file_name(base: Seq<char>, name: Seq<char>)
    requires
        is_bare(name),
        name != seq!['.', '.'],
    ensures
        file_name(joined(base, name)) == Some(name),
{
    joined_components(base, name);
    assert(name[0] != '/');
}

/// One more character leaves the components, or changes only the last.
proof fn components_step(s: Seq<char>)
    requires
        s.len() > 0,
    ensures
        ({
            let c = components(s);
            let d = components(s.drop_last());
            ||| c == d
            ||| c == d.push(c.last())
            ||| (d.len() > 0 && c == d.drop_last().push(c.last()))
        }),
{
    let t = s.drop_last();
    let p = pieces(t);
    let q = pieces(s);
    pieces_nonempty(t);
    let c = components(s);
    let d = components(t);
    if t.len() == 0 {
        no_components(t);
        assert(p =~= seq![seq![]]);
        assert(p.drop_last() =~= seq![]);
        if s.last() == '/' {
            assert(s[0] == '/');
            assert(q.drop_last() =~= p);
            assert(c =~= d.push(seq!['/']));
        } else {
            assert(s[0] == s.last());
            assert(q.drop_last() =~= seq![]);
            assert(c =~= d.push(q.last()));
        }
    } else {
        assert(t[0] == s[0]);
        if s.last() == '/' {
            assert(q.drop_last() =~= p);
            assert(c =~= d);
        } else {
            assert(q.drop_last() =~= p.drop_last());
            let i = p.len() - 1;
            if is_component(i, p.last()) {
                assert(d.drop_last() =~= root(t) + kept(p.drop_last()));
                if is_component(i, q.last()) {
                    assert(c =~= d.drop_last().push(q.last()));
                } else {
                    assert(q.last().len() == p.last().len() + 1);
                    assert(q.last() != seq!['.']);
                }
            } else {
                if is_component(i, q.last()) {
                    assert(c =~= d.push(q.last()));
                } else {
                    assert(c =~= d);
                }
            }
        }
    }
}

/// Every list of all components but the last is that of some start of the text.
proof fn start_with(s: Seq<char>) -> (n: nat)
    requires
        components(s).len() > 0,
    ensures
        n < s.len(),
        components(s.take(n as int)) == components(s).drop_last(),
    decreases s.len(),
{
    let c = components(s);
    if s.len() == 0 {
        no_components(s);
        0
    } else {
        components_step(s);
        let t = s.drop_last();
        let d = components(t);
        if c == d {
            let n = start_with(t);
            assert(t.take(n as int) =~= s.take(n as int));
            n
        } else if c == d.push(c.last()) {
            assert(c.drop_last() =~= d);
            assert(s.take(s.len() - 1) =~= t);
            (s.len() - 1) as nat
        } else {
            let n = start_with(t);
            assert(t.take(n as int) =~= s.take(n as int));
            assert(c.drop_last() =~= d.drop_last());
            n
        }
    }
}

proof fn shortest_found(s: Seq<char>, wanted: Seq<Seq<char>>, n: nat, m: nat)
    requires
        n <= m < s.len(),
        components(s.take(m as int)) == wanted,
    ensures
        n <= shortest(s, wanted, n) <= m,
        components(s.take(shortest(s, wanted, n) as int)) == wanted,
    decreases m - n,
{
    if components(s.take(n as int)) != wanted {
        shortest_found(s, wanted, n + 1, m);
    }
}

/// The parent has all components but the last.
pub proof fn parent_components(s: Seq<char>)
    ensures
        parent(s) matches Some(p) ==> components(p) == components(s).drop_last(),
{
    if parent(s) is Some {
        let m = start_with(s);
        shortest_found(s, components(s).drop_last(), 0, m);
    }
}

/// Splits a path into its components.
pub fn split(path: &str) -> (r: Vec<String>)
    ensures
        text::texts(r@) == components(path@),
{
    let chars = chars_of(path);
    let mut out: Vec<String> = Vec::new();
    let ghost s = chars@;
    if chars.len() > 0 && chars[0] == '/' {
        out.push(text_of(&chars, 0, 1));
        assert(chars@.subrange(0, 1) =~= seq!['/']);
    }
    assert(text::texts(out@) =~= root(s));
    let mut start: usize = 0;
    let mut first: bool = true;
    let mut i: usize = 0;
    assert(s.take(0) =~= seq![]);
    assert(pieces(s.take(0)) =~= seq![seq![]]);
    assert(pieces(s.take(0)).drop_last() =~= seq![]);
    assert(s.subrange(0, 0) =~= seq![]);
    assert(text::texts(out@) =~= root(s) + kept(pieces(s.take(0)).drop_last()));
    loop
        invariant_except_break
            start <= i <= chars@.len(),
            s == chars@,
            s == path@,
            pieces(s.take(i as int)).len() > 0,
            first == (pieces(s.take(i as int)).len() == 1),
            pieces(s.take(i as int)).last() == s.subrange(start as int, i as int),
            text::texts(out@) == root(s) + kept(pieces(s.take(i as int)).drop_last()),
        ensures
            text::texts(out@) == components(path@),
        decreases chars@.len() - i,
    {
        let ghost p = pieces(s.take(i as int));
        if i == chars.len() || chars[i] == '/' {
            let piece = text_of(&chars, start, i);
            let dot = i - start == 1 && chars[start] == '.';
            proof {
                if dot {
                    assert(p.last() =~= seq!['.']);
                } else if p.last() == seq!['.'] {
                    assert(p.last().len() == 1);
                    assert(p.last()[0] == s[start as int]);
                    assert(false);
                }
                assert(dot == (p.last() == seq!['.']));
            }
            if start < i && (!dot || first) {
                let ghost before = out@;
                out.push(piece);
                assert(text::texts(out@) =~= text::texts(before).push(piece@));
                assert(is_component(p.len() - 1, p.last()));
                assert(text::texts(out@) =~= root(s) + kept(p));
            }
            assert(text::texts(out@) =~= root(s) + kept(p));
            if i == chars.len() {
                assert(s.take(i as int) =~= s);
                break;
            }
            first = false;
            i += 1;
            start = i;
            assert(s.take(i as int).drop_last() =~= s.take(i - 1));
            assert(s.subrange(start as int, i as int) =~= seq![]);
            assert(pieces(s.take(i as int)).drop_last() =~= p);
        } else {
            i += 1;
            assert(s.take(i as int).drop_last() =~= s.take(i - 1));
            assert(s.subrange(start as int, i as int) =~= s.subrange(start as int, i - 1).push(
                s[i - 1],
            ));
            assert(pieces(s.take(i as int)).drop_last() =~= p.drop_last());
        }
    }
    out
}

/// Whether two lists hold the same texts.
fn same_texts(a: &Vec<String>, b: &Vec<String>, n: usize) -> (r: bool)
    requires
        n <= b@.len(),
    ensures
        r == (text::texts(a@) == text::texts(b@).take(n as int)),
{
    if a.len() != n {
        assert(text::texts(a@).len() != text::texts(b@).take(n as int).len());
        return false;
    }
    let mut i: usize = 0;
    while i < n
        invariant
            i <= n,
            n == a@.len(),
            n <= b@.len(),
            forall|j: int| 0 <= j < i ==> (#[trigger] a@[j])@ == b@[j]@,
        decreases n - i,
    {
        if !same(a[i].as_str(), b[i].as_str()) {
            assert(text::texts(a@)[i as int] != text::texts(b@).take(n as int)[i as int]);
            return false;
        }
        i += 1;
    }
    assert(text::texts(a@) =~= text::texts(b@).take(n as int));
    true
}

/// Whether two texts name the same path.
pub fn equal(a: &str, b: &str) -> (r: bool)
    ensures
        r == same_path(a@, b@),
{
    let x = split(a);
    let y = split(b);
    assert(text::texts(y@).take(y@.len() as int) =~= text::texts(y@));
    same_texts(&x, &y, y.len())
}

/// Whether a path starts at the root.
pub fn absolute(path: &str) -> (r: bool)
    ensures
        r == is_absolute(path@),
{
    let chars = chars_of(path);
    chars.len() > 0 && chars[0] == '/'
}

/// `rel` read from `base`.
pub fn join(base: &str, rel: &str) -> (r: String)
    ensures
        r@ == joined(base@, rel@),
{
    if absolute(rel) {
        return rel.to_owned();
    }
    let chars = chars_of(base);
    if chars.len() == 0 || chars[chars.len() - 1] == '/' {
        join2(base, rel)
    } else {
        proof {
            reveal_strlit("/");
            assert("/"@ =~= seq!['/']);
        }
        join3(base, "/", rel)
    }
}

/// The file name of a path.
pub fn name_of(path: &str) -> (r: Option<String>)
    ensures
        match file_name(path@) {
            Some(n) => r matches Some(t) && t@ == n,
            None => r is None,
        },
{
    let mut parts = split(path);
    proof {
        reveal_strlit("/");
        reveal_strlit(".");
        reveal_strlit("..");
        assert("/"@ =~= seq!['/']);
        assert("."@ =~= seq!['.']);
        assert(".."@ =~= seq!['.', '.']);
    }
    let ghost c = components(path@);
    assert(parts@.len() == c.len());
    match parts.pop() {
        Some(last) => {
            assert(last@ == c.last());
            if same(last.as_str(), "/") || same(last.as_str(), ".") || same(last.as_str(), "..") {
                None
            } else {
                Some(last)
            }
        },
        None => None,
    }
}

/// The extension of the file name of a path.
pub fn extension_of(path: &str) -> (r: Option<String>)
    ensures
        match extension(path@) {
            Some(n) => r matches Some(t) && t@ == n,
            None => r is None,
        },
{
    match name_of(path) {
        Some(name) => {
            let chars = chars_of(name.as_str());
            let mut i: usize = chars.len();
            assert(chars@.take(i as int) =~= chars@);
            while i > 0
                invariant
                    i <= chars@.len(),
                    last_dot(chars@) == last_dot(chars@.take(i as int)),
                    chars@ == name@,
                    file_name(path@) == Some(name@),
                decreases i,
            {
                assert(chars@.take(i as int).drop_last() =~= chars@.take(i - 1));
                if chars[i - 1] == '.' {
                    if i == 1 {
                        return None;
                    }
                    assert(chars@.skip(i as int) =~= chars@.subrange(
                        i as int,
                        chars@.len() as int,
                    ));
                    return Some(text_of(&chars, i, chars.len()));
                }
                i -= 1;
            }
            None
        },
        None => None,
    }
}

/// The path without its last component.
pub fn parent_of(path: &str) -> (r: Option<String>)
    ensures
        match parent(path@) {
            Some(p) => r matches Some(t) && t@ == p,
            None => r is None,
        },
{
    let parts = split(path);
    let ghost c = components(path@);
    assert(parts@.len() == c.len());
    if parts.len() == 0 {
        return None;
    }
    proof {
        reveal_strlit("/");
        assert("/"@ =~= seq!['/']);
    }
    assert(parts@[parts@.len() - 1]@ == text::texts(parts@)[parts@.len() - 1]);
    if same(parts[parts.len() - 1].as_str(), "/") {
        return None;
    }
    let ghost wanted = c.drop_last();
    assert(text::texts(parts@).take(parts@.len() - 1) =~= wanted);
    let chars = chars_of(path);
    let mut n: usize = 0;
    loop
        invariant
            n <= chars@.len(),
            chars@ == path@,
            parts@.len() > 0,
            text::texts(parts@).take(parts@.len() - 1) == wanted,
            shortest(path@, wanted, 0) == shortest(path@, wanted, n as nat),
            parent(path@) == Some(path@.take(shortest(path@, wanted, 0) as int)),
        decreases chars@.len() - n,
    {
        let start = text_of(&chars, 0, n);
        assert(path@.take(n as int) =~= path@.subrange(0, n as int));
        if n == chars.len() || same_texts(&split(start.as_str()), &parts, parts.len() - 1) {
            return Some(start);
        }
        n += 1;
    }
}

} // verus!
