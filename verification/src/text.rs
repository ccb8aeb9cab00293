//! Text as sequences of characters: comparison, trimming, splitting, counting
//! and numerals.

use vstd::prelude::*;
use vstd::string::StringExecFns;

verus! {

/// `String::push` puts the character behind the text.
pub assume_specification[ String::push ](string: &mut String, ch: char)
    ensures
        final(string)@ == old(string)@.push(ch),
;

/// What `str::to_lowercase` makes of a text, by the character tables of std.
pub uninterp spec fn lowercased(text: Seq<char>) -> Seq<char>;

/// `str::to_lowercase`; its result depends on the text alone.
#[verifier::external_body]
pub(crate) fn lowercase(text: &str) -> (r: String)
    ensures
        r@ == lowercased(text@),
{
    text.to_lowercase()
}

/// The contents of a row of strings.
pub open spec fn texts(rows: Seq<String>) -> Seq<Seq<char>> {
    rows.map_values(|t: String| t@)
}

/// The content of an optional string.
pub open spec fn maybe_text(t: Option<String>) -> Option<Seq<char>> {
    match t {
        Some(t) => Some(t@),
        None => None,
    }
}

/// The content of an optional text.
pub open spec fn maybe_str(t: Option<&str>) -> Option<Seq<char>> {
    match t {
        Some(t) => Some(t@),
        None => None,
    }
}

/// The characters with the White_Space property.
pub open spec fn is_space(c: char) -> bool {
    ||| 0x9 <= c as u32 <= 0xd
    ||| c as u32 == 0x20
    ||| c as u32 == 0x85
    ||| c as u32 == 0xa0
    ||| c as u32 == 0x1680
    ||| 0x2000 <= c as u32 <= 0x200a
    ||| c as u32 == 0x2028
    ||| c as u32 == 0x2029
    ||| c as u32 == 0x202f
    ||| c as u32 == 0x205f
    ||| c as u32 == 0x3000
}

/// The text from its first character that is no space.
pub open spec fn after_space(s: Seq<char>) -> Seq<char>
    decreases s.len(),
{
    if s.len() > 0 && is_space(s[0]) {
        after_space(s.skip(1))
    } else {
        s
    }
}

/// The text up to its last character that is no space.
pub open spec fn before_space(s: Seq<char>) -> Seq<char>
    decreases s.len(),
{
    if s.len() > 0 && is_space(s.last()) {
        before_space(s.drop_last())
    } else {
        s
    }
}

/// The text without the spaces at its two ends.
pub open spec fn trimmed(s: Seq<char>) -> Seq<char> {
    before_space(after_space(s))
}

/// The position of the first space, or the length.
pub open spec fn first_space(s: Seq<char>) -> nat
    decreases s.len(),
{
    if s.len() == 0 || is_space(s[0]) {
        0
    } else {
        1 + first_space(s.skip(1))
    }
}

/// The first word and what follows it, if there is a word.
pub open spec fn next_word(s: Seq<char>) -> Option<(Seq<char>, Seq<char>)> {
    let t = after_space(s);
    if t.len() == 0 {
        None
    } else {
        Some((t.take(first_space(t) as int), t.skip(first_space(t) as int)))
    }
}

/// How many words the text has: a word starts where a space, or nothing, stands
/// before a character that is no space.
pub open spec fn word_count(s: Seq<char>) -> nat
    decreases s.len(),
{
    if s.len() == 0 {
        0
    } else {
        word_count(s.drop_last()) + (if !is_space(s.last()) && (s.len() == 1 || is_space(
            s[s.len() - 2],
        )) {
            1nat
        } else {
            0nat
        })
    }
}

/// How often `c` occurs.
pub open spec fn char_count(s: Seq<char>, c: char) -> nat
    decreases s.len(),
{
    if s.len() == 0 {
        0
    } else {
        char_count(s.drop_last(), c) + (if s.last() == c {
            1nat
        } else {
            0nat
        })
    }
}

/// Where `needle` first occurs.
pub open spec fn find(s: Seq<char>, needle: Seq<char>) -> Option<int>
    decreases s.len(),
{
    if needle.is_prefix_of(s) {
        Some(0)
    } else if s.len() == 0 {
        None
    } else {
        match find(s.skip(1), needle) {
            Some(i) => Some(i + 1),
            None => None,
        }
    }
}

/// The text before and after the first occurrence of `needle`.
pub open spec fn halves(s: Seq<char>, needle: Seq<char>) -> Option<(Seq<char>, Seq<char>)> {
    match find(s, needle) {
        Some(i) => Some((s.take(i), s.skip(i + needle.len()))),
        None => None,
    }
}

/// How many occurrences of `needle` there are, counted from the left without
/// overlap. An empty needle occurs before, between and after the characters.
pub open spec fn match_count(s: Seq<char>, needle: Seq<char>) -> nat
    decreases s.len(),
{
    if needle.len() == 0 {
        s.len() + 1
    } else if s.len() == 0 {
        0
    } else if needle.is_prefix_of(s) {
        1 + match_count(s.skip(needle.len() as int), needle)
    } else {
        match_count(s.skip(1), needle)
    }
}

/// An ASCII capital as its small letter, any other character as it is.
pub open spec fn ascii_small(c: char) -> char {
    if 'A' <= c <= 'Z' {
        (c as u32 + 32) as char
    } else {
        c
    }
}

/// Whether two texts differ at most in the case of ASCII letters.
pub open spec fn same_but_case(a: Seq<char>, b: Seq<char>) -> bool {
    &&& a.len() == b.len()
    &&& forall|i: int| 0 <= i < a.len() ==> ascii_small(#[trigger] a[i]) == ascii_small(b[i])
}

/// The numeral of a digit below sixteen.
pub open spec fn digit(d: int) -> char {
    if d < 10 {
        (0x30 + d) as char
    } else {
        (0x57 + d) as char
    }
}

/// The decimal numeral of `n`.
pub open spec fn decimal(n: nat) -> Seq<char>
    decreases n,
{
    if n < 10 {
        seq![digit(n as int)]
    } else {
        decimal(n / 10).push(digit((n % 10) as int))
    }
}

/// The last `width` hexadecimal digits of `n`, in small letters.
pub open spec fn hex(n: nat, width: nat) -> Seq<char>
    decreases width,
{
    if width == 0 {
        seq![]
    } else {
        hex(n / 16, (width - 1) as nat).push(digit((n % 16) as int))
    }
}

/// Whether every character is a decimal digit.
pub open spec fn all_digits(s: Seq<char>) -> bool {
    forall|i: int| 0 <= i < s.len() ==> '0' <= #[trigger] s[i] <= '9'
}

/// The number that a sequence of decimal digits denotes.
pub open spec fn number(s: Seq<char>) -> nat
    decreases s.len(),
{
    if s.len() == 0 {
        0
    } else {
        (number(s.drop_last()) * 10 + (s.last() as u32 - 0x30)) as nat
    }
}

/// A text as a number: decimal digits, at least one, behind at most one plus.
pub open spec fn parsed(s: Seq<char>) -> Option<nat> {
    let t = if s.len() > 0 && s[0] == '+' {
        s.skip(1)
    } else {
        s
    };
    if t.len() > 0 && all_digits(t) {
        Some(number(t))
    } else {
        None
    }
}

/// Whether two texts are the same.
pub fn same(a: &str, b: &str) -> (r: bool)
    ensures
        r == (a@ == b@),
{
    let x = a.as_bytes();
    let y = b.as_bytes();
    proof {
        vstd::utf8::encode_utf8_decode_utf8(a@);
        vstd::utf8::encode_utf8_decode_utf8(b@);
    }
    if x.len() != y.len() {
        return false;
    }
    let mut i: usize = 0;
    while i < x.len()
        invariant
            i <= x.len(),
            x@.len() == y@.len(),
            forall|j: int| 0 <= j < i ==> x@[j] == y@[j],
            x@ == vstd::utf8::encode_utf8(a@),
            y@ == vstd::utf8::encode_utf8(b@),
        decreases x.len() - i,
    {
        if x[i] != y[i] {
            return false;
        }
        i += 1;
    }
    assert(x@ =~= y@);
    true
}

/// Whether an optional text is there and is `b`.
pub fn same_option(a: &Option<String>, b: &str) -> (r: bool)
    ensures
        r == (a matches Some(t) && t@ == b@),
{
    match a {
        Some(t) => same(t.as_str(), b),
        None => false,
    }
}

/// The characters of a text.
pub fn chars_of(text: &str) -> (r: Vec<char>)
    ensures
        r@ == text@,
{
    let mut out: Vec<char> = Vec::new();
    for c in it: text.chars()
        invariant
            out@ == it.seq().take(it.index()),
    {
        out.push(c);
        assert(it.seq().take(it.index() + 1) =~= it.seq().take(it.index()).push(c));
    }
    out
}

/// The text of the characters from `from` to `to`.
pub fn text_of(chars: &Vec<char>, from: usize, to: usize) -> (r: String)
    requires
        from <= to <= chars@.len(),
    ensures
        r@ == chars@.subrange(from as int, to as int),
{
    let mut out = String::new();
    let mut i: usize = from;
    while i < to
        invariant
            from <= i <= to <= chars@.len(),
            out@ == chars@.subrange(from as int, i as int),
        decreases to - i,
    {
        out.push(chars[i]);
        i += 1;
        assert(chars@.subrange(from as int, i as int) =~= chars@.subrange(
            from as int,
            i - 1,
        ).push(chars@[i - 1]));
    }
    out
}

/// A text and another behind it.
pub fn join2(a: &str, b: &str) -> (r: String)
    ensures
        r@ == a@ + b@,
{
    let mut out = a.to_owned();
    out.append(b);
    out
}

/// Three texts one behind the other.
pub fn join3(a: &str, b: &str, c: &str) -> (r: String)
    ensures
        r@ == a@ + b@ + c@,
{
    let mut out = a.to_owned();
    out.append(b);
    out.append(c);
    out
}

/// Whether a character is a space.
pub fn space(c: char) -> (r: bool)
    ensures
        r == is_space(c),
{
    let n: u32 = c as u32;
    (0x9 <= n && n <= 0xd) || n == 0x20 || n == 0x85 || n == 0xa0 || n == 0x1680 || (0x2000 <= n
        && n <= 0x200a) || n == 0x2028 || n == 0x2029 || n == 0x202f || n == 0x205f || n == 0x3000
}

/// The position from `from` on of the first character that is no space.
fn skip_space(chars: &Vec<char>, from: usize) -> (r: usize)
    requires
        from <= chars@.len(),
    ensures
        from <= r <= chars@.len(),
        after_space(chars@.skip(from as int)) == chars@.skip(r as int),
{
    let mut i: usize = from;
    while i < chars.len() && space(chars[i])
        invariant
            from <= i <= chars@.len(),
            after_space(chars@.skip(from as int)) == after_space(chars@.skip(i as int)),
        decreases chars@.len() - i,
    {
        assert(chars@.skip(i as int).skip(1) =~= chars@.skip(i + 1));
        i += 1;
    }
    i
}

/// The position from `from` on of the first space, or the end.
fn skip_word(chars: &Vec<char>, from: usize) -> (r: usize)
    requires
        from <= chars@.len(),
    ensures
        from <= r <= chars@.len(),
        r == from + first_space(chars@.skip(from as int)),
{
    let mut i: usize = from;
    while i < chars.len() && !space(chars[i])
        invariant
            from <= i <= chars@.len(),
            from + first_space(chars@.skip(from as int)) == i + first_space(chars@.skip(i as int)),
        decreases chars@.len() - i,
    {
        assert(chars@.skip(i as int).skip(1) =~= chars@.skip(i + 1));
        i += 1;
    }
    i
}

/// The text without the spaces at its two ends.
pub fn trim(text: &str) -> (r: String)
    ensures
        r@ == trimmed(text@),
{
    let chars = chars_of(text);
    let from = skip_space(&chars, 0);
    let mut to: usize = chars.len();
    assert(chars@.skip(0) =~= chars@);
    assert(chars@.subrange(from as int, to as int) =~= chars@.skip(from as int));
    while to > from && space(chars[to - 1])
        invariant
            from <= to <= chars@.len(),
            before_space(chars@.skip(from as int)) == before_space(
                chars@.subrange(from as int, to as int),
            ),
        decreases to,
    {
        assert(chars@.subrange(from as int, to as int).drop_last() =~= chars@.subrange(
            from as int,
            to - 1,
        ));
        to -= 1;
    }
    text_of(&chars, from, to)
}

/// The first two words of a text, each if it is there.
pub fn two_words(text: &str) -> (r: (Option<String>, Option<String>))
    ensures
        match next_word(text@) {
            Some((first, rest)) => {
                &&& r.0 matches Some(a) && a@ == first
                &&& match next_word(rest) {
                    Some((second, _)) => r.1 matches Some(b) && b@ == second,
                    None => r.1 is None,
                }
            },
            None => r.0 is None && r.1 is None,
        },
{
    let chars = chars_of(text);
    let a = skip_space(&chars, 0);
    assert(chars@.skip(0) =~= chars@);
    if a == chars.len() {
        return (None, None);
    }
    let b = skip_word(&chars, a);
    assert(chars@.skip(a as int).skip(b - a) =~= chars@.skip(b as int));
    assert(chars@.skip(a as int).take(b - a) =~= chars@.subrange(a as int, b as int));
    let first = text_of(&chars, a, b);
    let c = skip_space(&chars, b);
    if c == chars.len() {
        return (Some(first), None);
    }
    let d = skip_word(&chars, c);
    assert(chars@.skip(c as int).take(d - c) =~= chars@.subrange(c as int, d as int));
    (Some(first), Some(text_of(&chars, c, d)))
}

/// How many words the text has.
pub fn count_words(text: &str) -> (r: usize)
    ensures
        r == word_count(text@),
{
    let chars = chars_of(text);
    let mut n: usize = 0;
    let mut i: usize = 0;
    while i < chars.len()
        invariant
            i <= chars@.len(),
            n <= i,
            n == word_count(chars@.take(i as int)),
        decreases chars@.len() - i,
    {
        assert(chars@.take(i + 1).drop_last() =~= chars@.take(i as int));
        if !space(chars[i]) && (i == 0 || space(chars[i - 1])) {
            n += 1;
        }
        i += 1;
    }
    assert(chars@.take(i as int) =~= chars@);
    n
}

/// How often `c` occurs.
pub fn count_char(text: &str, c: char) -> (r: usize)
    ensures
        r == char_count(text@, c),
{
    let chars = chars_of(text);
    let mut n: usize = 0;
    let mut i: usize = 0;
    while i < chars.len()
        invariant
            i <= chars@.len(),
            n <= i,
            n == char_count(chars@.take(i as int), c),
        decreases chars@.len() - i,
    {
        assert(chars@.take(i + 1).drop_last() =~= chars@.take(i as int));
        if chars[i] == c {
            n += 1;
        }
        i += 1;
    }
    assert(chars@.take(i as int) =~= chars@);
    n
}

/// Whether `needle` stands at position `at`.
fn stands_at(chars: &Vec<char>, needle: &Vec<char>, at: usize) -> (r: bool)
    requires
        at <= chars@.len(),
    ensures
        r == needle@.is_prefix_of(chars@.skip(at as int)),
{
    let total: usize = chars.len();
    if total - at < needle.len() {
        return false;
    }
    let mut i: usize = 0;
    while i < needle.len()
        invariant
            i <= needle@.len(),
            at + needle@.len() <= total,
            total == chars@.len(),
            forall|j: int| 0 <= j < i ==> needle@[j] == chars@[at + j],
        decreases needle@.len() - i,
    {
        if chars[at + i] != needle[i] {
            assert(chars@.skip(at as int)[i as int] != needle@[i as int]);
            return false;
        }
        i += 1;
    }
    assert(needle@ =~= chars@.skip(at as int).take(needle@.len() as int));
    true
}

/// Where `needle` first occurs from `from` on.
fn find_from(chars: &Vec<char>, needle: &Vec<char>, from: usize) -> (r: Option<usize>)
    requires
        from <= chars@.len(),
    ensures
        match find(chars@.skip(from as int), needle@) {
            Some(i) => r matches Some(k) && k == from + i && 0 <= i && from + i + needle@.len()
                <= chars@.len(),
            None => r is None,
        },
{
    let mut i: usize = from;
    loop
        invariant
            from <= i <= chars@.len(),
            find(chars@.skip(from as int), needle@) == (match find(
                chars@.skip(i as int),
                needle@,
            ) {
                Some(k) => Some(k + i - from),
                None => None,
            }),
        decreases chars@.len() - i,
    {
        if stands_at(chars, needle, i) {
            return Some(i);
        }
        if i == chars.len() {
            return None;
        }
        assert(chars@.skip(i as int).skip(1) =~= chars@.skip(i + 1));
        i += 1;
    }
}

/// Whether `needle` occurs in the text.
pub fn has(text: &str, needle: &str) -> (r: bool)
    ensures
        r == (find(text@, needle@) is Some),
{
    let chars = chars_of(text);
    let wanted = chars_of(needle);
    assert(chars@.skip(0) =~= chars@);
    find_from(&chars, &wanted, 0).is_some()
}

/// The text before and after the first occurrence of `needle`.
pub fn split_once(text: &str, needle: &str) -> (r: Option<(String, String)>)
    ensures
        match halves(text@, needle@) {
            Some((a, b)) => r matches Some(p) && p.0@ == a && p.1@ == b,
            None => r is None,
        },
{
    let chars = chars_of(text);
    let wanted = chars_of(needle);
    assert(chars@.skip(0) =~= chars@);
    match find_from(&chars, &wanted, 0) {
        Some(i) => {
            assert(chars@.take(i as int) =~= chars@.subrange(0, i as int));
            assert(chars@.skip(i + wanted@.len()) =~= chars@.subrange(
                i + wanted@.len(),
                chars@.len() as int,
            ));
            let total: usize = chars.len();
            Some((text_of(&chars, 0, i), text_of(&chars, i + wanted.len(), total)))
        },
        None => None,
    }
}

/// The text behind `prefix`, if it starts with that.
pub fn strip_prefix(text: &str, prefix: &str) -> (r: Option<String>)
    ensures
        prefix@.is_prefix_of(text@) ==> r is Some && r->0@ == text@.skip(prefix@.len() as int),
        !prefix@.is_prefix_of(text@) ==> r is None,
{
    let chars = chars_of(text);
    let wanted = chars_of(prefix);
    assert(chars@.skip(0) =~= chars@);
    if stands_at(&chars, &wanted, 0) {
        assert(chars@.skip(wanted@.len() as int) =~= chars@.subrange(
            wanted@.len() as int,
            chars@.len() as int,
        ));
        Some(text_of(&chars, wanted.len(), chars.len()))
    } else {
        None
    }
}

/// How many occurrences of `needle` there are, without overlap.
pub fn count_matches(text: &str, needle: &str) -> (r: u128)
    ensures
        r == match_count(text@, needle@),
{
    let chars = chars_of(text);
    let wanted = chars_of(needle);
    if wanted.len() == 0 {
        return chars.len() as u128 + 1;
    }
    let mut n: u128 = 0;
    let mut i: usize = 0;
    assert(chars@.skip(0) =~= chars@);
    while i < chars.len()
        invariant
            i <= chars@.len(),
            n <= i,
            wanted@.len() > 0,
            match_count(chars@, wanted@) == n + match_count(chars@.skip(i as int), wanted@),
        decreases chars@.len() - i,
    {
        if stands_at(&chars, &wanted, i) {
            assert(chars@.skip(i as int).skip(wanted@.len() as int) =~= chars@.skip(
                i + wanted@.len(),
            ));
            n += 1;
            i += wanted.len();
        } else {
            assert(chars@.skip(i as int).skip(1) =~= chars@.skip(i + 1));
            i += 1;
        }
    }
    n
}

/// An ASCII capital as its small letter.
fn small(c: char) -> (r: char)
    ensures
        r == ascii_small(c),
{
    if 'A' <= c && c <= 'Z' {
        let n: u8 = c as u8;
        (n + 32) as char
    } else {
        c
    }
}

/// Whether two texts differ at most in the case of ASCII letters.
pub fn same_ignoring_case(a: &str, b: &str) -> (r: bool)
    ensures
        r == same_but_case(a@, b@),
{
    let x = chars_of(a);
    let y = chars_of(b);
    if x.len() != y.len() {
        return false;
    }
    let mut i: usize = 0;
    while i < x.len()
        invariant
            i <= x@.len(),
            x@ == a@,
            y@ == b@,
            x@.len() == y@.len(),
            forall|j: int| 0 <= j < i ==> ascii_small(#[trigger] x@[j]) == ascii_small(y@[j]),
        decreases x@.len() - i,
    {
        if small(x[i]) != small(y[i]) {
            assert(ascii_small(a@[i as int]) != ascii_small(b@[i as int]));
            return false;
        }
        i += 1;
    }
    true
}

/// The numeral of a digit below sixteen.
fn numeral(d: u8) -> (r: char)
    requires
        d < 16,
    ensures
        r == digit(d as int),
{
    if d < 10 {
        (0x30 + d) as char
    } else {
        (0x57 + d) as char
    }
}

/// Puts the decimal numeral of `n` behind a text.
pub fn push_decimal(out: &mut String, n: u128)
    ensures
        final(out)@ == old(out)@ + decimal(n as nat),
    decreases n,
{
    if n < 10 {
        out.push(numeral(n as u8));
        assert(out@ =~= old(out)@ + decimal(n as nat));
    } else {
        push_decimal(out, n / 10);
        out.push(numeral((n % 10) as u8));
        assert(out@ =~= old(out)@ + decimal(n as nat));
    }
}

/// The decimal numeral of `n`.
pub fn decimal_text(n: u128) -> (r: String)
    ensures
        r@ == decimal(n as nat),
{
    let mut out = String::new();
    push_decimal(&mut out, n);
    assert(Seq::<char>::empty() + decimal(n as nat) =~= decimal(n as nat));
    out
}

/// Puts the last `width` hexadecimal digits of `n` behind a text.
pub fn push_hex(out: &mut String, n: u64, width: u8)
    ensures
        final(out)@ == old(out)@ + hex(n as nat, width as nat),
    decreases width,
{
    if width > 0 {
        push_hex(out, n / 16, width - 1);
        out.push(numeral((n % 16) as u8));
    }
    assert(out@ =~= old(out)@ + hex(n as nat, width as nat));
}

/// A text as a number that fits `usize`.
pub fn parse_usize(text: &str) -> (r: Option<usize>)
    ensures
        match parsed(text@) {
            Some(n) => r == (if n <= usize::MAX {
                Some(n as usize)
            } else {
                None
            }),
            None => r is None,
        },
{
    let chars = chars_of(text);
    let from: usize = if chars.len() > 0 && chars[0] == '+' {
        1
    } else {
        0
    };
    let ghost t = chars@.skip(from as int);
    assert(chars@.skip(0) =~= chars@);
    if from == chars.len() {
        return None;
    }
    let mut n: usize = 0;
    let mut fits: bool = true;
    let mut i: usize = from;
    while i < chars.len()
        invariant
            from <= i <= chars@.len(),
            t == chars@.skip(from as int),
            t.len() > 0,
            parsed(chars@) == (if all_digits(t) {
                Some(number(t))
            } else {
                None
            }),
            text@ == chars@,
            forall|j: int| 0 <= j < i - from ==> '0' <= #[trigger] t[j] <= '9',
            fits ==> n == number(t.take(i - from)),
            !fits ==> number(t.take(i - from)) > usize::MAX,
        decreases chars@.len() - i,
    {
        let c = chars[i];
        assert(t[i - from] == c);
        if !('0' <= c && c <= '9') {
            return None;
        }
        let d: usize = (c as u8 - 0x30) as usize;
        assert(t.take(i - from + 1).drop_last() =~= t.take(i - from));
        if fits {
            match n.checked_mul(10) {
                Some(m) => match m.checked_add(d) {
                    Some(k) => {
                        n = k;
                    },
                    None => {
                        fits = false;
                    },
                },
                None => {
                    fits = false;
                },
            }
        }
        i += 1;
    }
    assert(t.take(i - from) =~= t);
    if fits {
        Some(n)
    } else {
        None
    }
}

} // verus!
