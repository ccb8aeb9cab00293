//! What numerals, trimming and splitting keep of a text.

use crate::text;
use vstd::prelude::*;

verus! {

/// A decimal numeral has digits only, at least one, and denotes its number.
pub proof fn decimal_is_read_back(n: nat)
    ensures
        text::decimal(n).len() > 0,
        text::all_digits(text::decimal(n)),
        text::number(text::decimal(n)) == n,
        text::parsed(text::decimal(n)) == Some(n),
    decreases n,
{
    let s = text::decimal(n);
    if n < 10 {
        assert(s.drop_last() =~= seq![]);
        assert(text::number(s.drop_last()) == 0);
    } else {
        decimal_is_read_back(n / 10);
        assert(s.drop_last() =~= text::decimal(n / 10));
    }
    assert('0' <= s[0] <= '9');
}

/// Different numbers have different decimal numerals.
pub proof fn decimals_tell_numbers_apart(m: nat, n: nat)
    requires
        text::decimal(m) == text::decimal(n),
    ensures
        m == n,
{
    decimal_is_read_back(m);
    decimal_is_read_back(n);
}

/// A text in front of which a needle does not start is found behind it.
pub proof fn find_behind(a: Seq<char>, b: Seq<char>, needle: Seq<char>)
    requires
        needle.is_prefix_of(b),
        forall|i: int| 0 <= i < a.len() ==> !needle.is_prefix_of((#[trigger] (a + b).skip(i))),
    ensures
        text::find(a + b, needle) == Some(a.len() as int),
    decreases a.len(),
{
    if a.len() == 0 {
        assert(a + b =~= b);
    } else {
        let t = a.skip(1);
        assert((a + b).skip(0) =~= a + b);
        assert((a + b).skip(1) =~= t + b);
        assert forall|i: int| 0 <= i < t.len() implies !needle.is_prefix_of(
            (#[trigger] (t + b).skip(i)),
        ) by {
            assert((t + b).skip(i) =~= (a + b).skip(i + 1));
        }
        find_behind(t, b, needle);
    }
}

/// A text whose parts a needle does not start is no text that it occurs in.
pub proof fn find_nowhere(s: Seq<char>, needle: Seq<char>)
    requires
        needle.len() > 0,
        forall|i: int| 0 <= i < s.len() ==> !needle.is_prefix_of((#[trigger] s.skip(i))),
    ensures
        text::find(s, needle) is None,
    decreases s.len(),
{
    if s.len() > 0 {
        let t = s.skip(1);
        assert(s.skip(0) =~= s);
        assert forall|i: int| 0 <= i < t.len() implies !needle.is_prefix_of(
            (#[trigger] t.skip(i)),
        ) by {
            assert(t.skip(i) =~= s.skip(i + 1));
        }
        find_nowhere(t, needle);
    }
}

/// A character splits a text where it first stands.
pub proof fn split_at(a: Seq<char>, c: char, b: Seq<char>)
    requires
        !a.contains(c),
    ensures
        text::halves(a + seq![c] + b, seq![c]) == Some((a, b)),
{
    let whole = a + seq![c] + b;
    let behind = seq![c] + b;
    assert(whole =~= a + behind);
    assert(seq![c].is_prefix_of(behind)) by {
        assert(behind.take(1) =~= seq![c]);
    }
    assert forall|i: int| 0 <= i < a.len() implies !seq![c].is_prefix_of(
        (#[trigger] (a + behind).skip(i)),
    ) by {
        assert((a + behind).skip(i)[0] == a[i]);
        assert(a.contains(a[i]));
        if seq![c].is_prefix_of((a + behind).skip(i)) {
            assert(seq![c][0] == (a + behind).skip(i)[0]);
        }
    }
    find_behind(a, behind, seq![c]);
    assert(whole.take(a.len() as int) =~= a);
    assert(whole.skip(a.len() as int + 1) =~= b);
}

/// A text without the character is not split by it.
pub proof fn no_split(a: Seq<char>, c: char)
    requires
        !a.contains(c),
    ensures
        text::halves(a, seq![c]) is None,
{
    assert forall|i: int| 0 <= i < a.len() implies !seq![c].is_prefix_of(
        (#[trigger] a.skip(i)),
    ) by {
        assert(a.contains(a[i]));
        if seq![c].is_prefix_of(a.skip(i)) {
            assert(seq![c][0] == a.skip(i)[0]);
        }
    }
    find_nowhere(a, seq![c]);
}

/// Trimming takes spaces away at both ends and nothing else.
pub proof fn trim_takes_spaces(a: Seq<char>, b: Seq<char>, c: Seq<char>)
    requires
        forall|i: int| 0 <= i < a.len() ==> text::is_space(#[trigger] a[i]),
        forall|i: int| 0 <= i < c.len() ==> text::is_space(#[trigger] c[i]),
        b.len() > 0,
        !text::is_space(b[0]),
        !text::is_space(b.last()),
    ensures
        text::trimmed(a + b + c) == b,
    decreases a.len() + c.len(),
{
    let s = a + b + c;
    if a.len() > 0 {
        let t = a.skip(1);
        assert(s.skip(1) =~= t + b + c);
        assert(s[0] == a[0]);
        trim_takes_spaces(t, b, c);
    } else {
        assert(s =~= b + c);
        assert(s[0] == b[0]);
        assert(text::after_space(s) == s);
        if c.len() > 0 {
            let d = c.drop_last();
            trim_takes_spaces(a, b, d);
            assert(a + b + d =~= b + d);
            assert((b + d)[0] == b[0]);
            assert(text::after_space(b + d) == b + d);
            assert(s.drop_last() =~= b + d);
            assert(s.last() == c.last());
        } else {
            assert(s =~= b);
        }
    }
}

/// A text of spaces trims to nothing.
pub proof fn trim_of_spaces_is_empty(s: Seq<char>)
    requires
        forall|i: int| 0 <= i < s.len() ==> text::is_space(#[trigger] s[i]),
    ensures
        text::trimmed(s).len() == 0,
    decreases s.len(),
{
    if s.len() > 0 {
        assert forall|i: int| 0 <= i < s.skip(1).len() implies text::is_space(
            #[trigger] s.skip(1)[i],
        ) by {
            assert(s.skip(1)[i] == s[i + 1]);
        }
        trim_of_spaces_is_empty(s.skip(1));
    }
}

/// What trimming leaves stands in the text between spaces, and has no space at
/// either end.
pub proof fn trim_parts_the_text(s: Seq<char>)
    ensures
        exists|a: int, b: int|
            0 <= a <= b <= s.len() && #[trigger] s.subrange(a, b) == text::trimmed(s) && (forall|
                i: int,
            |
                (0 <= i < a || b <= i < s.len()) ==> text::is_space(#[trigger] s[i])),
        text::trimmed(s).len() > 0 ==> !text::is_space(text::trimmed(s)[0]) && !text::is_space(
            text::trimmed(s).last(),
        ),
{
    let a = skipped(s);
    let t = text::after_space(s);
    let n = kept_before(t);
    let b = a + n;
    assert(s.subrange(a, b) =~= t.take(n));
    assert(text::trimmed(s) == s.subrange(a, b));
    assert forall|i: int| (0 <= i < a || b <= i < s.len()) implies text::is_space(
        #[trigger] s[i],
    ) by {
        if i >= b {
            assert(s[i] == t[i - a]);
        }
    }
}

proof fn skipped(s: Seq<char>) -> (n: int)
    ensures
        0 <= n <= s.len(),
        text::after_space(s) == s.skip(n),
        forall|i: int| 0 <= i < n ==> text::is_space(#[trigger] s[i]),
        text::after_space(s).len() > 0 ==> !text::is_space(text::after_space(s)[0]),
    decreases s.len(),
{
    if s.len() > 0 && text::is_space(s[0]) {
        let n = skipped(s.skip(1)) + 1;
        assert(s.skip(1).skip(n - 1) =~= s.skip(n));
        assert forall|i: int| 0 <= i < n implies text::is_space(#[trigger] s[i]) by {
            if i > 0 {
                assert(s[i] == s.skip(1)[i - 1]);
            }
        }
        n
    } else {
        assert(s.skip(0) =~= s);
        0
    }
}

proof fn kept_before(s: Seq<char>) -> (n: int)
    requires
        s.len() > 0 ==> !text::is_space(s[0]),
    ensures
        0 <= n <= s.len(),
        text::before_space(s) == s.take(n),
        forall|i: int| n <= i < s.len() ==> text::is_space(#[trigger] s[i]),
        n > 0 ==> !text::is_space(text::before_space(s).last()),
        n > 0 ==> !text::is_space(text::before_space(s)[0]),
        s.len() > 0 ==> n > 0,
    decreases s.len(),
{
    if s.len() > 0 && text::is_space(s.last()) {
        assert(s.len() > 1);
        let t = s.drop_last();
        assert(t[0] == s[0]);
        let n = kept_before(t);
        assert(t.take(n) =~= s.take(n));
        assert forall|i: int| n <= i < s.len() implies text::is_space(#[trigger] s[i]) by {
            if i < t.len() {
                assert(s[i] == t[i]);
            }
        }
        n
    } else {
        assert(s.take(s.len() as int) =~= s);
        s.len() as int
    }
}

/// The first word is the characters from the first that is no space to the next
/// space or the end; what follows it is the rest.
pub proof fn first_word_is_found(a: Seq<char>, word: Seq<char>, rest: Seq<char>)
    requires
        forall|i: int| 0 <= i < a.len() ==> text::is_space(#[trigger] a[i]),
        word.len() > 0,
        forall|i: int| 0 <= i < word.len() ==> !text::is_space(#[trigger] word[i]),
        rest.len() > 0 ==> text::is_space(rest[0]),
    ensures
        text::next_word(a + word + rest) == Some((word, rest)),
    decreases a.len(),
{
    let s = a + word + rest;
    if a.len() > 0 {
        assert(s.skip(1) =~= a.skip(1) + word + rest);
        assert(s[0] == a[0]);
        first_word_is_found(a.skip(1), word, rest);
    } else {
        assert(s =~= word + rest);
        assert(s[0] == word[0]);
        assert(text::after_space(s) == s);
        word_ends(word, rest);
        assert(s.take(word.len() as int) =~= word);
        assert(s.skip(word.len() as int) =~= rest);
    }
}

proof fn word_ends(word: Seq<char>, rest: Seq<char>)
    requires
        forall|i: int| 0 <= i < word.len() ==> !text::is_space(#[trigger] word[i]),
        rest.len() > 0 ==> text::is_space(rest[0]),
    ensures
        text::first_space(word + rest) == word.len(),
    decreases word.len(),
{
    let s = word + rest;
    if word.len() > 0 {
        assert(s[0] == word[0]);
        assert(s.skip(1) =~= word.skip(1) + rest);
        word_ends(word.skip(1), rest);
    } else {
        assert(s =~= rest);
    }
}

/// A text of spaces has no word.
pub proof fn spaces_have_no_word(s: Seq<char>)
    requires
        forall|i: int| 0 <= i < s.len() ==> text::is_space(#[trigger] s[i]),
    ensures
        text::next_word(s) is None,
    decreases s.len(),
{
    let n = skipped(s);
    if n < s.len() {
        assert(s.skip(n)[0] == s[n]);
    }
}

/// Words are counted on both sides of a space; a text without spaces is one word,
/// and the empty text none.
pub proof fn words_add_up(a: Seq<char>, space: char, b: Seq<char>)
    requires
        text::is_space(space),
    ensures
        text::word_count(a + seq![space] + b) == text::word_count(a) + text::word_count(b),
        text::word_count(seq![]) == 0,
    decreases b.len(),
{
    let s = a + seq![space] + b;
    if b.len() == 0 {
        assert(s.drop_last() =~= a);
    } else {
        words_add_up(a, space, b.drop_last());
        assert(s.drop_last() =~= a + seq![space] + b.drop_last());
        assert(s.last() == b.last());
        if b.len() > 1 {
            assert(s[s.len() - 2] == b[b.len() - 2]);
        } else {
            assert(s[s.len() - 2] == space);
        }
    }
}

/// Characters without a space between them are one word.
pub proof fn one_word(s: Seq<char>)
    requires
        s.len() > 0,
        forall|i: int| 0 <= i < s.len() ==> !text::is_space(#[trigger] s[i]),
    ensures
        text::word_count(s) == 1,
    decreases s.len(),
{
    if s.len() > 1 {
        let t = s.drop_last();
        assert forall|i: int| 0 <= i < t.len() implies !text::is_space(#[trigger] t[i]) by {
            assert(t[i] == s[i]);
        }
        one_word(t);
    } else {
        assert(text::word_count(s.drop_last()) == 0);
    }
}

/// Characters are counted on both sides of a cut; one character counts once if it
/// is the one, and else not.
pub proof fn characters_add_up(a: Seq<char>, b: Seq<char>, c: char)
    ensures
        text::char_count(a + b, c) == text::char_count(a, c) + text::char_count(b, c),
        text::char_count(seq![], c) == 0,
        forall|x: char| #[trigger]
            text::char_count(seq![x], c) == (if x == c {
                1nat
            } else {
                0nat
            }),
    decreases b.len(),
{
    if b.len() == 0 {
        assert(a + b =~= a);
    } else {
        characters_add_up(a, b.drop_last(), c);
        assert((a + b).drop_last() =~= a + b.drop_last());
    }
    assert forall|x: char| #[trigger]
        text::char_count(seq![x], c) == (if x == c {
            1nat
        } else {
            0nat
        }) by {
        assert(seq![x].drop_last() =~= Seq::<char>::empty());
        assert(text::char_count(Seq::<char>::empty(), c) == 0);
    }
}

/// A needle is found where it first stands, and found if it stands anywhere.
pub proof fn find_is_the_first(s: Seq<char>, needle: Seq<char>)
    ensures
        match text::find(s, needle) {
            Some(i) => 0 <= i <= s.len() && needle.is_prefix_of(s.skip(i)) && forall|j: int|
                0 <= j < i ==> !needle.is_prefix_of(#[trigger] s.skip(j)),
            None => forall|j: int|
                0 <= j <= s.len() ==> !needle.is_prefix_of(#[trigger] s.skip(j)),
        },
    decreases s.len(),
{
    assert(s.skip(0) =~= s);
    if !needle.is_prefix_of(s) && s.len() > 0 {
        find_is_the_first(s.skip(1), needle);
        assert forall|j: int| 0 < j <= s.len() implies #[trigger] s.skip(j) == s.skip(1).skip(
            j - 1,
        ) by {
            assert(s.skip(j) =~= s.skip(1).skip(j - 1));
        }
        match text::find(s.skip(1), needle) {
            Some(i) => {
                assert(s.skip(i + 1) == s.skip(1).skip(i));
                assert forall|j: int| 0 <= j < i + 1 implies !needle.is_prefix_of(
                    #[trigger] s.skip(j),
                ) by {
                    if j > 0 {
                        assert(s.skip(j) == s.skip(1).skip(j - 1));
                    }
                }
            },
            None => {
                assert forall|j: int| 0 <= j <= s.len() implies !needle.is_prefix_of(
                    #[trigger] s.skip(j),
                ) by {
                    if j > 0 {
                        assert(s.skip(j) == s.skip(1).skip(j - 1));
                    }
                }
            },
        }
    }
}

/// A text is split at the first occurrence of a needle, and nothing else is lost;
/// it is not split if the needle does not occur.
pub proof fn halves_part_the_text(s: Seq<char>, needle: Seq<char>)
    ensures
        match text::halves(s, needle) {
            Some((a, b)) => s == a + needle + b && forall|j: int|
                0 <= j < a.len() ==> !needle.is_prefix_of(#[trigger] s.skip(j)),
            None => forall|j: int|
                0 <= j <= s.len() ==> !needle.is_prefix_of(#[trigger] s.skip(j)),
        },
{
    find_is_the_first(s, needle);
    if let Some(i) = text::find(s, needle) {
        assert(s.skip(i).take(needle.len() as int) =~= needle);
        assert(s =~= s.take(i) + needle + s.skip(i + needle.len()));
    }
}

/// Occurrences are counted from the first one on, without overlap; an empty needle
/// occurs once more than there are characters.
pub proof fn matches_are_counted_one_by_one(s: Seq<char>, needle: Seq<char>)
    ensures
        needle.len() == 0 ==> text::match_count(s, needle) == s.len() + 1,
        needle.len() > 0 ==> text::match_count(s, needle) == (match text::find(s, needle) {
            Some(i) => 1 + text::match_count(s.skip(i + needle.len()), needle),
            None => 0,
        }),
    decreases s.len(),
{
    if needle.len() > 0 && s.len() > 0 {
        if needle.is_prefix_of(s) {
            assert(s.skip(0int + needle.len()) =~= s.skip(needle.len() as int));
        } else {
            matches_are_counted_one_by_one(s.skip(1), needle);
            if let Some(i) = text::find(s.skip(1), needle) {
                find_is_the_first(s.skip(1), needle);
                assert(s.skip(1).skip(i + needle.len()) =~= s.skip(i + 1 + needle.len()));
            }
        }
    }
}

/// Two texts are the same but for case if each two characters are equal or the
/// capital and the small form of one ASCII letter.
pub proof fn case_is_that_of_ascii_letters(a: Seq<char>, b: Seq<char>)
    ensures
        text::same_but_case(a, b) <==> a.len() == b.len() && forall|i: int|
            0 <= i < a.len() ==> {
                ||| #[trigger] a[i] == b[i]
                ||| 'A' <= a[i] <= 'Z' && b[i] as u32 == a[i] as u32 + 32
                ||| 'A' <= b[i] <= 'Z' && a[i] as u32 == b[i] as u32 + 32
            },
{
    if text::same_but_case(a, b) {
        assert forall|i: int| 0 <= i < a.len() implies {
            ||| #[trigger] a[i] == b[i]
            ||| 'A' <= a[i] <= 'Z' && b[i] as u32 == a[i] as u32 + 32
            ||| 'A' <= b[i] <= 'Z' && a[i] as u32 == b[i] as u32 + 32
        } by {
            assert(text::ascii_small(a[i]) == text::ascii_small(b[i]));
        }
    }
}

/// A numeral is read digit by digit, each digit by its value; its digits count ten
/// times less from left to right.
pub proof fn numbers_are_read_digit_by_digit(s: Seq<char>, c: char)
    requires
        '0' <= c <= '9',
    ensures
        text::number(s.push(c)) == 10 * text::number(s) + (c as u32 - '0' as u32),
        text::number(seq![]) == 0,
{
    assert(s.push(c).drop_last() =~= s);
}

/// The decimal numeral of a number does not start with a zero, but for that of zero.
pub proof fn decimal_has_no_leading_zero(n: nat)
    ensures
        n > 0 ==> text::decimal(n)[0] != '0',
        n == 0 ==> text::decimal(n) == seq!['0'],
    decreases n,
{
    if n >= 10 {
        decimal_has_no_leading_zero(n / 10);
        decimal_is_read_back(n / 10);
    }
}

/// A text is a number if it is digits, at least one, with at most a plus in front,
/// which changes nothing; and then it is the number that the digits denote.
pub proof fn numbers_are_digits(s: Seq<char>)
    ensures
        s.len() > 0 && text::all_digits(s) ==> text::parsed(s) == Some(text::number(s))
            && text::parsed(seq!['+'] + s) == Some(text::number(s)),
        text::parsed(s) is Some ==> s.len() > 0 && (text::all_digits(s) || s[0] == '+'
            && text::all_digits(s.skip(1)) && s.len() > 1),
        text::all_digits(s) <==> forall|i: int| 0 <= i < s.len() ==> '0' <= #[trigger] s[i] <= '9',
{
    assert((seq!['+'] + s).skip(1) =~= s);
    if s.len() > 0 && text::all_digits(s) {
        assert('0' <= s[0] <= '9');
    }
}

/// The value of a hexadecimal digit.
pub open spec fn hex_digit_value(c: char) -> nat {
    if '0' <= c <= '9' {
        (c as u32 - '0' as u32) as nat
    } else if 'a' <= c <= 'f' {
        (c as u32 - 'a' as u32 + 10) as nat
    } else {
        16
    }
}

/// The value of a hexadecimal numeral.
pub open spec fn hex_value(s: Seq<char>) -> nat
    decreases s.len(),
{
    if s.len() == 0 {
        0
    } else {
        16 * hex_value(s.drop_last()) + hex_digit_value(s.last())
    }
}

/// A hexadecimal numeral has the width asked for, is digits and small letters, and
/// denotes its number as far as the width goes.
pub proof fn hex_is_read_back(n: nat, width: nat)
    ensures
        text::hex(n, width).len() == width,
        forall|i: int| 0 <= i < width ==> hex_digit_value(#[trigger] text::hex(n, width)[i]) < 16,
        n < vstd::arithmetic::power::pow(16, width) ==> hex_value(text::hex(n, width)) == n,
    decreases width,
{
    if width > 0 {
        let m = (width - 1) as nat;
        let s = text::hex(n, width);
        hex_is_read_back(n / 16, m);
        assert(s.drop_last() =~= text::hex(n / 16, m));
        assert forall|i: int| 0 <= i < width implies hex_digit_value(#[trigger] s[i]) < 16 by {
            if i < m {
                assert(s[i] == text::hex(n / 16, m)[i]);
            }
        }
        assert(hex_digit_value(s.last()) == n % 16);
        vstd::arithmetic::power::lemma_pow1(16);
        if n < vstd::arithmetic::power::pow(16, width) {
            reveal(vstd::arithmetic::power::pow);
            let p = vstd::arithmetic::power::pow(16, m);
            assert(vstd::arithmetic::power::pow(16, width) == 16 * p);
            assert(n / 16 < p);
        }
    } else {
        reveal(vstd::arithmetic::power::pow);
    }
}

/// The spaces are the characters that Unicode counts as white space: the line breaks
/// and tabs, the blank, and the other blanks; letters and digits are none.
pub proof fn spaces_are_white_space(c: char)
    ensures
        text::is_space(c) <==> {
            ||| '\u{9}' <= c <= '\u{d}'
            ||| c == ' '
            ||| c == '\u{85}'
            ||| c == '\u{a0}'
            ||| c == '\u{1680}'
            ||| '\u{2000}' <= c <= '\u{200a}'
            ||| c == '\u{2028}'
            ||| c == '\u{2029}'
            ||| c == '\u{202f}'
            ||| c == '\u{205f}'
            ||| c == '\u{3000}'
        },
        '!' <= c <= '~' ==> !text::is_space(c),
{
}

} // verus!
