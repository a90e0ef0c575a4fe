use vstd::prelude::*;
use vstd::slice::slice_subrange;
use vstd::utf8::{encode_scalar, encode_utf8, is_scalar};

verus! {

/// Whether a character is whitespace: whether it has the Unicode property
/// `White_Space`. These are the tab, the line feed, the vertical tab, the form
/// feed and the carriage return; the space; the next line; the no-break
/// space; the Ogham space mark; the spaces from the en quad to the hair
/// space; the line and the paragraph separator; the narrow no-break space;
/// the medium mathematical space; and the ideographic space.
pub open spec fn is_white_space(c: char) -> bool {
    let code = c as u32;
    ||| 0x09 <= code <= 0x0D
    ||| code == 0x20
    ||| code == 0x85
    ||| code == 0xA0
    ||| code == 0x1680
    ||| 0x2000 <= code <= 0x200A
    ||| code == 0x2028
    ||| code == 0x2029
    ||| code == 0x202F
    ||| code == 0x205F
    ||| code == 0x3000
}

/// `char::is_whitespace` tells whether the character has the Unicode property
/// `White_Space`.
pub assume_specification[ char::is_whitespace ](c: char) -> (r: bool)
    ensures
        r == is_white_space(c),
;

/// `String::push` appends one character to the end of the string.
pub assume_specification[ String::push ](s: &mut String, c: char)
    ensures
        final(s)@ == old(s)@.push(c),
;

/// A text is blank when it holds nothing but whitespace.
pub open spec fn is_blank(s: Seq<char>) -> bool {
    forall|i: int| 0 <= i < s.len() ==> is_white_space(#[trigger] s[i])
}

/// The number of whitespace characters that `s` starts with.
pub open spec fn leading_white(s: Seq<char>) -> nat
    decreases s.len(),
{
    if s.len() > 0 && is_white_space(s[0]) {
        1 + leading_white(s.drop_first())
    } else {
        0
    }
}

/// The number of whitespace characters that `s` ends with.
pub open spec fn trailing_white(s: Seq<char>) -> nat
    decreases s.len(),
{
    if s.len() > 0 && is_white_space(s.last()) {
        1 + trailing_white(s.drop_last())
    } else {
        0
    }
}

/// `s` without the whitespace at its start and at its end.
pub open spec fn trimmed(s: Seq<char>) -> Seq<char> {
    let rest = s.skip(leading_white(s) as int);
    rest.take(rest.len() - trailing_white(rest))
}

/// The UTF-8 encoding of a character takes this many bytes.
pub open spec fn utf8_width(c: char) -> nat {
    if (c as u32) < 0x80 {
        1
    } else if (c as u32) < 0x800 {
        2
    } else if (c as u32) < 0x10000 {
        3
    } else {
        4
    }
}

/// `s` without the characters at its start whose UTF-8 encodings fill exactly
/// `n` bytes; `None` where `s` is shorter than `n` bytes or the `n`-th byte
/// falls inside a character.
pub open spec fn skip_bytes(s: Seq<char>, n: nat) -> Option<Seq<char>>
    decreases s.len(),
{
    if n == 0 {
        Some(s)
    } else if s.len() == 0 || utf8_width(s[0]) > n {
        None
    } else {
        skip_bytes(s.drop_first(), (n - utf8_width(s[0])) as nat)
    }
}

/// The pieces of `s` between its line feeds, in order. A text without a line
/// feed is one line; a line feed at the very end is followed by an empty line.
pub open spec fn lines(s: Seq<char>) -> Seq<Seq<char>>
    decreases s.len(),
{
    if s.len() == 0 {
        seq![Seq::<char>::empty()]
    } else {
        let before = lines(s.drop_last());
        if s.last() == '\n' {
            before.push(Seq::<char>::empty())
        } else {
            before.drop_last().push(before.last().push(s.last()))
        }
    }
}

/// `utf8_width` is the length of the character's UTF-8 encoding.
pub proof fn lemma_utf8_width(c: char)
    ensures
        encode_scalar(c as u32).len() == utf8_width(c),
{
    assert(is_scalar(c as u32));
}

/// Skipping `n` bytes of a text cuts the first `n` bytes off its UTF-8
/// encoding.
pub proof fn law_skip_bytes_cuts_the_encoding(s: Seq<char>, n: nat)
    ensures
        skip_bytes(s, n) matches Some(rest) ==> n <= encode_utf8(s).len() && encode_utf8(rest)
            == encode_utf8(s).skip(n as int),
    decreases s.len(),
{
    if n == 0 {
        assert(encode_utf8(s).skip(0) == encode_utf8(s));
    } else if s.len() > 0 && utf8_width(s[0]) <= n {
        let first = encode_scalar(s[0] as u32);
        let left = (n - utf8_width(s[0])) as nat;
        lemma_utf8_width(s[0]);
        law_skip_bytes_cuts_the_encoding(s.drop_first(), left);
        if skip_bytes(s, n) is Some {
            let tail = encode_utf8(s.drop_first());
            assert(encode_utf8(s) == first + tail);
            assert((first + tail).skip(n as int) == tail.skip(left as int));
        }
    }
}

/// The given lines with a line feed between each two of them.
pub open spec fn joined(pieces: Seq<Seq<char>>) -> Seq<char>
    decreases pieces.len(),
{
    if pieces.len() == 0 {
        Seq::<char>::empty()
    } else if pieces.len() == 1 {
        pieces[0]
    } else {
        joined(pieces.drop_last()).push('\n') + pieces.last()
    }
}

/// The lines of a text are what stands between its line feeds: no line holds
/// a line feed, and the lines joined by line feeds are the text again.
pub proof fn law_lines_divide_the_text(s: Seq<char>)
    ensures
        lines(s).len() >= 1,
        joined(lines(s)) == s,
        forall|i: int, j: int|
            0 <= i < lines(s).len() && 0 <= j < lines(s)[i].len() ==> #[trigger] lines(s)[i][j]
                != '\n',
    decreases s.len(),
{
    if s.len() > 0 {
        let front = s.drop_last();
        let before = lines(front);
        law_lines_divide_the_text(front);
        if s.last() == '\n' {
            let all = before.push(Seq::<char>::empty());
            assert(all.drop_last() == before);
            assert(joined(before).push('\n') + Seq::<char>::empty() == front.push('\n'));
            assert(front.push('\n') == s);
        } else {
            let line = before.last().push(s.last());
            let all = before.drop_last().push(line);
            assert(all.drop_last() == before.drop_last());
            if before.len() == 1 {
                assert(joined(all) == line);
                assert(joined(before) == before.last());
            } else {
                assert(joined(all) == joined(before.drop_last()).push('\n') + line);
                assert(joined(before.drop_last()).push('\n') + line == (joined(
                    before.drop_last(),
                ).push('\n') + before.last()).push(s.last()));
            }
            assert(front.push(s.last()) == s);
            assert forall|i: int, j: int|
                0 <= i < all.len() && 0 <= j < all[i].len() implies #[trigger] all[i][j]
                != '\n' by {
                if i < all.len() - 1 {
                    assert(all[i] == before[i]);
                } else if j < before.last().len() {
                    assert(all[i][j] == before[before.len() - 1][j]);
                }
            }
        }
    }
}

/// The whitespace that a text starts with ends at the first character that is
/// not whitespace.
pub proof fn lemma_leading_white(s: Seq<char>, k: int)
    requires
        0 <= k <= s.len(),
        forall|i: int| 0 <= i < k ==> is_white_space(#[trigger] s[i]),
        k < s.len() ==> !is_white_space(s[k]),
    ensures
        leading_white(s) == k,
    decreases k,
{
    if k > 0 {
        let rest = s.drop_first();
        assert forall|i: int| 0 <= i < k - 1 implies is_white_space(#[trigger] rest[i]) by {
            assert(rest[i] == s[i + 1]);
        }
        lemma_leading_white(rest, k - 1);
    }
}

/// The whitespace that a text ends with starts after the last character that
/// is not whitespace.
pub proof fn lemma_trailing_white(s: Seq<char>, k: int)
    requires
        0 <= k <= s.len(),
        forall|i: int| s.len() - k <= i < s.len() ==> is_white_space(#[trigger] s[i]),
        k < s.len() ==> !is_white_space(s[s.len() - k - 1]),
    ensures
        trailing_white(s) == k,
    decreases k,
{
    if k > 0 {
        let rest = s.drop_last();
        assert forall|i: int| rest.len() - (k - 1) <= i < rest.len() implies is_white_space(
            #[trigger] rest[i],
        ) by {
            assert(rest[i] == s[i]);
        }
        lemma_trailing_white(rest, k - 1);
    }
}

/// A text is blank exactly when nothing is left of it once it is trimmed.
pub proof fn lemma_blank_trims_to_nothing(s: Seq<char>)
    ensures
        is_blank(s) <==> trimmed(s).len() == 0,
{
    let a = leading_white(s) as int;
    lemma_leading_white_bounds(s);
    let rest = s.skip(a);
    lemma_trailing_white_bounds(rest);
    if is_blank(s) {
        lemma_leading_white(s, s.len() as int);
    } else {
        if trimmed(s).len() == 0 {
            // Then everything after the leading whitespace is trailing whitespace.
            assert(trailing_white(rest) == rest.len());
            assert forall|i: int| 0 <= i < s.len() implies is_white_space(#[trigger] s[i]) by {
                if i >= a {
                    assert(rest[i - a] == s[i]);
                }
            }
        }
    }
}

/// The leading whitespace is whitespace, and what follows it is not.
pub proof fn lemma_leading_white_bounds(s: Seq<char>)
    ensures
        leading_white(s) <= s.len(),
        forall|i: int| 0 <= i < leading_white(s) ==> is_white_space(#[trigger] s[i]),
        leading_white(s) < s.len() ==> !is_white_space(s[leading_white(s) as int]),
    decreases s.len(),
{
    if s.len() > 0 && is_white_space(s[0]) {
        let rest = s.drop_first();
        lemma_leading_white_bounds(rest);
        assert forall|i: int| 0 <= i < leading_white(s) implies is_white_space(#[trigger] s[i]) by {
            if i > 0 {
                assert(s[i] == rest[i - 1]);
            }
        }
        if leading_white(s) < s.len() {
            assert(s[leading_white(s) as int] == rest[leading_white(rest) as int]);
        }
    }
}

/// The trailing whitespace is whitespace, and what precedes it is not.
pub proof fn lemma_trailing_white_bounds(s: Seq<char>)
    ensures
        trailing_white(s) <= s.len(),
        forall|i: int| s.len() - trailing_white(s) <= i < s.len() ==> is_white_space(#[trigger] s[i]),
        trailing_white(s) < s.len() ==> !is_white_space(s[s.len() - trailing_white(s) - 1]),
    decreases s.len(),
{
    if s.len() > 0 && is_white_space(s.last()) {
        let rest = s.drop_last();
        lemma_trailing_white_bounds(rest);
        assert forall|i: int| s.len() - trailing_white(s) <= i < s.len() implies is_white_space(
            #[trigger] s[i],
        ) by {
            if i < s.len() - 1 {
                assert(s[i] == rest[i]);
            }
        }
        if trailing_white(s) < s.len() {
            assert(s[s.len() - trailing_white(s) - 1] == rest[rest.len() - trailing_white(rest) - 1]);
        }
    }
}

/// The characters of a string, in order.
pub fn to_chars(s: &str) -> (v: Vec<char>)
    ensures
        v@ == s@,
{
    let mut v: Vec<char> = Vec::new();
    for c in it: s.chars()
        invariant
            v@ == it.seq().take(it.index() as int),
    {
        v.push(c);
    }
    v
}

/// The string made of the given characters, in order.
pub fn to_text(s: &[char]) -> (r: String)
    ensures
        r@ == s@,
{
    let mut r = String::new();
    let mut i: usize = 0;
    while i < s.len()
        invariant
            i <= s.len(),
            r@ == s@.take(i as int),
        decreases s.len() - i,
    {
        r.push(s[i]);
        assert(s@.take(i + 1) == s@.take(i as int).push(s@[i as int]));
        i += 1;
    }
    r
}

/// Removes the whitespace at both ends.
pub fn trim<'a>(s: &'a [char]) -> (r: &'a [char])
    ensures
        r@ == trimmed(s@),
{
    let mut lo: usize = 0;
    while lo < s.len() && s[lo].is_whitespace()
        invariant
            lo <= s.len(),
            forall|i: int| 0 <= i < lo ==> is_white_space(#[trigger] s@[i]),
        decreases s.len() - lo,
    {
        lo += 1;
    }
    let mut hi: usize = s.len();
    while hi > lo && s[hi - 1].is_whitespace()
        invariant
            lo <= hi <= s.len(),
            forall|i: int| hi <= i < s.len() ==> is_white_space(#[trigger] s@[i]),
        decreases hi,
    {
        hi -= 1;
    }
    proof {
        lemma_leading_white(s@, lo as int);
        let rest = s@.skip(lo as int);
        assert forall|i: int| rest.len() - (s.len() - hi) <= i < rest.len() implies is_white_space(
            #[trigger] rest[i],
        ) by {
            assert(rest[i] == s@[i + lo]);
        }
        if hi > lo {
            assert(rest[hi - lo - 1] == s@[hi - 1]);
        }
        lemma_trailing_white(rest, s.len() - hi);
        assert(rest.take(hi - lo) == s@.subrange(lo as int, hi as int));
    }
    slice_subrange(s, lo, hi)
}

} // verus!
