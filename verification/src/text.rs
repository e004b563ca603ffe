//! Text helpers shared by the parsers: trimming, joining and decimal rendering.

use vstd::prelude::*;
use vstd::string::StringExecFns;
use crate::models::texts_of;

verus! {

/// Whether `c` carries the Unicode `White_Space` property.
pub uninterp spec fn white_space(c: char) -> bool;

/// `char::is_whitespace` of the standard library: reports whether the character
/// has the Unicode `White_Space` property. Nothing else is claimed of it.
#[verifier::external_body]
pub(crate) fn is_white_space(c: char) -> (r: bool)
    ensures
        r == white_space(c),
{
    c.is_whitespace()
}

/// `str`'s `==` of the standard library: whether two string slices hold the same text.
#[verifier::external_body]
pub(crate) fn same_text(a: &str, b: &str) -> (r: bool)
    ensures
        r == (a@ == b@),
{
    a == b
}

/// The text that a lossy reading of `bytes` as UTF-8 gives.
pub uninterp spec fn utf8_lossy(bytes: Seq<u8>) -> Seq<char>;

/// `String::from_utf8_lossy` of the standard library: reads bytes as UTF-8 and
/// puts U+FFFD where they are not. The text is a function of the bytes alone.
#[verifier::external_body]
pub(crate) fn lossy_text(bytes: &[u8]) -> (r: String)
    ensures
        r@ == utf8_lossy(bytes@),
{
    String::from_utf8_lossy(bytes).into_owned()
}

/// `s` without its leading white space.
pub open spec fn trim_start(s: Seq<char>) -> Seq<char>
    decreases s.len(),
{
    if s.len() > 0 && white_space(s[0]) {
        trim_start(s.drop_first())
    } else {
        s
    }
}

/// `s` without its trailing white space.
pub open spec fn trim_end(s: Seq<char>) -> Seq<char>
    decreases s.len(),
{
    if s.len() > 0 && white_space(s.last()) {
        trim_end(s.drop_last())
    } else {
        s
    }
}

/// `s` without leading and trailing white space.
pub open spec fn trimmed(s: Seq<char>) -> Seq<char> {
    trim_end(trim_start(s))
}

/// Skipping a run of white space at the front leaves the rest to be trimmed.
proof fn lemma_trim_start_skips(s: Seq<char>, n: int)
    requires
        0 <= n <= s.len(),
        forall|i: int| 0 <= i < n ==> white_space(#[trigger] s[i]),
    ensures
        trim_start(s) == trim_start(s.subrange(n, s.len() as int)),
    decreases n,
{
    if n == 0 {
        assert(s.subrange(0, s.len() as int) =~= s);
    } else {
        let rest = s.drop_first();
        assert forall|i: int| 0 <= i < n - 1 implies white_space(#[trigger] rest[i]) by {
            assert(rest[i] == s[i + 1]);
        }
        lemma_trim_start_skips(rest, n - 1);
        assert(rest.subrange(n - 1, rest.len() as int) =~= s.subrange(n, s.len() as int));
    }
}

/// Dropping a run of white space at the back leaves the rest to be trimmed.
proof fn lemma_trim_end_skips(s: Seq<char>, n: int)
    requires
        0 <= n <= s.len(),
        forall|i: int| n <= i < s.len() ==> white_space(#[trigger] s[i]),
    ensures
        trim_end(s) == trim_end(s.subrange(0, n)),
    decreases s.len() - n,
{
    if n == s.len() {
        assert(s.subrange(0, n) =~= s);
    } else {
        let rest = s.drop_last();
        assert forall|i: int| n <= i < rest.len() implies white_space(#[trigger] rest[i]) by {
            assert(rest[i] == s[i]);
        }
        lemma_trim_end_skips(rest, n);
        assert(rest.subrange(0, n) =~= s.subrange(0, n));
    }
}

/// Trimming leaves nothing to trim: the result neither starts nor ends with
/// white space, and trimming it again changes nothing.
pub proof fn lemma_trimmed_is_trim(s: Seq<char>)
    ensures
        trimmed(s).len() > 0 ==> !white_space(trimmed(s)[0]) && !white_space(trimmed(s).last()),
        trimmed(trimmed(s)) == trimmed(s),
        trimmed(s).len() <= s.len(),
{
    lemma_trim_start_shape(s);
    let a = trim_start(s);
    lemma_trim_end_shape(a);
    let b = trim_end(a);
    if b.len() > 0 {
        assert(b[0] == a[0]);
    }
}

/// What trimming the front leaves: a suffix that does not start with white space.
proof fn lemma_trim_start_shape(s: Seq<char>)
    ensures
        trim_start(s).len() <= s.len(),
        trim_start(s) == s.subrange(s.len() - trim_start(s).len(), s.len() as int),
        trim_start(s).len() > 0 ==> !white_space(trim_start(s)[0]),
    decreases s.len(),
{
    if s.len() > 0 && white_space(s[0]) {
        let rest = s.drop_first();
        lemma_trim_start_shape(rest);
        let k = trim_start(rest).len();
        assert(rest.subrange(rest.len() - k, rest.len() as int) =~= s.subrange(
            s.len() - k,
            s.len() as int,
        ));
    } else {
        assert(s.subrange(0, s.len() as int) =~= s);
    }
}

/// What trimming the back leaves: a prefix that does not end with white space.
proof fn lemma_trim_end_shape(s: Seq<char>)
    ensures
        trim_end(s).len() <= s.len(),
        trim_end(s) == s.subrange(0, trim_end(s).len() as int),
        trim_end(s).len() > 0 ==> !white_space(trim_end(s).last()),
    decreases s.len(),
{
    if s.len() > 0 && white_space(s.last()) {
        let rest = s.drop_last();
        lemma_trim_end_shape(rest);
        let k = trim_end(rest).len();
        assert(rest.subrange(0, k as int) =~= s.subrange(0, k as int));
    } else {
        assert(s.subrange(0, s.len() as int) =~= s);
    }
}

/// The characters of a string, in order.
pub fn chars_of(s: &str) -> (r: Vec<char>)
    ensures
        r@ == s@,
{
    let mut chars: Vec<char> = Vec::new();
    for c in it: s.chars()
        invariant
            chars@ == it.seq().subrange(0, it.index() as int),
            it.seq() == s@,
    {
        chars.push(c);
    }
    chars
}

/// Returns `s` without leading and trailing white space.
pub fn trim(s: &str) -> (r: String)
    ensures
        r@ == trimmed(s@),
{
    let chars = chars_of(s);
    let n = chars.len();
    let mut start: usize = 0;
    while start < n && is_white_space(chars[start])
        invariant
            start <= n,
            n == s@.len(),
            chars@ == s@,
            forall|i: int| 0 <= i < start ==> white_space(#[trigger] s@[i]),
        decreases n - start,
    {
        start = start + 1;
    }
    let mut end: usize = n;
    while end > start && is_white_space(chars[end - 1])
        invariant
            start <= end <= n,
            n == s@.len(),
            chars@ == s@,
            forall|i: int| end <= i < n ==> white_space(#[trigger] s@[i]),
        decreases end,
    {
        end = end - 1;
    }
    proof {
        let front = s@.subrange(start as int, n as int);
        lemma_trim_start_skips(s@, start as int);
        assert(trim_start(s@) == front) by {
            if front.len() > 0 {
                assert(front[0] == s@[start as int]);
            }
        }
        let keep = end - start;
        assert forall|i: int| keep <= i < front.len() implies white_space(#[trigger] front[i]) by {
            assert(front[i] == s@[start + i]);
        }
        lemma_trim_end_skips(front, keep as int);
        let middle = front.subrange(0, keep as int);
        assert(trim_end(middle) == middle) by {
            if middle.len() > 0 {
                assert(middle.last() == s@[end - 1]);
            }
        }
        assert(middle =~= s@.subrange(start as int, end as int));
    }
    s.substring_char(start, end).to_owned()
}

/// Whether `text` begins with `prefix`.
pub fn starts_with(text: &str, prefix: &str) -> (r: bool)
    ensures
        r == prefix@.is_prefix_of(text@),
{
    let chars = chars_of(text);
    let wanted = chars_of(prefix);
    if wanted.len() > chars.len() {
        return false;
    }
    let mut i: usize = 0;
    while i < wanted.len()
        invariant
            i <= wanted@.len() <= chars@.len(),
            chars@ == text@,
            wanted@ == prefix@,
            forall|k: int| 0 <= k < i ==> chars@[k] == wanted@[k],
        decreases wanted.len() - i,
    {
        if chars[i] != wanted[i] {
            assert(text@.subrange(0, prefix@.len() as int)[i as int] != prefix@[i as int]);
            return false;
        }
        i = i + 1;
    }
    assert(text@.subrange(0, prefix@.len() as int) =~= prefix@);
    true
}

/// The pieces of `s` between the occurrences of `separator`. A text without
/// the separator is one piece, and so is the empty text; two separators in a
/// row have an empty piece between them.
pub open spec fn split(s: Seq<char>, separator: char) -> Seq<Seq<char>>
    decreases s.len(),
{
    if s.len() == 0 {
        seq![Seq::empty()]
    } else {
        let front = split(s.drop_last(), separator);
        if s.last() == separator {
            front.push(Seq::empty())
        } else {
            front.drop_last().push(front.last().push(s.last()))
        }
    }
}

/// The pieces put together again, with the separator between them.
pub open spec fn join(pieces: Seq<Seq<char>>, separator: char) -> Seq<char>
    decreases pieces.len(),
{
    if pieces.len() == 0 {
        Seq::empty()
    } else if pieces.len() == 1 {
        pieces[0]
    } else {
        join(pieces.drop_last(), separator).push(separator) + pieces.last()
    }
}

/// Splitting loses nothing: there is at least one piece, no piece holds the
/// separator, and the pieces joined by the separator are the text.
pub proof fn lemma_split_joins(s: Seq<char>, separator: char)
    ensures
        split(s, separator).len() >= 1,
        forall|i: int, k: int|
            0 <= i < split(s, separator).len() && 0 <= k < split(s, separator)[i].len() ==> (
            #[trigger] split(s, separator)[i][k]) != separator,
        join(split(s, separator), separator) == s,
    decreases s.len(),
{
    let pieces = split(s, separator);
    if s.len() == 0 {
        assert(join(pieces, separator) =~= s);
    } else {
        let front = split(s.drop_last(), separator);
        lemma_split_joins(s.drop_last(), separator);
        if s.last() == separator {
            assert(pieces.drop_last() =~= front);
            assert(join(pieces, separator) =~= join(front, separator).push(separator));
            assert(join(front, separator).push(separator) =~= s);
            assert forall|i: int, k: int|
                0 <= i < pieces.len() && 0 <= k < pieces[i].len() implies (#[trigger] pieces[i][k])
                != separator by {
                assert(pieces[i] == front[i]);
            }
        } else {
            let grown = front.last().push(s.last());
            assert(pieces.last() == grown);
            assert forall|i: int, k: int|
                0 <= i < pieces.len() && 0 <= k < pieces[i].len() implies (#[trigger] pieces[i][k])
                != separator by {
                if i < pieces.len() - 1 {
                    assert(pieces[i] == front[i]);
                } else if k < front.last().len() {
                    assert(pieces[i][k] == front[front.len() - 1][k]);
                }
            }
            if front.len() == 1 {
                assert(join(pieces, separator) =~= s);
            } else {
                assert(pieces.drop_last() =~= front.drop_last());
                assert(join(pieces, separator) =~= (join(front.drop_last(), separator).push(
                    separator,
                ) + front.last()).push(s.last()));
                assert(join(pieces, separator) =~= s);
            }
        }
    }
}

/// Splits `text` at every occurrence of `separator`.
pub fn split_on(text: &str, separator: char) -> (r: Vec<String>)
    ensures
        texts_of(r@) == split(text@, separator),
{
    let chars = chars_of(text);
    let mut pieces: Vec<String> = Vec::new();
    let mut from: usize = 0;
    let mut i: usize = 0;
    proof {
        assert(text@.subrange(0, 0) =~= Seq::empty());
        assert(texts_of(pieces@).push(text@.subrange(0, 0)) =~= seq![
            Seq::<char>::empty(),
        ]);
    }
    while i < chars.len()
        invariant
            from <= i <= chars@.len(),
            chars@ == text@,
            split(text@.subrange(0, i as int), separator) == texts_of(pieces@).push(
                text@.subrange(from as int, i as int),
            ),
        decreases chars.len() - i,
    {
        let ghost seen = text@.subrange(0, i as int);
        let ghost next = text@.subrange(0, i + 1);
        let ghost done = texts_of(pieces@);
        let ghost current = text@.subrange(from as int, i as int);
        proof {
            assert(next.drop_last() =~= seen);
            assert(next.last() == text@[i as int]);
            assert(done.push(current).drop_last() =~= done);
            assert(done.push(current).last() == current);
        }
        if chars[i] == separator {
            pieces.push(text.substring_char(from, i).to_owned());
            from = i + 1;
            proof {
                assert(texts_of(pieces@) =~= done.push(current));
                assert(text@.subrange(from as int, i + 1) =~= Seq::empty());
            }
        } else {
            proof {
                assert(current.push(text@[i as int]) =~= text@.subrange(from as int, i + 1));
            }
        }
        i = i + 1;
    }
    let ghost done = texts_of(pieces@);
    pieces.push(text.substring_char(from, i).to_owned());
    proof {
        assert(text@.subrange(0, i as int) =~= text@);
        assert(texts_of(pieces@) =~= done.push(text@.subrange(from as int, i as int)));
    }
    pieces
}

/// The character of a decimal digit.
pub open spec fn digit(d: int) -> char {
    if d == 0 {
        '0'
    } else if d == 1 {
        '1'
    } else if d == 2 {
        '2'
    } else if d == 3 {
        '3'
    } else if d == 4 {
        '4'
    } else if d == 5 {
        '5'
    } else if d == 6 {
        '6'
    } else if d == 7 {
        '7'
    } else if d == 8 {
        '8'
    } else {
        '9'
    }
}

/// The decimal numeral of `n`, without leading zeros.
pub open spec fn decimal(n: nat) -> Seq<char>
    decreases n,
{
    if n < 10 {
        seq![digit(n as int)]
    } else {
        decimal(n / 10).push(digit((n % 10) as int))
    }
}

/// The text of one decimal digit.
fn digit_text(d: usize) -> (r: &'static str)
    requires
        d < 10,
    ensures
        r@ == seq![digit(d as int)],
{
    proof {
        reveal_strlit("0");
        reveal_strlit("1");
        reveal_strlit("2");
        reveal_strlit("3");
        reveal_strlit("4");
        reveal_strlit("5");
        reveal_strlit("6");
        reveal_strlit("7");
        reveal_strlit("8");
        reveal_strlit("9");
    }
    let r = if d == 0 {
        "0"
    } else if d == 1 {
        "1"
    } else if d == 2 {
        "2"
    } else if d == 3 {
        "3"
    } else if d == 4 {
        "4"
    } else if d == 5 {
        "5"
    } else if d == 6 {
        "6"
    } else if d == 7 {
        "7"
    } else if d == 8 {
        "8"
    } else {
        "9"
    };
    assert(r@ =~= seq![digit(d as int)]);
    r
}

/// Renders `n` as a decimal numeral.
pub fn decimal_text(n: usize) -> (r: String)
    ensures
        r@ == decimal(n as nat),
    decreases n,
{
    let last = digit_text(n % 10);
    if n < 10 {
        String::from_str(last)
    } else {
        let r = decimal_text(n / 10).concat(last);
        assert(r@ =~= decimal((n / 10) as nat).push(digit((n % 10) as int)));
        r
    }
}

} // verus!
