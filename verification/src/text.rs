//! Text as sequences of characters: the line, field, word and number grammar
//! that the emulator's files and command outputs are read with.
use vstd::arithmetic::div_mod::lemma_div_denominator;
use vstd::arithmetic::power::{lemma_pow0, lemma_pow1, lemma_pow_adds, lemma_pow_positive, pow};
use vstd::prelude::*;
use vstd::utf8::encode_utf8;

verus! {

/// Whether `c` has the Unicode `White_Space` property.
pub open spec fn whitespace(c: char) -> bool {
    ||| '\u{9}' <= c <= '\u{d}'
    ||| c == '\u{20}'
    ||| c == '\u{85}'
    ||| c == '\u{a0}'
    ||| c == '\u{1680}'
    ||| '\u{2000}' <= c <= '\u{200a}'
    ||| c == '\u{2028}'
    ||| c == '\u{2029}'
    ||| c == '\u{202f}'
    ||| c == '\u{205f}'
    ||| c == '\u{3000}'
}

/// Whether `c` has the Unicode `White_Space` property.
pub fn is_whitespace(c: char) -> (r: bool)
    ensures
        r == whitespace(c),
{
    ('\u{9}' <= c && c <= '\u{d}') || c == '\u{20}' || c == '\u{85}' || c == '\u{a0}' || c
        == '\u{1680}' || ('\u{2000}' <= c && c <= '\u{200a}') || c == '\u{2028}' || c == '\u{2029}'
        || c == '\u{202f}' || c == '\u{205f}' || c == '\u{3000}'
}

/// The characters of `s`, in order.
pub fn chars_of(s: &str) -> (v: Vec<char>)
    ensures
        v@ == s@,
{
    let mut v: Vec<char> = Vec::new();
    for c in it: s.chars()
        invariant
            v@ == s@.take(it.index()),
            it.seq() == s@,
    {
        v.push(c);
    }
    v
}

/// A kind of character that surrounds a value and is stripped from it.
#[derive(Clone, Copy, Debug, PartialEq, Eq, Structural)]
pub enum Padding {
    /// Unicode white space.
    Blank,
    /// The double quote.
    Quote,
}

impl Padding {
    /// Whether `c` is of this kind.
    pub open spec fn has(self, c: char) -> bool {
        match self {
            Padding::Blank => whitespace(c),
            Padding::Quote => c == '"',
        }
    }

    /// Whether `c` is of this kind.
    pub fn covers(self, c: char) -> (r: bool)
        ensures
            r == self.has(c),
    {
        match self {
            Padding::Blank => is_whitespace(c),
            Padding::Quote => c == '"',
        }
    }
}

/// `s` without its longest prefix of padding.
pub open spec fn strip_front(s: Seq<char>, p: Padding) -> Seq<char>
    decreases s.len(),
{
    if s.len() > 0 && p.has(s[0]) {
        strip_front(s.drop_first(), p)
    } else {
        s
    }
}

/// `s` without its longest suffix of padding.
pub open spec fn strip_back(s: Seq<char>, p: Padding) -> Seq<char>
    decreases s.len(),
{
    if s.len() > 0 && p.has(s.last()) {
        strip_back(s.drop_last(), p)
    } else {
        s
    }
}

/// `s` without the padding around it.
pub open spec fn stripped(s: Seq<char>, p: Padding) -> Seq<char> {
    strip_back(strip_front(s, p), p)
}

proof fn lemma_strip_front_skips(s: Seq<char>, p: Padding, i: int)
    requires
        0 <= i <= s.len(),
        forall|j: int| 0 <= j < i ==> p.has(#[trigger] s[j]),
    ensures
        strip_front(s, p) == strip_front(s.skip(i), p),
    decreases i,
{
    if i == 0 {
        assert(s.skip(0) == s);
    } else {
        assert forall|j: int| 0 <= j < i - 1 implies p.has(#[trigger] s.drop_first()[j]) by {
            assert(s.drop_first()[j] == s[j + 1]);
        }
        lemma_strip_front_skips(s.drop_first(), p, i - 1);
        assert(s.drop_first().skip(i - 1) == s.skip(i));
    }
}

/// What `strip_front` leaves is no longer and does not begin with padding.
pub proof fn lemma_strip_front_first(s: Seq<char>, p: Padding)
    ensures
        strip_front(s, p).len() <= s.len(),
        strip_front(s, p).len() > 0 ==> !p.has(strip_front(s, p)[0]),
    decreases s.len(),
{
    if s.len() > 0 && p.has(s[0]) {
        lemma_strip_front_first(s.drop_first(), p);
    }
}

proof fn lemma_strip_back_drops(s: Seq<char>, p: Padding, n: int)
    requires
        0 <= n <= s.len(),
        forall|j: int| n <= j < s.len() ==> p.has(#[trigger] s[j]),
    ensures
        strip_back(s, p) == strip_back(s.take(n), p),
    decreases s.len() - n,
{
    if n == s.len() {
        assert(s.take(n) == s);
    } else {
        assert(s.drop_last().take(n) == s.take(n));
        lemma_strip_back_drops(s.drop_last(), p, n);
    }
}

/// What `strip_back` leaves is no longer.
pub proof fn lemma_strip_back_len(s: Seq<char>, p: Padding)
    ensures
        strip_back(s, p).len() <= s.len(),
    decreases s.len(),
{
    if s.len() > 0 && p.has(s.last()) {
        lemma_strip_back_len(s.drop_last(), p);
    }
}

/// `s` without the padding around it.
pub fn strip<'a>(s: &'a str, p: Padding) -> (r: &'a str)
    ensures
        r@ == stripped(s@, p),
{
    let chars = chars_of(s);
    let len: usize = chars.len();
    let mut from: usize = 0;
    while from < len && p.covers(chars[from])
        invariant
            len == chars@.len(),
            from <= len,
            forall|j: int| 0 <= j < from ==> p.has(#[trigger] chars@[j]),
        decreases len - from,
    {
        from = from + 1;
    }
    let mut to: usize = len;
    while from < to && p.covers(chars[to - 1])
        invariant
            len == chars@.len(),
            from <= to <= len,
            forall|j: int| to <= j < len ==> p.has(#[trigger] chars@[j]),
        decreases to,
    {
        to = to - 1;
    }
    proof {
        lemma_strip_front_skips(s@, p, from as int);
        let rest = s@.skip(from as int);
        assert forall|j: int| to - from <= j < rest.len() implies p.has(#[trigger] rest[j]) by {
            assert(rest[j] == s@[j + from]);
        }
        assert(strip_front(rest, p) == rest);
        lemma_strip_back_drops(rest, p, to - from);
        assert(rest.take(to - from) == s@.subrange(from as int, to as int));
    }
    s.substring_char(from, to)
}

/// `s` without the white space around it.
pub open spec fn trimmed(s: Seq<char>) -> Seq<char> {
    stripped(s, Padding::Blank)
}

/// `s` without the double quotes around it.
pub open spec fn unquoted(s: Seq<char>) -> Seq<char> {
    stripped(s, Padding::Quote)
}

/// The index of the first `c` in `s`, or the length of `s` where there is none.
pub open spec fn first_index(s: Seq<char>, c: char) -> int
    decreases s.len(),
{
    if s.len() == 0 || s[0] == c {
        0
    } else {
        1 + first_index(s.drop_first(), c)
    }
}

/// `first_index` is the one index below which `c` does not occur and at which
/// it does, or the length.
proof fn lemma_first_index(s: Seq<char>, c: char, i: int)
    requires
        0 <= i <= s.len(),
        forall|j: int| 0 <= j < i ==> #[trigger] s[j] != c,
        i < s.len() ==> s[i] == c,
    ensures
        first_index(s, c) == i,
    decreases i,
{
    if i > 0 {
        assert forall|j: int| 0 <= j < i - 1 implies #[trigger] s.drop_first()[j] != c by {
            assert(s.drop_first()[j] == s[j + 1]);
        }
        lemma_first_index(s.drop_first(), c, i - 1);
    }
}

/// `first_index` is an index of `s` or its length.
pub proof fn lemma_first_index_bounds(s: Seq<char>, c: char)
    ensures
        0 <= first_index(s, c) <= s.len(),
    decreases s.len(),
{
    if s.len() > 0 && s[0] != c {
        lemma_first_index_bounds(s.drop_first(), c);
    }
}

/// `c` does not stand before `first_index`, and stands there unless that is the
/// length.
pub proof fn lemma_first_index_is_first(s: Seq<char>, c: char)
    ensures
        forall|j: int| 0 <= j < first_index(s, c) ==> #[trigger] s[j] != c,
        first_index(s, c) < s.len() ==> s[first_index(s, c)] == c,
    decreases s.len(),
{
    if s.len() > 0 && s[0] != c {
        let rest = s.drop_first();
        lemma_first_index_is_first(rest, c);
        lemma_first_index_bounds(rest, c);
        assert forall|j: int| 0 <= j < first_index(s, c) implies #[trigger] s[j] != c by {
            if j > 0 {
                assert(s[j] == rest[j - 1]);
            }
        }
    }
}

/// The two sides of the first `c` in `s`, without it.
pub open spec fn sides_of(s: Seq<char>, c: char) -> Option<(Seq<char>, Seq<char>)> {
    let i = first_index(s, c);
    if i < s.len() {
        Some((s.take(i), s.skip(i + 1)))
    } else {
        None
    }
}

/// A text made of two sides with `c` between them has those sides, if `c` does
/// not occur in the first.
pub proof fn joined_sides_split(a: Seq<char>, c: char, b: Seq<char>)
    requires
        !a.contains(c),
    ensures
        sides_of(a.push(c) + b, c) == Some((a, b)),
{
    let s = a.push(c) + b;
    assert forall|j: int| 0 <= j < a.len() implies #[trigger] s[j] != c by {
        assert(s[j] == a[j]);
    }
    lemma_first_index(s, c, a.len() as int);
    assert(s.take(a.len() as int) == a);
    assert(s.skip(a.len() as int + 1) == b);
}

/// A text without `c` has no two sides of it.
pub proof fn no_sides(s: Seq<char>, c: char)
    requires
        !s.contains(c),
    ensures
        sides_of(s, c) is None,
{
    lemma_first_index(s, c, s.len() as int);
}

/// The index of the first `c` at or after `from`, or the length.
fn index_from(chars: &Vec<char>, from: usize, c: char) -> (i: usize)
    requires
        from <= chars@.len(),
    ensures
        i == from + first_index(chars@.skip(from as int), c),
        from <= i <= chars@.len(),
        i < chars@.len() ==> chars@[i as int] == c,
{
    let len: usize = chars.len();
    let mut i: usize = from;
    while i < len && chars[i] != c
        invariant
            len == chars@.len(),
            from <= i <= len,
            forall|j: int| from <= j < i ==> #[trigger] chars@[j] != c,
        decreases len - i,
    {
        i = i + 1;
    }
    proof {
        let rest = chars@.skip(from as int);
        assert forall|j: int| 0 <= j < i - from implies #[trigger] rest[j] != c by {
            assert(rest[j] == chars@[j + from]);
        }
        lemma_first_index(rest, c, i - from);
    }
    i
}

/// The index of the last `c` before `to`.
pub fn last_index_before(chars: &Vec<char>, to: usize, c: char) -> (r: Option<usize>)
    requires
        to <= chars@.len(),
    ensures
        match r {
            Some(i) => i < to && chars@[i as int] == c && forall|j: int|
                i < j < to ==> #[trigger] chars@[j] != c,
            None => forall|j: int| 0 <= j < to ==> #[trigger] chars@[j] != c,
        },
{
    let mut i: usize = to;
    while i > 0
        invariant
            i <= to <= chars@.len(),
            forall|j: int| i <= j < to ==> #[trigger] chars@[j] != c,
        decreases i,
    {
        i = i - 1;
        if chars[i] == c {
            return Some(i);
        }
    }
    None
}

/// The two sides of the first `c` in `s`, without it.
pub fn split_once<'a>(s: &'a str, c: char) -> (r: Option<(&'a str, &'a str)>)
    ensures
        match r {
            Some((a, b)) => sides_of(s@, c) == Some((a@, b@)),
            None => sides_of(s@, c) is None,
        },
{
    let chars = chars_of(s);
    let i = index_from(&chars, 0, c);
    assert(chars@.skip(0) == s@);
    if i < chars.len() {
        let a = s.substring_char(0, i);
        let b = s.substring_char(i + 1, chars.len());
        assert(a@ == s@.take(i as int));
        assert(b@ == s@.skip(i + 1));
        Some((a, b))
    } else {
        None
    }
}

/// A line without the carriage return that came before its line feed.
pub open spec fn without_cr(s: Seq<char>) -> Seq<char> {
    if s.len() > 0 && s.last() == '\r' {
        s.drop_last()
    } else {
        s
    }
}

/// The lines of `s`. A line ends in a line feed, with or without a carriage
/// return before it, or at the end of the text; the ending is not part of it.
pub open spec fn lines_of(s: Seq<char>) -> Seq<Seq<char>>
    decreases s.len(),
{
    let i = first_index(s, '\n');
    if s.len() == 0 {
        Seq::empty()
    } else if i < s.len() {
        proof {
            lemma_first_index_bounds(s, '\n');
        }
        seq![without_cr(s.take(i))] + lines_of(s.skip(i + 1))
    } else {
        seq![s]
    }
}

/// What the strings of a list hold, in order.
pub open spec fn texts(v: Seq<String>) -> Seq<Seq<char>> {
    v.map_values(|s: String| s@)
}

/// The lines of `s`, in order.
pub fn lines(s: &str) -> (v: Vec<String>)
    ensures
        texts(v@) == lines_of(s@),
{
    let chars = chars_of(s);
    let len: usize = chars.len();
    let mut v: Vec<String> = Vec::new();
    let mut from: usize = 0;
    assert(s@.skip(0) == s@);
    while from < len
        invariant
            len == chars@.len(),
            chars@ == s@,
            from <= len,
            texts(v@) + lines_of(s@.skip(from as int)) == lines_of(s@),
        decreases len - from,
    {
        let ghost rest = s@.skip(from as int);
        let ghost before = texts(v@);
        let i = index_from(&chars, from, '\n');
        let mut to: usize = i;
        if i < len && from < i && chars[i - 1] == '\r' {
            to = i - 1;
        }
        let line = s.substring_char(from, to).to_owned();
        proof {
            let k = i - from;
            if i < len {
                assert(rest.take(k).len() > 0 ==> rest.take(k).last() == chars@[i - 1]);
                assert(line@ == without_cr(rest.take(k)));
                assert(rest.skip(k + 1) == s@.skip(i + 1));
            } else {
                assert(line@ == rest);
                assert(s@.skip(len as int) == Seq::<char>::empty());
            }
        }
        v.push(line);
        assert(texts(v@) == before.push(line@));
        from = if i < len {
            i + 1
        } else {
            len
        };
        assert(texts(v@) + lines_of(s@.skip(from as int)) == before + lines_of(rest));
    }
    assert(s@.skip(len as int) == Seq::<char>::empty());
    assert(texts(v@) + Seq::<Seq<char>>::empty() == texts(v@));
    v
}

/// The length of the longest prefix of `s` without white space.
pub open spec fn word_len(s: Seq<char>) -> int
    decreases s.len(),
{
    if s.len() == 0 || whitespace(s[0]) {
        0
    } else {
        1 + word_len(s.drop_first())
    }
}

proof fn lemma_word_len(s: Seq<char>, n: int)
    requires
        0 <= n <= s.len(),
        forall|j: int| 0 <= j < n ==> !whitespace(#[trigger] s[j]),
        n < s.len() ==> whitespace(s[n]),
    ensures
        word_len(s) == n,
    decreases n,
{
    if n > 0 {
        assert forall|j: int| 0 <= j < n - 1 implies !whitespace(#[trigger] s.drop_first()[j]) by {
            assert(s.drop_first()[j] == s[j + 1]);
        }
        lemma_word_len(s.drop_first(), n - 1);
    }
}

/// A word is as long as its text at most, and not empty where the text begins
/// with a character that is not white space.
pub proof fn lemma_word_len_bounds(s: Seq<char>)
    ensures
        0 <= word_len(s) <= s.len(),
        s.len() > 0 && !whitespace(s[0]) ==> word_len(s) > 0,
    decreases s.len(),
{
    if s.len() > 0 && !whitespace(s[0]) {
        lemma_word_len_bounds(s.drop_first());
    }
}

/// The words of `s`: its longest stretches without white space, in order.
pub open spec fn words_of(s: Seq<char>) -> Seq<Seq<char>>
    decreases s.len(),
{
    let rest = strip_front(s, Padding::Blank);
    if rest.len() == 0 {
        Seq::empty()
    } else {
        let n = word_len(rest);
        proof {
            lemma_strip_front_first(s, Padding::Blank);
            lemma_word_len_bounds(rest);
        }
        seq![rest.take(n)] + words_of(rest.skip(n))
    }
}

/// The words of `s`, in order.
pub fn words(s: &str) -> (v: Vec<String>)
    ensures
        texts(v@) == words_of(s@),
{
    let chars = chars_of(s);
    let len: usize = chars.len();
    let mut v: Vec<String> = Vec::new();
    let mut at: usize = 0;
    assert(s@.skip(0) == s@);
    loop
        invariant
            len == chars@.len(),
            chars@ == s@,
            at <= len,
            texts(v@) + words_of(s@.skip(at as int)) == words_of(s@),
        ensures
            texts(v@) == words_of(s@),
        decreases len - at,
    {
        let ghost tail = s@.skip(at as int);
        let ghost before = texts(v@);
        let mut from: usize = at;
        while from < len && is_whitespace(chars[from])
            invariant
                len == chars@.len(),
                at <= from <= len,
                forall|j: int| at <= j < from ==> whitespace(#[trigger] chars@[j]),
            decreases len - from,
        {
            from = from + 1;
        }
        let ghost rest = s@.skip(from as int);
        proof {
            assert forall|j: int| 0 <= j < from - at implies Padding::Blank.has(
                #[trigger] tail[j],
            ) by {
                assert(tail[j] == chars@[j + at]);
            }
            lemma_strip_front_skips(tail, Padding::Blank, from - at);
            assert(tail.skip(from - at) == rest);
            assert(strip_front(rest, Padding::Blank) == rest);
        }
        if from == len {
            assert(texts(v@) + words_of(tail) == texts(v@));
            break;
        }
        let mut to: usize = from;
        while to < len && !is_whitespace(chars[to])
            invariant
                len == chars@.len(),
                from <= to <= len,
                forall|j: int| from <= j < to ==> !whitespace(#[trigger] chars@[j]),
            decreases len - to,
        {
            to = to + 1;
        }
        proof {
            assert forall|j: int| 0 <= j < to - from implies !whitespace(#[trigger] rest[j]) by {
                assert(rest[j] == chars@[j + from]);
            }
            lemma_word_len(rest, to - from);
            assert(rest.skip(to - from) == s@.skip(to as int));
        }
        let word = s.substring_char(from, to).to_owned();
        assert(word@ == rest.take(to - from));
        v.push(word);
        assert(texts(v@) == before.push(word@));
        assert(texts(v@) + words_of(s@.skip(to as int)) == before + words_of(tail));
        at = to;
    }
    v
}

/// Whether `pat` stands in `s` at index `i`.
pub open spec fn occurs_at(s: Seq<char>, pat: Seq<char>, i: int) -> bool {
    0 <= i && i + pat.len() <= s.len() && s.subrange(i, i + pat.len()) == pat
}

/// Whether `pat` stands anywhere in `s`.
pub open spec fn occurs_in(s: Seq<char>, pat: Seq<char>) -> bool {
    exists|i: int| occurs_at(s, pat, i)
}

/// Whether `i` is the first index at which `pat` stands in `s`.
pub open spec fn first_at(s: Seq<char>, pat: Seq<char>, i: int) -> bool {
    occurs_at(s, pat, i) && forall|j: int| 0 <= j < i ==> !#[trigger] occurs_at(s, pat, j)
}

/// Whether `pat` stands in `s` at index `i`.
pub fn matches_at(s: &Vec<char>, pat: &Vec<char>, i: usize) -> (r: bool)
    requires
        i <= s@.len(),
    ensures
        r == occurs_at(s@, pat@, i as int),
{
    let len: usize = s.len();
    let n: usize = pat.len();
    if n > len - i {
        return false;
    }
    let mut j: usize = 0;
    while j < n
        invariant
            len == s@.len(),
            n == pat@.len(),
            i + n <= len,
            j <= n,
            forall|k: int| 0 <= k < j ==> s@[i + k] == #[trigger] pat@[k],
        decreases n - j,
    {
        if s[i + j] != pat[j] {
            assert(s@.subrange(i as int, i + n)[j as int] != pat@[j as int]);
            return false;
        }
        j = j + 1;
    }
    assert(s@.subrange(i as int, i + n) == pat@);
    true
}

/// The index, in characters, at which `pat` first stands in `s`.
pub fn find(s: &str, pat: &str) -> (r: Option<usize>)
    ensures
        match r {
            Some(i) => first_at(s@, pat@, i as int),
            None => !occurs_in(s@, pat@),
        },
{
    let chars = chars_of(s);
    let wanted = chars_of(pat);
    let len: usize = chars.len();
    let mut i: usize = 0;
    while i < len
        invariant
            len == chars@.len(),
            chars@ == s@,
            wanted@ == pat@,
            i <= len,
            forall|j: int| 0 <= j < i ==> !#[trigger] occurs_at(s@, pat@, j),
        decreases len - i,
    {
        if matches_at(&chars, &wanted, i) {
            return Some(i);
        }
        i = i + 1;
    }
    if matches_at(&chars, &wanted, len) {
        Some(len)
    } else {
        None
    }
}

/// Whether `pat` stands anywhere in `s`.
pub fn contains(s: &str, pat: &str) -> (r: bool)
    ensures
        r == occurs_in(s@, pat@),
{
    match find(s, pat) {
        Some(i) => {
            assert(occurs_at(s@, pat@, i as int));
            true
        },
        None => false,
    }
}

/// Whether `s` begins with `pat`.
pub open spec fn begins_with(s: Seq<char>, pat: Seq<char>) -> bool {
    pat.len() <= s.len() && s.take(pat.len() as int) == pat
}

/// Whether `s` ends in `pat`.
pub open spec fn ends_in(s: Seq<char>, pat: Seq<char>) -> bool {
    pat.len() <= s.len() && s.skip(s.len() - pat.len()) == pat
}

/// Whether `s` begins with `pat`.
pub fn starts_with(s: &str, pat: &str) -> (r: bool)
    ensures
        r == begins_with(s@, pat@),
{
    let chars = chars_of(s);
    let wanted = chars_of(pat);
    assert(pat@.len() <= s@.len() ==> s@.subrange(0, pat@.len() as int) == s@.take(
        pat@.len() as int,
    ));
    matches_at(&chars, &wanted, 0)
}

/// Whether `s` ends in `pat`.
pub fn ends_with(s: &str, pat: &str) -> (r: bool)
    ensures
        r == ends_in(s@, pat@),
{
    let chars = chars_of(s);
    let wanted = chars_of(pat);
    if wanted.len() > chars.len() {
        return false;
    }
    let at: usize = chars.len() - wanted.len();
    assert(s@.subrange(at as int, s@.len() as int) == s@.skip(at as int));
    matches_at(&chars, &wanted, at)
}

/// Whether `a` and `b` are the same text.
pub fn same(a: &str, b: &str) -> (r: bool)
    ensures
        r == (a@ == b@),
{
    let x = chars_of(a);
    let y = chars_of(b);
    if x.len() != y.len() {
        return false;
    }
    assert(a@.len() == b@.len() ==> a@.subrange(0, b@.len() as int) == a@);
    matches_at(&x, &y, 0)
}

/// Whether `c` is a decimal digit.
pub open spec fn is_digit(c: char) -> bool {
    '0' <= c <= '9'
}

/// The value of a run of decimal digits.
pub open spec fn digits_value(s: Seq<char>) -> nat
    decreases s.len(),
{
    if s.len() == 0 {
        0
    } else {
        (digits_value(s.drop_last()) * 10 + (s.last() as int - '0' as int)) as nat
    }
}

/// `s` without one leading plus sign.
pub open spec fn unsigned_digits(s: Seq<char>) -> Seq<char> {
    if s.len() > 0 && s[0] == '+' {
        s.drop_first()
    } else {
        s
    }
}

/// The number at most `max` that `s` writes in decimal: digits, at least one,
/// after an optional plus sign, and nothing else.
pub open spec fn number_of(s: Seq<char>, max: nat) -> Option<nat> {
    let digits = unsigned_digits(s);
    if digits.len() > 0 && (forall|i: int| 0 <= i < digits.len() ==> is_digit(#[trigger] digits[i]))
        && digits_value(digits) <= max {
        Some(digits_value(digits))
    } else {
        None
    }
}

proof fn lemma_digits_value_grows(s: Seq<char>, i: int)
    requires
        0 <= i <= s.len(),
        forall|j: int| 0 <= j < s.len() ==> is_digit(#[trigger] s[j]),
    ensures
        digits_value(s.take(i)) <= digits_value(s),
    decreases s.len() - i,
{
    if i < s.len() {
        assert(s.take(i + 1).drop_last() == s.take(i));
        lemma_digits_value_grows(s, i + 1);
    } else {
        assert(s.take(i) == s);
    }
}

/// The number at most `max` that `s` writes in decimal.
fn parse_number(s: &str, max: u32) -> (r: Option<u32>)
    ensures
        match r {
            Some(n) => number_of(s@, max as nat) == Some(n as nat),
            None => number_of(s@, max as nat) is None,
        },
{
    let chars = chars_of(s);
    let len: usize = chars.len();
    let from: usize = if len > 0 && chars[0] == '+' {
        1
    } else {
        0
    };
    let ghost digits = unsigned_digits(s@);
    assert(digits == s@.skip(from as int));
    if from == len {
        return None;
    }
    let mut i: usize = from;
    let mut value: u64 = 0;
    assert(digits.take(0) == Seq::<char>::empty());
    while i < len
        invariant
            len == chars@.len(),
            chars@ == s@,
            from <= i <= len,
            digits == unsigned_digits(s@),
            digits == s@.skip(from as int),
            forall|j: int| 0 <= j < i - from ==> is_digit(#[trigger] digits[j]),
            value == digits_value(digits.take(i - from)),
            value <= max,
        decreases len - i,
    {
        let c = chars[i];
        assert(c == digits[i - from]);
        if c < '0' || '9' < c {
            return None;
        }
        value = value * 10 + (c as u64 - '0' as u64);
        i = i + 1;
        assert(digits.take(i - from).drop_last() == digits.take(i - from - 1));
        if value > max as u64 {
            proof {
                if forall|j: int| 0 <= j < digits.len() ==> is_digit(#[trigger] digits[j]) {
                    lemma_digits_value_grows(digits, i - from);
                }
            }
            return None;
        }
    }
    assert(digits.take(len - from) == digits);
    Some(value as u32)
}

/// The 16-bit number that `s` writes in decimal.
pub fn parse_u16(s: &str) -> (r: Option<u16>)
    ensures
        match r {
            Some(n) => number_of(s@, 0xffff) == Some(n as nat),
            None => number_of(s@, 0xffff) is None,
        },
{
    match parse_number(s, 0xffff) {
        Some(n) => Some(n as u16),
        None => None,
    }
}

/// The 32-bit number that `s` writes in decimal.
pub fn parse_u32(s: &str) -> (r: Option<u32>)
    ensures
        match r {
            Some(n) => number_of(s@, 0xffff_ffff) == Some(n as nat),
            None => number_of(s@, 0xffff_ffff) is None,
        },
{
    parse_number(s, 0xffff_ffff)
}

/// The character of the digit `d`.
pub open spec fn digit_char(d: nat) -> char {
    ('0' as int + d) as char
}

/// `n` in decimal, without leading zeros.
pub open spec fn decimal(n: nat) -> Seq<char>
    decreases n,
{
    if n < 10 {
        seq![digit_char(n)]
    } else {
        decimal(n / 10).push(digit_char(n % 10))
    }
}

fn digit_text(d: u64) -> (s: &'static str)
    requires
        d < 10,
    ensures
        s@ == seq![digit_char(d as nat)],
{
    proof {
        reveal_strlit("0");
        reveal_strlit("1");
        reveal_strlit("2");
        reveal_strlit("3");
        reveal_strlit("4");
        reveal_strlit("5");
        reveal_strlit("6");
        reveal_strlit("7");
        reveal_strlit("8");
        reveal_strlit("9");
    }
    if d == 0 {
        "0"
    } else if d == 1 {
        "1"
    } else if d == 2 {
        "2"
    } else if d == 3 {
        "3"
    } else if d == 4 {
        "4"
    } else if d == 5 {
        "5"
    } else if d == 6 {
        "6"
    } else if d == 7 {
        "7"
    } else if d == 8 {
        "8"
    } else {
        "9"
    }
}

/// `n` in decimal, without leading zeros.
pub fn decimal_text(n: u64) -> (s: String)
    ensures
        s@ == decimal(n as nat),
    decreases n,
{
    if n < 10 {
        digit_text(n).to_owned()
    } else {
        let mut s = decimal_text(n / 10);
        s.append(digit_text(n % 10));
        assert(s@ == decimal((n / 10) as nat) + seq![digit_char((n % 10) as nat)]);
        s
    }
}

/// A number written in decimal is digits alone, and reads back as itself.
pub proof fn decimal_reads_back(n: nat)
    ensures
        decimal(n).len() > 0,
        forall|i: int| 0 <= i < decimal(n).len() ==> is_digit(#[trigger] decimal(n)[i]),
        digits_value(decimal(n)) == n,
    decreases n,
{
    if n < 10 {
        assert(decimal(n).drop_last() == Seq::<char>::empty());
        assert(digits_value(Seq::<char>::empty()) == 0);
    } else {
        decimal_reads_back(n / 10);
        assert(decimal(n).drop_last() == decimal(n / 10));
    }
}

/// Reading a number that was written in decimal gives that number, whatever
/// the bound, if it is within it.
pub proof fn parse_undoes_decimal(n: nat, max: nat)
    requires
        n <= max,
    ensures
        number_of(decimal(n), max) == Some(n),
{
    decimal_reads_back(n);
    assert(is_digit(decimal(n)[0]));
}

/// A text of lines, each ended by a line feed.
pub open spec fn unlines(lines: Seq<Seq<char>>) -> Seq<char>
    decreases lines.len(),
{
    if lines.len() == 0 {
        Seq::empty()
    } else {
        lines[0].push('\n') + unlines(lines.drop_first())
    }
}

/// Whether `s` can be a line: it holds no line feed and does not end in a
/// carriage return.
pub open spec fn is_line(s: Seq<char>) -> bool {
    !s.contains('\n') && (s.len() > 0 ==> s.last() != '\r')
}

/// Lines that are written one after the other are read back.
pub proof fn lines_undo_unlines(lines: Seq<Seq<char>>)
    requires
        forall|i: int| 0 <= i < lines.len() ==> is_line(#[trigger] lines[i]),
    ensures
        lines_of(unlines(lines)) == lines,
    decreases lines.len(),
{
    if lines.len() > 0 {
        let rest = lines.drop_first();
        assert forall|i: int| 0 <= i < rest.len() implies is_line(#[trigger] rest[i]) by {
            assert(rest[i] == lines[i + 1]);
        }
        lines_undo_unlines(rest);
        let s = unlines(lines);
        assert(is_line(lines[0]));
        joined_sides_split(lines[0], '\n', unlines(rest));
        assert(s.take(first_index(s, '\n')) == lines[0]);
        assert(s.skip(first_index(s, '\n') + 1) == unlines(rest));
        assert(seq![lines[0]] + rest == lines);
    }
}

/// Words with a space after each.
pub open spec fn unwords(words: Seq<Seq<char>>) -> Seq<char>
    decreases words.len(),
{
    if words.len() == 0 {
        Seq::empty()
    } else {
        words[0].push(' ') + unwords(words.drop_first())
    }
}

/// Whether `s` is a word: it is not empty and holds no white space.
pub open spec fn is_word(s: Seq<char>) -> bool {
    s.len() > 0 && forall|i: int| 0 <= i < s.len() ==> !whitespace(#[trigger] s[i])
}

proof fn lemma_words_skip_a_space(s: Seq<char>)
    ensures
        words_of(seq![' '] + s) == words_of(s),
{
    let t = seq![' '] + s;
    assert(t.drop_first() == s);
    assert(strip_front(t, Padding::Blank) == strip_front(s, Padding::Blank));
}

/// Words that are written with spaces between them are read back.
pub proof fn words_undo_unwords(words: Seq<Seq<char>>)
    requires
        forall|i: int| 0 <= i < words.len() ==> is_word(#[trigger] words[i]),
    ensures
        words_of(unwords(words)) == words,
    decreases words.len(),
{
    if words.len() > 0 {
        let rest = words.drop_first();
        assert forall|i: int| 0 <= i < rest.len() implies is_word(#[trigger] rest[i]) by {
            assert(rest[i] == words[i + 1]);
        }
        words_undo_unwords(rest);
        lemma_words_skip_a_space(unwords(rest));
        let s = unwords(words);
        let n = words[0].len() as int;
        assert(is_word(words[0]));
        assert forall|j: int| 0 <= j < n implies !whitespace(#[trigger] s[j]) by {
            assert(s[j] == words[0][j]);
        }
        assert(s[n] == ' ');
        lemma_word_len(s, n);
        assert(s.take(n) == words[0]);
        assert(s.skip(n) == seq![' '] + unwords(rest));
        assert(seq![words[0]] + rest == words);
    } else {
        assert(words =~= Seq::empty());
    }
}

/// A text that neither begins nor ends with padding is left as it is.
pub proof fn unpadded_is_kept(s: Seq<char>, p: Padding)
    requires
        s.len() > 0 ==> !p.has(s[0]) && !p.has(s.last()),
    ensures
        stripped(s, p) == s,
{
}

/// Padding that is put around a text is stripped from it again, and nothing
/// else is: what is left is the text, if it is empty or has no padding at its
/// ends.
pub proof fn added_padding_is_stripped(front: Seq<char>, s: Seq<char>, back: Seq<char>)
    ensures
        (forall|i: int| 0 <= i < front.len() ==> whitespace(#[trigger] front[i])) && (forall|i: int|
            0 <= i < back.len() ==> whitespace(#[trigger] back[i])) && (s.len() > 0 ==> !whitespace(
            s[0],
        ) && !whitespace(s.last())) ==> trimmed(front + s + back) == s,
        (forall|i: int| 0 <= i < front.len() ==> #[trigger] front[i] == '"') && (forall|i: int|
            0 <= i < back.len() ==> #[trigger] back[i] == '"') && (s.len() > 0 ==> s[0] != '"'
            && s.last() != '"') ==> unquoted(front + s + back) == s,
{
    if (forall|i: int| 0 <= i < front.len() ==> whitespace(#[trigger] front[i])) && (forall|i: int|
        0 <= i < back.len() ==> whitespace(#[trigger] back[i])) && (s.len() > 0 ==> !whitespace(s[0])
        && !whitespace(s.last())) {
        lemma_added_padding(front, s, back, Padding::Blank);
    }
    if (forall|i: int| 0 <= i < front.len() ==> #[trigger] front[i] == '"') && (forall|i: int|
        0 <= i < back.len() ==> #[trigger] back[i] == '"') && (s.len() > 0 ==> s[0] != '"'
        && s.last() != '"') {
        lemma_added_padding(front, s, back, Padding::Quote);
    }
}

proof fn lemma_added_padding(front: Seq<char>, s: Seq<char>, back: Seq<char>, p: Padding)
    requires
        forall|i: int| 0 <= i < front.len() ==> p.has(#[trigger] front[i]),
        forall|i: int| 0 <= i < back.len() ==> p.has(#[trigger] back[i]),
        s.len() > 0 ==> !p.has(s[0]) && !p.has(s.last()),
    ensures
        stripped(front + s + back, p) == s,
{
    let all = front + s + back;
    let rest = s + back;
    let n = front.len() as int;
    assert forall|j: int| 0 <= j < n implies p.has(#[trigger] all[j]) by {
        assert(all[j] == front[j]);
    }
    lemma_strip_front_skips(all, p, n);
    assert(all.skip(n) =~= rest);
    if s.len() > 0 {
        assert(rest[0] == s[0]);
        assert(strip_front(rest, p) == rest);
        assert forall|j: int| s.len() <= j < rest.len() implies p.has(#[trigger] rest[j]) by {
            assert(rest[j] == back[j - s.len()]);
        }
        lemma_strip_back_drops(rest, p, s.len() as int);
        assert(rest.take(s.len() as int) =~= s);
    } else {
        assert(rest =~= back);
        lemma_strip_front_skips(rest, p, rest.len() as int);
        assert(rest.skip(rest.len() as int) =~= s);
    }
}

/// How lines end: a line is ended by a line feed, or by a carriage return and a
/// line feed, and the rest is read as it would be alone; what follows the last
/// line feed is a line as it stands, unless it is empty.
pub proof fn lines_end_at_line_feeds(line: Seq<char>, rest: Seq<char>)
    requires
        !line.contains('\n'),
    ensures
        line.len() == 0 || line.last() != '\r' ==> lines_of(line.push('\n') + rest) == seq![line]
            + lines_of(rest),
        lines_of(line.push('\r').push('\n') + rest) == seq![line] + lines_of(rest),
        line.len() > 0 ==> lines_of(line) == seq![line],
        lines_of(Seq::empty()) == Seq::<Seq<char>>::empty(),
{
    let plain = line.push('\n') + rest;
    joined_sides_split(line, '\n', rest);
    lemma_first_index_bounds(plain, '\n');
    let with_cr = line.push('\r');
    assert(!with_cr.contains('\n'));
    joined_sides_split(with_cr, '\n', rest);
    assert(with_cr.drop_last() =~= line);
    lemma_first_index_bounds(with_cr.push('\n') + rest, '\n');
    no_sides(line, '\n');
    lemma_first_index_bounds(line, '\n');
}

/// How words are separated: white space before a word does not matter, a word
/// goes up to the next white space or to the end, and what follows is read as
/// it would be alone.
pub proof fn words_end_at_white_space(word: Seq<char>, blank: char, rest: Seq<char>)
    requires
        whitespace(blank),
        forall|i: int| 0 <= i < word.len() ==> !whitespace(#[trigger] word[i]),
    ensures
        words_of(seq![blank] + rest) == words_of(rest),
        word.len() > 0 ==> words_of(word.push(blank) + rest) == seq![word] + words_of(rest),
        word.len() > 0 ==> words_of(word) == seq![word],
        words_of(Seq::empty()) == Seq::<Seq<char>>::empty(),
{
    let t = seq![blank] + rest;
    assert(t.drop_first() =~= rest);
    assert(strip_front(t, Padding::Blank) == strip_front(rest, Padding::Blank));
    assert(words_of(t) == words_of(rest));
    if word.len() > 0 {
        let n = word.len() as int;
        let s = word.push(blank) + rest;
        assert forall|j: int| 0 <= j < n implies !whitespace(#[trigger] s[j]) by {
            assert(s[j] == word[j]);
        }
        assert(s[n] == blank);
        lemma_word_len(s, n);
        assert(s.take(n) =~= word);
        assert(s.skip(n) =~= t);
        assert(!whitespace(s[0]) && !whitespace(word[0]));
        assert(strip_front(s, Padding::Blank) == s);
        assert(words_of(s) == seq![word] + words_of(t));
        lemma_word_len(word, n);
        assert(word.take(n) =~= word);
        assert(word.skip(n) =~= Seq::<char>::empty());
        assert(words_of(Seq::<char>::empty()) =~= Seq::<Seq<char>>::empty());
        assert(words_of(word) =~= seq![word]);
    }
}

/// A text stands in another exactly where that one is made of something, the
/// text, and something; the first place is the one with the least before it.
pub proof fn first_place_has_the_least_before_it(
    before: Seq<char>,
    pat: Seq<char>,
    behind: Seq<char>,
    i: int,
)
    ensures
        occurs_in(before + pat + behind, pat),
        first_at(before + pat + behind, pat, i) ==> {
            let s = before + pat + behind;
            &&& 0 <= i <= before.len()
            &&& i + pat.len() <= s.len()
            &&& s == s.take(i) + pat + s.skip(i + pat.len())
        },
{
    let s = before + pat + behind;
    let n = before.len() as int;
    assert(s.subrange(n, n + pat.len()) =~= pat);
    assert(occurs_at(s, pat, n));
    if first_at(s, pat, i) {
        assert(s =~= s.take(i) + s.subrange(i, i + pat.len()) + s.skip(i + pat.len()));
    }
}

/// A text that stands in another stands there somewhere: what comes before it
/// and what comes behind it make up the rest.
pub proof fn what_occurs_stands_somewhere(s: Seq<char>, pat: Seq<char>) -> (i: int)
    requires
        occurs_in(s, pat),
    ensures
        0 <= i <= s.len() - pat.len(),
        s == s.take(i) + pat + s.skip(i + pat.len()),
{
    let i = choose|i: int| occurs_at(s, pat, i);
    assert(s =~= s.take(i) + s.subrange(i, i + pat.len()) + s.skip(i + pat.len()));
    i
}

/// A text begins with its prefixes and ends in its suffixes, and with nothing
/// else.
pub proof fn ends_are_prefixes_and_suffixes(s: Seq<char>, t: Seq<char>)
    ensures
        begins_with(s, t) <==> t.is_prefix_of(s),
        ends_in(s, t) <==> t.is_suffix_of(s),
        begins_with(t + s, t),
        ends_in(s + t, t),
{
    if t.len() <= s.len() {
        assert(s.take(t.len() as int) =~= s.subrange(0, t.len() as int));
        assert(s.skip(s.len() - t.len()) =~= s.subrange(s.len() - t.len(), s.len() as int));
    }
    assert((t + s).take(t.len() as int) =~= t);
    assert((s + t).skip(s.len() as int) =~= t);
}

/// Every text of a list is that of its string.
pub proof fn texts_are_those_of_the_strings(v: Seq<String>)
    ensures
        texts(v).len() == v.len(),
        forall|i: int| 0 <= i < v.len() ==> #[trigger] texts(v)[i] == v[i]@,
{
}

/// The digits of a number in decimal: the last is the number of ones, the one
/// before it the number of tens, and so on; there are as many as the number
/// needs, and the first is not a zero, unless it is the only one.
pub proof fn decimal_is_positional(n: nat)
    ensures
        decimal(n).len() > 0,
        n < pow(10, decimal(n).len()),
        decimal(n).len() > 1 ==> decimal(n)[0] != '0',
        forall|i: int|
            0 <= i < decimal(n).len() ==> (#[trigger] decimal(n)[decimal(n).len() - 1 - i]) as int
                == '0' as int + n as int / pow(10, i as nat) % 10,
    decreases n,
{
    let s = decimal(n);
    lemma_pow0(10);
    if n < 10 {
        lemma_pow1(10);
    } else {
        let t = decimal(n / 10);
        decimal_is_positional(n / 10);
        let p = pow(10, t.len());
        lemma_pow_adds(10, 1, t.len());
        lemma_pow1(10);
        assert(pow(10, s.len()) == 10 * p);
        assert(n < 10 * p);
        if t.len() == 1 {
            lemma_pow1(10);
            assert(t[0] as int == '0' as int + (n / 10) as int / pow(10, 0) % 10) by {
                assert(t[t.len() - 1 - 0] == t[0]);
            }
            assert(n / 10 < 10);
        }
        assert forall|i: int| 0 <= i < s.len() implies (#[trigger] s[s.len() - 1 - i]) as int
            == '0' as int + n as int / pow(10, i as nat) % 10 by {
            if i > 0 {
                let q = pow(10, (i - 1) as nat);
                lemma_pow_positive(10, (i - 1) as nat);
                lemma_pow_adds(10, 1, (i - 1) as nat);
                assert(pow(10, i as nat) == 10 * q);
                lemma_div_denominator(n as int, 10, q);
                assert(s[s.len() - 1 - i] == t[t.len() - 1 - (i - 1)]);
            }
        }
    }
}

/// `k` zeros.
pub open spec fn zeros(k: nat) -> Seq<char> {
    Seq::new(k, |i: int| '0')
}

proof fn lemma_leading_zeros(k: nat, n: nat)
    ensures
        digits_value(zeros(k) + decimal(n)) == n,
    decreases n,
{
    let s = zeros(k) + decimal(n);
    if n < 10 {
        lemma_zeros_value(k);
        assert(s.drop_last() =~= zeros(k));
    } else {
        lemma_leading_zeros(k, n / 10);
        assert(s.drop_last() =~= zeros(k) + decimal(n / 10));
    }
}

proof fn lemma_zeros_value(k: nat)
    ensures
        digits_value(zeros(k)) == 0,
    decreases k,
{
    if k > 0 {
        lemma_zeros_value((k - 1) as nat);
        assert(zeros(k).drop_last() =~= zeros((k - 1) as nat));
    }
}

/// Digits are zeros and then a number in decimal.
proof fn lemma_digits_split(s: Seq<char>) -> (k: nat)
    requires
        s.len() > 0,
        forall|i: int| 0 <= i < s.len() ==> is_digit(#[trigger] s[i]),
    ensures
        s == zeros(k) + decimal(digits_value(s)),
    decreases s.len(),
{
    let d = (s.last() as int - '0' as int) as nat;
    assert(is_digit(s[s.len() - 1]));
    assert(digit_char(d) == s.last());
    if s.len() == 1 {
        assert(digits_value(s.drop_last()) == 0);
        assert(s =~= zeros(0) + decimal(d));
        0
    } else {
        let t = s.drop_last();
        assert forall|i: int| 0 <= i < t.len() implies is_digit(#[trigger] t[i]) by {
            assert(t[i] == s[i]);
        }
        let k = lemma_digits_split(t);
        let m = digits_value(t);
        let n = digits_value(s);
        assert(n == m * 10 + d);
        assert(s =~= t.push(s.last()));
        if m == 0 {
            assert(digit_char(0) == '0');
            assert(decimal(0) =~= seq!['0']);
            assert(t =~= zeros(k + 1));
            assert(decimal(n) =~= seq![s.last()]);
            assert(s =~= zeros(k + 1) + decimal(n));
            k + 1
        } else {
            assert(n / 10 == m && n % 10 == d);
            assert(decimal(n) =~= decimal(m).push(s.last()));
            assert(s =~= zeros(k) + decimal(n));
            k
        }
    }
}

/// What reads as a number: the number in decimal, after any zeros and at most
/// one plus sign, if it is within the bound.
pub proof fn written_numbers_are_read(k: nat, n: nat, max: nat)
    ensures
        number_of(zeros(k) + decimal(n), max) == (if n <= max {
            Some(n)
        } else {
            None
        }),
        number_of(seq!['+'] + zeros(k) + decimal(n), max) == (if n <= max {
            Some(n)
        } else {
            None
        }),
{
    let s = zeros(k) + decimal(n);
    decimal_reads_back(n);
    lemma_leading_zeros(k, n);
    assert forall|i: int| 0 <= i < s.len() implies is_digit(#[trigger] s[i]) by {
        if i >= k {
            assert(s[i] == decimal(n)[i - k]);
        }
    }
    assert(is_digit(s[0]));
    assert((seq!['+'] + zeros(k) + decimal(n)).drop_first() =~= s);
}

/// Nothing else reads as a number.
pub proof fn nothing_else_is_a_number(s: Seq<char>, max: nat)
    ensures
        number_of(s, max) matches Some(n) ==> n <= max && exists|k: nat|
            s == #[trigger] zeros(k) + decimal(n) || s == seq!['+'] + zeros(k) + decimal(n),
{
    if let Some(n) = number_of(s, max) {
        let digits = unsigned_digits(s);
        let k = lemma_digits_split(digits);
        if digits != s {
            assert(s =~= seq!['+'] + digits);
            assert(s =~= seq!['+'] + zeros(k) + decimal(n));
        } else {
            assert(s == zeros(k) + decimal(n));
        }
    }
}

/// The UTF-8 bytes of a text are those of its parts.
pub proof fn utf8_of_parts(a: Seq<char>, b: Seq<char>)
    ensures
        encode_utf8(a + b) == encode_utf8(a) + encode_utf8(b),
    decreases a.len(),
{
    if a.len() == 0 {
        assert(a + b =~= b);
        assert(encode_utf8(a) =~= Seq::<u8>::empty());
        assert(Seq::<u8>::empty() + encode_utf8(b) =~= encode_utf8(b));
    } else {
        utf8_of_parts(a.drop_first(), b);
        assert((a + b).drop_first() =~= a.drop_first() + b);
        assert(encode_utf8(a + b) =~= encode_utf8(a) + encode_utf8(b));
    }
}

} // verus!
