//! Character-level helpers shared by the rest of the crate.
//!
//! Text is specified as `Seq<char>`, the view of `str` and `String`.

use vstd::prelude::*;

verus! {

/// `String::push` appends one character at the end of the string.
pub assume_specification[ std::string::String::push ](s: &mut std::string::String, ch: char)
    ensures
        final(s)@ == old(s)@.push(ch),
;

/// The characters of `s`, in order.
pub fn to_chars(s: &str) -> (out: Vec<char>)
    ensures
        out@ == s@,
{
    let mut out: Vec<char> = Vec::new();
    for c in it: s.chars()
        invariant
            out@ == s@.take(it.index() as int),
            it.seq() == s@,
    {
        out.push(c);
    }
    out
}

/// The string made of the characters of `chars`, in order.
pub fn from_chars(chars: &[char]) -> (out: String)
    ensures
        out@ == chars@,
{
    let mut out = String::new();
    let mut i: usize = 0;
    while i < chars.len()
        invariant
            i <= chars.len(),
            out@ == chars@.take(i as int),
        decreases chars.len() - i,
    {
        out.push(chars[i]);
        i += 1;
    }
    out
}

/// The text of an optional string.
pub open spec fn optional_text(text: Option<String>) -> Option<Seq<char>> {
    match text {
        Some(t) => Some(t@),
        None => None,
    }
}

/// A copy of `chars[from..to]`.
pub(crate) fn slice_chars(chars: &[char], from: usize, to: usize) -> (out: Vec<char>)
    requires
        from <= to <= chars.len(),
    ensures
        out@ == chars@.subrange(from as int, to as int),
{
    let mut out: Vec<char> = Vec::new();
    let mut i: usize = from;
    while i < to
        invariant
            from <= i <= to <= chars.len(),
            out@ == chars@.subrange(from as int, i as int),
        decreases to - i,
    {
        out.push(chars[i]);
        i += 1;
    }
    out
}

/// Whether `c` is white space: the characters with the Unicode property
/// `White_Space`, which is what trimming removes.
pub open spec fn is_whitespace(c: char) -> bool {
    ||| '\u{9}' <= c <= '\u{D}'
    ||| c == ' '
    ||| c == '\u{85}'
    ||| c == '\u{A0}'
    ||| c == '\u{1680}'
    ||| '\u{2000}' <= c <= '\u{200A}'
    ||| c == '\u{2028}'
    ||| c == '\u{2029}'
    ||| c == '\u{202F}'
    ||| c == '\u{205F}'
    ||| c == '\u{3000}'
}

/// Executable form of [`is_whitespace`].
pub fn whitespace(c: char) -> (b: bool)
    ensures
        b == is_whitespace(c),
{
    ('\u{9}' <= c && c <= '\u{D}') || c == ' ' || c == '\u{85}' || c == '\u{A0}' || c
        == '\u{1680}' || ('\u{2000}' <= c && c <= '\u{200A}') || c == '\u{2028}' || c
        == '\u{2029}' || c == '\u{202F}' || c == '\u{205F}' || c == '\u{3000}'
}

/// Number of white-space characters at the start of `s`.
pub open spec fn leading_whitespace(s: Seq<char>) -> nat
    decreases s.len(),
{
    if s.len() > 0 && is_whitespace(s[0]) {
        1 + leading_whitespace(s.skip(1))
    } else {
        0
    }
}

/// Number of white-space characters at the end of `s`.
pub open spec fn trailing_whitespace(s: Seq<char>) -> nat
    decreases s.len(),
{
    if s.len() > 0 && is_whitespace(s.last()) {
        1 + trailing_whitespace(s.drop_last())
    } else {
        0
    }
}

/// `s` without its leading and trailing white space.
pub open spec fn trimmed(s: Seq<char>) -> Seq<char> {
    let rest = s.skip(leading_whitespace(s) as int);
    rest.take(rest.len() - trailing_whitespace(rest))
}

/// `leading_whitespace(s)` is the one index `k` such that everything before
/// `k` is white space and `s[k]`, if there is one, is not.
pub proof fn lemma_leading_whitespace(s: Seq<char>, k: int)
    requires
        0 <= k <= s.len(),
        forall|i: int| 0 <= i < k ==> is_whitespace(#[trigger] s[i]),
        k < s.len() ==> !is_whitespace(s[k]),
    ensures
        leading_whitespace(s) == k,
    decreases s.len(),
{
    if k > 0 {
        lemma_leading_whitespace(s.skip(1), k - 1);
    }
}

/// `trailing_whitespace(s)` is the one count `k` such that the last `k`
/// characters are white space and the one before them, if any, is not.
pub proof fn lemma_trailing_whitespace(s: Seq<char>, k: int)
    requires
        0 <= k <= s.len(),
        forall|i: int| s.len() - k <= i < s.len() ==> is_whitespace(#[trigger] s[i]),
        k < s.len() ==> !is_whitespace(s[s.len() - k - 1]),
    ensures
        trailing_whitespace(s) == k,
    decreases s.len(),
{
    if k > 0 {
        lemma_trailing_whitespace(s.drop_last(), k - 1);
    }
}

/// Removes leading and trailing white space.
pub fn trim_chars(chars: &[char]) -> (out: Vec<char>)
    ensures
        out@ == trimmed(chars@),
{
    let n = chars.len();
    let mut start: usize = 0;
    while start < n && whitespace(chars[start])
        invariant
            start <= n == chars.len(),
            forall|i: int| 0 <= i < start ==> is_whitespace(#[trigger] chars@[i]),
        decreases n - start,
    {
        start += 1;
    }
    let mut end: usize = n;
    while end > start && whitespace(chars[end - 1])
        invariant
            start <= end <= n == chars.len(),
            forall|i: int| end <= i < n ==> is_whitespace(#[trigger] chars@[i]),
        decreases end,
    {
        end -= 1;
    }
    proof {
        lemma_leading_whitespace(chars@, start as int);
        lemma_trailing_whitespace(chars@.skip(start as int), (n - end) as int);
    }
    slice_chars(chars, start, end)
}

/// `s` with leading and trailing white space removed.
pub fn trim(s: &str) -> (out: String)
    ensures
        out@ == trimmed(s@),
{
    let chars = to_chars(s);
    let kept = trim_chars(chars.as_slice());
    from_chars(kept.as_slice())
}

/// Index of the first occurrence of `c` in `s`, or `s.len()` when there is none.
pub open spec fn first_index_of(s: Seq<char>, c: char) -> int
    decreases s.len(),
{
    if s.len() == 0 || s[0] == c {
        0
    } else {
        1 + first_index_of(s.skip(1), c)
    }
}

/// `first_index_of(s, c)` is the one index `k` before which `c` does not
/// occur and at which, if `k` is inside `s`, it does.
pub proof fn lemma_first_index_of(s: Seq<char>, c: char, k: int)
    requires
        0 <= k <= s.len(),
        forall|i: int| 0 <= i < k ==> #[trigger] s[i] != c,
        k < s.len() ==> s[k] == c,
    ensures
        first_index_of(s, c) == k,
    decreases s.len(),
{
    if k > 0 {
        lemma_first_index_of(s.skip(1), c, k - 1);
    }
}

/// What [`first_index_of`] returns lies in `0..=s.len()`, nothing before it
/// is `c`, and the character there, if any, is `c`.
pub proof fn lemma_first_index_of_bounds(s: Seq<char>, c: char)
    ensures
        0 <= first_index_of(s, c) <= s.len(),
        forall|i: int| 0 <= i < first_index_of(s, c) ==> #[trigger] s[i] != c,
        first_index_of(s, c) < s.len() ==> s[first_index_of(s, c)] == c,
    decreases s.len(),
{
    if s.len() > 0 && s[0] != c {
        let rest = s.skip(1);
        lemma_first_index_of_bounds(rest, c);
        assert forall|i: int| 0 <= i < first_index_of(s, c) implies #[trigger] s[i] != c by {
            if i > 0 {
                assert(s[i] == rest[i - 1]);
            }
        }
    }
}

/// In the first `m` characters of `s`, `c` is first met where it is first met
/// in `s`, if that is among them.
pub proof fn lemma_first_index_of_prefix(s: Seq<char>, c: char, m: int)
    requires
        0 <= m <= s.len(),
    ensures
        first_index_of(s.take(m), c) == if first_index_of(s, c) < m {
            first_index_of(s, c)
        } else {
            m
        },
{
    lemma_first_index_of_bounds(s, c);
    let at = first_index_of(s, c);
    let k = if at < m {
        at
    } else {
        m
    };
    assert forall|i: int| 0 <= i < k implies #[trigger] s.take(m)[i] != c by {
        assert(s.take(m)[i] == s[i]);
    }
    lemma_first_index_of(s.take(m), c, k);
}

/// Position of the first `c` in `chars[from..]`, counted from the start of
/// `chars`; `chars.len()` when there is none.
pub(crate) fn find_from(chars: &[char], c: char, from: usize) -> (at: usize)
    requires
        from <= chars.len(),
    ensures
        at == from + first_index_of(chars@.skip(from as int), c),
        from <= at <= chars.len(),
{
    let mut at: usize = from;
    while at < chars.len() && chars[at] != c
        invariant
            from <= at <= chars.len(),
            forall|i: int| from <= i < at ==> #[trigger] chars@[i] != c,
        decreases chars.len() - at,
    {
        at += 1;
    }
    proof {
        lemma_first_index_of(chars@.skip(from as int), c, at - from);
    }
    at
}

/// The pieces of `s` between occurrences of `sep`: one more piece than there
/// are separators, so the empty text has one empty piece.
pub open spec fn split(s: Seq<char>, sep: char) -> Seq<Seq<char>>
    decreases s.len(),
{
    let at = first_index_of(s, sep);
    if 0 <= at < s.len() {
        seq![s.take(at)] + split(s.skip(at + 1), sep)
    } else {
        seq![s]
    }
}

/// The texts held by a vector of character vectors.
pub open spec fn texts(v: Seq<Vec<char>>) -> Seq<Seq<char>> {
    Seq::new(v.len(), |i: int| v[i]@)
}

/// Splits `chars` at every `sep`.
pub fn split_chars(chars: &[char], sep: char) -> (out: Vec<Vec<char>>)
    ensures
        texts(out@) == split(chars@, sep),
{
    let mut out: Vec<Vec<char>> = Vec::new();
    let mut start: usize = 0;
    assert(chars@.skip(0) =~= chars@);
    loop
        invariant_except_break
            start <= chars.len(),
            split(chars@, sep) == texts(out@) + split(chars@.skip(start as int), sep),
        ensures
            texts(out@) == split(chars@, sep),
        decreases chars.len() - start,
    {
        let at = find_from(chars, sep, start);
        let piece = slice_chars(chars, start, at);
        let ghost rest = chars@.skip(start as int);
        out.push(piece);
        assert(piece@ =~= rest.take(at - start));
        if at == chars.len() {
            break ;
        }
        assert(rest.skip(at - start + 1) =~= chars@.skip(at + 1));
        start = at + 1;
    }
    out
}

/// Whether `s` ends with `suffix`.
pub open spec fn has_suffix(s: Seq<char>, suffix: Seq<char>) -> bool {
    suffix.len() <= s.len() && s.skip(s.len() - suffix.len()) == suffix
}

/// Executable form of [`has_suffix`].
pub fn ends_with(chars: &[char], suffix: &[char]) -> (b: bool)
    ensures
        b == has_suffix(chars@, suffix@),
{
    if suffix.len() > chars.len() {
        return false;
    }
    let offset = chars.len() - suffix.len();
    let mut i: usize = 0;
    while i < suffix.len()
        invariant
            i <= suffix.len(),
            offset + suffix.len() == chars.len(),
            forall|j: int| 0 <= j < i ==> chars@[offset + j] == suffix@[j],
        decreases suffix.len() - i,
    {
        if chars[offset + i] != suffix[i] {
            return false;
        }
        i += 1;
    }
    assert(chars@.skip(offset as int) =~= suffix@);
    true
}

/// The uppercase mapping of `c` in Unicode: one character or several.
pub uninterp spec fn unicode_uppercase(c: char) -> Seq<char>;

/// `char::to_uppercase`: the characters that the iterator yields are the
/// uppercase mapping of `c`, which [`unicode_uppercase`] names.
#[verifier::external_body]
fn uppercase(c: char) -> (out: Vec<char>)
    ensures
        out@ == unicode_uppercase(c),
{
    c.to_uppercase().collect()
}

/// `s` with `replacement` in the place of its first character; the empty
/// text stays empty.
pub open spec fn with_first_replaced(s: Seq<char>, replacement: Seq<char>) -> Seq<char> {
    if s.len() == 0 {
        s
    } else {
        replacement + s.skip(1)
    }
}

/// Puts `replacement` in the place of the first character of `chars`.
pub fn replace_first(chars: &[char], replacement: &[char]) -> (out: Vec<char>)
    ensures
        out@ == with_first_replaced(chars@, replacement@),
{
    let mut out: Vec<char> = Vec::new();
    if chars.len() == 0 {
        return out;
    }
    let mut i: usize = 0;
    while i < replacement.len()
        invariant
            i <= replacement.len(),
            out@ == replacement@.take(i as int),
        decreases replacement.len() - i,
    {
        out.push(replacement[i]);
        i += 1;
    }
    let mut j: usize = 1;
    while j < chars.len()
        invariant
            1 <= j <= chars.len(),
            out@ == replacement@ + chars@.subrange(1, j as int),
        decreases chars.len() - j,
    {
        out.push(chars[j]);
        j += 1;
    }
    out
}

/// `s` with its first character in uppercase.
pub open spec fn capitalized(s: Seq<char>) -> Seq<char> {
    if s.len() == 0 {
        s
    } else {
        with_first_replaced(s, unicode_uppercase(s[0]))
    }
}

/// Puts the first character of `chars` in uppercase.
pub fn capitalize_chars(chars: &[char]) -> (out: Vec<char>)
    ensures
        out@ == capitalized(chars@),
{
    if chars.len() == 0 {
        return Vec::new();
    }
    let upper = uppercase(chars[0]);
    replace_first(chars, upper.as_slice())
}

/// Puts the first character of `s` in uppercase and leaves the rest as it
/// is, so that `january` names the month `January`.
pub fn capitalize_first_char(s: &str) -> (out: String)
    ensures
        out@ == capitalized(s@),
{
    let chars = to_chars(s);
    let out = capitalize_chars(chars.as_slice());
    from_chars(out.as_slice())
}

} // verus!
