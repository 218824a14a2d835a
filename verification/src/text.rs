//! Plain-text handling over sequences of characters: the trimming, case
//! folding and splitting that Reflect's readable files are parsed with.

use vstd::prelude::*;

verus! {

/// Whether `c` has Unicode's `White_Space` property, which is what Rust's
/// `char::is_whitespace` (and so `str::trim`) tests.
pub open spec fn is_whitespace(c: char) -> bool {
    ||| ('\u{9}' <= c && c <= '\u{d}')
    ||| c == ' '
    ||| c == '\u{85}'
    ||| c == '\u{a0}'
    ||| c == '\u{1680}'
    ||| ('\u{2000}' <= c && c <= '\u{200a}')
    ||| c == '\u{2028}'
    ||| c == '\u{2029}'
    ||| c == '\u{202f}'
    ||| c == '\u{205f}'
    ||| c == '\u{3000}'
}

/// `s` with its leading whitespace removed.
pub open spec fn trim_start(s: Seq<char>) -> Seq<char>
    decreases s.len(),
{
    if s.len() > 0 && is_whitespace(s[0]) {
        trim_start(s.drop_first())
    } else {
        s
    }
}

/// `s` with its trailing whitespace removed.
pub open spec fn trim_end(s: Seq<char>) -> Seq<char>
    decreases s.len(),
{
    if s.len() > 0 && is_whitespace(s.last()) {
        trim_end(s.drop_last())
    } else {
        s
    }
}

/// `s` with whitespace removed from both ends, as `str::trim` does.
pub open spec fn trim(s: Seq<char>) -> Seq<char> {
    trim_end(trim_start(s))
}

/// `c` with ASCII capitals folded to lower case and everything else kept.
pub open spec fn ascii_lower(c: char) -> char {
    if 'A' <= c && c <= 'Z' {
        ((c as u32) + 32) as char
    } else {
        c
    }
}

/// `s` with ASCII capitals folded to lower case, as `str::to_ascii_lowercase` does.
pub open spec fn to_ascii_lowercase(s: Seq<char>) -> Seq<char> {
    Seq::new(s.len(), |i: int| ascii_lower(s[i]))
}

/// Where `c` first occurs in `s`, if anywhere.
pub open spec fn first_index_of(s: Seq<char>, c: char) -> Option<int>
    decreases s.len(),
{
    if s.len() == 0 {
        None
    } else if s[0] == c {
        Some(0)
    } else {
        match first_index_of(s.drop_first(), c) {
            Some(i) => Some(i + 1),
            None => None,
        }
    }
}

/// `s` split around the first `c` in it, as `str::split_once` does with a
/// single character: `None` where there is no `c` at all.
pub open spec fn split_once(s: Seq<char>, c: char) -> Option<(Seq<char>, Seq<char>)> {
    match first_index_of(s, c) {
        Some(i) => Some((s.subrange(0, i), s.subrange(i + 1, s.len() as int))),
        None => None,
    }
}

/// The pieces of `s` between its newlines, including a last piece that
/// may be empty, built up one character at a time.
pub open spec fn newline_pieces(s: Seq<char>) -> Seq<Seq<char>>
    decreases s.len(),
{
    if s.len() == 0 {
        seq![Seq::<char>::empty()]
    } else {
        let before = newline_pieces(s.drop_last());
        if s.last() == '\n' {
            before.push(Seq::<char>::empty())
        } else {
            before.update(before.len() - 1, before.last().push(s.last()))
        }
    }
}

/// Whether `s` ends with `suffix`.
pub open spec fn ends_with(s: Seq<char>, suffix: Seq<char>) -> bool {
    suffix.len() <= s.len() && s.subrange(s.len() - suffix.len(), s.len() as int) == suffix
}

pub proof fn lemma_trim_start_is_suffix(s: Seq<char>)
    ensures
        trim_start(s).len() <= s.len(),
        trim_start(s) == s.subrange(s.len() - trim_start(s).len(), s.len() as int),
        trim_start(s).len() > 0 ==> !is_whitespace(trim_start(s)[0]),
    decreases s.len(),
{
    if s.len() > 0 && is_whitespace(s[0]) {
        lemma_trim_start_is_suffix(s.drop_first());
        assert(s.drop_first().subrange(
            s.drop_first().len() - trim_start(s).len(),
            s.drop_first().len() as int,
        ) =~= s.subrange(s.len() - trim_start(s).len(), s.len() as int));
    } else {
        assert(s.subrange(0, s.len() as int) =~= s);
    }
}

pub proof fn lemma_trim_end_is_prefix(s: Seq<char>)
    ensures
        trim_end(s).len() <= s.len(),
        trim_end(s) == s.subrange(0, trim_end(s).len() as int),
        trim_end(s).len() > 0 ==> !is_whitespace(trim_end(s).last()),
    decreases s.len(),
{
    if s.len() > 0 && is_whitespace(s.last()) {
        lemma_trim_end_is_prefix(s.drop_last());
        assert(s.drop_last().subrange(0, trim_end(s).len() as int) =~= s.subrange(
            0,
            trim_end(s).len() as int,
        ));
    } else {
        assert(s.subrange(0, s.len() as int) =~= s);
    }
}

/// Trimming text that neither starts nor ends with whitespace leaves it as it is.
pub proof fn lemma_trim_of_untrimmable(s: Seq<char>)
    requires
        s.len() > 0,
        !is_whitespace(s[0]),
        !is_whitespace(s.last()),
    ensures
        trim(s) == s,
{
}

/// Trimming is idempotent: trimmed text has nothing left to trim.
pub proof fn lemma_trim_idempotent(s: Seq<char>)
    ensures
        trim(trim(s)) == trim(s),
{
    lemma_trim_start_is_suffix(s);
    let a = trim_start(s);
    lemma_trim_end_is_prefix(a);
    let b = trim_end(a);
    if b.len() > 0 {
        assert(b[0] == a[0]);
        lemma_trim_of_untrimmable(b);
    }
}

/// Looking for `c` in `a + b`, where `a` holds no `c`, finds it where it
/// first is in `b`.
pub proof fn lemma_first_index_past(a: Seq<char>, b: Seq<char>, c: char)
    requires
        forall|k: int| 0 <= k < a.len() ==> a[k] != c,
    ensures
        first_index_of(a + b, c) == match first_index_of(b, c) {
            Some(i) => Some(i + a.len()),
            None => None,
        },
    decreases a.len(),
{
    if a.len() > 0 {
        assert((a + b).drop_first() =~= a.drop_first() + b);
        lemma_first_index_past(a.drop_first(), b, c);
    } else {
        assert(a + b =~= b);
    }
}

/// Adding text with no newline in it to the end extends the last piece.
pub proof fn lemma_newline_pieces_extend(a: Seq<char>, b: Seq<char>)
    requires
        forall|k: int| 0 <= k < b.len() ==> b[k] != '\n',
    ensures
        newline_pieces(a + b) == newline_pieces(a).update(
            newline_pieces(a).len() - 1,
            newline_pieces(a).last() + b,
        ),
        newline_pieces(a).len() >= 1,
        newline_pieces(a + b).len() == newline_pieces(a).len(),
    decreases b.len(),
{
    lemma_newline_pieces_nonempty(a);
    if b.len() == 0 {
        assert(a + b =~= a);
        assert(newline_pieces(a).last() + b =~= newline_pieces(a).last());
        assert(newline_pieces(a).update(newline_pieces(a).len() - 1, newline_pieces(a).last())
            =~= newline_pieces(a));
    } else {
        let b0 = b.drop_last();
        lemma_newline_pieces_extend(a, b0);
        assert((a + b).drop_last() =~= a + b0);
        assert(newline_pieces(a).last() + b =~= (newline_pieces(a).last() + b0).push(b.last()));
        lemma_newline_pieces_nonempty(a + b0);
    }
}

pub proof fn lemma_newline_pieces_nonempty(a: Seq<char>)
    ensures
        newline_pieces(a).len() >= 1,
    decreases a.len(),
{
    if a.len() > 0 {
        lemma_newline_pieces_nonempty(a.drop_last());
    }
}

/// Ending text with a newline starts a new, empty, piece.
pub proof fn lemma_newline_pieces_newline(a: Seq<char>)
    ensures
        newline_pieces(a.push('\n')) == newline_pieces(a).push(Seq::<char>::empty()),
{
    assert(a.push('\n').drop_last() =~= a);
}

/// The characters of `s`, in order.
pub fn chars_of(s: &str) -> (r: Vec<char>)
    ensures
        r@ == s@,
{
    let mut v: Vec<char> = Vec::new();
    for c in it: s.chars()
        invariant
            v@ == it.seq().take(it.index() as int),
    {
        v.push(c);
    }
    v
}

/// `chars` as an owned `String`.
#[verifier::external_body]
pub fn string_of(chars: &[char]) -> (r: String)
    ensures
        r@ == chars@,
{
    chars.iter().collect()
}

/// Whether the two runs of characters are the same text.
pub fn same_chars(a: &[char], b: &[char]) -> (r: bool)
    ensures
        r == (a@ == b@),
{
    if a.len() != b.len() {
        return false;
    }
    let mut i: usize = 0;
    while i < a.len()
        invariant
            a@.len() == b@.len(),
            i <= a@.len(),
            forall|k: int| 0 <= k < i ==> a@[k] == b@[k],
        decreases a@.len() - i,
    {
        if a[i] != b[i] {
            return false;
        }
        i = i + 1;
    }
    assert(a@ =~= b@);
    true
}

/// Whether two strings hold the same text.
pub fn same_text(a: &str, b: &str) -> (r: bool)
    ensures
        r == (a@ == b@),
{
    let a = chars_of(a);
    let b = chars_of(b);
    same_chars(a.as_slice(), b.as_slice())
}

/// Whether `c` is whitespace, executably.
pub fn char_is_whitespace(c: char) -> (r: bool)
    ensures
        r == is_whitespace(c),
{
    ('\u{9}' <= c && c <= '\u{d}') || c == ' ' || c == '\u{85}' || c == '\u{a0}' || c
        == '\u{1680}' || ('\u{2000}' <= c && c <= '\u{200a}') || c == '\u{2028}' || c
        == '\u{2029}' || c == '\u{202f}' || c == '\u{205f}' || c == '\u{3000}'
}

/// The characters of `s` from `start` up to `end`.
pub fn slice_of(s: &[char], start: usize, end: usize) -> (r: Vec<char>)
    requires
        start <= end <= s@.len(),
    ensures
        r@ == s@.subrange(start as int, end as int),
{
    let mut v: Vec<char> = Vec::new();
    let mut i = start;
    while i < end
        invariant
            start <= i <= end <= s@.len(),
            v@ == s@.subrange(start as int, i as int),
        decreases end - i,
    {
        v.push(s[i]);
        i = i + 1;
        assert(v@ =~= s@.subrange(start as int, i as int));
    }
    v
}

/// `s` with whitespace removed from both ends.
pub fn trimmed(s: &[char]) -> (r: Vec<char>)
    ensures
        r@ == trim(s@),
{
    let n = s.len();
    let mut start: usize = 0;
    assert(s@.subrange(0, n as int) =~= s@);
    while start < n && char_is_whitespace(s[start])
        invariant
            n == s@.len(),
            start <= n,
            trim_start(s@) == trim_start(s@.subrange(start as int, n as int)),
        decreases n - start,
    {
        assert(s@.subrange(start as int, n as int).drop_first() =~= s@.subrange(
            start + 1,
            n as int,
        ));
        start = start + 1;
    }
    assert(trim_start(s@) == s@.subrange(start as int, n as int));
    let ghost front = s@.subrange(start as int, n as int);
    let mut end: usize = n;
    while end > start && char_is_whitespace(s[end - 1])
        invariant
            start <= end <= n == s@.len(),
            front == s@.subrange(start as int, n as int),
            trim_end(front) == trim_end(s@.subrange(start as int, end as int)),
        decreases end - start,
    {
        assert(s@.subrange(start as int, end as int).drop_last() =~= s@.subrange(
            start as int,
            end - 1,
        ));
        end = end - 1;
    }
    slice_of(s, start, end)
}

/// `s` with trailing whitespace removed.
pub fn trimmed_end(s: &[char]) -> (r: Vec<char>)
    ensures
        r@ == trim_end(s@),
{
    let n = s.len();
    let mut end: usize = n;
    assert(s@.subrange(0, n as int) =~= s@);
    while end > 0 && char_is_whitespace(s[end - 1])
        invariant
            end <= n == s@.len(),
            trim_end(s@) == trim_end(s@.subrange(0, end as int)),
        decreases end,
    {
        assert(s@.subrange(0, end as int).drop_last() =~= s@.subrange(0, end - 1));
        end = end - 1;
    }
    assert(s@.subrange(0, n as int) =~= s@);
    slice_of(s, 0, end)
}

/// `s` with its ASCII capitals folded to lower case.
pub fn lowercased(s: &[char]) -> (r: Vec<char>)
    ensures
        r@ == to_ascii_lowercase(s@),
{
    let mut v: Vec<char> = Vec::new();
    let mut i: usize = 0;
    while i < s.len()
        invariant
            i <= s@.len(),
            v@.len() == i,
            forall|k: int| 0 <= k < i ==> v@[k] == ascii_lower(s@[k]),
        decreases s@.len() - i,
    {
        let c = s[i];
        let lower = if 'A' <= c && c <= 'Z' {
            (((c as u32) + 32) as u8) as char
        } else {
            c
        };
        v.push(lower);
        i = i + 1;
    }
    assert(v@ =~= to_ascii_lowercase(s@));
    v
}

/// `s` split around its first `c`.
pub fn split_once_at(s: &[char], c: char) -> (r: Option<(Vec<char>, Vec<char>)>)
    ensures
        match split_once(s@, c) {
            Some((a, b)) => r matches Some((x, y)) && x@ == a && y@ == b,
            None => r is None,
        },
{
    let n = s.len();
    let mut i: usize = 0;
    assert(s@.subrange(0, n as int) =~= s@);
    while i < n && s[i] != c
        invariant
            i <= n == s@.len(),
            forall|k: int| 0 <= k < i ==> s@[k] != c,
            first_index_of(s@, c) == match first_index_of(s@.subrange(i as int, n as int), c) {
                Some(j) => Some(j + i),
                None => None,
            },
        decreases n - i,
    {
        assert(s@.subrange(i as int, n as int).drop_first() =~= s@.subrange(i + 1, n as int));
        i = i + 1;
    }
    if i == n {
        None
    } else {
        assert(s@.subrange(i as int, n as int)[0] == c);
        Some((slice_of(s, 0, i), slice_of(s, i + 1, n)))
    }
}

/// Whether `s` ends with `suffix`, executably.
pub fn has_suffix(s: &[char], suffix: &[char]) -> (r: bool)
    ensures
        r == ends_with(s@, suffix@),
{
    if suffix.len() > s.len() {
        return false;
    }
    let tail = slice_of(s, s.len() - suffix.len(), s.len());
    same_chars(tail.as_slice(), suffix)
}

} // verus!
