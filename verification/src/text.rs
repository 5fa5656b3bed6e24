//! Character-level string utilities shared by the whole library.
//!
//! Strings are reasoned about through their `Seq<char>` view. The helpers here
//! mirror the handful of `str` operations the lead pipeline relies on
//! (trimming, splitting, joining, searching) with exact specifications.

use vstd::prelude::*;

verus! {

broadcast use crate::views::lemma_char_vec_deep_view;

// ---------------------------------------------------------------------------
// Whitespace and character classes
// ---------------------------------------------------------------------------

/// The Unicode `White_Space` property, which is what `char::is_whitespace`
/// (and therefore `str::trim` / `str::split_whitespace`) tests.
pub open spec fn is_ws(c: char) -> bool {
    let u = c as u32;
    ||| 0x09 <= u <= 0x0D
    ||| u == 0x20
    ||| u == 0x85
    ||| u == 0xA0
    ||| u == 0x1680
    ||| 0x2000 <= u <= 0x200A
    ||| u == 0x2028
    ||| u == 0x2029
    ||| u == 0x202F
    ||| u == 0x205F
    ||| u == 0x3000
}

/// Exec test for [`is_ws`].
pub fn is_whitespace(c: char) -> (r: bool)
    ensures
        r == is_ws(c),
{
    let u = c as u32;
    (0x09 <= u && u <= 0x0D) || u == 0x20 || u == 0x85 || u == 0xA0 || u == 0x1680 || (0x2000
        <= u && u <= 0x200A) || u == 0x2028 || u == 0x2029 || u == 0x202F || u == 0x205F || u
        == 0x3000
}

/// ASCII letter or digit (`char::is_ascii_alphanumeric`).
pub open spec fn is_ascii_alnum(c: char) -> bool {
    ('a' <= c && c <= 'z') || ('A' <= c && c <= 'Z') || ('0' <= c && c <= '9')
}

/// Exec test for [`is_ascii_alnum`].
pub fn ascii_alnum(c: char) -> (r: bool)
    ensures
        r == is_ascii_alnum(c),
{
    ('a' <= c && c <= 'z') || ('A' <= c && c <= 'Z') || ('0' <= c && c <= '9')
}

/// What `char::is_alphanumeric` answers (Unicode `Alphabetic` or `Numeric`).
pub uninterp spec fn unicode_alphanumeric(c: char) -> bool;

/// Calls `char::is_alphanumeric`; the answer is the Unicode property named
/// [`unicode_alphanumeric`], which is not spelled out here.
#[verifier::external_body]
pub(crate) fn is_alphanumeric(c: char) -> (r: bool)
    ensures
        r == unicode_alphanumeric(c),
{
    c.is_alphanumeric()
}

/// What `str::to_lowercase` returns (full Unicode lowercase mapping).
pub uninterp spec fn lowercase(s: Seq<char>) -> Seq<char>;

/// Calls `str::to_lowercase`; its result is named [`lowercase`] and depends
/// on the input alone. The Unicode case tables are not spelled out.
#[verifier::external_body]
pub(crate) fn to_lowercase(s: &str) -> (r: String)
    ensures
        r@ == lowercase(s@),
{
    s.to_lowercase()
}

// ---------------------------------------------------------------------------
// Conversions between `str` and `Vec<char>`
// ---------------------------------------------------------------------------

/// The characters of a string slice.
pub fn chars_of(s: &str) -> (r: Vec<char>)
    ensures
        r@ == s@,
{
    broadcast use vstd::string::group_string_axioms;

    let mut out: Vec<char> = Vec::new();
    for c in it: s.chars()
        invariant
            out@ == it.seq().take(it.index() as int),
    {
        out.push(c);
        assert(out@ =~= it.seq().take(it.index() + 1));
    }
    assert(out@ =~= s@);
    out
}

/// Appends one character (`String::push`).
#[verifier::external_body]
pub(crate) fn push_char(s: &mut String, c: char)
    ensures
        final(s)@ == old(s)@.push(c),
{
    s.push(c)
}

/// Builds a `String` holding exactly the given characters.
pub fn string_of(cs: &[char]) -> (r: String)
    ensures
        r@ == cs@,
{
    let mut out = String::new();
    let mut i: usize = 0;
    while i < cs.len()
        invariant
            i <= cs@.len(),
            out@ == cs@.subrange(0, i as int),
        decreases cs@.len() - i,
    {
        push_char(&mut out, cs[i]);
        i = i + 1;
        assert(out@ =~= cs@.subrange(0, i as int));
    }
    assert(cs@.subrange(0, i as int) =~= cs@);
    out
}

/// Copies a string slice into an owned `String`.
pub fn owned(s: &str) -> (r: String)
    ensures
        r@ == s@,
{
    s.to_owned()
}

// ---------------------------------------------------------------------------
// Trimming
// ---------------------------------------------------------------------------

/// Index of the first non-whitespace character at or after `i`.
pub open spec fn skip_ws(s: Seq<char>, i: int) -> int
    decreases s.len() - i,
{
    if 0 <= i < s.len() && is_ws(s[i]) {
        skip_ws(s, i + 1)
    } else {
        i
    }
}

/// One past the last non-whitespace character in `s[lo..j]` (or `lo`).
pub open spec fn back_ws(s: Seq<char>, lo: int, j: int) -> int
    decreases j,
{
    if lo < j && 0 < j <= s.len() && is_ws(s[j - 1]) {
        back_ws(s, lo, j - 1)
    } else {
        j
    }
}

/// `str::trim`: `s` without its leading and trailing whitespace.
pub open spec fn trim(s: Seq<char>) -> Seq<char> {
    let a = skip_ws(s, 0);
    s.subrange(a, back_ws(s, a, s.len() as int))
}

proof fn lemma_skip_ws_bounds(s: Seq<char>, i: int)
    requires
        0 <= i <= s.len(),
    ensures
        i <= skip_ws(s, i) <= s.len(),
        forall|k: int| i <= k < skip_ws(s, i) ==> is_ws(#[trigger] s[k]),
        skip_ws(s, i) < s.len() ==> !is_ws(s[skip_ws(s, i)]),
    decreases s.len() - i,
{
    if i < s.len() && is_ws(s[i]) {
        lemma_skip_ws_bounds(s, i + 1);
    }
}

proof fn lemma_back_ws_bounds(s: Seq<char>, lo: int, j: int)
    requires
        0 <= lo <= j <= s.len(),
    ensures
        lo <= back_ws(s, lo, j) <= j,
        forall|k: int| back_ws(s, lo, j) <= k < j ==> is_ws(#[trigger] s[k]),
        back_ws(s, lo, j) > lo ==> !is_ws(s[back_ws(s, lo, j) - 1]),
    decreases j,
{
    if lo < j && is_ws(s[j - 1]) {
        lemma_back_ws_bounds(s, lo, j - 1);
    }
}

/// The trimmed sequence has no whitespace at either end, and it is what is
/// left of `s` once whitespace-only runs are dropped from both ends.
pub proof fn lemma_trim(s: Seq<char>)
    ensures
        trim(s).len() > 0 ==> !is_ws(trim(s)[0]) && !is_ws(trim(s).last()),
        trim(s).len() <= s.len(),
        forall|c: char| trim(s).contains(c) ==> s.contains(c),
{
    lemma_skip_ws_bounds(s, 0);
    let a = skip_ws(s, 0);
    lemma_back_ws_bounds(s, a, s.len() as int);
    let t = trim(s);
    assert forall|c: char| t.contains(c) implies s.contains(c) by {
        let k = choose|k: int| 0 <= k < t.len() && t[k] == c;
        assert(s[a + k] == c);
    }
}

/// Positions `(start, end)` such that `s[start..end]` is `trim(s)`.
pub fn trim_bounds(s: &[char]) -> (r: (usize, usize))
    ensures
        r.0 <= r.1 <= s@.len(),
        r.0 == skip_ws(s@, 0),
        r.1 == back_ws(s@, r.0 as int, s@.len() as int),
        s@.subrange(r.0 as int, r.1 as int) == trim(s@),
{
    let mut i: usize = 0;
    while i < s.len() && is_whitespace(s[i])
        invariant
            i <= s@.len(),
            skip_ws(s@, i as int) == skip_ws(s@, 0),
        decreases s@.len() - i,
    {
        i = i + 1;
    }
    let mut j: usize = s.len();
    while j > i && is_whitespace(s[j - 1])
        invariant
            i <= j <= s@.len(),
            back_ws(s@, i as int, j as int) == back_ws(s@, i as int, s@.len() as int),
        decreases j,
    {
        j = j - 1;
    }
    (i, j)
}

/// `str::trim` over characters.
pub fn trim_chars(s: &[char]) -> (r: Vec<char>)
    ensures
        r@ == trim(s@),
{
    let (a, b) = trim_bounds(s);
    slice_range(s, a, b)
}

/// `str::trim`, returning an owned string.
pub fn trim_str(s: &str) -> (r: String)
    ensures
        r@ == trim(s@),
{
    let cs = chars_of(s);
    let t = trim_chars(&cs);
    string_of(&t)
}

/// A copy of `s[a..b]`.
pub fn slice_range(s: &[char], a: usize, b: usize) -> (r: Vec<char>)
    requires
        a <= b <= s@.len(),
    ensures
        r@ == s@.subrange(a as int, b as int),
{
    let mut out: Vec<char> = Vec::new();
    let mut i = a;
    while i < b
        invariant
            a <= i <= b <= s@.len(),
            out@ == s@.subrange(a as int, i as int),
        decreases b - i,
    {
        out.push(s[i]);
        i = i + 1;
        assert(out@ =~= s@.subrange(a as int, i as int));
    }
    out
}

// ---------------------------------------------------------------------------
// Searching
// ---------------------------------------------------------------------------

/// `needle` occurs in `hay` starting at position `i`.
pub open spec fn occurs_at(hay: Seq<char>, needle: Seq<char>, i: int) -> bool {
    0 <= i && i + needle.len() <= hay.len() && hay.subrange(i, i + needle.len()) == needle
}

/// `str::contains` with a string pattern.
pub open spec fn contains(hay: Seq<char>, needle: Seq<char>) -> bool {
    exists|i: int| occurs_at(hay, needle, i)
}

/// `str::starts_with` with a string pattern.
pub open spec fn starts_with(s: Seq<char>, prefix: Seq<char>) -> bool {
    occurs_at(s, prefix, 0)
}

/// Whether `needle` occurs in `hay` at position `i`, compared character by character.
pub fn matches_at(hay: &[char], needle: &[char], i: usize) -> (r: bool)
    ensures
        r == occurs_at(hay@, needle@, i as int),
{
    if needle.len() > hay.len() || i > hay.len() - needle.len() {
        return false;
    }
    let mut k: usize = 0;
    while k < needle.len()
        invariant
            i + needle@.len() <= hay@.len(),
            hay@.len() == hay.len(),
            k <= needle@.len(),
            forall|m: int| 0 <= m < k ==> hay@[i + m] == needle@[m],
        decreases needle@.len() - k,
    {
        assert(i + k < hay@.len());
        if hay[i + k] != needle[k] {
            assert(hay@.subrange(i as int, i + needle@.len())[k as int] != needle@[k as int]);
            return false;
        }
        k = k + 1;
    }
    assert(hay@.subrange(i as int, i + needle@.len()) =~= needle@);
    true
}

/// `str::contains` over characters.
pub fn contains_chars(hay: &[char], needle: &[char]) -> (r: bool)
    ensures
        r == contains(hay@, needle@),
{
    if needle.len() > hay.len() {
        return false;
    }
    let last = hay.len() - needle.len();
    let mut i: usize = 0;
    loop
        invariant
            needle@.len() <= hay@.len(),
            last == hay@.len() - needle@.len(),
            i <= last,
            forall|k: int| 0 <= k < i ==> !occurs_at(hay@, needle@, k),
        decreases last - i,
    {
        if matches_at(hay, needle, i) {
            return true;
        }
        if i == last {
            assert forall|k: int| !occurs_at(hay@, needle@, k) by {
                if 0 <= k < i {
                }
            }
            return false;
        }
        i = i + 1;
    }
}

/// `str::starts_with` on string slices.
pub fn str_starts_with(s: &str, prefix: &str) -> (r: bool)
    ensures
        r == starts_with(s@, prefix@),
{
    let h = chars_of(s);
    let n = chars_of(prefix);
    matches_at(&h, &n, 0)
}

/// Position of the first occurrence of `c`.
pub fn find_char(s: &[char], c: char) -> (r: Option<usize>)
    ensures
        r matches Some(i) ==> i < s@.len() && i < s.len() && s@[i as int] == c && forall|k: int|
            0 <= k < i ==> s@[k] != c,
        r is None ==> forall|k: int| 0 <= k < s@.len() ==> s@[k] != c,
{
    let mut i: usize = 0;
    while i < s.len()
        invariant
            i <= s@.len(),
            forall|k: int| 0 <= k < i ==> s@[k] != c,
        decreases s@.len() - i,
    {
        if s[i] == c {
            return Some(i);
        }
        i = i + 1;
    }
    None
}

// ---------------------------------------------------------------------------
// Splitting and joining
// ---------------------------------------------------------------------------

/// `str::split(c)`: the pieces between occurrences of `c` (always at least one).
pub open spec fn split(s: Seq<char>, c: char) -> Seq<Seq<char>>
    decreases s.len(),
{
    if s.len() == 0 {
        seq![Seq::<char>::empty()]
    } else {
        let init = split(s.drop_last(), c);
        if s.last() == c {
            init.push(Seq::<char>::empty())
        } else {
            init.update(init.len() - 1, init.last().push(s.last()))
        }
    }
}

/// `split` never yields an empty list of pieces.
pub proof fn lemma_split_nonempty(s: Seq<char>, c: char)
    ensures
        split(s, c).len() >= 1,
    decreases s.len(),
{
    if s.len() > 0 {
        lemma_split_nonempty(s.drop_last(), c);
    }
}

/// `str::split_whitespace`: the maximal runs of non-whitespace characters.
pub open spec fn words(s: Seq<char>) -> Seq<Seq<char>>
    decreases s.len(),
{
    if s.len() == 0 {
        Seq::<Seq<char>>::empty()
    } else {
        let w = words(s.drop_last());
        let c = s.last();
        if is_ws(c) {
            w
        } else if s.len() >= 2 && !is_ws(s[s.len() - 2]) {
            w.update(w.len() - 1, w.last().push(c))
        } else {
            w.push(seq![c])
        }
    }
}

/// `[T]::join(sep)` for strings.
pub open spec fn join(parts: Seq<Seq<char>>, sep: Seq<char>) -> Seq<char>
    decreases parts.len(),
{
    if parts.len() == 0 {
        Seq::<char>::empty()
    } else if parts.len() == 1 {
        parts[0]
    } else {
        join(parts.drop_last(), sep) + sep + parts.last()
    }
}

/// `str::split(c)` over characters.
pub fn split_chars(s: &[char], c: char) -> (r: Vec<Vec<char>>)
    ensures
        r.deep_view() == split(s@, c),
{
    let mut done: Vec<Vec<char>> = Vec::new();
    let mut cur: Vec<char> = Vec::new();
    let mut i: usize = 0;
    while i < s.len()
        invariant
            i <= s@.len(),
            done.deep_view().push(cur@) == split(s@.take(i as int), c),
        decreases s@.len() - i,
    {
        let ghost before = done.deep_view().push(cur@);
        assert(s@.take(i + 1).drop_last() =~= s@.take(i as int));
        if s[i] == c {
            done.push(cur);
            cur = Vec::new();
            assert(done.deep_view().push(cur@) =~~= before.push(Seq::<char>::empty()));
        } else {
            cur.push(s[i]);
            assert(done.deep_view().push(cur@) =~~= before.update(
                before.len() - 1,
                before.last().push(s@[i as int]),
            ));
        }
        i = i + 1;
    }
    assert(s@.take(i as int) =~= s@);
    done.push(cur);
    done
}

/// `str::split_whitespace` over characters.
pub fn words_chars(s: &[char]) -> (r: Vec<Vec<char>>)
    ensures
        r.deep_view() == words(s@),
{
    let mut done: Vec<Vec<char>> = Vec::new();
    let mut cur: Vec<char> = Vec::new();
    let mut i: usize = 0;
    while i < s.len()
        invariant
            i <= s@.len(),
            (i > 0 && !is_ws(s@[i - 1])) ==> cur@.len() > 0 && done.deep_view().push(cur@)
                == words(s@.take(i as int)),
            !(i > 0 && !is_ws(s@[i - 1])) ==> cur@.len() == 0 && done.deep_view() == words(
                s@.take(i as int),
            ),
        decreases s@.len() - i,
    {
        let ghost t = s@.take(i + 1);
        assert(t.drop_last() =~= s@.take(i as int));
        assert(t.last() == s@[i as int]);
        if i >= 1 {
            assert(t[t.len() - 2] == s@[i - 1]);
        }
        if is_whitespace(s[i]) {
            if cur.len() > 0 {
                done.push(cur);
                cur = Vec::new();
            }
        } else {
            let ghost before = done.deep_view();
            let ghost cur_before = cur@;
            let had = cur.len() > 0;
            cur.push(s[i]);
            if had {
                assert(done.deep_view().push(cur@) =~~= before.push(cur_before).update(
                    before.len() as int,
                    cur_before.push(s@[i as int]),
                ));
            } else {
                assert(cur@ =~= seq![s@[i as int]]);
            }
        }
        i = i + 1;
    }
    assert(s@.take(i as int) =~= s@);
    if cur.len() > 0 {
        done.push(cur);
    }
    done
}

/// Joins string pieces with a separator.
pub fn join_chars(parts: &Vec<Vec<char>>, sep: &[char]) -> (r: Vec<char>)
    ensures
        r@ == join(parts.deep_view(), sep@),
{
    let mut out: Vec<char> = Vec::new();
    let mut i: usize = 0;
    while i < parts.len()
        invariant
            i <= parts@.len(),
            out@ == join(parts.deep_view().take(i as int), sep@),
        decreases parts@.len() - i,
    {
        let ghost pv = parts.deep_view();
        assert(pv.take(i + 1).drop_last() =~= pv.take(i as int));
        if i > 0 {
            append_chars(&mut out, sep);
        }
        append_chars(&mut out, &parts[i]);
        if i == 0 {
            assert(out@ =~= pv.take(1)[0]);
        }
        i = i + 1;
    }
    assert(parts.deep_view().take(i as int) =~= parts.deep_view());
    out
}

/// Appends characters to a buffer.
pub fn append_chars(out: &mut Vec<char>, more: &[char])
    ensures
        final(out)@ == old(out)@ + more@,
{
    let mut i: usize = 0;
    while i < more.len()
        invariant
            i <= more@.len(),
            out@ == old(out)@ + more@.subrange(0, i as int),
        decreases more@.len() - i,
    {
        out.push(more[i]);
        i = i + 1;
        assert(out@ =~= old(out)@ + more@.subrange(0, i as int));
    }
    assert(more@.subrange(0, i as int) =~= more@);
}

/// Appends the characters of a string slice to a buffer.
pub fn append_str(out: &mut Vec<char>, more: &str)
    ensures
        final(out)@ == old(out)@ + more@,
{
    let cs = chars_of(more);
    append_chars(out, &cs);
}

/// Characters of each string in a list.
pub fn chars_of_all(list: &Vec<String>) -> (r: Vec<Vec<char>>)
    ensures
        r.deep_view() == list.deep_view(),
{
    let mut out: Vec<Vec<char>> = Vec::new();
    let mut i: usize = 0;
    while i < list.len()
        invariant
            i <= list@.len(),
            out.deep_view() == list.deep_view().take(i as int),
        decreases list@.len() - i,
    {
        let ghost prev = out.deep_view();
        let cs = chars_of(list[i].as_str());
        out.push(cs);
        assert(out.deep_view() =~= prev.push(list@[i as int]@));
        i = i + 1;
        assert(out.deep_view() =~= list.deep_view().take(i as int));
    }
    assert(list.deep_view().take(i as int) =~~= list.deep_view());
    out
}

/// Strings built from each list of characters.
pub fn strings_of_all(list: &Vec<Vec<char>>) -> (r: Vec<String>)
    ensures
        r.deep_view() == list.deep_view(),
{
    let mut out: Vec<String> = Vec::new();
    let mut i: usize = 0;
    while i < list.len()
        invariant
            i <= list@.len(),
            out.deep_view() == list.deep_view().take(i as int),
        decreases list@.len() - i,
    {
        let ghost prev = out.deep_view();
        let st = string_of(&list[i]);
        out.push(st);
        assert(out.deep_view() =~= prev.push(list@[i as int]@));
        i = i + 1;
        assert(out.deep_view() =~= list.deep_view().take(i as int));
    }
    assert(list.deep_view().take(i as int) =~~= list.deep_view());
    out
}

/// `[String]::join(sep)`.
pub fn join_strings(list: &Vec<String>, sep: &str) -> (r: String)
    ensures
        r@ == join(list.deep_view(), sep@),
{
    let parts = chars_of_all(list);
    let sep_chars = chars_of(sep);
    let joined = join_chars(&parts, &sep_chars);
    string_of(&joined)
}

// ---------------------------------------------------------------------------
// Truncation
// ---------------------------------------------------------------------------

/// At most `max` characters; a longer text is cut to `max` characters followed by `…`.
pub open spec fn truncated(s: Seq<char>, max: nat) -> Seq<char> {
    if s.len() <= max {
        s
    } else {
        s.take(max as int).push('…')
    }
}

/// Shortens a description to `max` characters, marking the cut with `…`.
pub fn truncate(s: &str, max: usize) -> (r: String)
    ensures
        r@ == truncated(s@, max as nat),
{
    let cs = chars_of(s);
    if cs.len() <= max {
        string_of(&cs)
    } else {
        let mut t = slice_range(&cs, 0, max);
        t.push('…');
        string_of(&t)
    }
}

// ---------------------------------------------------------------------------
// Comma-separated setting lists
// ---------------------------------------------------------------------------

/// Each piece trimmed, blank pieces dropped, order kept.
pub open spec fn trimmed_nonempty(parts: Seq<Seq<char>>) -> Seq<Seq<char>>
    decreases parts.len(),
{
    if parts.len() == 0 {
        Seq::<Seq<char>>::empty()
    } else {
        let init = trimmed_nonempty(parts.drop_last());
        let t = trim(parts.last());
        if t.len() > 0 {
            init.push(t)
        } else {
            init
        }
    }
}

/// The items of a comma-separated list: `s.split(',').map(trim).filter(non-empty)`.
pub open spec fn list_items(s: Seq<char>) -> Seq<Seq<char>> {
    trimmed_nonempty(split(s, ','))
}

/// Trims every piece and drops the blank ones.
pub fn trim_nonempty_chars(parts: &Vec<Vec<char>>) -> (r: Vec<Vec<char>>)
    ensures
        r.deep_view() == trimmed_nonempty(parts.deep_view()),
{
    let mut out: Vec<Vec<char>> = Vec::new();
    let mut i: usize = 0;
    while i < parts.len()
        invariant
            i <= parts@.len(),
            out.deep_view() == trimmed_nonempty(parts.deep_view().take(i as int)),
        decreases parts@.len() - i,
    {
        let ghost pv = parts.deep_view();
        assert(pv.take(i + 1).drop_last() =~= pv.take(i as int));
        assert(pv.take(i + 1).last() == parts@[i as int]@);
        let t = trim_chars(&parts[i]);
        if t.len() > 0 {
            let ghost prev = out.deep_view();
            out.push(t);
            assert(out.deep_view() =~= prev.push(t@));
        }
        i = i + 1;
    }
    assert(parts.deep_view().take(i as int) =~= parts.deep_view());
    out
}

/// Trims every string in a list and drops the blank ones.
pub fn trim_nonempty_strings(list: &Vec<String>) -> (r: Vec<String>)
    ensures
        r.deep_view() == trimmed_nonempty(list.deep_view()),
{
    let parts = chars_of_all(list);
    let kept = trim_nonempty_chars(&parts);
    strings_of_all(&kept)
}

/// Parses a comma-separated setting into its non-blank, trimmed items.
pub fn parse_list(raw: &str) -> (r: Vec<String>)
    ensures
        r.deep_view() == list_items(raw@),
{
    let cs = chars_of(raw);
    let parts = split_chars(&cs, ',');
    let kept = trim_nonempty_chars(&parts);
    strings_of_all(&kept)
}

/// Every piece trimmed, blank ones kept.
pub open spec fn trimmed_all(parts: Seq<Seq<char>>) -> Seq<Seq<char>> {
    parts.map_values(|p: Seq<char>| trim(p))
}

/// Splits a comma-separated setting and trims each piece, keeping blank ones.
pub fn split_trimmed(raw: &str) -> (r: Vec<String>)
    ensures
        r.deep_view() == trimmed_all(split(raw@, ',')),
{
    let cs = chars_of(raw);
    let parts = split_chars(&cs, ',');
    let mut out: Vec<String> = Vec::new();
    let mut i: usize = 0;
    while i < parts.len()
        invariant
            i <= parts@.len(),
            parts.deep_view() == split(raw@, ','),
            out.deep_view() == trimmed_all(parts.deep_view()).take(i as int),
        decreases parts@.len() - i,
    {
        let t = trim_chars(&parts[i]);
        let st = string_of(&t);
        let ghost prev = out.deep_view();
        out.push(st);
        assert(out.deep_view() =~= prev.push(st@));
        i = i + 1;
        assert(out.deep_view() =~= trimmed_all(parts.deep_view()).take(i as int));
    }
    assert(trimmed_all(parts.deep_view()).take(i as int) =~= trimmed_all(parts.deep_view()));
    out
}

/// String equality by characters.
pub fn str_equal(a: &str, b: &str) -> (r: bool)
    ensures
        r == (a@ == b@),
{
    let x = chars_of(a);
    let y = chars_of(b);
    chars_equal(&x, &y)
}

/// Character-sequence equality.
pub fn chars_equal(x: &[char], y: &[char]) -> (r: bool)
    ensures
        r == (x@ == y@),
{
    if x.len() != y.len() {
        return false;
    }
    let mut i: usize = 0;
    while i < x.len()
        invariant
            x@.len() == y@.len(),
            i <= x@.len(),
            forall|k: int| 0 <= k < i ==> x@[k] == y@[k],
        decreases x@.len() - i,
    {
        if x[i] != y[i] {
            return false;
        }
        i = i + 1;
    }
    assert(x@ =~= y@);
    true
}

/// Whether a string is blank (empty once trimmed).
pub fn is_blank(s: &str) -> (r: bool)
    ensures
        r == (trim(s@).len() == 0),
{
    let cs = chars_of(s);
    let (a, b) = trim_bounds(&cs);
    a == b
}

// ---------------------------------------------------------------------------
// UTF-8 length
// ---------------------------------------------------------------------------

/// Bytes in the UTF-8 encoding of one character.
pub open spec fn char_width(c: char) -> nat {
    let u = c as u32;
    if u <= 0x7F {
        1
    } else if u <= 0x7FF {
        2
    } else if u <= 0xFFFF {
        3
    } else {
        4
    }
}

/// Bytes in the UTF-8 encoding of a text (what `str::len` counts).
pub open spec fn utf8_len(s: Seq<char>) -> nat
    decreases s.len(),
{
    if s.len() == 0 {
        0
    } else {
        utf8_len(s.drop_last()) + char_width(s.last())
    }
}

proof fn lemma_utf8_len_prepend(c: char, s: Seq<char>)
    ensures
        utf8_len(seq![c] + s) == char_width(c) + utf8_len(s),
    decreases s.len(),
{
    if s.len() > 0 {
        assert((seq![c] + s).drop_last() =~= seq![c] + s.drop_last());
        assert((seq![c] + s).last() == s.last());
        lemma_utf8_len_prepend(c, s.drop_last());
    } else {
        assert((seq![c] + s).drop_last() =~= Seq::<char>::empty());
        assert((seq![c] + s).last() == c);
        assert(utf8_len(Seq::<char>::empty()) == 0);
    }
}

/// [`utf8_len`] is the length of vstd's `encode_utf8`, which is what `str::len`
/// reports.
pub proof fn lemma_utf8_len(s: Seq<char>)
    ensures
        vstd::utf8::encode_utf8(s).len() == utf8_len(s),
    decreases s.len(),
{
    if s.len() > 0 {
        lemma_utf8_len(s.drop_first());
        vstd::utf8::char_is_scalar(s[0]);
        assert(s =~= seq![s[0]] + s.drop_first());
        lemma_utf8_len_prepend(s[0], s.drop_first());
    }
}

/// Bytes in the UTF-8 encoding of some characters.
pub fn utf8_byte_len(cs: &[char]) -> (r: u128)
    ensures
        r == utf8_len(cs@),
{
    let mut total: u128 = 0;
    let mut i: usize = 0;
    while i < cs.len()
        invariant
            i <= cs@.len(),
            total == utf8_len(cs@.take(i as int)),
            total <= 4 * i,
            cs@.len() == cs.len(),
        decreases cs@.len() - i,
    {
        assert(cs@.take(i + 1).drop_last() =~= cs@.take(i as int));
        let u = cs[i] as u32;
        let w: u128 = if u <= 0x7F {
            1
        } else if u <= 0x7FF {
            2
        } else if u <= 0xFFFF {
            3
        } else {
            4
        };
        total = total + w;
        i = i + 1;
    }
    assert(cs@.take(i as int) =~= cs@);
    total
}

// ---------------------------------------------------------------------------
// Splitting at the first occurrence
// ---------------------------------------------------------------------------

/// `str::split_once(c)`: the text before and after the first `c`.
pub open spec fn split_once(s: Seq<char>, c: char) -> Option<(Seq<char>, Seq<char>)> {
    if s.contains(c) {
        let i = choose|i: int| 0 <= i < s.len() && s[i] == c && forall|k: int| 0 <= k < i ==> s[k] != c;
        Some((s.take(i), s.skip(i + 1)))
    } else {
        None
    }
}

pub proof fn lemma_split_once_at(s: Seq<char>, c: char, i: int)
    requires
        0 <= i < s.len(),
        s[i] == c,
        forall|k: int| 0 <= k < i ==> s[k] != c,
    ensures
        split_once(s, c) == Some((s.take(i), s.skip(i + 1))),
{
    assert(s.contains(c));
    let j = choose|j: int| 0 <= j < s.len() && s[j] == c && forall|k: int| 0 <= k < j ==> s[k] != c;
    assert(j == i) by {
        if j < i {
            assert(s[j] != c);
        }
        if i < j {
            assert(s[i] != c);
        }
    }
}

/// `str::split_once(c)` over characters.
pub fn split_once_chars(s: &[char], c: char) -> (r: Option<(Vec<char>, Vec<char>)>)
    ensures
        match split_once(s@, c) {
            None => r is None,
            Some((a, b)) => r matches Some((x, y)) && x@ == a && y@ == b,
        },
        r matches Some((x, y)) ==> x@.len() <= s@.len() && y@.len() <= s@.len(),
{
    match find_char(s, c) {
        None => {
            assert(!s@.contains(c));
            None
        },
        Some(i) => {
            assert(i < s.len());
            proof {
                lemma_split_once_at(s@, c, i as int);
            }
            let a = slice_range(s, 0, i);
            let b = slice_range(s, i + 1, s.len());
            assert(a@ =~= s@.take(i as int));
            assert(b@ =~= s@.skip(i + 1));
            Some((a, b))
        },
    }
}

// ---------------------------------------------------------------------------
// Forward search from a position
// ---------------------------------------------------------------------------

/// The first position at or after `i` holding `c`, or `s.len()` when there is none.
pub open spec fn index_from(s: Seq<char>, c: char, i: int) -> int
    decreases s.len() - i,
{
    if i < 0 || i >= s.len() {
        s.len() as int
    } else if s[i] == c {
        i
    } else {
        index_from(s, c, i + 1)
    }
}

/// [`index_from`] lands on `c` at or after `i`, with no `c` in between.
pub proof fn lemma_index_from(s: Seq<char>, c: char, i: int)
    requires
        0 <= i,
    ensures
        i <= index_from(s, c, i) || i > s.len(),
        index_from(s, c, i) <= s.len(),
        index_from(s, c, i) < s.len() ==> s[index_from(s, c, i)] == c,
        forall|k: int| i <= k < index_from(s, c, i) ==> s[k] != c,
    decreases s.len() - i,
{
    if i < s.len() && s[i] != c {
        lemma_index_from(s, c, i + 1);
    }
}

/// Exec form of [`index_from`].
pub fn find_char_from(s: &[char], c: char, i: usize) -> (r: usize)
    ensures
        r == index_from(s@, c, i as int),
{
    let mut k = i;
    if k > s.len() {
        return s.len();
    }
    while k < s.len() && s[k] != c
        invariant
            i <= k <= s@.len(),
            s@.len() == s.len(),
            index_from(s@, c, k as int) == index_from(s@, c, i as int),
        decreases s@.len() - k,
    {
        k = k + 1;
    }
    k
}

// ---------------------------------------------------------------------------
// Numbers as text
// ---------------------------------------------------------------------------

/// The digit character for a value below 16 (lower-case hex letters).
pub open spec fn digit_char(d: nat) -> char {
    if d < 10 {
        (48 + d) as char
    } else {
        (87 + d) as char
    }
}

/// `n` written in base `base` (no leading zeros; `0` is "0").
pub open spec fn radix_text(n: nat, base: nat) -> Seq<char>
    recommends
        2 <= base <= 16,
    decreases n,
{
    if base < 2 || n < base {
        seq![digit_char(n)]
    } else {
        proof {
            assert(n / base < n) by (nonlinear_arith)
                requires
                    base >= 2,
                    n >= base,
            ;
        }
        radix_text(n / base, base).push(digit_char(n % base))
    }
}

fn digit_of(d: u64) -> (c: char)
    requires
        d < 16,
    ensures
        c == digit_char(d as nat),
{
    if d < 10 {
        ((48 + d) as u8) as char
    } else {
        ((87 + d) as u8) as char
    }
}

/// `n` in base `base` (`Display` for base 10, `{:x}` for base 16).
pub fn radix_string(n: u64, base: u64) -> (r: String)
    requires
        2 <= base <= 16,
    ensures
        r@ == radix_text(n as nat, base as nat),
{
    let mut rev: Vec<char> = Vec::new();
    let mut m = n;
    while m >= base
        invariant
            2 <= base <= 16,
            radix_text(n as nat, base as nat) == radix_text(m as nat, base as nat) + rev@.reverse(),
        decreases m,
    {
        let d = m % base;
        let c = digit_of(d);
        let ghost before = rev@;
        rev.push(c);
        assert(rev@.reverse() =~= seq![c] + before.reverse());
        assert(radix_text(m as nat, base as nat) == radix_text((m / base) as nat, base as nat).push(c));
        assert(radix_text((m / base) as nat, base as nat).push(c) + before.reverse()
            =~= radix_text((m / base) as nat, base as nat) + (seq![c] + before.reverse()));
        m = m / base;
    }
    let c = digit_of(m);
    rev.push(c);
    let mut out: Vec<char> = Vec::new();
    let mut k = rev.len();
    while k > 0
        invariant
            k <= rev@.len(),
            out@ == rev@.subrange(k as int, rev@.len() as int).reverse(),
        decreases k,
    {
        k = k - 1;
        let ghost before = out@;
        out.push(rev[k]);
        assert(out@ =~= rev@.subrange(k as int, rev@.len() as int).reverse());
    }
    assert(rev@.subrange(0, rev@.len() as int) =~= rev@);
    assert(out@ =~= radix_text(n as nat, base as nat));
    string_of(&out)
}

// ---------------------------------------------------------------------------
// Reading numbers
// ---------------------------------------------------------------------------

/// Every character is an ASCII digit.
pub open spec fn all_digits(s: Seq<char>) -> bool {
    forall|i: int| 0 <= i < s.len() ==> '0' <= #[trigger] s[i] && s[i] <= '9'
}

/// The value of a run of decimal digits.
pub open spec fn digits_value(s: Seq<char>) -> int
    decreases s.len(),
{
    if s.len() == 0 {
        0
    } else {
        digits_value(s.drop_last()) * 10 + (s.last() as int - '0' as int)
    }
}

/// `usize::from_str`: an optional `+`, then one or more digits whose value
/// fits in a `usize`.
pub open spec fn parse_usize(s: Seq<char>) -> Option<int> {
    let d = if s.len() > 0 && s[0] == '+' {
        s.drop_first()
    } else {
        s
    };
    if d.len() > 0 && all_digits(d) && digits_value(d) <= usize::MAX {
        Some(digits_value(d))
    } else {
        None
    }
}

proof fn lemma_digits_prefix(s: Seq<char>, k: int)
    requires
        all_digits(s),
        0 <= k <= s.len(),
    ensures
        0 <= digits_value(s.take(k)) <= digits_value(s),
    decreases s.len(),
{
    if s.len() > 0 {
        let init = s.drop_last();
        assert forall|i: int| 0 <= i < init.len() implies '0' <= #[trigger] init[i] && init[i] <= '9' by {
            assert(init[i] == s[i]);
        }
        if k == s.len() {
            assert(s.take(k) =~= s);
            lemma_digits_prefix(init, init.len() as int);
            assert(init.take(init.len() as int) =~= init);
        } else {
            assert(s.take(k) =~= init.take(k));
            lemma_digits_prefix(init, k);
            lemma_digits_prefix(init, init.len() as int);
            assert(init.take(init.len() as int) =~= init);
        }
        assert(s.last() == s[s.len() - 1]);
    }
}

/// Reads a `usize` the way `str::parse::<usize>` does (see [`parse_usize`]).
pub fn parse_usize_text(text: &str) -> (r: Option<usize>)
    ensures
        r matches Some(n) ==> parse_usize(text@) == Some(n as int),
        r is None ==> parse_usize(text@) is None,
{
    let s = chars_of(text);
    let start: usize = if s.len() > 0 && s[0] == '+' {
        1
    } else {
        0
    };
    let ghost d = if s@.len() > 0 && s@[0] == '+' {
        s@.drop_first()
    } else {
        s@
    };
    assert(d =~= s@.skip(start as int));
    if start >= s.len() {
        return None;
    }
    let mut value: usize = 0;
    let mut i: usize = start;
    while i < s.len()
        invariant
            start <= i <= s@.len(),
            s@.len() == s.len(),
            d =~= s@.skip(start as int),
            d == (if s@.len() > 0 && s@[0] == '+' {
                s@.drop_first()
            } else {
                s@
            }),
            s@ == text@,
            forall|m: int| 0 <= m < i - start ==> '0' <= #[trigger] d[m] && d[m] <= '9',
            value == digits_value(d.take(i - start)),
        decreases s@.len() - i,
    {
        let c = s[i];
        assert(d[i - start] == c);
        if c < '0' || c > '9' {
            assert(!all_digits(d)) by {
                if all_digits(d) {
                    assert('0' <= d[i - start] && d[i - start] <= '9');
                }
            }
            return None;
        }
        assert(d.take(i - start + 1).drop_last() =~= d.take(i - start));
        let digit = (c as u32 - '0' as u32) as usize;
        let next = match value.checked_mul(10) {
            Some(v) => v.checked_add(digit),
            None => None,
        };
        match next {
            Some(v) => {
                value = v;
            },
            None => {
                proof {
                    let n = i - start + 1;
                    assert(d.take(n).last() == c);
                    assert(digits_value(d.take(n)) == value * 10 + (c as int - '0' as int));
                    assert(digits_value(d.take(n)) > usize::MAX);
                    if all_digits(d) {
                        lemma_digits_prefix(d, n);
                        assert(digits_value(d) > usize::MAX);
                    }
                    assert(parse_usize(s@) is None);
                }
                return None;
            },
        }
        i = i + 1;
    }
    assert(d.take(i - start) =~= d);
    Some(value)
}

// ---------------------------------------------------------------------------
// Lists written as one setting and read back
// ---------------------------------------------------------------------------

/// Splitting a text without the separator gives the text itself.
proof fn lemma_split_plain(t: Seq<char>, c: char)
    requires
        !t.contains(c),
    ensures
        split(t, c) == seq![t],
    decreases t.len(),
{
    if t.len() > 0 {
        let init = t.drop_last();
        assert(!init.contains(c)) by {
            if init.contains(c) {
                let k = choose|k: int| 0 <= k < init.len() && init[k] == c;
                assert(t[k] == c);
            }
        }
        lemma_split_plain(init, c);
        assert(t.last() == t[t.len() - 1]);
        assert(t.last() != c);
        assert(init.push(t.last()) =~= t);
        assert(split(t, c) =~= seq![init].update(0, init.push(t.last())));
    } else {
        assert(t =~= Seq::<char>::empty());
    }
}

/// A separator followed by a text without it adds that text as the last piece.
proof fn lemma_split_after(s: Seq<char>, c: char, t: Seq<char>)
    requires
        !t.contains(c),
    ensures
        split(s + seq![c] + t, c) == split(s, c).push(t),
    decreases t.len(),
{
    let u = s + seq![c] + t;
    if t.len() == 0 {
        assert(u =~= s.push(c));
        assert(u.drop_last() =~= s);
        assert(u.last() == c);
        assert(t =~= Seq::<char>::empty());
    } else {
        let init = t.drop_last();
        assert(!init.contains(c)) by {
            if init.contains(c) {
                let k = choose|k: int| 0 <= k < init.len() && init[k] == c;
                assert(t[k] == c);
            }
        }
        lemma_split_after(s, c, init);
        assert(u.drop_last() =~= s + seq![c] + init);
        assert(u.last() == t[t.len() - 1]);
        lemma_split_nonempty(s + seq![c] + init, c);
        assert(t.last() == t[t.len() - 1]);
        assert(t.last() != c);
        assert(init.push(t.last()) =~= t);
        let before = split(s, c).push(init);
        assert(split(u, c) == before.update(before.len() - 1, before.last().push(t.last())));
        assert(before.update(before.len() - 1, before.last().push(t.last())) =~= split(s, c).push(t));
    }
}

/// Leading whitespace does not change what `trim` leaves.
proof fn lemma_trim_after_ws(w: Seq<char>, x: Seq<char>)
    requires
        forall|i: int| 0 <= i < w.len() ==> is_ws(#[trigger] w[i]),
    ensures
        trim(w + x) == trim(x),
{
    let s = w + x;
    let wl = w.len() as int;
    lemma_skip_shift(w, x, wl);
    lemma_skip_from_ws(w, x, 0);
    let a = skip_ws(s, 0);
    let b = skip_ws(x, 0);
    assert(a == wl + b);
    lemma_skip_ws_bounds(x, 0);
    lemma_back_shift(w, x, a, s.len() as int);
    lemma_back_ws_bounds(x, b, x.len() as int);
    assert(s.subrange(a, back_ws(s, a, s.len() as int)) =~= x.subrange(b, back_ws(x, b, x.len() as int)));
}

proof fn lemma_skip_from_ws(w: Seq<char>, x: Seq<char>, i: int)
    requires
        forall|k: int| 0 <= k < w.len() ==> is_ws(#[trigger] w[k]),
        0 <= i <= w.len(),
    ensures
        skip_ws(w + x, i) == skip_ws(w + x, w.len() as int),
    decreases w.len() - i,
{
    if i < w.len() {
        assert((w + x)[i] == w[i]);
        lemma_skip_from_ws(w, x, i + 1);
    }
}

proof fn lemma_skip_shift(w: Seq<char>, x: Seq<char>, i: int)
    requires
        w.len() <= i <= w.len() + x.len(),
    ensures
        skip_ws(w + x, i) == w.len() + skip_ws(x, i - w.len()),
    decreases w.len() + x.len() - i,
{
    if i < w.len() + x.len() {
        assert((w + x)[i] == x[i - w.len()]);
        lemma_skip_shift(w, x, i + 1);
    }
}

proof fn lemma_back_shift(w: Seq<char>, x: Seq<char>, lo: int, j: int)
    requires
        w.len() <= lo <= j <= w.len() + x.len(),
    ensures
        back_ws(w + x, lo, j) == w.len() + back_ws(x, lo - w.len(), j - w.len()),
    decreases j,
{
    if lo < j {
        assert((w + x)[j - 1] == x[j - 1 - w.len()]);
        lemma_back_shift(w, x, lo, j - 1);
    }
}

/// `trim` leaves a trimmed text as it is.
pub proof fn lemma_trim_idempotent(s: Seq<char>)
    ensures
        trim(trim(s)) == trim(s),
{
    let t = trim(s);
    lemma_trim(s);
    if t.len() > 0 {
        assert(skip_ws(t, 0) == 0);
        assert(back_ws(t, 0, t.len() as int) == t.len());
        assert(t.subrange(0, t.len() as int) =~= t);
    } else {
        assert(t.subrange(0, 0) =~= t);
    }
}

/// The pieces `split` gives for a list joined with `,` followed by `w`.
pub open spec fn joined_pieces(items: Seq<Seq<char>>, w: Seq<char>) -> Seq<Seq<char>>
    decreases items.len(),
{
    if items.len() <= 1 {
        items
    } else {
        joined_pieces(items.drop_last(), w).push(w + items.last())
    }
}

proof fn lemma_split_join(items: Seq<Seq<char>>, w: Seq<char>)
    requires
        items.len() >= 1,
        !w.contains(','),
        forall|i: int| 0 <= i < items.len() ==> !(#[trigger] items[i]).contains(','),
    ensures
        split(join(items, seq![','] + w), ',') == joined_pieces(items, w),
    decreases items.len(),
{
    if items.len() == 1 {
        lemma_split_plain(items[0], ',');
    } else {
        let init = items.drop_last();
        assert forall|i: int| 0 <= i < init.len() implies !(#[trigger] init[i]).contains(',') by {
            assert(init[i] == items[i]);
        }
        lemma_split_join(init, w);
        let last = items.last();
        assert(!last.contains(',')) by {
            assert(last == items[items.len() - 1]);
        }
        assert(!(w + last).contains(',')) by {
            if (w + last).contains(',') {
                let k = choose|k: int| 0 <= k < (w + last).len() && (w + last)[k] == ',';
                if k < w.len() {
                    assert(w[k] == ',');
                } else {
                    assert(last[k - w.len()] == ',');
                }
            }
        }
        let j = join(init, seq![','] + w);
        assert(join(items, seq![','] + w) =~= j + seq![','] + (w + last));
        lemma_split_after(j, ',', w + last);
    }
}

proof fn lemma_trimmed_pieces(items: Seq<Seq<char>>, w: Seq<char>)
    requires
        forall|i: int| 0 <= i < w.len() ==> is_ws(#[trigger] w[i]),
    ensures
        trimmed_nonempty(joined_pieces(items, w)) == trimmed_nonempty(items),
    decreases items.len(),
{
    if items.len() > 1 {
        lemma_trimmed_pieces(items.drop_last(), w);
        lemma_trim_after_ws(w, items.last());
        let p = joined_pieces(items, w);
        assert(p.drop_last() =~= joined_pieces(items.drop_last(), w));
    }
}

/// Trimmed, non-blank items are left as they are by [`trimmed_nonempty`].
proof fn lemma_trimmed_nonempty_fixed(items: Seq<Seq<char>>)
    requires
        forall|i: int| 0 <= i < items.len() ==> trim(#[trigger] items[i]) == items[i] && items[i].len() > 0,
    ensures
        trimmed_nonempty(items) == items,
    decreases items.len(),
{
    if items.len() > 0 {
        let init = items.drop_last();
        assert forall|i: int| 0 <= i < init.len() implies trim(#[trigger] init[i]) == init[i]
            && init[i].len() > 0 by {
            assert(init[i] == items[i]);
        }
        lemma_trimmed_nonempty_fixed(init);
        assert(items.last() == items[items.len() - 1]);
        assert(init.push(items.last()) =~= items);
    }
}

/// The items of [`trimmed_nonempty`] are trimmed and non-blank, and hold
/// only characters of the items they came from.
proof fn lemma_trimmed_nonempty_items(items: Seq<Seq<char>>)
    ensures
        forall|i: int|
            0 <= i < trimmed_nonempty(items).len() ==> trim(#[trigger] trimmed_nonempty(items)[i])
                == trimmed_nonempty(items)[i] && trimmed_nonempty(items)[i].len() > 0,
        forall|i: int, c: char|
            0 <= i < trimmed_nonempty(items).len() && #[trigger] trimmed_nonempty(items)[i].contains(c)
                ==> exists|j: int| 0 <= j < items.len() && #[trigger] items[j].contains(c),
    decreases items.len(),
{
    if items.len() > 0 {
        let init = items.drop_last();
        lemma_trimmed_nonempty_items(init);
        lemma_trim_idempotent(items.last());
        lemma_trim(items.last());
        let t = trimmed_nonempty(items);
        assert forall|i: int, c: char|
            0 <= i < t.len() && #[trigger] t[i].contains(c) implies exists|j: int|
            0 <= j < items.len() && #[trigger] items[j].contains(c) by {
            if i < trimmed_nonempty(init).len() {
                assert(t[i] == trimmed_nonempty(init)[i]);
                let j = choose|j: int| 0 <= j < init.len() && #[trigger] init[j].contains(c);
                assert(items[j] == init[j]);
            } else {
                assert(t[i] == trim(items.last()));
                assert(items.last().contains(c));
                assert(items[items.len() - 1] == items.last());
                assert(items[items.len() - 1].contains(c));
            }
        }
    }
}

/// A list saved as one comma-separated setting reads back as its trimmed,
/// non-blank items, whether joined by `,` or by `, `, as long as no item
/// holds a comma.
pub proof fn law_list_setting_roundtrip(list: Seq<Seq<char>>, sep: Seq<char>)
    requires
        sep == seq![','] || sep == seq![',', ' '],
        forall|i: int| 0 <= i < list.len() ==> !(#[trigger] list[i]).contains(','),
    ensures
        list_items(join(list, sep)) == trimmed_nonempty(list),
{
    let w = sep.drop_first();
    assert(sep =~= seq![','] + w);
    assert(!w.contains(',')) by {
        if w.contains(',') {
            let k = choose|k: int| 0 <= k < w.len() && w[k] == ',';
            assert(w[k] == ' ');
        }
    }
    assert forall|i: int| 0 <= i < w.len() implies is_ws(#[trigger] w[i]) by {
        assert(w[i] == ' ');
    }
    if list.len() == 0 {
        assert(join(list, sep) =~= Seq::<char>::empty());
        assert(split(Seq::<char>::empty(), ',') =~= seq![Seq::<char>::empty()]);
        assert(trimmed_nonempty(seq![Seq::<char>::empty()]) =~= Seq::<Seq<char>>::empty()) by {
            let one = seq![Seq::<char>::empty()];
            assert(one.drop_last() =~= Seq::<Seq<char>>::empty());
            assert(one.last() == Seq::<char>::empty());
            assert(skip_ws(Seq::<char>::empty(), 0) == 0);
            assert(back_ws(Seq::<char>::empty(), 0, 0) == 0);
            assert(trim(Seq::<char>::empty()) =~= Seq::<char>::empty());
            assert(trimmed_nonempty(one.drop_last()) =~= Seq::<Seq<char>>::empty());
        }
        assert(trimmed_nonempty(list) =~= Seq::<Seq<char>>::empty());
    } else {
        lemma_split_join(list, w);
        lemma_trimmed_pieces(list, w);
    }
}

/// Cleaning a list twice is cleaning it once, and the cleaned items hold no
/// character the uncleaned items lacked.
pub proof fn lemma_trimmed_nonempty_twice(list: Seq<Seq<char>>)
    ensures
        trimmed_nonempty(trimmed_nonempty(list)) == trimmed_nonempty(list),
        forall|i: int, c: char|
            0 <= i < trimmed_nonempty(list).len() && #[trigger] trimmed_nonempty(list)[i].contains(c)
                ==> exists|j: int| 0 <= j < list.len() && #[trigger] list[j].contains(c),
{
    lemma_trimmed_nonempty_items(list);
    lemma_trimmed_nonempty_fixed(trimmed_nonempty(list));
}

} // verus!
