//! Fiverr gig search results.
//!
//! A search page embeds its server-rendered payload in a `__NEXT_DATA__`
//! script tag; gigs are read from that payload when it is there, and from a
//! light pattern scan of the page otherwise.

use crate::scraper::replace_all;
use crate::text::{
    append_chars, append_str, back_ws, chars_equal, chars_of, find_char_from, index_from, is_alphanumeric,
    is_whitespace, join, join_chars, lowercase, matches_at, occurs_at, slice_range, string_of,
    str_equal, join_strings, list_items, owned, parse_list, trim_str, to_lowercase, trim, trim_chars, unicode_alphanumeric, utf8_byte_len,
    utf8_len, words, words_chars,
};
use crate::json::{as_text, deref_opt, either, first_found, get, json_get, json_parse, parse_json, text_of, JsonValue};
use crate::models::{BudgetParts, NewLead};
use crate::scraper::patterns::{keep_word_chars, replace_non_word, strip_tags, strip_tags_text};
use crate::scraper::upwork::opt_seq;
use vstd::prelude::*;

verus! {

broadcast use crate::views::lemma_char_vec_deep_view;

// ---------------------------------------------------------------------------
// The embedded payload
// ---------------------------------------------------------------------------

/// The first position at or after `i` where `needle` occurs in `hay`.
pub open spec fn find_from(hay: Seq<char>, needle: Seq<char>, i: int) -> Option<int>
    decreases hay.len() - i,
{
    if i < 0 || i + needle.len() > hay.len() {
        None
    } else if occurs_at(hay, needle, i) {
        Some(i)
    } else {
        proof {
            if needle.len() == 0 {
                assert(hay.subrange(i, i) =~= needle);
            }
        }
        find_from(hay, needle, i + 1)
    }
}

/// The last position holding `c`.
pub open spec fn last_index(s: Seq<char>, c: char) -> Option<int>
    decreases s.len(),
{
    if s.len() == 0 {
        None
    } else if s.last() == c {
        Some(s.len() - 1)
    } else {
        last_index(s.drop_last(), c)
    }
}

/// `str::trim_end`: `s` without its trailing whitespace.
pub open spec fn trim_end(s: Seq<char>) -> Seq<char> {
    s.take(back_ws(s, 0, s.len() as int))
}

/// The JSON text of the `__NEXT_DATA__` script: from the first `{` after the
/// marker up to the `</script>` that follows, trailing whitespace dropped and
/// cut after its last `}`.
pub open spec fn next_data_blob(s: Seq<char>) -> Option<Seq<char>> {
    match find_from(s, "__NEXT_DATA__"@, 0) {
        None => None,
        Some(idx) => {
            let start = index_from(s, '{', idx);
            if start >= s.len() {
                None
            } else {
                match find_from(s, "</script>"@, start) {
                    None => None,
                    Some(end) => {
                        let t = trim_end(s.subrange(start, end));
                        if t.len() == 0 {
                            None
                        } else {
                            match last_index(t, '}') {
                                None => None,
                                Some(close) => Some(t.take(close + 1)),
                            }
                        }
                    },
                }
            }
        },
    }
}

/// Exec form of [`find_from`].
fn find_seq_from(hay: &[char], needle: &[char], i: usize) -> (r: Option<usize>)
    ensures
        r matches Some(k) ==> find_from(hay@, needle@, i as int) == Some(k as int),
        r is None ==> find_from(hay@, needle@, i as int) is None,
        r matches Some(k) ==> i <= k && k + needle@.len() <= hay@.len(),
{
    let mut k = i;
    while needle.len() <= hay.len() && k <= hay.len() - needle.len()
        invariant
            i <= k,
            hay@.len() == hay.len(),
            find_from(hay@, needle@, k as int) == find_from(hay@, needle@, i as int),
        decreases hay@.len() + 1 - k,
    {
        if matches_at(hay, needle, k) {
            return Some(k);
        }
        if needle.len() == 0 {
            assert(hay@.subrange(k as int, k as int) =~= needle@);
        }
        k = k + 1;
    }
    None
}

/// Exec form of [`last_index`].
fn last_index_of(s: &[char], c: char) -> (r: Option<usize>)
    ensures
        r matches Some(k) ==> last_index(s@, c) == Some(k as int) && k < s@.len(),
        r is None ==> last_index(s@, c) is None,
{
    let mut j = s.len();
    assert(s@.take(j as int) =~= s@);
    while j > 0
        invariant
            j <= s@.len(),
            s@.len() == s.len(),
            last_index(s@, c) == last_index(s@.take(j as int), c),
        decreases j,
    {
        assert(s@.take(j as int).drop_last() =~= s@.take(j - 1));
        if s[j - 1] == c {
            return Some(j - 1);
        }
        j = j - 1;
    }
    None
}

/// Exec form of [`trim_end`].
fn trim_end_chars(s: &[char]) -> (r: Vec<char>)
    ensures
        r@ == trim_end(s@),
{
    let mut j = s.len();
    while j > 0 && is_whitespace(s[j - 1])
        invariant
            j <= s@.len(),
            s@.len() == s.len(),
            back_ws(s@, 0, j as int) == back_ws(s@, 0, s@.len() as int),
        decreases j,
    {
        j = j - 1;
    }
    slice_range(s, 0, j)
}

/// Pulls the raw JSON out of the page's `__NEXT_DATA__` script tag.
pub fn extract_next_data(body: &str) -> (r: Option<String>)
    ensures
        opt_seq(r) == next_data_blob(body@),
{
    let s = chars_of(body);
    let marker = chars_of("__NEXT_DATA__");
    let idx = match find_seq_from(&s, &marker, 0) {
        Some(k) => k,
        None => return None,
    };
    let start = find_char_from(&s, '{', idx);
    if start >= s.len() {
        return None;
    }
    let end_tag = chars_of("</script>");
    let end = match find_seq_from(&s, &end_tag, start) {
        Some(k) => k,
        None => return None,
    };
    let slice = slice_range(&s, start, end);
    let t = trim_end_chars(&slice);
    if t.len() == 0 {
        return None;
    }
    let close = match last_index_of(&t, '}') {
        Some(k) => k,
        None => return None,
    };
    let json = slice_range(&t, 0, close + 1);
    assert(json@ == t@.take(close + 1));
    Some(string_of(&json))
}

// ---------------------------------------------------------------------------
// Gig links
// ---------------------------------------------------------------------------

/// The position after the run of `c` that starts at `i`.
pub open spec fn skip_char(s: Seq<char>, c: char, i: int) -> int
    decreases s.len() - i,
{
    if 0 <= i < s.len() && s[i] == c {
        skip_char(s, c, i + 1)
    } else {
        i
    }
}

/// `str::trim_start_matches(c)`.
pub open spec fn strip_leading(s: Seq<char>, c: char) -> Seq<char> {
    s.skip(skip_char(s, c, 0))
}

/// The first position at or after `i` holding `?` or `#` (or the length).
pub open spec fn query_start(s: Seq<char>, i: int) -> int
    decreases s.len() - i,
{
    if i < 0 || i >= s.len() {
        s.len() as int
    } else if s[i] == '?' || s[i] == '#' {
        i
    } else {
        query_start(s, i + 1)
    }
}

/// A gig path: leading `/` dropped, cut before any `?` or `#`.
pub open spec fn path_part(s: Seq<char>) -> Seq<char> {
    let t = strip_leading(s, '/');
    t.take(query_start(t, 0))
}

/// Every character is alphanumeric.
pub open spec fn all_alnum(w: Seq<char>) -> bool {
    forall|i: int| 0 <= i < w.len() ==> unicode_alphanumeric(#[trigger] w[i])
}

/// The words made only of alphanumeric characters, in order.
pub open spec fn alnum_words(ws: Seq<Seq<char>>) -> Seq<Seq<char>>
    decreases ws.len(),
{
    if ws.len() == 0 {
        ws
    } else {
        let init = alnum_words(ws.drop_last());
        if all_alnum(ws.last()) {
            init.push(ws.last())
        } else {
            init
        }
    }
}

/// The search slug made from a title: its first six alphanumeric words,
/// joined by `-` and lower-cased.
pub open spec fn title_slug(title: Seq<char>) -> Seq<char> {
    let ws = alnum_words(words(title));
    lowercase(join(ws.take(vstd::math::min(6, ws.len() as int)), "-"@))
}

/// The link for a gig: seller and path when both are known (the path alone
/// when the seller is blank), a seller-qualified path alone, else a search
/// link keyed on the title (empty when the title gives no slug).
pub open spec fn gig_url(user: Option<Seq<char>>, slug: Option<Seq<char>>, title: Seq<char>) -> Seq<
    char,
> {
    let site = "https://www.fiverr.com/"@;
    if user is Some && slug is Some {
        let u = strip_leading(trim(user->0), '@');
        let p = trim(path_part(slug->0));
        if u.len() == 0 {
            site + p
        } else {
            site + u + "/"@ + p
        }
    } else if slug is Some && path_part(slug->0).contains('/') {
        site + path_part(slug->0)
    } else {
        let t = title_slug(title);
        if t.len() == 0 {
            Seq::<char>::empty()
        } else {
            "https://www.fiverr.com/q/"@ + replace_all(t, " "@, "-"@) + "/"@ + t
        }
    }
}

fn strip_leading_chars(s: &[char], c: char) -> (r: Vec<char>)
    ensures
        r@ == strip_leading(s@, c),
{
    let mut i: usize = 0;
    while i < s.len() && s[i] == c
        invariant
            i <= s@.len(),
            s@.len() == s.len(),
            skip_char(s@, c, i as int) == skip_char(s@, c, 0),
        decreases s@.len() - i,
    {
        i = i + 1;
    }
    let r = slice_range(s, i, s.len());
    assert(r@ =~= s@.skip(i as int));
    r
}

fn path_part_chars(s: &[char]) -> (r: Vec<char>)
    ensures
        r@ == path_part(s@),
{
    let t = strip_leading_chars(s, '/');
    let mut i: usize = 0;
    while i < t.len() && t[i] != '?' && t[i] != '#'
        invariant
            i <= t@.len(),
            t@.len() == t.len(),
            query_start(t@, i as int) == query_start(t@, 0),
        decreases t@.len() - i,
    {
        i = i + 1;
    }
    let r = slice_range(&t, 0, i);
    assert(r@ =~= t@.take(i as int));
    r
}

fn is_alnum_word(w: &[char]) -> (r: bool)
    ensures
        r == all_alnum(w@),
{
    let mut i: usize = 0;
    while i < w.len()
        invariant
            i <= w@.len(),
            w@.len() == w.len(),
            forall|k: int| 0 <= k < i ==> unicode_alphanumeric(#[trigger] w@[k]),
        decreases w@.len() - i,
    {
        if !is_alphanumeric(w[i]) {
            return false;
        }
        i = i + 1;
    }
    true
}

fn title_slug_chars(title: &str) -> (r: Vec<char>)
    ensures
        r@ == title_slug(title@),
{
    let tc = chars_of(title);
    let ws = words_chars(&tc);
    let mut kept: Vec<Vec<char>> = Vec::new();
    let mut i: usize = 0;
    while i < ws.len()
        invariant
            i <= ws@.len(),
            ws.deep_view() == words(title@),
            kept.deep_view() == alnum_words(ws.deep_view().take(i as int)),
        decreases ws@.len() - i,
    {
        let ghost wv = ws.deep_view();
        assert(wv.take(i + 1).drop_last() =~= wv.take(i as int));
        assert(wv.take(i + 1).last() == ws@[i as int]@);
        if is_alnum_word(&ws[i]) {
            let ghost prev = kept.deep_view();
            let w = slice_range(&ws[i], 0, ws[i].len());
            assert(w@ =~= ws@[i as int]@);
            kept.push(w);
            assert(kept.deep_view() =~= prev.push(ws@[i as int]@));
        }
        i = i + 1;
    }
    assert(ws.deep_view().take(i as int) =~= ws.deep_view());
    let n = if kept.len() < 6 {
        kept.len()
    } else {
        6
    };
    let mut first: Vec<Vec<char>> = Vec::new();
    let mut k: usize = 0;
    while k < n
        invariant
            k <= n <= kept@.len(),
            first.deep_view() == kept.deep_view().take(k as int),
        decreases n - k,
    {
        let ghost prev = first.deep_view();
        let w = slice_range(&kept[k], 0, kept[k].len());
        assert(w@ =~= kept@[k as int]@);
        first.push(w);
        assert(first.deep_view() =~= prev.push(kept@[k as int]@));
        k = k + 1;
        assert(first.deep_view() =~= kept.deep_view().take(k as int));
    }
    let dash = chars_of("-");
    let joined = join_chars(&first, &dash);
    let s = string_of(&joined);
    let low = to_lowercase(s.as_str());
    chars_of(low.as_str())
}

/// The link for a gig (see [`gig_url`]).
pub fn build_gig_url(username: Option<&str>, slug: Option<&str>, title: &str) -> (r: String)
    ensures
        r@ == gig_url(
            match username {
                Some(u) => Some(u@),
                None => None,
            },
            match slug {
                Some(s) => Some(s@),
                None => None,
            },
            title@,
        ),
{
    let mut out = chars_of("https://www.fiverr.com/");
    if let (Some(u), Some(s)) = (username, slug) {
        let uc = chars_of(u);
        let ut = trim_chars(&uc);
        let user = strip_leading_chars(&ut, '@');
        let sc = chars_of(s);
        let p = path_part_chars(&sc);
        let path = trim_chars(&p);
        if user.len() == 0 {
            append_chars(&mut out, &path);
        } else {
            append_chars(&mut out, &user);
            append_str(&mut out, "/");
            append_chars(&mut out, &path);
        }
        return string_of(&out);
    }
    if let Some(s) = slug {
        let sc = chars_of(s);
        let p = path_part_chars(&sc);
        if find_char_from(&p, '/', 0) < p.len() {
            proof {
                crate::text::lemma_index_from(p@, '/', 0);
                assert(p@[index_from(p@, '/', 0)] == '/');
            }
            append_chars(&mut out, &p);
            return string_of(&out);
        }
        proof {
            crate::text::lemma_index_from(p@, '/', 0);
        }
    }
    let t = title_slug_chars(title);
    if t.len() == 0 {
        return String::new();
    }
    let mut link = chars_of("https://www.fiverr.com/q/");
    let space = chars_of(" ");
    let dash = chars_of("-");
    proof {
        reveal_strlit(" ");
    }
    let dashed = crate::scraper::replace_chars(&t, &space, &dash);
    append_chars(&mut link, &dashed);
    append_str(&mut link, "/");
    append_chars(&mut link, &t);
    string_of(&link)
}

// ---------------------------------------------------------------------------
// Tags
// ---------------------------------------------------------------------------

/// A title word worth keeping as a tag: longer than two bytes and not "iwill"
/// in any case.
pub open spec fn keeps_title_word(w: Seq<char>) -> bool {
    utf8_len(w) > 2 && lowercase(w) != "iwill"@
}

/// The title words worth keeping, in order.
pub open spec fn title_words(ws: Seq<Seq<char>>) -> Seq<Seq<char>>
    decreases ws.len(),
{
    if ws.len() == 0 {
        ws
    } else {
        let init = title_words(ws.drop_last());
        if keeps_title_word(ws.last()) {
            init.push(ws.last())
        } else {
            init
        }
    }
}

/// Up to four tags taken from the title (punctuation read as spaces).
pub open spec fn title_tags(title: Seq<char>) -> Seq<Seq<char>> {
    let ws = title_words(words(keep_word_chars(title)));
    ws.take(vstd::math::min(4, ws.len() as int))
}

/// The tags whose lower-cased form has not been seen earlier in the list.
pub open spec fn first_by_lower(list: Seq<Seq<char>>) -> Seq<Seq<char>>
    decreases list.len(),
{
    if list.len() == 0 {
        list
    } else {
        let init = first_by_lower(list.drop_last());
        if exists|j: int| 0 <= j < list.len() - 1 && lowercase(list[j]) == lowercase(list.last()) {
            init
        } else {
            init.push(list.last())
        }
    }
}

/// The technologies text of a gig: its own tags (else tags from the title),
/// repeats dropped ignoring case, at most six, joined by ", "; `None` when
/// there are none.
pub open spec fn tags_text(tags: Seq<Seq<char>>, title: Seq<char>) -> Option<Seq<char>> {
    let t = if tags.len() > 0 {
        tags
    } else {
        title_tags(title)
    };
    if t.len() == 0 {
        None
    } else {
        let d = first_by_lower(t);
        Some(join(d.take(vstd::math::min(6, d.len() as int)), ", "@))
    }
}

fn title_tag_list(title: &str) -> (r: Vec<String>)
    ensures
        r.deep_view() == title_tags(title@),
{
    let cleaned = replace_non_word(title);
    let cs = chars_of(cleaned.as_str());
    let ws = words_chars(&cs);
    let mut out: Vec<String> = Vec::new();
    let mut all: Vec<Vec<char>> = Vec::new();
    let mut i: usize = 0;
    while i < ws.len()
        invariant
            i <= ws@.len(),
            ws.deep_view() == words(keep_word_chars(title@)),
            all.deep_view() == title_words(ws.deep_view().take(i as int)),
        decreases ws@.len() - i,
    {
        let ghost wv = ws.deep_view();
        assert(wv.take(i + 1).drop_last() =~= wv.take(i as int));
        assert(wv.take(i + 1).last() == ws@[i as int]@);
        let w = string_of(&ws[i]);
        let low = to_lowercase(w.as_str());
        if utf8_byte_len(&ws[i]) > 2 && !str_equal(low.as_str(), "iwill") {
            let ghost prev = all.deep_view();
            let c = chars_of(w.as_str());
            all.push(c);
            assert(all.deep_view() =~= prev.push(ws@[i as int]@));
        }
        i = i + 1;
    }
    assert(ws.deep_view().take(i as int) =~= ws.deep_view());
    let n = if all.len() < 4 {
        all.len()
    } else {
        4
    };
    let mut k: usize = 0;
    while k < n
        invariant
            k <= n <= all@.len(),
            out.deep_view() == all.deep_view().take(k as int),
        decreases n - k,
    {
        let ghost prev = out.deep_view();
        out.push(string_of(&all[k]));
        assert(out.deep_view() =~= prev.push(all@[k as int]@));
        k = k + 1;
        assert(out.deep_view() =~= all.deep_view().take(k as int));
    }
    out
}

fn dedupe_lower(list: &Vec<String>) -> (r: Vec<String>)
    ensures
        r.deep_view() == first_by_lower(list.deep_view()),
{
    let mut kept: Vec<String> = Vec::new();
    let mut seen: Vec<Vec<char>> = Vec::new();
    let mut i: usize = 0;
    while i < list.len()
        invariant
            i <= list@.len(),
            kept.deep_view() == first_by_lower(list.deep_view().take(i as int)),
            seen@.len() == i,
            forall|j: int| 0 <= j < i ==> #[trigger] seen@[j]@ == lowercase(list@[j]@),
        decreases list@.len() - i,
    {
        let ghost lv = list.deep_view();
        let ghost pre = lv.take(i + 1);
        assert(pre.drop_last() =~= lv.take(i as int));
        assert(pre.last() == list@[i as int]@);
        let low = to_lowercase(list[i].as_str());
        let key = chars_of(low.as_str());
        let mut found = false;
        let mut j: usize = 0;
        while j < seen.len()
            invariant
                j <= seen@.len(),
                seen@.len() == i,
                i < list@.len(),
                found <==> exists|m: int| 0 <= m < j && seen@[m]@ == key@,
            decreases seen@.len() - j,
        {
            if chars_equal(&seen[j], &key) {
                found = true;
            }
            j = j + 1;
        }
        proof {
            assert(found <==> exists|m: int|
                0 <= m < pre.len() - 1 && lowercase(pre[m]) == lowercase(pre.last())) by {
                if found {
                    let m = choose|m: int| 0 <= m < j && seen@[m]@ == key@;
                    assert(pre[m] == list@[m]@);
                }
                if exists|m: int| 0 <= m < pre.len() - 1 && lowercase(pre[m]) == lowercase(pre.last()) {
                    let m = choose|m: int|
                        0 <= m < pre.len() - 1 && lowercase(pre[m]) == lowercase(pre.last());
                    assert(pre[m] == list@[m]@);
                    assert(seen@[m]@ == key@);
                }
            }
        }
        if !found {
            let ghost prev = kept.deep_view();
            kept.push(list[i].clone());
            assert(kept.deep_view() =~= prev.push(list@[i as int]@));
        }
        seen.push(key);
        i = i + 1;
    }
    assert(list.deep_view().take(i as int) =~= list.deep_view());
    kept
}

/// The technologies text for a gig (see [`tags_text`]).
pub fn gig_tags_text(tags: &Vec<String>, title: &str) -> (r: Option<String>)
    ensures
        opt_seq(r) == tags_text(tags.deep_view(), title@),
{
    let t = if tags.len() > 0 {
        let mut c: Vec<String> = Vec::new();
        let mut i: usize = 0;
        while i < tags.len()
            invariant
                i <= tags@.len(),
                c.deep_view() == tags.deep_view().take(i as int),
            decreases tags@.len() - i,
        {
            let ghost prev = c.deep_view();
            c.push(tags[i].clone());
            assert(c.deep_view() =~= prev.push(tags@[i as int]@));
            i = i + 1;
            assert(c.deep_view() =~= tags.deep_view().take(i as int));
        }
        assert(tags.deep_view().take(i as int) =~= tags.deep_view());
        c
    } else {
        title_tag_list(title)
    };
    if t.len() == 0 {
        return None;
    }
    let d = dedupe_lower(&t);
    let n = if d.len() < 6 {
        d.len()
    } else {
        6
    };
    let mut first: Vec<String> = Vec::new();
    let mut k: usize = 0;
    while k < n
        invariant
            k <= n <= d@.len(),
            first.deep_view() == d.deep_view().take(k as int),
        decreases n - k,
    {
        let ghost prev = first.deep_view();
        first.push(d[k].clone());
        assert(first.deep_view() =~= prev.push(d@[k as int]@));
        k = k + 1;
        assert(first.deep_view() =~= d.deep_view().take(k as int));
    }
    Some(join_strings(&first, ", "))
}

/// The technologies text of a pattern-scanned gig: its title's first four
/// words (punctuation read as spaces) joined by ", ".
pub open spec fn title_keywords(title: Seq<char>) -> Seq<char> {
    let ws = words(keep_word_chars(title));
    join(ws.take(vstd::math::min(4, ws.len() as int)), ", "@)
}

/// Builds the technologies text of a pattern-scanned gig (see [`title_keywords`]).
pub fn keyword_clean(title: &str) -> (r: String)
    ensures
        r@ == title_keywords(title@),
{
    let cleaned = replace_non_word(title);
    let cs = chars_of(cleaned.as_str());
    let ws = words_chars(&cs);
    let n = if ws.len() < 4 {
        ws.len()
    } else {
        4
    };
    let mut first: Vec<Vec<char>> = Vec::new();
    let mut k: usize = 0;
    while k < n
        invariant
            k <= n <= ws@.len(),
            first.deep_view() == ws.deep_view().take(k as int),
        decreases n - k,
    {
        let ghost prev = first.deep_view();
        let w = slice_range(&ws[k], 0, ws[k].len());
        assert(w@ =~= ws@[k as int]@);
        first.push(w);
        assert(first.deep_view() =~= prev.push(ws@[k as int]@));
        k = k + 1;
        assert(first.deep_view() =~= ws.deep_view().take(k as int));
    }
    let sep = chars_of(", ");
    let joined = join_chars(&first, &sep);
    string_of(&joined)
}

// ---------------------------------------------------------------------------
// Gigs in the payload
// ---------------------------------------------------------------------------

/// Where a gig's starting price came from: a JSON number (by its text), a
/// JSON string, or another kind of value.
pub enum PriceSource {
    Number(String),
    Text(String),
    Other,
}

/// The fields of a gig the lead is built from.
pub struct GigFields {
    pub title: Option<String>,
    pub username: Option<String>,
    pub slug: Option<String>,
    pub description: Option<String>,
    pub tags: Vec<String>,
    pub price: Option<PriceSource>,
}

/// A price source as plain values: kind (number, string, other) and text.
pub type PriceView = (int, Seq<char>);

/// Gig fields as plain values: title, seller name, path, description, tags
/// and price source.
pub type GigView = (
    Option<Seq<char>>,
    Option<Seq<char>>,
    Option<Seq<char>>,
    Option<Seq<char>>,
    Seq<Seq<char>>,
    Option<PriceView>,
);

pub open spec fn price_view(p: PriceSource) -> PriceView {
    match p {
        PriceSource::Number(s) => (0, s@),
        PriceSource::Text(s) => (1, s@),
        PriceSource::Other => (2, Seq::<char>::empty()),
    }
}

pub open spec fn gig_view(f: GigFields) -> GigView {
    (
        opt_seq(f.title),
        opt_seq(f.username),
        opt_seq(f.slug),
        opt_seq(f.description),
        f.tags.deep_view(),
        match f.price {
            Some(p) => Some(price_view(p)),
            None => None,
        },
    )
}

pub open spec fn gig_views(gs: Seq<GigFields>) -> Seq<GigView> {
    gs.map_values(|f: GigFields| gig_view(f))
}

/// The price source of a JSON value.
pub open spec fn price_of_value(v: JsonValue) -> PriceView {
    match v {
        JsonValue::Number(s, _) => (0, s@),
        JsonValue::Text(s) => (1, s@),
        _ => (2, Seq::<char>::empty()),
    }
}

/// The `price` of the gig's first package.
pub open spec fn package_price(g: JsonValue) -> Option<JsonValue> {
    match json_get(g, "packages"@) {
        Some(JsonValue::Array(a)) => if a@.len() > 0 {
            json_get(a@[0], "price"@)
        } else {
            None
        },
        _ => None,
    }
}

/// The gig's starting price: the first of `startPrice`, `startingPrice`,
/// `priceFrom`, `price` and the first package's `price` that is present.
pub open spec fn gig_price_value(g: JsonValue) -> Option<JsonValue> {
    either(
        either(
            either(
                either(json_get(g, "startPrice"@), json_get(g, "startingPrice"@)),
                json_get(g, "priceFrom"@),
            ),
            json_get(g, "price"@),
        ),
        package_price(g),
    )
}

/// The seller's name from the `seller` object: `username`, else `userName`.
pub open spec fn seller_name(g: JsonValue) -> Option<Seq<char>> {
    match json_get(g, "seller"@) {
        Some(s) => match as_text(json_get(s, "username"@)) {
            Some(u) => Some(u),
            None => as_text(json_get(s, "userName"@)),
        },
        None => None,
    }
}

/// The gig's seller name: from `seller`, else the first of `username` and
/// `gig_username` that is present, when it is a string.
pub open spec fn gig_username(g: JsonValue) -> Option<Seq<char>> {
    match seller_name(g) {
        Some(u) => Some(u),
        None => as_text(either(json_get(g, "username"@), json_get(g, "gig_username"@))),
    }
}

/// The tag names of a `tags` array: an item's `name` when it is a string,
/// else the item itself when it is a string.
pub open spec fn tag_names(items: Seq<JsonValue>) -> Seq<Seq<char>>
    decreases items.len(),
{
    if items.len() == 0 {
        Seq::<Seq<char>>::empty()
    } else {
        let init = tag_names(items.drop_last());
        let it = items.last();
        match as_text(json_get(it, "name"@)) {
            Some(n) => init.push(n),
            None => match it {
                JsonValue::Text(s) => init.push(s@),
                _ => init,
            },
        }
    }
}

/// A gig's own tags: from a `tags` array, or the items of a comma-separated
/// `tags` string.
pub open spec fn gig_tags(g: JsonValue) -> Seq<Seq<char>> {
    match json_get(g, "tags"@) {
        Some(JsonValue::Array(a)) => tag_names(a@),
        Some(JsonValue::Text(s)) => list_items(s@),
        _ => Seq::<Seq<char>>::empty(),
    }
}

/// The fields of a gig object.
pub open spec fn gig_of(g: JsonValue) -> GigView {
    (
        as_text(either(either(json_get(g, "title"@), json_get(g, "gigTitle"@)), json_get(g, "gig_title"@))),
        gig_username(g),
        as_text(either(either(json_get(g, "slug"@), json_get(g, "gigSlug"@)), json_get(g, "url"@))),
        as_text(either(json_get(g, "description"@), json_get(g, "gigDescription"@))),
        gig_tags(g),
        match gig_price_value(g) {
            Some(v) => Some(price_of_value(v)),
            None => None,
        },
    )
}

fn tag_name_list(items: &Vec<JsonValue>) -> (r: Vec<String>)
    ensures
        r.deep_view() == tag_names(items@),
{
    let mut out: Vec<String> = Vec::new();
    let mut i: usize = 0;
    while i < items.len()
        invariant
            i <= items@.len(),
            out.deep_view() == tag_names(items@.take(i as int)),
        decreases items@.len() - i,
    {
        assert(items@.take(i + 1).drop_last() =~= items@.take(i as int));
        let it = &items[i];
        let ghost prev = out.deep_view();
        match text_of(get(it, "name")) {
            Some(n) => {
                out.push(n);
                assert(out.deep_view() =~= prev.push(out@[prev.len() as int]@));
            },
            None => match it {
                JsonValue::Text(s) => {
                    out.push(s.clone());
                    assert(out.deep_view() =~= prev.push(s@));
                },
                _ => {},
            },
        }
        i = i + 1;
    }
    assert(items@.take(i as int) =~= items@);
    out
}

fn price_source(v: Option<&JsonValue>) -> (r: Option<PriceSource>)
    ensures
        match r {
            Some(p) => deref_opt(v) matches Some(x) && price_view(p) == price_of_value(x),
            None => deref_opt(v) is None,
        },
{
    match v {
        Some(JsonValue::Number(s, _)) => Some(PriceSource::Number(s.clone())),
        Some(JsonValue::Text(s)) => Some(PriceSource::Text(s.clone())),
        Some(_) => Some(PriceSource::Other),
        None => None,
    }
}

/// Reads the fields of a gig object (see [`gig_of`]).
pub fn gig_fields(g: &JsonValue) -> (r: GigFields)
    ensures
        gig_view(r) == gig_of(*g),
{
    let title = text_of(first_found(first_found(get(g, "title"), get(g, "gigTitle")), get(g, "gig_title")));
    let from_seller = match get(g, "seller") {
        Some(s) => match text_of(get(s, "username")) {
            Some(u) => Some(u),
            None => text_of(get(s, "userName")),
        },
        None => None,
    };
    let username = match from_seller {
        Some(u) => Some(u),
        None => text_of(first_found(get(g, "username"), get(g, "gig_username"))),
    };
    let slug = text_of(first_found(first_found(get(g, "slug"), get(g, "gigSlug")), get(g, "url")));
    let description = text_of(first_found(get(g, "description"), get(g, "gigDescription")));
    let tags = match get(g, "tags") {
        Some(JsonValue::Array(a)) => tag_name_list(a),
        Some(JsonValue::Text(s)) => parse_list(s.as_str()),
        _ => Vec::new(),
    };
    let package = match get(g, "packages") {
        Some(JsonValue::Array(a)) => if a.len() > 0 {
            get(&a[0], "price")
        } else {
            None
        },
        _ => None,
    };
    let pv = first_found(
        first_found(
            first_found(first_found(get(g, "startPrice"), get(g, "startingPrice")), get(g, "priceFrom")),
            get(g, "price"),
        ),
        package,
    );
    let price = price_source(pv);
    let r = GigFields { title, username, slug, description, tags, price };
    assert(gig_view(r).4 == gig_of(*g).4);
    r
}

// ---------------------------------------------------------------------------
// Gig to lead
// ---------------------------------------------------------------------------

/// The lead description for a gig: its description with tags turned into
/// spaces and trimmed, cut to 4000 characters, unless that is blank; else a
/// fixed hint to open the link.
pub open spec fn gig_description(d: Option<Seq<char>>) -> Seq<char> {
    let hint = "Gig found on Fiverr — open the link to see full details."@;
    match d {
        Some(s) => {
            let t = strip_tags_text(s);
            let c = t.take(vstd::math::min(4000, t.len() as int));
            if trim(c).len() > 0 {
                c
            } else {
                hint
            }
        },
        None => hint,
    }
}

/// A gig gives a lead when its trimmed title is non-empty and a link can be
/// built for it.
pub open spec fn gig_kept(g: GigView) -> bool {
    &&& g.0 is Some
    &&& trim(g.0->0).len() > 0
    &&& gig_url(g.1, g.2, trim(g.0->0)).len() > 0
}

/// The lead made from a kept gig and its formatted price.
pub open spec fn gig_lead(g: GigView, p: BudgetParts, l: NewLead) -> bool {
    let title = trim(g.0->0);
    &&& l.source@ == "fiverr"@
    &&& l.title@ == title
    &&& l.description@ == gig_description(g.3)
    &&& l.url@ == gig_url(g.1, g.2, title)
    &&& opt_seq(l.budget) == opt_seq(p.budget)
    &&& l.budget_min == p.budget_min
    &&& l.budget_max == p.budget_max
    &&& l.currency matches Some(c) && c@ == "USD"@
    &&& l.location is None
    &&& opt_seq(l.technologies) == tags_text(g.4, title)
    &&& opt_seq(l.client_name) == (match g.1 {
        Some(u) => Some(replace_all(u, "_"@, " "@)),
        None => None,
    })
    &&& l.posted_date is None
}

fn copy_opt(o: &Option<String>) -> (r: Option<String>)
    ensures
        opt_seq(r) == opt_seq(*o),
{
    match o {
        Some(s) => Some(s.clone()),
        None => None,
    }
}

fn gig_description_text(d: &Option<String>) -> (r: String)
    ensures
        r@ == gig_description(opt_seq(*d)),
{
    match d {
        Some(s) => {
            let t = strip_tags(s.as_str());
            let tc = chars_of(t.as_str());
            let n = if tc.len() < 4000 {
                tc.len()
            } else {
                4000
            };
            let c = slice_range(&tc, 0, n);
            assert(c@ =~= tc@.take(n as int));
            let tr = trim_chars(&c);
            if tr.len() > 0 {
                string_of(&c)
            } else {
                owned("Gig found on Fiverr — open the link to see full details.")
            }
        },
        None => owned("Gig found on Fiverr — open the link to see full details."),
    }
}

/// Builds the lead for a gig from its fields and its formatted price; `None`
/// when the title is blank or no link can be built.
pub fn gig_to_lead(f: &GigFields, price: &BudgetParts) -> (r: Option<NewLead>)
    ensures
        gig_kept(gig_view(*f)) ==> (r matches Some(l) && gig_lead(gig_view(*f), *price, l)),
        !gig_kept(gig_view(*f)) ==> r is None,
{
    let title = match &f.title {
        Some(t) => trim_str(t.as_str()),
        None => return None,
    };
    if title.as_str().is_empty() {
        return None;
    }
    let url = build_gig_url(
        match &f.username {
            Some(u) => Some(u.as_str()),
            None => None,
        },
        match &f.slug {
            Some(s) => Some(s.as_str()),
            None => None,
        },
        title.as_str(),
    );
    if url.as_str().is_empty() {
        return None;
    }
    let technologies = gig_tags_text(&f.tags, title.as_str());
    let client_name = match &f.username {
        Some(u) => {
            let uc = chars_of(u.as_str());
            let under = chars_of("_");
            let space = chars_of(" ");
            proof {
                reveal_strlit("_");
            }
            let r = crate::scraper::replace_chars(&uc, &under, &space);
            Some(string_of(&r))
        },
        None => None,
    };
    let description = gig_description_text(&f.description);
    Some(NewLead {
        source: owned("fiverr"),
        title,
        description,
        url,
        budget: copy_opt(&price.budget),
        budget_min: price.budget_min,
        budget_max: price.budget_max,
        currency: Some(owned("USD")),
        location: None,
        technologies,
        client_name,
        posted_date: None,
    })
}

// ---------------------------------------------------------------------------
// Finding the gigs in the payload
// ---------------------------------------------------------------------------

/// An array looks like a list of gigs when its first item is an object with
/// a `title` or `gigTitle` member.
pub open spec fn looks_like_gigs(arr: Seq<JsonValue>) -> bool {
    &&& arr.len() >= 1
    &&& arr[0] is Object
    &&& (json_get(arr[0], "title"@) is Some || json_get(arr[0], "gigTitle"@) is Some)
}

/// The gigs gathered from `node` onto `acc` by a depth-limited walk: nothing
/// is gathered below depth 6 or once more than 200 gigs are held; an array
/// that looks like gigs is taken whole, any other array or object is walked
/// item by item, in order.
pub open spec fn collect(node: JsonValue, acc: Seq<GigView>, depth: int) -> Seq<GigView>
    decreases node, 0int,
{
    if depth > 6 || acc.len() > 200 {
        acc
    } else {
        match node {
            JsonValue::Array(arr) => if looks_like_gigs(arr@) {
                acc + arr@.map_values(|g: JsonValue| gig_of(g))
            } else {
                collect_items(arr@, 0, acc, depth + 1)
            },
            JsonValue::Object(entries) => collect_members(entries@, 0, acc, depth + 1),
            _ => acc,
        }
    }
}

/// [`collect`] over the items of an array from position `i`.
pub open spec fn collect_items(items: Seq<JsonValue>, i: int, acc: Seq<GigView>, depth: int) -> Seq<
    GigView,
>
    decreases items, items.len() - i,
{
    if i < 0 || i >= items.len() {
        acc
    } else {
        collect_items(items, i + 1, collect(items[i], acc, depth), depth)
    }
}

/// [`collect`] over the member values of an object from position `i`.
pub open spec fn collect_members(
    entries: Seq<(String, JsonValue)>,
    i: int,
    acc: Seq<GigView>,
    depth: int,
) -> Seq<GigView>
    decreases entries, entries.len() - i,
{
    if i < 0 || i >= entries.len() {
        acc
    } else {
        collect_members(entries, i + 1, collect(entries[i].1, acc, depth), depth)
    }
}

/// The members the gig list is looked for under, in order.
pub open spec fn gig_list_keys() -> Seq<Seq<char>> {
    seq!["searchResults"@, "gigResults"@, "gigs"@, "results"@, "searchProps"@]
}

/// The items of the first array found under one of `keys`.
pub open spec fn first_array(props: JsonValue, keys: Seq<Seq<char>>) -> Seq<JsonValue>
    decreases keys.len(),
{
    if keys.len() == 0 {
        Seq::<JsonValue>::empty()
    } else {
        match json_get(props, keys[0]) {
            Some(JsonValue::Array(a)) => a@,
            _ => first_array(props, keys.drop_first()),
        }
    }
}

/// The gigs of a payload: under `props.pageProps`, the first list found
/// under a known member, else (when that gives none) every gig-like array
/// found by [`collect`].
pub open spec fn page_gigs(data: JsonValue) -> Seq<GigView> {
    match json_get(data, "props"@) {
        Some(p) => match json_get(p, "pageProps"@) {
            Some(props) => {
                let listed = first_array(props, gig_list_keys());
                if listed.len() > 0 {
                    listed.map_values(|g: JsonValue| gig_of(g))
                } else {
                    collect(props, Seq::<GigView>::empty(), 0)
                }
            },
            None => Seq::<GigView>::empty(),
        },
        None => Seq::<GigView>::empty(),
    }
}

fn push_all_gigs(out: &mut Vec<GigFields>, arr: &Vec<JsonValue>)
    ensures
        gig_views(final(out)@) == gig_views(old(out)@) + arr@.map_values(|g: JsonValue| gig_of(g)),
{
    let mut i: usize = 0;
    while i < arr.len()
        invariant
            i <= arr@.len(),
            gig_views(out@) == gig_views(old(out)@) + arr@.take(i as int).map_values(
                |g: JsonValue| gig_of(g),
            ),
        decreases arr@.len() - i,
    {
        let ghost prev = out@;
        let f = gig_fields(&arr[i]);
        out.push(f);
        assert(gig_views(out@) =~= gig_views(prev).push(gig_of(arr@[i as int])));
        assert(arr@.take(i + 1).map_values(|g: JsonValue| gig_of(g)) =~= arr@.take(
            i as int,
        ).map_values(|g: JsonValue| gig_of(g)).push(gig_of(arr@[i as int])));
        i = i + 1;
    }
    assert(arr@.take(i as int) =~= arr@);
}

fn looks_like_gig_list(arr: &Vec<JsonValue>) -> (r: bool)
    ensures
        r == looks_like_gigs(arr@),
{
    if arr.len() == 0 {
        return false;
    }
    match &arr[0] {
        JsonValue::Object(_) => {
            get(&arr[0], "title").is_some() || get(&arr[0], "gigTitle").is_some()
        },
        _ => false,
    }
}

/// The depth-limited walk of [`collect`].
fn collect_gigs(node: &JsonValue, out: &mut Vec<GigFields>, depth: usize)
    requires
        depth <= 7,
    ensures
        gig_views(final(out)@) == collect(*node, gig_views(old(out)@), depth as int),
    decreases *node,
{
    if depth > 6 || out.len() > 200 {
        return;
    }
    match node {
        JsonValue::Array(arr) => {
            if looks_like_gig_list(arr) {
                push_all_gigs(out, arr);
            } else {
                let mut i: usize = 0;
                while i < arr.len()
                    invariant
                        i <= arr@.len(),
                        depth <= 6,
                        *node == JsonValue::Array(*arr),
                        collect(*node, gig_views(old(out)@), depth as int) == collect_items(
                            arr@,
                            i as int,
                            gig_views(out@),
                            depth + 1,
                        ),
                    decreases arr@.len() - i,
                {
                    assert(decreases_to!(*node => arr@[i as int]));
                    collect_gigs(&arr[i], out, depth + 1);
                    i = i + 1;
                }
            }
        },
        JsonValue::Object(entries) => {
            let mut i: usize = 0;
            while i < entries.len()
                invariant
                    i <= entries@.len(),
                    depth <= 6,
                    *node == JsonValue::Object(*entries),
                    collect(*node, gig_views(old(out)@), depth as int) == collect_members(
                        entries@,
                        i as int,
                        gig_views(out@),
                        depth + 1,
                    ),
                decreases entries@.len() - i,
            {
                assert(decreases_to!(*node => entries@[i as int].1));
                collect_gigs(&entries[i].1, out, depth + 1);
                i = i + 1;
            }
        },
        _ => {},
    }
}

/// The gigs of a `__NEXT_DATA__` payload (see [`page_gigs`]).
pub fn next_data_gigs(data: &JsonValue) -> (r: Vec<GigFields>)
    ensures
        gig_views(r@) == page_gigs(*data),
{
    let mut out: Vec<GigFields> = Vec::new();
    let props = match get(data, "props") {
        Some(p) => match get(p, "pageProps") {
            Some(q) => q,
            None => return out,
        },
        None => return out,
    };
    let keys = vec!["searchResults", "gigResults", "gigs", "results", "searchProps"];
    let ghost kv = gig_list_keys();
    let mut k: usize = 0;
    let mut found = false;
    assert(kv.skip(0) =~= kv);
    while k < keys.len() && !found
        invariant
            k <= keys@.len(),
            keys@.len() == 5,
            kv == gig_list_keys(),
            forall|m: int| 0 <= m < 5 ==> (#[trigger] keys@[m])@ == kv[m],
            !found ==> out@.len() == 0,
            !found ==> first_array(*props, kv) == first_array(*props, kv.skip(k as int)),
            found ==> gig_views(out@) == first_array(*props, kv).map_values(
                |g: JsonValue| gig_of(g),
            ),
        decreases keys@.len() - k,
    {
        let ghost rest = kv.skip(k as int);
        assert(rest[0] == kv[k as int]);
        assert(rest.drop_first() =~= kv.skip(k + 1));
        match get(props, keys[k]) {
            Some(JsonValue::Array(a)) => {
                assert(gig_views(out@) =~= Seq::<GigView>::empty());
                push_all_gigs(&mut out, a);
                assert(gig_views(out@) =~= a@.map_values(|g: JsonValue| gig_of(g)));
                found = true;
            },
            _ => {},
        }
        k = k + 1;
    }
    if !found {
        assert(kv.skip(k as int) =~= Seq::<Seq<char>>::empty());
    }
    if out.len() == 0 {
        assert(gig_views(out@) =~= Seq::<GigView>::empty());
        if found {
            assert(first_array(*props, kv).map_values(|g: JsonValue| gig_of(g)).len() == 0);
        }
        collect_gigs(props, &mut out, 0);
    }
    out
}

/// The gigs a page's payload holds: those of the decoded `__NEXT_DATA__`
/// payload (see [`page_gigs`]), and none when the page has no such payload or
/// it is not JSON.
pub open spec fn payload_gig_views(body: Seq<char>) -> Seq<GigView> {
    match next_data_blob(body) {
        Some(b) => match json_parse(b) {
            Some(v) => page_gigs(v),
            None => Seq::empty(),
        },
        None => Seq::empty(),
    }
}

/// Finds, decodes and walks a search page's `__NEXT_DATA__` payload (see
/// [`payload_gig_views`]).
pub fn payload_gigs(body: &str) -> (r: Vec<GigFields>)
    ensures
        gig_views(r@) == payload_gig_views(body@),
{
    match extract_next_data(body) {
        None => {
            let r: Vec<GigFields> = Vec::new();
            assert(gig_views(r@) =~= Seq::<GigView>::empty());
            r
        },
        Some(blob) => match parse_json(blob.as_str()) {
            Ok(v) => next_data_gigs(&v),
            Err(_) => {
                let r: Vec<GigFields> = Vec::new();
                assert(gig_views(r@) =~= Seq::<GigView>::empty());
                r
            },
        },
    }
}

/// The gigs that give a lead, each with its price, in order.
pub open spec fn kept_gigs(gs: Seq<GigView>, ps: Seq<BudgetParts>) -> Seq<(GigView, BudgetParts)>
    decreases gs.len(),
{
    if gs.len() == 0 || ps.len() != gs.len() {
        Seq::<(GigView, BudgetParts)>::empty()
    } else {
        let init = kept_gigs(gs.drop_last(), ps.drop_last());
        if gig_kept(gs.last()) {
            init.push((gs.last(), ps.last()))
        } else {
            init
        }
    }
}

/// `leads` are the leads of the kept gigs, in order.
pub open spec fn gig_leads(gs: Seq<GigView>, ps: Seq<BudgetParts>, leads: Seq<NewLead>) -> bool {
    let kept = kept_gigs(gs, ps);
    &&& leads.len() == kept.len()
    &&& forall|k: int| 0 <= k < leads.len() ==> gig_lead(kept[k].0, kept[k].1, #[trigger] leads[k])
}

/// Builds the leads of a payload's gigs, each with its formatted price.
pub fn gigs_to_leads(gigs: &Vec<GigFields>, prices: &Vec<BudgetParts>) -> (r: Vec<NewLead>)
    requires
        prices@.len() == gigs@.len(),
    ensures
        gig_leads(gig_views(gigs@), prices@, r@),
{
    let mut out: Vec<NewLead> = Vec::new();
    let mut i: usize = 0;
    while i < gigs.len()
        invariant
            i <= gigs@.len(),
            prices@.len() == gigs@.len(),
            gig_leads(gig_views(gigs@.take(i as int)), prices@.take(i as int), out@),
        decreases gigs@.len() - i,
    {
        let ghost gs = gig_views(gigs@.take(i + 1));
        let ghost ps = prices@.take(i + 1);
        assert(gs.drop_last() =~= gig_views(gigs@.take(i as int)));
        assert(ps.drop_last() =~= prices@.take(i as int));
        assert(gs.last() == gig_view(gigs@[i as int]));
        assert(ps.last() == prices@[i as int]);
        let ghost before = out@;
        match gig_to_lead(&gigs[i], &prices[i]) {
            Some(l) => {
                out.push(l);
                assert forall|k: int| 0 <= k < out@.len() implies gig_lead(
                    kept_gigs(gs, ps)[k].0,
                    kept_gigs(gs, ps)[k].1,
                    #[trigger] out@[k],
                ) by {
                    if k < before.len() {
                        assert(out@[k] == before[k]);
                    }
                }
            },
            None => {},
        }
        i = i + 1;
    }
    assert(gigs@.take(i as int) =~= gigs@);
    assert(prices@.take(i as int) =~= prices@);
    out
}

// ---------------------------------------------------------------------------
// Pattern scan of the page
// ---------------------------------------------------------------------------

/// The pattern for gig titles: five to 140 characters after `"title":"`.
pub open spec fn title_pattern() -> Seq<char> {
    r#""title":"([^"]{5,140})"#@
}

/// The pattern for gig descriptions: the shortest text between
/// `"description":"` and `",`.
pub open spec fn description_pattern() -> Seq<char> {
    r#""description":"(.*?)","#@
}

/// The pattern for gig links: a two-segment path after `"url":"`.
pub open spec fn link_pattern() -> Seq<char> {
    r#""url":"(/[A-Za-z0-9\-_\.]+/[A-Za-z0-9\-_\.]+)"#@
}

/// One of the scan's patterns.
pub open spec fn scan_pattern(p: Seq<char>) -> bool {
    p == title_pattern() || p == description_pattern() || p == link_pattern()
}

/// The first capture group of every non-overlapping match of `pattern` in
/// `text`, from the left, as `regex::Regex::captures_iter` finds them.
pub uninterp spec fn regex_groups(pattern: Seq<char>, text: Seq<char>) -> Seq<Seq<char>>;

/// Calls `regex::Regex::new(pattern)` and `captures_iter(text)`, keeping each
/// match's first group; the result is named [`regex_groups`]. Each scan
/// pattern compiles and has a group that takes part in every match.
#[verifier::external_body]
fn capture_groups(pattern: &str, text: &str) -> (r: Vec<String>)
    requires
        scan_pattern(pattern@),
    ensures
        r.deep_view() == regex_groups(pattern@, text@),
{
    let re = regex::Regex::new(pattern).unwrap();
    re.captures_iter(text).map(|c| c[1].to_string()).collect()
}

/// How many gigs the scan reports: one per title found, at most twenty.
pub open spec fn scan_count(body: Seq<char>) -> int {
    vstd::math::min(20, regex_groups(title_pattern(), body).len() as int)
}

/// The description of the `i`-th scanned gig: the `i`-th description found
/// (else a fixed hint), with escaped newlines read as spaces and escaped
/// quotes unescaped.
pub open spec fn scan_description(body: Seq<char>, i: int) -> Seq<char> {
    let descs = regex_groups(description_pattern(), body);
    let raw = if i < descs.len() {
        descs[i]
    } else {
        "Gig found on Fiverr — open the link to see full details."@
    };
    replace_all(replace_all(raw, "\\n"@, " "@), "\\\""@, "\""@)
}

/// The link of the `i`-th scanned gig: the `i`-th link found (empty when
/// there is none), made absolute when it is a path.
pub open spec fn scan_url(body: Seq<char>, i: int) -> Seq<char> {
    let links = regex_groups(link_pattern(), body);
    let link = if i < links.len() {
        links[i]
    } else {
        Seq::<char>::empty()
    };
    if link.len() > 0 && link[0] == '/' {
        "https://www.fiverr.com"@ + link
    } else {
        link
    }
}

/// The lead for the `i`-th scanned gig.
pub open spec fn scan_lead(body: Seq<char>, i: int, l: NewLead) -> bool {
    let title = regex_groups(title_pattern(), body)[i];
    &&& l.source@ == "fiverr"@
    &&& l.title@ == title
    &&& l.description@ == scan_description(body, i)
    &&& l.url@ == scan_url(body, i)
    &&& l.budget is None && l.budget_min is None && l.budget_max is None
    &&& l.currency matches Some(c) && c@ == "USD"@
    &&& l.location is None
    &&& l.technologies matches Some(t) && t@ == title_keywords(title)
    &&& l.client_name is None
    &&& l.posted_date is None
}

/// `leads` are the scanned gigs of the page, in order.
pub open spec fn scan_leads(body: Seq<char>, leads: Seq<NewLead>) -> bool {
    &&& leads.len() == scan_count(body)
    &&& forall|i: int| 0 <= i < leads.len() ==> scan_lead(body, i, #[trigger] leads[i])
}

fn unescape(raw: &str) -> (r: String)
    ensures
        r@ == replace_all(replace_all(raw@, "\\n"@, " "@), "\\\""@, "\""@),
{
    proof {
        reveal_strlit("\\n");
        reveal_strlit("\\\"");
    }
    let cs = chars_of(raw);
    let a = chars_of("\\n");
    let b = chars_of(" ");
    let once = crate::scraper::replace_chars(&cs, &a, &b);
    let c = chars_of("\\\"");
    let d = chars_of("\"");
    let twice = crate::scraper::replace_chars(&once, &c, &d);
    string_of(&twice)
}

/// Scans the page for gig titles, descriptions and links when the payload
/// is missing or gives nothing (see [`scan_leads`]).
pub fn regex_fallback(body: &str) -> (r: Vec<NewLead>)
    ensures
        scan_leads(body@, r@),
{
    let titles = capture_groups(r#""title":"([^"]{5,140})"#, body);
    let descs = capture_groups(r#""description":"(.*?)","#, body);
    let links = capture_groups(r#""url":"(/[A-Za-z0-9\-_\.]+/[A-Za-z0-9\-_\.]+)"#, body);
    let n = if titles.len() < 20 {
        titles.len()
    } else {
        20
    };
    let mut out: Vec<NewLead> = Vec::new();
    let mut i: usize = 0;
    while i < n
        invariant
            i <= n,
            n == scan_count(body@),
            n <= titles@.len(),
            titles.deep_view() == regex_groups(title_pattern(), body@),
            descs.deep_view() == regex_groups(description_pattern(), body@),
            links.deep_view() == regex_groups(link_pattern(), body@),
            out@.len() == i,
            forall|k: int| 0 <= k < i ==> scan_lead(body@, k, #[trigger] out@[k]),
        decreases n - i,
    {
        assert(titles.deep_view()[i as int] == titles@[i as int]@);
        let title = titles[i].clone();
        let raw_desc = if i < descs.len() {
            assert(descs.deep_view()[i as int] == descs@[i as int]@);
            descs[i].clone()
        } else {
            owned("Gig found on Fiverr — open the link to see full details.")
        };
        let description = unescape(raw_desc.as_str());
        let link = if i < links.len() {
            assert(links.deep_view()[i as int] == links@[i as int]@);
            links[i].clone()
        } else {
            String::new()
        };
        let lc = chars_of(link.as_str());
        let url = if lc.len() > 0 && lc[0] == '/' {
            let mut u = chars_of("https://www.fiverr.com");
            append_chars(&mut u, &lc);
            string_of(&u)
        } else {
            link
        };
        let tech = keyword_clean(title.as_str());
        let lead = NewLead {
            source: owned("fiverr"),
            title,
            description,
            url,
            budget: None,
            budget_min: None,
            budget_max: None,
            currency: Some(owned("USD")),
            location: None,
            technologies: Some(tech),
            client_name: None,
            posted_date: None,
        };
        let ghost before = out@;
        out.push(lead);
        assert forall|k: int| 0 <= k < i + 1 implies scan_lead(body@, k, #[trigger] out@[k]) by {
            if k < i {
                assert(out@[k] == before[k]);
            }
        }
        i = i + 1;
    }
    out
}

/// The page's leads: those read from the payload when there are any, else
/// those of the pattern scan.
pub fn leads_or_fallback(next_data: Vec<NewLead>, body: &str) -> (r: Vec<NewLead>)
    ensures
        next_data@.len() > 0 ==> r@ == next_data@,
        next_data@.len() == 0 ==> scan_leads(body@, r@),
{
    if next_data.len() > 0 {
        next_data
    } else {
        regex_fallback(body)
    }
}

/// Every lead read from a Fiverr page, from the payload or from the pattern
/// scan, is a Fiverr lead priced in US dollars.
pub proof fn law_page_leads_are_fiverr(
    gigs: Seq<GigView>,
    prices: Seq<BudgetParts>,
    next_data: Seq<NewLead>,
    body: Seq<char>,
    page: Seq<NewLead>,
)
    requires
        gig_leads(gigs, prices, next_data),
        next_data.len() > 0 ==> page == next_data,
        next_data.len() == 0 ==> scan_leads(body, page),
    ensures
        forall|i: int|
            0 <= i < page.len() ==> (#[trigger] page[i]).source@ == "fiverr"@ && (page[i].currency
                matches Some(c) && c@ == "USD"@),
{
    if next_data.len() > 0 {
        assert forall|i: int| 0 <= i < page.len() implies (#[trigger] page[i]).source@ == "fiverr"@
            && (page[i].currency matches Some(c) && c@ == "USD"@) by {
            let kept = kept_gigs(gigs, prices);
            assert(gig_lead(kept[i].0, kept[i].1, next_data[i]));
        }
    } else {
        assert forall|i: int| 0 <= i < page.len() implies (#[trigger] page[i]).source@ == "fiverr"@
            && (page[i].currency matches Some(c) && c@ == "USD"@) by {
            assert(scan_lead(body, i, page[i]));
        }
    }
}

} // verus!
