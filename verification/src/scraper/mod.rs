//! Source collectors and the text clean-up they share.

pub mod feed;
pub mod fiverr;
pub mod freelancer;
pub mod indeed;
pub mod patterns;
pub mod remoteok;
pub mod remotive;
pub mod run;
pub mod sources;
pub mod upwork;
pub mod weworkremotely;

use crate::hunt::or_empty;
use crate::models::NewLead;
use crate::text::{
    append_chars, append_str, chars_equal, chars_of, contains, contains_chars, is_alphanumeric,
    join, join_chars, lowercase, matches_at, occurs_at, string_of, to_lowercase, trim,
    unicode_alphanumeric, words, words_chars,
};
use vstd::prelude::*;

verus! {

// ---------------------------------------------------------------------------
// HTML clean-up
// ---------------------------------------------------------------------------

/// Whether the scan is inside a tag after reading `s`: the last `<` or `>`
/// seen was a `<`.
pub open spec fn inside_tag(s: Seq<char>) -> bool
    decreases s.len(),
{
    if s.len() == 0 {
        false
    } else if s.last() == '<' {
        true
    } else if s.last() == '>' {
        false
    } else {
        inside_tag(s.drop_last())
    }
}

/// `s` with tags dropped: `<` opens a tag, `>` closes it and leaves a space,
/// characters inside a tag are skipped.
pub open spec fn untag(s: Seq<char>) -> Seq<char>
    decreases s.len(),
{
    if s.len() == 0 {
        s
    } else {
        let prev = untag(s.drop_last());
        let c = s.last();
        if c == '<' {
            prev
        } else if c == '>' {
            prev.push(' ')
        } else if inside_tag(s.drop_last()) {
            prev
        } else {
            prev.push(c)
        }
    }
}

/// Whether a text holds neither `<` nor `>`.
pub open spec fn no_markup(s: Seq<char>) -> bool {
    forall|i: int| 0 <= i < s.len() ==> s[i] != '<' && s[i] != '>'
}

/// After text outside a tag, whether the scan is inside a tag depends on
/// what follows alone.
proof fn lemma_inside_tag_concat(x: Seq<char>, y: Seq<char>)
    requires
        !inside_tag(x),
    ensures
        inside_tag(x + y) == inside_tag(y),
    decreases y.len(),
{
    if y.len() == 0 {
        assert(x + y =~= x);
    } else {
        assert((x + y).drop_last() =~= x + y.drop_last());
        lemma_inside_tag_concat(x, y.drop_last());
    }
}

/// Tag removal works piece by piece: cleaning two texts one after the other,
/// where the first does not stop inside a tag, gives the two cleaned texts one
/// after the other.
pub proof fn law_untag_concat(x: Seq<char>, y: Seq<char>)
    requires
        !inside_tag(x),
    ensures
        untag(x + y) == untag(x) + untag(y),
    decreases y.len(),
{
    if y.len() == 0 {
        assert(x + y =~= x);
        assert(untag(x) + untag(y) =~= untag(x));
    } else {
        assert((x + y).drop_last() =~= x + y.drop_last());
        assert((x + y).last() == y.last());
        law_untag_concat(x, y.drop_last());
        lemma_inside_tag_concat(x, y.drop_last());
        let p = untag(x) + untag(y.drop_last());
        assert(p.push(y.last()) =~= untag(x) + untag(y.drop_last()).push(y.last()));
        assert(p.push(' ') =~= untag(x) + untag(y.drop_last()).push(' '));
    }
}

/// Text without markup is left exactly as it is, and does not leave the scan
/// inside a tag.
pub proof fn law_untag_plain_text(s: Seq<char>)
    requires
        no_markup(s),
    ensures
        untag(s) == s,
        !inside_tag(s),
    decreases s.len(),
{
    if s.len() > 0 {
        let d = s.drop_last();
        assert(no_markup(d)) by {
            assert forall|i: int| 0 <= i < d.len() implies d[i] != '<' && d[i] != '>' by {
                assert(d[i] == s[i]);
            }
        }
        law_untag_plain_text(d);
        assert(s.last() == s[s.len() - 1]);
        assert(d.push(s.last()) =~= s);
    }
}

/// Everything from a `<` on, up to (not including) the next `>`, is dropped
/// and leaves the scan inside the tag.
proof fn lemma_open_tag(t: Seq<char>)
    requires
        forall|i: int| 0 <= i < t.len() ==> t[i] != '>',
    ensures
        untag(seq!['<'] + t) == Seq::<char>::empty(),
        inside_tag(seq!['<'] + t),
    decreases t.len(),
{
    let s = seq!['<'] + t;
    if t.len() == 0 {
        assert(s.drop_last() =~= Seq::<char>::empty());
        assert(untag(s.drop_last()) == Seq::<char>::empty());
        assert(s.last() == '<');
    } else {
        let d = t.drop_last();
        assert forall|i: int| 0 <= i < d.len() implies d[i] != '>' by {
            assert(d[i] == t[i]);
        }
        lemma_open_tag(d);
        assert(s.drop_last() =~= seq!['<'] + d);
        assert(s.last() == t[t.len() - 1]);
        assert(untag(s.drop_last()) == Seq::<char>::empty());
        assert(inside_tag(s.drop_last()));
    }
}

/// A whole tag becomes a single space, so text on either side of it stays
/// apart: for texts `a` and `b` without markup and a tag body `t` without
/// `>`, cleaning `a<t>b` gives `a b`.
pub proof fn law_tag_becomes_space(a: Seq<char>, t: Seq<char>, b: Seq<char>)
    requires
        no_markup(a),
        no_markup(b),
        forall|i: int| 0 <= i < t.len() ==> t[i] != '>',
    ensures
        untag(seq!['<'] + t + seq!['>']) == seq![' '],
        untag(a + (seq!['<'] + t + seq!['>']) + b) == a + seq![' '] + b,
{
    let tag = seq!['<'] + t + seq!['>'];
    lemma_open_tag(t);
    assert(tag.drop_last() =~= seq!['<'] + t);
    assert(tag.last() == '>');
    assert(untag(tag) =~= seq![' ']);
    assert(!inside_tag(tag));
    law_untag_plain_text(a);
    law_untag_plain_text(b);
    law_untag_concat(a, tag);
    lemma_inside_tag_concat(a, tag);
    law_untag_concat(a + tag, b);
    assert(a + seq![' '] + b =~= (a + seq![' ']) + b);
}

/// `str::replace(pat, rep)`: every non-overlapping occurrence of a non-empty
/// `pat`, scanning from the left, replaced by `rep`.
pub open spec fn replace_all(s: Seq<char>, pat: Seq<char>, rep: Seq<char>) -> Seq<char>
    recommends
        pat.len() > 0,
    decreases s.len(),
{
    if s.len() == 0 || pat.len() == 0 {
        s
    } else if occurs_at(s, pat, 0) {
        rep + replace_all(s.skip(pat.len() as int), pat, rep)
    } else {
        seq![s[0]] + replace_all(s.drop_first(), pat, rep)
    }
}

proof fn lemma_replace_step(s: Seq<char>, pat: Seq<char>, rep: Seq<char>, i: int)
    requires
        pat.len() > 0,
        0 <= i < s.len(),
    ensures
        occurs_at(s, pat, i) ==> replace_all(s.skip(i), pat, rep) == rep + replace_all(
            s.skip(i + pat.len()),
            pat,
            rep,
        ),
        !occurs_at(s, pat, i) ==> replace_all(s.skip(i), pat, rep) == seq![s[i]] + replace_all(
            s.skip(i + 1),
            pat,
            rep,
        ),
{
    let t = s.skip(i);
    assert(t.len() > 0);
    if occurs_at(s, pat, i) {
        assert(t.subrange(0, pat.len() as int) =~= s.subrange(i, i + pat.len()));
        assert(t.skip(pat.len() as int) =~= s.skip(i + pat.len()));
    } else {
        if occurs_at(t, pat, 0) {
            assert(t.subrange(0, pat.len() as int) =~= s.subrange(i, i + pat.len()));
        }
        assert(t.drop_first() =~= s.skip(i + 1));
    }
}

/// `str::replace` over characters (for a non-empty pattern).
pub fn replace_chars(s: &[char], pat: &[char], rep: &[char]) -> (r: Vec<char>)
    requires
        pat@.len() > 0,
    ensures
        r@ == replace_all(s@, pat@, rep@),
{
    let mut out: Vec<char> = Vec::new();
    let mut i: usize = 0;
    assert(s@.skip(0) =~= s@);
    assert(out@ + replace_all(s@, pat@, rep@) =~= replace_all(s@, pat@, rep@));
    while i < s.len()
        invariant
            pat@.len() > 0,
            i <= s@.len(),
            s@.len() == s.len(),
            out@ + replace_all(s@.skip(i as int), pat@, rep@) == replace_all(s@, pat@, rep@),
        decreases s@.len() - i,
    {
        proof {
            lemma_replace_step(s@, pat@, rep@, i as int);
        }
        if matches_at(s, pat, i) {
            let ghost before = out@;
            append_chars(&mut out, rep);
            assert(out@ + replace_all(s@.skip(i + pat@.len()), pat@, rep@) =~= before + (rep@
                + replace_all(s@.skip(i + pat@.len()), pat@, rep@)));
            i = i + pat.len();
        } else {
            let ghost before = out@;
            out.push(s[i]);
            assert(out@ + replace_all(s@.skip(i + 1), pat@, rep@) =~= before + (seq![s@[i as int]]
                + replace_all(s@.skip(i + 1), pat@, rep@)));
            i = i + 1;
        }
    }
    assert(s@.skip(i as int) =~= Seq::<char>::empty());
    assert(out@ + Seq::<char>::empty() =~= out@);
    out
}

/// `str::replace` with literal pattern and replacement.
fn replace_lit(s: &[char], pat: &str, rep: &str) -> (r: Vec<char>)
    requires
        pat@.len() > 0,
    ensures
        r@ == replace_all(s@, pat@, rep@),
{
    let p = chars_of(pat);
    let q = chars_of(rep);
    replace_chars(s, &p, &q)
}

/// Common HTML entities decoded, in this order.
pub open spec fn decode_entities(s: Seq<char>) -> Seq<char> {
    let a = replace_all(s, "&amp;"@, "&"@);
    let b = replace_all(a, "&lt;"@, "<"@);
    let c = replace_all(b, "&gt;"@, ">"@);
    let d = replace_all(c, "&quot;"@, "\""@);
    let e = replace_all(d, "&#39;"@, "'"@);
    replace_all(e, "&nbsp;"@, " "@)
}

/// Whitespace runs collapsed to single spaces, ends trimmed
/// (`split_whitespace().join(" ")`).
pub open spec fn collapse_ws(s: Seq<char>) -> Seq<char> {
    join(words(s), " "@)
}

/// Readable text from an HTML fragment: tags removed (each closing `>` leaves a
/// space), common entities decoded, whitespace collapsed.
pub open spec fn html_to_text(s: Seq<char>) -> Seq<char> {
    collapse_ws(decode_entities(untag(s)))
}

/// Drops tags from characters (see [`untag`]).
pub fn untag_chars(s: &[char]) -> (r: Vec<char>)
    ensures
        r@ == untag(s@),
{
    let mut out: Vec<char> = Vec::new();
    let mut in_tag = false;
    let mut i: usize = 0;
    while i < s.len()
        invariant
            i <= s@.len(),
            out@ == untag(s@.take(i as int)),
            in_tag == inside_tag(s@.take(i as int)),
        decreases s@.len() - i,
    {
        assert(s@.take(i + 1).drop_last() =~= s@.take(i as int));
        let ch = s[i];
        if ch == '<' {
            in_tag = true;
        } else if ch == '>' {
            in_tag = false;
            out.push(' ');
        } else if in_tag {
        } else {
            out.push(ch);
        }
        i = i + 1;
    }
    assert(s@.take(i as int) =~= s@);
    out
}

/// Collapses whitespace (see [`collapse_ws`]).
pub fn collapse_ws_chars(s: &[char]) -> (r: Vec<char>)
    ensures
        r@ == collapse_ws(s@),
{
    let ws = words_chars(s);
    let sep = chars_of(" ");
    join_chars(&ws, &sep)
}

/// Removes HTML tags and decodes common entities so scraped descriptions are
/// readable (see [`html_to_text`]).
pub fn strip_html(input: &str) -> (r: String)
    ensures
        r@ == html_to_text(input@),
{
    proof {
        reveal_strlit("&amp;");
        reveal_strlit("&lt;");
        reveal_strlit("&gt;");
        reveal_strlit("&quot;");
        reveal_strlit("&#39;");
        reveal_strlit("&nbsp;");
    }
    let cs = chars_of(input);
    let u = untag_chars(&cs);
    let a = replace_lit(&u, "&amp;", "&");
    let b = replace_lit(&a, "&lt;", "<");
    let c = replace_lit(&b, "&gt;", ">");
    let d = replace_lit(&c, "&quot;", "\"");
    let e = replace_lit(&d, "&#39;", "'");
    let f = replace_lit(&e, "&nbsp;", " ");
    let g = collapse_ws_chars(&f);
    string_of(&g)
}

// ---------------------------------------------------------------------------
// Keyword relevance
// ---------------------------------------------------------------------------

/// Index of the first character at or after `i` that is alphanumeric.
pub open spec fn skip_non_alnum(s: Seq<char>, i: int) -> int
    decreases s.len() - i,
{
    if 0 <= i < s.len() && !unicode_alphanumeric(s[i]) {
        skip_non_alnum(s, i + 1)
    } else {
        i
    }
}

/// One past the last alphanumeric character in `s[lo..j]` (or `lo`).
pub open spec fn back_non_alnum(s: Seq<char>, lo: int, j: int) -> int
    decreases j,
{
    if lo < j && 0 < j <= s.len() && !unicode_alphanumeric(s[j - 1]) {
        back_non_alnum(s, lo, j - 1)
    } else {
        j
    }
}

/// `s.trim_matches(|c| !c.is_alphanumeric())`.
pub open spec fn trim_non_alnum(s: Seq<char>) -> Seq<char> {
    let a = skip_non_alnum(s, 0);
    s.subrange(a, back_non_alnum(s, a, s.len() as int))
}

proof fn lemma_skip_non_alnum_bounds(s: Seq<char>, i: int)
    requires
        0 <= i <= s.len(),
    ensures
        i <= skip_non_alnum(s, i) <= s.len(),
    decreases s.len() - i,
{
    if i < s.len() && !unicode_alphanumeric(s[i]) {
        lemma_skip_non_alnum_bounds(s, i + 1);
    }
}

proof fn lemma_back_non_alnum_bounds(s: Seq<char>, lo: int, j: int)
    requires
        0 <= lo <= j <= s.len(),
    ensures
        lo <= back_non_alnum(s, lo, j) <= j,
    decreases j,
{
    if lo < j && !unicode_alphanumeric(s[j - 1]) {
        lemma_back_non_alnum_bounds(s, lo, j - 1);
    }
}

/// Trims non-alphanumeric characters from both ends.
pub fn trim_non_alnum_chars(s: &[char]) -> (r: Vec<char>)
    ensures
        r@ == trim_non_alnum(s@),
{
    let mut i: usize = 0;
    while i < s.len() && !is_alphanumeric(s[i])
        invariant
            i <= s@.len(),
            skip_non_alnum(s@, i as int) == skip_non_alnum(s@, 0),
        decreases s@.len() - i,
    {
        i = i + 1;
    }
    let mut j: usize = s.len();
    while j > i && !is_alphanumeric(s[j - 1])
        invariant
            i <= j <= s@.len(),
            back_non_alnum(s@, i as int, j as int) == back_non_alnum(
                s@,
                i as int,
                s@.len() as int,
            ),
        decreases j,
    {
        j = j - 1;
    }
    crate::text::slice_range(s, i, j)
}

/// The lower-cased text a new lead is matched against: title, description and
/// technologies separated by spaces.
pub open spec fn new_lead_text(lead: NewLead) -> Seq<char> {
    lowercase(lead.title@ + seq![' '] + lead.description@ + seq![' '] + or_empty(lead.technologies))
}

/// Every whitespace-separated token of `kw` (stripped of non-alphanumeric ends)
/// is blank or occurs in `hay`.
pub open spec fn all_tokens_occur(tokens: Seq<Seq<char>>, hay: Seq<char>) -> bool {
    forall|i: int|
        0 <= i < tokens.len() ==> {
            let tok = trim_non_alnum(#[trigger] tokens[i]);
            tok.len() == 0 || contains(hay, tok)
        }
}

/// Whether a lead is relevant to a keyword: a blank keyword matches
/// everything; otherwise every token of the lower-cased keyword must occur in
/// the lead's lower-cased title, description and technologies.
pub open spec fn keyword_matches(lead: NewLead, keyword: Seq<char>) -> bool {
    let kw = lowercase(trim(keyword));
    kw.len() == 0 || all_tokens_occur(words(kw), new_lead_text(lead))
}

/// The lower-cased matching text of a new lead (see [`new_lead_text`]).
pub fn new_lead_text_of(lead: &NewLead) -> (r: Vec<char>)
    ensures
        r@ == new_lead_text(*lead),
{
    let mut raw: Vec<char> = chars_of(lead.title.as_str());
    raw.push(' ');
    append_str(&mut raw, lead.description.as_str());
    raw.push(' ');
    let tech = crate::hunt::text_or_empty(&lead.technologies);
    append_str(&mut raw, tech.as_str());
    let joined = string_of(&raw);
    assert(joined@ =~= lead.title@ + seq![' '] + lead.description@ + seq![' '] + or_empty(
        lead.technologies,
    ));
    let lower = to_lowercase(joined.as_str());
    chars_of(lower.as_str())
}

/// Case-insensitive keyword relevance check used to filter full feeds down to
/// the items matching a keyword (see [`keyword_matches`]).
pub fn matches_keyword(lead: &NewLead, keyword: &str) -> (r: bool)
    ensures
        r == keyword_matches(*lead, keyword@),
{
    let trimmed = crate::text::trim_str(keyword);
    let lower = to_lowercase(trimmed.as_str());
    let kw = chars_of(lower.as_str());
    if kw.len() == 0 {
        return true;
    }
    let hay = new_lead_text_of(lead);
    let toks = words_chars(&kw);
    let mut i: usize = 0;
    while i < toks.len()
        invariant
            i <= toks@.len(),
            toks.deep_view() == words(kw@),
            kw@ == lowercase(trim(keyword@)),
            kw@.len() > 0,
            hay@ == new_lead_text(*lead),
            forall|k: int|
                0 <= k < i ==> {
                    let tok = trim_non_alnum(#[trigger] toks.deep_view()[k]);
                    tok.len() == 0 || contains(hay@, tok)
                },
        decreases toks@.len() - i,
    {
        let tok = trim_non_alnum_chars(&toks[i]);
        if !(tok.len() == 0 || contains_chars(&hay, &tok)) {
            assert(toks.deep_view()[i as int] == toks@[i as int]@);
            let ghost bad = trim_non_alnum(toks.deep_view()[i as int]);
            assert(!(bad.len() == 0 || contains(hay@, bad)));
            assert(!all_tokens_occur(toks.deep_view(), hay@));
            return false;
        }
        assert(toks.deep_view()[i as int] == toks@[i as int]@);
        i = i + 1;
    }
    true
}

// ---------------------------------------------------------------------------
// Keyword de-duplication
// ---------------------------------------------------------------------------

/// The key a keyword is de-duplicated by: trimmed and lower-cased.
pub open spec fn keyword_key(k: Seq<char>) -> Seq<char> {
    lowercase(trim(k))
}

/// The keywords whose key has not been seen earlier in the list, in order.
pub open spec fn first_by_key(list: Seq<Seq<char>>) -> Seq<Seq<char>>
    decreases list.len(),
{
    if list.len() == 0 {
        list
    } else {
        let init = first_by_key(list.drop_last());
        let k = keyword_key(list.last());
        if exists|j: int| 0 <= j < list.len() - 1 && keyword_key(list[j]) == k {
            init
        } else {
            init.push(list.last())
        }
    }
}

/// Drops keywords that repeat an earlier one (compared trimmed and
/// lower-cased), then keeps at most `max`.
pub fn dedupe_truncate(list: &Vec<String>, max: usize) -> (r: Vec<String>)
    ensures
        r.deep_view() == first_by_key(list.deep_view()).take(
            vstd::math::min(max as int, first_by_key(list.deep_view()).len() as int),
        ),
{
    let mut kept: Vec<String> = Vec::new();
    let mut seen: Vec<Vec<char>> = Vec::new();
    let mut i: usize = 0;
    while i < list.len()
        invariant
            i <= list@.len(),
            kept.deep_view() == first_by_key(list.deep_view().take(i as int)),
            seen@.len() == i,
            forall|j: int| 0 <= j < i ==> #[trigger] seen@[j]@ == keyword_key(list@[j]@),
        decreases list@.len() - i,
    {
        let ghost lv = list.deep_view();
        let ghost pre = lv.take(i + 1);
        assert(pre.drop_last() =~= lv.take(i as int));
        assert(pre.last() == list@[i as int]@);
        let t = crate::text::trim_str(list[i].as_str());
        let low = to_lowercase(t.as_str());
        let key = chars_of(low.as_str());
        let mut found = false;
        let mut j: usize = 0;
        while j < seen.len()
            invariant
                j <= seen@.len(),
                seen@.len() == i,
                i < list@.len(),
                found <==> exists|m: int| 0 <= m < j && seen@[m]@ == key@,
            decreases seen@.len() - j,
        {
            if chars_equal(&seen[j], &key) {
                found = true;
            }
            j = j + 1;
        }
        proof {
            assert(found <==> exists|m: int|
                0 <= m < pre.len() - 1 && keyword_key(pre[m]) == keyword_key(pre.last())) by {
                if found {
                    let m = choose|m: int| 0 <= m < j && seen@[m]@ == key@;
                    assert(pre[m] == list@[m]@);
                }
                if exists|m: int|
                    0 <= m < pre.len() - 1 && keyword_key(pre[m]) == keyword_key(pre.last()) {
                    let m = choose|m: int|
                        0 <= m < pre.len() - 1 && keyword_key(pre[m]) == keyword_key(pre.last());
                    assert(pre[m] == list@[m]@);
                    assert(seen@[m]@ == key@);
                }
            }
        }
        if !found {
            let ghost prev = kept.deep_view();
            kept.push(list[i].clone());
            assert(kept.deep_view() =~= prev.push(list@[i as int]@));
        }
        seen.push(key);
        i = i + 1;
    }
    assert(list.deep_view().take(i as int) =~= list.deep_view());
    let n = if max < kept.len() {
        max
    } else {
        kept.len()
    };
    let mut out: Vec<String> = Vec::new();
    let mut k: usize = 0;
    while k < n
        invariant
            k <= n <= kept@.len(),
            out.deep_view() == kept.deep_view().take(k as int),
        decreases n - k,
    {
        let ghost prev = out.deep_view();
        out.push(kept[k].clone());
        assert(out.deep_view() =~= prev.push(kept@[k as int]@));
        k = k + 1;
        assert(out.deep_view() =~= kept.deep_view().take(k as int));
    }
    out
}

/// The keywords kept by [`first_by_key`] are pairwise different once
/// trimmed and lower-cased, and each comes from the list.
pub proof fn law_kept_keywords_distinct(list: Seq<Seq<char>>)
    ensures
        forall|i: int, j: int|
            0 <= i < j < first_by_key(list).len() ==> keyword_key(#[trigger] first_by_key(list)[i])
                != keyword_key(#[trigger] first_by_key(list)[j]),
        forall|i: int| 0 <= i < first_by_key(list).len() ==> list.contains(#[trigger] first_by_key(list)[i]),
    decreases list.len(),
{
    if list.len() > 0 {
        let init = list.drop_last();
        law_kept_keywords_distinct(init);
        let d = first_by_key(list);
        let di = first_by_key(init);
        assert forall|i: int| 0 <= i < d.len() implies list.contains(#[trigger] d[i]) by {
            if i < di.len() {
                assert(d[i] == di[i]);
                let k = choose|k: int| 0 <= k < init.len() && init[k] == di[i];
                assert(list[k] == di[i]);
            } else {
                assert(d[i] == list.last());
                assert(list[list.len() - 1] == list.last());
            }
        }
        if !(exists|j: int| 0 <= j < list.len() - 1 && keyword_key(list[j]) == keyword_key(list.last())) {
            assert forall|i: int, j: int|
                0 <= i < j < d.len() implies keyword_key(#[trigger] d[i]) != keyword_key(#[trigger] d[j]) by {
                if j == d.len() - 1 {
                    assert(d[i] == di[i]);
                    let k = choose|k: int| 0 <= k < init.len() && init[k] == di[i];
                    assert(list[k] == di[i]);
                } else {
                    assert(d[i] == di[i]);
                    assert(d[j] == di[j]);
                }
            }
        }
    }
}

} // verus!
