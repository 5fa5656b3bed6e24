//! Upwork: legacy public RSS job feeds.

use crate::models::NewLead;
use crate::scraper::feed::{
    item_view, items_view, kept_items, leads_for, read_feed_items, rss_channel_items,
    text_or_empty, FeedItem, ItemView,
};
use crate::scraper::patterns::{
    budget_pattern, first_capture, regex_capture, replace_tags, tags_to_spaces,
};
use crate::scraper::replace_all;
use crate::text::{
    chars_of, contains, contains_chars, index_from, is_whitespace, is_ws, join, join_strings,
    lemma_index_from, lowercase, owned, slice_range, split, split_chars, starts_with, string_of,
    to_lowercase, trim, trim_chars, trim_str, truncate, truncated, utf8_byte_len, utf8_len,
    find_char_from, matches_at,
};
use vstd::prelude::*;

verus! {

// ---------------------------------------------------------------------------
// Description clean-up
// ---------------------------------------------------------------------------

/// Each run of whitespace squeezed to a single space.
pub open spec fn squeeze_ws(s: Seq<char>) -> Seq<char>
    decreases s.len(),
{
    if s.len() == 0 {
        s
    } else if is_ws(s.last()) {
        if s.len() >= 2 && is_ws(s[s.len() - 2]) {
            squeeze_ws(s.drop_last())
        } else {
            squeeze_ws(s.drop_last()).push(' ')
        }
    } else {
        squeeze_ws(s.drop_last()).push(s.last())
    }
}

/// Upwork's description clean-up: tags to spaces, four entities decoded,
/// whitespace runs squeezed, ends trimmed.
pub open spec fn upwork_text(s: Seq<char>) -> Seq<char> {
    let a = tags_to_spaces(s);
    let b = replace_all(a, "&amp;"@, "&"@);
    let c = replace_all(b, "&#39;"@, "'"@);
    let d = replace_all(c, "&quot;"@, "\""@);
    let e = replace_all(d, "&nbsp;"@, " "@);
    trim(squeeze_ws(e))
}

fn squeeze_ws_chars(s: &[char]) -> (r: Vec<char>)
    ensures
        r@ == squeeze_ws(s@),
{
    let mut out: Vec<char> = Vec::new();
    let mut prev_space = false;
    let mut i: usize = 0;
    while i < s.len()
        invariant
            i <= s@.len(),
            out@ == squeeze_ws(s@.take(i as int)),
            prev_space == (i > 0 && is_ws(s@[i - 1])),
        decreases s@.len() - i,
    {
        let ghost t = s@.take(i + 1);
        assert(t.drop_last() =~= s@.take(i as int));
        if i >= 1 {
            assert(t[t.len() - 2] == s@[i - 1]);
        }
        let c = s[i];
        if is_whitespace(c) {
            if !prev_space {
                out.push(' ');
            }
            prev_space = true;
        } else {
            out.push(c);
            prev_space = false;
        }
        i = i + 1;
    }
    assert(s@.take(i as int) =~= s@);
    out
}

/// Cleans an Upwork item description (see [`upwork_text`]).
pub fn strip_html(s: &str) -> (r: String)
    ensures
        r@ == upwork_text(s@),
{
    proof {
        reveal_strlit("&amp;");
        reveal_strlit("&#39;");
        reveal_strlit("&quot;");
        reveal_strlit("&nbsp;");
    }
    let t = replace_tags(s);
    let a = chars_of(t.as_str());
    let b = replace_lit(&a, "&amp;", "&");
    let c = replace_lit(&b, "&#39;", "'");
    let d = replace_lit(&c, "&quot;", "\"");
    let e = replace_lit(&d, "&nbsp;", " ");
    let f = squeeze_ws_chars(&e);
    let g = trim_chars(&f);
    string_of(&g)
}

fn replace_lit(s: &[char], pat: &str, rep: &str) -> (r: Vec<char>)
    requires
        pat@.len() > 0,
    ensures
        r@ == replace_all(s@, pat@, rep@),
{
    let p = chars_of(pat);
    let q = chars_of(rep);
    crate::scraper::replace_chars(s, &p, &q)
}

// ---------------------------------------------------------------------------
// Budget and location
// ---------------------------------------------------------------------------

/// The text between the first `(` of a title and the first `)` after it.
pub open spec fn title_meta(title: Seq<char>) -> Option<Seq<char>> {
    let i = index_from(title, '(', 0);
    if i < title.len() {
        let j = index_from(title, ')', i);
        if j < title.len() {
            Some(title.subrange(i + 1, j))
        } else {
            None
        }
    } else {
        None
    }
}

/// `(budget, location)` read from the comma-separated meta parts; a later part
/// overrides an earlier one.
pub open spec fn meta_fields(parts: Seq<Seq<char>>) -> (Option<Seq<char>>, Option<Seq<char>>)
    decreases parts.len(),
{
    if parts.len() == 0 {
        (None, None)
    } else {
        let (b, l) = meta_fields(parts.drop_last());
        let p = trim(parts.last());
        let lower = lowercase(p);
        if starts_with(lower, "budget:"@) {
            (Some(trim(replace_all(p, "Budget:"@, Seq::<char>::empty()))), l)
        } else if starts_with(lower, "location:"@) {
            (b, Some(trim(replace_all(p, "Location:"@, Seq::<char>::empty()))))
        } else {
            (b, l)
        }
    }
}

/// `s` without trailing `c` characters (`trim_end_matches(c)`).
pub open spec fn trim_end_char(s: Seq<char>, c: char) -> Seq<char>
    decreases s.len(),
{
    if s.len() > 0 && s.last() == c {
        trim_end_char(s.drop_last(), c)
    } else {
        s
    }
}

/// Capture group 1 of the first match of the budget pattern in a text.
pub open spec fn budget_capture(text: Seq<char>) -> Option<Seq<char>> {
    regex_capture(budget_pattern(), text, 1)
}

fn capture_budget(text: &str) -> (r: Option<String>)
    ensures
        opt_seq(r) == budget_capture(text@),
{
    first_capture(r"(?i)budget:?\s*\$?([\d\w\s\.,\-]+)", text, 1)
}

/// The budget read from a description when the title gives none: the trimmed
/// capture, if shorter than 40 bytes, without trailing dots.
pub open spec fn description_budget(description: Seq<char>) -> Option<Seq<char>> {
    match budget_capture(description) {
        Some(b) => if utf8_len(trim(b)) < 40 {
            Some(trim_end_char(trim(b), '.'))
        } else {
            None
        },
        None => None,
    }
}

/// `(budget, location)` of an Upwork item: from the title's
/// `(Budget: ..., Location: ...)` meta, else the budget from the description.
pub open spec fn upwork_meta(title: Seq<char>, description: Seq<char>) -> (
    Option<Seq<char>>,
    Option<Seq<char>>,
) {
    let (b, l) = match title_meta(title) {
        Some(m) => meta_fields(split(m, ',')),
        None => (None, None),
    };
    match b {
        Some(_) => (b, l),
        None => (description_budget(description), l),
    }
}

/// The text of an optional string.
pub open spec fn opt_seq(o: Option<String>) -> Option<Seq<char>> {
    match o {
        Some(s) => Some(s@),
        None => None,
    }
}

fn meta_from_parts(parts: &Vec<Vec<char>>) -> (r: (Option<String>, Option<String>))
    ensures
        (opt_seq(r.0), opt_seq(r.1)) == meta_fields(parts.deep_view()),
{
    proof {
        reveal_strlit("budget:");
        reveal_strlit("location:");
        reveal_strlit("Budget:");
        reveal_strlit("Location:");
    }
    let budget_key = chars_of("budget:");
    let location_key = chars_of("location:");
    let budget_label = chars_of("Budget:");
    let location_label = chars_of("Location:");
    let empty: Vec<char> = Vec::new();
    let mut budget: Option<String> = None;
    let mut location: Option<String> = None;
    let mut i: usize = 0;
    while i < parts.len()
        invariant
            i <= parts@.len(),
            budget_key@ == "budget:"@,
            location_key@ == "location:"@,
            budget_label@ == "Budget:"@,
            location_label@ == "Location:"@,
            budget_label@.len() > 0,
            location_label@.len() > 0,
            empty@ == Seq::<char>::empty(),
            (opt_seq(budget), opt_seq(location)) == meta_fields(parts.deep_view().take(i as int)),
        decreases parts@.len() - i,
    {
        let ghost pv = parts.deep_view();
        assert(pv.take(i + 1).drop_last() =~= pv.take(i as int));
        assert(pv.take(i + 1).last() == parts@[i as int]@);
        let p = trim_chars(&parts[i]);
        let ps = string_of(&p);
        let lower = to_lowercase(ps.as_str());
        let lc = chars_of(lower.as_str());
        if matches_at(&lc, &budget_key, 0) {
            let replaced = crate::scraper::replace_chars(&p, &budget_label, &empty);
            budget = Some(string_of(&trim_chars(&replaced)));
        } else if matches_at(&lc, &location_key, 0) {
            let replaced = crate::scraper::replace_chars(&p, &location_label, &empty);
            location = Some(string_of(&trim_chars(&replaced)));
        }
        i = i + 1;
    }
    assert(parts.deep_view().take(i as int) =~= parts.deep_view());
    (budget, location)
}

/// Reads the budget and location of an Upwork item (see [`upwork_meta`]).
pub fn extract_meta(title: &str, description: &str) -> (r: (Option<String>, Option<String>))
    ensures
        (opt_seq(r.0), opt_seq(r.1)) == upwork_meta(title@, description@),
{
    let t = chars_of(title);
    let start = find_char_from(&t, '(', 0);
    proof {
        lemma_index_from(t@, '(', 0);
    }
    let (mut budget, location) = if start < t.len() {
        let end = find_char_from(&t, ')', start);
        proof {
            lemma_index_from(t@, ')', start as int);
        }
        if end < t.len() {
            assert(t@[start as int] == '(');
            assert(start < end);
            let meta = slice_range(&t, start + 1, end);
            let parts = split_chars(&meta, ',');
            meta_from_parts(&parts)
        } else {
            (None, None)
        }
    } else {
        (None, None)
    };
    if budget.is_none() {
        match capture_budget(description) {
            Some(b) => {
                let bt = trim_chars(&chars_of(b.as_str()));
                if utf8_byte_len(&bt) < 40 {
                    let mut k = bt.len();
                    assert(bt@.take(bt@.len() as int) =~= bt@);
                    while k > 0 && bt[k - 1] == '.'
                        invariant
                            k <= bt@.len(),
                            trim_end_char(bt@.take(k as int), '.') == trim_end_char(bt@, '.'),
                        decreases k,
                    {
                        assert(bt@.take(k as int).drop_last() =~= bt@.take(k - 1));
                        k = k - 1;
                    }
                    assert(bt@.take(bt@.len() as int) =~= bt@);
                    let kept = slice_range(&bt, 0, k);
                    assert(kept@ =~= bt@.take(k as int));
                    budget = Some(string_of(&kept));
                }
            },
            None => {},
        }
    }
    (budget, location)
}

// ---------------------------------------------------------------------------
// Tags
// ---------------------------------------------------------------------------

/// Technology terms a category tag is checked for.
pub open spec fn tech_terms() -> Seq<Seq<char>> {
    seq![
        "react"@, "reactjs"@, "node"@, "nodejs"@, "rust"@, "solidity"@, "python"@, "django"@,
        "flask"@, "javascript"@, "typescript"@, "frontend"@, "backend"@, "fullstack"@, "web"@,
        "api"@, "rest"@, "graphql"@, "sql"@, "database"@, "blockchain"@, "web3"@,
        "smart contract"@, "solana"@, "ethereum"@, "tailwind"@, "css"@, "html"@, "vue"@,
        "angular"@, "next.js"@, "cloud"@, "aws"@, "laravel"@, "php"@, "java"@, "spring"@, "go"@,
        "golang"@, "c++"@, "ai"@, "ml"@, "machine learning"@, "automation"@, "scraping"@,
        "data"@, "figma"@, "ui"@, "ux"@, "saas"@, "mobile"@, "app"@, "shopify"@, "wordpress"@,
    ]
}

/// A tag is technology-relevant when its lower-cased text contains one of the
/// [`tech_terms`].
pub open spec fn tag_is_relevant(tag: Seq<char>) -> bool {
    exists|i: int| 0 <= i < tech_terms().len() && contains(lowercase(tag), #[trigger] tech_terms()[i])
}

fn tech_term_list() -> (r: Vec<&'static str>)
    ensures
        r@.len() == tech_terms().len(),
        forall|i: int| 0 <= i < r@.len() ==> #[trigger] r@[i]@ == tech_terms()[i],
{
    let mut v: Vec<&'static str> = Vec::new();
    v.push("react");
    v.push("reactjs");
    v.push("node");
    v.push("nodejs");
    v.push("rust");
    v.push("solidity");
    v.push("python");
    v.push("django");
    v.push("flask");
    v.push("javascript");
    v.push("typescript");
    v.push("frontend");
    v.push("backend");
    v.push("fullstack");
    v.push("web");
    v.push("api");
    v.push("rest");
    v.push("graphql");
    v.push("sql");
    v.push("database");
    v.push("blockchain");
    v.push("web3");
    v.push("smart contract");
    v.push("solana");
    v.push("ethereum");
    v.push("tailwind");
    v.push("css");
    v.push("html");
    v.push("vue");
    v.push("angular");
    v.push("next.js");
    v.push("cloud");
    v.push("aws");
    v.push("laravel");
    v.push("php");
    v.push("java");
    v.push("spring");
    v.push("go");
    v.push("golang");
    v.push("c++");
    v.push("ai");
    v.push("ml");
    v.push("machine learning");
    v.push("automation");
    v.push("scraping");
    v.push("data");
    v.push("figma");
    v.push("ui");
    v.push("ux");
    v.push("saas");
    v.push("mobile");
    v.push("app");
    v.push("shopify");
    v.push("wordpress");
    assert(v@.len() == tech_terms().len());
    v
}

/// Whether a category tag names a technology (see [`tag_is_relevant`]).
pub fn keyword_relevant(tag: &str) -> (r: bool)
    ensures
        r == tag_is_relevant(tag@),
{
    let lower = to_lowercase(tag);
    let t = chars_of(lower.as_str());
    let terms = tech_term_list();
    let mut i: usize = 0;
    while i < terms.len()
        invariant
            i <= terms@.len(),
            terms@.len() == tech_terms().len(),
            forall|k: int| 0 <= k < terms@.len() ==> #[trigger] terms@[k]@ == tech_terms()[k],
            t@ == lowercase(tag@),
            forall|k: int| 0 <= k < i ==> !contains(t@, #[trigger] tech_terms()[k]),
        decreases terms@.len() - i,
    {
        let term = chars_of(terms[i]);
        assert(term@ == tech_terms()[i as int]);
        if contains_chars(&t, &term) {
            return true;
        }
        i = i + 1;
    }
    false
}

/// Upwork titles carry no reliable client name, so none is guessed; the
/// title's text before any `(` is only looked at.
pub fn guess_client_name(title: &str) -> (r: Option<String>)
    ensures
        r is None,
{
    let t = chars_of(title);
    let cut = find_char_from(&t, '(', 0);
    proof {
        lemma_index_from(t@, '(', 0);
    }
    let w = trim_chars(&slice_range(&t, 0, cut));
    if w.len() < 4 {
        return None;
    }
    None
}

// ---------------------------------------------------------------------------
// Feed items
// ---------------------------------------------------------------------------

/// The category names that pass [`tag_is_relevant`], trimmed, in order.
pub open spec fn relevant_tags(tags: Seq<Seq<char>>) -> Seq<Seq<char>>
    decreases tags.len(),
{
    if tags.len() == 0 {
        tags
    } else if tag_is_relevant(trim(tags.last())) {
        relevant_tags(tags.drop_last()).push(trim(tags.last()))
    } else {
        relevant_tags(tags.drop_last())
    }
}

/// An item is kept when its trimmed title is non-empty.
pub open spec fn upwork_keeps(it: ItemView) -> bool {
    trim(text_or_empty(it.0)).len() > 0
}

/// The lead made from a kept item.
pub open spec fn upwork_lead(it: ItemView, l: NewLead) -> bool {
    let title = trim(text_or_empty(it.0));
    let desc = upwork_text(text_or_empty(it.2));
    let meta = upwork_meta(title, desc);
    let tags = relevant_tags(it.4);
    &&& l.source@ == "upwork"@
    &&& l.title@ == title
    &&& l.description@ == truncated(desc, 4000)
    &&& l.url@ == text_or_empty(it.1)
    &&& opt_seq(l.budget) == meta.0
    &&& l.budget_min is None && l.budget_max is None
    &&& l.currency matches Some(c) && c@ == "USD"@
    &&& opt_seq(l.location) == meta.1
    &&& opt_seq(l.technologies) == if tags.len() == 0 {
        None
    } else {
        Some(join(tags, ", "@))
    }
    &&& l.client_name is None
    &&& opt_seq(l.posted_date) == it.3
}

/// [`upwork_keeps`] as a function value.
pub open spec fn upwork_keep_fn() -> spec_fn(ItemView) -> bool {
    |it: ItemView| upwork_keeps(it)
}

/// [`upwork_lead`] as a function value.
pub open spec fn upwork_lead_fn() -> spec_fn(ItemView, NewLead) -> bool {
    |it: ItemView, l: NewLead| upwork_lead(it, l)
}

fn tags_of(categories: &Vec<String>) -> (r: Vec<String>)
    ensures
        r.deep_view() == relevant_tags(categories.deep_view()),
{
    let mut out: Vec<String> = Vec::new();
    let mut i: usize = 0;
    while i < categories.len()
        invariant
            i <= categories@.len(),
            out.deep_view() == relevant_tags(categories.deep_view().take(i as int)),
        decreases categories@.len() - i,
    {
        let ghost cv = categories.deep_view();
        assert(cv.take(i + 1).drop_last() =~= cv.take(i as int));
        assert(cv.take(i + 1).last() == categories@[i as int]@);
        let t = trim_str(categories[i].as_str());
        if keyword_relevant(t.as_str()) {
            let ghost prev = out.deep_view();
            out.push(t);
            assert(out.deep_view() =~= prev.push(trim(categories@[i as int]@)));
        }
        i = i + 1;
    }
    assert(categories.deep_view().take(i as int) =~= categories.deep_view());
    out
}

fn item_to_lead(item: &FeedItem) -> (r: Option<NewLead>)
    ensures
        upwork_keeps(item_view(*item)) ==> (r matches Some(l) && upwork_lead(item_view(*item), l)),
        !upwork_keeps(item_view(*item)) ==> r is None,
{
    let title = match &item.title {
        Some(t) => trim_str(t.as_str()),
        None => String::new(),
    };
    if title.as_str().is_empty() {
        return None;
    }
    let link = match &item.link {
        Some(t) => t.clone(),
        None => String::new(),
    };
    let raw_desc = match &item.description {
        Some(t) => t.clone(),
        None => String::new(),
    };
    let description = strip_html(raw_desc.as_str());
    let posted_date = item.pub_date.clone();
    let (budget, location) = extract_meta(title.as_str(), description.as_str());
    let tags = tags_of(&item.categories);
    let technologies = if tags.len() == 0 {
        None
    } else {
        Some(join_strings(&tags, ", "))
    };
    let client_name = guess_client_name(title.as_str());
    Some(NewLead {
        source: owned("upwork"),
        title,
        description: truncate(description.as_str(), 4000),
        url: link,
        budget,
        budget_min: None,
        budget_max: None,
        currency: Some(owned("USD")),
        location,
        technologies,
        client_name,
        posted_date,
    })
}

/// Parses an Upwork RSS feed into leads (see [`upwork_lead`]); fails only when
/// the feed cannot be read.
pub fn parse(body: &str) -> (r: Result<Vec<NewLead>, String>)
    ensures
        r is Ok <==> rss_channel_items(body@) is Some,
        r matches Ok(leads) ==> leads_for(
            rss_channel_items(body@)->0,
            upwork_keep_fn(),
            upwork_lead_fn(),
            leads@,
        ),
{
    let items = match read_feed_items(body) {
        Ok(v) => v,
        Err(e) => return Err(e),
    };
    let ghost iv = items_view(items@);
    let ghost keep = upwork_keep_fn();
    let ghost rel = upwork_lead_fn();
    let mut out: Vec<NewLead> = Vec::new();
    let mut i: usize = 0;
    while i < items.len()
        invariant
            i <= items@.len(),
            iv == items_view(items@),
            keep == upwork_keep_fn(),
            rel == upwork_lead_fn(),
            leads_for(iv.take(i as int), keep, rel, out@),
        decreases items@.len() - i,
    {
        assert(iv.take(i + 1).drop_last() =~= iv.take(i as int));
        assert(iv.take(i + 1).last() == item_view(items@[i as int]));
        let ghost cur = item_view(items@[i as int]);
        assert(keep(cur) == upwork_keeps(cur));
        let ghost before = out@;
        match item_to_lead(&items[i]) {
            Some(l) => {
                out.push(l);
                assert(kept_items(iv.take(i + 1), keep) == kept_items(iv.take(i as int), keep).push(
                    cur,
                ));
                assert(rel(cur, l));
                assert forall|k: int| 0 <= k < out@.len() implies rel(
                    kept_items(iv.take(i + 1), keep)[k],
                    #[trigger] out@[k],
                ) by {
                    if k < before.len() {
                        assert(out@[k] == before[k]);
                    }
                }
            },
            None => {
                assert(kept_items(iv.take(i + 1), keep) == kept_items(iv.take(i as int), keep));
            },
        }
        i = i + 1;
    }
    assert(iv.take(i as int) =~= iv);
    Ok(out)
}

} // verus!
