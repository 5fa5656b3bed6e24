//! Indeed: the openly documented RSS job feed.

use crate::models::NewLead;
use crate::scraper::feed::{
    item_view, items_view, kept_items, leads_for, read_feed_items, rss_channel_items,
    text_or_empty, FeedItem, ItemView,
};
use crate::scraper::patterns::{
    company_pattern, first_capture, keep_word_chars, location_pattern, regex_capture,
    regex_remove_apostrophes, regex_remove_entity, remove_apostrophe_entities, replace_non_word,
    replace_tags, tags_to_spaces,
};
use crate::scraper::upwork::opt_seq;
use crate::scraper::{collapse_ws, collapse_ws_chars, replace_all};
use crate::text::{
    chars_equal, chars_of, join, join_strings, lowercase, owned, string_of, to_lowercase, trim,
    trim_chars, trim_nonempty_strings, trim_str, trimmed_nonempty, truncate, truncated, words,
    words_chars,
};
use vstd::prelude::*;

verus! {

// ---------------------------------------------------------------------------
// Description clean-up
// ---------------------------------------------------------------------------

/// Indeed's description clean-up: tags to spaces, the common entities removed
/// outright, whitespace collapsed.
pub open spec fn indeed_text(s: Seq<char>) -> Seq<char> {
    let a = tags_to_spaces(s);
    let b = replace_all(a, "&amp;"@, Seq::<char>::empty());
    let c = replace_all(b, "&lt;"@, Seq::<char>::empty());
    let d = replace_all(c, "&gt;"@, Seq::<char>::empty());
    let e = replace_all(d, "&quot;"@, Seq::<char>::empty());
    let f = remove_apostrophe_entities(e);
    let g = replace_all(f, "&nbsp;"@, Seq::<char>::empty());
    collapse_ws(g)
}

/// Cleans an Indeed item description (see [`indeed_text`]).
pub fn strip_html(input: &str) -> (r: String)
    ensures
        r@ == indeed_text(input@),
{
    proof {
        reveal_strlit("&amp;");
        reveal_strlit("&lt;");
        reveal_strlit("&gt;");
        reveal_strlit("&quot;");
        reveal_strlit("&nbsp;");
    }
    let a = replace_tags(input);
    let b = regex_remove_entity("&amp;", a.as_str());
    let c = regex_remove_entity("&lt;", b.as_str());
    let d = regex_remove_entity("&gt;", c.as_str());
    let e = regex_remove_entity("&quot;", d.as_str());
    let f = regex_remove_apostrophes(e.as_str());
    let g = regex_remove_entity("&nbsp;", f.as_str());
    let gc = chars_of(g.as_str());
    let h = collapse_ws_chars(&gc);
    string_of(&h)
}

// ---------------------------------------------------------------------------
// Company, location and technologies
// ---------------------------------------------------------------------------

/// Capture group 1 of the first match of the company pattern (the middle of
/// "Title - Company - Place").
pub open spec fn company_capture(text: Seq<char>) -> Option<Seq<char>> {
    regex_capture(company_pattern(), text, 1)
}

fn capture_company(text: &str) -> (r: Option<String>)
    ensures
        opt_seq(r) == company_capture(text@),
{
    first_capture(r"(?i)\s+-\s+([A-Za-z0-9&'. ]{2,60})\s+-\s+[A-Za-z]", text, 1)
}

/// The company guessed from a text: the trimmed capture, when non-empty and at
/// most 60 characters.
pub open spec fn company_in(text: Seq<char>) -> Option<Seq<char>> {
    match company_capture(text) {
        Some(raw) => if trim(raw).len() > 0 && trim(raw).len() <= 60 {
            Some(trim(raw))
        } else {
            None
        },
        None => None,
    }
}

/// Guesses the company from a "Title - Company - Place" text (see [`company_in`]).
pub fn guess_company(input: &str) -> (r: Option<String>)
    ensures
        opt_seq(r) == company_in(input@),
{
    match capture_company(input) {
        Some(raw) => {
            let t = trim_chars(&chars_of(raw.as_str()));
            if t.len() > 0 && t.len() <= 60 {
                Some(string_of(&t))
            } else {
                None
            }
        },
        None => None,
    }
}

/// The whole first match of the location pattern.
pub open spec fn location_match(text: Seq<char>) -> Option<Seq<char>> {
    regex_capture(location_pattern(), text, 0)
}

fn match_location(text: &str) -> (r: Option<String>)
    ensures
        opt_seq(r) == location_match(text@),
{
    first_capture(
        r"(?i)(remote|new york|los angeles|san francisco|austin|seattle|chicago|boston|denver|[\w\s]+,\s*[A-Z]{2})\b",
        text,
        0,
    )
}

/// The location guessed from a text: the trimmed match, when at most 80 characters.
pub open spec fn location_in(text: Seq<char>) -> Option<Seq<char>> {
    match location_match(text) {
        Some(m) => if trim(m).len() <= 80 {
            Some(trim(m))
        } else {
            None
        },
        None => None,
    }
}

/// Guesses a job location from a text (see [`location_in`]).
pub fn guess_location(input: &str) -> (r: Option<String>)
    ensures
        opt_seq(r) == location_in(input@),
{
    match match_location(input) {
        Some(m) => {
            let t = trim_chars(&chars_of(m.as_str()));
            if t.len() <= 80 {
                Some(string_of(&t))
            } else {
                None
            }
        },
        None => None,
    }
}

/// The words among `ws` whose lower-cased text differs from `key`.
pub open spec fn words_other_than(ws: Seq<Seq<char>>, key: Seq<char>) -> Seq<Seq<char>>
    decreases ws.len(),
{
    if ws.len() == 0 {
        ws
    } else if lowercase(ws.last()) != key {
        words_other_than(ws.drop_last(), key).push(ws.last())
    } else {
        words_other_than(ws.drop_last(), key)
    }
}

/// The technologies text for an item: the trimmed keyword, then up to three of
/// the first three title words (title punctuation turned into spaces) that
/// differ from the keyword ignoring case; blank terms dropped; joined by ", ".
pub open spec fn keyword_terms(keyword: Seq<char>, title: Seq<char>) -> Seq<char> {
    let ws = words(keep_word_chars(title));
    let first = ws.take(vstd::math::min(3, ws.len() as int));
    let terms = seq![trim(keyword)] + words_other_than(first, lowercase(trim(keyword)));
    join(trimmed_nonempty(terms), ", "@)
}

/// Builds the technologies text from the keyword and the title (see [`keyword_terms`]).
pub fn keyword_clean(keyword: &str, title: &str) -> (r: String)
    ensures
        r@ == keyword_terms(keyword@, title@),
{
    let kw = trim_str(keyword);
    let kw_low = to_lowercase(kw.as_str());
    let key = chars_of(kw_low.as_str());
    let t = replace_non_word(title);
    let tc = chars_of(t.as_str());
    let ws = words_chars(&tc);
    let n = if ws.len() < 3 {
        ws.len()
    } else {
        3
    };
    let ghost first = ws.deep_view().take(n as int);
    let mut terms: Vec<String> = Vec::new();
    terms.push(kw);
    let mut i: usize = 0;
    while i < n
        invariant
            i <= n <= ws@.len(),
            first == ws.deep_view().take(n as int),
            key@ == lowercase(trim(keyword@)),
            terms.deep_view() == seq![trim(keyword@)] + words_other_than(
                first.take(i as int),
                key@,
            ),
        decreases n - i,
    {
        assert(first.take(i + 1).drop_last() =~= first.take(i as int));
        assert(first.take(i + 1).last() == ws@[i as int]@);
        let w = string_of(&ws[i]);
        let wl = to_lowercase(w.as_str());
        let wlc = chars_of(wl.as_str());
        if !chars_equal(&wlc, &key) {
            let ghost prev = terms.deep_view();
            terms.push(w);
            assert(terms.deep_view() =~= prev.push(ws@[i as int]@));
        }
        i = i + 1;
    }
    assert(first.take(n as int) =~= first);
    let kept = trim_nonempty_strings(&terms);
    join_strings(&kept, ", ")
}

// ---------------------------------------------------------------------------
// Feed items
// ---------------------------------------------------------------------------

/// An item is kept when its trimmed title is non-empty.
pub open spec fn indeed_keeps(it: ItemView) -> bool {
    trim(text_or_empty(it.0)).len() > 0
}

/// The company for an item: from the cleaned description, else from the title.
pub open spec fn item_company(desc: Seq<char>, title: Seq<char>) -> Option<Seq<char>> {
    match company_in(desc) {
        Some(c) => Some(c),
        None => company_in(title),
    }
}

/// The lead made from a kept item, for the searched keyword.
pub open spec fn indeed_lead(keyword: Seq<char>, it: ItemView, l: NewLead) -> bool {
    let title = trim(text_or_empty(it.0));
    let desc = indeed_text(text_or_empty(it.2));
    &&& l.source@ == "indeed"@
    &&& l.title@ == title
    &&& l.description@ == truncated(desc, 4000)
    &&& l.url@ == text_or_empty(it.1)
    &&& l.budget is None && l.budget_min is None && l.budget_max is None
    &&& l.currency matches Some(c) && c@ == "USD"@
    &&& opt_seq(l.location) == location_in(desc)
    &&& l.technologies matches Some(t) && t@ == keyword_terms(keyword, title)
    &&& opt_seq(l.client_name) == item_company(desc, title)
    &&& opt_seq(l.posted_date) == it.3
}

/// [`indeed_keeps`] as a function value.
pub open spec fn indeed_keep_fn() -> spec_fn(ItemView) -> bool {
    |it: ItemView| indeed_keeps(it)
}

/// [`indeed_lead`] for a keyword as a function value.
pub open spec fn indeed_lead_fn(keyword: Seq<char>) -> spec_fn(ItemView, NewLead) -> bool {
    |it: ItemView, l: NewLead| indeed_lead(keyword, it, l)
}

fn item_to_lead(item: &FeedItem, keyword: &str) -> (r: Option<NewLead>)
    ensures
        indeed_keeps(item_view(*item)) ==> (r matches Some(l) && indeed_lead(
            keyword@,
            item_view(*item),
            l,
        )),
        !indeed_keeps(item_view(*item)) ==> r is None,
{
    let title = match &item.title {
        Some(t) => trim_str(t.as_str()),
        None => String::new(),
    };
    if title.as_str().is_empty() {
        return None;
    }
    let link = match &item.link {
        Some(t) => t.clone(),
        None => String::new(),
    };
    let raw_desc = match &item.description {
        Some(t) => t.clone(),
        None => String::new(),
    };
    let description = strip_html(raw_desc.as_str());
    let company = match guess_company(description.as_str()) {
        Some(c) => Some(c),
        None => guess_company(title.as_str()),
    };
    let location = guess_location(description.as_str());
    let tech = keyword_clean(keyword, title.as_str());
    let posted_date = item.pub_date.clone();
    Some(NewLead {
        source: owned("indeed"),
        title,
        description: truncate(description.as_str(), 4000),
        url: link,
        budget: None,
        budget_min: None,
        budget_max: None,
        currency: Some(owned("USD")),
        location,
        technologies: Some(tech),
        client_name: company,
        posted_date,
    })
}

/// Parses an Indeed RSS feed into leads for a keyword (see [`indeed_lead`]);
/// fails only when the feed cannot be read.
pub fn parse(body: &str, keyword: &str) -> (r: Result<Vec<NewLead>, String>)
    ensures
        r is Ok <==> rss_channel_items(body@) is Some,
        r matches Ok(leads) ==> leads_for(
            rss_channel_items(body@)->0,
            indeed_keep_fn(),
            indeed_lead_fn(keyword@),
            leads@,
        ),
{
    let items = match read_feed_items(body) {
        Ok(v) => v,
        Err(e) => return Err(e),
    };
    let ghost iv = items_view(items@);
    let ghost keep = indeed_keep_fn();
    let ghost rel = indeed_lead_fn(keyword@);
    let mut out: Vec<NewLead> = Vec::new();
    let mut i: usize = 0;
    while i < items.len()
        invariant
            i <= items@.len(),
            iv == items_view(items@),
            keep == indeed_keep_fn(),
            rel == indeed_lead_fn(keyword@),
            leads_for(iv.take(i as int), keep, rel, out@),
        decreases items@.len() - i,
    {
        assert(iv.take(i + 1).drop_last() =~= iv.take(i as int));
        assert(iv.take(i + 1).last() == item_view(items@[i as int]));
        let ghost cur = item_view(items@[i as int]);
        assert(keep(cur) == indeed_keeps(cur));
        let ghost before = out@;
        match item_to_lead(&items[i], keyword) {
            Some(l) => {
                out.push(l);
                assert(kept_items(iv.take(i + 1), keep) == kept_items(iv.take(i as int), keep).push(
                    cur,
                ));
                assert(rel(cur, l));
                assert forall|k: int| 0 <= k < out@.len() implies rel(
                    kept_items(iv.take(i + 1), keep)[k],
                    #[trigger] out@[k],
                ) by {
                    if k < before.len() {
                        assert(out@[k] == before[k]);
                    }
                }
            },
            None => {
                assert(kept_items(iv.take(i + 1), keep) == kept_items(iv.take(i as int), keep));
            },
        }
        i = i + 1;
    }
    assert(iv.take(i as int) =~= iv);
    Ok(out)
}

} // verus!
