//! Where each collector looks for a keyword, and the keyword filter applied
//! to the whole-feed sources.

use crate::hunt::{percent_encode, url_encode};
use crate::models::NewLead;

use crate::scraper::{keyword_matches, matches_keyword};
use crate::text::{append_str, chars_of, string_of, trim, trim_str};
use vstd::prelude::*;

verus! {

/// A text percent-encoded as a query value.
pub open spec fn query_value(s: Seq<char>) -> Seq<char> {
    percent_encode(vstd::utf8::encode_utf8(s))
}

fn link_with(prefix: &str, value: &str, suffix: &str) -> (r: String)
    ensures
        r@ == prefix@ + query_value(value@) + suffix@,
{
    let mut out = chars_of(prefix);
    let enc = url_encode(value);
    append_str(&mut out, enc.as_str());
    append_str(&mut out, suffix);
    string_of(&out)
}

/// The Upwork job feed for a keyword, newest first, paid by budget.
pub fn upwork_feed_url(keyword: &str) -> (r: String)
    ensures
        r@ == "https://www.upwork.com/ab/feed/jobs/rss?keywords="@ + query_value(keyword@)
            + "&sort=recency&job_type=billing&payment_verified=1&budget=500-100000&paging=0&api_full_job_description=1"@,
{
    link_with(
        "https://www.upwork.com/ab/feed/jobs/rss?keywords=",
        keyword,
        "&sort=recency&job_type=billing&payment_verified=1&budget=500-100000&paging=0&api_full_job_description=1",
    )
}

/// The Indeed job feed for a keyword, narrowed to a location when one is
/// given and not blank.
pub fn indeed_feed_url(keyword: &str, location: Option<&str>) -> (r: String)
    ensures
        r@ == "https://www.indeed.com/rss?q="@ + query_value(keyword@) + match location {
            Some(l) => if trim(l@).len() > 0 {
                "&l="@ + query_value(trim(l@))
            } else {
                Seq::<char>::empty()
            },
            None => Seq::<char>::empty(),
        },
{
    let mut out = chars_of("https://www.indeed.com/rss?q=");
    let enc = url_encode(keyword);
    append_str(&mut out, enc.as_str());
    match location {
        Some(l) => {
            let t = trim_str(l);
            if !t.as_str().is_empty() {
                append_str(&mut out, "&l=");
                let e = url_encode(t.as_str());
                append_str(&mut out, e.as_str());
            }
        },
        None => {},
    }
    string_of(&out)
}

/// The Remotive job search for a keyword.
pub fn remotive_search_url(keyword: &str) -> (r: String)
    ensures
        r@ == "https://remotive.com/api/remote-jobs?search="@ + query_value(keyword@),
{
    let r = link_with("https://remotive.com/api/remote-jobs?search=", keyword, "");
    proof {
        reveal_strlit("");
    }
    assert(r@ =~= "https://remotive.com/api/remote-jobs?search="@ + query_value(keyword@));
    r
}

/// The Fiverr gig search for a keyword.
pub fn fiverr_search_url(keyword: &str) -> (r: String)
    ensures
        r@ == "https://www.fiverr.com/search/gigs?query="@ + query_value(keyword@),
{
    let r = link_with("https://www.fiverr.com/search/gigs?query=", keyword, "");
    proof {
        reveal_strlit("");
    }
    assert(r@ =~= "https://www.fiverr.com/search/gigs?query="@ + query_value(keyword@));
    r
}

/// The Freelancer project search for a keyword (thirty projects, any state).
pub fn freelancer_search_url(keyword: &str) -> (r: String)
    ensures
        r@ == "https://www.freelancer.com/ajax/search/projects.php?query="@ + query_value(keyword@)
            + "&limit=30&offset=0&state=all"@,
{
    link_with(
        "https://www.freelancer.com/ajax/search/projects.php?query=",
        keyword,
        "&limit=30&offset=0&state=all",
    )
}

/// The text of an optional string.
fn copy_opt(o: &Option<String>) -> (r: Option<String>)
    ensures
        r == *o,
{
    match o {
        Some(s) => Some(s.clone()),
        None => None,
    }
}

/// A copy of a lead.
pub fn copy_lead(l: &NewLead) -> (r: NewLead)
    ensures
        r == *l,
{
    NewLead {
        source: l.source.clone(),
        title: l.title.clone(),
        description: l.description.clone(),
        url: l.url.clone(),
        budget: copy_opt(&l.budget),
        budget_min: l.budget_min,
        budget_max: l.budget_max,
        currency: copy_opt(&l.currency),
        location: copy_opt(&l.location),
        technologies: copy_opt(&l.technologies),
        client_name: copy_opt(&l.client_name),
        posted_date: copy_opt(&l.posted_date),
    }
}

/// The leads that match a keyword (see [`keyword_matches`]), in order.
pub open spec fn matching(leads: Seq<NewLead>, keyword: Seq<char>) -> Seq<NewLead>
    decreases leads.len(),
{
    if leads.len() == 0 {
        leads
    } else {
        let init = matching(leads.drop_last(), keyword);
        if keyword_matches(leads.last(), keyword) {
            init.push(leads.last())
        } else {
            init
        }
    }
}

/// Copies the leads of a whole feed that match a keyword, in order.
pub fn keep_matching(leads: &Vec<NewLead>, keyword: &str) -> (r: Vec<NewLead>)
    ensures
        r@ == matching(leads@, keyword@),
{
    let mut out: Vec<NewLead> = Vec::new();
    let mut i: usize = 0;
    while i < leads.len()
        invariant
            i <= leads@.len(),
            out@ == matching(leads@.take(i as int), keyword@),
        decreases leads@.len() - i,
    {
        assert(leads@.take(i + 1).drop_last() =~= leads@.take(i as int));
        assert(leads@.take(i + 1).last() == leads@[i as int]);
        if matches_keyword(&leads[i], keyword) {
            out.push(copy_lead(&leads[i]));
        }
        i = i + 1;
    }
    assert(leads@.take(i as int) =~= leads@);
    out
}

/// Every lead kept for a keyword matches it, and comes from the feed.
pub proof fn law_kept_leads_match(leads: Seq<NewLead>, keyword: Seq<char>)
    ensures
        forall|i: int|
            0 <= i < matching(leads, keyword).len() ==> keyword_matches(
                #[trigger] matching(leads, keyword)[i],
                keyword,
            ) && leads.contains(matching(leads, keyword)[i]),
    decreases leads.len(),
{
    if leads.len() > 0 {
        let init = leads.drop_last();
        law_kept_leads_match(init, keyword);
        let m = matching(leads, keyword);
        let mi = matching(init, keyword);
        assert forall|i: int| 0 <= i < m.len() implies keyword_matches(#[trigger] m[i], keyword)
            && leads.contains(m[i]) by {
            if i < mi.len() {
                assert(m[i] == mi[i]);
                let k = choose|k: int| 0 <= k < init.len() && init[k] == mi[i];
                assert(leads[k] == mi[i]);
            } else {
                assert(m[i] == leads.last());
                assert(leads[leads.len() - 1] == leads.last());
            }
        }
    }
}

} // verus!
