//! We Work Remotely: a public RSS feed of remote programming jobs.

use crate::models::NewLead;
use crate::scraper::feed::{
    item_view, items_view, kept_items, leads_for, read_feed_items, rss_channel_items,
    text_or_empty, FeedItem, ItemView,
};
use crate::scraper::{html_to_text, strip_html};
use crate::text::{
    append_str, chars_of, owned, split_once, split_once_chars, string_of, trim, trim_chars,
    trim_str,
};
use vstd::prelude::*;

verus! {

/// `Company: Role` split into its trimmed halves, when both are non-empty.
pub open spec fn company_and_role(title: Seq<char>) -> Option<(Seq<char>, Seq<char>)> {
    match split_once(title, ':') {
        None => None,
        Some((a, b)) => if trim(a).len() == 0 || trim(b).len() == 0 {
            None
        } else {
            Some((trim(a), trim(b)))
        },
    }
}

/// Extracts `<Company>: <role>` style titles into (company, role); `None` when
/// there is no `:` or either side is blank.
pub fn client_name(title: &str) -> (r: Option<(String, String)>)
    ensures
        match company_and_role(title@) {
            None => r is None,
            Some((c, role)) => r matches Some((x, y)) && x@ == c && y@ == role,
        },
{
    let cs = chars_of(title);
    match split_once_chars(&cs, ':') {
        None => None,
        Some((a, b)) => {
            let comp = trim_chars(&a);
            let role = trim_chars(&b);
            if comp.len() == 0 || role.len() == 0 {
                None
            } else {
                Some((string_of(&comp), string_of(&role)))
            }
        },
    }
}

/// An item is kept when its trimmed title and trimmed link are non-empty.
pub open spec fn wwr_keeps(it: ItemView) -> bool {
    trim(text_or_empty(it.0)).len() > 0 && trim(text_or_empty(it.1)).len() > 0
}

/// The lead made from a kept item: the role as title and the company as client
/// when the title reads `Company: Role`, the item's description as text (or a
/// pointer to the link), remote location, and the publication date when it is
/// non-empty.
pub open spec fn wwr_lead(it: ItemView, l: NewLead) -> bool {
    let title = trim(text_or_empty(it.0));
    let link = trim(text_or_empty(it.1));
    let desc = match it.2 {
        Some(d) => html_to_text(d),
        None => Seq::<char>::empty(),
    };
    &&& l.source@ == "weworkremotely"@
    &&& l.title@ == match company_and_role(title) {
        Some((_, role)) => role,
        None => title,
    }
    &&& l.description@ == if desc.len() == 0 {
        "Sourced from We Work Remotely. Apply at: "@ + link
    } else {
        desc
    }
    &&& l.url@ == link
    &&& l.budget is None && l.budget_min is None && l.budget_max is None
    &&& l.currency is None
    &&& l.location matches Some(loc) && loc@ == "Remote / Worldwide"@
    &&& l.technologies is None
    &&& match company_and_role(title) {
        Some((company, _)) => l.client_name matches Some(c) && c@ == company,
        None => l.client_name is None,
    }
    &&& match it.3 {
        Some(d) => if d.len() == 0 {
            l.posted_date is None
        } else {
            l.posted_date matches Some(p) && p@ == d
        },
        None => l.posted_date is None,
    }
}

/// [`wwr_keeps`] as a function value.
pub open spec fn wwr_keep_fn() -> spec_fn(ItemView) -> bool {
    |it: ItemView| wwr_keeps(it)
}

/// [`wwr_lead`] as a function value.
pub open spec fn wwr_lead_fn() -> spec_fn(ItemView, NewLead) -> bool {
    |it: ItemView, l: NewLead| wwr_lead(it, l)
}

/// The lead for one kept item.
fn item_to_lead(item: &FeedItem) -> (r: Option<NewLead>)
    ensures
        wwr_keeps(item_view(*item)) ==> (r matches Some(l) && wwr_lead(item_view(*item), l)),
        !wwr_keeps(item_view(*item)) ==> r is None,
{
    let title = match &item.title {
        Some(t) => trim_str(t.as_str()),
        None => String::new(),
    };
    if title.as_str().is_empty() {
        return None;
    }
    let link = match &item.link {
        Some(t) => trim_str(t.as_str()),
        None => String::new(),
    };
    if link.as_str().is_empty() {
        return None;
    }
    let posted_date = match &item.pub_date {
        Some(d) => if d.as_str().is_empty() {
            None
        } else {
            Some(d.clone())
        },
        None => None,
    };
    let desc = match &item.description {
        Some(d) => strip_html(d.as_str()),
        None => String::new(),
    };
    let description = if desc.as_str().is_empty() {
        let mut out: Vec<char> = chars_of("Sourced from We Work Remotely. Apply at: ");
        append_str(&mut out, link.as_str());
        string_of(&out)
    } else {
        desc
    };
    let split = client_name(title.as_str());
    let (lead_title, client) = match split {
        Some((c, role)) => (role, Some(c)),
        None => (title, None),
    };
    Some(NewLead {
        source: owned("weworkremotely"),
        title: lead_title,
        description,
        url: link,
        budget: None,
        budget_min: None,
        budget_max: None,
        currency: None,
        location: Some(owned("Remote / Worldwide")),
        technologies: None,
        client_name: client,
        posted_date,
    })
}

/// Parses the feed into leads (see [`wwr_lead`]); fails only when the feed
/// cannot be read.
pub fn parse(body: &str) -> (r: Result<Vec<NewLead>, String>)
    ensures
        r is Ok <==> rss_channel_items(body@) is Some,
        r matches Ok(leads) ==> leads_for(
            rss_channel_items(body@)->0,
            wwr_keep_fn(),
            wwr_lead_fn(),
            leads@,
        ),
{
    let items = match read_feed_items(body) {
        Ok(v) => v,
        Err(e) => return Err(e),
    };
    let ghost iv = items_view(items@);
    let ghost keep = wwr_keep_fn();
    let ghost rel = wwr_lead_fn();
    let mut out: Vec<NewLead> = Vec::new();
    let mut i: usize = 0;
    while i < items.len()
        invariant
            i <= items@.len(),
            iv == items_view(items@),
            keep == wwr_keep_fn(),
            rel == wwr_lead_fn(),
            leads_for(iv.take(i as int), keep, rel, out@),
        decreases items@.len() - i,
    {
        assert(iv.take(i + 1).drop_last() =~= iv.take(i as int));
        assert(iv.take(i + 1).last() == item_view(items@[i as int]));
        let ghost cur = item_view(items@[i as int]);
        assert(keep(cur) == wwr_keeps(cur));
        let ghost before = out@;
        match item_to_lead(&items[i]) {
            Some(l) => {
                out.push(l);
                assert(kept_items(iv.take(i + 1), keep) == kept_items(iv.take(i as int), keep).push(
                    cur,
                ));
                assert(rel(cur, l));
                assert forall|k: int| 0 <= k < out@.len() implies rel(
                    kept_items(iv.take(i + 1), keep)[k],
                    #[trigger] out@[k],
                ) by {
                    if k < before.len() {
                        assert(out@[k] == before[k]);
                    }
                }
            },
            None => {
                assert(kept_items(iv.take(i + 1), keep) == kept_items(iv.take(i as int), keep));
            },
        }
        i = i + 1;
    }
    assert(iv.take(i as int) =~= iv);
    Ok(out)
}

} // verus!
