//! RSS feeds, read through the `rss` crate.

use crate::models::NewLead;
use vstd::prelude::*;

verus! {

/// The parts of an RSS `<item>` the collectors read.
pub struct FeedItem {
    pub title: Option<String>,
    pub link: Option<String>,
    pub description: Option<String>,
    pub pub_date: Option<String>,
    pub categories: Vec<String>,
}

/// An item's fields as plain values: title, link, description, publication
/// date and category names.
pub type ItemView = (
    Option<Seq<char>>,
    Option<Seq<char>>,
    Option<Seq<char>>,
    Option<Seq<char>>,
    Seq<Seq<char>>,
);

/// The text of an optional string.
pub open spec fn opt_text(o: Option<String>) -> Option<Seq<char>> {
    match o {
        Some(s) => Some(s@),
        None => None,
    }
}

/// The text of an optional text, or the empty text.
pub open spec fn text_or_empty(o: Option<Seq<char>>) -> Seq<char> {
    match o {
        Some(s) => s,
        None => Seq::<char>::empty(),
    }
}

/// A feed item as plain values.
pub open spec fn item_view(it: FeedItem) -> ItemView {
    (
        opt_text(it.title),
        opt_text(it.link),
        opt_text(it.description),
        opt_text(it.pub_date),
        it.categories.deep_view(),
    )
}

/// Feed items as plain values.
pub open spec fn items_view(items: Seq<FeedItem>) -> Seq<ItemView> {
    items.map_values(|it: FeedItem| item_view(it))
}

/// The items `rss::Channel::read_from` finds in a feed document, or `None`
/// when the document is not a feed it can read.
pub uninterp spec fn rss_channel_items(body: Seq<char>) -> Option<Seq<ItemView>>;

/// Calls `rss::Channel::read_from` on the document's bytes and copies out each
/// item's title, link, description, publication date and category names. The
/// result is named [`rss_channel_items`]; the error text is not specified.
#[verifier::external_body]
pub(crate) fn read_feed_items(body: &str) -> (r: Result<Vec<FeedItem>, String>)
    ensures
        r is Ok <==> rss_channel_items(body@) is Some,
        r matches Ok(v) ==> rss_channel_items(body@) == Some(items_view(v@)),
{
    match rss::Channel::read_from(body.as_bytes()) {
        Ok(channel) => Ok(channel.items().iter().map(|item| FeedItem {
            title: item.title().map(String::from),
            link: item.link().map(String::from),
            description: item.description().map(String::from),
            pub_date: item.pub_date().map(String::from),
            categories: item.categories().iter().map(|c| c.name.clone()).collect(),
        }).collect()),
        Err(e) => Err(format!("rss parse: {}", e)),
    }
}

/// The items of a feed that a collector keeps, in order.
pub open spec fn kept_items(items: Seq<ItemView>, keep: spec_fn(ItemView) -> bool) -> Seq<
    ItemView,
>
    decreases items.len(),
{
    if items.len() == 0 {
        items
    } else if keep(items.last()) {
        kept_items(items.drop_last(), keep).push(items.last())
    } else {
        kept_items(items.drop_last(), keep)
    }
}

/// Leads correspond one to one, in order, to the kept items.
pub open spec fn leads_for(
    items: Seq<ItemView>,
    keep: spec_fn(ItemView) -> bool,
    rel: spec_fn(ItemView, NewLead) -> bool,
    leads: Seq<NewLead>,
) -> bool {
    let kept = kept_items(items, keep);
    leads.len() == kept.len() && forall|i: int| 0 <= i < leads.len() ==> rel(kept[i], #[trigger] leads[i])
}

} // verus!
