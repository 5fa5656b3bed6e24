//! The regular expressions the collectors apply, through the `regex` crate.
//!
//! Where a pattern's meaning fits in a few lines it is stated exactly;
//! otherwise its result is named.

use crate::scraper::replace_all;
use crate::text::{index_from, is_ascii_alnum, lemma_index_from, trim};
use vstd::prelude::*;

verus! {

/// What `Regex::new("<[^>]*>").replace_all(s, " ")` gives: scanning from the
/// left, each `<` that has a `>` somewhere after it starts a match that ends
/// at the first such `>`; every match becomes one space.
pub open spec fn tags_to_spaces(s: Seq<char>) -> Seq<char>
    decreases s.len(),
{
    if s.len() == 0 {
        s
    } else if s[0] == '<' && index_from(s, '>', 1) < s.len() {
        let j = index_from(s, '>', 1);
        proof {
            lemma_index_from(s, '>', 1);
        }
        seq![' '] + tags_to_spaces(s.skip(j + 1))
    } else {
        seq![s[0]] + tags_to_spaces(s.drop_first())
    }
}

/// The pattern for HTML tags.
pub open spec fn tag_pattern() -> Seq<char> {
    "<[^>]*>"@
}

/// The pattern for characters other than ASCII letters, digits and spaces.
pub open spec fn non_word_pattern() -> Seq<char> {
    "[^a-zA-Z0-9 ]"@
}

/// The pattern for the two apostrophe entities.
pub open spec fn apostrophe_pattern() -> Seq<char> {
    "&#39;|&apos;"@
}

/// A tag-free, trimmed text: tags replaced by spaces, then `trim`.
pub open spec fn strip_tags_text(s: Seq<char>) -> Seq<char> {
    trim(tags_to_spaces(s))
}

/// ASCII letters, digits and the space are kept; every other character is
/// replaced by a space.
pub open spec fn word_char_or_space(c: char) -> char {
    if is_ascii_alnum(c) || c == ' ' {
        c
    } else {
        ' '
    }
}

/// What `Regex::new("[^a-zA-Z0-9 ]").replace_all(s, " ")` gives: each
/// character outside the class becomes a space.
pub open spec fn keep_word_chars(s: Seq<char>) -> Seq<char> {
    s.map_values(|c: char| word_char_or_space(c))
}

/// An HTML entity pattern such as `&amp;`: `&`, lower-case ASCII letters,
/// `;`. `regex` reads such a pattern as its literal text.
pub open spec fn entity_pattern(p: Seq<char>) -> bool {
    &&& p.len() >= 3
    &&& p[0] == '&'
    &&& p.last() == ';'
    &&& forall|i: int| 1 <= i < p.len() - 1 ==> 'a' <= #[trigger] p[i] && p[i] <= 'z'
}

/// What `Regex::new("&#39;|&apos;").replace_all(s, "")` gives: scanning from
/// the left, each `&#39;` or `&apos;` is removed.
pub open spec fn remove_apostrophe_entities(s: Seq<char>) -> Seq<char>
    decreases s.len(),
{
    if s.len() == 0 {
        s
    } else if crate::text::occurs_at(s, seq!['&', '#', '3', '9', ';'], 0) {
        remove_apostrophe_entities(s.skip(5))
    } else if crate::text::occurs_at(s, seq!['&', 'a', 'p', 'o', 's', ';'], 0) {
        remove_apostrophe_entities(s.skip(6))
    } else {
        seq![s[0]] + remove_apostrophe_entities(s.drop_first())
    }
}

/// The replacements the collectors make: tags and non-word characters by a
/// space, entities by nothing.
pub open spec fn known_replacement(pattern: Seq<char>, rep: Seq<char>) -> bool {
    ||| entity_pattern(pattern) && rep == Seq::<char>::empty()
    ||| pattern == apostrophe_pattern() && rep == Seq::<char>::empty()
    ||| pattern == tag_pattern() && rep == seq![' ']
    ||| pattern == non_word_pattern() && rep == seq![' ']
}

/// What `Regex::new(pattern).replace_all(text, rep)` gives for a known
/// replacement: an entity pattern is its literal text, removed wherever it
/// occurs; the others as [`remove_apostrophe_entities`], [`tags_to_spaces`]
/// and [`keep_word_chars`] state.
pub open spec fn regex_replaced(pattern: Seq<char>, text: Seq<char>) -> Seq<char> {
    if entity_pattern(pattern) {
        replace_all(text, pattern, Seq::<char>::empty())
    } else if pattern == apostrophe_pattern() {
        remove_apostrophe_entities(text)
    } else if pattern == tag_pattern() {
        tags_to_spaces(text)
    } else {
        keep_word_chars(text)
    }
}

/// Calls `regex::Regex::new(pattern)` and `replace_all(text, rep)` for one of
/// the known replacements; what that gives is stated in [`regex_replaced`].
/// None of the replacements holds a `$`, so none refers to a group.
#[verifier::external_body]
pub(crate) fn regex_replace_all(pattern: &str, text: &str, rep: &str) -> (r: String)
    requires
        known_replacement(pattern@, rep@),
    ensures
        r@ == regex_replaced(pattern@, text@),
{
    regex::Regex::new(pattern).unwrap().replace_all(text, rep).into_owned()
}

/// Replaces every tag by a space (see [`tags_to_spaces`]).
pub(crate) fn replace_tags(s: &str) -> (r: String)
    ensures
        r@ == tags_to_spaces(s@),
{
    proof {
        reveal_strlit("<[^>]*>");
        reveal_strlit("&#39;|&apos;");
        reveal_strlit(" ");
        assert(tag_pattern()[0] == '<');
        assert(apostrophe_pattern()[0] == '&');
        assert(" "@ =~= seq![' ']);
    }
    regex_replace_all("<[^>]*>", s, " ")
}

/// Replaces every character other than ASCII letters, digits and spaces by a
/// space (see [`keep_word_chars`]).
pub(crate) fn replace_non_word(s: &str) -> (r: String)
    ensures
        r@ == keep_word_chars(s@),
{
    proof {
        reveal_strlit("[^a-zA-Z0-9 ]");
        reveal_strlit("&#39;|&apos;");
        reveal_strlit("<[^>]*>");
        reveal_strlit(" ");
        assert(non_word_pattern()[0] == '[');
        assert(apostrophe_pattern()[0] == '&');
        assert(tag_pattern()[0] == '<');
        assert(" "@ =~= seq![' ']);
    }
    regex_replace_all("[^a-zA-Z0-9 ]", s, " ")
}

/// Removes every occurrence of an entity (see [`entity_pattern`]).
pub(crate) fn regex_remove_entity(pattern: &str, text: &str) -> (r: String)
    requires
        entity_pattern(pattern@),
    ensures
        r@ == replace_all(text@, pattern@, Seq::<char>::empty()),
{
    proof {
        reveal_strlit("");
        assert(""@ =~= Seq::<char>::empty());
    }
    regex_replace_all(pattern, text, "")
}

/// Removes every `&#39;` and `&apos;` (see [`remove_apostrophe_entities`]).
pub(crate) fn regex_remove_apostrophes(s: &str) -> (r: String)
    ensures
        r@ == remove_apostrophe_entities(s@),
{
    proof {
        reveal_strlit("&#39;|&apos;");
        reveal_strlit("");
        let p = apostrophe_pattern();
        assert(!('a' <= p[1] && p[1] <= 'z'));
        assert(!entity_pattern(p));
        assert(""@ =~= Seq::<char>::empty());
    }
    regex_replace_all("&#39;|&apos;", s, "")
}

/// Replaces tags by spaces and trims (the clean-up the Fiverr and Freelancer
/// collectors apply).
pub fn strip_tags(s: &str) -> (r: String)
    ensures
        r@ == strip_tags_text(s@),
{
    let t = replace_tags(s);
    crate::text::trim_str(t.as_str())
}

// ---------------------------------------------------------------------------
// First match
// ---------------------------------------------------------------------------

/// The pattern for a budget in a description.
pub open spec fn budget_pattern() -> Seq<char> {
    r"(?i)budget:?\s*\$?([\d\w\s\.,\-]+)"@
}

/// The pattern for the company in "Title - Company - Place".
pub open spec fn company_pattern() -> Seq<char> {
    r"(?i)\s+-\s+([A-Za-z0-9&'. ]{2,60})\s+-\s+[A-Za-z]"@
}

/// The pattern for a job location: a known city, "remote", or "Place, ST".
pub open spec fn location_pattern() -> Seq<char> {
    r"(?i)(remote|new york|los angeles|san francisco|austin|seattle|chicago|boston|denver|[\w\s]+,\s*[A-Z]{2})\b"@
}

/// The capture groups the collectors read: group 1 of the budget and company
/// patterns, the whole match of the location pattern.
pub open spec fn known_capture(pattern: Seq<char>, group: nat) -> bool {
    ||| pattern == budget_pattern() && group == 1
    ||| pattern == company_pattern() && group == 1
    ||| pattern == location_pattern() && group == 0
}

/// Group `group` of the first match of `pattern` in `text`, as
/// `regex::Regex::captures` finds it (`None` when nothing matches).
pub uninterp spec fn regex_capture(pattern: Seq<char>, text: Seq<char>, group: nat) -> Option<Seq<char>>;

/// Calls `regex::Regex::new(pattern)` and `captures(text)`, returning group
/// `group`; the result is named [`regex_capture`] and depends on the three
/// arguments alone. Each known pattern compiles, and its group takes part in
/// every match. The regex semantics are not spelled out.
#[verifier::external_body]
pub(crate) fn first_capture(pattern: &str, text: &str, group: usize) -> (r: Option<String>)
    requires
        known_capture(pattern@, group as nat),
    ensures
        crate::scraper::upwork::opt_seq(r) == regex_capture(pattern@, text@, group as nat),
{
    match regex::Regex::new(pattern).unwrap().captures(text) {
        Some(cap) => cap.get(group).map(|m| m.as_str().to_string()),
        None => None,
    }
}

} // verus!
