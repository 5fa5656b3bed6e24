//! The rules the lead store applies: the base score a lead is stored with,
//! the client made from a lead, the keyword setting and the dashboard's
//! technology ranking.

use crate::models::{Lead, NewClient, NewLead, TechCount};
use crate::scraper::upwork::opt_seq;
use crate::text::{
    chars_equal, chars_of, contains, contains_chars, list_items, lowercase, owned, parse_list,
    split, split_chars, string_of, to_lowercase, trim, trim_chars,
};
use vstd::prelude::*;

verus! {

broadcast use crate::views::lemma_char_vec_deep_view;

// ---------------------------------------------------------------------------
// Base score
// ---------------------------------------------------------------------------

/// Where the upper end of a budget text falls, once read as a decimal
/// number (see [`budget_number_text`]).
pub enum UpperBudget {
    /// The text is not a number.
    Unreadable,
    Under500,
    From500,
    From1000,
}

/// Points for the upper end of the budget.
pub open spec fn upper_points(u: UpperBudget) -> int {
    match u {
        UpperBudget::From1000 => 20,
        UpperBudget::From500 => 10,
        _ => 0,
    }
}

/// Whether the ASCII digit, `.` or `-` filter keeps a character.
pub open spec fn number_char(c: char) -> bool {
    ('0' <= c && c <= '9') || c == '.' || c == '-'
}

/// The characters the filter keeps, in order.
pub open spec fn number_chars(s: Seq<char>) -> Seq<char>
    decreases s.len(),
{
    if s.len() == 0 {
        s
    } else if number_char(s.last()) {
        number_chars(s.drop_last()).push(s.last())
    } else {
        number_chars(s.drop_last())
    }
}

/// The text read as the budget's upper end: digits, `.` and `-` kept, the
/// part after the last `-`, trimmed.
pub open spec fn budget_number(s: Seq<char>) -> Seq<char> {
    trim(split(number_chars(s), '-').last())
}

/// Extracts the text read as the budget's upper end (see [`budget_number`]).
pub fn budget_number_text(budget: &str) -> (r: String)
    ensures
        r@ == budget_number(budget@),
{
    let cs = chars_of(budget);
    let mut kept: Vec<char> = Vec::new();
    let mut i: usize = 0;
    while i < cs.len()
        invariant
            i <= cs@.len(),
            kept@ == number_chars(cs@.take(i as int)),
        decreases cs@.len() - i,
    {
        assert(cs@.take(i + 1).drop_last() =~= cs@.take(i as int));
        let c = cs[i];
        if ('0' <= c && c <= '9') || c == '.' || c == '-' {
            kept.push(c);
        }
        i = i + 1;
    }
    assert(cs@.take(i as int) =~= cs@);
    let parts = split_chars(&kept, '-');
    proof {
        crate::text::lemma_split_nonempty(kept@, '-');
    }
    let last = trim_chars(&parts[parts.len() - 1]);
    string_of(&last)
}

/// The urgency words that add points when the technologies mention them.
pub open spec fn urgency_words() -> Seq<Seq<char>> {
    seq!["urgent"@, "asap"@, "immediately"@, "today"@, "now"@]
}

/// Five points per urgency word found in the lower-cased technologies.
pub open spec fn urgency_points(words: Seq<Seq<char>>, tech: Seq<char>) -> int
    decreases words.len(),
{
    if words.len() == 0 {
        0
    } else {
        urgency_points(words.drop_last(), tech) + if contains(lowercase(tech), words.last()) {
            5int
        } else {
            0int
        }
    }
}

/// The base score of a new lead: 20 for known amounts, 10 for a budget text
/// plus the points for its upper end, 10 for a known client, 5 for a known
/// location, and 5 per urgency word in the technologies.
pub open spec fn lead_score(l: NewLead, upper: UpperBudget) -> int {
    (if l.budget_min is Some || l.budget_max is Some {
        20int
    } else {
        0int
    }) + (if l.budget is Some {
        10 + upper_points(upper)
    } else {
        0int
    }) + (if l.client_name is Some {
        10int
    } else {
        0int
    }) + (if l.location is Some {
        5int
    } else {
        0int
    }) + match l.technologies {
        Some(t) => urgency_points(urgency_words(), t@),
        None => 0int,
    }
}

proof fn lemma_urgency_bound(words: Seq<Seq<char>>, tech: Seq<char>)
    ensures
        0 <= urgency_points(words, tech) <= 5 * words.len(),
    decreases words.len(),
{
    if words.len() > 0 {
        lemma_urgency_bound(words.drop_last(), tech);
    }
}

/// The base score a lead is stored with (see [`lead_score`]); `upper` says
/// where the upper end of its budget text falls.
pub fn score_lead(l: &NewLead, upper: UpperBudget) -> (r: i64)
    ensures
        r == lead_score(*l, upper),
        0 <= r <= 90,
{
    let mut score: i64 = 0;
    if l.budget_min.is_some() || l.budget_max.is_some() {
        score = score + 20;
    }
    if l.budget.is_some() {
        score = score + 10;
        match upper {
            UpperBudget::From1000 => {
                score = score + 20;
            },
            UpperBudget::From500 => {
                score = score + 10;
            },
            _ => {},
        }
    }
    if l.client_name.is_some() {
        score = score + 10;
    }
    if l.location.is_some() {
        score = score + 5;
    }
    match &l.technologies {
        Some(tech) => {
            let low = to_lowercase(tech.as_str());
            let t = chars_of(low.as_str());
            let words = vec!["urgent", "asap", "immediately", "today", "now"];
            let ghost ws = urgency_words();
            let ghost base = score;
            let mut k: usize = 0;
            while k < words.len()
                invariant
                    k <= words@.len(),
                    words@.len() == 5,
                    ws == urgency_words(),
                    forall|m: int| 0 <= m < 5 ==> (#[trigger] words@[m])@ == ws[m],
                    t@ == lowercase(tech@),
                    0 <= base <= 65,
                    score == base + urgency_points(ws.take(k as int), tech@),
                decreases words@.len() - k,
            {
                proof {
                    assert(ws.take(k + 1).drop_last() =~= ws.take(k as int));
                    lemma_urgency_bound(ws.take(k as int), tech@);
                }
                let w = chars_of(words[k]);
                if contains_chars(&t, &w) {
                    score = score + 5;
                }
                k = k + 1;
            }
            assert(ws.take(5) =~= ws);
            proof {
                lemma_urgency_bound(ws, tech@);
            }
        },
        None => {},
    }
    score
}

// ---------------------------------------------------------------------------
// Client from a lead
// ---------------------------------------------------------------------------

/// The name a client made from a lead gets: the lead's client name unless it
/// is blank, else "Client from lead".
pub open spec fn client_name_of(name: Option<Seq<char>>) -> Seq<char> {
    match name {
        Some(n) => if trim(n).len() > 0 {
            n
        } else {
            "Client from lead"@
        },
        None => "Client from lead"@,
    }
}

fn copy_opt(o: &Option<String>) -> (r: Option<String>)
    ensures
        opt_seq(r) == opt_seq(*o),
{
    match o {
        Some(s) => Some(s.clone()),
        None => None,
    }
}

/// The client record made from a lead: linked to it, named after its client
/// (see [`client_name_of`]), with the client name as company, the lead's
/// source, and its technologies as preferences. The lead's notes go with it.
pub fn client_for_lead(lead: &Lead) -> (r: NewClient)
    ensures
        r.lead_id == Some(lead.id),
        r.name@ == client_name_of(opt_seq(lead.client_name)),
        opt_seq(r.company) == opt_seq(lead.client_name),
        opt_seq(r.source) == Some(lead.source@),
        opt_seq(r.preferences) == opt_seq(lead.technologies),
        r.email is None && r.country is None && r.website is None,
        r.whatsapp is None && r.linkedin is None && r.past_work is None,
{
    let name = match &lead.client_name {
        Some(n) => {
            let nc = chars_of(n.as_str());
            let t = trim_chars(&nc);
            if t.len() > 0 {
                n.clone()
            } else {
                owned("Client from lead")
            }
        },
        None => owned("Client from lead"),
    };
    NewClient {
        lead_id: Some(lead.id),
        name,
        email: None,
        company: copy_opt(&lead.client_name),
        country: None,
        website: None,
        whatsapp: None,
        source: Some(lead.source.clone()),
        linkedin: None,
        past_work: None,
        preferences: copy_opt(&lead.technologies),
    }
}

// ---------------------------------------------------------------------------
// Keyword setting
// ---------------------------------------------------------------------------

/// The saved keywords: the items of the comma-separated setting (none when
/// it is unset).
pub fn keywords_from_setting(setting: &Option<String>) -> (r: Vec<String>)
    ensures
        r.deep_view() == list_items(
            match opt_seq(*setting) {
                Some(s) => s,
                None => Seq::<char>::empty(),
            },
        ),
{
    match setting {
        Some(s) => parse_list(s.as_str()),
        None => {
            proof {
                reveal_strlit("");
            }
            assert(""@ =~= Seq::<char>::empty());
            parse_list("")
        },
    }
}

// ---------------------------------------------------------------------------
// Technology ranking
// ---------------------------------------------------------------------------

/// The technology mentions of the leads: each technologies text split on
/// commas, trimmed, blanks dropped, lower-cased; in lead order.
pub open spec fn tech_tokens(techs: Seq<Seq<char>>) -> Seq<Seq<char>>
    decreases techs.len(),
{
    if techs.len() == 0 {
        Seq::<Seq<char>>::empty()
    } else {
        tech_tokens(techs.drop_last()) + list_items(techs.last()).map_values(
            |t: Seq<char>| lowercase(t),
        )
    }
}

/// How many times `t` occurs in `toks`.
pub open spec fn count_of(toks: Seq<Seq<char>>, t: Seq<char>) -> int
    decreases toks.len(),
{
    if toks.len() == 0 {
        0
    } else {
        count_of(toks.drop_last(), t) + if toks.last() == t {
            1int
        } else {
            0int
        }
    }
}

/// The distinct mentions, in order of first appearance.
pub open spec fn distinct(toks: Seq<Seq<char>>) -> Seq<Seq<char>>
    decreases toks.len(),
{
    if toks.len() == 0 {
        toks
    } else if toks.drop_last().contains(toks.last()) {
        distinct(toks.drop_last())
    } else {
        distinct(toks.drop_last()).push(toks.last())
    }
}

/// A count as stored: the count itself, or the largest `i64` beyond it.
pub open spec fn capped(n: int) -> int {
    if n > i64::MAX {
        i64::MAX as int
    } else {
        n
    }
}

/// The technology ranking as plain values.
pub open spec fn ranking_view(r: Seq<TechCount>) -> Seq<(Seq<char>, int)> {
    r.map_values(|t: TechCount| (t.tech@, t.count as int))
}

/// `r` ranks the most mentioned technologies: at most ten distinct ones,
/// each with its (capped) count, in non-increasing order of count, and no
/// technology left out is mentioned more often than one kept.
pub open spec fn top_ranking(toks: Seq<Seq<char>>, r: Seq<(Seq<char>, int)>) -> bool {
    let d = distinct(toks);
    &&& r.len() == vstd::math::min(10, d.len() as int)
    &&& forall|i: int| 0 <= i < r.len() ==> d.contains(#[trigger] r[i].0) && r[i].1 == capped(count_of(toks, r[i].0))
    &&& forall|i: int, j: int| 0 <= i < j < r.len() ==> #[trigger] r[i].0 != #[trigger] r[j].0 && r[i].1 >= r[j].1
    &&& forall|t: Seq<char>, i: int|
        #![trigger d.contains(t), r[i]]
        d.contains(t) && 0 <= i < r.len() && (forall|k: int| 0 <= k < r.len() ==> r[k].0 != t)
            ==> capped(count_of(toks, t)) <= r[i].1
}

proof fn lemma_contains_split(toks: Seq<Seq<char>>, t: Seq<char>)
    requires
        toks.len() > 0,
    ensures
        toks.contains(t) <==> (toks.drop_last().contains(t) || t == toks.last()),
{
    let init = toks.drop_last();
    if toks.contains(t) && t != toks.last() {
        let k = choose|k: int| 0 <= k < toks.len() && toks[k] == t;
        assert(k != toks.len() - 1);
        assert(init[k] == t);
    }
    if init.contains(t) {
        let k = choose|k: int| 0 <= k < init.len() && init[k] == t;
        assert(toks[k] == t);
    }
    if t == toks.last() {
        assert(toks[toks.len() - 1] == t);
    }
}

proof fn lemma_push_contains(s: Seq<Seq<char>>, x: Seq<char>, t: Seq<char>)
    ensures
        s.push(x).contains(t) <==> (s.contains(t) || t == x),
{
    let p = s.push(x);
    assert(p.drop_last() =~= s);
    lemma_contains_split(p, t);
}

proof fn lemma_distinct(toks: Seq<Seq<char>>)
    ensures
        forall|t: Seq<char>| distinct(toks).contains(t) <==> toks.contains(t),
        distinct(toks).no_duplicates(),
    decreases toks.len(),
{
    if toks.len() > 0 {
        let init = toks.drop_last();
        lemma_distinct(init);
        assert forall|t: Seq<char>| distinct(toks).contains(t) <==> toks.contains(t) by {
            lemma_contains_split(toks, t);
            if !init.contains(toks.last()) {
                lemma_push_contains(distinct(init), toks.last(), t);
            }
        }
        if !init.contains(toks.last()) {
            let d = distinct(init);
            let p = d.push(toks.last());
            assert forall|a: int, b: int| 0 <= a < b < p.len() implies p[a] != p[b] by {
                if b == p.len() - 1 {
                    assert(d[a] == p[a]);
                    assert(d.contains(p[a]));
                }
            }
        }
    }
}

fn tech_token_list(techs: &Vec<String>) -> (r: Vec<Vec<char>>)
    ensures
        r.deep_view() == tech_tokens(techs.deep_view()),
{
    let mut out: Vec<Vec<char>> = Vec::new();
    let mut i: usize = 0;
    while i < techs.len()
        invariant
            i <= techs@.len(),
            out.deep_view() == tech_tokens(techs.deep_view().take(i as int)),
        decreases techs@.len() - i,
    {
        let ghost tv = techs.deep_view();
        assert(tv.take(i + 1).drop_last() =~= tv.take(i as int));
        assert(tv.take(i + 1).last() == techs@[i as int]@);
        let items = parse_list(techs[i].as_str());
        let ghost before = out.deep_view();
        let ghost added = list_items(techs@[i as int]@).map_values(|t: Seq<char>| lowercase(t));
        let mut k: usize = 0;
        while k < items.len()
            invariant
                k <= items@.len(),
                items.deep_view() == list_items(techs@[i as int]@),
                added == list_items(techs@[i as int]@).map_values(|t: Seq<char>| lowercase(t)),
                out.deep_view() == before + added.take(k as int),
            decreases items@.len() - k,
        {
            let low = to_lowercase(items[k].as_str());
            let lc = chars_of(low.as_str());
            let ghost prev = out.deep_view();
            out.push(lc);
            assert(out.deep_view() =~= prev.push(lc@));
            assert(added[k as int] == lowercase(items@[k as int]@));
            assert(before + added.take(k + 1) =~= (before + added.take(k as int)).push(added[k as int]));
            k = k + 1;
        }
        assert(added.take(k as int) =~= added);
        i = i + 1;
    }
    assert(techs.deep_view().take(i as int) =~= techs.deep_view());
    out
}

/// Ranks the technologies the leads mention (see [`top_ranking`]); the
/// texts are the leads' technologies columns.
pub fn top_technologies(techs: &Vec<String>) -> (r: Vec<TechCount>)
    ensures
        top_ranking(tech_tokens(techs.deep_view()), ranking_view(r@)),
{
    let toks = tech_token_list(techs);
    let ghost tv = toks.deep_view();
    let mut keys: Vec<Vec<char>> = Vec::new();
    let mut counts: Vec<i64> = Vec::new();
    let mut i: usize = 0;
    while i < toks.len()
        invariant
            i <= toks@.len(),
            tv == toks.deep_view(),
            keys.deep_view() == distinct(tv.take(i as int)),
            counts@.len() == keys@.len(),
            forall|j: int|
                0 <= j < keys@.len() ==> #[trigger] counts@[j] == capped(
                    count_of(tv.take(i as int), keys@[j]@),
                ),
        decreases toks@.len() - i,
    {
        let ghost pre = tv.take(i as int);
        let ghost cur = tv.take(i + 1);
        assert(cur.drop_last() =~= pre);
        assert(cur.last() == toks@[i as int]@);
        proof {
            lemma_distinct(pre);
        }
        let mut j: usize = 0;
        let mut found = false;
        while j < keys.len() && !found
            invariant
                j <= keys@.len(),
                i < toks@.len(),
                !found ==> forall|m: int| 0 <= m < j ==> keys@[m]@ != toks@[i as int]@,
                found ==> j >= 1 && keys@[j - 1]@ == toks@[i as int]@,
            decreases keys@.len() - j,
        {
            if chars_equal(&keys[j], &toks[i]) {
                found = true;
            }
            j = j + 1;
        }
        let ghost old_counts = counts@;
        if found {
            let at = j - 1;
            let c = counts[at];
            let next = match c.checked_add(1) {
                Some(v) => v,
                None => i64::MAX,
            };
            counts.set(at, next);
            proof {
                assert(keys.deep_view()[at as int] == keys@[at as int]@);
                assert(pre.contains(toks@[i as int]@));
                assert forall|m: int| 0 <= m < keys@.len() implies #[trigger] counts@[m] == capped(
                    count_of(cur, keys@[m]@),
                ) by {
                    if m == at as int {
                        assert(count_of(cur, keys@[m]@) == count_of(pre, keys@[m]@) + 1);
                    } else {
                        assert(keys.deep_view()[m] == keys@[m]@);
                        assert(keys.deep_view().no_duplicates());
                        assert(keys@[m]@ != keys@[at as int]@);
                        assert(count_of(cur, keys@[m]@) == count_of(pre, keys@[m]@));
                    }
                }
            }
        } else {
            proof {
                assert forall|m: int| 0 <= m < keys@.len() implies keys@[m]@ != toks@[i as int]@ by {}
                if pre.contains(toks@[i as int]@) {
                    assert(distinct(pre).contains(toks@[i as int]@));
                    let m = choose|m: int| 0 <= m < distinct(pre).len() && distinct(pre)[m] == toks@[i as int]@;
                    assert(keys@[m]@ == toks@[i as int]@);
                }
            }
            let ghost kprev = keys.deep_view();
            keys.push(slice_copy(&toks[i]));
            counts.push(1);
            proof {
                assert(keys.deep_view() =~= kprev.push(toks@[i as int]@));
                assert forall|m: int| 0 <= m < keys@.len() implies #[trigger] counts@[m] == capped(
                    count_of(cur, keys@[m]@),
                ) by {
                    if m < kprev.len() {
                        assert(keys@[m]@ == kprev[m]);
                        assert(counts@[m] == old_counts[m]);
                        assert(count_of(cur, keys@[m]@) == count_of(pre, keys@[m]@));
                    } else {
                        assert(count_of(pre, toks@[i as int]@) == 0) by {
                            lemma_count_absent(pre, toks@[i as int]@);
                        }
                    }
                }
            }
        }
        i = i + 1;
    }
    assert(tv.take(i as int) =~= tv);
    proof {
        lemma_distinct(tv);
    }
    // Select the ten largest counts, leftmost first among equals.
    let n = if keys.len() < 10 {
        keys.len()
    } else {
        10
    };
    let mut taken: Vec<bool> = Vec::new();
    let mut z: usize = 0;
    while z < keys.len()
        invariant
            z <= keys@.len(),
            taken@.len() == z,
            forall|m: int| 0 <= m < z ==> !#[trigger] taken@[m],
        decreases keys@.len() - z,
    {
        taken.push(false);
        z = z + 1;
    }
    let ghost kd = keys.deep_view();
    let mut out: Vec<TechCount> = Vec::new();
    let ghost mut picked: Seq<int> = Seq::empty();
    let mut step: usize = 0;
    while step < n
        invariant
            step <= n,
            n == vstd::math::min(10, keys@.len() as int),
            kd == keys.deep_view(),
            kd == distinct(tv),
            kd.no_duplicates(),
            counts@.len() == keys@.len(),
            taken@.len() == keys@.len(),
            forall|j: int| 0 <= j < keys@.len() ==> #[trigger] counts@[j] == capped(count_of(tv, keys@[j]@)),
            picked.len() == step,
            out@.len() == step,
            forall|k: int| 0 <= k < step ==> 0 <= #[trigger] picked[k] < keys@.len(),
            forall|k: int| 0 <= k < step ==> taken@[#[trigger] picked[k]],
            forall|k1: int, k2: int| 0 <= k1 < k2 < step ==> #[trigger] picked[k1] != #[trigger] picked[k2],
            forall|m: int| 0 <= m < keys@.len() && taken@[m] ==> exists|k: int| 0 <= k < step && #[trigger] picked[k] == m,
            forall|k: int|
                0 <= k < step ==> (#[trigger] out@[k]).tech@ == keys@[picked[k]]@ && out@[k].count
                    == counts@[picked[k]],
            forall|k1: int, k2: int| 0 <= k1 < k2 < step ==> #[trigger] out@[k1].count >= #[trigger] out@[k2].count,
            forall|k: int, m: int|
                #![trigger out@[k], taken@[m]]
                0 <= k < step && 0 <= m < keys@.len() && !taken@[m] ==> counts@[m] <= out@[k].count,
        decreases n - step,
    {
        // the number of untaken keys is keys.len() - step > 0
        proof {
            lemma_some_untaken(taken@, picked, step as int);
        }
        let mut best: usize = 0;
        let mut have = false;
        let mut m: usize = 0;
        while m < keys.len()
            invariant
                m <= keys@.len(),
                taken@.len() == keys@.len(),
                counts@.len() == keys@.len(),
                have ==> best < m && !taken@[best as int],
                have ==> forall|q: int| 0 <= q < m && !taken@[q] ==> counts@[q] <= counts@[best as int],
                !have ==> forall|q: int| 0 <= q < m ==> taken@[q],
            decreases keys@.len() - m,
        {
            if !taken[m] {
                if !have || counts[m] > counts[best] {
                    best = m;
                    have = true;
                }
            }
            m = m + 1;
        }
        proof {
            if !have {
                let q = choose|q: int| 0 <= q < keys@.len() && !taken@[q];
                assert(taken@[q]);
            }
        }
        let ghost old_taken = taken@;
        let ghost old_out = out@;
        taken.set(best, true);
        let t = TechCount { tech: string_of(&keys[best]), count: counts[best] };
        out.push(t);
        proof {
            let pold = picked;
            picked = picked.push(best as int);
            assert forall|q: int| 0 <= q < keys@.len() && taken@[q] implies exists|k: int|
                0 <= k < step + 1 && #[trigger] picked[k] == q by {
                if q != best as int {
                    assert(old_taken[q]);
                    let k = choose|k: int| 0 <= k < step && #[trigger] pold[k] == q;
                    assert(picked[k] == q);
                } else {
                    assert(picked[step as int] == q);
                }
            }
            assert forall|k: int| 0 <= k < step + 1 implies taken@[#[trigger] picked[k]] by {
                if k < step {
                    assert(picked[k] == pold[k]);
                }
            }
            assert forall|k1: int, k2: int| 0 <= k1 < k2 < step + 1 implies #[trigger] picked[k1]
                != #[trigger] picked[k2] by {
                if k2 == step {
                    assert(picked[k1] == pold[k1]);
                    assert(old_taken[pold[k1]]);
                }
            }
            assert forall|k: int|
                0 <= k < step + 1 implies (#[trigger] out@[k]).tech@ == keys@[picked[k]]@
                && out@[k].count == counts@[picked[k]] by {
                if k < step {
                    assert(out@[k] == old_out[k]);
                    assert(picked[k] == pold[k]);
                }
            }
            assert forall|k1: int, k2: int| 0 <= k1 < k2 < step + 1 implies #[trigger] out@[k1].count
                >= #[trigger] out@[k2].count by {
                if k2 == step {
                    assert(out@[k1] == old_out[k1]);
                    assert(!old_taken[best as int]);
                } else {
                    assert(out@[k1] == old_out[k1]);
                    assert(out@[k2] == old_out[k2]);
                }
            }
            assert forall|k: int, q: int|
                #![trigger out@[k], taken@[q]]
                0 <= k < step + 1 && 0 <= q < keys@.len() && !taken@[q] implies counts@[q]
                <= out@[k].count by {
                if k < step {
                    assert(out@[k] == old_out[k]);
                    assert(!old_taken[q]);
                } else {
                    assert(!old_taken[q]);
                }
            }
        }
        step = step + 1;
    }
    proof {
        let rv = ranking_view(out@);
        let toks_v = tv;
        assert forall|i: int| 0 <= i < rv.len() implies kd.contains(#[trigger] rv[i].0) && rv[i].1
            == capped(count_of(toks_v, rv[i].0)) by {
            assert(out@[i].tech@ == keys@[picked[i]]@);
            assert(kd[picked[i]] == keys@[picked[i]]@);
        }
        assert forall|i: int, j: int| 0 <= i < j < rv.len() implies #[trigger] rv[i].0
            != #[trigger] rv[j].0 && rv[i].1 >= rv[j].1 by {
            assert(out@[i].tech@ == kd[picked[i]]);
            assert(out@[j].tech@ == kd[picked[j]]);
            assert(out@[i].count >= out@[j].count);
        }
        assert forall|t: Seq<char>, i: int|
            #![trigger kd.contains(t), rv[i]]
            kd.contains(t) && 0 <= i < rv.len() && (forall|k: int| 0 <= k < rv.len() ==> rv[k].0 != t)
                implies capped(count_of(toks_v, t)) <= rv[i].1 by {
            let q = choose|q: int| 0 <= q < kd.len() && kd[q] == t;
            assert(keys@[q]@ == t);
            if taken@[q] {
                let k = choose|k: int| 0 <= k < step && #[trigger] picked[k] == q;
                assert(rv[k].0 == out@[k].tech@);
                assert(false);
            }
            assert(!taken@[q]);
            assert(counts@[q] <= out@[i].count);
        }
    }
    out
}

fn slice_copy(s: &Vec<char>) -> (r: Vec<char>)
    ensures
        r@ == s@,
{
    let mut out: Vec<char> = Vec::new();
    let mut i: usize = 0;
    while i < s.len()
        invariant
            i <= s@.len(),
            out@ == s@.take(i as int),
        decreases s@.len() - i,
    {
        out.push(s[i]);
        i = i + 1;
        assert(out@ =~= s@.take(i as int));
    }
    assert(s@.take(i as int) =~= s@);
    out
}

proof fn lemma_count_absent(toks: Seq<Seq<char>>, t: Seq<char>)
    requires
        !toks.contains(t),
    ensures
        count_of(toks, t) == 0,
    decreases toks.len(),
{
    if toks.len() > 0 {
        assert(toks.last() == toks[toks.len() - 1]);
        assert(!toks.drop_last().contains(t)) by {
            if toks.drop_last().contains(t) {
                let k = choose|k: int| 0 <= k < toks.drop_last().len() && toks.drop_last()[k] == t;
                assert(toks[k] == t);
            }
        }
        lemma_count_absent(toks.drop_last(), t);
    }
}

proof fn lemma_some_untaken(taken: Seq<bool>, picked: Seq<int>, step: int)
    requires
        0 <= step < taken.len(),
        picked.len() == step,
        forall|m: int| 0 <= m < taken.len() && taken[m] ==> exists|k: int| 0 <= k < step && #[trigger] picked[k] == m,
        forall|k: int| 0 <= k < step ==> 0 <= #[trigger] picked[k] < taken.len(),
    ensures
        exists|q: int| 0 <= q < taken.len() && !taken[q],
{
    if forall|q: int| 0 <= q < taken.len() ==> taken[q] {
        // every index is one of `step` picks, fewer than the indices
        let s = Set::new(|q: int| 0 <= q < taken.len());
        let p = picked.to_set();
        assert(s.subset_of(p)) by {
            assert forall|q: int| s.contains(q) implies p.contains(q) by {
                assert(taken[q]);
                let k = choose|k: int| 0 <= k < step && #[trigger] picked[k] == q;
                assert(picked.contains(q));
            }
        }
        vstd::set_lib::lemma_int_range(0, taken.len() as int);
        assert(s =~= vstd::set_lib::set_int_range(0, taken.len() as int));
        picked.lemma_cardinality_of_set();
        vstd::set_lib::lemma_len_subset(s, p);
        assert(false);
    }
}

} // verus!
