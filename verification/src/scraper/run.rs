//! A scrape run: which source is asked for which keyword, in what order,
//! and how the outcomes are tallied. The service performs each fetch and
//! store operation and reports the outcome here.

use crate::models::{NewLead, ScrapeResponse};
use crate::scraper::{dedupe_truncate, first_by_key};
use crate::text::{
    append_str, chars_of, lowercase, owned, str_equal, string_of, to_lowercase, trim, trim_str,
};
use vstd::prelude::*;

verus! {

/// The collectors a source name can select.
pub enum SourceKind {
    Upwork,
    Freelancer,
    Fiverr,
    Indeed,
    Remotive,
    WeWorkRemotely,
    RemoteOk,
}

/// The collector a (normalized) source name selects: the site's name, with or
/// without `.com`.
pub open spec fn source_kind_of(name: Seq<char>) -> Option<SourceKind> {
    if name == "upwork"@ || name == "upwork.com"@ {
        Some(SourceKind::Upwork)
    } else if name == "freelancer"@ || name == "freelancer.com"@ {
        Some(SourceKind::Freelancer)
    } else if name == "fiverr"@ || name == "fiverr.com"@ {
        Some(SourceKind::Fiverr)
    } else if name == "indeed"@ || name == "indeed.com"@ {
        Some(SourceKind::Indeed)
    } else if name == "remotive"@ || name == "remotive.com"@ {
        Some(SourceKind::Remotive)
    } else if name == "weworkremotely"@ || name == "weworkremotely.com"@ {
        Some(SourceKind::WeWorkRemotely)
    } else if name == "remoteok"@ || name == "remoteok.com"@ {
        Some(SourceKind::RemoteOk)
    } else {
        None
    }
}

/// The site a collector reads.
pub open spec fn site_name(k: SourceKind) -> Seq<char> {
    match k {
        SourceKind::Upwork => "upwork"@,
        SourceKind::Freelancer => "freelancer"@,
        SourceKind::Fiverr => "fiverr"@,
        SourceKind::Indeed => "indeed"@,
        SourceKind::Remotive => "remotive"@,
        SourceKind::WeWorkRemotely => "weworkremotely"@,
        SourceKind::RemoteOk => "remoteok"@,
    }
}

/// Every collector is selected by its site's name, and by that name with
/// `.com`; and a name selects a collector only when it is one of those two
/// names of that collector's site.
pub proof fn law_site_names_select(k: SourceKind, name: Seq<char>)
    ensures
        source_kind_of(site_name(k)) == Some(k),
        source_kind_of(site_name(k) + ".com"@) == Some(k),
        source_kind_of(name) == Some(k) ==> name == site_name(k) || name == site_name(k) + ".com"@,
{
    reveal_strlit("upwork");
    reveal_strlit("upwork.com");
    reveal_strlit("freelancer");
    reveal_strlit("freelancer.com");
    reveal_strlit("fiverr");
    reveal_strlit("fiverr.com");
    reveal_strlit("indeed");
    reveal_strlit("indeed.com");
    reveal_strlit("remotive");
    reveal_strlit("remotive.com");
    reveal_strlit("weworkremotely");
    reveal_strlit("weworkremotely.com");
    reveal_strlit("remoteok");
    reveal_strlit("remoteok.com");
    reveal_strlit(".com");
    assert("upwork"@ + ".com"@ =~= "upwork.com"@);
    assert("freelancer"@ + ".com"@ =~= "freelancer.com"@);
    assert("fiverr"@ + ".com"@ =~= "fiverr.com"@);
    assert("indeed"@ + ".com"@ =~= "indeed.com"@);
    assert("remotive"@ + ".com"@ =~= "remotive.com"@);
    assert("weworkremotely"@ + ".com"@ =~= "weworkremotely.com"@);
    assert("remoteok"@ + ".com"@ =~= "remoteok.com"@);
    // Same-length names differ in their first letters.
    assert("upwork"@[0] != "fiverr"@[0] && "upwork"@[0] != "indeed"@[0] && "fiverr"@[0]
        != "indeed"@[0]);
    assert("remotive"@[6] != "remoteok"@[6]);
    assert("upwork.com"@[0] != "fiverr.com"@[0] && "upwork.com"@[0] != "indeed.com"@[0]
        && "fiverr.com"@[0] != "indeed.com"@[0]);
    assert("remotive.com"@[6] != "remoteok.com"@[6]);
    assert("remotive.com"@[0] != "freelancer"@[0]);
    assert("upwork.com"@[0] != "freelancer"@[0] && "indeed.com"@[0] != "freelancer"@[0]
        && "fiverr.com"@[1] != "freelancer"@[1]);
    assert("weworkremotely"@[0] != "freelancer.com"@[0]);
    match k {
        SourceKind::Upwork => {},
        SourceKind::Freelancer => {
            assert("freelancer"@ != "upwork"@);
            assert("freelancer"@ != "upwork.com"@);
        },
        SourceKind::Fiverr => {
            assert("fiverr"@ != "upwork"@);
            assert("fiverr"@ != "upwork.com"@);
            assert("fiverr"@ != "freelancer"@);
            assert("fiverr"@ != "freelancer.com"@);
        },
        SourceKind::Indeed => {
            assert("indeed"@ != "upwork"@);
            assert("indeed"@ != "fiverr"@);
        },
        SourceKind::Remotive => {},
        SourceKind::WeWorkRemotely => {},
        SourceKind::RemoteOk => {
            assert("remoteok"@ != "remotive"@);
        },
    }
}

/// Selects the collector for a source name (see [`source_kind_of`]).
pub fn source_kind(name: &str) -> (r: Option<SourceKind>)
    ensures
        r == source_kind_of(name@),
{
    if str_equal(name, "upwork") || str_equal(name, "upwork.com") {
        Some(SourceKind::Upwork)
    } else if str_equal(name, "freelancer") || str_equal(name, "freelancer.com") {
        Some(SourceKind::Freelancer)
    } else if str_equal(name, "fiverr") || str_equal(name, "fiverr.com") {
        Some(SourceKind::Fiverr)
    } else if str_equal(name, "indeed") || str_equal(name, "indeed.com") {
        Some(SourceKind::Indeed)
    } else if str_equal(name, "remotive") || str_equal(name, "remotive.com") {
        Some(SourceKind::Remotive)
    } else if str_equal(name, "weworkremotely") || str_equal(name, "weworkremotely.com") {
        Some(SourceKind::WeWorkRemotely)
    } else if str_equal(name, "remoteok") || str_equal(name, "remoteok.com") {
        Some(SourceKind::RemoteOk)
    } else {
        None
    }
}

// ---------------------------------------------------------------------------
// The plan
// ---------------------------------------------------------------------------

/// One fetch of a run: a source (trimmed, lower-cased), a keyword, and the
/// collector the source selects (`None` for an unknown source).
pub struct ScrapeJob {
    pub source: String,
    pub keyword: String,
    pub kind: Option<SourceKind>,
}

/// The keywords a run uses: repeats dropped (compared trimmed and
/// lower-cased), at most twenty.
pub open spec fn run_keywords(keywords: Seq<Seq<char>>) -> Seq<Seq<char>> {
    let d = first_by_key(keywords);
    d.take(vstd::math::min(20, d.len() as int))
}

/// The sources a run asks: each trimmed and lower-cased, blank ones skipped.
pub open spec fn run_sources(sources: Seq<Seq<char>>) -> Seq<Seq<char>>
    decreases sources.len(),
{
    if sources.len() == 0 {
        sources
    } else {
        let init = run_sources(sources.drop_last());
        let s = lowercase(trim(sources.last()));
        if s.len() > 0 {
            init.push(s)
        } else {
            init
        }
    }
}

/// Every (source, keyword) pair of a run, source by source, keywords in order.
pub open spec fn pairs(sources: Seq<Seq<char>>, keywords: Seq<Seq<char>>) -> Seq<(Seq<char>, Seq<char>)>
    decreases sources.len(),
{
    if sources.len() == 0 {
        Seq::<(Seq<char>, Seq<char>)>::empty()
    } else {
        pairs(sources.drop_last(), keywords) + keywords.map_values(
            |k: Seq<char>| (sources.last(), k),
        )
    }
}

/// A run makes one fetch per source and keyword: as many as their product.
pub proof fn law_one_fetch_per_pair(sources: Seq<Seq<char>>, keywords: Seq<Seq<char>>)
    ensures
        pairs(sources, keywords).len() == sources.len() * keywords.len(),
    decreases sources.len(),
{
    if sources.len() > 0 {
        law_one_fetch_per_pair(sources.drop_last(), keywords);
        let n = sources.len() as int;
        let k = keywords.len() as int;
        assert((n - 1) * k + k == n * k) by (nonlinear_arith);
    }
}

/// The fetches of a run, in order.
pub open spec fn run_pairs(sources: Seq<Seq<char>>, keywords: Seq<Seq<char>>) -> Seq<(Seq<char>, Seq<char>)> {
    pairs(run_sources(sources), run_keywords(keywords))
}

/// `job` is the fetch `p`.
pub open spec fn job_is(job: ScrapeJob, p: (Seq<char>, Seq<char>)) -> bool {
    &&& job.source@ == p.0
    &&& job.keyword@ == p.1
    &&& job.kind == source_kind_of(p.0)
}

/// Plans a run: every source (trimmed, lower-cased, blanks skipped) with
/// every run keyword (see [`run_pairs`]).
pub fn scrape_plan(sources: &Vec<String>, keywords: &Vec<String>) -> (r: Vec<ScrapeJob>)
    ensures
        r@.len() == run_pairs(sources.deep_view(), keywords.deep_view()).len(),
        forall|i: int|
            0 <= i < r@.len() ==> job_is(
                #[trigger] r@[i],
                run_pairs(sources.deep_view(), keywords.deep_view())[i],
            ),
{
    let kws = dedupe_truncate(keywords, 20);
    let ghost kv = kws.deep_view();
    assert(kv == run_keywords(keywords.deep_view()));
    let mut names: Vec<String> = Vec::new();
    let mut i: usize = 0;
    while i < sources.len()
        invariant
            i <= sources@.len(),
            names.deep_view() == run_sources(sources.deep_view().take(i as int)),
        decreases sources@.len() - i,
    {
        let ghost sv = sources.deep_view();
        assert(sv.take(i + 1).drop_last() =~= sv.take(i as int));
        assert(sv.take(i + 1).last() == sources@[i as int]@);
        let t = trim_str(sources[i].as_str());
        let low = to_lowercase(t.as_str());
        if !low.as_str().is_empty() {
            let ghost prev = names.deep_view();
            names.push(low);
            assert(names.deep_view() =~= prev.push(names@[prev.len() as int]@));
        }
        i = i + 1;
    }
    assert(sources.deep_view().take(i as int) =~= sources.deep_view());
    let ghost nv = names.deep_view();
    let mut out: Vec<ScrapeJob> = Vec::new();
    let mut s: usize = 0;
    while s < names.len()
        invariant
            s <= names@.len(),
            nv == names.deep_view(),
            kv == kws.deep_view(),
            out@.len() == pairs(nv.take(s as int), kv).len(),
            forall|q: int| 0 <= q < out@.len() ==> job_is(#[trigger] out@[q], pairs(nv.take(s as int), kv)[q]),
        decreases names@.len() - s,
    {
        let ghost before = pairs(nv.take(s as int), kv);
        assert(nv.take(s + 1).drop_last() =~= nv.take(s as int));
        assert(nv.take(s + 1).last() == names@[s as int]@);
        let ghost added = kv.map_values(|k: Seq<char>| (names@[s as int]@, k));
        assert(pairs(nv.take(s + 1), kv) == before + added);
        let kind = source_kind(names[s].as_str());
        let mut k: usize = 0;
        while k < kws.len()
            invariant
                k <= kws@.len(),
                s < names@.len(),
                kv == kws.deep_view(),
                kind == source_kind_of(names@[s as int]@),
                added == kv.map_values(|k: Seq<char>| (names@[s as int]@, k)),
                out@.len() == before.len() + k,
                forall|q: int| 0 <= q < out@.len() ==> job_is(#[trigger] out@[q], (before + added)[q]),
            decreases kws@.len() - k,
        {
            let job = ScrapeJob {
                source: names[s].clone(),
                keyword: kws[k].clone(),
                kind: match kind {
                    Some(SourceKind::Upwork) => Some(SourceKind::Upwork),
                    Some(SourceKind::Freelancer) => Some(SourceKind::Freelancer),
                    Some(SourceKind::Fiverr) => Some(SourceKind::Fiverr),
                    Some(SourceKind::Indeed) => Some(SourceKind::Indeed),
                    Some(SourceKind::Remotive) => Some(SourceKind::Remotive),
                    Some(SourceKind::WeWorkRemotely) => Some(SourceKind::WeWorkRemotely),
                    Some(SourceKind::RemoteOk) => Some(SourceKind::RemoteOk),
                    None => None,
                },
            };
            let ghost prev = out@;
            out.push(job);
            proof {
                assert(kv[k as int] == kws@[k as int]@);
                assert((before + added)[before.len() + k] == (names@[s as int]@, kv[k as int]));
                assert forall|q: int| 0 <= q < out@.len() implies job_is(
                    #[trigger] out@[q],
                    (before + added)[q],
                ) by {
                    if q < prev.len() {
                        assert(out@[q] == prev[q]);
                    }
                }
            }
            k = k + 1;
        }
        s = s + 1;
    }
    assert(nv.take(s as int) =~= nv);
    out
}

// ---------------------------------------------------------------------------
// Tallying the outcomes
// ---------------------------------------------------------------------------

/// What storing one lead came to.
pub enum InsertOutcome {
    /// The lead was stored.
    Inserted,
    /// A lead with the same link was already stored.
    Duplicate,
    /// The store failed, with its message.
    Failed(String),
}

/// The running totals of a scrape run.
pub struct ScrapeTally {
    pub inserted: i64,
    pub total_found: i64,
    pub errors: Vec<String>,
}

/// The message recorded for a failed fetch: `[source / keyword] error`.
pub open spec fn fetch_error_text(source: Seq<char>, keyword: Seq<char>, error: Seq<char>) -> Seq<char> {
    "["@ + source + " / "@ + keyword + "] "@ + error
}

/// The error a fetch from an unknown source fails with.
pub open spec fn unknown_source_text(source: Seq<char>) -> Seq<char> {
    "unknown source: "@ + source
}

/// The error a fetch from an unknown source fails with.
pub fn unknown_source_error(source: &str) -> (r: String)
    ensures
        r@ == unknown_source_text(source@),
{
    let mut out = chars_of("unknown source: ");
    append_str(&mut out, source);
    string_of(&out)
}

impl ScrapeTally {
    /// A run with nothing recorded yet.
    pub fn new() -> (r: ScrapeTally)
        ensures
            r.inserted == 0,
            r.total_found == 0,
            r.errors@.len() == 0,
    {
        ScrapeTally { inserted: 0, total_found: 0, errors: Vec::new() }
    }

    /// Records how many leads a fetch found.
    pub fn record_found(&mut self, found: usize)
        requires
            old(self).total_found + found <= i64::MAX,
            old(self).total_found >= 0,
        ensures
            final(self).total_found == old(self).total_found + found,
            final(self).inserted == old(self).inserted,
            final(self).errors@ == old(self).errors@,
    {
        self.total_found = self.total_found + found as i64;
    }

    /// Records a failed fetch as `[source / keyword] error`.
    pub fn record_fetch_error(&mut self, job: &ScrapeJob, error: &str)
        ensures
            final(self).errors.deep_view() == old(self).errors.deep_view().push(
                fetch_error_text(job.source@, job.keyword@, error@),
            ),
            final(self).inserted == old(self).inserted,
            final(self).total_found == old(self).total_found,
    {
        let mut msg = chars_of("[");
        append_str(&mut msg, job.source.as_str());
        append_str(&mut msg, " / ");
        append_str(&mut msg, job.keyword.as_str());
        append_str(&mut msg, "] ");
        append_str(&mut msg, error);
        let text = string_of(&msg);
        let ghost prev = self.errors.deep_view();
        self.errors.push(text);
        assert(self.errors.deep_view() =~= prev.push(fetch_error_text(job.source@, job.keyword@, error@)));
    }

    /// Records what storing one lead came to; answers whether the lead was
    /// stored (and so is to be considered for the queue). A failed store is
    /// recorded as `db error: message`.
    pub fn record_insert(&mut self, outcome: InsertOutcome) -> (stored: bool)
        requires
            old(self).inserted < i64::MAX,
        ensures
            stored == (outcome is Inserted),
            final(self).inserted == old(self).inserted + if stored {
                1int
            } else {
                0int
            },
            final(self).total_found == old(self).total_found,
            match outcome {
                InsertOutcome::Failed(e) => final(self).errors.deep_view() == old(
                    self,
                ).errors.deep_view().push("db error: "@ + e@),
                _ => final(self).errors.deep_view() == old(self).errors.deep_view(),
            },
    {
        match outcome {
            InsertOutcome::Inserted => {
                self.inserted = self.inserted + 1;
                true
            },
            InsertOutcome::Duplicate => false,
            InsertOutcome::Failed(e) => {
                let mut msg = chars_of("db error: ");
                append_str(&mut msg, e.as_str());
                let text = string_of(&msg);
                let ghost prev = self.errors.deep_view();
                self.errors.push(text);
                assert(self.errors.deep_view() =~= prev.push("db error: "@ + e@));
                false
            },
        }
    }

    /// The run's report.
    pub fn finish(self) -> (r: ScrapeResponse)
        ensures
            r.inserted == self.inserted,
            r.total_found == self.total_found,
            r.errors@ == self.errors@,
    {
        ScrapeResponse { inserted: self.inserted, total_found: self.total_found, errors: self.errors }
    }
}

/// The leads of one fetch that are offered to the store: the first
/// `max_per_run` of them.
pub fn leads_to_store(leads: Vec<NewLead>, max_per_run: usize) -> (r: Vec<NewLead>)
    ensures
        r@ == leads@.take(vstd::math::min(max_per_run as int, leads@.len() as int)),
{
    let mut leads = leads;
    if leads.len() > max_per_run {
        leads.truncate(max_per_run);
    }
    assert(leads@ =~= leads@.take(leads@.len() as int));
    leads
}

/// What to do with a freshly stored lead once its profile fit is known:
/// store the new score when it differs from the stored one, and queue the
/// lead when the fit reaches the threshold.
pub fn queue_decision(stored_score: i64, fit: i64, threshold: i64) -> (r: (bool, bool))
    ensures
        r.0 == (fit != stored_score),
        r.1 == (fit >= threshold),
{
    (fit != stored_score, fit >= threshold)
}

// ---------------------------------------------------------------------------
// Background discovery
// ---------------------------------------------------------------------------

/// The sources a background pull asks: the public remote-job feeds.
pub open spec fn auto_pull_source_names() -> Seq<Seq<char>> {
    seq!["remotive"@, "weworkremotely"@, "remoteok"@]
}

/// The sources a background pull asks.
pub fn auto_pull_sources() -> (r: Vec<String>)
    ensures
        r.deep_view() == auto_pull_source_names(),
{
    let mut v: Vec<String> = Vec::new();
    v.push(owned("remotive"));
    v.push(owned("weworkremotely"));
    v.push(owned("remoteok"));
    assert(v.deep_view() =~= auto_pull_source_names());
    v
}

/// A background pull runs for an account when it is enabled and the account
/// has keywords.
pub fn auto_pull_due(enabled: bool, keywords: &Vec<String>) -> (r: bool)
    ensures
        r == (enabled && keywords@.len() > 0),
{
    enabled && keywords.len() > 0
}

/// The pull interval in minutes: the setting, but never under ten.
pub fn auto_pull_interval(mins: u64) -> (r: u64)
    ensures
        r == if mins < 10 {
            10
        } else {
            mins
        },
{
    if mins < 10 {
        10
    } else {
        mins
    }
}

// ---------------------------------------------------------------------------
// Politeness
// ---------------------------------------------------------------------------

/// The browser identities the collectors present.
pub open spec fn user_agents() -> Seq<Seq<char>> {
    seq![
        "Mozilla/5.0 (Windows NT 10.0; Win64; x64) AppleWebKit/537.36 (KHTML, like Gecko) Chrome/124.0.0.0 Safari/537.36"@,
        "Mozilla/5.0 (Macintosh; Intel Mac OS X 10_15_7) AppleWebKit/605.1.15 (KHTML, like Gecko) Version/17.4 Safari/605.1.15"@,
        "Mozilla/5.0 (X11; Linux x86_64) AppleWebKit/537.36 (KHTML, like Gecko) Chrome/123.0.0.0 Safari/537.36"@,
        "Mozilla/5.0 (Windows NT 10.0; Win64; x64; rv:125.0) Gecko/20100101 Firefox/125.0"@,
    ]
}

/// The browser identity for a draw `n`: the `n % 4`-th one.
pub fn user_agent(n: u64) -> (r: &'static str)
    ensures
        r@ == user_agents()[(n % 4) as int],
{
    let k = n % 4;
    if k == 0 {
        "Mozilla/5.0 (Windows NT 10.0; Win64; x64) AppleWebKit/537.36 (KHTML, like Gecko) Chrome/124.0.0.0 Safari/537.36"
    } else if k == 1 {
        "Mozilla/5.0 (Macintosh; Intel Mac OS X 10_15_7) AppleWebKit/605.1.15 (KHTML, like Gecko) Version/17.4 Safari/605.1.15"
    } else if k == 2 {
        "Mozilla/5.0 (X11; Linux x86_64) AppleWebKit/537.36 (KHTML, like Gecko) Chrome/123.0.0.0 Safari/537.36"
    } else {
        "Mozilla/5.0 (Windows NT 10.0; Win64; x64; rv:125.0) Gecko/20100101 Firefox/125.0"
    }
}

/// A browser identity picked at random.
pub fn random_user_agent() -> (r: &'static str)
    ensures
        user_agents().contains(r@),
{
    let n = crate::api::random_u64();
    let r = user_agent(n);
    assert(user_agents()[(n % 4) as int] == r@);
    r
}

/// The pause before a fetch for a draw `n`: between one and two and a half
/// seconds.
pub fn pause_millis(n: u64) -> (r: u64)
    ensures
        r == n % 1500 + 1000,
        1000 <= r < 2500,
{
    n % 1500 + 1000
}

/// A pause before a fetch, drawn at random.
pub fn random_pause_millis() -> (r: u64)
    ensures
        1000 <= r < 2500,
{
    pause_millis(crate::api::random_u64())
}

} // verus!
