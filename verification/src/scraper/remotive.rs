//! Remotive: a public JSON API of remote jobs.

use crate::models::NewLead;
use crate::scraper::upwork::opt_seq;
use crate::scraper::{html_to_text, strip_html};
use crate::text::{join, join_strings, owned, trim, trim_str};
use vstd::prelude::*;

verus! {

/// One job of the API response (absent optional fields read as empty).
pub struct RemotiveJob {
    pub url: String,
    pub title: String,
    pub company_name: String,
    pub candidate_required_location: String,
    pub salary: String,
    pub publication_date: String,
    pub description: String,
    pub tags: Vec<String>,
}

/// The trimmed text, or `None` when it is blank.
pub open spec fn non_blank(s: Seq<char>) -> Option<Seq<char>> {
    if trim(s).len() == 0 {
        None
    } else {
        Some(trim(s))
    }
}

/// The trimmed text of a string, or `None` when it is blank.
pub fn non_blank_text(s: &str) -> (r: Option<String>)
    ensures
        opt_seq(r) == non_blank(s@),
{
    let t = trim_str(s);
    if t.as_str().is_empty() {
        None
    } else {
        Some(t)
    }
}

/// The tags joined by ", ", or `None` when that is blank.
pub open spec fn joined_tags(tags: Seq<Seq<char>>) -> Option<Seq<char>> {
    let t = join(tags, ", "@);
    if trim(t).len() == 0 {
        None
    } else {
        Some(t)
    }
}

/// The tags joined by ", " (see [`joined_tags`]).
pub fn tags_text(tags: &Vec<String>) -> (r: Option<String>)
    ensures
        opt_seq(r) == joined_tags(tags.deep_view()),
{
    let t = join_strings(tags, ", ");
    if crate::text::is_blank(t.as_str()) {
        None
    } else {
        Some(t)
    }
}

/// A job becomes a lead when it has a URL and a non-blank title.
pub open spec fn remotive_keeps(j: RemotiveJob) -> bool {
    j.url@.len() > 0 && trim(j.title@).len() > 0
}

/// The lead made from a kept job.
pub open spec fn remotive_lead(j: RemotiveJob, l: NewLead) -> bool {
    &&& l.source@ == "remotive"@
    &&& l.title@ == trim(j.title@)
    &&& l.description@ == html_to_text(j.description@)
    &&& l.url@ == j.url@
    &&& opt_seq(l.budget) == non_blank(j.salary@)
    &&& l.budget_min is None && l.budget_max is None
    &&& l.currency is None
    &&& opt_seq(l.location) == non_blank(j.candidate_required_location@)
    &&& opt_seq(l.technologies) == joined_tags(j.tags.deep_view())
    &&& opt_seq(l.client_name) == non_blank(j.company_name@)
    &&& opt_seq(l.posted_date) == non_blank(j.publication_date@)
}

/// The kept jobs, in order.
pub open spec fn kept_jobs(jobs: Seq<RemotiveJob>) -> Seq<RemotiveJob>
    decreases jobs.len(),
{
    if jobs.len() == 0 {
        jobs
    } else if remotive_keeps(jobs.last()) {
        kept_jobs(jobs.drop_last()).push(jobs.last())
    } else {
        kept_jobs(jobs.drop_last())
    }
}

/// The lead for one job, if it is kept (see [`remotive_lead`]).
pub fn job_to_lead(j: &RemotiveJob) -> (r: Option<NewLead>)
    ensures
        remotive_keeps(*j) ==> (r matches Some(l) && remotive_lead(*j, l)),
        !remotive_keeps(*j) ==> r is None,
{
    if j.url.as_str().is_empty() || crate::text::is_blank(j.title.as_str()) {
        return None;
    }
    Some(NewLead {
        source: owned("remotive"),
        title: trim_str(j.title.as_str()),
        description: strip_html(j.description.as_str()),
        url: j.url.clone(),
        budget: non_blank_text(j.salary.as_str()),
        budget_min: None,
        budget_max: None,
        currency: None,
        location: non_blank_text(j.candidate_required_location.as_str()),
        technologies: tags_text(&j.tags),
        client_name: non_blank_text(j.company_name.as_str()),
        posted_date: non_blank_text(j.publication_date.as_str()),
    })
}

/// Turns the API's jobs into leads, skipping jobs without a URL or title.
pub fn jobs_to_leads(jobs: &Vec<RemotiveJob>) -> (r: Vec<NewLead>)
    ensures
        r@.len() == kept_jobs(jobs@).len(),
        forall|i: int| 0 <= i < r@.len() ==> remotive_lead(kept_jobs(jobs@)[i], #[trigger] r@[i]),
{
    let mut out: Vec<NewLead> = Vec::new();
    let mut i: usize = 0;
    while i < jobs.len()
        invariant
            i <= jobs@.len(),
            out@.len() == kept_jobs(jobs@.take(i as int)).len(),
            forall|k: int|
                0 <= k < out@.len() ==> remotive_lead(
                    kept_jobs(jobs@.take(i as int))[k],
                    #[trigger] out@[k],
                ),
        decreases jobs@.len() - i,
    {
        assert(jobs@.take(i + 1).drop_last() =~= jobs@.take(i as int));
        assert(jobs@.take(i + 1).last() == jobs@[i as int]);
        let ghost before = out@;
        match job_to_lead(&jobs[i]) {
            Some(l) => {
                out.push(l);
                assert forall|k: int| 0 <= k < out@.len() implies remotive_lead(
                    kept_jobs(jobs@.take(i + 1))[k],
                    #[trigger] out@[k],
                ) by {
                    if k < before.len() {
                        assert(out@[k] == before[k]);
                    }
                }
            },
            None => {},
        }
        i = i + 1;
    }
    assert(jobs@.take(i as int) =~= jobs@);
    out
}

} // verus!
