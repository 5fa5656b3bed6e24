//! RemoteOK: a public JSON API listing remote tech jobs.

use crate::models::NewLead;
use crate::scraper::remotive::{joined_tags, non_blank, non_blank_text, tags_text};
use crate::scraper::upwork::opt_seq;
use crate::scraper::{html_to_text, strip_html};
use crate::text::{append_str, chars_of, owned, radix_string, radix_text, string_of, trim, trim_str};
use vstd::prelude::*;

verus! {

/// One job entry of the API response (absent fields read as empty or zero).
pub struct RawJob {
    pub position: String,
    pub company: String,
    pub description: String,
    pub location: String,
    pub url: String,
    pub apply_url: String,
    pub date: String,
    pub tags: Vec<String>,
    pub salary_min: i64,
    pub salary_max: i64,
}

/// The link to apply: the trimmed `apply_url`, else the trimmed listing URL.
pub open spec fn apply_link(j: RawJob) -> Seq<char> {
    if trim(j.apply_url@).len() > 0 {
        trim(j.apply_url@)
    } else {
        trim(j.url@)
    }
}

/// A job becomes a lead when it has a non-blank position and a link.
pub open spec fn remoteok_keeps(j: RawJob) -> bool {
    trim(j.position@).len() > 0 && apply_link(j).len() > 0
}

/// A salary bound as text: the number when positive, else `?`.
pub open spec fn bound_text(v: i64) -> Seq<char> {
    if v > 0 {
        radix_text(v as nat, 10)
    } else {
        "?"@
    }
}

/// `$min-$max` when either bound is positive.
pub open spec fn salary_text(j: RawJob) -> Option<Seq<char>> {
    if j.salary_min > 0 || j.salary_max > 0 {
        Some("$"@ + bound_text(j.salary_min) + "-$"@ + bound_text(j.salary_max))
    } else {
        None
    }
}

/// The lead made from a kept job.
pub open spec fn remoteok_lead(j: RawJob, l: NewLead) -> bool {
    let link = apply_link(j);
    &&& l.source@ == "remoteok"@
    &&& l.title@ == trim(j.position@)
    &&& l.description@ == if trim(j.description@).len() == 0 {
        "Sourced from RemoteOK. Apply at: "@ + link
    } else {
        html_to_text(j.description@)
    }
    &&& l.url@ == link
    &&& opt_seq(l.budget) == salary_text(j)
    &&& l.budget_min == if j.salary_min > 0 {
        Some(j.salary_min)
    } else {
        None
    }
    &&& l.budget_max == if j.salary_max > 0 {
        Some(j.salary_max)
    } else {
        None
    }
    &&& l.currency matches Some(c) && c@ == "USD"@
    &&& opt_seq(l.location) == Some(
        if trim(j.location@).len() == 0 {
            "Remote"@
        } else {
            trim(j.location@)
        },
    )
    &&& opt_seq(l.technologies) == joined_tags(j.tags.deep_view())
    &&& opt_seq(l.client_name) == non_blank(j.company@)
    &&& opt_seq(l.posted_date) == non_blank(j.date@)
}

fn bound_string(v: i64) -> (r: String)
    ensures
        r@ == bound_text(v),
{
    if v > 0 {
        radix_string(v as u64, 10)
    } else {
        owned("?")
    }
}

/// The lead for one job, if it is kept (see [`remoteok_lead`]).
pub fn job_to_lead(j: &RawJob) -> (r: Option<NewLead>)
    ensures
        remoteok_keeps(*j) ==> (r matches Some(l) && remoteok_lead(*j, l)),
        !remoteok_keeps(*j) ==> r is None,
{
    let title = trim_str(j.position.as_str());
    if title.as_str().is_empty() {
        return None;
    }
    let apply = trim_str(j.apply_url.as_str());
    let url = if !apply.as_str().is_empty() {
        apply
    } else {
        trim_str(j.url.as_str())
    };
    if url.as_str().is_empty() {
        return None;
    }
    let budget = if j.salary_min > 0 || j.salary_max > 0 {
        let mut b: Vec<char> = chars_of("$");
        append_str(&mut b, bound_string(j.salary_min).as_str());
        append_str(&mut b, "-$");
        append_str(&mut b, bound_string(j.salary_max).as_str());
        let s = string_of(&b);
        assert(s@ =~= "$"@ + bound_text(j.salary_min) + "-$"@ + bound_text(j.salary_max));
        Some(s)
    } else {
        None
    };
    let description = if crate::text::is_blank(j.description.as_str()) {
        let mut d: Vec<char> = chars_of("Sourced from RemoteOK. Apply at: ");
        append_str(&mut d, url.as_str());
        string_of(&d)
    } else {
        strip_html(j.description.as_str())
    };
    let location = match non_blank_text(j.location.as_str()) {
        Some(l) => l,
        None => owned("Remote"),
    };
    Some(NewLead {
        source: owned("remoteok"),
        title,
        description,
        url,
        budget,
        budget_min: if j.salary_min > 0 {
            Some(j.salary_min)
        } else {
            None
        },
        budget_max: if j.salary_max > 0 {
            Some(j.salary_max)
        } else {
            None
        },
        currency: Some(owned("USD")),
        location: Some(location),
        technologies: tags_text(&j.tags),
        client_name: non_blank_text(j.company.as_str()),
        posted_date: non_blank_text(j.date.as_str()),
    })
}

/// The kept jobs, in order.
pub open spec fn kept_jobs(jobs: Seq<RawJob>) -> Seq<RawJob>
    decreases jobs.len(),
{
    if jobs.len() == 0 {
        jobs
    } else if remoteok_keeps(jobs.last()) {
        kept_jobs(jobs.drop_last()).push(jobs.last())
    } else {
        kept_jobs(jobs.drop_last())
    }
}

/// Turns the API's job entries into leads, skipping entries without a position
/// or a link.
pub fn jobs_to_leads(jobs: &Vec<RawJob>) -> (r: Vec<NewLead>)
    ensures
        r@.len() == kept_jobs(jobs@).len(),
        forall|i: int| 0 <= i < r@.len() ==> remoteok_lead(kept_jobs(jobs@)[i], #[trigger] r@[i]),
{
    let mut out: Vec<NewLead> = Vec::new();
    let mut i: usize = 0;
    while i < jobs.len()
        invariant
            i <= jobs@.len(),
            out@.len() == kept_jobs(jobs@.take(i as int)).len(),
            forall|k: int|
                0 <= k < out@.len() ==> remoteok_lead(
                    kept_jobs(jobs@.take(i as int))[k],
                    #[trigger] out@[k],
                ),
        decreases jobs@.len() - i,
    {
        assert(jobs@.take(i + 1).drop_last() =~= jobs@.take(i as int));
        assert(jobs@.take(i + 1).last() == jobs@[i as int]);
        let ghost before = out@;
        match job_to_lead(&jobs[i]) {
            Some(l) => {
                out.push(l);
                assert forall|k: int| 0 <= k < out@.len() implies remoteok_lead(
                    kept_jobs(jobs@.take(i + 1))[k],
                    #[trigger] out@[k],
                ) by {
                    if k < before.len() {
                        assert(out@[k] == before[k]);
                    }
                }
            },
            None => {},
        }
        i = i + 1;
    }
    assert(jobs@.take(i as int) =~= jobs@);
    out
}

} // verus!
