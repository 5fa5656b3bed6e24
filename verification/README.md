# leadgen

The backend of LeadGen, a freelance lead-generation and escrow-management
service: it collects job and gig leads from public boards, scores them
against the user's profile, drafts outreach, and keeps a client and
contract pipeline.

- `src/` is the verified library (Verus). It holds the rules of the
  service: account and session handling, lead scoring, outreach drafts,
  the parsing and clean-up each collector applies, the plan and tally of a
  scrape run, the store's rules (base score, client naming, keyword
  settings, technology ranking) and the request rules of the HTTP API.
  Calls into `regex`, `rss`, `chrono`, `ring`, `base64`, `urlencoding`,
  `serde_json` (decoding a response text) and `rand` go through small trusted wrappers whose contracts say what the
  library relies on.
- `app/` is the service around it: the Axum router, SQLite storage, HTTP
  fetching, the JSON of request and reply bodies, and the few computations done in floating point.
- `tests/` exercises the library on concrete inputs.
