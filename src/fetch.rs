//! The statistics fetch as a state machine: authenticate when a password is
//! given, probe the modern endpoint, then the legacy one, and stop at the
//! first usable answer or at the first answer that breaks a sanity rule.
//!
//! The machine performs no I/O. Its caller carries out each [`Action`] and
//! reports what came of it.
use vstd::prelude::*;
use crate::address::{
    auth_address, auth_path, base_text, host_unusable, legacy_path, legacy_query, locates,
    locates_keeping_query, modern_path, opt_view, resolve, url_accepts, url_href_with_path,
    WebAddress, MAX_HOST_CHARS,
};
use crate::error::PiholeError;
use crate::stats::{stats_sane, validate_pihole_response, validation_outcome, PiholeStats};
use crate::text::{begins_with, chars_of, has_prefix_at, trim_bounds, trim_start_of};

verus! {

broadcast use vstd::string::group_string_axioms;

/// Seconds that each request may take before it counts as a transport failure.
pub const REQUEST_TIMEOUT_SECS: u64 = 10;

/// The request header that carries the session id on each probe.
pub const SESSION_HEADER: &'static str = "X-Session-Credential";

/// Where a fetch stands.
#[derive(Clone, Copy, Debug, PartialEq, Eq, Structural)]
pub enum Phase {
    Authenticating,
    ProbingModern,
    ProbingLegacy,
    /// An endpoint gave sane statistics.
    Succeeded,
    /// An endpoint gave statistics that break a sanity rule.
    Rejected,
    /// No endpoint gave a usable answer.
    Exhausted,
}

/// What the caller is to do next.
#[derive(Debug)]
pub enum Action {
    /// Send `{"password": password}` as JSON to `url` by POST, then report
    /// the session id that came back, or none, through `on_auth`.
    Authenticate { url: String, password: String },
    /// Send a GET to `url`, with the session id in the [`SESSION_HEADER`]
    /// header when there is one, then report through `on_reply`.
    Probe { url: String, credential: Option<String> },
    /// The fetch is over.
    Finish(Result<PiholeStats, PiholeError>),
}

/// What came of a probe.
#[derive(Debug)]
pub enum Reply {
    /// The request failed in transport, timed out, or its body could not be read.
    Unreachable,
    /// The server answered with `status` and `body`; `stats` is the body read
    /// as a statistics document, or none where it does not read as one.
    Answered { status: u16, body: String, stats: Option<PiholeStats> },
}

/// What came of the authentication request.
#[derive(Debug)]
pub enum AuthReply {
    /// The request failed in transport or timed out.
    Unreachable,
    /// The server answered with `status`; `session_id` is the session
    /// identifier that the body describes, or none where the body does not
    /// read as a session description.
    Answered { status: u16, session_id: Option<String> },
}

/// How a probe's reply is judged.
#[derive(Debug)]
pub enum Verdict {
    /// No usable answer: go on to the next endpoint.
    Skip,
    /// Sane statistics.
    Accept(PiholeStats),
    /// Statistics that break a sanity rule: stop with this error.
    Reject(PiholeError),
}

/// A fetch in progress.
pub struct StatsFetch {
    pub legacy: WebAddress,
    pub modern: WebAddress,
    /// The session id, once authentication gave one.
    pub credential: Option<String>,
    pub phase: Phase,
}

pub open spec fn is_success(status: u16) -> bool {
    200 <= status <= 299
}

/// A body that, after leading white space, opens an HTML document.
pub open spec fn looks_like_html(body: Seq<char>) -> bool {
    begins_with(trim_start_of(body), "<!DOCTYPE"@) || begins_with(trim_start_of(body), "<html"@)
}

/// Whether a reply is no usable answer: a transport failure, a status
/// outside the success range, an empty body, an HTML page, or a body that
/// does not read as statistics.
pub open spec fn skips(r: Reply) -> bool {
    match r {
        Reply::Unreachable => true,
        Reply::Answered { status, body, stats } => !is_success(status) || body@.len() == 0
            || looks_like_html(body@) || stats is None,
    }
}

/// The statistics that a reply that does not skip holds.
pub open spec fn reply_stats(r: Reply) -> PiholeStats {
    match r {
        Reply::Answered { stats: Some(s), .. } => s,
        _ => arbitrary(),
    }
}

/// The verdict on a reply.
pub open spec fn judged(r: Reply, v: Verdict) -> bool {
    if skips(r) {
        v is Skip
    } else if stats_sane(reply_stats(r)) {
        v == Verdict::Accept(reply_stats(r))
    } else {
        v matches Verdict::Reject(e) && validation_outcome(reply_stats(r), Err(e))
    }
}

/// The message of the error that ends a fetch when no endpoint answered usably.
pub open spec fn exhausted_message() -> Seq<char> {
    "Failed to get valid response from any Pi-hole API endpoint. Check if Pi-hole is running and accessible, or if authentication is required."@
}

/// A probe of `a` with `credential` attached.
pub open spec fn probes(action: Action, a: WebAddress, credential: Option<String>) -> bool {
    action matches Action::Probe { url, credential: c } && url@ == a.href@ && opt_view(c)
        == opt_view(credential)
}

/// The fetch that `host` and `password` start, and its first action.
pub open spec fn started(
    host: Seq<char>,
    password: Option<Seq<char>>,
    r: Result<(StatsFetch, Action), PiholeError>,
) -> bool {
    if host_unusable(host) {
        r matches Err(PiholeError::InvalidHost(_))
    } else if !url_accepts(base_text(host)) {
        r matches Err(PiholeError::InvalidUrl(_))
    } else {
        &&& r matches Ok((f, a))
        &&& locates(f.legacy, base_text(host), legacy_path(), Some(legacy_query()))
        &&& locates_keeping_query(f.modern, base_text(host), modern_path())
        &&& f.credential is None
        &&& match password {
            Some(p) => {
                &&& f.phase == Phase::Authenticating
                &&& a matches Action::Authenticate { url, password: pw }
                &&& url@ == url_href_with_path(base_text(host), auth_path())
                &&& pw@ == p
            },
            None => f.phase == Phase::ProbingModern && probes(a, f.modern, None),
        }
    }
}

/// The credential that an authentication reply gives: the session id of an
/// answer with a success status, none otherwise.
pub open spec fn granted(r: AuthReply) -> Option<Seq<char>> {
    match r {
        AuthReply::Answered { status, session_id: Some(sid) } => if is_success(status) {
            Some(sid@)
        } else {
            None
        },
        _ => None,
    }
}

/// The step from `f` to `g` on the outcome of authentication.
pub open spec fn auth_step(f: StatsFetch, r: AuthReply, g: StatsFetch, a: Action) -> bool {
    &&& g.legacy == f.legacy
    &&& g.modern == f.modern
    &&& opt_view(g.credential) == granted(r)
    &&& g.phase == Phase::ProbingModern
    &&& probes(a, f.modern, g.credential)
}

/// The step from `f` to `g` on a probe's reply.
pub open spec fn reply_step(f: StatsFetch, r: Reply, g: StatsFetch, a: Action) -> bool {
    &&& g.legacy == f.legacy
    &&& g.modern == f.modern
    &&& opt_view(g.credential) == opt_view(f.credential)
    &&& if skips(r) {
        if f.phase == Phase::ProbingModern {
            g.phase == Phase::ProbingLegacy && probes(a, f.legacy, f.credential)
        } else {
            &&& g.phase == Phase::Exhausted
            &&& a matches Action::Finish(Err(PiholeError::JsonError(m)))
            &&& m@ == exhausted_message()
        }
    } else if stats_sane(reply_stats(r)) {
        g.phase == Phase::Succeeded && a == Action::Finish(Ok(reply_stats(r)))
    } else {
        &&& g.phase == Phase::Rejected
        &&& a matches Action::Finish(Err(e))
        &&& validation_outcome(reply_stats(r), Err(e))
    }
}

fn copy_opt(o: &Option<String>) -> (r: Option<String>)
    ensures
        opt_view(r) == opt_view(*o),
{
    match o {
        Some(s) => Some(s.clone()),
        None => None,
    }
}

/// Whether a body opens an HTML document after leading white space.
pub fn is_html(body: &str) -> (r: bool)
    ensures
        r == looks_like_html(body@),
{
    let c = chars_of(body);
    let (lo, _) = trim_bounds(&c);
    has_prefix_at(&c, lo, "<!DOCTYPE") || has_prefix_at(&c, lo, "<html")
}

/// Judges a probe's reply.
pub fn assess(reply: Reply) -> (v: Verdict)
    ensures
        judged(reply, v),
{
    match reply {
        Reply::Unreachable => Verdict::Skip,
        Reply::Answered { status, body, stats } => {
            if status < 200 || status > 299 || body.as_str().is_empty() || is_html(body.as_str()) {
                return Verdict::Skip;
            }
            match stats {
                None => Verdict::Skip,
                Some(s) => match validate_pihole_response(&s) {
                    Ok(()) => Verdict::Accept(s),
                    Err(e) => Verdict::Reject(e),
                },
            }
        },
    }
}

impl StatsFetch {
    /// Starts a fetch from `host` for statistics: authentication first when
    /// a password is given, else the probe of the modern endpoint.
    pub fn start(host: &str, password: Option<&str>) -> (r: Result<(StatsFetch, Action), PiholeError>)
        requires
            host@.len() <= MAX_HOST_CHARS,
        ensures
            started(
                host@,
                match password {
                    Some(p) => Some(p@),
                    None => None,
                },
                r,
            ),
    {
        let (base, legacy, modern) = resolve(host)?;
        match password {
            Some(p) => {
                let auth = auth_address(&base);
                let f = StatsFetch { legacy, modern, credential: None, phase: Phase::Authenticating };
                Ok((f, Action::Authenticate { url: auth.href, password: p.to_string() }))
            },
            None => {
                let url = modern.href.clone();
                let f = StatsFetch { legacy, modern, credential: None, phase: Phase::ProbingModern };
                Ok((f, Action::Probe { url, credential: None }))
            },
        }
    }

    /// Takes the outcome of authentication. A failure of any kind leaves the
    /// fetch without a credential; either way the modern endpoint is probed next.
    pub fn on_auth(&mut self, reply: AuthReply) -> (a: Action)
        requires
            old(self).phase == Phase::Authenticating,
        ensures
            auth_step(*old(self), reply, *final(self), a),
    {
        let credential = match reply {
            AuthReply::Answered { status, session_id } => if 200 <= status && status <= 299 {
                session_id
            } else {
                None
            },
            AuthReply::Unreachable => None,
        };
        let c = copy_opt(&credential);
        self.credential = credential;
        self.phase = Phase::ProbingModern;
        Action::Probe { url: self.modern.href.clone(), credential: c }
    }

    /// Takes the reply to the current probe.
    pub fn on_reply(&mut self, reply: Reply) -> (a: Action)
        requires
            old(self).phase == Phase::ProbingModern || old(self).phase == Phase::ProbingLegacy,
        ensures
            reply_step(*old(self), reply, *final(self), a),
    {
        let ghost r = reply;
        match assess(reply) {
            Verdict::Skip => {
                if self.phase == Phase::ProbingModern {
                    self.phase = Phase::ProbingLegacy;
                    Action::Probe { url: self.legacy.href.clone(), credential: copy_opt(&self.credential) }
                } else {
                    self.phase = Phase::Exhausted;
                    Action::Finish(
                        Err(
                            PiholeError::JsonError(
                                "Failed to get valid response from any Pi-hole API endpoint. Check if Pi-hole is running and accessible, or if authentication is required.".to_string(),
                            ),
                        ),
                    )
                }
            },
            Verdict::Accept(s) => {
                self.phase = Phase::Succeeded;
                Action::Finish(Ok(s))
            },
            Verdict::Reject(e) => {
                self.phase = Phase::Rejected;
                Action::Finish(Err(e))
            },
        }
    }
}

/// Two addresses with the same views.
pub open spec fn same_address(a: WebAddress, b: WebAddress) -> bool {
    &&& a.href@ == b.href@
    &&& a.scheme@ == b.scheme@
    &&& opt_view(a.host) == opt_view(b.host)
    &&& a.port == b.port
    &&& a.path@ == b.path@
    &&& opt_view(a.query) == opt_view(b.query)
}

/// Two fetches that stand alike.
pub open spec fn same_fetch(f: StatsFetch, g: StatsFetch) -> bool {
    &&& same_address(f.legacy, g.legacy)
    &&& same_address(f.modern, g.modern)
    &&& opt_view(f.credential) == opt_view(g.credential)
    &&& f.phase == g.phase
}

/// Two errors of one kind with the same message.
pub open spec fn same_error(e: PiholeError, d: PiholeError) -> bool {
    match (e, d) {
        (PiholeError::JsonError(m), PiholeError::JsonError(n)) => m@ == n@,
        (PiholeError::ValidationError { reason: m }, PiholeError::ValidationError { reason: n }) => m@
            == n@,
        _ => false,
    }
}

/// Two actions that ask for the same thing, or end with the same result.
pub open spec fn same_action(a: Action, b: Action) -> bool {
    match (a, b) {
        (
            Action::Authenticate { url: u, password: p },
            Action::Authenticate { url: v, password: q },
        ) => u@ == v@ && p@ == q@,
        (Action::Probe { url: u, credential: c }, Action::Probe { url: v, credential: d }) => u@
            == v@ && opt_view(c) == opt_view(d),
        (Action::Finish(Ok(s)), Action::Finish(Ok(t))) => s == t,
        (Action::Finish(Err(e)), Action::Finish(Err(d))) => same_error(e, d),
        _ => false,
    }
}

/// A server error, or any other unusable answer, from the modern endpoint
/// leads to a probe of the legacy endpoint; when that one gives no usable
/// answer either, the fetch ends with the error that says all endpoints
/// were exhausted, not with the failure of either probe.
pub proof fn lemma_modern_failure_falls_back(
    f: StatsFetch,
    first: Reply,
    g: StatsFetch,
    a: Action,
    second: Reply,
    h: StatsFetch,
    b: Action,
)
    requires
        f.phase == Phase::ProbingModern,
        skips(first),
        reply_step(f, first, g, a),
        skips(second),
        reply_step(g, second, h, b),
    ensures
        probes(a, f.legacy, f.credential),
        h.phase == Phase::Exhausted,
        b matches Action::Finish(Err(PiholeError::JsonError(m))) && m@ == exhausted_message(),
{
}

/// A success status with a body that reads as statistics whose share
/// exceeds 100 percent ends the fetch at once with a validation error: no
/// further endpoint is probed.
pub proof fn lemma_insane_answer_stops(f: StatsFetch, r: Reply, g: StatsFetch, a: Action)
    requires
        f.phase == Phase::ProbingModern || f.phase == Phase::ProbingLegacy,
        !skips(r),
        crate::stats::exceeds_hundred(reply_stats(r).ads_percentage_today.bits),
        reply_step(f, r, g, a),
    ensures
        g.phase == Phase::Rejected,
        a matches Action::Finish(Err(PiholeError::ValidationError { .. })),
{
}

/// Starting twice from the same host and password gives fetches that stand
/// alike and ask for the same first action: no state is carried from one
/// fetch to the next.
pub proof fn lemma_start_deterministic(
    host: Seq<char>,
    password: Option<Seq<char>>,
    r1: Result<(StatsFetch, Action), PiholeError>,
    r2: Result<(StatsFetch, Action), PiholeError>,
)
    requires
        started(host, password, r1),
        started(host, password, r2),
    ensures
        r1 is Ok <==> r2 is Ok,
        r1 matches Ok((f1, a1)) ==> (r2 matches Ok((f2, a2)) && same_fetch(f1, f2) && same_action(
            a1,
            a2,
        )),
{
}

/// One step of a fetch: on the authentication outcome `o.0` while
/// authenticating, else on the probe reply `o.1`.
pub open spec fn takes_step(f: StatsFetch, o: (AuthReply, Reply), g: StatsFetch, a: Action) -> bool {
    if f.phase == Phase::Authenticating {
        auth_step(f, o.0, g, a)
    } else {
        reply_step(f, o.1, g, a)
    }
}

/// A run of a fetch: `fs[0]` and `acts[0]` are where it started, and
/// `fs[j + 1]`, `acts[j + 1]` follow from `fs[j]` on the outcome `os[j]`.
pub open spec fn is_run(
    fs: Seq<StatsFetch>,
    acts: Seq<Action>,
    os: Seq<(AuthReply, Reply)>,
) -> bool {
    &&& fs.len() == os.len() + 1
    &&& acts.len() == os.len() + 1
    &&& forall|j: int|
        0 <= j < os.len() ==> #[trigger] takes_step(fs[j], os[j], fs[j + 1], acts[j + 1])
}

/// Fetching twice with the same host and password, against a remote side
/// that gives the same outcomes both times, takes the same steps and asks
/// for the same requests (a fresh authentication included), and ends with
/// the same statistics or the same error: nothing carries over from one
/// fetch to the next.
pub proof fn lemma_fetch_idempotent(
    host: Seq<char>,
    password: Option<Seq<char>>,
    fs1: Seq<StatsFetch>,
    acts1: Seq<Action>,
    fs2: Seq<StatsFetch>,
    acts2: Seq<Action>,
    os: Seq<(AuthReply, Reply)>,
)
    requires
        started(host, password, Ok((fs1[0], acts1[0]))),
        started(host, password, Ok((fs2[0], acts2[0]))),
        is_run(fs1, acts1, os),
        is_run(fs2, acts2, os),
    ensures
        forall|j: int|
            0 <= j <= os.len() ==> same_fetch(#[trigger] fs1[j], fs2[j]) && same_action(
                acts1[j],
                acts2[j],
            ),
{
    lemma_start_deterministic(host, password, Ok((fs1[0], acts1[0])), Ok((fs2[0], acts2[0])));
    assert forall|j: int| 0 <= j <= os.len() implies same_fetch(#[trigger] fs1[j], fs2[j])
        && same_action(acts1[j], acts2[j]) by {
        lemma_run_alike(fs1, acts1, fs2, acts2, os, j);
    }
}

proof fn lemma_run_alike(
    fs1: Seq<StatsFetch>,
    acts1: Seq<Action>,
    fs2: Seq<StatsFetch>,
    acts2: Seq<Action>,
    os: Seq<(AuthReply, Reply)>,
    j: int,
)
    requires
        same_fetch(fs1[0], fs2[0]),
        same_action(acts1[0], acts2[0]),
        is_run(fs1, acts1, os),
        is_run(fs2, acts2, os),
        0 <= j <= os.len(),
    ensures
        same_fetch(fs1[j], fs2[j]),
        same_action(acts1[j], acts2[j]),
    decreases j,
{
    if j > 0 {
        lemma_run_alike(fs1, acts1, fs2, acts2, os, j - 1);
        let i = j - 1;
        assert(takes_step(fs1[i], os[i], fs1[i + 1], acts1[i + 1]));
        assert(takes_step(fs2[i], os[i], fs2[i + 1], acts2[i + 1]));
        if fs1[i].phase == Phase::Authenticating {
            lemma_auth_step_deterministic(fs1[i], fs2[i], os[i].0, fs1[j], acts1[j], fs2[j], acts2[j]);
        } else {
            lemma_reply_step_deterministic(fs1[i], fs2[i], os[i].1, fs1[j], acts1[j], fs2[j], acts2[j]);
        }
    }
}

/// Fetches that stand alike, told the same authentication outcome, take the
/// same step.
pub proof fn lemma_auth_step_deterministic(
    f1: StatsFetch,
    f2: StatsFetch,
    r: AuthReply,
    g1: StatsFetch,
    a1: Action,
    g2: StatsFetch,
    a2: Action,
)
    requires
        same_fetch(f1, f2),
        auth_step(f1, r, g1, a1),
        auth_step(f2, r, g2, a2),
    ensures
        same_fetch(g1, g2),
        same_action(a1, a2),
{
}

/// Fetches that stand alike, told the same reply, take the same step: the
/// same statistics, or the same error, or the same next probe.
pub proof fn lemma_reply_step_deterministic(
    f1: StatsFetch,
    f2: StatsFetch,
    r: Reply,
    g1: StatsFetch,
    a1: Action,
    g2: StatsFetch,
    a2: Action,
)
    requires
        same_fetch(f1, f2),
        reply_step(f1, r, g1, a1),
        reply_step(f2, r, g2, a2),
    ensures
        same_fetch(g1, g2),
        same_action(a1, a2),
{
}

} // verus!
