//! The attempt engine: a state machine over the credential set, processed
//! strictly in order. Each attempt yields one event; authentication failures
//! advance to the next pair, the first success ends the run, and a transport
//! failure aborts the whole run at once.

use vstd::prelude::*;

use crate::FatalError;
use crate::credentials::CredentialPair;
use crate::credentials::CredentialPairView;
use crate::credentials::Secret;
use crate::credentials::SecretView;
use crate::credentials::render_pair_spec;
use crate::text::dec_str;
use crate::text::usize_to_dec;

verus! {

/// What one attempt reported back: the transport could not be established
/// (directly or through the proxy), or authentication failed with a detail,
/// or authentication succeeded.
#[derive(Debug, Clone)]
pub enum AttemptEvent {
    ConnectRefused,
    ProxyRefused,
    AuthFailed(String),
    AuthSucceeded,
}

/// The mathematical model of an [`AttemptEvent`].
pub enum AttemptEventView {
    ConnectRefused,
    ProxyRefused,
    AuthFailed(Seq<char>),
    AuthSucceeded,
}

impl View for AttemptEvent {
    type V = AttemptEventView;

    open spec fn view(&self) -> AttemptEventView {
        match self {
            AttemptEvent::ConnectRefused => AttemptEventView::ConnectRefused,
            AttemptEvent::ProxyRefused => AttemptEventView::ProxyRefused,
            AttemptEvent::AuthFailed(d) => AttemptEventView::AuthFailed(d@),
            AttemptEvent::AuthSucceeded => AttemptEventView::AuthSucceeded,
        }
    }
}

/// Where a run stands: still iterating with a next pair to try, stopped on a
/// success, aborted on a transport failure, or finished with every pair
/// tried in vain.
#[derive(Debug, Clone, Copy, PartialEq, Eq, Structural)]
pub enum EngineState {
    Iterating { next: usize },
    Succeeded { index: usize },
    Aborted { index: usize, error: FatalError },
    Exhausted,
}

/// The engine's transition for one recorded event, taken from the iterating
/// state with `next` the index just attempted out of `len` pairs.
pub open spec fn engine_step(next: usize, len: nat, ev: AttemptEventView) -> EngineState
    recommends
        next < len,
{
    match ev {
        AttemptEventView::AuthSucceeded => EngineState::Succeeded { index: next },
        AttemptEventView::ConnectRefused => EngineState::Aborted {
            index: next,
            error: FatalError::Connect,
        },
        AttemptEventView::ProxyRefused => EngineState::Aborted {
            index: next,
            error: FatalError::Proxy,
        },
        AttemptEventView::AuthFailed(_) => if next + 1 < len {
            EngineState::Iterating { next: (next + 1) as usize }
        } else {
            EngineState::Exhausted
        },
    }
}

/// The index of the first attempt at or after `i` whose event is not an
/// authentication failure, or `len` when every event up to `len` is one.
pub open spec fn first_stop(events: Seq<AttemptEventView>, len: int, i: int) -> int
    decreases len - i,
{
    if i >= len {
        len
    } else if !(events[i] is AuthFailed) {
        i
    } else {
        first_stop(events, len, i + 1)
    }
}

/// How many attempts a run over `len` pairs issues when attempt `i` would
/// yield `events[i]`: every pair up to and including the first stopping
/// event, or all of them.
pub open spec fn attempts_of(events: Seq<AttemptEventView>, len: int) -> int {
    let k = first_stop(events, len, 0);
    if k == len {
        len
    } else {
        k + 1
    }
}

proof fn lemma_first_stop_reaches(events: Seq<AttemptEventView>, len: int, i: int, k: int)
    requires
        0 <= i <= k <= len,
        forall|j: int| i <= j < k ==> events[j] is AuthFailed,
        k < len ==> !(events[k] is AuthFailed),
    ensures
        first_stop(events, len, i) == k,
    decreases k - i,
{
    if i < k {
        assert(events[i] is AuthFailed);
        lemma_first_stop_reaches(events, len, i + 1, k);
    }
}

/// The engine stops at the first success and never issues an attempt for any
/// later pair: when the pairs before `k` all fail authentication and pair
/// `k` succeeds, exactly `k + 1` attempts are issued, so every pair after
/// `k` stays untried.
pub proof fn lemma_stops_at_first_success(events: Seq<AttemptEventView>, len: int, k: int)
    requires
        0 <= k < len,
        events[k] is AuthSucceeded,
        forall|j: int| 0 <= j < k ==> events[j] is AuthFailed,
    ensures
        first_stop(events, len, 0) == k,
        attempts_of(events, len) == k + 1,
{
    lemma_first_stop_reaches(events, len, 0, k);
}

/// A transport-level failure is fatal for the whole run: when the very first
/// attempt cannot reach the target, exactly one attempt is issued and no
/// credential after the first is ever tried.
pub proof fn lemma_transport_failure_aborts(events: Seq<AttemptEventView>, len: int)
    requires
        len > 0,
        events[0] is ConnectRefused || events[0] is ProxyRefused,
    ensures
        first_stop(events, len, 0) == 0,
        attempts_of(events, len) == 1,
{
}

/// The engine: the credential set of one run, never mutated after
/// construction, and the state of the sequential attempt loop over it.
#[derive(Debug)]
pub struct Engine {
    pub set: Vec<CredentialPair>,
    pub state: EngineState,
}

impl Engine {
    /// Every index the state carries stays inside the credential set, and an
    /// abort only ever carries a transport-stage error.
    pub open spec fn wf(self) -> bool {
        match self.state {
            EngineState::Iterating { next } => next < self.set@.len(),
            EngineState::Succeeded { index } => index < self.set@.len(),
            EngineState::Aborted { index, error } => index < self.set@.len() && (error
                == FatalError::Connect || error == FatalError::Proxy),
            EngineState::Exhausted => true,
        }
    }

    /// Starts a run over a credential set; an empty set is fatal before any
    /// attempt is made.
    pub fn new(set: Vec<CredentialPair>) -> (r: Result<Engine, FatalError>)
        ensures
            r is Err <==> set@.len() == 0,
            r matches Err(e) ==> e == FatalError::EmptyCredentialSet,
            r matches Ok(en) ==> en.set@ == set@ && en.state == (EngineState::Iterating {
                next: 0,
            }) && en.wf(),
    {
        if set.len() == 0 {
            Err(FatalError::EmptyCredentialSet)
        } else {
            Ok(Engine { set, state: EngineState::Iterating { next: 0 } })
        }
    }

    /// The index of the pair to attempt next, or nothing once the run has
    /// reached a terminal state: a terminal engine issues no attempt.
    pub fn next_attempt(&self) -> (r: Option<usize>)
        ensures
            r == (match self.state {
                EngineState::Iterating { next } => Some(next),
                _ => None,
            }),
    {
        match self.state {
            EngineState::Iterating { next } => Some(next),
            _ => None,
        }
    }

    /// The pair at an index of the credential set.
    pub fn pair_at(&self, i: usize) -> (r: &CredentialPair)
        requires
            i < self.set@.len(),
        ensures
            r == self.set@[i as int],
    {
        &self.set[i]
    }

    /// Records the event of the attempt the iterating state pointed at; the
    /// set is unchanged and the state takes exactly one transition.
    pub fn record(&mut self, event: &AttemptEvent)
        requires
            old(self).wf(),
            old(self).state is Iterating,
        ensures
            final(self).set@ == old(self).set@,
            final(self).wf(),
            old(self).state matches EngineState::Iterating { next } ==> final(self).state
                == engine_step(next, old(self).set@.len(), event@),
    {
        let len = self.set.len();
        match self.state {
            EngineState::Iterating { next } => {
                self.state = match event {
                    AttemptEvent::AuthSucceeded => EngineState::Succeeded { index: next },
                    AttemptEvent::ConnectRefused => EngineState::Aborted {
                        index: next,
                        error: FatalError::Connect,
                    },
                    AttemptEvent::ProxyRefused => EngineState::Aborted {
                        index: next,
                        error: FatalError::Proxy,
                    },
                    AttemptEvent::AuthFailed(_) => if next + 1 < len {
                        EngineState::Iterating { next: next + 1 }
                    } else {
                        EngineState::Exhausted
                    },
                };
            },
            _ => {},
        }
    }
}

/// What one attempt hands the external authentication capability: the logon
/// domain, the username, and either a plaintext password or a raw digest.
/// Exactly one of the two secret forms is populated.
#[derive(Debug)]
pub struct AuthParams {
    pub domain: String,
    pub username: String,
    pub password: String,
    pub hash: Option<Vec<u8>>,
}

/// Resolves what an attempt supplies to the authenticator: the configured
/// logon domain or its default, the pair's username, and the secret by its
/// variant — a password is supplied verbatim with no digest, a digest is
/// supplied raw with the password field left empty.
pub fn auth_params(domain: Option<&String>, pair: &CredentialPair) -> (r: AuthParams)
    ensures
        r.domain@ == (match domain {
            Some(d) => d@,
            None => "domain"@,
        }),
        r.username@ == pair@.username,
        pair@.secret matches SecretView::Password(p) ==> (r.password@ == p && r.hash is None),
        pair@.secret matches SecretView::HashDigest(h) ==> (r.password@.len() == 0 && (
        r.hash matches Some(b) && b@ == h)),
{
    let domain = match domain {
        Some(d) => d.clone(),
        None => {
            let mut s = String::new();
            s.append("domain");
            s
        },
    };
    let username = pair.username.clone();
    match &pair.secret {
        Secret::Password(p) => AuthParams { domain, username, password: p.clone(), hash: None },
        Secret::HashDigest(b) => AuthParams {
            domain,
            username,
            password: String::new(),
            hash: Some(crate::credentials::clone_bytes(b)),
        },
    }
}

/// The rendered outcome of one attempt.
pub open spec fn outcome_text(ev: AttemptEventView) -> Seq<char> {
    match ev {
        AttemptEventView::AuthSucceeded => "success!!"@,
        AttemptEventView::AuthFailed(d) => "fail "@ + d,
        AttemptEventView::ConnectRefused => "fatal: target connection refused"@,
        AttemptEventView::ProxyRefused => "fatal: proxy connection refused"@,
    }
}

/// The progress prefix emitted before an attempt's outcome is known: the
/// attempt index and the pair being tried.
pub open spec fn attempt_prefix_spec(i: nat, pair: CredentialPairView) -> Seq<char> {
    "#"@ + dec_str(i) + ": try: "@ + render_pair_spec(pair) + " -> "@
}

/// The full per-attempt report line: the progress prefix followed by the
/// outcome.
pub open spec fn report_line_spec(i: nat, pair: CredentialPairView, ev: AttemptEventView) -> Seq<
    char,
> {
    attempt_prefix_spec(i, pair) + outcome_text(ev)
}

/// Renders the outcome of one attempt.
pub fn outcome_string(event: &AttemptEvent) -> (r: String)
    ensures
        r@ == outcome_text(event@),
{
    match event {
        AttemptEvent::AuthSucceeded => {
            let mut out = String::new();
            out.append("success!!");
            out
        },
        AttemptEvent::AuthFailed(d) => {
            let mut out = String::new();
            out.append("fail ");
            out.append(d.as_str());
            proof {
                assert(out@ =~= outcome_text(event@));
            }
            out
        },
        AttemptEvent::ConnectRefused => {
            let mut out = String::new();
            out.append("fatal: target connection refused");
            out
        },
        AttemptEvent::ProxyRefused => {
            let mut out = String::new();
            out.append("fatal: proxy connection refused");
            out
        },
    }
}

/// Renders the progress prefix of one attempt.
pub fn attempt_prefix(i: usize, pair: &CredentialPair) -> (r: String)
    ensures
        r@ == attempt_prefix_spec(i as nat, pair@),
{
    let mut out = String::new();
    out.append("#");
    let num = usize_to_dec(i);
    out.append(num.as_str());
    out.append(": try: ");
    let rendered = pair.render();
    out.append(rendered.as_str());
    out.append(" -> ");
    proof {
        assert(out@ =~= attempt_prefix_spec(i as nat, pair@));
    }
    out
}

/// Renders the report line of one attempt.
pub fn report_line(i: usize, pair: &CredentialPair, event: &AttemptEvent) -> (r: String)
    ensures
        r@ == report_line_spec(i as nat, pair@, event@),
{
    let mut out = attempt_prefix(i, pair);
    let oc = outcome_string(event);
    out.append(oc.as_str());
    out
}

/// What a completed run reports: the terminal state reached, how many
/// attempts were issued, and one report line per attempt.
#[derive(Debug)]
pub struct RunReport {
    pub outcome: EngineState,
    pub attempts: usize,
    pub lines: Vec<String>,
}

/// Replays a whole run against a predetermined event per pair: attempt `i`
/// yields `events[i]`. Attempts go strictly in set order; an authentication
/// failure advances, the first success ends the run, a transport failure or
/// an empty set is fatal.
pub fn run_with_events(set: &Vec<CredentialPair>, events: &Vec<AttemptEvent>) -> (r: Result<
    RunReport,
    FatalError,
>)
    requires
        events@.len() >= set@.len(),
    ensures
        ({
            let ev = events@.map_values(|e: AttemptEvent| e@);
            let pairs = set@.map_values(|p: CredentialPair| p@);
            let len = set@.len() as int;
            let k = first_stop(ev, len, 0);
            &&& (r is Err <==> (len == 0 || (k < len && (ev[k] is ConnectRefused
                || ev[k] is ProxyRefused))))
            &&& (len == 0 ==> r == Result::<RunReport, FatalError>::Err(
                FatalError::EmptyCredentialSet,
            ))
            &&& (len > 0 && k < len && ev[k] is ConnectRefused ==> r == Result::<
                RunReport,
                FatalError,
            >::Err(FatalError::Connect))
            &&& (len > 0 && k < len && ev[k] is ProxyRefused ==> r == Result::<
                RunReport,
                FatalError,
            >::Err(FatalError::Proxy))
            &&& (r matches Ok(rep) ==> {
                &&& rep.attempts == attempts_of(ev, len)
                &&& (k == len ==> rep.outcome == EngineState::Exhausted)
                &&& (k < len ==> ev[k] is AuthSucceeded && rep.outcome
                    == (EngineState::Succeeded { index: k as usize }))
                &&& rep.lines@.len() == rep.attempts
                &&& forall|j: int|
                    0 <= j < rep.attempts ==> rep.lines@[j]@ == report_line_spec(
                        j as nat,
                        pairs[j],
                        ev[j],
                    )
            })
        }),
{
    let ghost ev = events@.map_values(|e: AttemptEvent| e@);
    let ghost pairs = set@.map_values(|p: CredentialPair| p@);
    let n = set.len();
    if n == 0 {
        return Err(FatalError::EmptyCredentialSet);
    }
    let mut lines: Vec<String> = Vec::new();
    let mut i: usize = 0;
    while i < n
        invariant
            n == set@.len(),
            events@.len() >= n,
            i <= n,
            ev == events@.map_values(|e: AttemptEvent| e@),
            pairs == set@.map_values(|p: CredentialPair| p@),
            forall|j: int| 0 <= j < i ==> ev[j] is AuthFailed,
            first_stop(ev, n as int, 0) == first_stop(ev, n as int, i as int),
            lines@.len() == i,
            forall|j: int|
                0 <= j < i ==> lines@[j]@ == report_line_spec(j as nat, pairs[j], ev[j]),
        decreases n - i,
    {
        let line = report_line(i, &set[i], &events[i]);
        let ghost lines_pre = lines@;
        lines.push(line);
        proof {
            assert(lines@ == lines_pre.push(line));
            assert(pairs[i as int] == set@[i as int]@);
            assert(ev[i as int] == events@[i as int]@);
        }
        match &events[i] {
            AttemptEvent::AuthSucceeded => {
                proof {
                    assert(ev[i as int] is AuthSucceeded);
                    assert(first_stop(ev, n as int, i as int) == i as int);
                }
                return Ok(
                    RunReport {
                        outcome: EngineState::Succeeded { index: i },
                        attempts: i + 1,
                        lines,
                    },
                );
            },
            AttemptEvent::ConnectRefused => {
                proof {
                    assert(ev[i as int] is ConnectRefused);
                    assert(first_stop(ev, n as int, i as int) == i as int);
                }
                return Err(FatalError::Connect);
            },
            AttemptEvent::ProxyRefused => {
                proof {
                    assert(ev[i as int] is ProxyRefused);
                    assert(first_stop(ev, n as int, i as int) == i as int);
                }
                return Err(FatalError::Proxy);
            },
            AttemptEvent::AuthFailed(_) => {
                proof {
                    assert(ev[i as int] is AuthFailed);
                    assert(first_stop(ev, n as int, i as int) == first_stop(
                        ev,
                        n as int,
                        i as int + 1,
                    ));
                }
                i = i + 1;
            },
        }
    }
    proof {
        assert(first_stop(ev, n as int, n as int) == n as int);
    }
    Ok(RunReport { outcome: EngineState::Exhausted, attempts: n, lines })
}

} // verus!
