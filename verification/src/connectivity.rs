//! Server reachability: how a TCP probe of each game port is judged, which
//! answer of a multi-address host is reported, and the verdict over a report.
//!
//! The lobby and world ports must answer for the game to work; the map port is
//! advisory, as relay-topology servers keep it closed.

use vstd::prelude::*;

use crate::text::{decimal, push_decimal};

verus! {

pub const LOBBY_PORT: u16 = 54994;
pub const WORLD_PORT: u16 = 54992;
pub const MAP_PORT: u16 = 1989;

/// What a TCP connect to one port came to.
#[derive(Debug, Clone, PartialEq, Eq)]
pub enum ProbeOutcome {
    /// The connect succeeded within the timeout.
    Open,
    /// The host actively refused: reachable, but not listening.
    Refused,
    /// No answer within the timeout: filtered, unforwarded or unreachable.
    TimedOut,
    /// The server name never resolved to an address.
    ResolveFailed(String),
    /// Any other socket error.
    Error(String),
}

/// The text that names an outcome in logs and the status row.
pub open spec fn outcome_text(o: ProbeOutcome) -> Seq<char> {
    match o {
        ProbeOutcome::Open => "open"@,
        ProbeOutcome::Refused => "refused (host up, nothing listening)"@,
        ProbeOutcome::TimedOut => "timed out (blocked or unforwarded)"@,
        ProbeOutcome::ResolveFailed(e) => "DNS resolution failed: "@ + e@,
        ProbeOutcome::Error(e) => "error: "@ + e@,
    }
}

/// How definitive an outcome is: an open port beats a refusal, which proves
/// the host is up; then other errors, a timeout, and a failed resolution.
pub open spec fn spec_outcome_rank(o: ProbeOutcome) -> u8 {
    match o {
        ProbeOutcome::Open => 4,
        ProbeOutcome::Refused => 3,
        ProbeOutcome::Error(_) => 2,
        ProbeOutcome::TimedOut => 1,
        ProbeOutcome::ResolveFailed(_) => 0,
    }
}

impl ProbeOutcome {
    /// Whether the port answered.
    pub fn is_open(&self) -> (r: bool)
        ensures
            r == (*self is Open),
    {
        match self {
            ProbeOutcome::Open => true,
            _ => false,
        }
    }

    /// The outcome as text, e.g. `timed out (blocked or unforwarded)`.
    pub fn to_text(&self) -> (s: String)
        ensures
            s@ == outcome_text(*self),
    {
        match self {
            ProbeOutcome::Open => String::from_str("open"),
            ProbeOutcome::Refused => String::from_str("refused (host up, nothing listening)"),
            ProbeOutcome::TimedOut => String::from_str("timed out (blocked or unforwarded)"),
            ProbeOutcome::ResolveFailed(e) => {
                let mut s = String::from_str("DNS resolution failed: ");
                s.append(e.as_str());
                s
            },
            ProbeOutcome::Error(e) => {
                let mut s = String::from_str("error: ");
                s.append(e.as_str());
                s
            },
        }
    }
}

/// The rank of an outcome (see `spec_outcome_rank`).
pub fn outcome_rank(outcome: &ProbeOutcome) -> (r: u8)
    ensures
        r == spec_outcome_rank(*outcome),
{
    match outcome {
        ProbeOutcome::Open => 4,
        ProbeOutcome::Refused => 3,
        ProbeOutcome::Error(_) => 2,
        ProbeOutcome::TimedOut => 1,
        ProbeOutcome::ResolveFailed(_) => 0,
    }
}

/// The kinds of socket error that a probe tells apart.
#[derive(Debug, Clone, Copy, PartialEq, Eq)]
pub enum SocketErrorKind {
    ConnectionRefused,
    TimedOut,
    WouldBlock,
    Other,
}

/// Judges a failed connect by its error kind; any other error keeps its text.
pub fn classify_error(kind: SocketErrorKind, message: &str) -> (o: ProbeOutcome)
    ensures
        kind == SocketErrorKind::ConnectionRefused ==> o == ProbeOutcome::Refused,
        (kind == SocketErrorKind::TimedOut || kind == SocketErrorKind::WouldBlock) ==> o
            == ProbeOutcome::TimedOut,
        kind == SocketErrorKind::Other ==> (o matches ProbeOutcome::Error(e) && e@ == message@),
{
    match kind {
        SocketErrorKind::ConnectionRefused => ProbeOutcome::Refused,
        SocketErrorKind::TimedOut | SocketErrorKind::WouldBlock => ProbeOutcome::TimedOut,
        SocketErrorKind::Other => ProbeOutcome::Error(String::from_str(message)),
    }
}

/// `i` is the first position holding a highest-ranked outcome.
pub open spec fn is_best_probe(outcomes: Seq<ProbeOutcome>, i: int) -> bool {
    &&& 0 <= i < outcomes.len()
    &&& forall|j: int| 0 <= j < outcomes.len() ==> spec_outcome_rank(#[trigger] outcomes[j]) <= spec_outcome_rank(outcomes[i])
    &&& forall|j: int| 0 <= j < i ==> spec_outcome_rank(#[trigger] outcomes[j]) < spec_outcome_rank(outcomes[i])
}

/// Of the outcomes of one port at each address a host resolved to, the one to
/// report: the most definitive, the earliest among equals; none when there are
/// none.
pub fn best_probe(outcomes: &Vec<ProbeOutcome>) -> (r: Option<usize>)
    ensures
        outcomes@.len() == 0 ==> r is None,
        outcomes@.len() > 0 ==> (r matches Some(i) && is_best_probe(outcomes@, i as int)),
{
    if outcomes.len() == 0 {
        return None;
    }
    let mut best: usize = 0;
    let mut best_rank = outcome_rank(&outcomes[0]);
    let mut i: usize = 1;
    while i < outcomes.len()
        invariant
            1 <= i <= outcomes@.len(),
            best < i,
            best_rank == spec_outcome_rank(outcomes@[best as int]),
            forall|j: int| 0 <= j < i ==> spec_outcome_rank(#[trigger] outcomes@[j]) <= best_rank,
            forall|j: int| 0 <= j < best ==> spec_outcome_rank(#[trigger] outcomes@[j]) < best_rank,
        decreases outcomes@.len() - i,
    {
        let r = outcome_rank(&outcomes[i]);
        if r > best_rank {
            best = i;
            best_rank = r;
        }
        i += 1;
    }
    Some(best)
}

/// A copy of `o`.
pub fn copy_outcome(o: &ProbeOutcome) -> (r: ProbeOutcome)
    ensures
        r == *o,
{
    match o {
        ProbeOutcome::Open => ProbeOutcome::Open,
        ProbeOutcome::Refused => ProbeOutcome::Refused,
        ProbeOutcome::TimedOut => ProbeOutcome::TimedOut,
        ProbeOutcome::ResolveFailed(e) => ProbeOutcome::ResolveFailed(e.clone()),
        ProbeOutcome::Error(e) => ProbeOutcome::Error(e.clone()),
    }
}

/// The outcome of one port of a host that resolved to `n_addrs` addresses,
/// from the `(outcome, address)` results that came back: no address means
/// resolution failed, no result means every attempt died, else the best
/// result (see `best_probe`) with its address.
pub fn address_verdict(n_addrs: usize, results: &Vec<(ProbeOutcome, String)>) -> (r: (ProbeOutcome, Option<String>))
    ensures
        n_addrs == 0 ==> (r.0 matches ProbeOutcome::ResolveFailed(e) && e@ == "no addresses returned"@) && r.1 is None,
        n_addrs > 0 && results@.len() == 0 ==> (r.0 matches ProbeOutcome::Error(e) && e@
            == "probe threads panicked"@) && r.1 is None,
        n_addrs > 0 && results@.len() > 0 ==> exists|i: int|
            is_best_probe(results@.map_values(|x: (ProbeOutcome, String)| x.0), i) && r.0 == results@[i].0 && (r.1 matches Some(a)
                && a == results@[i].1),
{
    if n_addrs == 0 {
        return (ProbeOutcome::ResolveFailed(String::from_str("no addresses returned")), None);
    }
    if results.len() == 0 {
        return (ProbeOutcome::Error(String::from_str("probe threads panicked")), None);
    }
    let mut outcomes: Vec<ProbeOutcome> = Vec::new();
    let mut k: usize = 0;
    while k < results.len()
        invariant
            k <= results@.len(),
            outcomes@ == results@.subrange(0, k as int).map_values(|x: (ProbeOutcome, String)| x.0),
        decreases results@.len() - k,
    {
        outcomes.push(copy_outcome(&results[k].0));
        k += 1;
        proof {
            assert(outcomes@ =~= results@.subrange(0, k as int).map_values(|x: (ProbeOutcome, String)| x.0));
        }
    }
    proof {
        assert(results@.subrange(0, k as int) =~= results@);
    }
    let best = best_probe(&outcomes);
    match best {
        Some(i) => (copy_outcome(&results[i].0), Some(results[i].1.clone())),
        None => (ProbeOutcome::Error(String::from_str("probe threads panicked")), None),
    }
}

/// The role a game port plays.
#[derive(Debug, Clone, Copy, PartialEq, Eq)]
pub enum PortRole {
    Lobby,
    World,
    /// Advisory: unreachable is normal on relay-topology servers.
    MapServer,
}

pub open spec fn role_text(r: PortRole) -> Seq<char> {
    match r {
        PortRole::Lobby => "lobby"@,
        PortRole::World => "world"@,
        PortRole::MapServer => "map"@,
    }
}

impl PortRole {
    /// The role's name: `lobby`, `world` or `map`.
    pub fn to_text(&self) -> (s: String)
        ensures
            s@ == role_text(*self),
    {
        match self {
            PortRole::Lobby => String::from_str("lobby"),
            PortRole::World => String::from_str("world"),
            PortRole::MapServer => String::from_str("map"),
        }
    }
}

/// The ports a server probe tries, in order.
pub open spec fn spec_probe_targets() -> Seq<(PortRole, u16)> {
    seq![(PortRole::Lobby, LOBBY_PORT), (PortRole::World, WORLD_PORT), (PortRole::MapServer, MAP_PORT)]
}

/// The ports a server probe tries: lobby, world, then map.
pub fn probe_targets() -> (r: Vec<(PortRole, u16)>)
    ensures
        r@ == spec_probe_targets(),
{
    let r = vec![(PortRole::Lobby, LOBBY_PORT), (PortRole::World, WORLD_PORT), (PortRole::MapServer, MAP_PORT)];
    proof {
        assert(r@ =~= spec_probe_targets());
    }
    r
}

/// The probe of one port.
#[derive(Debug, Clone)]
pub struct PortProbe {
    pub role: PortRole,
    pub port: u16,
    pub outcome: ProbeOutcome,
    /// The IP of the address that produced `outcome`: the one that answered
    /// when open, or the one whose error is reported; none when resolution
    /// itself failed.
    pub addr_ip: Option<String>,
    /// Wall time the probe took, in milliseconds.
    pub elapsed_ms: u64,
}

/// The probes of one server.
#[derive(Debug, Clone)]
pub struct ConnectivityReport {
    pub address: String,
    pub probes: Vec<PortProbe>,
}

/// Some probe of `role` found its port open.
pub open spec fn role_open(probes: Seq<PortProbe>, role: PortRole) -> bool {
    exists|i: int| 0 <= i < probes.len() && #[trigger] probes[i].role == role && probes[i].outcome is Open
}

/// One probe as it appears in a summary: `lobby 54994 [192.0.2.7]: open`.
pub open spec fn probe_text(p: PortProbe) -> Seq<char> {
    role_text(p.role) + " "@ + decimal(p.port as nat) + match p.addr_ip {
        Some(ip) => " ["@ + ip@ + "]"@,
        None => seq![],
    } + ": "@ + outcome_text(p.outcome)
}

/// Probe texts joined by `; `.
pub open spec fn probes_text(ps: Seq<PortProbe>) -> Seq<char>
    decreases ps.len(),
{
    if ps.len() == 0 {
        seq![]
    } else if ps.len() == 1 {
        probe_text(ps[0])
    } else {
        probes_text(ps.drop_last()) + "; "@ + probe_text(ps.last())
    }
}

/// The one-line summary of a report.
pub open spec fn summary_text(r: ConnectivityReport) -> Seq<char> {
    if r.probes@.len() == 0 {
        r.address@ + " \u{2014} probe did not run"@
    } else {
        r.address@ + " \u{2014} "@ + probes_text(r.probes@)
    }
}

/// One more probe in a report adds its text at the end of the summary,
/// after `; `, and leaves the rest as it was.
pub proof fn lemma_summary_grows_by_each_probe(r1: ConnectivityReport, r2: ConnectivityReport, p: PortProbe)
    requires
        r1.probes@.len() > 0,
        r2.address@ == r1.address@,
        r2.probes@ == r1.probes@.push(p),
    ensures
        summary_text(r2) == summary_text(r1) + "; "@ + probe_text(p),
{
    assert(r2.probes@.drop_last() =~= r1.probes@);
}

/// The summary names every probe: each probe's text occurs in it, and a
/// report with probes reads as its address, ` — `, then the probe texts.
pub proof fn lemma_summary_names_every_probe(r: ConnectivityReport, i: int)
    requires
        0 <= i < r.probes@.len(),
    ensures
        exists|k: int|
            0 <= k && k + probe_text(r.probes@[i]).len() <= summary_text(r).len() && #[trigger] summary_text(
                r,
            ).subrange(k, k + probe_text(r.probes@[i]).len()) == probe_text(r.probes@[i]),
{
    let head = r.address@ + " \u{2014} "@;
    let k = lemma_probes_text_holds(r.probes@, i);
    let t = probe_text(r.probes@[i]);
    let body = probes_text(r.probes@);
    assert(summary_text(r) == head + body);
    assert((head + body).subrange(head.len() + k, head.len() + k + t.len()) =~= body.subrange(k, k + t.len()));
}

/// Where probe `i`'s text stands in the joined texts of `ps`.
proof fn lemma_probes_text_holds(ps: Seq<PortProbe>, i: int) -> (k: int)
    requires
        0 <= i < ps.len(),
    ensures
        0 <= k,
        k + probe_text(ps[i]).len() <= probes_text(ps).len(),
        probes_text(ps).subrange(k, k + probe_text(ps[i]).len()) == probe_text(ps[i]),
    decreases ps.len(),
{
    let t = probe_text(ps[i]);
    if ps.len() == 1 {
        assert(probes_text(ps).subrange(0, t.len() as int) =~= t);
        0
    } else {
        let front = probes_text(ps.drop_last());
        let whole = probes_text(ps);
        assert(whole == front + "; "@ + probe_text(ps.last()));
        if i == ps.len() - 1 {
            reveal_strlit("; ");
            assert(ps.last() == ps[i]);
            let k: int = front.len() as int + 2;
            assert(whole.subrange(k, k + t.len()) =~= t);
            k
        } else {
            let k = lemma_probes_text_holds(ps.drop_last(), i);
            assert(ps.drop_last()[i] == ps[i]);
            assert(whole.subrange(k, k + t.len()) =~= front.subrange(k, k + t.len()));
            k
        }
    }
}

fn push_probe_text(s: &mut String, p: &PortProbe)
    ensures
        final(s)@ == old(s)@ + probe_text(*p),
{
    let ghost start = s@;
    let role = p.role.to_text();
    s.append(role.as_str());
    s.append(" ");
    push_decimal(s, p.port as u64);
    match &p.addr_ip {
        Some(ip) => {
            s.append(" [");
            s.append(ip.as_str());
            s.append("]");
        },
        None => {},
    }
    s.append(": ");
    let o = p.outcome.to_text();
    s.append(o.as_str());
    proof {
        assert(s@ =~= start + probe_text(*p));
    }
}

impl ConnectivityReport {
    /// Whether every port the game needs answered: a lobby probe and a world
    /// probe must both be present and open; the map probe never counts.
    pub fn game_ports_ok(&self) -> (r: bool)
        ensures
            r == (role_open(self.probes@, PortRole::Lobby) && role_open(self.probes@, PortRole::World)),
    {
        let mut lobby = false;
        let mut world = false;
        let mut i: usize = 0;
        while i < self.probes.len()
            invariant
                i <= self.probes@.len(),
                lobby == exists|j: int| 0 <= j < i && #[trigger] self.probes@[j].role == PortRole::Lobby && self.probes@[j].outcome is Open,
                world == exists|j: int| 0 <= j < i && #[trigger] self.probes@[j].role == PortRole::World && self.probes@[j].outcome is Open,
            decreases self.probes@.len() - i,
        {
            let p = &self.probes[i];
            let open = p.outcome.is_open();
            match p.role {
                PortRole::Lobby => {
                    if open {
                        lobby = true;
                    }
                },
                PortRole::World => {
                    if open {
                        world = true;
                    }
                },
                PortRole::MapServer => {},
            }
            i += 1;
        }
        lobby && world
    }

    /// One line for logs and the status row: the address, then each probe's
    /// role, port, answering IP when known, and outcome.
    pub fn summary(&self) -> (s: String)
        ensures
            s@ == summary_text(*self),
    {
        let mut s = String::from_str(self.address.as_str());
        if self.probes.len() == 0 {
            s.append(" \u{2014} probe did not run");
            return s;
        }
        s.append(" \u{2014} ");
        let ghost head = s@;
        let mut i: usize = 0;
        while i < self.probes.len()
            invariant
                i <= self.probes@.len(),
                s@ == head + probes_text(self.probes@.subrange(0, i as int)),
            decreases self.probes@.len() - i,
        {
            if i > 0 {
                s.append("; ");
            }
            push_probe_text(&mut s, &self.probes[i]);
            i += 1;
            proof {
                let q = self.probes@.subrange(0, i as int);
                assert(q.drop_last() =~= self.probes@.subrange(0, i - 1));
                assert(q.last() == self.probes@[i - 1]);
                assert(s@ =~= head + probes_text(q));
            }
        }
        proof {
            assert(self.probes@.subrange(0, self.probes@.len() as int) == self.probes@);
        }
        s
    }
}

/// What a poll of the probe's channel found.
#[derive(Debug)]
pub enum ReportPoll {
    /// The report arrived.
    Ready(ConnectivityReport),
    /// Still running.
    Pending,
    /// The worker ended without sending.
    Disconnected,
}

/// Hands a probe's report to the caller exactly once.
///
/// A worker that ends without sending is answered with an empty report (which
/// reads as unreachable), so a caller polling until it gets a report never
/// waits forever; after the first report every poll gives nothing, so the
/// closed channel of a finished worker cannot produce a second one.
#[derive(Debug, Clone)]
pub struct DeliveryLatch {
    /// The address being probed.
    pub address: String,
    /// Whether a report has been handed out.
    pub delivered: bool,
}

impl DeliveryLatch {
    /// A latch for a probe of `address` that has delivered nothing yet.
    pub fn new(address: String) -> (r: Self)
        ensures
            !r.delivered,
            r.address@ == address@,
    {
        DeliveryLatch { address, delivered: false }
    }

    /// The report to hand out for this poll, if any.
    pub fn on_poll(&mut self, poll: ReportPoll) -> (r: Option<ConnectivityReport>)
        ensures
            final(self).address == old(self).address,
            r is Some == poll_delivers(old(self).delivered, poll is Pending),
            final(self).delivered == (old(self).delivered || !(poll is Pending)),
            old(self).delivered ==> r is None && final(self).delivered,
            !old(self).delivered ==> match poll {
                ReportPoll::Ready(rep) => r == Some(rep) && final(self).delivered,
                ReportPoll::Pending => r is None && !final(self).delivered,
                ReportPoll::Disconnected => (r matches Some(rep) && rep.address@ == old(self).address@
                    && rep.probes@.len() == 0) && final(self).delivered,
            },
    {
        if self.delivered {
            return None;
        }
        let report = match poll {
            ReportPoll::Ready(rep) => rep,
            ReportPoll::Pending => {
                return None;
            },
            ReportPoll::Disconnected => ConnectivityReport {
                address: String::from_str(self.address.as_str()),
                probes: Vec::new(),
            },
        };
        self.delivered = true;
        Some(report)
    }
}

/// Whether a poll hands out a report: only the first poll that is not
/// pending does.
pub open spec fn poll_delivers(delivered: bool, pending: bool) -> bool {
    !delivered && !pending
}

/// How many reports a latch hands out over polls whose pending-ness is
/// `pending`, starting with `delivered`.
pub open spec fn deliveries(delivered: bool, pending: Seq<bool>) -> nat
    decreases pending.len(),
{
    if pending.len() == 0 {
        0
    } else {
        (if poll_delivers(delivered, pending[0]) {
            1nat
        } else {
            0nat
        }) + deliveries(delivered || !pending[0], pending.drop_first())
    }
}

/// Over any run of polls a fresh latch hands out exactly one report if some
/// poll was not pending (a report or a worker that went away), else none.
pub proof fn lemma_latch_delivers_exactly_once(pending: Seq<bool>)
    ensures
        deliveries(false, pending) == (if exists|i: int| 0 <= i < pending.len() && !#[trigger] pending[i] {
            1nat
        } else {
            0nat
        }),
    decreases pending.len(),
{
    if pending.len() > 0 {
        let rest = pending.drop_first();
        if pending[0] {
            lemma_latch_delivers_exactly_once(rest);
            if exists|i: int| 0 <= i < pending.len() && !#[trigger] pending[i] {
                let i = choose|i: int| 0 <= i < pending.len() && !#[trigger] pending[i];
                assert(rest[i - 1] == pending[i]);
            }
            if exists|i: int| 0 <= i < rest.len() && !#[trigger] rest[i] {
                let i = choose|i: int| 0 <= i < rest.len() && !#[trigger] rest[i];
                assert(pending[i + 1] == rest[i]);
            }
        } else {
            lemma_no_delivery_after(rest);
        }
    }
}

proof fn lemma_no_delivery_after(pending: Seq<bool>)
    ensures
        deliveries(true, pending) == 0,
    decreases pending.len(),
{
    if pending.len() > 0 {
        lemma_no_delivery_after(pending.drop_first());
    }
}

/// A run of polls of one latch, as `DeliveryLatch::on_poll` states each
/// of them: before poll `i` the latch's `delivered` is `states[i]`, the
/// poll is pending as `pending[i]` says, `got[i]` is whether it handed out
/// a report, and `states[i + 1]` is `delivered` after it.
pub open spec fn poll_run(states: Seq<bool>, pending: Seq<bool>, got: Seq<bool>) -> bool {
    &&& states.len() == pending.len() + 1
    &&& got.len() == pending.len()
    &&& forall|i: int|
        0 <= i < pending.len() ==> #[trigger] got[i] == poll_delivers(states[i], pending[i]) && states[i + 1] == (
        states[i] || !pending[i])
}

proof fn lemma_poll_run_state(states: Seq<bool>, pending: Seq<bool>, got: Seq<bool>, k: int)
    requires
        poll_run(states, pending, got),
        !states[0],
        0 <= k <= pending.len(),
    ensures
        states[k] <==> exists|j: int| 0 <= j < k && !#[trigger] pending[j],
    decreases k,
{
    if k > 0 {
        lemma_poll_run_state(states, pending, got, k - 1);
        assert(got[k - 1] == poll_delivers(states[k - 1], pending[k - 1]));
        if states[k] && !states[k - 1] {
            assert(!pending[k - 1]);
        }
        if exists|j: int| 0 <= j < k && !#[trigger] pending[j] {
            let j = choose|j: int| 0 <= j < k && !#[trigger] pending[j];
            if j < k - 1 {
                assert(states[k - 1]);
            }
        }
    }
}

/// Over a run of polls of a fresh latch, at most one poll hands out a
/// report, and one does exactly when some poll was not pending (a report
/// arrived or the worker went away).
pub proof fn lemma_poll_run_delivers_at_most_once(states: Seq<bool>, pending: Seq<bool>, got: Seq<bool>)
    requires
        poll_run(states, pending, got),
        !states[0],
    ensures
        forall|i: int, j: int| 0 <= i < got.len() && 0 <= j < got.len() && #[trigger] got[i] && #[trigger] got[j] ==> i == j,
        (exists|i: int| 0 <= i < got.len() && #[trigger] got[i]) <==> (exists|i: int|
            0 <= i < pending.len() && !#[trigger] pending[i]),
{
    assert forall|i: int, j: int| 0 <= i < got.len() && 0 <= j < got.len() && #[trigger] got[i] && #[trigger] got[j] implies i == j by {
        if i < j {
            lemma_poll_run_state(states, pending, got, j);
            assert(got[i] == poll_delivers(states[i], pending[i]));
            assert(got[j] == poll_delivers(states[j], pending[j]));
        } else if j < i {
            lemma_poll_run_state(states, pending, got, i);
            assert(got[i] == poll_delivers(states[i], pending[i]));
            assert(got[j] == poll_delivers(states[j], pending[j]));
        }
    }
    if exists|i: int| 0 <= i < pending.len() && !#[trigger] pending[i] {
        let k = choose|i: int| 0 <= i < pending.len() && !#[trigger] pending[i];
        lemma_first_nonpending_delivers(states, pending, got, k);
    }
    if exists|i: int| 0 <= i < got.len() && #[trigger] got[i] {
        let i = choose|i: int| 0 <= i < got.len() && #[trigger] got[i];
        assert(got[i] == poll_delivers(states[i], pending[i]));
        assert(!pending[i]);
    }
}

proof fn lemma_first_nonpending_delivers(states: Seq<bool>, pending: Seq<bool>, got: Seq<bool>, k: int)
    requires
        poll_run(states, pending, got),
        !states[0],
        0 <= k < pending.len(),
        !pending[k],
    ensures
        exists|i: int| 0 <= i < got.len() && #[trigger] got[i],
    decreases k,
{
    lemma_poll_run_state(states, pending, got, k);
    assert(got[k] == poll_delivers(states[k], pending[k]));
    if states[k] {
        let j = choose|j: int| 0 <= j < k && !#[trigger] pending[j];
        lemma_first_nonpending_delivers(states, pending, got, j);
    }
}

/// A report without probes never reads as reachable.
pub proof fn lemma_empty_report_unreachable(r: ConnectivityReport)
    requires
        r.probes@.len() == 0,
    ensures
        !(role_open(r.probes@, PortRole::Lobby) && role_open(r.probes@, PortRole::World)),
{
}

/// The probes other than those of the map server.
pub open spec fn without_map(ps: Seq<PortProbe>) -> Seq<PortProbe> {
    ps.filter(|p: PortProbe| p.role != PortRole::MapServer)
}

/// The verdict ignores the map server: dropping its probes changes neither
/// whether the lobby nor whether the world port reads as open.
pub proof fn lemma_verdict_ignores_map(ps: Seq<PortProbe>)
    ensures
        role_open(without_map(ps), PortRole::Lobby) == role_open(ps, PortRole::Lobby),
        role_open(without_map(ps), PortRole::World) == role_open(ps, PortRole::World),
    decreases ps.len(),
{
    reveal(Seq::filter);
    if ps.len() > 0 {
        let init = ps.drop_last();
        lemma_verdict_ignores_map(init);
        let f = |p: PortProbe| p.role != PortRole::MapServer;
        assert(without_map(ps) == if f(ps.last()) { without_map(init).push(ps.last()) } else { without_map(init) });
        lemma_role_open_push(init, ps.last(), PortRole::Lobby);
        lemma_role_open_push(init, ps.last(), PortRole::World);
        lemma_role_open_push(without_map(init), ps.last(), PortRole::Lobby);
        lemma_role_open_push(without_map(init), ps.last(), PortRole::World);
        assert(ps == init.push(ps.last()));
    }
}

proof fn lemma_role_open_push(ps: Seq<PortProbe>, p: PortProbe, role: PortRole)
    ensures
        role_open(ps.push(p), role) == (role_open(ps, role) || (p.role == role && p.outcome is Open)),
{
    let q = ps.push(p);
    if role_open(ps, role) {
        let i = choose|i: int| 0 <= i < ps.len() && #[trigger] ps[i].role == role && ps[i].outcome is Open;
        assert(q[i] == ps[i]);
    }
    if p.role == role && p.outcome is Open {
        assert(q[ps.len() as int] == p);
    }
    if role_open(q, role) {
        let i = choose|i: int| 0 <= i < q.len() && #[trigger] q[i].role == role && q[i].outcome is Open;
        if i < ps.len() {
            assert(ps[i] == q[i]);
        }
    }
}

/// The probe recorded for a port whose probe died before reporting.
pub fn panicked_probe(role: PortRole, port: u16) -> (p: PortProbe)
    ensures
        p.role == role,
        p.port == port,
        p.outcome matches ProbeOutcome::Error(e) && e@ == "probe thread panicked"@,
        p.addr_ip is None,
        p.elapsed_ms == 0,
{
    PortProbe {
        role,
        port,
        outcome: ProbeOutcome::Error(String::from_str("probe thread panicked")),
        addr_ip: None,
        elapsed_ms: 0,
    }
}

} // verus!
