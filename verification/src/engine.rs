//! The decisions of the continuous probe engine.
//!
//! Model: one persistent worker per hop (TTL). Each turn a worker either
//! exits (the engine stopped), idles (paused, or beyond the known path
//! length), or sends one probe at its TTL. Path length converges on its own:
//! every worker beyond the destination would also see the destination reply,
//! so the shared path length shrinks to the smallest TTL that got a reply and
//! deeper workers go idle. Threads, locks and sleeping belong to the program;
//! what to do next is decided here.
use vstd::prelude::*;
use crate::model::{Addr, ProbeOutcome, ProbeProtocol, ProbeRequest, ProbeResponse, Span};
use crate::session::{
    grow, hop_index, hop_response, hop_sent, paths_after, Session,
};

verus! {

/// How long an idle worker waits before looking again, in milliseconds.
pub const IDLE_MS: u64 = 100;

/// How long a worker backs off after a backend fault, in milliseconds.
pub const FAULT_BACKOFF_MS: u64 = 250;

/// Sleeps are cut into chunks of at most this many nanoseconds so a stop
/// request is noticed quickly.
pub const SLEEP_CHUNK_NS: u128 = 100_000_000;

/// Tunables for a trace.
#[derive(Clone, Copy, Debug)]
pub struct EngineConfig {
    pub target: Addr,
    pub max_hops: u8,
    /// First TTL shown by the frontends.
    pub first_ttl: u8,
    /// Delay between successive probes from the same hop.
    pub interval: Span,
    /// Per-probe timeout.
    pub timeout: Span,
    pub payload_size: usize,
    pub protocol: ProbeProtocol,
    /// Number of probe flows a hop rotates through (multipath discovery).
    pub flows: u8,
}

impl EngineConfig {
    /// The defaults toward `target`: 30 hops from TTL 1, one-second interval
    /// and timeout, 32-byte payload, ICMP, one flow.
    pub fn new(target: Addr) -> (c: EngineConfig)
        ensures
            c.target == target,
            c.max_hops == 30,
            c.first_ttl == 1,
            c.interval == (Span { secs: 1, nanos: 0 }),
            c.timeout == (Span { secs: 1, nanos: 0 }),
            c.payload_size == 32,
            c.protocol == ProbeProtocol::Icmp,
            c.flows == 1,
    {
        EngineConfig {
            target,
            max_hops: 30,
            first_ttl: 1,
            interval: Span { secs: 1, nanos: 0 },
            timeout: Span { secs: 1, nanos: 0 },
            payload_size: 32,
            protocol: ProbeProtocol::Icmp,
            flows: 1,
        }
    }
}

/// The flow a hop's `seq`-th probe belongs to: flows are taken in turn.
pub open spec fn spec_flow_of(seq: u64, flows: u8) -> u16 {
    if flows == 0 { 0 } else { (seq % (flows as u64)) as u16 }
}

pub fn flow_of(seq: u64, flows: u8) -> (f: u16)
    ensures
        f == spec_flow_of(seq, flows),
        flows > 0 ==> f < flows,
{
    if flows == 0 {
        0
    } else {
        (seq % (flows as u64)) as u16
    }
}

/// What a worker does on its next turn.
#[derive(Clone, Copy, Debug, PartialEq, Eq, Structural)]
pub enum WorkerAction {
    /// The engine stopped: leave the loop.
    Exit,
    /// Paused, or beyond the path: wait [`IDLE_MS`] and look again.
    Idle,
    /// Count a send and put this probe on the wire.
    Probe(ProbeRequest),
}

/// The loop state of one hop's worker.
#[derive(Clone, Copy, Debug)]
pub struct HopWorker {
    pub ttl: u8,
    /// Sequence number of the next probe.
    pub seq: u64,
}

/// The action of a worker in state `w`.
pub open spec fn spec_action(w: HopWorker, cfg: EngineConfig, stopped: bool, paused: bool, path_len: u8) -> WorkerAction {
    if stopped {
        WorkerAction::Exit
    } else if paused || w.ttl > path_len {
        WorkerAction::Idle
    } else {
        WorkerAction::Probe(ProbeRequest {
            ttl: w.ttl,
            seq: w.seq,
            protocol: cfg.protocol,
            payload_size: cfg.payload_size,
            flow_id: spec_flow_of(w.seq, cfg.flows),
        })
    }
}

/// The next sequence number (wrapping).
pub open spec fn next_seq(seq: u64) -> u64 {
    if seq == u64::MAX { 0 } else { (seq + 1) as u64 }
}

impl HopWorker {
    pub fn new(ttl: u8) -> (w: HopWorker)
        ensures
            w.ttl == ttl,
            w.seq == 0,
    {
        HopWorker { ttl, seq: 0 }
    }

    /// Decide the next turn; a probe consumes a sequence number.
    pub fn next_action(&mut self, cfg: &EngineConfig, stopped: bool, paused: bool, path_len: u8) -> (a: WorkerAction)
        ensures
            a == spec_action(*old(self), *cfg, stopped, paused, path_len),
            final(self).ttl == old(self).ttl,
            final(self).seq == if a is Probe { next_seq(old(self).seq) } else { old(self).seq },
    {
        if stopped {
            return WorkerAction::Exit;
        }
        if paused || self.ttl > path_len {
            return WorkerAction::Idle;
        }
        let req = ProbeRequest {
            ttl: self.ttl,
            seq: self.seq,
            protocol: cfg.protocol,
            payload_size: cfg.payload_size,
            flow_id: flow_of(self.seq, cfg.flows),
        };
        self.seq = self.seq.wrapping_add(1);
        WorkerAction::Probe(req)
    }
}

/// What a worker sees on one turn: whether the engine stopped, whether it is
/// paused, and the shared path length.
pub type Turn = (bool, bool, u8);

/// The state of a worker that started as `w` after the turns `turns`.
pub open spec fn run_state(w: HopWorker, cfg: EngineConfig, turns: Seq<Turn>) -> HopWorker
    decreases turns.len(),
{
    if turns.len() == 0 {
        w
    } else {
        let p = run_state(w, cfg, turns.drop_last());
        let t = turns.last();
        if spec_action(p, cfg, t.0, t.1, t.2) is Probe {
            HopWorker { ttl: p.ttl, seq: next_seq(p.seq) }
        } else {
            p
        }
    }
}

/// How many of the turns `turns` of a worker that started as `w` put a probe
/// on the wire.
pub open spec fn probes_sent(w: HopWorker, cfg: EngineConfig, turns: Seq<Turn>) -> nat
    decreases turns.len(),
{
    if turns.len() == 0 {
        0
    } else {
        let t = turns.last();
        probes_sent(w, cfg, turns.drop_last()) + if spec_action(
            run_state(w, cfg, turns.drop_last()),
            cfg,
            t.0,
            t.1,
            t.2,
        ) is Probe {
            1nat
        } else {
            0nat
        }
    }
}

/// The action a worker that started as `w` takes on turn `i` of `turns`.
pub open spec fn turn_action(w: HopWorker, cfg: EngineConfig, turns: Seq<Turn>, i: int) -> WorkerAction {
    spec_action(run_state(w, cfg, turns.take(i)), cfg, turns[i].0, turns[i].1, turns[i].2)
}

proof fn lemma_run_state(ttl: u8, cfg: EngineConfig, turns: Seq<Turn>)
    ensures
        run_state(HopWorker { ttl, seq: 0 }, cfg, turns).ttl == ttl,
        run_state(HopWorker { ttl, seq: 0 }, cfg, turns).seq
            == probes_sent(HopWorker { ttl, seq: 0 }, cfg, turns) % 0x1_0000_0000_0000_0000,
    decreases turns.len(),
{
    if turns.len() > 0 {
        let w = HopWorker { ttl, seq: 0 };
        lemma_run_state(ttl, cfg, turns.drop_last());
        let k = probes_sent(w, cfg, turns.drop_last());
        let p = run_state(w, cfg, turns.drop_last());
        assert(next_seq((k % 0x1_0000_0000_0000_0000) as u64) == (k + 1) % 0x1_0000_0000_0000_0000);
        assert(p.seq == k % 0x1_0000_0000_0000_0000);
    }
}

/// A worker's whole run: started at TTL `ttl` with sequence number 0, on
/// every turn it exits once the engine stopped, idles while paused or beyond
/// the shared path length, and otherwise probes at its own TTL with the next
/// sequence number (0, 1, 2, ... wrapping), on the flow that number selects.
/// A reply at its TTL bounds the shared path length by that TTL.
pub proof fn worker_run_probes_in_order(ttl: u8, cfg: EngineConfig, turns: Seq<Turn>)
    ensures
        forall|i: int|
            0 <= i < turns.len() ==> {
                let a = #[trigger] turn_action(HopWorker { ttl, seq: 0 }, cfg, turns, i);
                let seq = (probes_sent(HopWorker { ttl, seq: 0 }, cfg, turns.take(i)) % 0x1_0000_0000_0000_0000) as u64;
                &&& turns[i].0 ==> a == WorkerAction::Exit
                &&& (!turns[i].0 && (turns[i].1 || ttl > turns[i].2)) ==> a == WorkerAction::Idle
                &&& (!turns[i].0 && !turns[i].1 && ttl <= turns[i].2) ==> a == WorkerAction::Probe(
                    ProbeRequest {
                        ttl,
                        seq,
                        protocol: cfg.protocol,
                        payload_size: cfg.payload_size,
                        flow_id: spec_flow_of(seq, cfg.flows),
                    },
                )
            },
        forall|limit: u8| #[trigger] spec_shrink(limit, ttl, ProbeOutcome::Reply) <= ttl,
{
    assert forall|i: int| 0 <= i < turns.len() implies {
        let a = #[trigger] turn_action(HopWorker { ttl, seq: 0 }, cfg, turns, i);
        let seq = (probes_sent(HopWorker { ttl, seq: 0 }, cfg, turns.take(i)) % 0x1_0000_0000_0000_0000) as u64;
        &&& turns[i].0 ==> a == WorkerAction::Exit
        &&& (!turns[i].0 && (turns[i].1 || ttl > turns[i].2)) ==> a == WorkerAction::Idle
        &&& (!turns[i].0 && !turns[i].1 && ttl <= turns[i].2) ==> a == WorkerAction::Probe(
            ProbeRequest {
                ttl,
                seq,
                protocol: cfg.protocol,
                payload_size: cfg.payload_size,
                flow_id: spec_flow_of(seq, cfg.flows),
            },
        )
    } by {
        lemma_run_state(ttl, cfg, turns.take(i));
    }
}

impl HopWorker {
    /// Take one turn against the shared session: decide the action and, when
    /// it is a probe, count the send at the worker's hop before the probe goes
    /// on the wire, so loss stays honest even if no reply ever comes. (A hop
    /// whose send counter is full is left as it is.)
    pub fn take_turn(
        &mut self,
        session: &mut Session,
        cfg: &EngineConfig,
        stopped: bool,
        paused: bool,
        path_len: u8,
    ) -> (a: WorkerAction)
        requires
            old(session).wf(),
        ensures
            a == spec_action(*old(self), *cfg, stopped, paused, path_len),
            final(self).ttl == old(self).ttl,
            final(self).seq == if a is Probe { next_seq(old(self).seq) } else { old(self).seq },
            final(session).wf(),
            final(session).hops_view() == if a is Probe && old(session).send_room(old(self).ttl) {
                grow(old(session).hops_view(), hop_index(old(self).ttl)).update(
                    hop_index(old(self).ttl),
                    hop_sent(grow(old(session).hops_view(), hop_index(old(self).ttl))[hop_index(old(self).ttl)]),
                )
            } else {
                old(session).hops_view()
            },
            final(session).target == old(session).target,
            final(session).path_len == old(session).path_len,
            final(session).paths_view() == old(session).paths_view(),
    {
        let ttl = self.ttl;
        let a = self.next_action(cfg, stopped, paused, path_len);
        if let WorkerAction::Probe(_) = a {
            if session.has_send_room(ttl) {
                session.on_sent(ttl);
            }
        }
        a
    }
}

/// The shared path length after the worker at `ttl` saw `outcome`.
pub open spec fn spec_shrink(path_len: u8, ttl: u8, outcome: ProbeOutcome) -> u8 {
    if outcome == ProbeOutcome::Reply && ttl < path_len { ttl } else { path_len }
}

pub fn shrink_path_len(path_len: u8, ttl: u8, outcome: ProbeOutcome) -> (n: u8)
    ensures
        n == spec_shrink(path_len, ttl, outcome),
{
    if outcome == ProbeOutcome::Reply && ttl < path_len {
        ttl
    } else {
        path_len
    }
}

/// The shared path length after the workers reported `events` (each a TTL
/// and what the probe at it got), in order.
pub open spec fn replay_path_len(start: u8, events: Seq<(u8, ProbeOutcome)>) -> u8
    decreases events.len(),
{
    if events.len() == 0 {
        start
    } else {
        spec_shrink(replay_path_len(start, events.drop_last()), events.last().0, events.last().1)
    }
}

/// Path length converges on its own: whatever order the workers report in,
/// the shared path length ends at the smallest TTL that got a reply (or
/// where it started, if that is smaller or nothing replied), and never grows.
pub proof fn path_len_converges(start: u8, events: Seq<(u8, ProbeOutcome)>)
    ensures
        replay_path_len(start, events) <= start,
        forall|i: int| 0 <= i < events.len() && #[trigger] events[i].1 == ProbeOutcome::Reply
            ==> replay_path_len(start, events) <= events[i].0,
        replay_path_len(start, events) == start || exists|i: int| 0 <= i < events.len()
            && #[trigger] events[i].1 == ProbeOutcome::Reply && replay_path_len(start, events) == events[i].0,
    decreases events.len(),
{
    if events.len() > 0 {
        let t = events.drop_last();
        path_len_converges(start, t);
        assert forall|i: int| 0 <= i < events.len() && #[trigger] events[i].1 == ProbeOutcome::Reply
            implies replay_path_len(start, events) <= events[i].0 by {
            if i < t.len() {
                assert(t[i] == events[i]);
            }
        }
        if replay_path_len(start, events) != start {
            if replay_path_len(start, events) == replay_path_len(start, t) {
                let i = choose|i: int| 0 <= i < t.len() && #[trigger] t[i].1 == ProbeOutcome::Reply
                    && replay_path_len(start, t) == t[i].0;
                assert(events[i] == t[i]);
            } else {
                assert(events[events.len() - 1].1 == ProbeOutcome::Reply);
            }
        }
    }
}

/// Fold the answer to a probe the worker at `ttl` sent on `flow` into the
/// session, and return the new shared path length: the hop's statistics and
/// addresses take the response, a reply marks the destination reached, and
/// the responder is recorded on the flow's path.
pub fn absorb(session: &mut Session, path_len: u8, ttl: u8, flow: u16, resp: &ProbeResponse) -> (n: u8)
    requires
        old(session).wf(),
        resp.rtt_ns is Some ==> old(session).sample_room(resp.ttl),
    ensures
        n == spec_shrink(path_len, ttl, resp.outcome),
        final(session).wf(),
        final(session).hops_view() == grow(old(session).hops_view(), hop_index(resp.ttl)).update(
            hop_index(resp.ttl),
            hop_response(
                grow(old(session).hops_view(), hop_index(resp.ttl))[hop_index(resp.ttl)],
                resp.from,
                resp.rtt_ns,
                resp.mpls@,
            ),
        ),
        final(session).path_len == if resp.outcome == ProbeOutcome::Reply {
            Some(match old(session).path_len {
                Some(p) => if p <= ttl { p } else { ttl },
                None => ttl,
            })
        } else {
            old(session).path_len
        },
        final(session).paths_view() == match resp.from {
            Some(a) => paths_after(old(session).paths_view(), flow as int, ttl, a),
            None => old(session).paths_view(),
        },
        final(session).target == old(session).target,
{
    let reached = resp.outcome == ProbeOutcome::Reply;
    session.on_response(resp);
    if reached {
        session.note_reached(ttl);
    }
    let ghost mid = session.hops_view();
    match resp.from {
        Some(a) => {
            session.record_path(flow as usize, ttl, a);
            assert(session.hops_view() =~= mid);
        },
        None => {},
    }
    proof {
        assert(session.wf()) by {
            assert(forall|i: int| 0 <= i < session.hops@.len() ==> #[trigger] session.hops@[i]@ == session.hops_view()[i]);
        }
    }
    shrink_path_len(path_len, ttl, resp.outcome)
}

/// The next chunk of an interruptible sleep with `remaining_ns` left: none
/// (zero) once the engine stopped or nothing is left, else at most
/// [`SLEEP_CHUNK_NS`].
pub fn sleep_chunk(remaining_ns: u128, stopped: bool) -> (c: u128)
    ensures
        c == if stopped || remaining_ns == 0 {
            0
        } else if remaining_ns < SLEEP_CHUNK_NS {
            remaining_ns
        } else {
            SLEEP_CHUNK_NS
        },
        c <= remaining_ns,
{
    if stopped || remaining_ns == 0 {
        0
    } else if remaining_ns < SLEEP_CHUNK_NS {
        remaining_ns
    } else {
        SLEEP_CHUNK_NS
    }
}

} // verus!
