//! Aggregator for TCP diagnostics.
//!
//! Turns the stream of retransmit and reset events into derived signals:
//! `TcpDerivedEvent::HighRetrans` is a burst of retransmits on one socket, at
//! least `retrans_threshold` of them within `retrans_window_ms`.

use std::collections::{HashMap, VecDeque};

use vstd::prelude::*;

verus! {

broadcast use vstd::std_specs::hash::group_hash_axioms;

/// The part of a tcpdiag event that the aggregator needs.
#[derive(Clone, Debug)]
pub struct TcpEventInput {
    pub op: TcpDiagOp,
    /// Unix epoch nanoseconds.
    pub timestamp_ns: u64,
    pub cookie: u64,
    pub cgroup_id: u64,
    pub pid: u32,
    pub comm: String,
    pub family: u16,
    pub sport: u16,
    pub dport: u16,
    pub saddr: [u8; 16],
    pub daddr: [u8; 16],
    /// Retransmit events only.
    pub segs_out: u32,
    pub total_retrans: u32,
}

/// Operation kinds of the probe.
#[derive(Clone, Copy, Debug, PartialEq, Eq, Structural)]
pub enum TcpDiagOp {
    Retransmit,
    ResetRecv,
}

impl TcpDiagOp {
    /// The operation that the probe writes as `op`; 2 is a retired number.
    pub open spec fn of_raw(op: u32) -> Option<Self> {
        if op == 1 {
            Some(TcpDiagOp::Retransmit)
        } else if op == 3 {
            Some(TcpDiagOp::ResetRecv)
        } else {
            None
        }
    }

    /// The name of the operation.
    pub open spec fn text(self) -> Seq<char> {
        match self {
            TcpDiagOp::Retransmit => "tcp_retransmit"@,
            TcpDiagOp::ResetRecv => "tcp_reset_recv"@,
        }
    }

    /// Reads the operation number of a raw record.
    pub fn from_raw(op: u32) -> (r: Option<Self>)
        ensures
            r == TcpDiagOp::of_raw(op),
            r == Some(TcpDiagOp::Retransmit) <==> op == 1,
            r == Some(TcpDiagOp::ResetRecv) <==> op == 3,
    {
        match op {
            1 => Some(TcpDiagOp::Retransmit),
            3 => Some(TcpDiagOp::ResetRecv),
            _ => None,
        }
    }

    /// Name for logs and the event table.
    pub fn as_str(self) -> (r: &'static str)
        ensures
            r@ == self.text(),
            self is Retransmit ==> r@ == "tcp_retransmit"@,
            self is ResetRecv ==> r@ == "tcp_reset_recv"@,
    {
        match self {
            TcpDiagOp::Retransmit => "tcp_retransmit",
            TcpDiagOp::ResetRecv => "tcp_reset_recv",
        }
    }
}

/// Derived events of the aggregator.
#[derive(Clone, Debug)]
pub enum TcpDerivedEvent {
    HighRetrans {
        cookie: u64,
        cgroup_id: u64,
        pid: u32,
        comm: String,
        timestamp_ns: u64,
        family: u16,
        sport: u16,
        dport: u16,
        saddr: [u8; 16],
        daddr: [u8; 16],
        retrans_count: u32,
        window_ms: u64,
        total_retrans: u32,
    },
}

impl TcpDerivedEvent {
    /// Operation name of the derived event.
    pub fn op_name(&self) -> (r: &'static str)
        ensures
            r@ == "tcp_high_retrans"@,
    {
        match self {
            TcpDerivedEvent::HighRetrans { .. } => "tcp_high_retrans",
        }
    }

    /// Time of the event that triggered the signal.
    pub fn timestamp_ns(&self) -> (r: u64)
        ensures
            r == self->timestamp_ns,
    {
        match self {
            TcpDerivedEvent::HighRetrans { timestamp_ns, .. } => *timestamp_ns,
        }
    }
}

/// Thresholds of the aggregator.
#[derive(Clone, Debug)]
pub struct TcpAggregatorConfig {
    /// Sliding window length used to count retransmits per socket (ms).
    pub retrans_window_ms: u64,
    /// Number of retransmits within the window required to emit HighRetrans.
    pub retrans_threshold: usize,
    /// Suppress duplicate HighRetrans for the same cookie within this window (ms).
    pub dedup_window_ms: u64,
}

impl Default for TcpAggregatorConfig {
    fn default() -> (r: Self)
        ensures
            r == (TcpAggregatorConfig {
                retrans_window_ms: 10_000,
                retrans_threshold: 5,
                dedup_window_ms: 30_000,
            }),
    {
        TcpAggregatorConfig {
            retrans_window_ms: 10_000,
            retrans_threshold: 5,
            dedup_window_ms: 30_000,
        }
    }
}

/// What the aggregator remembers, by socket cookie.
#[verifier::ext_equal]
pub ghost struct TcpMemory {
    /// Times of the recent retransmits, oldest first.
    pub retrans: Map<u64, Seq<u64>>,
    /// Time of the last HighRetrans.
    pub emitted: Map<u64, u64>,
}

/// Milliseconds in nanoseconds, saturating.
pub open spec fn ms_to_ns(ms: u64) -> int {
    if ms * 1_000_000 > u64::MAX {
        u64::MAX as int
    } else {
        ms * 1_000_000
    }
}

/// `times` without those at its front that lie more than `window` before `now`.
pub open spec fn recent(times: Seq<u64>, now: u64, window: int) -> Seq<u64>
    decreases times.len(),
{
    if times.len() > 0 && now - times[0] > window {
        recent(times.skip(1), now, window)
    } else {
        times
    }
}

/// The retransmit times of a socket after one more retransmit at `now`.
pub open spec fn times_after(cfg: TcpAggregatorConfig, m: TcpMemory, cookie: u64, now: u64) -> Seq<
    u64,
> {
    let before = if m.retrans.contains_key(cookie) {
        m.retrans[cookie]
    } else {
        Seq::empty()
    };
    recent(before.push(now), now, ms_to_ns(cfg.retrans_window_ms))
}

/// A HighRetrans for the socket lies less than the dedup window before `now`.
pub open spec fn suppressed(cfg: TcpAggregatorConfig, m: TcpMemory, cookie: u64, now: u64) -> bool {
    &&& m.emitted.contains_key(cookie)
    &&& {
        let since = now - m.emitted[cookie];
        (if since < 0 {
            0
        } else {
            since
        }) < ms_to_ns(cfg.dedup_window_ms)
    }
}

/// The event makes the aggregator emit a HighRetrans.
pub open spec fn emits(cfg: TcpAggregatorConfig, m: TcpMemory, ev: TcpEventInput) -> bool {
    &&& ev.op == TcpDiagOp::Retransmit
    &&& times_after(cfg, m, ev.cookie, ev.timestamp_ns).len() >= cfg.retrans_threshold
    &&& !suppressed(cfg, m, ev.cookie, ev.timestamp_ns)
}

/// The memory after an event.
pub open spec fn memory_after(
    cfg: TcpAggregatorConfig,
    m: TcpMemory,
    ev: TcpEventInput,
) -> TcpMemory {
    if ev.op == TcpDiagOp::Retransmit {
        TcpMemory {
            retrans: m.retrans.insert(
                ev.cookie,
                times_after(cfg, m, ev.cookie, ev.timestamp_ns),
            ),
            emitted: if emits(cfg, m, ev) {
                m.emitted.insert(ev.cookie, ev.timestamp_ns)
            } else {
                m.emitted
            },
        }
    } else {
        m
    }
}

/// What the aggregator answers to an event.
pub open spec fn answer(
    cfg: TcpAggregatorConfig,
    m: TcpMemory,
    ev: TcpEventInput,
) -> Option<TcpDerivedEvent> {
    if emits(cfg, m, ev) {
        Some(
            TcpDerivedEvent::HighRetrans {
                cookie: ev.cookie,
                cgroup_id: ev.cgroup_id,
                pid: ev.pid,
                comm: ev.comm,
                timestamp_ns: ev.timestamp_ns,
                family: ev.family,
                sport: ev.sport,
                dport: ev.dport,
                saddr: ev.saddr,
                daddr: ev.daddr,
                retrans_count: times_after(cfg, m, ev.cookie, ev.timestamp_ns).len() as u32,
                window_ms: cfg.retrans_window_ms,
                total_retrans: ev.total_retrans,
            },
        )
    } else {
        None
    }
}

fn millis_to_nanos(ms: u64) -> (r: u64)
    ensures
        r == ms_to_ns(ms),
{
    match ms.checked_mul(1_000_000) {
        Some(n) => n,
        None => u64::MAX,
    }
}

/// Counts retransmits per socket in a sliding window.
pub struct TcpAggregator {
    cfg: TcpAggregatorConfig,
    retrans: HashMap<u64, VecDeque<u64>>,
    retrans_dedup: HashMap<u64, u64>,
}

impl View for TcpAggregator {
    type V = TcpMemory;

    closed spec fn view(&self) -> TcpMemory {
        TcpMemory {
            retrans: self.retrans@.map_values(|d: VecDeque<u64>| d@),
            emitted: self.retrans_dedup@,
        }
    }
}

impl TcpAggregator {
    /// The thresholds that the aggregator was made with.
    pub closed spec fn config(&self) -> TcpAggregatorConfig {
        self.cfg
    }

    /// An aggregator that has seen nothing.
    pub fn new(cfg: TcpAggregatorConfig) -> (r: Self)
        ensures
            r.config() == cfg,
            r@ == (TcpMemory { retrans: Map::empty(), emitted: Map::empty() }),
    {
        let r = TcpAggregator { cfg, retrans: HashMap::new(), retrans_dedup: HashMap::new() };
        assert(r@.retrans =~= Map::empty());
        r
    }

    /// Feeds a base event. Returns the derived event where this one triggers a
    /// signal.
    pub fn record(&mut self, ev: &TcpEventInput) -> (r: Option<TcpDerivedEvent>)
        ensures
            final(self).config() == old(self).config(),
            final(self)@ == memory_after(old(self).config(), old(self)@, *ev),
            r == answer(old(self).config(), old(self)@, *ev),
            r is Some <==> emits(old(self).config(), old(self)@, *ev),
            ev.op == TcpDiagOp::ResetRecv ==> r is None && final(self)@ == old(self)@,
            r matches Some(signal) ==> {
                &&& signal->cookie == ev.cookie
                &&& signal->cgroup_id == ev.cgroup_id
                &&& signal->pid == ev.pid
                &&& signal->comm@ == ev.comm@
                &&& signal->timestamp_ns == ev.timestamp_ns
                &&& signal->family == ev.family
                &&& signal->sport == ev.sport
                &&& signal->dport == ev.dport
                &&& signal->saddr == ev.saddr
                &&& signal->daddr == ev.daddr
                &&& signal->total_retrans == ev.total_retrans
                &&& signal->window_ms == old(self).config().retrans_window_ms
                &&& signal->retrans_count == final(self)@.retrans[ev.cookie].len() as u32
            },
    {
        match ev.op {
            TcpDiagOp::Retransmit => self.record_retransmit(ev),
            TcpDiagOp::ResetRecv => None,
        }
    }

    fn record_retransmit(&mut self, ev: &TcpEventInput) -> (r: Option<TcpDerivedEvent>)
        requires
            ev.op == TcpDiagOp::Retransmit,
        ensures
            final(self).config() == old(self).config(),
            final(self)@ == memory_after(old(self).config(), old(self)@, *ev),
            r == answer(old(self).config(), old(self)@, *ev),
    {
        let ghost m = self@;
        let ghost cfg = self.cfg;
        let window_ns: u64 = millis_to_nanos(self.cfg.retrans_window_ms);
        let threshold: usize = self.cfg.retrans_threshold;
        let now: u64 = ev.timestamp_ns;

        let mut times: VecDeque<u64> = match self.retrans.remove(&ev.cookie) {
            Some(d) => d,
            None => VecDeque::new(),
        };
        times.push_back(now);
        let ghost all = times@;
        // Evict timestamps that fell out of the window.
        while times.len() > 0 && now.saturating_sub(times[0]) > window_ns
            invariant
                recent(times@, now, window_ns as int) == recent(all, now, window_ns as int),
            decreases times@.len(),
        {
            let ghost before = times@;
            let _front = times.pop_front();
            assert(times@ =~= before.skip(1));
        }
        let count: usize = times.len();
        assert(times@ == times_after(cfg, m, ev.cookie, now));
        self.retrans.insert(ev.cookie, times);
        assert(self@.retrans =~= m.retrans.insert(
            ev.cookie,
            times_after(cfg, m, ev.cookie, now),
        ));

        if count < threshold {
            return None;
        }
        // No second signal for the same cookie inside the dedup window.
        let dedup_ns: u64 = millis_to_nanos(self.cfg.dedup_window_ms);
        match self.retrans_dedup.get(&ev.cookie) {
            Some(last) => {
                if now.saturating_sub(*last) < dedup_ns {
                    return None;
                }
            },
            None => {},
        }
        self.retrans_dedup.insert(ev.cookie, now);

        Some(
            TcpDerivedEvent::HighRetrans {
                cookie: ev.cookie,
                cgroup_id: ev.cgroup_id,
                pid: ev.pid,
                comm: ev.comm.clone(),
                timestamp_ns: now,
                family: ev.family,
                sport: ev.sport,
                dport: ev.dport,
                saddr: ev.saddr,
                daddr: ev.daddr,
                retrans_count: count as u32,
                window_ms: self.cfg.retrans_window_ms,
                total_retrans: ev.total_retrans,
            },
        )
    }
}

/// A reset leaves no trace and gives no signal.
pub proof fn reset_is_not_counted(cfg: TcpAggregatorConfig, m: TcpMemory, ev: TcpEventInput)
    requires
        ev.op == TcpDiagOp::ResetRecv,
    ensures
        memory_after(cfg, m, ev) == m,
        answer(cfg, m, ev) is None,
{
}

/// What happens on one socket changes nothing for another.
pub proof fn sockets_are_independent(
    cfg: TcpAggregatorConfig,
    m: TcpMemory,
    other: TcpEventInput,
    ev: TcpEventInput,
)
    requires
        other.cookie != ev.cookie,
    ensures
        answer(cfg, memory_after(cfg, m, other), ev) == answer(cfg, m, ev),
{
}

/// Where the times of a socket came in order, what is counted is exactly the
/// retransmits that lie within the window before `now`.
pub proof fn window_holds_the_recent_ones(times: Seq<u64>, now: u64, window: int)
    requires
        forall|i: int, j: int| 0 <= i <= j < times.len() ==> times[i] <= times[j],
    ensures
        recent(times, now, window) == times.filter(|t: u64| now - t <= window),
    decreases times.len(),
{
    let keep = |t: u64| now - t <= window;
    if times.len() > 0 && now - times[0] > window {
        window_holds_the_recent_ones(times.skip(1), now, window);
        assert(times =~= seq![times[0]] + times.skip(1));
        Seq::filter_distributes_over_add(seq![times[0]], times.skip(1), keep);
        assert(seq![times[0]].filter(keep) =~= Seq::empty()) by {
            reveal_with_fuel(Seq::filter, 2);
            assert(seq![times[0]].drop_last() =~= Seq::empty());
        }
        assert(times.filter(keep) =~= times.skip(1).filter(keep));
    } else {
        lemma_filter_all(times, keep);
    }
}

proof fn lemma_filter_all(s: Seq<u64>, keep: spec_fn(u64) -> bool)
    requires
        forall|i: int| 0 <= i < s.len() ==> keep(#[trigger] s[i]),
    ensures
        s.filter(keep) == s,
    decreases s.len(),
{
    reveal(Seq::filter);
    if s.len() > 0 {
        lemma_filter_all(s.drop_last(), keep);
        assert(s.drop_last().push(s.last()) =~= s);
    }
}

/// The memory after the first `n` events of `evs`.
pub open spec fn memory_at(cfg: TcpAggregatorConfig, evs: Seq<TcpEventInput>, n: nat) -> TcpMemory
    decreases n,
{
    if n == 0 {
        TcpMemory { retrans: Map::empty(), emitted: Map::empty() }
    } else {
        memory_after(cfg, memory_at(cfg, evs, (n - 1) as nat), evs[n - 1])
    }
}

/// The times of the retransmits of a socket among the first `n` events of
/// `evs`.
pub open spec fn retransmit_times(evs: Seq<TcpEventInput>, n: nat, cookie: u64) -> Seq<u64>
    decreases n,
{
    if n == 0 {
        Seq::empty()
    } else {
        let before = retransmit_times(evs, (n - 1) as nat, cookie);
        let ev = evs[n - 1];
        if ev.op == TcpDiagOp::Retransmit && ev.cookie == cookie {
            before.push(ev.timestamp_ns)
        } else {
            before
        }
    }
}

/// Over a whole history of which the retransmits of one socket came in order,
/// what is counted at one of them is how many there were of that socket within
/// the window before it, whatever happened on others. That count decides whether
/// it signals, but for the dedup window, and is what the signal says.
pub proof fn retransmits_within_the_window_are_counted(
    cfg: TcpAggregatorConfig,
    evs: Seq<TcpEventInput>,
    i: int,
)
    requires
        0 <= i < evs.len(),
        evs[i].op == TcpDiagOp::Retransmit,
        ({
            let times = retransmit_times(evs, (i + 1) as nat, evs[i].cookie);
            forall|a: int, b: int| 0 <= a <= b < times.len() ==> times[a] <= times[b]
        }),
    ensures
        ({
            let m = memory_at(cfg, evs, i as nat);
            let now = evs[i].timestamp_ns;
            let window = ms_to_ns(cfg.retrans_window_ms);
            let counted = retransmit_times(evs, (i + 1) as nat, evs[i].cookie).filter(
                |t: u64| now - t <= window,
            );
            &&& times_after(cfg, m, evs[i].cookie, now) == counted
            &&& signals_at(cfg, evs, i) <==> counted.len() >= cfg.retrans_threshold && !suppressed(
                cfg,
                m,
                evs[i].cookie,
                now,
            )
            &&& answer(cfg, m, evs[i]) matches Some(e) ==> e->retrans_count == counted.len() as u32
        }),
{
    let cookie = evs[i].cookie;
    let now = evs[i].timestamp_ns;
    let window = ms_to_ns(cfg.retrans_window_ms);
    let before = retransmit_times(evs, i as nat, cookie);
    let times = retransmit_times(evs, (i + 1) as nat, cookie);
    assert(times == before.push(now));
    assert forall|a: int, b: int| 0 <= a <= b < before.len() implies before[a] <= before[b] by {
        assert(times[a] <= times[b]);
    }
    lemma_remembered(cfg, evs, i as nat, cookie);
    if before.len() > 0 {
        assert(times[before.len() - 1] <= times[before.len() as int]);
        lemma_evicted_twice(before, before.last(), now, window);
    }
    window_holds_the_recent_ones(times, now, window);
}

/// What is remembered of a socket is what the last of its retransmits left.
proof fn lemma_remembered(cfg: TcpAggregatorConfig, evs: Seq<TcpEventInput>, n: nat, cookie: u64)
    requires
        n <= evs.len(),
        ({
            let times = retransmit_times(evs, n, cookie);
            forall|a: int, b: int| 0 <= a <= b < times.len() ==> times[a] <= times[b]
        }),
    ensures
        ({
            let times = retransmit_times(evs, n, cookie);
            let m = memory_at(cfg, evs, n);
            &&& m.retrans.contains_key(cookie) <==> times.len() > 0
            &&& times.len() > 0 ==> m.retrans[cookie] == recent(
                times,
                times.last(),
                ms_to_ns(cfg.retrans_window_ms),
            )
        }),
    decreases n,
{
    if n > 0 {
        let ev = evs[n - 1];
        let before = retransmit_times(evs, (n - 1) as nat, cookie);
        let times = retransmit_times(evs, n, cookie);
        assert forall|a: int, b: int| 0 <= a <= b < before.len() implies before[a]
            <= before[b] by {
            assert(times[a] <= times[b]);
        }
        lemma_remembered(cfg, evs, (n - 1) as nat, cookie);
        if ev.op == TcpDiagOp::Retransmit && ev.cookie == cookie && before.len() > 0 {
            assert(times[before.len() - 1] <= times[before.len() as int]);
            lemma_evicted_twice(
                before,
                before.last(),
                ev.timestamp_ns,
                ms_to_ns(cfg.retrans_window_ms),
            );
        }
    }
}

/// To evict at an earlier time and again at a later one is to evict at the later
/// one.
proof fn lemma_evicted_twice(times: Seq<u64>, earlier: u64, now: u64, window: int)
    requires
        earlier <= now,
    ensures
        recent(recent(times, earlier, window).push(now), now, window) == recent(
            times.push(now),
            now,
            window,
        ),
    decreases times.len(),
{
    if times.len() > 0 && earlier - times[0] > window {
        lemma_evicted_twice(times.skip(1), earlier, now, window);
        assert(times.push(now).skip(1) =~= times.skip(1).push(now));
    }
}

/// The aggregator signals at event `i` of `evs`.
pub open spec fn signals_at(cfg: TcpAggregatorConfig, evs: Seq<TcpEventInput>, i: int) -> bool {
    emits(cfg, memory_at(cfg, evs, i as nat), evs[i])
}

/// Two signals of one socket with none between them lie at least the dedup
/// window apart, whatever else happened in between.
pub proof fn signals_keep_their_distance(
    cfg: TcpAggregatorConfig,
    evs: Seq<TcpEventInput>,
    i: int,
    j: int,
)
    requires
        0 <= i < j < evs.len(),
        evs[i].cookie == evs[j].cookie,
        cfg.dedup_window_ms > 0 || evs[i].timestamp_ns <= evs[j].timestamp_ns,
        signals_at(cfg, evs, i),
        signals_at(cfg, evs, j),
        forall|k: int|
            i < k < j && evs[k].cookie == evs[j].cookie ==> !#[trigger] signals_at(cfg, evs, k),
    ensures
        evs[j].timestamp_ns - evs[i].timestamp_ns >= ms_to_ns(cfg.dedup_window_ms),
{
    lemma_last_signal(cfg, evs, i, j);
}

proof fn lemma_last_signal(cfg: TcpAggregatorConfig, evs: Seq<TcpEventInput>, i: int, j: int)
    requires
        0 <= i < j <= evs.len(),
        signals_at(cfg, evs, i),
        forall|k: int|
            i < k < j && evs[k].cookie == evs[i].cookie ==> !#[trigger] signals_at(cfg, evs, k),
    ensures
        memory_at(cfg, evs, j as nat).emitted.contains_key(evs[i].cookie),
        memory_at(cfg, evs, j as nat).emitted[evs[i].cookie] == evs[i].timestamp_ns,
    decreases j,
{
    if i + 1 < j {
        lemma_last_signal(cfg, evs, i, j - 1);
        assert(evs[j - 1].cookie == evs[i].cookie ==> !signals_at(cfg, evs, j - 1));
    }
}

/// A retransmit signals exactly where at least the threshold of retransmits of
/// its socket lie within the window before it, itself among them, and every
/// earlier signal of the socket lies at least the dedup window back. The
/// retransmits of the socket came in order, and the dedup window can be told in
/// nanoseconds.
pub proof fn signals_are_exact(cfg: TcpAggregatorConfig, evs: Seq<TcpEventInput>, i: int)
    requires
        0 <= i < evs.len(),
        evs[i].op == TcpDiagOp::Retransmit,
        cfg.dedup_window_ms * 1_000_000 <= u64::MAX,
        forall|a: int, b: int|
            0 <= a <= b <= i && (#[trigger] evs[a]).cookie == evs[i].cookie && (
            #[trigger] evs[b]).cookie == evs[i].cookie && evs[a].op == TcpDiagOp::Retransmit
                && evs[b].op == TcpDiagOp::Retransmit ==> evs[a].timestamp_ns
                <= evs[b].timestamp_ns,
    ensures
        signals_at(cfg, evs, i) <==> {
            &&& retransmit_times(evs, (i + 1) as nat, evs[i].cookie).filter(
                |t: u64| evs[i].timestamp_ns - t <= cfg.retrans_window_ms * 1_000_000,
            ).len() >= cfg.retrans_threshold
            &&& forall|j: int|
                0 <= j < i && evs[j].cookie == evs[i].cookie && #[trigger] signals_at(cfg, evs, j)
                    ==> evs[i].timestamp_ns - evs[j].timestamp_ns >= cfg.dedup_window_ms
                    * 1_000_000
        },
{
    let cookie = evs[i].cookie;
    let now = evs[i].timestamp_ns;
    lemma_times_in_order(evs, (i + 1) as nat, cookie);
    retransmits_within_the_window_are_counted(cfg, evs, i);
    let a = |t: u64| now - t <= ms_to_ns(cfg.retrans_window_ms);
    let b = |t: u64| now - t <= cfg.retrans_window_ms * 1_000_000;
    assert(a =~= b);
    lemma_emitted_is_latest(cfg, evs, i, i);
    let m = memory_at(cfg, evs, i as nat);
    if m.emitted.contains_key(cookie) {
        let last = choose|j: int|
            0 <= j < i && evs[j].cookie == cookie && #[trigger] signals_at(cfg, evs, j)
                && m.emitted[cookie] == evs[j].timestamp_ns;
        assert(evs[last].timestamp_ns <= evs[i].timestamp_ns);
        assert forall|j: int|
            0 <= j < i && evs[j].cookie == cookie && #[trigger] signals_at(cfg, evs, j)
                implies evs[j].timestamp_ns
            <= m.emitted[cookie] by {}
    }
}

/// A retransmit of the socket among the first `n` events came at `t`.
spec fn came_at(evs: Seq<TcpEventInput>, n: nat, cookie: u64, t: u64) -> bool {
    exists|k: int|
        0 <= k < n && (#[trigger] evs[k]).cookie == cookie && evs[k].op == TcpDiagOp::Retransmit
            && evs[k].timestamp_ns == t
}

/// The times of a socket whose retransmits came in order are in order.
proof fn lemma_times_in_order(evs: Seq<TcpEventInput>, n: nat, cookie: u64)
    requires
        n <= evs.len(),
        forall|a: int, b: int|
            0 <= a <= b < n && (#[trigger] evs[a]).cookie == cookie && (#[trigger] evs[b]).cookie
                == cookie && evs[a].op == TcpDiagOp::Retransmit && evs[b].op
                == TcpDiagOp::Retransmit ==> evs[a].timestamp_ns <= evs[b].timestamp_ns,
    ensures
        forall|a: int, b: int|
            0 <= a <= b < retransmit_times(evs, n, cookie).len() ==> retransmit_times(
                evs,
                n,
                cookie,
            )[a] <= retransmit_times(evs, n, cookie)[b],
        forall|a: int|
            0 <= a < retransmit_times(evs, n, cookie).len() ==> came_at(
                evs,
                n,
                cookie,
                #[trigger] retransmit_times(evs, n, cookie)[a],
            ),
    decreases n,
{
    if n > 0 {
        lemma_times_in_order(evs, (n - 1) as nat, cookie);
        let before = retransmit_times(evs, (n - 1) as nat, cookie);
        let times = retransmit_times(evs, n, cookie);
        let ev = evs[n - 1];
        assert forall|a: int| 0 <= a < times.len() implies came_at(
            evs,
            n,
            cookie,
            #[trigger] times[a],
        ) by {
            if a < before.len() {
                assert(times[a] == before[a]);
                assert(came_at(evs, (n - 1) as nat, cookie, before[a]));
                let k = choose|k: int|
                    0 <= k < n - 1 && (#[trigger] evs[k]).cookie == cookie && evs[k].op
                        == TcpDiagOp::Retransmit && evs[k].timestamp_ns == before[a];
                assert(evs[k].cookie == cookie);
            } else {
                assert(evs[n - 1].timestamp_ns == times[a]);
            }
        }
        assert forall|a: int, b: int| 0 <= a <= b < times.len() implies times[a] <= times[b] by {
            if b < before.len() {
                assert(times[a] == before[a] && times[b] == before[b]);
                assert(before[a] <= before[b]);
            } else if a < before.len() {
                assert(came_at(evs, (n - 1) as nat, cookie, before[a]));
                let k = choose|k: int|
                    0 <= k < n - 1 && (#[trigger] evs[k]).cookie == cookie && evs[k].op
                        == TcpDiagOp::Retransmit && evs[k].timestamp_ns == before[a];
                assert(evs[k].timestamp_ns <= evs[n - 1].timestamp_ns);
            }
        }
    }
}

/// What is remembered of the signals of a socket is the time of its last one.
proof fn lemma_emitted_is_latest(
    cfg: TcpAggregatorConfig,
    evs: Seq<TcpEventInput>,
    n: int,
    i: int,
)
    requires
        0 <= n <= i < evs.len(),
        forall|a: int, b: int|
            0 <= a <= b <= i && (#[trigger] evs[a]).cookie == evs[i].cookie && (
            #[trigger] evs[b]).cookie == evs[i].cookie && evs[a].op == TcpDiagOp::Retransmit
                && evs[b].op == TcpDiagOp::Retransmit ==> evs[a].timestamp_ns
                <= evs[b].timestamp_ns,
    ensures
        ({
            let cookie = evs[i].cookie;
            let m = memory_at(cfg, evs, n as nat);
            &&& m.emitted.contains_key(cookie) <==> exists|j: int|
                0 <= j < n && evs[j].cookie == cookie && #[trigger] signals_at(cfg, evs, j)
            &&& m.emitted.contains_key(cookie) ==> {
                &&& exists|j: int|
                    0 <= j < n && evs[j].cookie == cookie && #[trigger] signals_at(cfg, evs, j)
                        && m.emitted[cookie] == evs[j].timestamp_ns
                &&& forall|j: int|
                    0 <= j < n && evs[j].cookie == cookie && #[trigger] signals_at(cfg, evs, j)
                        ==> evs[j].timestamp_ns <= m.emitted[cookie]
            }
        }),
    decreases n,
{
    let cookie = evs[i].cookie;
    if n > 0 {
        lemma_emitted_is_latest(cfg, evs, n - 1, i);
        let before = memory_at(cfg, evs, (n - 1) as nat);
        let m = memory_at(cfg, evs, n as nat);
        let ev = evs[n - 1];
        let here = signals_at(cfg, evs, n - 1);
        if ev.cookie == cookie && here {
            assert(m.emitted[cookie] == ev.timestamp_ns);
            assert forall|j: int|
                0 <= j < n && evs[j].cookie == cookie && #[trigger] signals_at(
                    cfg,
                    evs,
                    j,
                ) implies evs[j].timestamp_ns <= m.emitted[cookie] by {
                assert(evs[j].timestamp_ns <= evs[n - 1].timestamp_ns);
            }
        } else {
            assert(m.emitted.contains_key(cookie) == before.emitted.contains_key(cookie));
            if before.emitted.contains_key(cookie) {
                assert(m.emitted[cookie] == before.emitted[cookie]);
                let j = choose|j: int|
                    0 <= j < n - 1 && evs[j].cookie == cookie && #[trigger] signals_at(cfg, evs, j)
                        && before.emitted[cookie] == evs[j].timestamp_ns;
                assert(signals_at(cfg, evs, j));
            }
            if exists|j: int|
                0 <= j < n && evs[j].cookie == cookie && #[trigger] signals_at(cfg, evs, j) {
                let j = choose|j: int|
                    0 <= j < n && evs[j].cookie == cookie && #[trigger] signals_at(cfg, evs, j);
                assert(j < n - 1);
            }
        }
    }
}

/// Where the dedup window is longer than time can be told in nanoseconds, a
/// socket signals at most once, but for a second one at the very end of time.
pub proof fn endless_dedup_signals_once(
    cfg: TcpAggregatorConfig,
    evs: Seq<TcpEventInput>,
    i: int,
    j: int,
)
    requires
        cfg.dedup_window_ms * 1_000_000 > u64::MAX,
        0 <= i < j < evs.len(),
        evs[i].cookie == evs[j].cookie,
        signals_at(cfg, evs, i),
        signals_at(cfg, evs, j),
        forall|k: int|
            i < k < j && evs[k].cookie == evs[j].cookie ==> !#[trigger] signals_at(cfg, evs, k),
    ensures
        evs[i].timestamp_ns == 0 && evs[j].timestamp_ns == u64::MAX,
{
    signals_keep_their_distance(cfg, evs, i, j);
}

/// A signal is of the event that it answers: it has the socket, the process and both
/// ends of the connection from that event, each in its place, and the window and the
/// number of retransmits that it was raised for.
pub proof fn a_signal_is_of_its_event(cfg: TcpAggregatorConfig, m: TcpMemory, ev: TcpEventInput)
    ensures
        answer(cfg, m, ev) is Some <==> emits(cfg, m, ev),
        answer(cfg, m, ev) matches Some(s) ==> {
            &&& s->cookie == ev.cookie
            &&& s->cgroup_id == ev.cgroup_id
            &&& s->pid == ev.pid
            &&& s->comm == ev.comm
            &&& s->timestamp_ns == ev.timestamp_ns
            &&& s->family == ev.family
            &&& s->saddr == ev.saddr
            &&& s->sport == ev.sport
            &&& s->daddr == ev.daddr
            &&& s->dport == ev.dport
            &&& s->total_retrans == ev.total_retrans
            &&& s->window_ms == cfg.retrans_window_ms
            &&& ev.op is Retransmit
        },
{
}

} // verus!
