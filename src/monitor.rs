use vstd::prelude::*;
use crate::idmap::IdMap;
use crate::launch::{signed_decimal, signed_decimal_spec};
use crate::models::ServerStatus;
use crate::supervisor::{forced_exits, reap_spec};

verus! {

/// Consecutive failed probes after which a server counts as frozen.
pub const FREEZE_THRESHOLD: u32 = 3;

/// Fast ticks (5 s apart) per watchdog round (60 s).
pub const TICKS_PER_WATCHDOG: u8 = 12;

/// Status a server gets from how its process ended: a clean exit code is a
/// stop, anything else (another code, or none) a crash.
pub open spec fn exit_status_spec(exit_code: Option<i32>) -> ServerStatus {
    if exit_code == Some(0i32) {
        ServerStatus::Stopped
    } else {
        ServerStatus::Crashed
    }
}

/// What the fast loop does about one reaped exit.
#[derive(Debug, Clone, Copy, PartialEq, Eq)]
pub struct ExitPlan {
    pub server_id: i64,
    pub exit_code: Option<i32>,
    /// Status that the exit itself implies.
    pub status: ServerStatus,
    /// Whether the server is to be restarted now.
    pub restart: bool,
}

#[derive(Debug, Clone, Copy, PartialEq, Eq, Structural)]
pub enum NoticeKind {
    /// A crashed server was started again.
    Restarted,
    /// A server crashed and stays down.
    Crashed,
    /// The watchdog stopped a server that stopped answering.
    Frozen,
}

/// An alert for the notification layer.
#[derive(Debug, Clone, Copy, PartialEq, Eq, Structural)]
pub struct Notice {
    pub kind: NoticeKind,
    pub server_id: i64,
}

pub open spec fn notice_title_spec(kind: NoticeKind) -> Seq<char> {
    match kind {
        NoticeKind::Restarted => "Server Restarted"@,
        NoticeKind::Crashed => "Server Crashed"@,
        NoticeKind::Frozen => "Watchdog Triggered"@,
    }
}

/// Alert text; a restart names the server by its session name, the other
/// alerts by its id.
pub open spec fn notice_message_spec(n: Notice, session_name: Seq<char>) -> Seq<char> {
    match n.kind {
        NoticeKind::Restarted => "Server "@ + session_name + " crashed and was auto-restarted."@,
        NoticeKind::Crashed => "Server "@ + signed_decimal_spec(n.server_id as int) + " has crashed!"@,
        NoticeKind::Frozen => "Server "@ + signed_decimal_spec(n.server_id as int)
            + " was frozen and is being restarted."@,
    }
}

impl Notice {
    pub fn title(&self) -> (r: String)
        ensures
            r@ == notice_title_spec(self.kind),
    {
        match self.kind {
            NoticeKind::Restarted => String::from_str("Server Restarted"),
            NoticeKind::Crashed => String::from_str("Server Crashed"),
            NoticeKind::Frozen => String::from_str("Watchdog Triggered"),
        }
    }

    pub fn message(&self, session_name: &str) -> (r: String)
        ensures
            r@ == notice_message_spec(*self, session_name@),
    {
        match self.kind {
            NoticeKind::Restarted => String::from_str("Server ").concat(session_name).concat(
                " crashed and was auto-restarted.",
            ),
            NoticeKind::Crashed => String::from_str("Server ").concat(signed_decimal(self.server_id).as_str()).concat(
                " has crashed!",
            ),
            NoticeKind::Frozen => String::from_str("Server ").concat(signed_decimal(self.server_id).as_str()).concat(
                " was frozen and is being restarted.",
            ),
        }
    }
}

/// Result of handling one exit: the status to persist, the data of the
/// `status-changed` event, and the alert to send, if any.
#[derive(Debug, Clone, Copy, PartialEq, Eq)]
pub struct ExitOutcome {
    pub server_id: i64,
    pub exit_code: Option<i32>,
    pub status: ServerStatus,
    pub notice: Option<Notice>,
}

/// Status after handling an exit, given whether a restart was attempted and
/// whether it succeeded.
pub open spec fn settled_status_spec(plan: ExitPlan, restarted: bool) -> ServerStatus {
    if plan.restart && restarted {
        ServerStatus::Running
    } else {
        plan.status
    }
}

pub open spec fn settled_notice_spec(plan: ExitPlan, restarted: bool) -> Option<Notice> {
    if plan.restart && restarted {
        Some(Notice { kind: NoticeKind::Restarted, server_id: plan.server_id })
    } else if plan.status == ServerStatus::Crashed {
        Some(Notice { kind: NoticeKind::Crashed, server_id: plan.server_id })
    } else {
        None
    }
}

/// Consecutive failed probes recorded for a server.
pub open spec fn count_of(counts: Map<i64, u32>, id: i64) -> nat {
    if counts.contains_key(id) {
        counts[id] as nat
    } else {
        0
    }
}

/// One watchdog probe of a server: the new counters, and whether the server
/// is to be stopped by force.
pub open spec fn probe_step(counts: Map<i64, u32>, id: i64, healthy: bool) -> (Map<i64, u32>, bool) {
    if healthy {
        (counts.remove(id), false)
    } else if count_of(counts, id) + 1 >= FREEZE_THRESHOLD {
        (counts.remove(id), true)
    } else {
        (counts.insert(id, (count_of(counts, id) + 1) as u32), false)
    }
}

/// What one server's record at startup says: its persisted status and
/// recorded process id, and whether a process with that id is alive.
#[derive(Debug, Clone, Copy, PartialEq, Eq)]
pub struct PidRecord {
    pub server_id: i64,
    pub status: ServerStatus,
    pub pid: Option<u32>,
    pub alive: bool,
}

/// A server persisted as running whose process is gone, or was never
/// recorded, is to be marked stopped.
pub open spec fn stale_running(r: PidRecord) -> bool {
    r.status == ServerStatus::Running && (r.pid is None || r.pid == Some(0u32) || !r.alive)
}

/// Ids of the records to mark stopped, in order.
pub open spec fn reconcile_spec(records: Seq<PidRecord>) -> Seq<i64>
    decreases records.len(),
{
    if records.len() == 0 {
        Seq::empty()
    } else if stale_running(records.last()) {
        reconcile_spec(records.drop_last()).push(records.last().server_id)
    } else {
        reconcile_spec(records.drop_last())
    }
}

/// The health monitor's transient state: failed-probe counters per server
/// and the position of the fast loop within a watchdog round.
pub struct ServerMonitorService {
    failures: IdMap<u32>,
    phase: u8,
}

impl ServerMonitorService {
    pub closed spec fn wf(&self) -> bool {
        &&& self.failures.wf()
        &&& forall|k: i64| #[trigger] self.failures@.contains_key(k)
            ==> 1 <= self.failures@[k] < FREEZE_THRESHOLD
        &&& self.phase < TICKS_PER_WATCHDOG
    }

    /// Failed-probe counters of the servers that have any.
    pub closed spec fn counts(&self) -> Map<i64, u32> {
        self.failures@
    }

    /// Fast ticks since the last watchdog round.
    pub closed spec fn phase(&self) -> nat {
        self.phase as nat
    }

    pub fn new() -> (r: Self)
        ensures
            r.wf(),
            r.counts() == Map::<i64, u32>::empty(),
            r.phase() == 0,
    {
        ServerMonitorService { failures: IdMap::new(), phase: 0 }
    }

    /// Advances the fast loop by one tick; says whether this tick also runs
    /// the watchdog, which it does on every twelfth tick.
    pub fn next_tick(&mut self) -> (watchdog_due: bool)
        requires
            old(self).wf(),
        ensures
            final(self).wf(),
            final(self).counts() == old(self).counts(),
            final(self).phase() == (old(self).phase() + 1) % (TICKS_PER_WATCHDOG as nat),
            watchdog_due == (final(self).phase() == 0),
    {
        if self.phase + 1 == TICKS_PER_WATCHDOG {
            self.phase = 0;
            true
        } else {
            self.phase = self.phase + 1;
            false
        }
    }

    /// Classifies how a process ended.
    pub fn classify_exit(exit_code: Option<i32>) -> (r: ServerStatus)
        ensures
            r == exit_status_spec(exit_code),
    {
        match exit_code {
            Some(0) => ServerStatus::Stopped,
            _ => ServerStatus::Crashed,
        }
    }

    /// Decides about one reaped exit: a crash of a server with auto-restart
    /// on is restarted at once; nothing else is.
    pub fn plan_exit(server_id: i64, exit_code: Option<i32>, auto_restart: bool) -> (r: ExitPlan)
        ensures
            r.server_id == server_id,
            r.exit_code == exit_code,
            r.status == exit_status_spec(exit_code),
            r.restart == (r.status == ServerStatus::Crashed && auto_restart),
    {
        let status = Self::classify_exit(exit_code);
        let restart = match status {
            ServerStatus::Crashed => auto_restart,
            _ => false,
        };
        ExitPlan { server_id, exit_code, status, restart }
    }

    /// Completes the handling of an exit once the restart, if one was
    /// planned, has been tried (`restarted` tells whether it succeeded and
    /// is ignored otherwise). A restart dispatch clears the server's
    /// failed-probe counter.
    pub fn settle_exit(&mut self, plan: &ExitPlan, restarted: bool) -> (r: ExitOutcome)
        requires
            old(self).wf(),
        ensures
            final(self).wf(),
            final(self).phase() == old(self).phase(),
            final(self).counts() == (if plan.restart {
                old(self).counts().remove(plan.server_id)
            } else {
                old(self).counts()
            }),
            r.server_id == plan.server_id,
            r.exit_code == plan.exit_code,
            r.status == settled_status_spec(*plan, restarted),
            r.notice == settled_notice_spec(*plan, restarted),
    {
        if plan.restart {
            self.clear_failures(plan.server_id);
        }
        let status = if plan.restart && restarted {
            ServerStatus::Running
        } else {
            plan.status
        };
        let notice = if plan.restart && restarted {
            Some(Notice { kind: NoticeKind::Restarted, server_id: plan.server_id })
        } else {
            match plan.status {
                ServerStatus::Crashed => Some(Notice { kind: NoticeKind::Crashed, server_id: plan.server_id }),
                _ => None,
            }
        };
        ExitOutcome { server_id: plan.server_id, exit_code: plan.exit_code, status, notice }
    }

    /// Forgets the server's failed probes; done on every restart dispatch.
    pub fn clear_failures(&mut self, server_id: i64)
        requires
            old(self).wf(),
        ensures
            final(self).wf(),
            final(self).phase() == old(self).phase(),
            final(self).counts() == old(self).counts().remove(server_id),
    {
        let _ = self.failures.remove(server_id);
    }

    /// Whether the watchdog probes a server: only running servers with
    /// auto-restart on.
    pub fn should_probe(status: ServerStatus, auto_restart: bool) -> (r: bool)
        ensures
            r == (status == ServerStatus::Running && auto_restart),
    {
        match status {
            ServerStatus::Running => auto_restart,
            _ => false,
        }
    }

    /// Records one watchdog probe. A success clears the counter; a failure
    /// raises it, and the third one in a row asks for a stop by force and
    /// clears it. Restarting is left to the fast loop.
    pub fn record_probe(&mut self, server_id: i64, healthy: bool) -> (stop: bool)
        requires
            old(self).wf(),
        ensures
            final(self).wf(),
            final(self).phase() == old(self).phase(),
            (final(self).counts(), stop) == probe_step(old(self).counts(), server_id, healthy),
    {
        if healthy {
            let _ = self.failures.remove(server_id);
            return false;
        }
        let current: u32 = match self.failures.get(server_id) {
            Some(c) => *c,
            None => 0,
        };
        let next = current + 1;
        if next >= FREEZE_THRESHOLD {
            let _ = self.failures.remove(server_id);
            true
        } else {
            self.failures.set(server_id, next);
            false
        }
    }

    /// Startup reconciliation: the servers to mark stopped because they are
    /// persisted as running while no live process backs them.
    pub fn reconcile(records: &Vec<PidRecord>) -> (r: Vec<i64>)
        ensures
            r@ == reconcile_spec(records@),
    {
        let mut stale: Vec<i64> = Vec::new();
        let mut i: usize = 0;
        while i < records.len()
            invariant
                i <= records@.len(),
                stale@ == reconcile_spec(records@.subrange(0, i as int)),
            decreases records@.len() - i,
        {
            let rec = records[i];
            proof {
                let pre = records@.subrange(0, i + 1);
                assert(pre.drop_last() =~= records@.subrange(0, i as int));
                assert(pre.last() == rec);
            }
            let is_stale = match rec.status {
                ServerStatus::Running => match rec.pid {
                    None => true,
                    Some(p) => p == 0 || !rec.alive,
                },
                _ => false,
            };
            if is_stale {
                stale.push(rec.server_id);
            }
            i = i + 1;
        }
        proof {
            assert(records@.subrange(0, records@.len() as int) =~= records@);
        }
        stale
    }
}

/// Counters after `n` failed probes of one server in a row.
pub open spec fn failing_run(counts: Map<i64, u32>, id: i64, n: nat) -> Map<i64, u32>
    decreases n,
{
    if n == 0 {
        counts
    } else {
        probe_step(failing_run(counts, id, (n - 1) as nat), id, false).0
    }
}

/// Stops by force asked for during `n` failed probes of one server in a row.
pub open spec fn stops_in_run(counts: Map<i64, u32>, id: i64, n: nat) -> nat
    decreases n,
{
    if n == 0 {
        0
    } else {
        stops_in_run(counts, id, (n - 1) as nat) + if probe_step(
            failing_run(counts, id, (n - 1) as nat),
            id,
            false,
        ).1 {
            1nat
        } else {
            0nat
        }
    }
}

/// Watchdog: starting from a clear counter, every third failed probe in a
/// row asks for exactly one stop by force, and no other probe does; so three
/// failures give one stop. The probe step never restarts anything: a stopped
/// server comes back only through the fast loop's crash handling.
pub proof fn lemma_watchdog_stops_every_third_failure(counts: Map<i64, u32>, id: i64, n: nat)
    requires
        count_of(counts, id) == 0,
    ensures
        count_of(failing_run(counts, id, n), id) == n % 3,
        stops_in_run(counts, id, n) == n / 3,
        n > 0 ==> (probe_step(failing_run(counts, id, (n - 1) as nat), id, false).1 <==> n % 3 == 0),
    decreases n,
{
    if n > 0 {
        lemma_watchdog_stops_every_third_failure(counts, id, (n - 1) as nat);
        let prev = failing_run(counts, id, (n - 1) as nat);
        assert(count_of(prev, id) == (n - 1) % 3);
        assert(n % 3 == ((n - 1) % 3 + 1) % 3);
        assert(n / 3 == (n - 1) / 3 + if (n - 1) % 3 == 2 { 1nat } else { 0nat });
    }
}

/// A server stopped by force comes back through the fast loop: the next reap
/// reports it without an exit code, which is a crash, and a crash of a
/// server with auto-restart on is restarted; a successful restart leaves it
/// running, a failed one crashed.
pub proof fn lemma_frozen_server_restarted_by_fast_loop(
    pending: Seq<i64>,
    polled: Seq<(i64, Option<i32>)>,
    live: Set<i64>,
    id: i64,
    restarted: bool,
)
    requires
        pending.contains(id),
    ensures
        (forced_exits(pending) + reap_spec(polled, live)).contains((id, None::<i32>)),
        exit_status_spec(None) == ServerStatus::Crashed,
        settled_status_spec(
            ExitPlan { server_id: id, exit_code: None, status: ServerStatus::Crashed, restart: true },
            restarted,
        ) == (if restarted { ServerStatus::Running } else { ServerStatus::Crashed }),
{
    let k = choose|k: int| 0 <= k < pending.len() && pending[k] == id;
    assert((forced_exits(pending) + reap_spec(polled, live))[k] == (id, None::<i32>));
}

/// Crash with auto-restart on: after the tick the server is running exactly
/// when the restart succeeded, and crashed otherwise; it is never reported
/// running without a successful restart.
pub proof fn lemma_crash_with_auto_restart(server_id: i64, exit_code: Option<i32>, restarted: bool)
    requires
        exit_code != Some(0i32),
    ensures
        ({
            let plan = ExitPlan {
                server_id,
                exit_code,
                status: exit_status_spec(exit_code),
                restart: exit_status_spec(exit_code) == ServerStatus::Crashed,
            };
            &&& plan.restart
            &&& settled_status_spec(plan, restarted) == (if restarted {
                ServerStatus::Running
            } else {
                ServerStatus::Crashed
            })
            &&& settled_status_spec(plan, restarted) == ServerStatus::Running ==> restarted
        }),
{
}

/// Crash with auto-restart off: the server is marked crashed and not
/// restarted; afterwards no reap reports it again while it is neither
/// registered nor stopped by force, and the watchdog probes only running
/// servers, so it stays crashed over any number of later ticks.
pub proof fn lemma_crash_without_auto_restart(
    server_id: i64,
    exit_code: Option<i32>,
    restarted: bool,
    pending: Seq<i64>,
    polled: Seq<(i64, Option<i32>)>,
    live: Set<i64>,
)
    requires
        exit_code != Some(0i32),
        !live.contains(server_id),
        !pending.contains(server_id),
    ensures
        ({
            let plan = ExitPlan {
                server_id,
                exit_code,
                status: exit_status_spec(exit_code),
                restart: exit_status_spec(exit_code) == ServerStatus::Crashed && false,
            };
            &&& !plan.restart
            &&& settled_status_spec(plan, restarted) == ServerStatus::Crashed
        }),
        forall|i: int|
            0 <= i < (forced_exits(pending) + reap_spec(polled, live)).len()
                ==> (#[trigger] (forced_exits(pending) + reap_spec(polled, live))[i]).0 != server_id,
{
    crate::supervisor::lemma_reap_spec_live(polled, live);
    let all = forced_exits(pending) + reap_spec(polled, live);
    assert forall|i: int| 0 <= i < all.len() implies (#[trigger] all[i]).0 != server_id by {
        if i < pending.len() {
            assert(all[i].0 == pending[i]);
        } else {
            assert(all[i] == reap_spec(polled, live)[i - pending.len()]);
        }
    }
}

/// Some record of the server is stale.
pub open spec fn stale_in(records: Seq<PidRecord>, id: i64) -> bool {
    exists|i: int| 0 <= i < records.len() && stale_running(#[trigger] records[i]) && records[i].server_id == id
}

/// Startup reconciliation flags exactly the servers persisted as running
/// whose recorded process is missing or dead.
pub proof fn lemma_reconcile_flags_dead_running(records: Seq<PidRecord>)
    ensures
        forall|i: int| 0 <= i < records.len() && stale_running(#[trigger] records[i])
            ==> reconcile_spec(records).contains(records[i].server_id),
        forall|j: int| 0 <= j < reconcile_spec(records).len()
            ==> stale_in(records, #[trigger] reconcile_spec(records)[j]),
    decreases records.len(),
{
    if records.len() > 0 {
        let pre = records.drop_last();
        lemma_reconcile_flags_dead_running(pre);
        let out = reconcile_spec(records);
        assert forall|i: int| 0 <= i < records.len() && stale_running(#[trigger] records[i])
            implies out.contains(records[i].server_id) by {
            if i < records.len() - 1 {
                assert(pre[i] == records[i]);
                let j = choose|j: int| 0 <= j < reconcile_spec(pre).len() && reconcile_spec(pre)[j] == records[i].server_id;
                assert(out[j] == records[i].server_id);
            } else {
                assert(out[out.len() - 1] == records[i].server_id);
            }
        }
        assert forall|j: int| 0 <= j < out.len() implies stale_in(records, #[trigger] out[j]) by {
            if j < reconcile_spec(pre).len() {
                let x = reconcile_spec(pre)[j];
                assert(out[j] == x);
                assert(stale_in(pre, x));
                let i = choose|i: int| 0 <= i < pre.len() && stale_running(#[trigger] pre[i]) && pre[i].server_id == x;
                assert(records[i] == pre[i]);
            } else {
                assert(stale_running(records.last()));
                assert(out[j] == records.last().server_id);
                assert(stale_running(records[records.len() - 1]));
            }
        }
    } else {
        assert(reconcile_spec(records).len() == 0);
    }
}

} // verus!
