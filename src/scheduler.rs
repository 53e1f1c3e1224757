use vstd::prelude::*;
use crate::models::Schedule;

verus! {

/// Seconds between two scheduler ticks; a tick looks back this far.
pub const TICK_SECONDS: i64 = 60;

/// Instants handed to the cron evaluation stay within this many seconds of
/// the Unix epoch, well inside what the calendar types can represent.
pub const INSTANT_LIMIT: i64 = 8_000_000_000_000;

/// Offsets of a local time from UTC are less than a day, in seconds.
pub const OFFSET_LIMIT: i32 = 86_400;

#[verifier::external_type_specification]
#[verifier::external_body]
pub struct ExCronError(cron::error::Error);

/// Whether cron accepts the expression.
pub uninterp spec fn cron_accepts(expr: Seq<char>) -> bool;

/// First firing of the expression's schedule strictly after the instant
/// `after` (seconds since the Unix epoch), the expression's fields read in
/// the local time `offset` seconds east of UTC; if any.
pub uninterp spec fn cron_next_after(expr: Seq<char>, after: int, offset: int) -> Option<int>;

/// Relies on cron's `Schedule::from_str` (which expressions parse) and on
/// `Schedule::after(..).next()` over a fixed-offset time (chrono's
/// `FixedOffset::east_opt`), whose query starts one second after the given
/// instant, for the next firing.
#[verifier::external_body]
fn cron_next_fire(expr: &str, after: i64, offset: i32) -> (r: Result<Option<i64>, cron::error::Error>)
    requires
        -INSTANT_LIMIT <= after <= INSTANT_LIMIT,
        -OFFSET_LIMIT < offset < OFFSET_LIMIT,
    ensures
        r is Ok <==> cron_accepts(expr@),
        match r {
            Ok(Some(t)) => cron_next_after(expr@, after as int, offset as int) == Some(t as int) && t > after,
            Ok(None) => cron_next_after(expr@, after as int, offset as int) == None::<int>,
            Err(_) => true,
        },
{
    let schedule = match <cron::Schedule as std::str::FromStr>::from_str(expr) {
        Ok(s) => s,
        Err(e) => return Err(e),
    };
    let Some(zone) = chrono::FixedOffset::east_opt(offset) else { return Ok(None) };
    match chrono::DateTime::from_timestamp(after, 0) {
        None => Ok(None),
        Some(start) => match schedule.after(&start.with_timezone(&zone)).next() {
            Some(t) => Ok(Some(t.timestamp())),
            None => Ok(None),
        },
    }
}

/// Failures of schedule evaluation.
#[derive(Debug, Clone, Copy, PartialEq, Eq, Structural)]
pub enum SchedulingError {
    /// The cron expression does not parse.
    InvalidCron,
}

/// The maintenance actions a schedule can run.
#[derive(Debug, Clone, Copy, PartialEq, Eq, Structural)]
pub enum TaskType {
    Restart,
    Backup,
    Update,
    Broadcast,
}

pub open spec fn task_type_name(t: TaskType) -> Seq<char> {
    match t {
        TaskType::Restart => "restart"@,
        TaskType::Backup => "backup"@,
        TaskType::Update => "update"@,
        TaskType::Broadcast => "broadcast"@,
    }
}

impl TaskType {
    /// Reads a stored task name; unknown names give nothing.
    pub fn parse(s: &str) -> (r: Option<TaskType>)
        ensures
            match r {
                Some(t) => task_type_name(t) == s@,
                None => forall|t: TaskType| task_type_name(t) != s@,
            },
    {
        let owned = String::from_str(s);
        if owned == String::from_str("restart") {
            Some(TaskType::Restart)
        } else if owned == String::from_str("backup") {
            Some(TaskType::Backup)
        } else if owned == String::from_str("update") {
            Some(TaskType::Update)
        } else if owned == String::from_str("broadcast") {
            Some(TaskType::Broadcast)
        } else {
            proof {
                assert forall|t: TaskType| task_type_name(t) != s@ by {
                    match t {
                        TaskType::Restart => {},
                        TaskType::Backup => {},
                        TaskType::Update => {},
                        TaskType::Broadcast => {},
                    }
                }
            }
            None
        }
    }
}

/// What a due schedule asks for.
#[derive(Debug, Clone)]
pub enum ScheduledAction {
    Restart,
    Backup,
    Update,
    /// A remote-console command that broadcasts the payload.
    Broadcast(String),
}

pub enum ActionView {
    Restart,
    Backup,
    Update,
    Broadcast(Seq<char>),
}

impl View for ScheduledAction {
    type V = ActionView;

    open spec fn view(&self) -> ActionView {
        match self {
            ScheduledAction::Restart => ActionView::Restart,
            ScheduledAction::Backup => ActionView::Backup,
            ScheduledAction::Update => ActionView::Update,
            ScheduledAction::Broadcast(c) => ActionView::Broadcast(c@),
        }
    }
}

/// One firing of a schedule. `action` is empty when the entry names no known
/// task, or is a broadcast without a payload: the firing still counts.
#[derive(Debug, Clone)]
pub struct Dispatch {
    pub schedule_id: i64,
    pub server_id: i64,
    pub action: Option<ScheduledAction>,
}

pub struct DispatchView {
    pub schedule_id: i64,
    pub server_id: i64,
    pub action: Option<ActionView>,
}

impl View for Dispatch {
    type V = DispatchView;

    open spec fn view(&self) -> DispatchView {
        DispatchView {
            schedule_id: self.schedule_id,
            server_id: self.server_id,
            action: match self.action {
                Some(a) => Some(a@),
                None => None,
            },
        }
    }
}

/// The remote-console command that broadcasts a message.
pub open spec fn broadcast_command_spec(message: Seq<char>) -> Seq<char> {
    "Broadcast "@ + message
}

pub open spec fn action_spec(entry: Schedule) -> Option<ActionView> {
    if entry.task_type@ == "restart"@ {
        Some(ActionView::Restart)
    } else if entry.task_type@ == "backup"@ {
        Some(ActionView::Backup)
    } else if entry.task_type@ == "update"@ {
        Some(ActionView::Update)
    } else if entry.task_type@ == "broadcast"@ {
        match entry.payload {
            Some(p) => Some(ActionView::Broadcast(broadcast_command_spec(p@))),
            None => None,
        }
    } else {
        None
    }
}

pub open spec fn dispatch_spec(entry: Schedule) -> DispatchView {
    DispatchView { schedule_id: entry.id, server_id: entry.server_id, action: action_spec(entry) }
}

/// The instant lies in the lookback window of a tick at `now`.
pub open spec fn in_window(t: int, now: int) -> bool {
    now - TICK_SECONDS < t <= now
}

/// A tick at `now` is due when the next firing after the window's start
/// lies in the window.
pub open spec fn due_spec(next: Option<int>, now: int) -> bool {
    match next {
        Some(t) => in_window(t, now),
        None => false,
    }
}

/// The entry fires at a tick at `now`, its expression read in the local
/// time `offset` seconds east of UTC.
pub open spec fn fires_spec(entry: Schedule, now: int, offset: int) -> bool {
    &&& entry.enabled
    &&& cron_accepts(entry.cron_expression@)
    &&& due_spec(cron_next_after(entry.cron_expression@, now - TICK_SECONDS, offset), now)
}

/// The firings of a tick, in the order of the entries.
pub open spec fn tick_spec(entries: Seq<Schedule>, now: int, offset: int) -> Seq<DispatchView>
    decreases entries.len(),
{
    if entries.len() == 0 {
        Seq::empty()
    } else if fires_spec(entries.last(), now, offset) {
        tick_spec(entries.drop_last(), now, offset).push(dispatch_spec(entries.last()))
    } else {
        tick_spec(entries.drop_last(), now, offset)
    }
}

/// The task scheduler's decisions.
pub struct SchedulerService;

impl SchedulerService {
    /// Whether a known next firing falls in the window of a tick at `now`.
    pub fn due(next: Option<i64>, now: i64) -> (r: bool)
        ensures
            r == due_spec(
                match next {
                    Some(t) => Some(t as int),
                    None => None,
                },
                now as int,
            ),
    {
        match next {
            Some(t) => (now as i128) - (TICK_SECONDS as i128) < (t as i128) && t <= now,
            None => false,
        }
    }

    /// Whether the expression, read in the local time `offset` seconds east
    /// of UTC, has a firing in the window of a tick at `now`; an expression
    /// cron refuses is an error.
    pub fn is_due(cron_expression: &str, now: i64, offset: i32) -> (r: Result<bool, SchedulingError>)
        requires
            -INSTANT_LIMIT + TICK_SECONDS <= now <= INSTANT_LIMIT,
            -OFFSET_LIMIT < offset < OFFSET_LIMIT,
        ensures
            r is Err <==> !cron_accepts(cron_expression@),
            r matches Ok(b) ==> b == due_spec(
                cron_next_after(cron_expression@, now - TICK_SECONDS, offset as int),
                now as int,
            ),
    {
        match cron_next_fire(cron_expression, now - TICK_SECONDS, offset) {
            Err(_) => Err(SchedulingError::InvalidCron),
            Ok(next) => Ok(Self::due(next, now)),
        }
    }

    /// Checks an expression when a schedule is created or edited.
    pub fn validate_cron(cron_expression: &str) -> (r: Result<(), SchedulingError>)
        ensures
            r is Ok <==> cron_accepts(cron_expression@),
    {
        match cron_next_fire(cron_expression, 0, 0) {
            Err(_) => Err(SchedulingError::InvalidCron),
            Ok(_) => Ok(()),
        }
    }

    /// The remote-console command that broadcasts a message.
    pub fn broadcast_command(message: &str) -> (r: String)
        ensures
            r@ == broadcast_command_spec(message@),
    {
        String::from_str("Broadcast ").concat(message)
    }

    /// What firing the entry dispatches.
    pub fn dispatch_for(entry: &Schedule) -> (r: Dispatch)
        ensures
            r@ == dispatch_spec(*entry),
    {
        proof {
            reveal_strlit("restart");
            reveal_strlit("backup");
            reveal_strlit("update");
            reveal_strlit("broadcast");
            assert("restart"@.len() != "backup"@.len());
            assert("restart"@.len() != "update"@.len());
            assert("restart"@.len() != "broadcast"@.len());
            assert("backup"@.len() != "broadcast"@.len());
            assert("update"@.len() != "broadcast"@.len());
            assert("backup"@[0] != "update"@[0]);
        }
        let parsed = TaskType::parse(entry.task_type.as_str());
        proof {
            if parsed is None {
                assert(task_type_name(TaskType::Restart) != entry.task_type@);
                assert(task_type_name(TaskType::Backup) != entry.task_type@);
                assert(task_type_name(TaskType::Update) != entry.task_type@);
                assert(task_type_name(TaskType::Broadcast) != entry.task_type@);
            }
        }
        let action = match parsed {
            Some(TaskType::Restart) => Some(ScheduledAction::Restart),
            Some(TaskType::Backup) => Some(ScheduledAction::Backup),
            Some(TaskType::Update) => Some(ScheduledAction::Update),
            Some(TaskType::Broadcast) => match &entry.payload {
                Some(p) => Some(ScheduledAction::Broadcast(Self::broadcast_command(p.as_str()))),
                None => None,
            },
            None => None,
        };
        Dispatch { schedule_id: entry.id, server_id: entry.server_id, action }
    }

    /// One scheduler tick at `now`, on a host whose local time is `offset`
    /// seconds east of UTC: every enabled entry whose cron expression, read
    /// in local time, has a firing in the window `(now - 60, now]` fires
    /// once, in order, and gets `last_run = now`. Entries with an expression
    /// cron refuses are skipped; nothing else changes.
    pub fn check_and_run_tasks(schedules: &mut Vec<Schedule>, now: i64, offset: i32) -> (r: Vec<Dispatch>)
        requires
            -INSTANT_LIMIT + TICK_SECONDS <= now <= INSTANT_LIMIT,
            -OFFSET_LIMIT < offset < OFFSET_LIMIT,
        ensures
            final(schedules)@.len() == old(schedules)@.len(),
            forall|i: int| 0 <= i < old(schedules)@.len() ==> {
                let before = #[trigger] old(schedules)@[i];
                final(schedules)@[i] == Schedule {
                    last_run: if fires_spec(before, now as int, offset as int) { Some(now) } else { before.last_run },
                    ..before
                }
            },
            r@.map_values(|d: Dispatch| d@) == tick_spec(old(schedules)@, now as int, offset as int),
    {
        let ghost original = schedules@;
        let mut fired: Vec<Dispatch> = Vec::new();
        let mut i: usize = 0;
        while i < schedules.len()
            invariant
                schedules@.len() == original.len(),
                i <= original.len(),
                -INSTANT_LIMIT + TICK_SECONDS <= now <= INSTANT_LIMIT,
                -OFFSET_LIMIT < offset < OFFSET_LIMIT,
                forall|j: int| i <= j < original.len() ==> schedules@[j] == original[j],
                forall|j: int| 0 <= j < i ==> {
                    let before = #[trigger] original[j];
                    schedules@[j] == Schedule {
                        last_run: if fires_spec(before, now as int, offset as int) { Some(now) } else { before.last_run },
                        ..before
                    }
                },
                fired@.map_values(|d: Dispatch| d@) == tick_spec(original.subrange(0, i as int), now as int, offset as int),
            decreases original.len() - i,
        {
            proof {
                let pre = original.subrange(0, i + 1);
                assert(pre.drop_last() =~= original.subrange(0, i as int));
                assert(pre.last() == original[i as int]);
            }
            let due = if schedules[i].enabled {
                match Self::is_due(schedules[i].cron_expression.as_str(), now, offset) {
                    Ok(b) => b,
                    Err(_) => false,
                }
            } else {
                false
            };
            if due {
                let d = Self::dispatch_for(&schedules[i]);
                let ghost prev = fired@;
                fired.push(d);
                proof {
                    assert(fired@.map_values(|d: Dispatch| d@) =~= prev.map_values(|d: Dispatch| d@).push(d@));
                }
                schedules[i].last_run = Some(now);
            }
            i = i + 1;
        }
        proof {
            assert(original.subrange(0, original.len() as int) =~= original);
        }
        fired
    }
}

/// A firing time is dispatched by at most one tick when ticks are a full
/// window apart: the windows of two such ticks do not overlap, so an entry
/// fires at most once per window.
pub proof fn lemma_windows_disjoint(t: int, now1: int, now2: int)
    requires
        now2 >= now1 + TICK_SECONDS,
    ensures
        !(in_window(t, now1) && in_window(t, now2)),
{
}

proof fn lemma_tick_gap(ticks: Seq<int>, a: int, b: int)
    requires
        0 <= a < b < ticks.len(),
        forall|k: int| 0 <= k < ticks.len() - 1 ==> ticks[k + 1] >= #[trigger] ticks[k] + TICK_SECONDS,
    ensures
        ticks[b] >= ticks[a] + TICK_SECONDS,
    decreases b - a,
{
    if b > a + 1 {
        lemma_tick_gap(ticks, a, b - 1);
        assert(ticks[(b - 1) + 1] >= ticks[b - 1] + TICK_SECONDS);
    } else {
        assert(ticks[a + 1] >= ticks[a] + TICK_SECONDS);
    }
}

/// Over any run of ticks, each at least a window after the one before (the
/// scheduler's tick interval), any two ticks are a full window apart, so an
/// entry's dispatches are at least 60 s apart and no firing time lies in the
/// windows of two ticks: each firing time causes at most one dispatch.
pub proof fn lemma_spaced_ticks_fire_once_per_window(ticks: Seq<int>, t: int)
    requires
        forall|k: int| 0 <= k < ticks.len() - 1 ==> ticks[k + 1] >= #[trigger] ticks[k] + TICK_SECONDS,
    ensures
        forall|a: int, b: int| 0 <= a < b < ticks.len() ==> #[trigger] ticks[b] - #[trigger] ticks[a] >= TICK_SECONDS,
        forall|a: int, b: int|
            0 <= a < b < ticks.len() ==> !(in_window(t, #[trigger] ticks[a]) && in_window(t, #[trigger] ticks[b])),
{
    assert forall|a: int, b: int| 0 <= a < b < ticks.len() implies #[trigger] ticks[b] - #[trigger] ticks[a] >= TICK_SECONDS by {
        lemma_tick_gap(ticks, a, b);
    }
    assert forall|a: int, b: int| 0 <= a < b < ticks.len() implies
        !(in_window(t, #[trigger] ticks[a]) && in_window(t, #[trigger] ticks[b])) by {
        lemma_tick_gap(ticks, a, b);
    }
}

/// Each entry gives at most one firing per tick, and every firing carries the
/// id of an entry that fired, so entries with distinct ids give distinct
/// firings.
pub proof fn lemma_tick_fires_each_entry_once(entries: Seq<Schedule>, now: int, offset: int)
    requires
        forall|a: int, b: int| 0 <= a < b < entries.len() ==> (#[trigger] entries[a]).id != (#[trigger] entries[b]).id,
    ensures
        forall|a: int, b: int|
            0 <= a < b < tick_spec(entries, now, offset).len()
                ==> (#[trigger] tick_spec(entries, now, offset)[a]).schedule_id != (#[trigger] tick_spec(entries, now, offset)[b]).schedule_id,
        forall|a: int| 0 <= a < tick_spec(entries, now, offset).len() ==> fired_entry(entries, now, offset, #[trigger] tick_spec(entries, now, offset)[a].schedule_id),
    decreases entries.len(),
{
    if entries.len() > 0 {
        let pre = entries.drop_last();
        lemma_tick_fires_each_entry_once(pre, now, offset);
        let out = tick_spec(entries, now, offset);
        let prev = tick_spec(pre, now, offset);
        assert forall|a: int| 0 <= a < out.len() implies fired_entry(entries, now, offset, #[trigger] out[a].schedule_id) by {
            if a < prev.len() {
                assert(out[a] == prev[a]);
                assert(fired_entry(pre, now, offset, prev[a].schedule_id));
                let k = choose|k: int| 0 <= k < pre.len() && fires_spec(#[trigger] pre[k], now, offset) && pre[k].id == prev[a].schedule_id;
                assert(entries[k] == pre[k]);
            } else {
                assert(fires_spec(entries[entries.len() - 1], now, offset));
            }
        }
        assert forall|a: int, b: int| 0 <= a < b < out.len() implies
            (#[trigger] out[a]).schedule_id != (#[trigger] out[b]).schedule_id by {
            if b >= prev.len() {
                assert(out[a] == prev[a]);
                assert(fired_entry(pre, now, offset, prev[a].schedule_id));
                let k = choose|k: int| 0 <= k < pre.len() && fires_spec(#[trigger] pre[k], now, offset) && pre[k].id == prev[a].schedule_id;
                assert(entries[k] == pre[k]);
                assert(out[b].schedule_id == entries[entries.len() - 1].id);
            } else {
                assert(out[a] == prev[a]);
                assert(out[b] == prev[b]);
            }
        }
    }
}

/// Some entry with this id fires at a tick at `now`.
pub open spec fn fired_entry(entries: Seq<Schedule>, now: int, offset: int, id: i64) -> bool {
    exists|k: int| 0 <= k < entries.len() && fires_spec(#[trigger] entries[k], now, offset) && entries[k].id == id
}

} // verus!
