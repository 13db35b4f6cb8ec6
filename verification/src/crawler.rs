//! The crawler's decisions: which queued task may start now, what one turn
//! of the dispatch loop starts, and what a finished fetch does to its task.
//! Fetching itself is the caller's: a turn hands out the tasks to fetch, and
//! the caller reports back how each fetch went.

use vstd::prelude::*;
use crate::config::{SettingsView, UserSettings};
use crate::error::CrawlError;
use crate::state::AppState;
use crate::models::crawl_queue::{
    evolves, lemma_evolves_transitive, lemma_tally_update, moved, oldest_eligible, rows_of, tally,
    CrawlStatus, CrawlTask, Tally, TaskStore, TaskView,
};

verus! {

/// What the dispatch check says of one task.
#[derive(Clone, Copy, Debug, PartialEq, Eq, Structural)]
pub enum DispatchDecision {
    /// The task may start.
    Approved,
    /// The crawler is paused.
    Paused,
    /// As many tasks are in flight as the application allows.
    GlobalLimit,
    /// As many tasks of the task's domain are in flight as one domain allows.
    DomainLimit,
    /// The task is not waiting in the queue.
    NotQueued,
}

/// How a fetch went.
#[derive(Clone, Copy, Debug, PartialEq, Eq, Structural)]
pub enum FetchOutcome {
    /// The page was fetched.
    Fetched,
    /// The fetcher failed or timed out.
    Failed,
}

/// What a reported fetch did to its task.
#[derive(Clone, Copy, Debug, PartialEq, Eq, Structural)]
pub enum Settlement {
    /// The task is now `Completed`: the page is to be indexed.
    Completed,
    /// The task is now `Failed`. It is kept and not tried again.
    Failed,
    /// The task was not in flight; it is left as it was.
    NotInFlight,
}

/// The dispatch check on plain counts: `inflight` tasks are being processed
/// in all, `domain_inflight` of them in the task's domain.
pub open spec fn decide(
    paused: bool,
    inflight: int,
    domain_inflight: int,
    queued: bool,
    settings: SettingsView,
) -> DispatchDecision {
    if paused {
        DispatchDecision::Paused
    } else if inflight >= settings.inflight_crawl_limit.spec_value() {
        DispatchDecision::GlobalLimit
    } else if domain_inflight >= settings.inflight_domain_limit.spec_value() {
        DispatchDecision::DomainLimit
    } else if !queued {
        DispatchDecision::NotQueued
    } else {
        DispatchDecision::Approved
    }
}

/// The dispatch check for the row `t` against the rows `rows`.
pub open spec fn decision_for(
    rows: Seq<TaskView>,
    paused: bool,
    settings: SettingsView,
    t: TaskView,
) -> DispatchDecision {
    decide(
        paused,
        tally(rows, Tally::Status(CrawlStatus::Processing)) as int,
        tally(rows, Tally::InFlight(t.domain)) as int,
        t.status == CrawlStatus::Queued,
        settings,
    )
}

/// The rows after the task `id` went through the dispatch check: it is
/// `Processing` where the check approved it, and nothing changed where not.
pub open spec fn after_dispatch(
    rows: Seq<TaskView>,
    paused: bool,
    settings: SettingsView,
    id: int,
    now: i64,
) -> Seq<TaskView> {
    if 0 <= id < rows.len() && decision_for(rows, paused, settings, rows[id])
        == DispatchDecision::Approved {
        rows.update(id, moved(rows[id], CrawlStatus::Processing, now))
    } else {
        rows
    }
}

/// The rows after the tasks `ids` went through the dispatch check one after
/// the other, each against the rows as the ones before it left them.
pub open spec fn after_dispatches(
    rows: Seq<TaskView>,
    paused: bool,
    settings: SettingsView,
    ids: Seq<int>,
    now: i64,
) -> Seq<TaskView>
    decreases ids.len(),
{
    if ids.len() == 0 {
        rows
    } else {
        after_dispatch(
            after_dispatches(rows, paused, settings, ids.drop_last(), now),
            paused,
            settings,
            ids.last(),
            now,
        )
    }
}

/// Of the tasks `ids`, those that the dispatch check approved when they went
/// through it one after the other, as they are once started.
pub open spec fn started_by(
    rows: Seq<TaskView>,
    paused: bool,
    settings: SettingsView,
    ids: Seq<int>,
    now: i64,
) -> Seq<TaskView>
    decreases ids.len(),
{
    if ids.len() == 0 {
        Seq::empty()
    } else {
        let before = started_by(rows, paused, settings, ids.drop_last(), now);
        let mid = after_dispatches(rows, paused, settings, ids.drop_last(), now);
        let id = ids.last();
        if 0 <= id < mid.len() && decision_for(mid, paused, settings, mid[id])
            == DispatchDecision::Approved {
            before.push(moved(mid[id], CrawlStatus::Processing, now))
        } else {
            before
        }
    }
}

/// How many more tasks may be in flight.
pub open spec fn capacity(rows: Seq<TaskView>, settings: SettingsView) -> int {
    let room = settings.inflight_crawl_limit.spec_value() - tally(
        rows,
        Tally::Status(CrawlStatus::Processing),
    );
    if room < 0 {
        0
    } else {
        room
    }
}

/// The ids of some rows, in order.
pub open spec fn ids_of(rows: Seq<TaskView>) -> Seq<int> {
    Seq::new(rows.len(), |i: int| rows[i].id as int)
}

/// The tasks that one turn of the dispatch loop looks at: the oldest
/// eligible ones, as many as there is room for.
pub open spec fn turn_candidates(rows: Seq<TaskView>, settings: SettingsView) -> Seq<int> {
    ids_of(
        oldest_eligible(
            rows,
            capacity(rows, settings),
            settings.inflight_domain_limit.spec_value(),
        ),
    )
}

/// The rows after one turn of the dispatch loop.
pub open spec fn after_turn(
    rows: Seq<TaskView>,
    paused: bool,
    settings: SettingsView,
    now: i64,
) -> Seq<TaskView> {
    if paused {
        rows
    } else {
        after_dispatches(rows, paused, settings, turn_candidates(rows, settings), now)
    }
}

/// The tasks that one turn of the dispatch loop starts.
pub open spec fn started_in_turn(
    rows: Seq<TaskView>,
    paused: bool,
    settings: SettingsView,
    now: i64,
) -> Seq<TaskView> {
    if paused {
        Seq::empty()
    } else {
        started_by(rows, paused, settings, turn_candidates(rows, settings), now)
    }
}

/// The rows after the fetch of task `id` was reported.
pub open spec fn after_report(
    rows: Seq<TaskView>,
    id: int,
    outcome: FetchOutcome,
    now: i64,
) -> Seq<TaskView> {
    if 0 <= id < rows.len() && rows[id].status == CrawlStatus::Processing {
        rows.update(id, moved(rows[id], settled_status(outcome), now))
    } else {
        rows
    }
}

/// The status a task ends in after a fetch that went as `outcome` says.
pub open spec fn settled_status(outcome: FetchOutcome) -> CrawlStatus {
    match outcome {
        FetchOutcome::Fetched => CrawlStatus::Completed,
        FetchOutcome::Failed => CrawlStatus::Failed,
    }
}

/// The dispatch check on plain counts.
pub fn decide_dispatch(
    paused: bool,
    inflight: usize,
    domain_inflight: usize,
    queued: bool,
    settings: &UserSettings,
) -> (res: DispatchDecision)
    ensures
        res == decide(paused, inflight as int, domain_inflight as int, queued, settings@),
{
    if paused {
        DispatchDecision::Paused
    } else if inflight as u64 >= settings.inflight_crawl_limit.value() as u64 {
        DispatchDecision::GlobalLimit
    } else if domain_inflight as u64 >= settings.inflight_domain_limit.value() as u64 {
        DispatchDecision::DomainLimit
    } else if !queued {
        DispatchDecision::NotQueued
    } else {
        DispatchDecision::Approved
    }
}

/// Says whether the task `task_id` may start now, and changes nothing.
/// Fails with `NotFound` where no task has that id.
pub fn may_dispatch(db: &TaskStore, paused: bool, settings: &UserSettings, task_id: u64) -> (res:
    Result<DispatchDecision, CrawlError>)
    ensures
        res is Ok <==> task_id < db@.len(),
        res matches Ok(d) ==> d == decision_for(db@, paused, settings@, db@[task_id as int]),
        res matches Err(e) ==> e == CrawlError::NotFound,
{
    let task = match db.get(task_id) {
        Some(t) => t,
        None => {
            return Err(CrawlError::NotFound);
        },
    };
    let inflight = db.count_by_status(CrawlStatus::Processing);
    let domain_inflight = db.inflight_for_domain(task.domain.as_str());
    Ok(
        decide_dispatch(
            paused,
            inflight,
            domain_inflight,
            task.status == CrawlStatus::Queued,
            settings,
        ),
    )
}

/// Puts the task `task_id` through the dispatch check and, where the check
/// approves it, moves it to `Processing`: check and move are one step.
/// Fails with `NotFound`, and changes nothing, where no task has that id.
pub fn dispatch(
    db: &mut TaskStore,
    paused: bool,
    settings: &UserSettings,
    task_id: u64,
    now: i64,
) -> (res: Result<DispatchDecision, CrawlError>)
    ensures
        final(db).wf(),
        res is Ok <==> task_id < old(db)@.len(),
        res matches Ok(d) ==> d == decision_for(
            old(db)@,
            paused,
            settings@,
            old(db)@[task_id as int],
        ),
        res matches Err(e) ==> e == CrawlError::NotFound,
        final(db)@ == after_dispatch(old(db)@, paused, settings@, task_id as int, now),
        evolves(old(db)@, final(db)@),
{
    db.recall_wf();
    let decision = match may_dispatch(db, paused, settings, task_id) {
        Ok(d) => d,
        Err(e) => {
            return Err(e);
        },
    };
    if decision == DispatchDecision::Approved {
        let moved = db.transition(task_id, CrawlStatus::Processing, now);
        assert(moved is Ok);
    }
    Ok(decision)
}

/// Records how the fetch of task `task_id` went. A task in flight moves to
/// `Completed` or `Failed`; any other task is left as it was, and no other
/// task is touched. Fails with `NotFound` where no task has that id.
pub fn report(db: &mut TaskStore, task_id: u64, outcome: FetchOutcome, now: i64) -> (res: Result<
    Settlement,
    CrawlError,
>)
    ensures
        final(db).wf(),
        res is Ok <==> task_id < old(db)@.len(),
        res matches Err(e) ==> e == CrawlError::NotFound,
        res matches Ok(s) ==> s == (if old(db)@[task_id as int].status != CrawlStatus::Processing {
            Settlement::NotInFlight
        } else if outcome == FetchOutcome::Fetched {
            Settlement::Completed
        } else {
            Settlement::Failed
        }),
        final(db)@ == after_report(old(db)@, task_id as int, outcome, now),
        evolves(old(db)@, final(db)@),
{
    db.recall_wf();
    let task = match db.get(task_id) {
        Some(t) => t,
        None => {
            return Err(CrawlError::NotFound);
        },
    };
    if task.status != CrawlStatus::Processing {
        return Ok(Settlement::NotInFlight);
    }
    match outcome {
        FetchOutcome::Fetched => {
            let moved = db.transition(task_id, CrawlStatus::Completed, now);
            assert(moved is Ok);
            Ok(Settlement::Completed)
        },
        FetchOutcome::Failed => {
            let moved = db.transition(task_id, CrawlStatus::Failed, now);
            assert(moved is Ok);
            Ok(Settlement::Failed)
        },
    }
}

/// One turn of the dispatch loop. While the crawler is paused a turn does
/// nothing. Else it takes the oldest eligible tasks, as many as there is
/// room for under the global limit, puts each through the dispatch check
/// and starts those that pass. It returns the tasks it started, for the
/// caller to fetch.
pub fn turn(db: &mut TaskStore, paused: bool, settings: &UserSettings, now: i64) -> (started: Vec<
    CrawlTask,
>)
    ensures
        final(db).wf(),
        final(db)@ == after_turn(old(db)@, paused, settings@, now),
        rows_of(started@) == started_in_turn(old(db)@, paused, settings@, now),
        evolves(old(db)@, final(db)@),
        paused ==> final(db)@ == old(db)@ && started@.len() == 0,
{
    db.recall_wf();
    let mut started: Vec<CrawlTask> = Vec::new();
    if paused {
        assert(rows_of(started@) =~= Seq::<TaskView>::empty());
        return started;
    }
    let inflight = db.count_by_status(CrawlStatus::Processing);
    let limit = settings.inflight_crawl_limit.value() as usize;
    let room = if inflight >= limit {
        0
    } else {
        limit - inflight
    };
    let cands = db.find_eligible(room, settings);
    let ghost ids = turn_candidates(old(db)@, settings@);
    let mut i: usize = 0;
    proof {
        assert(ids.take(0) =~= Seq::<int>::empty());
        assert(rows_of(started@) =~= Seq::<TaskView>::empty());
    }
    while i < cands.len()
        invariant
            i <= cands.len(),
            db.wf(),
            !paused,
            ids == ids_of(rows_of(cands@)),
            db@ == after_dispatches(old(db)@, paused, settings@, ids.take(i as int), now),
            rows_of(started@) == started_by(old(db)@, paused, settings@, ids.take(i as int), now),
            evolves(old(db)@, db@),
        decreases cands.len() - i,
    {
        let id = cands[i].id;
        let ghost mid = db@;
        let ghost before = rows_of(started@);
        proof {
            assert(ids.take(i + 1).drop_last() =~= ids.take(i as int));
            assert(ids.take(i + 1).last() == id as int);
        }
        match dispatch(db, paused, settings, id, now) {
            Ok(DispatchDecision::Approved) => {
                match db.get(id) {
                    Some(task) => {
                        started.push(task);
                        assert(rows_of(started@) =~= before.push(db@[id as int]));
                    },
                    None => {},
                }
            },
            _ => {},
        }
        proof {
            lemma_evolves_transitive(old(db)@, mid, db@);
        }
        i += 1;
    }
    proof {
        assert(ids.take(i as int) =~= ids);
    }
    started
}

/// One turn of the dispatch loop on the shared state: the pause flag and
/// the limits are read from the state, and nothing but the queue changes.
pub fn run_turn(state: &mut AppState, now: i64) -> (started: Vec<CrawlTask>)
    ensures
        final(state).db.wf(),
        final(state).app_state == old(state).app_state,
        final(state).lenses == old(state).lenses,
        final(state).user_settings == old(state).user_settings,
        final(state).db@ == after_turn(
            old(state).db@,
            old(state).paused(),
            old(state).user_settings@,
            now,
        ),
        rows_of(started@) == started_in_turn(
            old(state).db@,
            old(state).paused(),
            old(state).user_settings@,
            now,
        ),
        evolves(old(state).db@, final(state).db@),
        old(state).paused() ==> final(state).db@ == old(state).db@ && started@.len() == 0,
{
    let paused = state.is_paused();
    turn(&mut state.db, paused, &state.user_settings, now)
}

/// The rows after a number of turns of the dispatch loop, one at each of the
/// given times.
pub open spec fn after_turns(
    rows: Seq<TaskView>,
    paused: bool,
    settings: SettingsView,
    times: Seq<i64>,
) -> Seq<TaskView>
    decreases times.len(),
{
    if times.len() == 0 {
        rows
    } else {
        after_turn(
            after_turns(rows, paused, settings, times.drop_last()),
            paused,
            settings,
            times.last(),
        )
    }
}

/// While the crawler is paused, turns of the dispatch loop change nothing,
/// however many there are: no task starts, and the number of tasks in
/// flight stays what it was.
pub proof fn lemma_paused_turns_start_nothing(
    rows: Seq<TaskView>,
    settings: SettingsView,
    times: Seq<i64>,
)
    ensures
        after_turns(rows, true, settings, times) == rows,
        tally(after_turns(rows, true, settings, times), Tally::Status(CrawlStatus::Processing))
            == tally(rows, Tally::Status(CrawlStatus::Processing)),
    decreases times.len(),
{
    if times.len() > 0 {
        lemma_paused_turns_start_nothing(rows, settings, times.drop_last());
    }
}

/// While the crawler is paused, the dispatch check approves no task.
pub proof fn lemma_paused_dispatch_starts_nothing(
    rows: Seq<TaskView>,
    settings: SettingsView,
    id: int,
    now: i64,
)
    ensures
        after_dispatch(rows, true, settings, id, now) == rows,
{
}

/// Whether a count is within a limit, or at least no higher than it was.
pub open spec fn held(after: nat, before: nat, limit: int) -> bool {
    after <= before || after <= limit
}

/// A dispatch takes no count past its limit: afterwards the tasks in flight,
/// in all and in any one domain, are no more than the limit allows, or than
/// they were before.
pub proof fn lemma_dispatch_keeps_limits(
    rows: Seq<TaskView>,
    paused: bool,
    settings: SettingsView,
    id: int,
    now: i64,
    domain: Seq<char>,
)
    ensures
        held(
            tally(after_dispatch(rows, paused, settings, id, now), Tally::InFlight(domain)),
            tally(rows, Tally::InFlight(domain)),
            settings.inflight_domain_limit.spec_value(),
        ),
        held(
            tally(
                after_dispatch(rows, paused, settings, id, now),
                Tally::Status(CrawlStatus::Processing),
            ),
            tally(rows, Tally::Status(CrawlStatus::Processing)),
            settings.inflight_crawl_limit.spec_value(),
        ),
{
    if 0 <= id < rows.len() {
        let next = moved(rows[id], CrawlStatus::Processing, now);
        lemma_tally_update(rows, id, next, Tally::InFlight(domain));
        lemma_tally_update(rows, id, next, Tally::Status(CrawlStatus::Processing));
    }
}

/// A run of dispatches, each made against the rows as they then are, takes
/// no count past its limit.
pub proof fn lemma_dispatches_keep_limits(
    rows: Seq<TaskView>,
    paused: bool,
    settings: SettingsView,
    ids: Seq<int>,
    now: i64,
    domain: Seq<char>,
)
    ensures
        held(
            tally(after_dispatches(rows, paused, settings, ids, now), Tally::InFlight(domain)),
            tally(rows, Tally::InFlight(domain)),
            settings.inflight_domain_limit.spec_value(),
        ),
        held(
            tally(
                after_dispatches(rows, paused, settings, ids, now),
                Tally::Status(CrawlStatus::Processing),
            ),
            tally(rows, Tally::Status(CrawlStatus::Processing)),
            settings.inflight_crawl_limit.spec_value(),
        ),
    decreases ids.len(),
{
    if ids.len() > 0 {
        lemma_dispatches_keep_limits(rows, paused, settings, ids.drop_last(), now, domain);
        let mid = after_dispatches(rows, paused, settings, ids.drop_last(), now);
        lemma_dispatch_keeps_limits(mid, paused, settings, ids.last(), now, domain);
    }
}

/// A turn of the dispatch loop takes no count past its limit.
pub proof fn lemma_turn_keeps_limits(
    rows: Seq<TaskView>,
    paused: bool,
    settings: SettingsView,
    now: i64,
    domain: Seq<char>,
)
    ensures
        held(
            tally(after_turn(rows, paused, settings, now), Tally::InFlight(domain)),
            tally(rows, Tally::InFlight(domain)),
            settings.inflight_domain_limit.spec_value(),
        ),
        held(
            tally(after_turn(rows, paused, settings, now), Tally::Status(CrawlStatus::Processing)),
            tally(rows, Tally::Status(CrawlStatus::Processing)),
            settings.inflight_crawl_limit.spec_value(),
        ),
{
    if !paused {
        lemma_dispatches_keep_limits(
            rows,
            paused,
            settings,
            turn_candidates(rows, settings),
            now,
            domain,
        );
    }
}

/// The rows after the tasks `ids` were each checked against the same rows
/// `seen` and, where approved, started: dispatches that race, none of which
/// sees what the others do.
pub open spec fn after_race(seen: Seq<TaskView>, settings: SettingsView, ids: Seq<int>, now: i64)
    -> Seq<TaskView>
    decreases ids.len(),
{
    if ids.len() == 0 {
        seen
    } else {
        let mid = after_race(seen, settings, ids.drop_last(), now);
        let id = ids.last();
        if 0 <= id < seen.len() && decision_for(seen, false, settings, seen[id])
            == DispatchDecision::Approved {
            mid.update(id, moved(mid[id], CrawlStatus::Processing, now))
        } else {
            mid
        }
    }
}

/// Racing dispatches overshoot by less than their number: where `ids.len()`
/// dispatches are decided on the same rows, a domain ends with fewer tasks
/// in flight than its limit plus `ids.len()`, unless it has no more in
/// flight than before.
pub proof fn lemma_race_overshoot_is_bounded(
    seen: Seq<TaskView>,
    settings: SettingsView,
    ids: Seq<int>,
    now: i64,
    domain: Seq<char>,
)
    ensures
        after_race(seen, settings, ids, now).len() == seen.len(),
        forall|i: int|
            0 <= i < seen.len() ==> (#[trigger] after_race(seen, settings, ids, now)[i]).domain
                == seen[i].domain,
        tally(after_race(seen, settings, ids, now), Tally::InFlight(domain)) <= tally(
            seen,
            Tally::InFlight(domain),
        ) + ids.len(),
        tally(after_race(seen, settings, ids, now), Tally::InFlight(domain)) <= tally(
            seen,
            Tally::InFlight(domain),
        ) || tally(after_race(seen, settings, ids, now), Tally::InFlight(domain))
            < settings.inflight_domain_limit.spec_value() + ids.len(),
    decreases ids.len(),
{
    if ids.len() > 0 {
        lemma_race_overshoot_is_bounded(seen, settings, ids.drop_last(), now, domain);
        let mid = after_race(seen, settings, ids.drop_last(), now);
        let id = ids.last();
        if 0 <= id < seen.len() && decision_for(seen, false, settings, seen[id])
            == DispatchDecision::Approved {
            lemma_tally_update(
                mid,
                id,
                moved(mid[id], CrawlStatus::Processing, now),
                Tally::InFlight(domain),
            );
        }
    }
}

/// Reporting a fetch touches the reported task and no other.
pub proof fn lemma_report_touches_one(
    rows: Seq<TaskView>,
    id: int,
    outcome: FetchOutcome,
    now: i64,
    other: int,
)
    requires
        0 <= other < rows.len(),
        other != id,
    ensures
        after_report(rows, id, outcome, now)[other] == rows[other],
{
}

} // verus!
