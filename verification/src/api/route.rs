//! The operations themselves. Each works on the shared state; how a request
//! reaches it and how the answer travels back is the transport's concern.

use vstd::prelude::*;
use crate::config::LensView;
use crate::error::CrawlError;
use crate::models::crawl_queue::{
    admission, enqueue_all, evolves, rows_of, tally, CrawlStatus, EnqueueSettings, Tally,
    TaskView, Verdict,
};
use crate::normalize::parsed_all;
use crate::request::{QueueItemParam, SearchLensesParam};
use crate::response::{AppStatus, LensResult, ListQueue, SearchLensesResp};
use crate::state::{flag_entries, flag_view, AppState};
use crate::text::starts_with;

verus! {

/// Show the list of URLs in the queue and their status.
pub fn list_queue(state: &AppState) -> (res: ListQueue)
    ensures
        rows_of(res.queue@) == state.db@,
{
    ListQueue { queue: state.db.list() }
}

/// Add url to queue.
///
/// The URL goes through the same rules as any enqueue, as a batch of one,
/// under the user's settings, without a lens restriction and tagged as a
/// normal crawl. A malformed URL is refused with `InvalidUrl`. Any other
/// URL is answered with `ok`, also where the rules kept it out of the
/// queue.
pub fn add_queue(state: &mut AppState, queue_item: &QueueItemParam, now: i64) -> (res: Result<
    String,
    CrawlError,
>)
    ensures
        final(state).app_state == old(state).app_state,
        final(state).lenses == old(state).lenses,
        final(state).user_settings == old(state).user_settings,
        final(state).db@ == admission(
            Seq::empty(),
            old(state).user_settings@,
            EnqueueSettings { skip_blocklist: false, crawl_type: crate::models::crawl_queue::CrawlType::Normal },
            now,
        ).take_in_all(old(state).db@, parsed_all(seq![queue_item.url])),
        res is Err <==> admission(
            Seq::empty(),
            old(state).user_settings@,
            EnqueueSettings { skip_blocklist: false, crawl_type: crate::models::crawl_queue::CrawlType::Normal },
            now,
        ).judge(old(state).db@, parsed_all(seq![queue_item.url])[0]) == Verdict::InvalidUrl,
        res matches Err(e) ==> e == CrawlError::InvalidUrl,
        res matches Ok(s) ==> s@ == "ok"@,
        evolves(old(state).db@, final(state).db@),
{
    let mut urls: Vec<String> = Vec::new();
    urls.push(queue_item.url.clone());
    let lenses = Vec::new();
    let overrides = EnqueueSettings::default();
    proof {
        assert(urls@ =~= seq![queue_item.url]);
        let pol = admission(lenses@, state.user_settings@, overrides, now);
        assert(crate::config::lens_views(lenses@) =~= Seq::<LensView>::empty());
        assert(pol == admission(Seq::empty(), state.user_settings@, overrides, now));
        assert(parsed_all(urls@).take(0) =~= Seq::empty());
        assert(pol.take_in_all(state.db@, Seq::empty()) == state.db@);
    }
    let verdicts = enqueue_all(&mut state.db, &urls, &lenses, &state.user_settings, &overrides, now);
    match verdicts[0] {
        Verdict::InvalidUrl => Err(CrawlError::InvalidUrl),
        _ => Ok("ok".to_string()),
    }
}

/// The figures for rows `rows`, the pause flag `paused` and an index of
/// `num_docs` documents. While the crawler is paused, no task counts as in
/// progress.
pub open spec fn status_of(rows: Seq<TaskView>, paused: bool, num_docs: u64) -> AppStatus {
    AppStatus {
        num_docs,
        num_queued: tally(rows, Tally::Status(CrawlStatus::Queued)) as u64,
        num_in_progress: if paused {
            0
        } else {
            tally(rows, Tally::Status(CrawlStatus::Processing)) as u64
        },
        is_paused: paused,
    }
}

/// The figures as they are now. `num_docs` is the size of the index, which
/// the caller reads from the searcher.
pub fn _get_current_status(state: &AppState, num_docs: u64) -> (res: AppStatus)
    ensures
        res == status_of(state.db@, state.paused(), num_docs),
{
    let num_queued = state.db.count_by_status(CrawlStatus::Queued);
    let mut num_in_progress = state.db.count_by_status(CrawlStatus::Processing);
    // Grab crawler status
    let is_paused = state.is_paused();
    if is_paused {
        num_in_progress = 0;
    }
    AppStatus {
        num_docs,
        num_queued: num_queued as u64,
        num_in_progress: num_in_progress as u64,
        is_paused,
    }
}

/// Fun stats about index size, etc.
pub fn app_stats(state: &AppState, num_docs: u64) -> (res: AppStatus)
    ensures
        res == status_of(state.db@, state.paused(), num_docs),
{
    _get_current_status(state, num_docs)
}

/// Pauses the crawler where it runs and lets it run where it is paused, and
/// answers with the figures as they are afterwards. Of the flags only
/// `paused` changes: it is written as `true` or `false`.
pub fn toggle_pause(state: &mut AppState, num_docs: u64) -> (res: AppStatus)
    ensures
        final(state).paused() == !old(state).paused(),
        flag_entries(final(state).app_state) == flag_entries(old(state).app_state).insert(
            "paused"@,
            flag_view(!old(state).paused()),
        ),
        final(state).db == old(state).db,
        final(state).lenses == old(state).lenses,
        final(state).user_settings == old(state).user_settings,
        res == status_of(old(state).db@, !old(state).paused(), num_docs),
{
    let current_status = state.is_paused();
    let updated_status = !current_status;
    state.set_paused(updated_status);
    _get_current_status(state, num_docs)
}

/// The description that a search result shows for a lens: the lens's own,
/// or none.
pub open spec fn shown_description(lens: LensView) -> Seq<char> {
    match lens.description {
        Some(d) => d,
        None => Seq::empty(),
    }
}

/// Whether one of `results` has the title `name`.
pub open spec fn shows(results: Seq<LensResult>, name: Seq<char>) -> bool {
    exists|i: int| 0 <= i < results.len() && (#[trigger] results[i]).title@ == name
}

/// Whether `results` shows just the lenses of `registry` whose name begins
/// with `query`, each once.
pub open spec fn shows_matches(
    results: Seq<LensResult>,
    registry: Map<Seq<char>, LensView>,
    query: Seq<char>,
) -> bool {
    &&& forall|i: int|
        0 <= i < results.len() ==> {
            &&& registry.contains_key((#[trigger] results[i]).title@)
            &&& query.is_prefix_of(results[i].title@)
            &&& results[i].description@ == shown_description(registry[results[i].title@])
        }
    &&& forall|i: int, j: int|
        0 <= i < j < results.len() ==> (#[trigger] results[i]).title@ != (#[trigger] results[j]).title@
    &&& forall|name: Seq<char>|
        registry.contains_key(name) && query.is_prefix_of(name) ==> #[trigger] shows(results, name)
}

/// Whether one of the first `upto` entries has the key `name`.
spec fn keyed(entries: Seq<(String, crate::config::Lens)>, upto: int, name: Seq<char>) -> bool {
    exists|k: int| 0 <= k < upto && (#[trigger] entries[k]).0@ == name
}

/// The lenses whose name begins with the query, each with its description,
/// in no particular order.
pub fn search_lenses(state: &AppState, param: &SearchLensesParam) -> (res: SearchLensesResp)
    ensures
        shows_matches(res.results@, state.lens_registry(), param.query@),
{
    let mut results: Vec<LensResult> = Vec::new();
    let entries = state.list_lenses();
    let ghost registry = state.lens_registry();
    let ghost query = param.query@;
    let mut i: usize = 0;
    while i < entries.len()
        invariant
            i <= entries.len(),
            registry == state.lens_registry(),
            query == param.query@,
            crate::state::lists_entries(entries@, registry),
            forall|r: int|
                0 <= r < results.len() ==> keyed(entries@, i as int, (#[trigger] results[r]).title@),
            forall|r: int|
                0 <= r < results.len() ==> {
                    &&& registry.contains_key((#[trigger] results[r]).title@)
                    &&& query.is_prefix_of(results[r].title@)
                    &&& results[r].description@ == shown_description(registry[results[r].title@])
                },
            forall|r: int, q: int|
                0 <= r < q < results.len() ==> (#[trigger] results[r]).title@ != (
                #[trigger] results[q]).title@,
            forall|k: int|
                0 <= k < i && query.is_prefix_of((#[trigger] entries[k]).0@) ==> shows(
                    results@,
                    entries[k].0@,
                ),
        decreases entries.len() - i,
    {
        let lens_name = &entries[i].0;
        let lens_info = &entries[i].1;
        let ghost before = results@;
        if starts_with(lens_name.as_str(), param.query.as_str()) {
            let description = match &lens_info.description {
                Some(d) => d.clone(),
                None => String::new(),
            };
            results.push(LensResult { title: lens_name.clone(), description });
        }
        proof {
            let last = before.len() as int;
            assert forall|r: int| 0 <= r < results.len() implies keyed(
                entries@,
                i + 1,
                (#[trigger] results[r]).title@,
            ) by {
                if r < last {
                    assert(results@[r] == before[r]);
                    assert(keyed(entries@, i as int, before[r].title@));
                    let k = choose|k: int|
                        0 <= k < i && (#[trigger] entries[k]).0@ == before[r].title@;
                    assert(entries[k].0@ == results[r].title@);
                } else {
                    assert(entries[i as int].0@ == results[r].title@);
                }
            }
            assert forall|r: int, q: int| 0 <= r < q < results.len() implies (
            #[trigger] results[r]).title@ != (#[trigger] results[q]).title@ by {
                assert(results@[r] == before[r]);
                if q == last {
                    assert(keyed(entries@, i as int, before[r].title@));
                    let k = choose|k: int|
                        0 <= k < i && (#[trigger] entries[k]).0@ == before[r].title@;
                    assert(entries[k].0@ != entries[i as int].0@);
                } else {
                    assert(results@[q] == before[q]);
                }
            }
            assert forall|k: int|
                0 <= k < i + 1 && query.is_prefix_of((#[trigger] entries[k]).0@) implies shows(
                results@,
                entries[k].0@,
            ) by {
                if k < i {
                    assert(shows(before, entries[k].0@));
                    let r = choose|r: int|
                        0 <= r < before.len() && (#[trigger] before[r]).title@ == entries[k].0@;
                    assert(results@[r] == before[r]);
                    assert(results[r].title@ == entries[k].0@);
                } else {
                    assert(results[last].title@ == entries[k].0@);
                }
            }
            assert forall|r: int| 0 <= r < results.len() implies {
                &&& registry.contains_key((#[trigger] results[r]).title@)
                &&& query.is_prefix_of(results[r].title@)
                &&& results[r].description@ == shown_description(registry[results[r].title@])
            } by {
                if r < last {
                    assert(results@[r] == before[r]);
                } else {
                    assert(results[r].title@ == entries[i as int].0@);
                    assert(registry[entries[i as int].0@] == entries[i as int].1@);
                }
            }
        }
        i += 1;
    }
    proof {
        assert forall|name: Seq<char>|
            registry.contains_key(name) && query.is_prefix_of(name) implies #[trigger] shows(
            results@,
            name,
        ) by {
            let k = choose|k: int| 0 <= k < entries.len() && (#[trigger] entries[k]).0@ == name;
            assert(query.is_prefix_of(entries[k].0@));
        }
    }
    SearchLensesResp { results }
}

} // verus!
