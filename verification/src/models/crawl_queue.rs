//! The crawl queue: every URL the crawler has been asked to fetch, with its
//! status. Rows are never deleted; a row's id is its position in the table,
//! so older rows come first.

use vstd::prelude::*;
use crate::config::{lens_views, Lens, LensView, SettingsView, UserSettings};
use crate::error::CrawlError;
use crate::normalize::{normalize_all, parse_view, parsed_all, ParsedUrl, UrlView};
use crate::text::{list_has, same_text, starts_with, texts};

verus! {

/// Where a task stands. A task only ever moves forward:
/// `Queued`, then `Processing`, then `Completed` or `Failed`.
#[derive(Clone, Copy, Debug, PartialEq, Eq, Structural)]
pub enum CrawlStatus {
    Queued,
    Processing,
    Completed,
    Failed,
}

/// Who asked for a crawl.
#[derive(Clone, Copy, Debug, PartialEq, Eq, Structural)]
pub enum CrawlType {
    /// Asked for by the user or the API.
    Normal,
    /// Asked for by a plugin.
    Plugin,
}

impl Default for CrawlType {
    fn default() -> (res: Self)
        ensures
            res == CrawlType::Normal,
    {
        CrawlType::Normal
    }
}

/// One row of the crawl queue.
#[derive(Debug)]
pub struct CrawlTask {
    pub id: u64,
    /// Host of `url`; the key that crawls are throttled by.
    pub domain: String,
    /// The URL to crawl, in normal form.
    pub url: String,
    pub crawl_type: CrawlType,
    pub status: CrawlStatus,
    /// When the task was queued.
    pub created_at: i64,
    /// When the task last changed.
    pub updated_at: i64,
}

/// A row as plain values.
pub struct TaskView {
    pub id: u64,
    pub domain: Seq<char>,
    pub url: Seq<char>,
    pub crawl_type: CrawlType,
    pub status: CrawlStatus,
    pub created_at: i64,
    pub updated_at: i64,
}

impl View for CrawlTask {
    type V = TaskView;

    open spec fn view(&self) -> TaskView {
        TaskView {
            id: self.id,
            domain: self.domain@,
            url: self.url@,
            crawl_type: self.crawl_type,
            status: self.status,
            created_at: self.created_at,
            updated_at: self.updated_at,
        }
    }
}

impl Clone for CrawlTask {
    fn clone(&self) -> (res: Self)
        ensures
            res@ == self@,
    {
        CrawlTask {
            id: self.id,
            domain: self.domain.clone(),
            url: self.url.clone(),
            crawl_type: self.crawl_type,
            status: self.status,
            created_at: self.created_at,
            updated_at: self.updated_at,
        }
    }
}

/// The rows of a list of tasks.
pub open spec fn rows_of(tasks: Seq<CrawlTask>) -> Seq<TaskView> {
    Seq::new(tasks.len(), |i: int| tasks[i]@)
}

/// What a count over the queue counts.
pub enum Tally {
    /// Tasks with this status.
    Status(CrawlStatus),
    /// Tasks of this domain, whatever their status.
    Domain(Seq<char>),
    /// Tasks of this domain that are being processed.
    InFlight(Seq<char>),
}

impl Tally {
    /// Whether this count includes the row `t`.
    pub open spec fn includes(self, t: TaskView) -> bool {
        match self {
            Tally::Status(status) => t.status == status,
            Tally::Domain(domain) => t.domain == domain,
            Tally::InFlight(domain) => t.domain == domain && t.status == CrawlStatus::Processing,
        }
    }

    /// What the row `t` adds to this count.
    pub open spec fn weight(self, t: TaskView) -> nat {
        if self.includes(t) {
            1
        } else {
            0
        }
    }
}

/// How many of `rows` the count `what` includes.
pub open spec fn tally(rows: Seq<TaskView>, what: Tally) -> nat
    decreases rows.len(),
{
    if rows.len() == 0 {
        0
    } else {
        tally(rows.drop_last(), what) + what.weight(rows.last())
    }
}

/// Whether some row holds the URL `url`.
pub open spec fn has_url(rows: Seq<TaskView>, url: Seq<char>) -> bool {
    exists|i: int| 0 <= i < rows.len() && (#[trigger] rows[i]).url == url
}

/// The table's invariant: a row's id is its position, and no URL occurs twice.
pub open spec fn rows_wf(rows: Seq<TaskView>) -> bool {
    &&& forall|i: int| 0 <= i < rows.len() ==> (#[trigger] rows[i]).id == i
    &&& forall|i: int, j: int|
        0 <= i < j < rows.len() ==> (#[trigger] rows[i]).url != (#[trigger] rows[j]).url
}

/// Appending a row adds its weight to a count.
pub proof fn lemma_tally_push(rows: Seq<TaskView>, t: TaskView, what: Tally)
    ensures
        tally(rows.push(t), what) == tally(rows, what) + what.weight(t),
{
    assert(rows.push(t).drop_last() =~= rows);
}

/// Replacing a row takes its weight out of a count and puts the new row's in.
pub proof fn lemma_tally_update(rows: Seq<TaskView>, i: int, t: TaskView, what: Tally)
    requires
        0 <= i < rows.len(),
    ensures
        tally(rows.update(i, t), what) == tally(rows, what) - what.weight(rows[i]) + what.weight(t),
    decreases rows.len(),
{
    let after = rows.update(i, t);
    if i == rows.len() - 1 {
        assert(after.drop_last() =~= rows.drop_last());
    } else {
        assert(after.drop_last() =~= rows.drop_last().update(i, t));
        lemma_tally_update(rows.drop_last(), i, t, what);
    }
}

/// A count over the first `n + 1` rows is the count over the first `n` plus
/// the weight of row `n`.
pub proof fn lemma_tally_step(rows: Seq<TaskView>, n: int, what: Tally)
    requires
        0 <= n < rows.len(),
    ensures
        tally(rows.take(n + 1), what) == tally(rows.take(n), what) + what.weight(rows[n]),
{
    assert(rows.take(n + 1).drop_last() =~= rows.take(n));
}

/// What to count, in executable form.
pub enum Counted<'a> {
    Status(CrawlStatus),
    Domain(&'a str),
    InFlight(&'a str),
}

impl<'a> View for Counted<'a> {
    type V = Tally;

    open spec fn view(&self) -> Tally {
        match self {
            Counted::Status(status) => Tally::Status(*status),
            Counted::Domain(domain) => Tally::Domain(domain@),
            Counted::InFlight(domain) => Tally::InFlight(domain@),
        }
    }
}

/// The crawl queue.
pub struct TaskStore {
    tasks: Vec<CrawlTask>,
}

impl View for TaskStore {
    type V = Seq<TaskView>;

    closed spec fn view(&self) -> Seq<TaskView> {
        rows_of(self.tasks@)
    }
}

impl TaskStore {
    #[verifier::type_invariant]
    spec fn inv(self) -> bool {
        rows_wf(rows_of(self.tasks@))
    }

    /// The table's invariant holds. It holds of every queue there is.
    pub open spec fn wf(&self) -> bool {
        rows_wf(self@)
    }

    /// Recalls that the table's invariant holds.
    pub fn recall_wf(&self)
        ensures
            self.wf(),
    {
        proof {
            use_type_invariant(self);
        }
    }

    /// An empty queue.
    pub fn new() -> (res: Self)
        ensures
            res@ == Seq::<TaskView>::empty(),
            res.wf(),
    {
        let res = TaskStore { tasks: Vec::new() };
        assert(res@ =~= Seq::<TaskView>::empty());
        res
    }

    /// The queue that holds the given rows, as they were read back from
    /// where they are kept. `None` where they break the table's invariant:
    /// where a row's id is not its position, or a URL occurs twice.
    pub fn restore(tasks: Vec<CrawlTask>) -> (res: Option<Self>)
        ensures
            res is Some <==> rows_wf(rows_of(tasks@)),
            res matches Some(db) ==> db@ == rows_of(tasks@) && db.wf(),
    {
        let ghost rows = rows_of(tasks@);
        let mut i: usize = 0;
        while i < tasks.len()
            invariant
                i <= tasks.len(),
                rows == rows_of(tasks@),
                rows_wf(rows.take(i as int)),
            decreases tasks.len() - i,
        {
            if tasks[i].id != i as u64 {
                assert(rows[i as int].id != i);
                return None;
            }
            let mut k: usize = 0;
            while k < i
                invariant
                    k <= i < tasks.len(),
                    rows == rows_of(tasks@),
                    forall|j: int| 0 <= j < k ==> (#[trigger] rows[j]).url != rows[i as int].url,
                decreases i - k,
            {
                if same_text(tasks[k].url.as_str(), tasks[i].url.as_str()) {
                    assert(rows[k as int].url == rows[i as int].url);
                    return None;
                }
                k += 1;
            }
            proof {
                let next = rows.take(i + 1);
                assert forall|a: int, b: int| 0 <= a < b < next.len() implies (#[trigger] next[a]).url
                    != (#[trigger] next[b]).url by {
                    if b < i {
                        assert(rows.take(i as int)[a].url != rows.take(i as int)[b].url);
                    } else {
                        assert(rows[a].url != rows[i as int].url);
                    }
                }
                assert forall|a: int| 0 <= a < next.len() implies (#[trigger] next[a]).id == a by {
                    if a < i {
                        assert(rows.take(i as int)[a].id == a);
                    }
                }
            }
            i += 1;
        }
        assert(rows.take(i as int) =~= rows);
        Some(TaskStore { tasks })
    }

    /// Number of rows.
    pub fn len(&self) -> (res: usize)
        ensures
            res == self@.len(),
    {
        self.tasks.len()
    }

    /// The row with the given id, if there is one.
    pub fn get(&self, task_id: u64) -> (res: Option<CrawlTask>)
        ensures
            res is Some <==> task_id < self@.len(),
            res matches Some(t) ==> t@ == self@[task_id as int],
    {
        if task_id < self.tasks.len() as u64 {
            Some(self.tasks[task_id as usize].clone())
        } else {
            None
        }
    }

    /// All rows, oldest first.
    pub fn list(&self) -> (res: Vec<CrawlTask>)
        ensures
            rows_of(res@) == self@,
    {
        let mut out: Vec<CrawlTask> = Vec::new();
        let mut i: usize = 0;
        while i < self.tasks.len()
            invariant
                i <= self.tasks.len(),
                out@.len() == i,
                forall|j: int| 0 <= j < i ==> (#[trigger] out@[j])@ == self.tasks@[j]@,
            decreases self.tasks.len() - i,
        {
            out.push(self.tasks[i].clone());
            i += 1;
        }
        assert(rows_of(out@) =~= rows_of(self.tasks@));
        out
    }

    /// How many rows the count `what` includes.
    pub fn count(&self, what: &Counted) -> (res: usize)
        ensures
            res == tally(self@, what@),
    {
        let mut n: usize = 0;
        let mut i: usize = 0;
        while i < self.tasks.len()
            invariant
                i <= self.tasks.len(),
                n <= i,
                n == tally(rows_of(self.tasks@).take(i as int), what@),
            decreases self.tasks.len() - i,
        {
            let t = &self.tasks[i];
            let hit = match what {
                Counted::Status(status) => t.status == *status,
                Counted::Domain(domain) => same_text(t.domain.as_str(), domain),
                Counted::InFlight(domain) => t.status == CrawlStatus::Processing
                    && same_text(t.domain.as_str(), domain),
            };
            proof {
                lemma_tally_step(rows_of(self.tasks@), i as int, what@);
            }
            if hit {
                n += 1;
            }
            i += 1;
        }
        assert(rows_of(self.tasks@).take(i as int) =~= rows_of(self.tasks@));
        n
    }

    /// Number of tasks with the given status.
    pub fn count_by_status(&self, status: CrawlStatus) -> (res: usize)
        ensures
            res == tally(self@, Tally::Status(status)),
    {
        self.count(&Counted::Status(status))
    }

    /// Number of tasks ever queued for the given domain, whatever became of
    /// them.
    pub fn count_for_domain(&self, domain: &str) -> (res: usize)
        ensures
            res == tally(self@, Tally::Domain(domain@)),
    {
        self.count(&Counted::Domain(domain))
    }

    /// Number of tasks of the given domain that are being processed.
    pub fn inflight_for_domain(&self, domain: &str) -> (res: usize)
        ensures
            res == tally(self@, Tally::InFlight(domain@)),
    {
        self.count(&Counted::InFlight(domain))
    }

    /// Whether some task holds the URL `url`.
    pub fn contains_url(&self, url: &str) -> (res: bool)
        ensures
            res == has_url(self@, url@),
    {
        let mut i: usize = 0;
        while i < self.tasks.len()
            invariant
                i <= self.tasks.len(),
                forall|j: int| 0 <= j < i ==> (#[trigger] rows_of(self.tasks@)[j]).url != url@,
            decreases self.tasks.len() - i,
        {
            if same_text(self.tasks[i].url.as_str(), url) {
                assert(rows_of(self.tasks@)[i as int].url == url@);
                return true;
            }
            i += 1;
        }
        false
    }
}

/// What a caller may change for one enqueue.
#[derive(Clone, Copy, Debug)]
pub struct EnqueueSettings {
    /// Leave the block list out of account.
    pub skip_blocklist: bool,
    /// How the new tasks are tagged.
    pub crawl_type: CrawlType,
}

impl Default for EnqueueSettings {
    fn default() -> (res: Self)
        ensures
            res == (EnqueueSettings { skip_blocklist: false, crawl_type: CrawlType::Normal }),
    {
        EnqueueSettings { skip_blocklist: false, crawl_type: CrawlType::Normal }
    }
}

/// What became of one candidate URL.
#[derive(Clone, Copy, Debug, PartialEq, Eq, Structural)]
pub enum Verdict {
    /// A new task was queued for it.
    Queued,
    /// It is malformed, or has no host.
    InvalidUrl,
    /// Its domain is on the block list and not on the allow list.
    Blocked,
    /// The enqueue was restricted to lenses, and none of them covers it.
    OutOfScope,
    /// The queue holds it already.
    DuplicateTask,
    /// Its domain has as many tasks as one domain may have.
    DomainLimit,
}

/// Whether one of `prefixes` begins the text `s`.
pub open spec fn any_prefix(prefixes: Seq<Seq<char>>, s: Seq<char>) -> bool {
    exists|k: int| 0 <= k < prefixes.len() && (#[trigger] prefixes[k]).is_prefix_of(s)
}

/// Whether the lens covers a URL: its host is one of the lens's domains, or
/// the URL begins with one of the lens's URL prefixes.
pub open spec fn lens_covers(lens: LensView, host: Seq<char>, url: Seq<char>) -> bool {
    lens.domains.contains(host) || any_prefix(lens.urls, url)
}

/// Whether a URL is within the scope of a lens set. An empty set restricts
/// nothing.
pub open spec fn in_scope(lenses: Seq<LensView>, host: Seq<char>, url: Seq<char>) -> bool {
    lenses.len() == 0 || exists|k: int|
        0 <= k < lenses.len() && lens_covers(#[trigger] lenses[k], host, url)
}

/// The rules that one enqueue runs under.
pub struct Admission {
    /// The lenses the enqueue is restricted to; empty for no restriction.
    pub lenses: Seq<LensView>,
    pub allow_list: Seq<Seq<char>>,
    pub block_list: Seq<Seq<char>>,
    pub skip_blocklist: bool,
    /// How many tasks one domain may have, over all time.
    pub domain_limit: int,
    pub crawl_type: CrawlType,
    /// The time that new tasks are stamped with.
    pub now: i64,
}

/// The rules that follow from the settings and the overrides of a call.
pub open spec fn admission(
    lenses: Seq<Lens>,
    settings: SettingsView,
    overrides: EnqueueSettings,
    now: i64,
) -> Admission {
    Admission {
        lenses: lens_views(lenses),
        allow_list: settings.allow_list,
        block_list: settings.block_list,
        skip_blocklist: overrides.skip_blocklist,
        domain_limit: settings.domain_crawl_limit.spec_value(),
        crawl_type: overrides.crawl_type,
        now,
    }
}

impl Admission {
    /// Whether the block list keeps this host out. The allow list wins.
    pub open spec fn blocks(self, host: Seq<char>) -> bool {
        !self.skip_blocklist && self.block_list.contains(host) && !self.allow_list.contains(host)
    }

    /// What becomes of one candidate against the rows `rows`.
    pub open spec fn judge(self, rows: Seq<TaskView>, cand: Option<UrlView>) -> Verdict {
        match cand {
            None => Verdict::InvalidUrl,
            Some(u) => match u.host {
                None => Verdict::InvalidUrl,
                Some(host) => if self.blocks(host) {
                    Verdict::Blocked
                } else if !in_scope(self.lenses, host, u.url) {
                    Verdict::OutOfScope
                } else if has_url(rows, u.url) {
                    Verdict::DuplicateTask
                } else if tally(rows, Tally::Domain(host)) >= self.domain_limit {
                    Verdict::DomainLimit
                } else {
                    Verdict::Queued
                },
            },
        }
    }

    /// The row that is added for an accepted URL.
    pub open spec fn new_row(self, id: nat, url: Seq<char>, host: Seq<char>) -> TaskView {
        TaskView {
            id: id as u64,
            domain: host,
            url,
            crawl_type: self.crawl_type,
            status: CrawlStatus::Queued,
            created_at: self.now,
            updated_at: self.now,
        }
    }

    /// The rows after one candidate was offered: one more where it was
    /// accepted, else the same.
    pub open spec fn take_in(self, rows: Seq<TaskView>, cand: Option<UrlView>) -> Seq<TaskView> {
        if self.judge(rows, cand) == Verdict::Queued {
            rows.push(self.new_row(rows.len(), cand->0.url, cand->0.host->0))
        } else {
            rows
        }
    }

    /// The rows after a batch was offered, candidate by candidate in order.
    pub open spec fn take_in_all(self, rows: Seq<TaskView>, cands: Seq<Option<UrlView>>) -> Seq<
        TaskView,
    >
        decreases cands.len(),
    {
        if cands.len() == 0 {
            rows
        } else {
            self.take_in(self.take_in_all(rows, cands.drop_last()), cands.last())
        }
    }

    /// What became of each candidate of a batch: each is judged against the
    /// rows as the candidates before it left them.
    pub open spec fn verdicts(self, rows: Seq<TaskView>, cands: Seq<Option<UrlView>>) -> Seq<
        Verdict,
    > {
        Seq::new(
            cands.len(),
            |i: int| self.judge(self.take_in_all(rows, cands.take(i)), cands[i]),
        )
    }
}

/// The plain-text forms of a list of parse results.
pub open spec fn cand_views(cands: Seq<Option<ParsedUrl>>) -> Seq<Option<UrlView>> {
    Seq::new(cands.len(), |i: int| parse_view(cands[i]))
}

/// Whether one of `prefixes` begins `s`.
fn begins_with_any(prefixes: &Vec<String>, s: &str) -> (res: bool)
    ensures
        res == any_prefix(texts(prefixes@), s@),
{
    let mut i: usize = 0;
    while i < prefixes.len()
        invariant
            i <= prefixes.len(),
            forall|k: int| 0 <= k < i ==> !(#[trigger] texts(prefixes@)[k]).is_prefix_of(s@),
        decreases prefixes.len() - i,
    {
        if starts_with(s, prefixes[i].as_str()) {
            assert(texts(prefixes@)[i as int].is_prefix_of(s@));
            return true;
        }
        i += 1;
    }
    false
}

/// Whether a URL is within the scope of a lens set.
pub fn within_scope(lenses: &Vec<Lens>, host: &str, url: &str) -> (res: bool)
    ensures
        res == in_scope(lens_views(lenses@), host@, url@),
{
    if lenses.len() == 0 {
        return true;
    }
    let mut i: usize = 0;
    while i < lenses.len()
        invariant
            i <= lenses.len(),
            lenses.len() > 0,
            forall|k: int| 0 <= k < i ==> !lens_covers(#[trigger] lens_views(lenses@)[k], host@, url@),
        decreases lenses.len() - i,
    {
        let lens = &lenses[i];
        if list_has(&lens.domains, host) || begins_with_any(&lens.urls, url) {
            assert(lens_covers(lens_views(lenses@)[i as int], host@, url@));
            return true;
        }
        i += 1;
    }
    false
}

impl TaskStore {
    /// Offers one parsed candidate to the queue and says what became of it.
    /// The candidate is dropped where it is malformed or has no host, where
    /// its domain is blocked, where no lens of a non-empty lens set covers
    /// it, where the queue holds its URL already, and where its domain has
    /// reached the domain limit; else it is queued as a new task.
    pub fn offer(
        &mut self,
        cand: &Option<ParsedUrl>,
        lenses: &Vec<Lens>,
        settings: &UserSettings,
        overrides: &EnqueueSettings,
        now: i64,
    ) -> (res: Verdict)
        ensures
            final(self).wf(),
            res == admission(lenses@, settings@, *overrides, now).judge(
                old(self)@,
                parse_view(*cand),
            ),
            final(self)@ == admission(lenses@, settings@, *overrides, now).take_in(
                old(self)@,
                parse_view(*cand),
            ),
            evolves(old(self)@, final(self)@),
    {
        proof {
            use_type_invariant(&*self);
        }
        let parsed = match cand {
            Some(p) => p,
            None => {
                return Verdict::InvalidUrl;
            },
        };
        let host = match &parsed.host {
            Some(h) => h,
            None => {
                return Verdict::InvalidUrl;
            },
        };
        if !overrides.skip_blocklist && list_has(&settings.block_list, host.as_str()) && !list_has(
            &settings.allow_list,
            host.as_str(),
        ) {
            return Verdict::Blocked;
        }
        if !within_scope(lenses, host.as_str(), parsed.url.as_str()) {
            return Verdict::OutOfScope;
        }
        if self.contains_url(parsed.url.as_str()) {
            return Verdict::DuplicateTask;
        }
        let seen = self.count_for_domain(host.as_str());
        if seen as u64 >= settings.domain_crawl_limit.value() as u64 {
            return Verdict::DomainLimit;
        }
        let id = self.tasks.len() as u64;
        let task = CrawlTask {
            id,
            domain: host.clone(),
            url: parsed.url.clone(),
            crawl_type: overrides.crawl_type,
            status: CrawlStatus::Queued,
            created_at: now,
            updated_at: now,
        };
        let mut tasks = Vec::new();
        std::mem::swap(&mut tasks, &mut self.tasks);
        tasks.push(task);
        proof {
            let pol = admission(lenses@, settings@, *overrides, now);
            let row = pol.new_row(old(self)@.len(), parsed.url@, host@);
            assert(rows_of(tasks@) =~= old(self)@.push(row));
        }
        self.tasks = tasks;
        Verdict::Queued
    }

    /// Offers a batch of parsed candidates, in order, and says what became of
    /// each.
    pub fn offer_all(
        &mut self,
        cands: &Vec<Option<ParsedUrl>>,
        lenses: &Vec<Lens>,
        settings: &UserSettings,
        overrides: &EnqueueSettings,
        now: i64,
    ) -> (res: Vec<Verdict>)
        ensures
            final(self).wf(),
            final(self)@ == admission(lenses@, settings@, *overrides, now).take_in_all(
                old(self)@,
                cand_views(cands@),
            ),
            res@ == admission(lenses@, settings@, *overrides, now).verdicts(
                old(self)@,
                cand_views(cands@),
            ),
            evolves(old(self)@, final(self)@),
    {
        let ghost pol = admission(lenses@, settings@, *overrides, now);
        let ghost all = cand_views(cands@);
        let mut out: Vec<Verdict> = Vec::new();
        let mut i: usize = 0;
        assert(all.take(0) =~= Seq::<Option<UrlView>>::empty());
        proof {
            use_type_invariant(&*self);
        }
        while i < cands.len()
            invariant
                i <= cands.len(),
                self.wf(),
                pol == admission(lenses@, settings@, *overrides, now),
                all == cand_views(cands@),
                self@ == pol.take_in_all(old(self)@, all.take(i as int)),
                out@.len() == i,
                forall|k: int|
                    0 <= k < i ==> out@[k] == pol.judge(
                        pol.take_in_all(old(self)@, all.take(k)),
                        all[k],
                    ),
            decreases cands.len() - i,
        {
            let v = self.offer(&cands[i], lenses, settings, overrides, now);
            out.push(v);
            proof {
                assert(all.take(i + 1).drop_last() =~= all.take(i as int));
                assert(all.take(i + 1).last() == all[i as int]);
            }
            i += 1;
        }
        proof {
            assert(all.take(i as int) =~= all);
            assert(out@ =~= pol.verdicts(old(self)@, all));
            lemma_enqueue_evolves(pol, old(self)@, all);
        }
        out
    }
}

/// Queues a batch of candidate URLs.
///
/// Each URL is parsed and put into normal form, then offered to the queue in
/// the order given; see [`TaskStore::offer`] for the rules. One bad URL never
/// stops the batch. The result says, URL by URL, what became of it.
pub fn enqueue_all(
    db: &mut TaskStore,
    urls: &Vec<String>,
    lenses: &Vec<Lens>,
    settings: &UserSettings,
    overrides: &EnqueueSettings,
    now: i64,
) -> (res: Vec<Verdict>)
    ensures
        final(db).wf(),
        final(db)@ == admission(lenses@, settings@, *overrides, now).take_in_all(
            old(db)@,
            parsed_all(urls@),
        ),
        res@ == admission(lenses@, settings@, *overrides, now).verdicts(
            old(db)@,
            parsed_all(urls@),
        ),
        evolves(old(db)@, final(db)@),
{
    let cands = normalize_all(urls);
    assert(cand_views(cands@) =~= parsed_all(urls@));
    db.offer_all(&cands, lenses, settings, overrides, now)
}

/// Whether a task may go from `from` straight to `to`.
pub open spec fn can_follow(from: CrawlStatus, to: CrawlStatus) -> bool {
    match from {
        CrawlStatus::Queued => to == CrawlStatus::Processing,
        CrawlStatus::Processing => to == CrawlStatus::Completed || to == CrawlStatus::Failed,
        CrawlStatus::Completed => false,
        CrawlStatus::Failed => false,
    }
}

/// Whether a task that is in `from` can be in `to` later: after no move, or
/// after one or two moves forward.
pub open spec fn reaches(from: CrawlStatus, to: CrawlStatus) -> bool {
    ||| from == to
    ||| can_follow(from, to)
    ||| from == CrawlStatus::Queued && (to == CrawlStatus::Completed || to == CrawlStatus::Failed)
}

/// Whether the rows `post` can come after the rows `pre`: every row of `pre`
/// is still there, with its id, URL, domain, tag and creation time, in a
/// status that its old status reaches.
pub open spec fn evolves(pre: Seq<TaskView>, post: Seq<TaskView>) -> bool {
    &&& pre.len() <= post.len()
    &&& forall|i: int|
        0 <= i < pre.len() ==> {
            &&& (#[trigger] post[i]).id == pre[i].id
            &&& post[i].url == pre[i].url
            &&& post[i].domain == pre[i].domain
            &&& post[i].crawl_type == pre[i].crawl_type
            &&& post[i].created_at == pre[i].created_at
            &&& reaches(pre[i].status, post[i].status)
        }
}

/// The row `t` after a change of status at time `now`.
pub open spec fn moved(t: TaskView, status: CrawlStatus, now: i64) -> TaskView {
    TaskView { status, updated_at: now, ..t }
}

/// Whether a queued row may be handed out: the tasks of its domain that are
/// being processed, counted over all of `rows`, are fewer than `domain_cap`.
pub open spec fn eligible(rows: Seq<TaskView>, t: TaskView, domain_cap: int) -> bool {
    t.status == CrawlStatus::Queued && tally(rows, Tally::InFlight(t.domain)) < domain_cap
}

/// The eligible rows among the first `n`, oldest first.
pub open spec fn eligible_among(rows: Seq<TaskView>, n: int, domain_cap: int) -> Seq<TaskView>
    decreases n,
{
    if n <= 0 {
        Seq::empty()
    } else {
        let before = eligible_among(rows, n - 1, domain_cap);
        if eligible(rows, rows[n - 1], domain_cap) {
            before.push(rows[n - 1])
        } else {
            before
        }
    }
}

/// The `limit` oldest eligible rows, or all of them where there are fewer.
pub open spec fn oldest_eligible(rows: Seq<TaskView>, limit: int, domain_cap: int) -> Seq<
    TaskView,
> {
    let all = eligible_among(rows, rows.len() as int, domain_cap);
    if limit < all.len() {
        all.take(limit)
    } else {
        all
    }
}

/// The eligible rows among the first `i` begin the eligible rows among the
/// first `n`.
pub proof fn lemma_eligible_prefix(rows: Seq<TaskView>, i: int, n: int, domain_cap: int)
    requires
        0 <= i <= n,
    ensures
        eligible_among(rows, i, domain_cap).is_prefix_of(eligible_among(rows, n, domain_cap)),
    decreases n - i,
{
    if i < n {
        lemma_eligible_prefix(rows, i, n - 1, domain_cap);
        let a = eligible_among(rows, i, domain_cap);
        let b = eligible_among(rows, n - 1, domain_cap);
        let c = eligible_among(rows, n, domain_cap);
        assert(a =~= b.subrange(0, a.len() as int));
        assert(a =~= c.subrange(0, a.len() as int));
    } else {
        let a = eligible_among(rows, i, domain_cap);
        assert(a =~= a.subrange(0, a.len() as int));
    }
}

/// What is handed out is eligible and comes in the order of the table: every
/// row among the `limit` oldest eligible ones is a row of the table that is
/// queued and whose domain is below its cap, and of two of them the one with
/// the lower id comes first.
pub proof fn lemma_oldest_eligible_are_eligible(rows: Seq<TaskView>, limit: int, domain_cap: int)
    requires
        rows_wf(rows),
        0 <= limit,
    ensures
        oldest_eligible(rows, limit, domain_cap).len() <= limit,
        forall|k: int|
            0 <= k < oldest_eligible(rows, limit, domain_cap).len() ==> {
                let t = #[trigger] oldest_eligible(rows, limit, domain_cap)[k];
                &&& 0 <= t.id < rows.len()
                &&& rows[t.id as int] == t
                &&& eligible(rows, t, domain_cap)
            },
        forall|k: int, m: int|
            0 <= k < m < oldest_eligible(rows, limit, domain_cap).len() ==> (#[trigger] oldest_eligible(
                rows,
                limit,
                domain_cap,
            )[k]).id < (#[trigger] oldest_eligible(rows, limit, domain_cap)[m]).id,
{
    lemma_eligible_among_sorted(rows, rows.len() as int, domain_cap);
}

/// The eligible rows among the first `n` are rows of the table with ids
/// below `n`, each eligible, in the order of their ids.
proof fn lemma_eligible_among_sorted(rows: Seq<TaskView>, n: int, domain_cap: int)
    requires
        rows_wf(rows),
        0 <= n <= rows.len(),
    ensures
        forall|k: int|
            0 <= k < eligible_among(rows, n, domain_cap).len() ==> {
                let t = #[trigger] eligible_among(rows, n, domain_cap)[k];
                &&& 0 <= t.id < n
                &&& rows[t.id as int] == t
                &&& eligible(rows, t, domain_cap)
            },
        forall|k: int, m: int|
            0 <= k < m < eligible_among(rows, n, domain_cap).len() ==> (#[trigger] eligible_among(
                rows,
                n,
                domain_cap,
            )[k]).id < (#[trigger] eligible_among(rows, n, domain_cap)[m]).id,
    decreases n,
{
    if n > 0 {
        lemma_eligible_among_sorted(rows, n - 1, domain_cap);
        let before = eligible_among(rows, n - 1, domain_cap);
        let now = eligible_among(rows, n, domain_cap);
        assert(rows[n - 1].id == n - 1);
        assert forall|k: int| 0 <= k < now.len() implies {
            let t = #[trigger] now[k];
            &&& 0 <= t.id < n
            &&& rows[t.id as int] == t
            &&& eligible(rows, t, domain_cap)
        } by {
            if k < before.len() {
                assert(now[k] == before[k]);
            }
        }
        assert forall|k: int, m: int| 0 <= k < m < now.len() implies (#[trigger] now[k]).id < (
        #[trigger] now[m]).id by {
            assert(now[k] == before[k]);
            if m < before.len() {
                assert(now[m] == before[m]);
            }
        }
    }
}

impl TaskStore {
    /// The queued tasks that may be handed out, oldest first, `limit` of
    /// them at most. A task whose domain has as many tasks in flight as
    /// `inflight_domain_limit` allows is left out.
    pub fn find_eligible(&self, limit: usize, settings: &UserSettings) -> (res: Vec<CrawlTask>)
        ensures
            rows_of(res@) == oldest_eligible(
                self@,
                limit as int,
                settings.inflight_domain_limit.spec_value(),
            ),
    {
        let cap = settings.inflight_domain_limit.value();
        let ghost rows = self@;
        let ghost dcap = settings.inflight_domain_limit.spec_value();
        let mut out: Vec<CrawlTask> = Vec::new();
        let mut i: usize = 0;
        while i < self.tasks.len() && out.len() < limit
            invariant
                i <= self.tasks.len(),
                rows == self@,
                rows.len() == self.tasks.len(),
                dcap == cap,
                out.len() <= limit,
                rows_of(out@) == eligible_among(rows, i as int, dcap),
            decreases self.tasks.len() - i,
        {
            let t = &self.tasks[i];
            let ghost before = rows_of(out@);
            if t.status == CrawlStatus::Queued {
                let busy = self.inflight_for_domain(t.domain.as_str());
                if (busy as u64) < cap as u64 {
                    out.push(t.clone());
                    assert(rows_of(out@) =~= before.push(rows[i as int]));
                }
            }
            i += 1;
        }
        proof {
            let all = eligible_among(rows, rows.len() as int, dcap);
            lemma_eligible_prefix(rows, i as int, rows.len() as int, dcap);
            if i < self.tasks.len() {
                assert(out.len() == limit);
                assert(rows_of(out@) =~= all.take(limit as int));
            }
        }
        out
    }

    /// Sets the status of the task `task_id` and refreshes its `updated_at`.
    /// Fails with `NotFound`, and changes nothing, where no task has that id.
    /// This is the table's update and asks nothing of the move: moving
    /// tasks forward is on the caller.
    pub fn transition(&mut self, task_id: u64, new_status: CrawlStatus, now: i64) -> (res: Result<
        (),
        CrawlError,
    >)
        ensures
            final(self).wf(),
            res is Ok <==> task_id < old(self)@.len(),
            res is Ok ==> final(self)@ == old(self)@.update(
                task_id as int,
                moved(old(self)@[task_id as int], new_status, now),
            ),
            res is Ok && reaches(old(self)@[task_id as int].status, new_status) ==> evolves(
                old(self)@,
                final(self)@,
            ),
            res matches Err(e) ==> e == CrawlError::NotFound && final(self)@ == old(self)@,
    {
        proof {
            use_type_invariant(&*self);
        }
        if task_id >= self.tasks.len() as u64 {
            return Err(CrawlError::NotFound);
        }
        let at = task_id as usize;
        let t = &self.tasks[at];
        let next = CrawlTask {
            id: t.id,
            domain: t.domain.clone(),
            url: t.url.clone(),
            crawl_type: t.crawl_type,
            status: new_status,
            created_at: t.created_at,
            updated_at: now,
        };
        let mut tasks = Vec::new();
        std::mem::swap(&mut tasks, &mut self.tasks);
        tasks.set(at, next);
        proof {
            assert(rows_of(tasks@) =~= old(self)@.update(
                task_id as int,
                moved(old(self)@[task_id as int], new_status, now),
            ));
        }
        self.tasks = tasks;
        Ok(())
    }
}

/// Rows can come after themselves.
pub proof fn lemma_evolves_reflexive(rows: Seq<TaskView>)
    ensures
        evolves(rows, rows),
{
}

/// What can come after what can come after `a` can come after `a`.
pub proof fn lemma_evolves_transitive(a: Seq<TaskView>, b: Seq<TaskView>, c: Seq<TaskView>)
    requires
        evolves(a, b),
        evolves(b, c),
    ensures
        evolves(a, c),
{
    assert forall|i: int| 0 <= i < a.len() implies {
        &&& (#[trigger] c[i]).id == a[i].id
        &&& c[i].url == a[i].url
        &&& c[i].domain == a[i].domain
        &&& c[i].crawl_type == a[i].crawl_type
        &&& c[i].created_at == a[i].created_at
        &&& reaches(a[i].status, c[i].status)
    } by {
        assert(b[i].id == a[i].id);
    }
}

/// No status but `Queued` reaches `Queued`: a task that has left the queue
/// never returns to it. And nothing leaves `Completed` or `Failed`.
pub proof fn lemma_no_way_back(from: CrawlStatus, to: CrawlStatus)
    requires
        reaches(from, to),
    ensures
        to == CrawlStatus::Queued ==> from == CrawlStatus::Queued,
        from == CrawlStatus::Completed || from == CrawlStatus::Failed ==> to == from,
        from == CrawlStatus::Processing ==> to != CrawlStatus::Queued,
{
}

/// A move forward of one row is an evolution of the table.
pub proof fn lemma_move_evolves(rows: Seq<TaskView>, i: int, status: CrawlStatus, now: i64)
    requires
        0 <= i < rows.len(),
        reaches(rows[i].status, status),
    ensures
        evolves(rows, rows.update(i, moved(rows[i], status, now))),
{
}

/// Every enqueue is an evolution of the table: it only appends rows, and
/// each row that it appends is `Queued`.
pub proof fn lemma_enqueue_evolves(pol: Admission, rows: Seq<TaskView>, cands: Seq<Option<UrlView>>)
    ensures
        evolves(rows, pol.take_in_all(rows, cands)),
        forall|i: int|
            rows.len() <= i < pol.take_in_all(rows, cands).len() ==> (#[trigger] pol.take_in_all(
                rows,
                cands,
            )[i]).status == CrawlStatus::Queued,
    decreases cands.len(),
{
    if cands.len() > 0 {
        lemma_enqueue_evolves(pol, rows, cands.drop_last());
    }
}

/// A candidate whose URL the queue already holds, in whatever status, adds
/// no row.
pub proof fn lemma_known_url_adds_nothing(
    pol: Admission,
    rows: Seq<TaskView>,
    cand: Option<UrlView>,
)
    requires
        cand matches Some(u) && has_url(rows, u.url),
    ensures
        pol.judge(rows, cand) != Verdict::Queued,
        pol.take_in(rows, cand) == rows,
{
}

/// A batch in which every well-formed URL is already in the queue leaves the
/// queue as it was.
pub proof fn lemma_resubmitting_adds_nothing(
    pol: Admission,
    rows: Seq<TaskView>,
    cands: Seq<Option<UrlView>>,
)
    requires
        forall|i: int|
            0 <= i < cands.len() ==> ((#[trigger] cands[i]) matches Some(u) ==> has_url(
                rows,
                u.url,
            )),
    ensures
        pol.take_in_all(rows, cands) == rows,
    decreases cands.len(),
{
    if cands.len() > 0 {
        let before = cands.drop_last();
        assert forall|i: int| 0 <= i < before.len() implies ((#[trigger] before[i]) matches Some(
            u,
        ) ==> has_url(rows, u.url)) by {
            assert(before[i] == cands[i]);
        }
        lemma_resubmitting_adds_nothing(pol, rows, before);
        assert(cands.last() == cands[cands.len() - 1]);
    }
}

/// A candidate whose domain has reached the domain limit adds no row.
pub proof fn lemma_full_domain_is_rejected(
    pol: Admission,
    rows: Seq<TaskView>,
    cand: Option<UrlView>,
)
    requires
        cand matches Some(u) && u.host matches Some(host) && tally(rows, Tally::Domain(host))
            >= pol.domain_limit,
    ensures
        pol.judge(rows, cand) != Verdict::Queued,
        pol.take_in(rows, cand) == rows,
{
}

/// A new URL of a domain that is below the domain limit is queued, however
/// full other domains are: of the rows, the verdict reads only the URLs and
/// the count of the candidate's own domain.
pub proof fn lemma_open_domain_is_queued(
    pol: Admission,
    rows: Seq<TaskView>,
    url: Seq<char>,
    host: Seq<char>,
)
    requires
        !pol.blocks(host),
        in_scope(pol.lenses, host, url),
        !has_url(rows, url),
        tally(rows, Tally::Domain(host)) < pol.domain_limit,
    ensures
        pol.judge(rows, Some(UrlView { url, host: Some(host) })) == Verdict::Queued,
        pol.take_in(rows, Some(UrlView { url, host: Some(host) })) == rows.push(
            pol.new_row(rows.len(), url, host),
        ),
{
}

/// No enqueue takes a domain past the domain limit: after a batch a domain
/// has no more tasks than the limit, or than it had before.
pub proof fn lemma_enqueue_keeps_domain_limit(
    pol: Admission,
    rows: Seq<TaskView>,
    cands: Seq<Option<UrlView>>,
    domain: Seq<char>,
)
    ensures
        tally(pol.take_in_all(rows, cands), Tally::Domain(domain)) <= tally(
            rows,
            Tally::Domain(domain),
        ) || tally(pol.take_in_all(rows, cands), Tally::Domain(domain)) <= pol.domain_limit,
    decreases cands.len(),
{
    if cands.len() > 0 {
        lemma_enqueue_keeps_domain_limit(pol, rows, cands.drop_last(), domain);
        let mid = pol.take_in_all(rows, cands.drop_last());
        let cand = cands.last();
        if pol.judge(mid, cand) == Verdict::Queued {
            let row = pol.new_row(mid.len(), cand->0.url, cand->0.host->0);
            lemma_tally_push(mid, row, Tally::Domain(domain));
        }
    }
}

/// No enqueue adds a task to a domain that has reached the domain limit:
/// whatever the batch, such a domain has as many tasks afterwards as it had.
pub proof fn lemma_full_domain_gains_nothing(
    pol: Admission,
    rows: Seq<TaskView>,
    cands: Seq<Option<UrlView>>,
    domain: Seq<char>,
)
    requires
        tally(rows, Tally::Domain(domain)) >= pol.domain_limit,
    ensures
        tally(pol.take_in_all(rows, cands), Tally::Domain(domain)) == tally(
            rows,
            Tally::Domain(domain),
        ),
    decreases cands.len(),
{
    if cands.len() > 0 {
        lemma_full_domain_gains_nothing(pol, rows, cands.drop_last(), domain);
        let mid = pol.take_in_all(rows, cands.drop_last());
        let cand = cands.last();
        if pol.judge(mid, cand) == Verdict::Queued {
            let row = pol.new_row(mid.len(), cand->0.url, cand->0.host->0);
            lemma_tally_push(mid, row, Tally::Domain(domain));
        }
    }
}

/// Rows that come after others hold every URL that those hold, and count at
/// least as many tasks for every domain.
pub proof fn lemma_evolves_keeps_urls(pre: Seq<TaskView>, post: Seq<TaskView>)
    requires
        evolves(pre, post),
    ensures
        forall|url: Seq<char>| has_url(pre, url) ==> has_url(post, url),
        forall|domain: Seq<char>| #[trigger]
            tally(pre, Tally::Domain(domain)) <= tally(post, Tally::Domain(domain)),
    decreases post.len(),
{
    assert forall|url: Seq<char>| has_url(pre, url) implies has_url(post, url) by {
        let i = choose|i: int| 0 <= i < pre.len() && (#[trigger] pre[i]).url == url;
        assert(post[i].url == url);
    }
    if post.len() > 0 {
        if pre.len() < post.len() {
            assert forall|i: int| 0 <= i < pre.len() implies (#[trigger] post.drop_last()[i])
                == post[i] by {}
            assert(evolves(pre, post.drop_last()));
            lemma_evolves_keeps_urls(pre, post.drop_last());
        } else {
            assert forall|i: int| 0 <= i < pre.len() - 1 implies (#[trigger] post.drop_last()[i])
                == post[i] && pre.drop_last()[i] == pre[i] by {}
            assert(evolves(pre.drop_last(), post.drop_last()));
            lemma_evolves_keeps_urls(pre.drop_last(), post.drop_last());
            assert(post.last().domain == pre.last().domain);
            assert forall|domain: Seq<char>| #[trigger]
                tally(pre, Tally::Domain(domain)) <= tally(post, Tally::Domain(domain)) by {
                assert(tally(pre.drop_last(), Tally::Domain(domain)) <= tally(
                    post.drop_last(),
                    Tally::Domain(domain),
                ));
            }
        }
    } else {
        assert(pre =~= post);
    }
}

/// Once a batch has been offered, none of its URLs can add a row again,
/// neither to the rows it left nor to any rows that come after them.
pub proof fn lemma_offered_stays_settled(
    pol: Admission,
    rows: Seq<TaskView>,
    cands: Seq<Option<UrlView>>,
    later: Seq<TaskView>,
    i: int,
)
    requires
        0 <= i < cands.len(),
        evolves(pol.take_in_all(rows, cands), later),
    ensures
        pol.take_in(later, cands[i]) == later,
    decreases cands.len(),
{
    let before = cands.drop_last();
    let mid = pol.take_in_all(rows, before);
    let after = pol.take_in_all(rows, cands);
    if i < cands.len() - 1 {
        assert(evolves(mid, after));
        lemma_evolves_transitive(mid, after, later);
        lemma_offered_stays_settled(pol, rows, before, later, i);
        assert(before[i] == cands[i]);
    } else {
        let cand = cands.last();
        assert(evolves(mid, after));
        lemma_evolves_transitive(mid, after, later);
        lemma_evolves_keeps_urls(mid, later);
        match pol.judge(mid, cand) {
            Verdict::Queued => {
                let url = cand->0.url;
                assert(after[mid.len() as int].url == url);
                assert(later[mid.len() as int].url == url);
                assert(has_url(later, url));
            },
            Verdict::DomainLimit => {
                let host = cand->0.host->0;
                assert(tally(mid, Tally::Domain(host)) <= tally(later, Tally::Domain(host)));
            },
            _ => {},
        }
    }
}

/// Offering the same batch a second time adds nothing.
pub proof fn lemma_enqueue_twice_is_enqueue_once(
    pol: Admission,
    rows: Seq<TaskView>,
    cands: Seq<Option<UrlView>>,
)
    ensures
        pol.take_in_all(pol.take_in_all(rows, cands), cands) == pol.take_in_all(rows, cands),
{
    let once = pol.take_in_all(rows, cands);
    lemma_again_adds_nothing(pol, rows, cands, cands.len() as int);
    assert(cands.take(cands.len() as int) =~= cands);
}

/// Offering the first `n` URLs of a batch again, after the whole batch,
/// adds nothing.
proof fn lemma_again_adds_nothing(
    pol: Admission,
    rows: Seq<TaskView>,
    cands: Seq<Option<UrlView>>,
    n: int,
)
    requires
        0 <= n <= cands.len(),
    ensures
        pol.take_in_all(pol.take_in_all(rows, cands), cands.take(n)) == pol.take_in_all(
            rows,
            cands,
        ),
    decreases n,
{
    let once = pol.take_in_all(rows, cands);
    if n > 0 {
        lemma_again_adds_nothing(pol, rows, cands, n - 1);
        assert(cands.take(n).drop_last() =~= cands.take(n - 1));
        assert(cands.take(n).last() == cands[n - 1]);
        lemma_offered_stays_settled(pol, rows, cands, once, n - 1);
    } else {
        assert(cands.take(0).len() == 0);
    }
}

} // verus!
