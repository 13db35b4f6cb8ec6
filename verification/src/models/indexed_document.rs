//! The record of a page that has been indexed.

use vstd::prelude::*;
use crate::text::same_text;

verus! {

/// One indexed page.
#[derive(Debug)]
pub struct Model {
    pub id: u64,
    /// Domain for this document, used to implement per domain crawl limits.
    pub domain: String,
    /// URL that was indexed
    pub url: String,
    /// Reference to the document in the index
    pub doc_id: String,
    /// When this was indexed
    pub created_at: i64,
    /// When this was last updated
    pub updated_at: i64,
}

/// `chrono::Utc::now`, as seconds since the start of 1970. It reads the
/// clock, so nothing is claimed of it.
#[verifier::external_body]
fn utc_now() -> (res: i64) {
    chrono::Utc::now().timestamp()
}

impl Model {
    /// A record for a page indexed at the time `now`.
    pub fn stamped(domain: String, url: String, doc_id: String, now: i64) -> (res: Self)
        ensures
            res == (Model { id: 0, domain, url, doc_id, created_at: now, updated_at: now }),
    {
        Model { id: 0, domain, url, doc_id, created_at: now, updated_at: now }
    }

    /// A record for a page indexed just now. Both times are read from the
    /// clock.
    pub fn new(domain: String, url: String, doc_id: String) -> (res: Self)
        ensures
            res.id == 0,
            res.domain == domain,
            res.url == url,
            res.doc_id == doc_id,
    {
        Model { id: 0, domain, url, doc_id, created_at: utc_now(), updated_at: utc_now() }
    }

    /// The record as it is saved at the time `now`: an update refreshes
    /// `updated_at`, an insert leaves the record as it is.
    pub fn before_save_at(self, insert: bool, now: i64) -> (res: Self)
        ensures
            insert ==> res == self,
            !insert ==> res == (Model { updated_at: now, ..self }),
    {
        let mut this = self;
        if !insert {
            this.updated_at = now;
        }
        this
    }

    /// Triggered before insert / update: an update refreshes `updated_at`
    /// from the clock.
    pub fn before_save(self, insert: bool) -> (res: Self)
        ensures
            insert ==> res == self,
            !insert ==> exists|now: i64| res == (Model { updated_at: now, ..self }),
    {
        if insert {
            self
        } else {
            let now = utc_now();
            let ghost want = Model { updated_at: now, ..self };
            let res = self.before_save_at(false, now);
            assert(res == want);
            res
        }
    }
}

/// An indexed page as plain values.
pub struct DocView {
    pub id: u64,
    pub domain: Seq<char>,
    pub url: Seq<char>,
    pub doc_id: Seq<char>,
    pub created_at: i64,
    pub updated_at: i64,
}

impl View for Model {
    type V = DocView;

    open spec fn view(&self) -> DocView {
        DocView {
            id: self.id,
            domain: self.domain@,
            url: self.url@,
            doc_id: self.doc_id@,
            created_at: self.created_at,
            updated_at: self.updated_at,
        }
    }
}

impl Clone for Model {
    fn clone(&self) -> (res: Self)
        ensures
            res@ == self@,
    {
        Model {
            id: self.id,
            domain: self.domain.clone(),
            url: self.url.clone(),
            doc_id: self.doc_id.clone(),
            created_at: self.created_at,
            updated_at: self.updated_at,
        }
    }
}

/// The rows of a list of records.
pub open spec fn docs_of(docs: Seq<Model>) -> Seq<DocView> {
    Seq::new(docs.len(), |i: int| docs[i]@)
}

/// Whether the page `url` has a record.
pub open spec fn has_doc(rows: Seq<DocView>, url: Seq<char>) -> bool {
    exists|i: int| 0 <= i < rows.len() && (#[trigger] rows[i]).url == url
}

/// Where the record of the page `url` stands, if it has one.
pub open spec fn doc_position(rows: Seq<DocView>, url: Seq<char>) -> int {
    choose|i: int| 0 <= i < rows.len() && (#[trigger] rows[i]).url == url
}

/// The table's invariant: a row's id is its position, and a page has one
/// record at most.
pub open spec fn docs_wf(rows: Seq<DocView>) -> bool {
    &&& forall|i: int| 0 <= i < rows.len() ==> (#[trigger] rows[i]).id == i
    &&& forall|i: int, j: int|
        0 <= i < j < rows.len() ==> (#[trigger] rows[i]).url != (#[trigger] rows[j]).url
}

/// The pages that have been indexed.
pub struct DocumentTable {
    rows: Vec<Model>,
}

impl View for DocumentTable {
    type V = Seq<DocView>;

    closed spec fn view(&self) -> Seq<DocView> {
        docs_of(self.rows@)
    }
}

impl DocumentTable {
    #[verifier::type_invariant]
    spec fn inv(self) -> bool {
        docs_wf(docs_of(self.rows@))
    }

    /// The table's invariant holds. It holds of every table there is.
    pub open spec fn wf(&self) -> bool {
        docs_wf(self@)
    }

    /// An empty table.
    pub fn new() -> (res: Self)
        ensures
            res.wf(),
            res@.len() == 0,
    {
        DocumentTable { rows: Vec::new() }
    }

    /// Number of records.
    pub fn len(&self) -> (res: usize)
        ensures
            res == self@.len(),
    {
        self.rows.len()
    }

    /// Where the record of the page `url` stands, if it has one.
    pub fn position(&self, url: &str) -> (res: Option<usize>)
        ensures
            res is Some <==> has_doc(self@, url@),
            res matches Some(at) ==> at == doc_position(self@, url@) && at < self@.len()
                && self@[at as int].url == url@,
    {
        proof {
            use_type_invariant(self);
        }
        let mut i: usize = 0;
        while i < self.rows.len()
            invariant
                i <= self.rows.len(),
                docs_wf(self@),
                forall|k: int| 0 <= k < i ==> (#[trigger] self@[k]).url != url@,
            decreases self.rows.len() - i,
        {
            if same_text(self.rows[i].url.as_str(), url) {
                proof {
                    assert(self@[i as int].url == url@);
                    let at = doc_position(self@, url@);
                    if at < i {
                        assert(self@[at].url != self@[i as int].url);
                    }
                    if at > i {
                        assert(self@[i as int].url != self@[at].url);
                    }
                }
                return Some(i);
            }
            i += 1;
        }
        None
    }

    /// The record of the page `url`, if it has one.
    pub fn find(&self, url: &str) -> (res: Option<Model>)
        ensures
            res is Some <==> has_doc(self@, url@),
            res matches Some(doc) ==> doc@ == self@[doc_position(self@, url@)],
    {
        match self.position(url) {
            Some(at) => Some(self.rows[at].clone()),
            None => None,
        }
    }

    /// Records that the page `url` was indexed as the document `doc_id` at
    /// the time `now`, and says whether the record is new. A page that has
    /// a record keeps it: the record gets the new document and the new
    /// time, and keeps its id and the time it was made.
    pub fn record(&mut self, domain: &str, url: &str, doc_id: &str, now: i64) -> (created: bool)
        ensures
            final(self).wf(),
            created == !has_doc(old(self)@, url@),
            created ==> final(self)@ == old(self)@.push(
                DocView {
                    id: old(self)@.len() as u64,
                    domain: domain@,
                    url: url@,
                    doc_id: doc_id@,
                    created_at: now,
                    updated_at: now,
                },
            ),
            !created ==> final(self)@ == old(self)@.update(
                doc_position(old(self)@, url@),
                DocView {
                    doc_id: doc_id@,
                    updated_at: now,
                    ..old(self)@[doc_position(old(self)@, url@)]
                },
            ),
    {
        proof {
            use_type_invariant(&*self);
        }
        let found = self.position(url);
        let mut rows = Vec::new();
        std::mem::swap(&mut rows, &mut self.rows);
        let created = match found {
            Some(at) => {
                let old_row = &rows[at];
                let next = Model {
                    id: old_row.id,
                    domain: old_row.domain.clone(),
                    url: old_row.url.clone(),
                    doc_id: doc_id.to_string(),
                    created_at: old_row.created_at,
                    updated_at: old_row.updated_at,
                }.before_save_at(false, now);
                let ghost row = next@;
                rows.set(at, next);
                assert(docs_of(rows@) =~= old(self)@.update(at as int, row));
                false
            },
            None => {
                let mut next = Model::stamped(
                    domain.to_string(),
                    url.to_string(),
                    doc_id.to_string(),
                    now,
                ).before_save_at(true, now);
                next.id = rows.len() as u64;
                let ghost row = next@;
                rows.push(next);
                assert(docs_of(rows@) =~= old(self)@.push(row));
                true
            },
        };
        self.rows = rows;
        created
    }
}

} // verus!
