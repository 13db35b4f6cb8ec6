//! The lenses that are installed, as the database records them.

use vstd::prelude::*;
use crate::text::same_text;

verus! {

/// One installed lens.
#[derive(Debug)]
pub struct Model {
    pub id: u64,
    // Will definitely run into namespace issues later on, something to think about.
    pub name: String,
    pub author: String,
    pub description: Option<String>,
    pub version: String,
}

/// An installed lens as plain values.
pub struct ModelView {
    pub id: u64,
    pub name: Seq<char>,
    pub author: Seq<char>,
    pub description: Option<Seq<char>>,
    pub version: Seq<char>,
}

impl View for Model {
    type V = ModelView;

    open spec fn view(&self) -> ModelView {
        ModelView {
            id: self.id,
            name: self.name@,
            author: self.author@,
            description: match self.description {
                Some(d) => Some(d@),
                None => None,
            },
            version: self.version@,
        }
    }
}

impl Clone for Model {
    fn clone(&self) -> (res: Self)
        ensures
            res@ == self@,
    {
        Model {
            id: self.id,
            name: self.name.clone(),
            author: self.author.clone(),
            description: match &self.description {
                Some(d) => Some(d.clone()),
                None => None,
            },
            version: self.version.clone(),
        }
    }
}

/// The plain-text form of an author or a description that may be missing.
pub open spec fn text_of(s: Option<&String>) -> Option<Seq<char>> {
    match s {
        Some(t) => Some(t@),
        None => None,
    }
}

/// The author recorded for a lens: the one given, or `Unknown`.
pub open spec fn author_or_unknown(author: Option<Seq<char>>) -> Seq<char> {
    match author {
        Some(a) => a,
        None => "Unknown"@,
    }
}

/// Whether a lens of the rows has the name `name`.
pub open spec fn has_name(rows: Seq<ModelView>, name: Seq<char>) -> bool {
    exists|i: int| 0 <= i < rows.len() && (#[trigger] rows[i]).name == name
}

/// The table's invariant: a row's id is its position, and no name occurs
/// twice.
pub open spec fn lenses_wf(rows: Seq<ModelView>) -> bool {
    &&& forall|i: int| 0 <= i < rows.len() ==> (#[trigger] rows[i]).id == i
    &&& forall|i: int, j: int|
        0 <= i < j < rows.len() ==> (#[trigger] rows[i]).name != (#[trigger] rows[j]).name
}

/// The table of installed lenses.
pub struct LensTable {
    rows: Vec<Model>,
}

impl View for LensTable {
    type V = Seq<ModelView>;

    closed spec fn view(&self) -> Seq<ModelView> {
        Seq::new(self.rows@.len(), |i: int| self.rows@[i]@)
    }
}

impl LensTable {
    #[verifier::type_invariant]
    spec fn inv(self) -> bool {
        lenses_wf(Seq::new(self.rows@.len(), |i: int| self.rows@[i]@))
    }

    /// The table's invariant holds. It holds of every table there is.
    pub open spec fn wf(&self) -> bool {
        lenses_wf(self@)
    }

    /// An empty table.
    pub fn new() -> (res: Self)
        ensures
            res.wf(),
            res@.len() == 0,
    {
        LensTable { rows: Vec::new() }
    }

    /// Number of lenses.
    pub fn len(&self) -> (res: usize)
        ensures
            res == self@.len(),
    {
        self.rows.len()
    }

    /// The lens with the given id, if there is one.
    pub fn get(&self, id: u64) -> (res: Option<Model>)
        ensures
            res is Some <==> id < self@.len(),
            res matches Some(lens) ==> lens@ == self@[id as int],
    {
        if id < self.rows.len() as u64 {
            Some(self.rows[id as usize].clone())
        } else {
            None
        }
    }

    /// Whether a lens with the name `name` is installed.
    pub fn contains(&self, name: &str) -> (res: bool)
        ensures
            res == has_name(self@, name@),
    {
        let mut i: usize = 0;
        while i < self.rows.len()
            invariant
                i <= self.rows.len(),
                forall|k: int| 0 <= k < i ==> (#[trigger] self@[k]).name != name@,
            decreases self.rows.len() - i,
        {
            if same_text(self.rows[i].name.as_str(), name) {
                assert(self@[i as int].name == name@);
                return true;
            }
            i += 1;
        }
        false
    }
}

/// True if the lens was added, False if it already exists.
///
/// A lens that is added gets the next id. Its author is the one given, or
/// `Unknown` where none is given.
pub fn add(
    db: &mut LensTable,
    name: &str,
    author: Option<&String>,
    description: Option<&String>,
    version: &str,
) -> (res: bool)
    ensures
        final(db).wf(),
        res == !has_name(old(db)@, name@),
        !res ==> final(db)@ == old(db)@,
        res ==> final(db)@ == old(db)@.push(
            ModelView {
                id: old(db)@.len() as u64,
                name: name@,
                author: author_or_unknown(text_of(author)),
                description: text_of(description),
                version: version@,
            },
        ),
{
    proof {
        use_type_invariant(&*db);
    }
    if db.contains(name) {
        return false;
    }
    let new_lens = Model {
        id: db.rows.len() as u64,
        name: name.to_string(),
        author: match author {
            Some(a) => a.clone(),
            None => "Unknown".to_string(),
        },
        description: match description {
            Some(d) => Some(d.clone()),
            None => None,
        },
        version: version.to_string(),
    };
    let ghost row = new_lens@;
    let mut rows = Vec::new();
    std::mem::swap(&mut rows, &mut db.rows);
    rows.push(new_lens);
    assert(Seq::new(rows@.len(), |i: int| rows@[i]@) =~= old(db)@.push(row));
    db.rows = rows;
    true
}

} // verus!
