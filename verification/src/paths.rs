//! Where the application keeps its files. The two base folders come from the
//! operating system; everything below them is laid out here.

use vstd::prelude::*;
use vstd::string::*;
use directories::ProjectDirs;
use crate::text::{has_char, same_text};

verus! {

/// `directories::ProjectDirs`, carried through as a value that nothing is
/// known of.
#[verifier::external_type_specification]
#[verifier::external_body]
pub struct ExProjectDirs(ProjectDirs);

/// `directories::ProjectDirs::from`. What comes back depends on the operating
/// system and the user's environment, so nothing is claimed of it; `None`
/// means that no home directory could be found.
#[verifier::external_body]
fn project_dirs(qualifier: &str, organization: &str, application: &str) -> (res: Option<ProjectDirs>) {
    ProjectDirs::from(qualifier, organization, application)
}

/// `directories::ProjectDirs::data_dir`, as text. Nothing is claimed of it.
#[verifier::external_body]
fn project_data_dir(dirs: &ProjectDirs) -> (res: String) {
    dirs.data_dir().to_string_lossy().into_owned()
}

/// `directories::ProjectDirs::preference_dir`, as text. Nothing is claimed of it.
#[verifier::external_body]
fn project_preference_dir(dirs: &ProjectDirs) -> (res: String) {
    dirs.preference_dir().to_string_lossy().into_owned()
}

/// The path of the entry `leaf` inside the folder `base`.
pub open spec fn child_path(base: Seq<char>, leaf: Seq<char>) -> Seq<char> {
    base + seq!['/'] + leaf
}

/// Whether `path` names an entry called `leaf` inside some folder.
pub open spec fn is_child_named(path: Seq<char>, leaf: Seq<char>) -> bool {
    exists|base: Seq<char>| #[trigger] child_path(base, leaf) == path
}

/// The path of the entry `leaf` inside the folder `base`.
pub fn join(base: &str, leaf: &str) -> (res: String)
    ensures
        res@ == child_path(base@, leaf@),
{
    proof {
        reveal_strlit("/");
        assert("/"@ =~= seq!['/']);
    }
    let mut out = base.to_string();
    out.append("/");
    out.append(leaf);
    out
}

/// The application's two base folders.
pub struct Folders {
    /// Where data is kept: the index, the logs, the lenses.
    pub data: String,
    /// Where the user's preferences are kept.
    pub prefs: String,
}

impl Folders {
    /// The base folders that the operating system assigns to this
    /// application, or `None` where it knows no home directory.
    pub fn locate() -> (res: Option<Folders>) {
        match project_dirs("com", "athlabs", "carto") {
            Some(dirs) => Some(
                Folders { data: project_data_dir(&dirs), prefs: project_preference_dir(&dirs) },
            ),
            None => None,
        }
    }

    /// Folder of the search index.
    pub fn index_dir(&self) -> (res: String)
        ensures
            res@ == child_path(self.data@, "index"@),
    {
        join(self.data.as_str(), "index")
    }

    /// Folder of the log files.
    pub fn logs_dir(&self) -> (res: String)
        ensures
            res@ == child_path(self.data@, "logs"@),
    {
        join(self.data.as_str(), "logs")
    }

    /// Folder that holds one file per lens.
    pub fn lenses_dir(&self) -> (res: String)
        ensures
            res@ == child_path(self.data@, "lenses"@),
    {
        join(self.data.as_str(), "lenses")
    }

    /// The user preferences file.
    pub fn prefs_file(&self) -> (res: String)
        ensures
            res@ == child_path(self.prefs@, "settings.ron"@),
    {
        join(self.prefs.as_str(), "settings.ron")
    }

    /// The file of the task database.
    pub fn db_file(&self) -> (res: String)
        ensures
            res@ == child_path(self.data@, "db.sqlite"@),
    {
        join(self.data.as_str(), "db.sqlite")
    }
}

/// Whether `name` is a bare file name: not empty, without a path separator,
/// and neither `.` nor `..`. A bare name names an entry of the folder it is
/// joined to, and nothing outside that folder.
pub open spec fn is_bare_name(name: Seq<char>) -> bool {
    &&& name.len() > 0
    &&& !name.contains('/')
    &&& !name.contains('\\')
    &&& name != seq!['.']
    &&& name != seq!['.', '.']
}

/// Whether `name` is a bare file name.
pub fn bare_name(name: &str) -> (res: bool)
    ensures
        res == is_bare_name(name@),
{
    proof {
        reveal_strlit("");
        reveal_strlit(".");
        reveal_strlit("..");
        assert(""@ =~= Seq::<char>::empty());
        assert("."@ =~= seq!['.']);
        assert(".."@ =~= seq!['.', '.']);
        if name@.len() == 0 {
            assert(name@ =~= Seq::<char>::empty());
        }
    }
    !same_text(name, "") && !has_char(name, '/') && !has_char(name, '\\') && !same_text(name, ".")
        && !same_text(name, "..")
}

} // verus!
