//! User-facing configuration: crawl limits, allow and block lists, lenses.

use vstd::prelude::*;
use vstd::string::*;
use crate::paths::{child_path, is_child_named, Folders};
use crate::text::{copy_list, same_text, texts};

verus! {

/// A cap on a count. `Infinite` stands for "no cap" and compares as the
/// largest number a `u32` can hold, so that policy code never has to treat
/// the unlimited case on its own.
#[derive(Clone, Copy, Debug, PartialEq, Eq, Structural)]
pub enum Limit {
    Infinite,
    Finite(u32),
}

impl Limit {
    /// The number this limit compares as.
    pub open spec fn spec_value(self) -> int {
        match self {
            Limit::Infinite => u32::MAX as int,
            Limit::Finite(val) => val as int,
        }
    }

    /// The number this limit compares as.
    pub fn value(&self) -> (res: u32)
        ensures
            res == self.spec_value(),
    {
        match self {
            Limit::Infinite => u32::MAX,
            Limit::Finite(val) => *val,
        }
    }
}

impl Default for Limit {
    fn default() -> (res: Self)
        ensures
            res == Limit::Finite(100),
    {
        Limit::Finite(100)
    }
}

/// A lens: a named scope of domains and URL prefixes that narrows what is
/// searched and what a crawl may expand into.
#[derive(Debug)]
pub struct Lens {
    pub name: String,
    pub author: String,
    pub description: Option<String>,
    pub domains: Vec<String>,
    pub urls: Vec<String>,
    pub version: String,
}

/// A lens as plain text.
pub struct LensView {
    pub name: Seq<char>,
    pub author: Seq<char>,
    pub description: Option<Seq<char>>,
    pub domains: Seq<Seq<char>>,
    pub urls: Seq<Seq<char>>,
    pub version: Seq<char>,
}

impl View for Lens {
    type V = LensView;

    open spec fn view(&self) -> LensView {
        LensView {
            name: self.name@,
            author: self.author@,
            description: match self.description {
                Some(d) => Some(d@),
                None => None,
            },
            domains: texts(self.domains@),
            urls: texts(self.urls@),
            version: self.version@,
        }
    }
}

impl Clone for Lens {
    fn clone(&self) -> (res: Self)
        ensures
            res@ == self@,
    {
        Lens {
            name: self.name.clone(),
            author: self.author.clone(),
            description: match &self.description {
                Some(d) => Some(d.clone()),
                None => None,
            },
            domains: copy_list(&self.domains),
            urls: copy_list(&self.urls),
            version: self.version.clone(),
        }
    }
}

/// What the user has configured.
#[derive(Debug)]
pub struct UserSettings {
    /// Number of pages allowed per domain. Sub-domains are treated as
    /// separate domains.
    pub domain_crawl_limit: Limit,
    /// Total number of in-flight crawls allowed for the entire app.
    pub inflight_crawl_limit: Limit,
    /// Number of in-flight crawls allowed per domain.
    pub inflight_domain_limit: Limit,
    /// Should we run the setup wizard?
    pub run_wizard: bool,
    /// Should the crawler start out paused?
    pub pause_at_start: bool,
    /// Domains explicitly allowed, regardless of what's in the blocklist.
    pub allow_list: Vec<String>,
    /// Domains explicitly blocked from crawling.
    pub block_list: Vec<String>,
    /// Keyboard shortcut that brings up the search bar.
    pub shortcut: String,
}

/// The settings as plain values.
pub struct SettingsView {
    pub domain_crawl_limit: Limit,
    pub inflight_crawl_limit: Limit,
    pub inflight_domain_limit: Limit,
    pub run_wizard: bool,
    pub pause_at_start: bool,
    pub allow_list: Seq<Seq<char>>,
    pub block_list: Seq<Seq<char>>,
    pub shortcut: Seq<char>,
}

impl View for UserSettings {
    type V = SettingsView;

    open spec fn view(&self) -> SettingsView {
        SettingsView {
            domain_crawl_limit: self.domain_crawl_limit,
            inflight_crawl_limit: self.inflight_crawl_limit,
            inflight_domain_limit: self.inflight_domain_limit,
            run_wizard: self.run_wizard,
            pause_at_start: self.pause_at_start,
            allow_list: texts(self.allow_list@),
            block_list: texts(self.block_list@),
            shortcut: self.shortcut@,
        }
    }
}

impl UserSettings {
    /// The shortcut used where the user has not chosen one.
    pub fn default_shortcut() -> (res: String)
        ensures
            res@ == "CmdOrCtrl+Shift+/"@,
    {
        "CmdOrCtrl+Shift+/".to_string()
    }
}

impl Default for UserSettings {
    fn default() -> (res: Self)
        ensures
            res@ == (SettingsView {
                domain_crawl_limit: Limit::Finite(1000),
                inflight_crawl_limit: Limit::Finite(10),
                inflight_domain_limit: Limit::Finite(2),
                run_wizard: false,
                pause_at_start: false,
                allow_list: Seq::empty(),
                block_list: seq!["web.archive.org"@],
                shortcut: "CmdOrCtrl+Shift+/"@,
            }),
    {
        let mut block_list: Vec<String> = Vec::new();
        block_list.push("web.archive.org".to_string());
        let res = UserSettings {
            domain_crawl_limit: Limit::Finite(1000),
            // 10 total crawlers at a time
            inflight_crawl_limit: Limit::Finite(10),
            // Limit to 2 crawlers for a domain
            inflight_domain_limit: Limit::Finite(2),
            // Not used at the moment
            run_wizard: false,
            pause_at_start: false,
            allow_list: Vec::new(),
            block_list,
            shortcut: UserSettings::default_shortcut(),
        };
        assert(texts(res.allow_list@) =~= Seq::empty());
        assert(texts(res.block_list@) =~= seq!["web.archive.org"@]);
        res
    }
}

impl Clone for UserSettings {
    fn clone(&self) -> (res: Self)
        ensures
            res@ == self@,
    {
        UserSettings {
            domain_crawl_limit: self.domain_crawl_limit,
            inflight_crawl_limit: self.inflight_crawl_limit,
            inflight_domain_limit: self.inflight_domain_limit,
            run_wizard: self.run_wizard,
            pause_at_start: self.pause_at_start,
            allow_list: copy_list(&self.allow_list),
            block_list: copy_list(&self.block_list),
            shortcut: self.shortcut.clone(),
        }
    }
}

/// The plain-text forms of a list of lenses.
pub open spec fn lens_views(lenses: Seq<Lens>) -> Seq<LensView> {
    Seq::new(lenses.len(), |i: int| lenses[i]@)
}

/// The lenses of a list by name. Where two have the same name, the later one
/// stands.
pub open spec fn lens_map(lenses: Seq<LensView>) -> Map<Seq<char>, LensView>
    decreases lenses.len(),
{
    if lenses.len() == 0 {
        Map::empty()
    } else {
        lens_map(lenses.drop_last()).insert(lenses.last().name, lenses.last())
    }
}

/// Whether no two lenses of a list have the same name.
pub open spec fn distinct_names(lenses: Seq<LensView>) -> bool {
    forall|i: int, j: int|
        0 <= i < j < lenses.len() ==> (#[trigger] lenses[i]).name != (#[trigger] lenses[j]).name
}

/// The application's configuration: the user's settings and the lenses that
/// were loaded. Lenses are added with `insert_lens`, which keeps their names
/// distinct.
#[derive(Debug)]
pub struct Config {
    pub user_settings: UserSettings,
    pub lenses: Vec<Lens>,
}

impl Config {
    /// No two lenses have the same name.
    pub open spec fn wf(&self) -> bool {
        distinct_names(lens_views(self.lenses@))
    }

    /// The lens that is written out as an example where the user has none.
    pub fn default_lens() -> (res: Lens)
        ensures
            res@ == (LensView {
                name: "wiki"@,
                author: "Unknown"@,
                description: Some(
                    "Search through official user-supported wikis for knowledge, games, and more."@,
                ),
                domains: seq![
                    "en.wikipedia.org"@,
                    "oldschool.runescape.wiki"@,
                    "wiki.factorio.com"@,
                ],
                urls: Seq::empty(),
                version: "1"@,
            }),
    {
        let mut domains: Vec<String> = Vec::new();
        domains.push("en.wikipedia.org".to_string());
        domains.push("oldschool.runescape.wiki".to_string());
        domains.push("wiki.factorio.com".to_string());
        let res = Lens {
            version: "1".to_string(),
            name: "wiki".to_string(),
            author: "Unknown".to_string(),
            description: Some(
                "Search through official user-supported wikis for knowledge, games, and more.".to_string(),
            ),
            domains,
            urls: Vec::new(),
        };
        assert(texts(res.domains@) =~= seq![
            "en.wikipedia.org"@,
            "oldschool.runescape.wiki"@,
            "wiki.factorio.com"@,
        ]);
        assert(texts(res.urls@) =~= Seq::empty());
        res
    }

    /// A configuration without lenses.
    pub fn with_settings(user_settings: UserSettings) -> (res: Self)
        ensures
            res.wf(),
            res.user_settings == user_settings,
            res.lenses@.len() == 0,
    {
        Config { user_settings, lenses: Vec::new() }
    }

    /// Adds a lens that was loaded. A lens of the same name that was loaded
    /// before is replaced by it.
    pub fn insert_lens(&mut self, lens: Lens)
        ensures
            final(self).user_settings == old(self).user_settings,
            lens_map(lens_views(final(self).lenses@)) == lens_map(
                lens_views(old(self).lenses@),
            ).insert(lens@.name, lens@),
            old(self).wf() ==> final(self).wf(),
    {
        let ghost before = lens_views(self.lenses@);
        let ghost new = lens@;
        let mut i: usize = self.lenses.len();
        while i > 0
            invariant
                i <= self.lenses.len(),
                *self == *old(self),
                before == lens_views(self.lenses@),
                new == lens@,
                forall|k: int| i <= k < before.len() ==> (#[trigger] before[k]).name != new.name,
            decreases i,
        {
            i -= 1;
            if same_text(self.lenses[i].name.as_str(), lens.name.as_str()) {
                self.lenses.set(i, lens);
                proof {
                    assert(lens_views(self.lenses@) =~= before.update(i as int, new));
                    lemma_lens_map_replace(before, i as int, new);
                }
                return ;
            }
        }
        self.lenses.push(lens);
        proof {
            let after = lens_views(self.lenses@);
            assert(after =~= before.push(new));
            assert(after.drop_last() =~= before);
        }
    }

    /// The application's data folder, as the operating system assigns it;
    /// `None` where it knows no home directory.
    pub fn data_dir() -> (res: Option<String>) {
        // Nothing is known of what the operating system answers. What is
        // made of its answer is stated on `data_dir_in`.
        let located = Folders::locate();
        Self::data_dir_in(&located)
    }

    /// The folder of the user's preferences, as the operating system assigns
    /// it; `None` where it knows no home directory.
    pub fn prefs_dir() -> (res: Option<String>) {
        // Nothing is known of what the operating system answers. What is
        // made of its answer is stated on `prefs_dir_in`.
        let located = Folders::locate();
        Self::prefs_dir_in(&located)
    }

    /// The folder of the search index: `index` in the data folder.
    pub fn index_dir() -> (res: Option<String>)
        ensures
            res matches Some(p) ==> is_child_named(p@, "index"@),
    {
        let located = Folders::locate();
        let res = Self::index_dir_in(&located);
        proof {
            if let Some(f) = located {
                assert(child_path(f.data@, "index"@) == res->0@);
            }
        }
        res
    }

    /// The folder of the log files: `logs` in the data folder.
    pub fn logs_dir() -> (res: Option<String>)
        ensures
            res matches Some(p) ==> is_child_named(p@, "logs"@),
    {
        let located = Folders::locate();
        let res = Self::logs_dir_in(&located);
        proof {
            if let Some(f) = located {
                assert(child_path(f.data@, "logs"@) == res->0@);
            }
        }
        res
    }

    /// User preferences file: `settings.ron` in the preferences folder.
    pub fn prefs_file() -> (res: Option<String>)
        ensures
            res matches Some(p) ==> is_child_named(p@, "settings.ron"@),
    {
        let located = Folders::locate();
        let res = Self::prefs_file_in(&located);
        proof {
            if let Some(f) = located {
                assert(child_path(f.prefs@, "settings.ron"@) == res->0@);
            }
        }
        res
    }

    /// The folder of the lens files: `lenses` in the data folder.
    pub fn lenses_dir() -> (res: Option<String>)
        ensures
            res matches Some(p) ==> is_child_named(p@, "lenses"@),
    {
        let located = Folders::locate();
        let res = Self::lenses_dir_in(&located);
        proof {
            if let Some(f) = located {
                assert(child_path(f.data@, "lenses"@) == res->0@);
            }
        }
        res
    }

    /// The data folder among the folders that were located, if any were.
    pub fn data_dir_in(located: &Option<Folders>) -> (res: Option<String>)
        ensures
            res is Some <==> located is Some,
            res matches Some(dir) ==> dir@ == located->0.data@,
    {
        match located {
            Some(f) => Some(f.data.clone()),
            None => None,
        }
    }

    /// The preferences folder among the folders that were located, if any
    /// were.
    pub fn prefs_dir_in(located: &Option<Folders>) -> (res: Option<String>)
        ensures
            res is Some <==> located is Some,
            res matches Some(dir) ==> dir@ == located->0.prefs@,
    {
        match located {
            Some(f) => Some(f.prefs.clone()),
            None => None,
        }
    }

    /// The folder of the search index under the folders that were located,
    /// if any were: `index` in the data folder.
    pub fn index_dir_in(located: &Option<Folders>) -> (res: Option<String>)
        ensures
            res is Some <==> located is Some,
            res matches Some(p) ==> p@ == child_path(located->0.data@, "index"@),
    {
        match located {
            Some(f) => Some(f.index_dir()),
            None => None,
        }
    }

    /// The folder of the log files under the folders that were located, if
    /// any were: `logs` in the data folder.
    pub fn logs_dir_in(located: &Option<Folders>) -> (res: Option<String>)
        ensures
            res is Some <==> located is Some,
            res matches Some(p) ==> p@ == child_path(located->0.data@, "logs"@),
    {
        match located {
            Some(f) => Some(f.logs_dir()),
            None => None,
        }
    }

    /// The user preferences file under the folders that were located, if
    /// any were: `settings.ron` in the preferences folder.
    pub fn prefs_file_in(located: &Option<Folders>) -> (res: Option<String>)
        ensures
            res is Some <==> located is Some,
            res matches Some(p) ==> p@ == child_path(located->0.prefs@, "settings.ron"@),
    {
        match located {
            Some(f) => Some(f.prefs_file()),
            None => None,
        }
    }

    /// The folder of the lens files under the folders that were located, if
    /// any were: `lenses` in the data folder.
    pub fn lenses_dir_in(located: &Option<Folders>) -> (res: Option<String>)
        ensures
            res is Some <==> located is Some,
            res matches Some(p) ==> p@ == child_path(located->0.data@, "lenses"@),
    {
        match located {
            Some(f) => Some(f.lenses_dir()),
            None => None,
        }
    }
}

/// Replacing the last lens of a name by another of that name replaces it in
/// the map, and brings no name in twice.
pub proof fn lemma_lens_map_replace(lenses: Seq<LensView>, i: int, new: LensView)
    requires
        0 <= i < lenses.len(),
        lenses[i].name == new.name,
        forall|k: int| i < k < lenses.len() ==> (#[trigger] lenses[k]).name != new.name,
    ensures
        lens_map(lenses.update(i, new)) == lens_map(lenses).insert(new.name, new),
        distinct_names(lenses) ==> distinct_names(lenses.update(i, new)),
    decreases lenses.len(),
{
    let after = lenses.update(i, new);
    let before = lenses.drop_last();
    if distinct_names(lenses) {
        assert forall|a: int, b: int| 0 <= a < b < after.len() implies (#[trigger] after[a]).name
            != (#[trigger] after[b]).name by {
            assert(lenses[a].name != lenses[b].name);
        }
    }
    if i == lenses.len() - 1 {
        assert(after.drop_last() =~= before);
        assert(lens_map(after) =~= lens_map(lenses).insert(new.name, new));
    } else {
        assert(after.drop_last() =~= before.update(i, new));
        assert(after.last() == lenses.last());
        assert(lenses[lenses.len() - 1].name != new.name);
        assert forall|k: int| i < k < before.len() implies (#[trigger] before[k]).name
            != new.name by {
            assert(lenses[k].name != new.name);
        }
        lemma_lens_map_replace(before, i, new);
        assert(lens_map(after) =~= lens_map(lenses).insert(new.name, new));
    }
}

} // verus!
