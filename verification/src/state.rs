//! The state that the API and the crawler share for the life of the
//! process: the task queue, the pause flag, the lenses in use and the
//! user's settings. The flag and the lenses are kept in concurrent maps.

use vstd::prelude::*;
use dashmap::DashMap;
use crate::config::{lens_map, lens_views, Config, Lens, LensView, UserSettings};
use crate::models::crawl_queue::{TaskStore, TaskView};
use crate::text::same_text;

verus! {

/// `dashmap::DashMap`. Of a map only what `flag_entries` and `lens_entries`
/// name is known: what it holds.
#[verifier::external_type_specification]
#[verifier::external_body]
#[verifier::reject_recursive_types(K)]
#[verifier::reject_recursive_types(V)]
#[verifier::reject_recursive_types(S)]
pub struct ExDashMap<K, V, S>(DashMap<K, V, S>);

/// What a map of flags holds: each key with its value.
pub uninterp spec fn flag_entries(flags: DashMap<String, String>) -> Map<Seq<char>, Seq<char>>;

/// What a map of lenses holds: each key with its lens.
pub uninterp spec fn lens_entries(lenses: DashMap<String, Lens>) -> Map<Seq<char>, LensView>;

/// `DashMap::new`: a map that holds nothing.
#[verifier::external_body]
fn flags_new() -> (res: DashMap<String, String>)
    ensures
        flag_entries(res).dom() == Set::<Seq<char>>::empty(),
{
    DashMap::new()
}

/// `DashMap::insert`: afterwards the key has the value given, and every
/// other key what it had. The exclusive borrow rules out that a reference
/// into the map is held during the call.
#[verifier::external_body]
fn flags_insert(flags: &mut DashMap<String, String>, key: String, value: String)
    ensures
        flag_entries(*final(flags)) == flag_entries(*old(flags)).insert(key@, value@),
{
    flags.insert(key, value);
}

/// `DashMap::get`, with the value copied out: the value of the key, or
/// `None` where the map does not hold the key.
#[verifier::external_body]
fn flags_get(flags: &DashMap<String, String>, key: &str) -> (res: Option<String>)
    ensures
        res is Some <==> flag_entries(*flags).contains_key(key@),
        res matches Some(v) ==> v@ == flag_entries(*flags)[key@],
{
    flags.get(key).map(|entry| entry.value().clone())
}

/// `DashMap::new`: a map that holds nothing.
#[verifier::external_body]
fn lenses_new() -> (res: DashMap<String, Lens>)
    ensures
        lens_entries(res).dom() == Set::<Seq<char>>::empty(),
{
    DashMap::new()
}

/// `DashMap::insert`: afterwards the key has the lens given, and every other
/// key what it had.
#[verifier::external_body]
fn lenses_insert(lenses: &mut DashMap<String, Lens>, key: String, lens: Lens)
    ensures
        lens_entries(*final(lenses)) == lens_entries(*old(lenses)).insert(key@, lens@),
{
    lenses.insert(key, lens);
}

/// `DashMap::iter`, with each entry copied out: every key of the map once,
/// with its lens, in no order that could be named.
#[verifier::external_body]
fn lenses_list(lenses: &DashMap<String, Lens>) -> (res: Vec<(String, Lens)>)
    ensures
        lists_entries(res@, lens_entries(*lenses)),
{
    lenses.iter().map(|entry| (entry.key().clone(), entry.value().clone())).collect()
}

/// Whether `list` holds every entry of `entries` once, and nothing else.
pub open spec fn lists_entries(list: Seq<(String, Lens)>, entries: Map<Seq<char>, LensView>) -> bool {
    &&& forall|i: int|
        0 <= i < list.len() ==> entries.contains_key((#[trigger] list[i]).0@) && entries[list[i].0@]
            == list[i].1@
    &&& forall|i: int, j: int|
        0 <= i < j < list.len() ==> (#[trigger] list[i]).0@ != (#[trigger] list[j]).0@
    &&& forall|key: Seq<char>| #[trigger]
        entries.contains_key(key) ==> exists|i: int|
            0 <= i < list.len() && (#[trigger] list[i]).0@ == key
}

/// The state shared by the API and the crawler.
pub struct AppState {
    /// The task queue.
    pub db: TaskStore,
    /// Flags of the running application; `paused` is one of them.
    pub app_state: DashMap<String, String>,
    /// The lenses in use, by name.
    pub lenses: DashMap<String, Lens>,
    pub user_settings: UserSettings,
}

impl AppState {
    /// Whether the crawler is paused: whether the flag `paused` is there
    /// and reads `true`.
    pub open spec fn paused(&self) -> bool {
        flag_entries(self.app_state).contains_key("paused"@) && flag_entries(
            self.app_state,
        )["paused"@] == "true"@
    }

    /// The lenses in use, by name.
    pub open spec fn lens_registry(&self) -> Map<Seq<char>, LensView> {
        lens_entries(self.lenses)
    }

    /// The state at start-up: an empty queue, the lenses of the
    /// configuration, and one flag, `paused`, which reads `false` unless
    /// the settings ask for a paused start.
    pub fn new(config: &Config) -> (res: Self)
        ensures
            res.db@ == Seq::<TaskView>::empty(),
            flag_entries(res.app_state) == Map::<Seq<char>, Seq<char>>::empty().insert(
                "paused"@,
                flag_view(config.user_settings.pause_at_start),
            ),
            res.paused() == config.user_settings.pause_at_start,
            res.lens_registry() == lens_map(lens_views(config.lenses@)),
            res.user_settings@ == config.user_settings@,
    {
        let mut app_state = flags_new();
        assert(flag_entries(app_state) =~= Map::<Seq<char>, Seq<char>>::empty());
        let paused = flag_text(config.user_settings.pause_at_start);
        flags_insert(&mut app_state, "paused".to_string(), paused);
        let mut lenses = lenses_new();
        assert(lens_entries(lenses) =~= Map::<Seq<char>, LensView>::empty());
        let mut i: usize = 0;
        proof {
            assert(lens_views(config.lenses@).take(0) =~= Seq::<LensView>::empty());
        }
        while i < config.lenses.len()
            invariant
                i <= config.lenses.len(),
                lens_entries(lenses) == lens_map(lens_views(config.lenses@).take(i as int)),
            decreases config.lenses.len() - i,
        {
            let lens = &config.lenses[i];
            lenses_insert(&mut lenses, lens.name.clone(), lens.clone());
            proof {
                let all = lens_views(config.lenses@);
                assert(all.take(i + 1).drop_last() =~= all.take(i as int));
                assert(all.take(i + 1).last() == all[i as int]);
            }
            i += 1;
        }
        proof {
            let all = lens_views(config.lenses@);
            assert(all.take(i as int) =~= all);
        }
        AppState {
            db: TaskStore::new(),
            app_state,
            user_settings: config.user_settings.clone(),
            lenses,
        }
    }

    /// Whether the crawler is paused.
    pub fn is_paused(&self) -> (res: bool)
        ensures
            res == self.paused(),
    {
        match flags_get(&self.app_state, "paused") {
            Some(value) => same_text(value.as_str(), "true"),
            None => false,
        }
    }

    /// Pauses the crawler, or lets it run again. Nothing else changes.
    pub fn set_paused(&mut self, paused: bool)
        ensures
            final(self).paused() == paused,
            final(self).db == old(self).db,
            final(self).lenses == old(self).lenses,
            final(self).user_settings == old(self).user_settings,
            flag_entries(final(self).app_state) == flag_entries(old(self).app_state).insert(
                "paused"@,
                flag_view(paused),
            ),
    {
        flags_insert(&mut self.app_state, "paused".to_string(), flag_text(paused));
    }

    /// The lenses in use: each once, in no particular order.
    pub fn list_lenses(&self) -> (res: Vec<(String, Lens)>)
        ensures
            lists_entries(res@, self.lens_registry()),
    {
        lenses_list(&self.lenses)
    }
}

/// How a flag is written in the map of flags.
pub open spec fn flag_view(value: bool) -> Seq<char> {
    if value {
        "true"@
    } else {
        "false"@
    }
}

/// How a flag is written in the map of flags: `true` or `false`.
pub fn flag_text(value: bool) -> (res: String)
    ensures
        res@ == flag_view(value),
        (res@ == "true"@) == value,
{
    proof {
        reveal_strlit("true");
        reveal_strlit("false");
        assert("true"@.len() == 4);
        assert("false"@.len() == 5);
    }
    if value {
        "true".to_string()
    } else {
        "false".to_string()
    }
}

} // verus!
