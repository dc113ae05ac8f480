use vstd::prelude::*;
use crate::ordered_map::OrderedMap;
use crate::text::{strs, string_of, clone_strings, str_eq, join_path, path_join, concat, lowercase, to_lowercase, contains_seq, str_contains};

verus! {

/// One installed mod, as the lock file records it.
pub struct InstalledMod {
    pub name: String,
    pub version: String,
    pub source: String,
    pub filename: String,
    pub download_url: String,
    pub hash: Option<String>,
    pub is_explicit: bool,
    pub dependencies: Vec<String>,
    pub enabled: bool,
}

/// An installed mod as the contracts see it: its texts as character sequences.
pub struct ModView {
    pub name: Seq<char>,
    pub version: Seq<char>,
    pub source: Seq<char>,
    pub filename: Seq<char>,
    pub download_url: Seq<char>,
    pub hash: Option<Seq<char>>,
    pub is_explicit: bool,
    pub dependencies: Seq<Seq<char>>,
    pub enabled: bool,
}

/// The view of an optional string.
pub open spec fn opt_view(o: Option<String>) -> Option<Seq<char>> {
    match o {
        Some(s) => Some(s@),
        None => None,
    }
}

impl View for InstalledMod {
    type V = ModView;

    open spec fn view(&self) -> ModView {
        ModView {
            name: self.name@,
            version: self.version@,
            source: self.source@,
            filename: self.filename@,
            download_url: self.download_url@,
            hash: opt_view(self.hash),
            is_explicit: self.is_explicit,
            dependencies: strs(self.dependencies@),
            enabled: self.enabled,
        }
    }
}

/// A copy of an optional string.
pub fn clone_opt_string(o: &Option<String>) -> (r: Option<String>)
    ensures
        opt_view(r) == opt_view(*o),
{
    match o {
        Some(h) => Some(h.clone()),
        None => None,
    }
}

impl Clone for InstalledMod {
    fn clone(&self) -> (r: Self)
        ensures
            r@ == self@,
    {
        let hash = clone_opt_string(&self.hash);
        InstalledMod {
            name: self.name.clone(),
            version: self.version.clone(),
            source: self.source.clone(),
            filename: self.filename.clone(),
            download_url: self.download_url.clone(),
            hash,
            is_explicit: self.is_explicit,
            dependencies: clone_strings(&self.dependencies),
            enabled: self.enabled,
        }
    }
}

/// The settings and profiles that `kmgr.toml` holds.
pub struct Config {
    pub default_mc_version: String,
    pub mod_loader: String,
    pub mods_folder: String,
    pub profiles: OrderedMap<Vec<String>>,
    pub active_profile: String,
}

/// The whole state of a mod manager workspace: settings, profiles and installed mods.
pub struct KmgrState {
    pub default_mc_version: String,
    pub mod_loader: String,
    pub mods_folder: String,
    pub installed_mods: OrderedMap<InstalledMod>,
    pub profiles: OrderedMap<Vec<String>>,
    pub active_profile: String,
}

/// Why a command cannot run on the workspace as it stands.
#[derive(Debug)]
pub enum StateError {
    /// No Minecraft version is configured.
    McVersionNotConfigured,
    /// No mod loader is configured.
    ModLoaderNotConfigured,
    /// A mod id that the installed list lacks.
    ModNotInstalled(String),
}

/// The message shown for a workspace that a command cannot run on.
pub open spec fn state_message(e: StateError) -> Seq<char> {
    match e {
        StateError::McVersionNotConfigured => "Minecraft version is not configured. Run `kmgr setup` or `kmgr init` first."@,
        StateError::ModLoaderNotConfigured => "Mod loader is not configured. Run `kmgr setup` or `kmgr init` first."@,
        StateError::ModNotInstalled(id) => "Corrupted state: Mod ID '"@ + id@ + "' not found in installed list"@,
    }
}

impl StateError {
    /// The message shown to the user.
    pub fn message(&self) -> (r: String)
        ensures
            r@ == state_message(*self),
    {
        match self {
            StateError::McVersionNotConfigured => string_of(
                "Minecraft version is not configured. Run `kmgr setup` or `kmgr init` first.",
            ),
            StateError::ModLoaderNotConfigured => string_of(
                "Mod loader is not configured. Run `kmgr setup` or `kmgr init` first.",
            ),
            StateError::ModNotInstalled(id) => concat(
                concat("Corrupted state: Mod ID '", id.as_str()).as_str(),
                "' not found in installed list",
            ),
        }
    }
}

/// The Minecraft version of a fresh workspace: none.
pub fn default_mc_version_str() -> (r: String)
    ensures
        r@ == Seq::<char>::empty(),
{
    String::new()
}

/// The mod loader of a fresh workspace: none.
pub fn default_mod_loader_str() -> (r: String)
    ensures
        r@ == Seq::<char>::empty(),
{
    String::new()
}

/// The mods folder of a fresh workspace: "mods".
pub fn default_mods_folder_str() -> (r: String)
    ensures
        r@ == "mods"@,
{
    string_of("mods")
}

/// The value that a missing `is_explicit` or `enabled` field of the lock file takes.
pub fn default_true() -> (r: bool)
    ensures
        r,
{
    true
}

/// The profiles of a fresh workspace: "default", holding no mods.
pub fn default_profiles() -> (r: OrderedMap<Vec<String>>)
    ensures
        r.wf(),
        r.map().dom() == set!["default"@],
        r.map()["default"@]@.len() == 0,
{
    let mut m: OrderedMap<Vec<String>> = OrderedMap::new();
    m.insert(string_of("default"), Vec::new());
    proof {
        assert(m.map().dom() =~= set!["default"@]);
    }
    m
}

/// The active profile of a fresh workspace: "default".
pub fn default_active_profile() -> (r: String)
    ensures
        r@ == "default"@,
{
    string_of("default")
}

/// The path of a mod file in `folder`: `folder` joined with `filename`, with
/// `.disabled` after it when the mod is disabled.
pub open spec fn mod_path(folder: Seq<char>, filename: Seq<char>, enabled: bool) -> Seq<char> {
    if enabled {
        path_join(folder, filename)
    } else {
        path_join(folder, filename) + ".disabled"@
    }
}

impl Default for Config {
    fn default() -> (r: Self)
        ensures
            r.default_mc_version@ == Seq::<char>::empty(),
            r.mod_loader@ == Seq::<char>::empty(),
            r.mods_folder@ == "mods"@,
            r.profiles.wf(),
            r.profiles.map().dom() == set!["default"@],
            r.profiles.map()["default"@]@.len() == 0,
            r.active_profile@ == "default"@,
    {
        Config {
            default_mc_version: default_mc_version_str(),
            mod_loader: default_mod_loader_str(),
            mods_folder: default_mods_folder_str(),
            profiles: default_profiles(),
            active_profile: default_active_profile(),
        }
    }
}

impl Default for KmgrState {
    fn default() -> (r: Self)
        ensures
            r.wf(),
            r.default_mc_version@ == Seq::<char>::empty(),
            r.mod_loader@ == Seq::<char>::empty(),
            r.mods_folder@ == "mods"@,
            r.installed_mods.map() == Map::<Seq<char>, InstalledMod>::empty(),
            r.profiles.map().dom() == set!["default"@],
            r.profiles.map()["default"@]@.len() == 0,
            r.active_profile@ == "default"@,
    {
        KmgrState {
            default_mc_version: default_mc_version_str(),
            mod_loader: default_mod_loader_str(),
            mods_folder: default_mods_folder_str(),
            installed_mods: OrderedMap::new(),
            profiles: default_profiles(),
            active_profile: default_active_profile(),
        }
    }
}

/// The least score that a fuzzy lookup accepts: a similarity of 0.5 scaled by 2^53.
pub const FUZZY_THRESHOLD: u64 = 4503599627370496;

/// Profiles as the contracts see them: each name with the ids it lists.
pub open spec fn view_profiles(m: Map<Seq<char>, Vec<String>>) -> Map<Seq<char>, Seq<Seq<char>>> {
    m.map_values(|v: Vec<String>| strs(v@))
}

/// The ids of the explicitly installed mods among the first `n` entries, in id order.
pub open spec fn explicit_ids(ks: Seq<Seq<char>>, vs: Seq<InstalledMod>, n: int) -> Seq<Seq<char>>
    decreases n,
{
    if n <= 0 {
        Seq::empty()
    } else {
        let r = explicit_ids(ks, vs, n - 1);
        if vs[n - 1].is_explicit {
            r.push(ks[n - 1])
        } else {
            r
        }
    }
}

/// The profiles that loading gives: the active profile is added, empty, if it is
/// missing; and when "default" is active and is the only profile, and it is empty
/// while mods are installed, it is filled with the explicitly installed mods.
pub open spec fn loaded_profiles(
    p: Map<Seq<char>, Seq<Seq<char>>>,
    active: Seq<char>,
    installed: OrderedMap<InstalledMod>,
) -> Map<Seq<char>, Seq<Seq<char>>> {
    let p1 = if p.contains_key(active) {
        p
    } else {
        p.insert(active, Seq::empty())
    };
    if p1.dom() == set![active] && active == "default"@ && p1[active].len() == 0
        && installed.spec_len() > 0 {
        p1.insert(active, explicit_ids(installed.key_seq(), installed.val_seq(), installed.spec_len() as int))
    } else {
        p1
    }
}

/// The ids of the explicitly installed mods, in id order.
pub fn explicit_mod_ids(installed: &OrderedMap<InstalledMod>) -> (r: Vec<String>)
    requires
        installed.wf(),
    ensures
        strs(r@) == explicit_ids(installed.key_seq(), installed.val_seq(), installed.spec_len() as int),
{
    let n = installed.len();
    let mut r: Vec<String> = Vec::new();
    let mut i: usize = 0;
    while i < n
        invariant
            installed.wf(),
            n == installed.spec_len(),
            i <= n,
            strs(r@) == explicit_ids(installed.key_seq(), installed.val_seq(), i as int),
        decreases n - i,
    {
        if installed.value_at(i).is_explicit {
            r.push(installed.key_at(i).clone());
            assert(strs(r@) =~= explicit_ids(installed.key_seq(), installed.val_seq(), i as int).push(installed.key_seq()[i as int]));
        }
        i = i + 1;
    }
    r
}

/// A map holding exactly one key.
proof fn lemma_single_key<T>(m: OrderedMap<T>, k: Seq<char>)
    requires
        m.wf(),
        m.map().contains_key(k),
    ensures
        (m.spec_len() == 1) == (m.map().dom() == set![k]),
{
    let p = m.pos(k);
    m.lemma_pos(p);
    if m.spec_len() == 1 {
        assert forall|x: Seq<char>| m.map().dom().contains(x) <==> set![k].contains(x) by {
            if m.map().contains_key(x) {
                let q = m.pos(x);
                m.lemma_pos(q);
            }
        }
        assert(m.map().dom() =~= set![k]);
    } else {
        let other: int = if p == 0 { 1 } else { 0 };
        m.lemma_pos(other);
        crate::ordered_map::lemma_sorted_index_unique(m.key_seq(), p, p);
        if m.key_seq()[other] == k {
            crate::ordered_map::lemma_sorted_index_unique(m.key_seq(), p, other);
        }
        assert(m.map().dom().contains(m.key_seq()[other]));
        assert(!set![k].contains(m.key_seq()[other]));
    }
}

impl KmgrState {
    pub open spec fn wf(&self) -> bool {
        &&& self.installed_mods.wf()
        &&& self.profiles.wf()
    }

    /// The installed mods, by id.
    pub open spec fn mods(&self) -> Map<Seq<char>, ModView> {
        self.installed_mods.map().map_values(|m: InstalledMod| m@)
    }

    /// The profiles, by name.
    pub open spec fn profile_map(&self) -> Map<Seq<char>, Seq<Seq<char>>> {
        view_profiles(self.profiles.map())
    }

    /// The state that loading gives for a configuration and the installed mods of the lock file.
    pub fn from_loaded(config: Config, installed_mods: OrderedMap<InstalledMod>) -> (r: Self)
        requires
            config.profiles.wf(),
            installed_mods.wf(),
        ensures
            r.wf(),
            r.default_mc_version == config.default_mc_version,
            r.mod_loader == config.mod_loader,
            r.mods_folder == config.mods_folder,
            r.active_profile == config.active_profile,
            r.installed_mods == installed_mods,
            r.profile_map() == loaded_profiles(view_profiles(config.profiles.map()), config.active_profile@, installed_mods),
    {
        let ghost p0 = view_profiles(config.profiles.map());
        let mut profiles = config.profiles;
        let active = config.active_profile;
        if !profiles.contains_key(active.as_str()) {
            let empty: Vec<String> = Vec::new();
            proof {
                assert(strs(empty@) =~= Seq::<Seq<char>>::empty());
            }
            profiles.insert(active.clone(), empty);
            proof {
                assert(view_profiles(profiles.map()) =~= p0.insert(active@, Seq::empty()));
            }
        }
        let ghost p1 = view_profiles(profiles.map());
        proof {
            lemma_single_key(profiles, active@);
            assert(p1.dom() == profiles.map().dom());
        }
        if profiles.len() == 1 && str_eq(active.as_str(), "default") {
            let pos = profiles.find(active.as_str());
            match pos {
                Some(i) => {
                    proof {
                        profiles.lemma_pos(i as int);
                        assert(p1[active@] == strs(profiles.val_seq()[i as int]@));
                        assert(p1.dom() == profiles.map().dom());
                    }
                    if profiles.value_at(i).len() == 0 && !installed_mods.is_empty() {
                        let ids = explicit_mod_ids(&installed_mods);
                        profiles.set_value_at(i, ids);
                        proof {
                            assert(view_profiles(profiles.map()) =~= p1.insert(active@, strs(ids@)));
                        }
                    }
                },
                None => {},
            }
        }
        KmgrState {
            default_mc_version: config.default_mc_version,
            mod_loader: config.mod_loader,
            mods_folder: config.mods_folder,
            installed_mods,
            profiles,
            active_profile: active,
        }
    }

    /// Whether the mod at position `i` of the installed list answers to `name`,
    /// by its id or by its display name.
    pub open spec fn answers_to(&self, i: int, name: Seq<char>) -> bool {
        self.installed_mods.key_seq()[i] == name || self.installed_mods.val_seq()[i].name@ == name
    }

    /// Sets whether the installed mod `id` is enabled; gives back whether it is installed.
    pub fn set_mod_enabled(&mut self, id: &str, enabled: bool) -> (found: bool)
        requires
            old(self).wf(),
        ensures
            final(self).wf(),
            found == old(self).mods().contains_key(id@),
            found ==> final(self).mods() == old(self).mods().insert(id@, ModView { enabled, ..old(self).mods()[id@] }),
            !found ==> final(self).mods() == old(self).mods(),
            final(self).profiles == old(self).profiles,
            final(self).active_profile == old(self).active_profile,
            final(self).mods_folder == old(self).mods_folder,
            final(self).default_mc_version == old(self).default_mc_version,
            final(self).mod_loader == old(self).mod_loader,
    {
        match self.installed_mods.find(id) {
            None => false,
            Some(i) => {
                let ghost old_mods = self.mods();
                proof {
                    self.installed_mods.lemma_pos(i as int);
                }
                let mut m = self.installed_mods.value_at(i).clone();
                m.enabled = enabled;
                self.installed_mods.set_value_at(i, m);
                proof {
                    assert(self.mods() =~= old_mods.insert(id@, ModView { enabled, ..old_mods[id@] }));
                }
                true
            },
        }
    }

    /// Fails unless a Minecraft version and a mod loader are configured.
    pub fn check_initialized(&self) -> (r: Result<(), StateError>)
        ensures
            self.default_mc_version@.len() == 0 ==> r matches Err(StateError::McVersionNotConfigured),
            self.default_mc_version@.len() != 0 && self.mod_loader@.len() == 0 ==> r matches Err(StateError::ModLoaderNotConfigured),
            self.default_mc_version@.len() != 0 && self.mod_loader@.len() != 0 ==> r is Ok,
    {
        if self.default_mc_version.as_str().is_empty() {
            return Err(StateError::McVersionNotConfigured);
        }
        if self.mod_loader.as_str().is_empty() {
            return Err(StateError::ModLoaderNotConfigured);
        }
        Ok(())
    }

    /// The id of the first installed mod, in id order, whose id or name is `mod_name`.
    pub fn find_mod_id(&self, mod_name: &str) -> (r: Option<String>)
        requires
            self.wf(),
        ensures
            r matches Some(id) ==> exists|i: int|
                0 <= i < self.installed_mods.spec_len() && #[trigger] self.answers_to(i, mod_name@)
                && id@ == self.installed_mods.key_seq()[i]
                && forall|j: int| 0 <= j < i ==> !self.answers_to(j, mod_name@),
            r is None ==> forall|i: int| 0 <= i < self.installed_mods.spec_len() ==> !#[trigger] self.answers_to(i, mod_name@),
    {
        let n = self.installed_mods.len();
        let mut i: usize = 0;
        while i < n
            invariant
                self.wf(),
                n == self.installed_mods.spec_len(),
                i <= n,
                forall|j: int| 0 <= j < i ==> !#[trigger] self.answers_to(j, mod_name@),
            decreases n - i,
        {
            let id = self.installed_mods.key_at(i);
            let m = self.installed_mods.value_at(i);
            if str_eq(id.as_str(), mod_name) || str_eq(m.name.as_str(), mod_name) {
                assert(self.answers_to(i as int, mod_name@));
                return Some(id.clone());
            }
            i = i + 1;
        }
        None
    }

    /// Whether the mod at position `i` answers to `q` once both are lowercased.
    pub open spec fn answers_to_lowercase(&self, i: int, q: Seq<char>) -> bool {
        lowercase(self.installed_mods.key_seq()[i]) == q
            || lowercase(self.installed_mods.val_seq()[i].name@) == q
    }

    /// Whether the lowercased name or id of the mod at position `i` holds the
    /// lowercased query `q`.
    pub open spec fn holds_query(&self, i: int, q: Seq<char>) -> bool {
        contains_seq(lowercase(self.installed_mods.val_seq()[i].name@), q)
            || contains_seq(lowercase(self.installed_mods.key_seq()[i]), q)
    }

    /// Whether position `i` is the best candidate by similarity: it scores at
    /// least the threshold, no mod scores more, and none before it scores as much.
    pub open spec fn best_fuzzy(&self, i: int, similarity: Seq<u64>) -> bool {
        &&& 0 <= i < self.installed_mods.spec_len()
        &&& similarity[i] >= FUZZY_THRESHOLD
        &&& forall|j: int| 0 <= j < self.installed_mods.spec_len() ==> #[trigger] similarity[j] <= similarity[i]
        &&& forall|j: int| 0 <= j < i ==> #[trigger] similarity[j] < similarity[i]
    }

    /// Which position a fuzzy lookup picks, in order of preference: the first
    /// exact match by id or name; else the first match once lowercased; else the
    /// first mod whose lowercased name or id holds the lowercased query; else the
    /// best candidate by similarity.
    pub open spec fn fuzzy_pick(&self, i: int, query: Seq<char>, similarity: Seq<u64>) -> bool {
        let n = self.installed_mods.spec_len();
        let q = lowercase(query);
        ||| (0 <= i < n && self.answers_to(i, query) && forall|j: int| 0 <= j < i ==> !#[trigger] self.answers_to(j, query))
        ||| ((forall|j: int| 0 <= j < n ==> !#[trigger] self.answers_to(j, query))
            && 0 <= i < n && self.answers_to_lowercase(i, q)
            && forall|j: int| 0 <= j < i ==> !#[trigger] self.answers_to_lowercase(j, q))
        ||| ((forall|j: int| 0 <= j < n ==> !#[trigger] self.answers_to(j, query))
            && (forall|j: int| 0 <= j < n ==> !#[trigger] self.answers_to_lowercase(j, q))
            && 0 <= i < n && self.holds_query(i, q)
            && forall|j: int| 0 <= j < i ==> !#[trigger] self.holds_query(j, q))
        ||| ((forall|j: int| 0 <= j < n ==> !#[trigger] self.answers_to(j, query))
            && (forall|j: int| 0 <= j < n ==> !#[trigger] self.answers_to_lowercase(j, q))
            && (forall|j: int| 0 <= j < n ==> !#[trigger] self.holds_query(j, q))
            && self.best_fuzzy(i, similarity))
    }

    /// Fuzzy lookup of an installed mod: gives `(id, name)` of the mod picked, in
    /// order of preference an exact match of id or name, a case-insensitive match,
    /// a mod whose lowercased name or id holds the lowercased query, or the mod
    /// with the highest similarity at or above the threshold (the first on a tie).
    /// `similarity` holds, for each mod in id order, its best Jaro-Winkler
    /// similarity to the query (name or id), scaled by 2^53.
    pub fn find_mod_id_fuzzy(&self, query: &str, similarity: &Vec<u64>) -> (r: Option<(String, String)>)
        requires
            self.wf(),
            similarity@.len() == self.installed_mods.spec_len(),
        ensures
            r matches Some(p) ==> exists|i: int| #[trigger] self.fuzzy_pick(i, query@, similarity@)
                && p.0@ == self.installed_mods.key_seq()[i]
                && p.1@ == self.installed_mods.val_seq()[i].name@,
            r is None ==> forall|i: int| !#[trigger] self.fuzzy_pick(i, query@, similarity@),
    {
        let n = self.installed_mods.len();
        let ghost q = lowercase(query@);
        let mut i: usize = 0;
        while i < n
            invariant
                self.wf(),
                n == self.installed_mods.spec_len(),
                i <= n,
                forall|j: int| 0 <= j < i ==> !#[trigger] self.answers_to(j, query@),
            decreases n - i,
        {
            let id = self.installed_mods.key_at(i);
            let m = self.installed_mods.value_at(i);
            if str_eq(id.as_str(), query) || str_eq(m.name.as_str(), query) {
                assert(self.fuzzy_pick(i as int, query@, similarity@));
                return Some((id.clone(), m.name.clone()));
            }
            i = i + 1;
        }
        let ql = to_lowercase(query);
        i = 0;
        while i < n
            invariant
                self.wf(),
                n == self.installed_mods.spec_len(),
                i <= n,
                ql@ == q,
                q == lowercase(query@),
                forall|j: int| 0 <= j < n ==> !#[trigger] self.answers_to(j, query@),
                forall|j: int| 0 <= j < i ==> !#[trigger] self.answers_to_lowercase(j, q),
            decreases n - i,
        {
            let id = self.installed_mods.key_at(i);
            let m = self.installed_mods.value_at(i);
            let id_lc = to_lowercase(id.as_str());
            let name_lc = to_lowercase(m.name.as_str());
            if str_eq(id_lc.as_str(), ql.as_str()) || str_eq(name_lc.as_str(), ql.as_str()) {
                assert(self.answers_to_lowercase(i as int, q));
                assert(self.fuzzy_pick(i as int, query@, similarity@));
                return Some((id.clone(), m.name.clone()));
            }
            i = i + 1;
        }
        i = 0;
        while i < n
            invariant
                self.wf(),
                n == self.installed_mods.spec_len(),
                i <= n,
                ql@ == q,
                q == lowercase(query@),
                forall|j: int| 0 <= j < n ==> !#[trigger] self.answers_to(j, query@),
                forall|j: int| 0 <= j < n ==> !#[trigger] self.answers_to_lowercase(j, q),
                forall|j: int| 0 <= j < i ==> !#[trigger] self.holds_query(j, q),
            decreases n - i,
        {
            let id = self.installed_mods.key_at(i);
            let m = self.installed_mods.value_at(i);
            let name_lc = to_lowercase(m.name.as_str());
            let id_lc = to_lowercase(id.as_str());
            if str_contains(name_lc.as_str(), ql.as_str()) || str_contains(id_lc.as_str(), ql.as_str()) {
                assert(self.holds_query(i as int, q));
                assert(self.fuzzy_pick(i as int, query@, similarity@));
                return Some((id.clone(), m.name.clone()));
            }
            i = i + 1;
        }
        let mut best: Option<usize> = None;
        let mut best_score: u64 = 0;
        i = 0;
        while i < n
            invariant
                self.wf(),
                n == self.installed_mods.spec_len(),
                similarity@.len() == n,
                i <= n,
                best matches Some(b) ==> b < i && best_score == similarity@[b as int]
                    && best_score >= FUZZY_THRESHOLD
                    && (forall|j: int| 0 <= j < b ==> #[trigger] similarity@[j] < best_score),
                best matches Some(b) ==> forall|j: int| 0 <= j < i ==> #[trigger] similarity@[j] <= best_score,
                best is None ==> forall|j: int| 0 <= j < i ==> #[trigger] similarity@[j] < FUZZY_THRESHOLD,
            decreases n - i,
        {
            let score = similarity[i];
            if score >= FUZZY_THRESHOLD {
                let better = match best {
                    None => true,
                    Some(_) => score > best_score,
                };
                if better {
                    best = Some(i);
                    best_score = score;
                }
            }
            i = i + 1;
        }
        match best {
            Some(b) => {
                assert(self.best_fuzzy(b as int, similarity@));
                assert(self.fuzzy_pick(b as int, query@, similarity@));
                Some((self.installed_mods.key_at(b).clone(), self.installed_mods.value_at(b).name.clone()))
            },
            None => {
                assert forall|k: int| !#[trigger] self.fuzzy_pick(k, query@, similarity@) by {
                    if 0 <= k < n {
                        assert(similarity@[k] < FUZZY_THRESHOLD);
                    }
                }
                None
            },
        }
    }

    /// The path of a mod file in the mods folder; with `.disabled` appended when
    /// `enabled` is false.
    pub fn get_mod_path(&self, filename: &str, enabled: bool) -> (r: String)
        ensures
            r@ == mod_path(self.mods_folder@, filename@, enabled),
    {
        let dest = join_path(self.mods_folder.as_str(), filename);
        if enabled {
            dest
        } else {
            concat(dest.as_str(), ".disabled")
        }
    }
}

} // verus!
