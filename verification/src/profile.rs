use vstd::prelude::*;
use crate::closure::{dependency_closure, reachable, mod_views};
use crate::manage::{without, retain_other};
use crate::state::{KmgrState, ModView, InstalledMod};
use crate::text::{strs, str_eq, string_of, contains_str, clone_strings};

verus! {

broadcast use vstd::seq_lib::lemma_seq_contains_after_push;

/// What creating a profile did.
#[derive(Debug, PartialEq, Eq, Structural)]
pub enum CreateOutcome {
    /// A profile of that name exists; nothing changed.
    AlreadyExists,
    /// The profile was created, empty.
    Created,
}

/// What adding a mod to the active profile did.
#[derive(Debug, PartialEq, Eq, Structural)]
pub enum AddOutcome {
    /// No installed mod answers to the name; nothing changed.
    NotInstalled,
    /// The active profile does not exist; nothing changed.
    NoActiveProfile,
    /// The active profile lists the mod already; nothing changed.
    AlreadyInProfile,
    /// The mod was added at the end of the active profile.
    Added,
}

/// What removing a mod from the active profile did.
#[derive(Debug, PartialEq, Eq, Structural)]
pub enum RemoveOutcome {
    /// No installed mod answers to the name; nothing changed.
    NotInstalled,
    /// The active profile does not exist; nothing changed.
    NoActiveProfile,
    /// The active profile does not list the mod; nothing changed.
    NotInProfile,
    /// The mod was taken out of the active profile.
    Removed,
}

/// What deleting a profile did.
#[derive(Debug, PartialEq, Eq, Structural)]
pub enum DeleteOutcome {
    /// The default profile cannot be deleted; nothing changed.
    IsDefault,
    /// No profile has that name; nothing changed.
    NotFound,
    /// The active profile cannot be deleted; nothing changed.
    IsActive,
    /// The profile was deleted.
    Deleted,
}

/// What renaming a profile did.
#[derive(Debug, PartialEq, Eq, Structural)]
pub enum RenameOutcome {
    /// The default profile cannot be renamed; nothing changed.
    IsDefault,
    /// No profile has the old name; nothing changed.
    NotFound,
    /// A profile has the new name already; nothing changed.
    TargetExists,
    /// The profile was renamed (and stays active if it was).
    Renamed,
}

/// Why a profile cannot be switched to.
#[derive(Debug)]
pub enum ProfileError {
    /// No profile has that name.
    NotFound(String),
}

/// The mods whose files a switch of profile renames: those to enable and those to
/// disable, each in id order.
pub struct SwitchPlan {
    pub to_enable: Vec<String>,
    pub to_disable: Vec<String>,
}

/// The installed mods among the first `n` whose `enabled` flag differs from
/// `want` but whose reachability equals `want`, in id order.
pub open spec fn ids_to_flip(ks: Seq<Seq<char>>, vs: Seq<ModView>, reach: Set<Seq<char>>, want: bool, n: int) -> Seq<Seq<char>>
    decreases n,
{
    if n <= 0 {
        Seq::empty()
    } else {
        let r = ids_to_flip(ks, vs, reach, want, n - 1);
        if reach.contains(ks[n - 1]) == want && vs[n - 1].enabled != want {
            r.push(ks[n - 1])
        } else {
            r
        }
    }
}

/// `m` with the `enabled` flag of each installed id of `ids` that `failed` does not hold set to `flag`.
pub open spec fn with_enabled(m: Map<Seq<char>, ModView>, ids: Seq<Seq<char>>, failed: Seq<Seq<char>>, flag: bool) -> Map<Seq<char>, ModView>
    decreases ids.len(),
{
    if ids.len() == 0 {
        m
    } else {
        let m2 = with_enabled(m, ids.drop_last(), failed, flag);
        let x = ids.last();
        if failed.contains(x) || !m2.contains_key(x) {
            m2
        } else {
            m2.insert(x, ModView { enabled: flag, ..m2[x] })
        }
    }
}

pub proof fn lemma_with_enabled(m: Map<Seq<char>, ModView>, ids: Seq<Seq<char>>, failed: Seq<Seq<char>>, flag: bool, k: Seq<char>)
    ensures
        with_enabled(m, ids, failed, flag).dom() == m.dom(),
        m.contains_key(k) ==> with_enabled(m, ids, failed, flag)[k] == (if ids.contains(k) && !failed.contains(k) {
            ModView { enabled: flag, ..m[k] }
        } else {
            m[k]
        }),
    decreases ids.len(),
{
    if ids.len() > 0 {
        lemma_with_enabled(m, ids.drop_last(), failed, flag, k);
        let m2 = with_enabled(m, ids.drop_last(), failed, flag);
        let x = ids.last();
        if !(failed.contains(x) || !m2.contains_key(x)) {
            assert(m2.insert(x, ModView { enabled: flag, ..m2[x] }).dom() =~= m2.dom());
        }
        if ids.contains(k) && !ids.drop_last().contains(k) {
            let j = choose|j: int| 0 <= j < ids.len() && ids[j] == k;
            if j < ids.len() - 1 {
                assert(ids.drop_last()[j] == k);
            }
        }
        if ids.drop_last().contains(k) {
            let j = choose|j: int| 0 <= j < ids.drop_last().len() && ids.drop_last()[j] == k;
            assert(ids[j] == k);
        }
    }
}

proof fn lemma_ids_to_flip_contains(ks: Seq<Seq<char>>, vs: Seq<ModView>, reach: Set<Seq<char>>, want: bool, n: int, x: Seq<char>)
    requires
        0 <= n <= ks.len(),
        n <= vs.len(),
    ensures
        ids_to_flip(ks, vs, reach, want, n).contains(x) <==> exists|p: int| 0 <= p < n && ks[p] == x
            && reach.contains(ks[p]) == want && vs[p].enabled != want,
    decreases n,
{
    if n > 0 {
        lemma_ids_to_flip_contains(ks, vs, reach, want, n - 1, x);
        if exists|p: int| 0 <= p < n && ks[p] == x && reach.contains(ks[p]) == want && vs[p].enabled != want {
            let p = choose|p: int| 0 <= p < n && ks[p] == x && reach.contains(ks[p]) == want && vs[p].enabled != want;
            if p < n - 1 {
                assert(exists|q: int| 0 <= q < n - 1 && ks[q] == x && reach.contains(ks[q]) == want && vs[q].enabled != want);
            }
        }
        if ids_to_flip(ks, vs, reach, want, n - 1).contains(x) {
            let p = choose|p: int| 0 <= p < n - 1 && ks[p] == x && reach.contains(ks[p]) == want && vs[p].enabled != want;
            assert(0 <= p < n);
        }
        if reach.contains(ks[n - 1]) == want && vs[n - 1].enabled != want && x == ks[n - 1] {
            assert(0 <= n - 1 < n);
        }
    }
}

impl KmgrState {
    /// Whether position `i` is the first installed mod answering to `name`, as
    /// `find_mod_id` picks it.
    pub open spec fn first_answering(&self, i: int, name: Seq<char>) -> bool {
        &&& 0 <= i < self.installed_mods.spec_len()
        &&& self.answers_to(i, name)
        &&& forall|j: int| 0 <= j < i ==> !#[trigger] self.answers_to(j, name)
    }

    /// Whether no installed mod answers to `name`.
    pub open spec fn none_answering(&self, name: Seq<char>) -> bool {
        forall|i: int| 0 <= i < self.installed_mods.spec_len() ==> !#[trigger] self.answers_to(i, name)
    }

    /// Whether only the profiles may have changed.
    pub open spec fn same_but_profiles(&self, other: &KmgrState) -> bool {
        &&& self.installed_mods == other.installed_mods
        &&& self.active_profile == other.active_profile
        &&& self.mods_folder == other.mods_folder
        &&& self.default_mc_version == other.default_mc_version
        &&& self.mod_loader == other.mod_loader
    }

    /// Creates an empty profile `name`, unless one exists.
    pub fn create_profile(&mut self, name: &str) -> (r: CreateOutcome)
        requires
            old(self).wf(),
        ensures
            final(self).wf(),
            final(self).same_but_profiles(old(self)),
            old(self).profile_map().contains_key(name@) ==> r == CreateOutcome::AlreadyExists && final(self).profile_map() == old(self).profile_map(),
            !old(self).profile_map().contains_key(name@) ==> r == CreateOutcome::Created
                && final(self).profile_map() == old(self).profile_map().insert(name@, Seq::empty()),
    {
        if self.profiles.contains_key(name) {
            return CreateOutcome::AlreadyExists;
        }
        let ghost p0 = self.profile_map();
        let empty: Vec<String> = Vec::new();
        proof {
            assert(strs(empty@) =~= Seq::<Seq<char>>::empty());
        }
        self.profiles.insert(string_of(name), empty);
        proof {
            assert(self.profile_map() =~= p0.insert(name@, Seq::empty()));
        }
        CreateOutcome::Created
    }

    /// Adds the installed mod that `mod_name` names (as `find_mod_id` finds it) at
    /// the end of the active profile, unless the profile lists it already.
    pub fn add_to_active_profile(&mut self, mod_name: &str) -> (r: AddOutcome)
        requires
            old(self).wf(),
        ensures
            final(self).wf(),
            final(self).same_but_profiles(old(self)),
            r != AddOutcome::Added ==> final(self).profile_map() == old(self).profile_map(),
            r == AddOutcome::NotInstalled <==> old(self).none_answering(mod_name@),
            r == AddOutcome::NoActiveProfile <==> !old(self).none_answering(mod_name@)
                && !old(self).profile_map().contains_key(old(self).active_profile@),
            r == AddOutcome::AlreadyInProfile || r == AddOutcome::Added ==> exists|i: int| #[trigger] old(self).first_answering(i, mod_name@) && {
                let id = old(self).installed_mods.key_seq()[i];
                let act = old(self).active_profile@;
                &&& old(self).profile_map().contains_key(act)
                &&& (r == AddOutcome::AlreadyInProfile) == old(self).profile_map()[act].contains(id)
                &&& r == AddOutcome::Added ==> final(self).profile_map() == old(self).profile_map().insert(act, old(self).profile_map()[act].push(id))
            },
    {
        let found = self.find_mod_id(mod_name);
        match found {
            None => AddOutcome::NotInstalled,
            Some(id) => {
                let ghost i0 = choose|i: int| 0 <= i < self.installed_mods.spec_len() && #[trigger] self.answers_to(i, mod_name@)
                    && id@ == self.installed_mods.key_seq()[i]
                    && forall|j: int| 0 <= j < i ==> !self.answers_to(j, mod_name@);
                proof {
                    assert(self.first_answering(i0, mod_name@));
                }
                match self.profiles.find(self.active_profile.as_str()) {
                    None => AddOutcome::NoActiveProfile,
                    Some(i) => {
                        proof {
                            self.profiles.lemma_pos(i as int);
                            assert(self.profile_map()[self.active_profile@] == strs(self.profiles.val_seq()[i as int]@));
                        }
                        if contains_str(self.profiles.value_at(i), id.as_str()) {
                            AddOutcome::AlreadyInProfile
                        } else {
                            let ghost p0 = self.profile_map();
                            let mut members = clone_strings(self.profiles.value_at(i));
                            members.push(id);
                            proof {
                                assert(strs(members@) =~= p0[self.active_profile@].push(id@));
                            }
                            self.profiles.set_value_at(i, members);
                            proof {
                                assert(self.profile_map() =~= p0.insert(self.active_profile@, p0[self.active_profile@].push(id@)));
                            }
                            AddOutcome::Added
                        }
                    },
                }
            },
        }
    }

    /// Takes the installed mod that `mod_name` names (as `find_mod_id` finds it)
    /// out of the active profile, every time it occurs there.
    pub fn remove_from_active_profile(&mut self, mod_name: &str) -> (r: RemoveOutcome)
        requires
            old(self).wf(),
        ensures
            final(self).wf(),
            final(self).same_but_profiles(old(self)),
            r != RemoveOutcome::Removed ==> final(self).profile_map() == old(self).profile_map(),
            r == RemoveOutcome::NotInstalled <==> old(self).none_answering(mod_name@),
            r == RemoveOutcome::NoActiveProfile <==> !old(self).none_answering(mod_name@)
                && !old(self).profile_map().contains_key(old(self).active_profile@),
            r == RemoveOutcome::NotInProfile || r == RemoveOutcome::Removed ==> exists|i: int| #[trigger] old(self).first_answering(i, mod_name@) && {
                let id = old(self).installed_mods.key_seq()[i];
                let act = old(self).active_profile@;
                &&& old(self).profile_map().contains_key(act)
                &&& (r == RemoveOutcome::Removed) == old(self).profile_map()[act].contains(id)
                &&& r == RemoveOutcome::Removed ==> final(self).profile_map() == old(self).profile_map().insert(act, without(old(self).profile_map()[act], id))
            },
    {
        let found = self.find_mod_id(mod_name);
        match found {
            None => RemoveOutcome::NotInstalled,
            Some(id) => {
                let ghost i0 = choose|i: int| 0 <= i < self.installed_mods.spec_len() && #[trigger] self.answers_to(i, mod_name@)
                    && id@ == self.installed_mods.key_seq()[i]
                    && forall|j: int| 0 <= j < i ==> !self.answers_to(j, mod_name@);
                proof {
                    assert(self.first_answering(i0, mod_name@));
                }
                match self.profiles.find(self.active_profile.as_str()) {
                    None => RemoveOutcome::NoActiveProfile,
                    Some(i) => {
                        proof {
                            self.profiles.lemma_pos(i as int);
                            assert(self.profile_map()[self.active_profile@] == strs(self.profiles.val_seq()[i as int]@));
                        }
                        if !contains_str(self.profiles.value_at(i), id.as_str()) {
                            RemoveOutcome::NotInProfile
                        } else {
                            let ghost p0 = self.profile_map();
                            let kept = retain_other(self.profiles.value_at(i), id.as_str());
                            self.profiles.set_value_at(i, kept);
                            proof {
                                assert(self.profile_map() =~= p0.insert(self.active_profile@, without(p0[self.active_profile@], id@)));
                            }
                            RemoveOutcome::Removed
                        }
                    },
                }
            },
        }
    }

    /// Deletes profile `name`, unless it is "default", missing, or active.
    pub fn delete_profile(&mut self, name: &str) -> (r: DeleteOutcome)
        requires
            old(self).wf(),
        ensures
            final(self).wf(),
            final(self).same_but_profiles(old(self)),
            name@ == "default"@ ==> r == DeleteOutcome::IsDefault,
            name@ != "default"@ && !old(self).profile_map().contains_key(name@) ==> r == DeleteOutcome::NotFound,
            name@ != "default"@ && old(self).profile_map().contains_key(name@) && old(self).active_profile@ == name@ ==> r == DeleteOutcome::IsActive,
            name@ != "default"@ && old(self).profile_map().contains_key(name@) && old(self).active_profile@ != name@ ==> r == DeleteOutcome::Deleted,
            r == DeleteOutcome::Deleted ==> final(self).profile_map() == old(self).profile_map().remove(name@),
            r != DeleteOutcome::Deleted ==> final(self).profile_map() == old(self).profile_map(),
    {
        if str_eq(name, "default") {
            return DeleteOutcome::IsDefault;
        }
        if !self.profiles.contains_key(name) {
            return DeleteOutcome::NotFound;
        }
        if str_eq(self.active_profile.as_str(), name) {
            return DeleteOutcome::IsActive;
        }
        let ghost p0 = self.profile_map();
        let _ = self.profiles.remove(name);
        proof {
            assert(self.profile_map() =~= p0.remove(name@));
        }
        DeleteOutcome::Deleted
    }

    /// Renames profile `old_name` to `new_name`, unless the old one is "default"
    /// or missing or the new name is taken; the active profile follows the rename.
    pub fn rename_profile(&mut self, old_name: &str, new_name: &str) -> (r: RenameOutcome)
        requires
            old(self).wf(),
        ensures
            final(self).wf(),
            final(self).installed_mods == old(self).installed_mods,
            final(self).mods_folder == old(self).mods_folder,
            final(self).default_mc_version == old(self).default_mc_version,
            final(self).mod_loader == old(self).mod_loader,
            old_name@ == "default"@ ==> r == RenameOutcome::IsDefault,
            old_name@ != "default"@ && !old(self).profile_map().contains_key(old_name@) ==> r == RenameOutcome::NotFound,
            old_name@ != "default"@ && old(self).profile_map().contains_key(old_name@)
                && old(self).profile_map().contains_key(new_name@) ==> r == RenameOutcome::TargetExists,
            old_name@ != "default"@ && old(self).profile_map().contains_key(old_name@)
                && !old(self).profile_map().contains_key(new_name@) ==> r == RenameOutcome::Renamed,
            r == RenameOutcome::Renamed ==> final(self).profile_map()
                == old(self).profile_map().remove(old_name@).insert(new_name@, old(self).profile_map()[old_name@]),
            r == RenameOutcome::Renamed ==> final(self).active_profile@
                == if old(self).active_profile@ == old_name@ { new_name@ } else { old(self).active_profile@ },
            r != RenameOutcome::Renamed ==> final(self).profile_map() == old(self).profile_map()
                && final(self).active_profile == old(self).active_profile,
    {
        if str_eq(old_name, "default") {
            return RenameOutcome::IsDefault;
        }
        if !self.profiles.contains_key(old_name) {
            return RenameOutcome::NotFound;
        }
        if self.profiles.contains_key(new_name) {
            return RenameOutcome::TargetExists;
        }
        let ghost p0 = self.profile_map();
        let taken = self.profiles.remove(old_name);
        match taken {
            Some(members) => {
                proof {
                    assert(strs(members@) == p0[old_name@]);
                }
                self.profiles.insert(string_of(new_name), members);
                proof {
                    assert(self.profile_map() =~= p0.remove(old_name@).insert(new_name@, p0[old_name@]));
                }
            },
            None => {},
        }
        if str_eq(self.active_profile.as_str(), old_name) {
            self.active_profile = string_of(new_name);
        }
        RenameOutcome::Renamed
    }

    /// The mods reached from the members of profile `name` through dependencies.
    pub open spec fn profile_reach(&self, name: Seq<char>) -> Set<Seq<char>> {
        Set::new(|x: Seq<char>| reachable(self.mods(), self.profile_map()[name].to_set(), x))
    }

    /// Whether `plan` is the switch plan for profile `name`: the installed mods
    /// reached from the profile but disabled, and those not reached but enabled,
    /// each in id order.
    pub open spec fn is_switch_plan(&self, name: Seq<char>, plan: SwitchPlan) -> bool {
        let ks = self.installed_mods.key_seq();
        let vs = self.installed_mods.val_seq().map_values(|m: InstalledMod| m@);
        let n = self.installed_mods.spec_len() as int;
        &&& strs(plan.to_enable@) == ids_to_flip(ks, vs, self.profile_reach(name), true, n)
        &&& strs(plan.to_disable@) == ids_to_flip(ks, vs, self.profile_reach(name), false, n)
    }

    /// The renames that switching to profile `name` needs.
    pub fn plan_switch(&self, name: &str) -> (r: Result<SwitchPlan, ProfileError>)
        requires
            self.wf(),
        ensures
            !self.profile_map().contains_key(name@) ==> (r matches Err(ProfileError::NotFound(e)) && e@ == name@),
            self.profile_map().contains_key(name@) ==> (r matches Ok(plan) && self.is_switch_plan(name@, plan)),
    {
        let members = match self.profiles.get(name) {
            None => {
                return Err(ProfileError::NotFound(string_of(name)));
            },
            Some(m) => m,
        };
        let reached = dependency_closure(&self.installed_mods, members);
        let ghost reach = self.profile_reach(name@);
        proof {
            assert(mod_views(self.installed_mods) == self.mods());
            assert(strs(members@) == self.profile_map()[name@]);
            assert forall|x: Seq<char>| strs(reached@).contains(x) <==> reach.contains(x) by {}
        }
        let ghost ks = self.installed_mods.key_seq();
        let ghost vs = self.installed_mods.val_seq().map_values(|m: InstalledMod| m@);
        let mut to_enable: Vec<String> = Vec::new();
        let mut to_disable: Vec<String> = Vec::new();
        let n = self.installed_mods.len();
        let mut i: usize = 0;
        while i < n
            invariant
                self.wf(),
                n == self.installed_mods.spec_len(),
                i <= n,
                ks == self.installed_mods.key_seq(),
                vs == self.installed_mods.val_seq().map_values(|m: InstalledMod| m@),
                forall|x: Seq<char>| strs(reached@).contains(x) <==> reach.contains(x),
                strs(to_enable@) == ids_to_flip(ks, vs, reach, true, i as int),
                strs(to_disable@) == ids_to_flip(ks, vs, reach, false, i as int),
            decreases n - i,
        {
            let id = self.installed_mods.key_at(i);
            let m = self.installed_mods.value_at(i);
            let is_reached = contains_str(&reached, id.as_str());
            assert(vs[i as int] == m@);
            if is_reached && !m.enabled {
                let ghost b = strs(to_enable@);
                to_enable.push(id.clone());
                assert(strs(to_enable@) =~= b.push(id@));
            } else if !is_reached && m.enabled {
                let ghost b = strs(to_disable@);
                to_disable.push(id.clone());
                assert(strs(to_disable@) =~= b.push(id@));
            }
            i = i + 1;
        }
        Ok(SwitchPlan { to_enable, to_disable })
    }

    /// Makes profile `name` active after the renames of `plan`: each planned mod
    /// whose rename did not fail (is not in `failed`) takes its new state. With no
    /// failure, every installed mod is then enabled exactly when the profile
    /// reaches it.
    pub fn finish_switch(&mut self, name: &str, plan: &SwitchPlan, failed: &Vec<String>)
        requires
            old(self).wf(),
        ensures
            final(self).wf(),
            final(self).mods() == with_enabled(
                with_enabled(old(self).mods(), strs(plan.to_enable@), strs(failed@), true),
                strs(plan.to_disable@), strs(failed@), false),
            final(self).active_profile@ == name@,
            final(self).profiles == old(self).profiles,
            final(self).mods_folder == old(self).mods_folder,
            final(self).default_mc_version == old(self).default_mc_version,
            final(self).mod_loader == old(self).mod_loader,
            old(self).is_switch_plan(name@, *plan) && failed@.len() == 0 ==> forall|k: Seq<char>| #[trigger] final(self).mods().contains_key(k)
                ==> final(self).mods()[k].enabled == old(self).profile_reach(name@).contains(k),
    {
        let ghost m0 = self.mods();
        let ghost old_self = *self;
        let ne = plan.to_enable.len();
        let mut j: usize = 0;
        while j < ne
            invariant
                self.wf(),
                ne == plan.to_enable@.len(),
                j <= ne,
                self.mods() == with_enabled(m0, strs(plan.to_enable@).subrange(0, j as int), strs(failed@), true),
                self.profiles == old_self.profiles,
                self.active_profile == old_self.active_profile,
                self.mods_folder == old_self.mods_folder,
                self.default_mc_version == old_self.default_mc_version,
                self.mod_loader == old_self.mod_loader,
            decreases ne - j,
        {
            let id = &plan.to_enable[j];
            proof {
                assert(strs(plan.to_enable@).subrange(0, j + 1).drop_last() =~= strs(plan.to_enable@).subrange(0, j as int));
                assert(strs(plan.to_enable@).subrange(0, j + 1).last() == id@);
            }
            if !contains_str(failed, id.as_str()) {
                let _ = self.set_mod_enabled(id.as_str(), true);
            }
            j = j + 1;
        }
        let ghost m1 = self.mods();
        proof {
            assert(strs(plan.to_enable@).subrange(0, ne as int) =~= strs(plan.to_enable@));
        }
        let nd = plan.to_disable.len();
        j = 0;
        while j < nd
            invariant
                self.wf(),
                nd == plan.to_disable@.len(),
                j <= nd,
                self.mods() == with_enabled(m1, strs(plan.to_disable@).subrange(0, j as int), strs(failed@), false),
                self.profiles == old_self.profiles,
                self.active_profile == old_self.active_profile,
                self.mods_folder == old_self.mods_folder,
                self.default_mc_version == old_self.default_mc_version,
                self.mod_loader == old_self.mod_loader,
            decreases nd - j,
        {
            let id = &plan.to_disable[j];
            proof {
                assert(strs(plan.to_disable@).subrange(0, j + 1).drop_last() =~= strs(plan.to_disable@).subrange(0, j as int));
                assert(strs(plan.to_disable@).subrange(0, j + 1).last() == id@);
            }
            if !contains_str(failed, id.as_str()) {
                let _ = self.set_mod_enabled(id.as_str(), false);
            }
            j = j + 1;
        }
        proof {
            assert(strs(plan.to_disable@).subrange(0, nd as int) =~= strs(plan.to_disable@));
        }
        self.active_profile = string_of(name);
        proof {
            if old_self.is_switch_plan(name@, *plan) && failed@.len() == 0 {
                let ks = old_self.installed_mods.key_seq();
                let vs = old_self.installed_mods.val_seq().map_values(|m: InstalledMod| m@);
                let n = old_self.installed_mods.spec_len() as int;
                let reach = old_self.profile_reach(name@);
                assert forall|k: Seq<char>| #[trigger] self.mods().contains_key(k) implies self.mods()[k].enabled == reach.contains(k) by {
                    lemma_with_enabled(m0, strs(plan.to_enable@), strs(failed@), true, k);
                    lemma_with_enabled(m1, strs(plan.to_disable@), strs(failed@), false, k);
                    assert(!strs(failed@).contains(k));
                    let p = old_self.installed_mods.pos(k);
                    old_self.installed_mods.lemma_pos(p);
                    assert(vs[p] == m0[k]);
                    lemma_ids_to_flip_contains(ks, vs, reach, true, n, k);
                    lemma_ids_to_flip_contains(ks, vs, reach, false, n, k);
                    if reach.contains(k) && !m0[k].enabled {
                        assert(strs(plan.to_enable@).contains(k));
                    }
                    if !reach.contains(k) && m0[k].enabled {
                        assert(strs(plan.to_disable@).contains(k));
                    }
                    if strs(plan.to_enable@).contains(k) {
                        let q = choose|q: int| 0 <= q < n && ks[q] == k && reach.contains(ks[q]) == true && vs[q].enabled != true;
                        crate::ordered_map::lemma_sorted_index_unique(ks, p, q);
                    }
                    if strs(plan.to_disable@).contains(k) {
                        let q = choose|q: int| 0 <= q < n && ks[q] == k && reach.contains(ks[q]) == false && vs[q].enabled != false;
                        crate::ordered_map::lemma_sorted_index_unique(ks, p, q);
                    }
                }
            }
        }
    }
}

} // verus!
