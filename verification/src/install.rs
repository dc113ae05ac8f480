use vstd::prelude::*;
use crate::provider::{ResolvedTarget, TargetView};
use crate::state::{KmgrState, InstalledMod, ModView, mod_path, opt_view, clone_opt_string};
use crate::text::{strs, str_eq, string_of, concat, contains_str, clone_strings, join_path, path_join, file_name, path_file_name};

verus! {

/// What installing one resolved target needs.
pub enum InstallPlan {
    /// The same version is installed; it is to become explicit when the flag says so.
    AlreadyInstalled { change_to_explicit: bool },
    /// The file is to be downloaded to `dest_path`; a file of another name that the
    /// installed version had is to be deleted afterwards.
    Download { dest_path: String, old_filename: Option<String> },
}

/// What checking a recorded mod against the disk gave.
#[derive(Debug, PartialEq, Eq, Structural)]
pub enum SyncAction {
    /// The file is there (and matches its hash, when one is recorded).
    InSync,
    /// The file is to be downloaded again from the recorded address.
    Restore,
    /// The file is missing or wrong, and no address is recorded.
    CannotRestore,
}

/// Whether a newer version is known for an installed mod.
#[derive(Debug, PartialEq, Eq, Structural)]
pub enum UpdateStatus {
    /// Resolution gave nothing.
    Unknown,
    /// The latest version is the installed one (or is only known as "latest").
    UpToDate,
    /// Another version is available.
    Available,
}

/// The file name under which a target is stored: the last component of its
/// file name, or "unknown.jar" when it has none.
pub open spec fn safe_filename(filename: Seq<char>) -> Seq<char> {
    match path_file_name(filename) {
        Some(n) => n,
        None => "unknown.jar"@,
    }
}

/// Whether a target downloaded at position `index` of a resolution is recorded as
/// explicit: it is the one asked for, or it was installed explicitly before.
pub open spec fn recorded_explicit(mods: Map<Seq<char>, ModView>, id: Seq<char>, index: int) -> bool {
    index == 0 || (mods.contains_key(id) && mods[id].is_explicit)
}

/// The installed mod that a downloaded target records.
pub open spec fn installed_view(t: TargetView, is_explicit: bool) -> ModView {
    ModView {
        name: t.name,
        version: t.version,
        source: t.source,
        filename: t.filename,
        download_url: t.download_url,
        hash: t.hash,
        is_explicit,
        dependencies: t.dependencies,
        enabled: true,
    }
}

/// The profiles with `id` added at the end of profile `act`, unless that profile
/// is missing or lists it already.
pub open spec fn with_member(pm: Map<Seq<char>, Seq<Seq<char>>>, act: Seq<char>, id: Seq<char>) -> Map<Seq<char>, Seq<Seq<char>>> {
    if pm.contains_key(act) && !pm[act].contains(id) {
        pm.insert(act, pm[act].push(id))
    } else {
        pm
    }
}

/// The update status for an installed mod, given the first target that
/// resolving it gave, if any.
pub open spec fn spec_update_status(installed_version: Seq<char>, latest: Option<Seq<char>>) -> UpdateStatus {
    match latest {
        None => UpdateStatus::Unknown,
        Some(v) => if v != installed_version && v != "latest"@ {
            UpdateStatus::Available
        } else {
            UpdateStatus::UpToDate
        },
    }
}

/// Whether the file of a recorded mod is to be downloaded again: it is missing,
/// or a hash is recorded and computing the file's digest failed (`computed` is
/// nothing) or gave another value.
pub open spec fn spec_needs_download(exists: bool, recorded: Option<Seq<char>>, computed: Option<Seq<char>>) -> bool {
    if !exists {
        true
    } else {
        match recorded {
            None => false,
            Some(h) => match computed {
                None => true,
                Some(c) => c != h,
            },
        }
    }
}

/// The update status of a mod installed at `installed_version`.
pub fn update_status(installed_version: &str, latest: Option<&str>) -> (r: UpdateStatus)
    ensures
        r == spec_update_status(installed_version@, match latest {
            Some(v) => Some(v@),
            None => None,
        }),
{
    match latest {
        None => UpdateStatus::Unknown,
        Some(v) => {
            if !str_eq(v, installed_version) && !str_eq(v, "latest") {
                UpdateStatus::Available
            } else {
                UpdateStatus::UpToDate
            }
        },
    }
}

/// Whether the file of a recorded mod is to be downloaded again.
pub fn needs_download(exists: bool, recorded: &Option<String>, computed: &Option<String>) -> (r: bool)
    ensures
        r == spec_needs_download(exists, opt_view(*recorded), opt_view(*computed)),
{
    if !exists {
        return true;
    }
    match recorded {
        None => false,
        Some(h) => match computed {
            None => true,
            Some(c) => !str_eq(c.as_str(), h.as_str()),
        },
    }
}

/// What to do for a recorded mod: nothing when its file needs no download;
/// else restore it from its recorded address, unless none is recorded.
pub fn sync_action(m: &InstalledMod, needs: bool) -> (r: SyncAction)
    ensures
        !needs ==> r == SyncAction::InSync,
        needs && m.download_url@.len() == 0 ==> r == SyncAction::CannotRestore,
        needs && m.download_url@.len() != 0 ==> r == SyncAction::Restore,
{
    if !needs {
        SyncAction::InSync
    } else if m.download_url.as_str().is_empty() {
        SyncAction::CannotRestore
    } else {
        SyncAction::Restore
    }
}

/// Why a mod file cannot be restored.
pub fn cannot_restore_message(filename: &str) -> (r: String)
    ensures
        r@ == "Cannot restore '"@ + filename@ + "' automatically (missing download URL in state). Try running `kmgr update --apply`."@,
{
    let a = concat("Cannot restore '", filename);
    concat(a.as_str(), "' automatically (missing download URL in state). Try running `kmgr update --apply`.")
}

/// A copy of a resolved target's data as an installed mod.
fn installed_from(t: &ResolvedTarget, is_explicit: bool) -> (r: InstalledMod)
    ensures
        r@ == installed_view(t@, is_explicit),
{
    InstalledMod {
        name: t.name.clone(),
        version: t.version.clone(),
        source: t.source.clone(),
        filename: t.filename.clone(),
        download_url: t.download_url.clone(),
        hash: clone_opt_string(&t.hash),
        is_explicit,
        dependencies: clone_strings(&t.dependencies),
        enabled: true,
    }
}

impl KmgrState {
    /// What installing the target at position `index` of a resolution needs: the
    /// first target is the one asked for (explicit), the others are dependencies.
    pub fn plan_install(&self, index: usize, target: &ResolvedTarget) -> (r: InstallPlan)
        requires
            self.wf(),
        ensures
            ({
                let explicit = index == 0;
                let id = target.id@;
                if self.mods().contains_key(id) && self.mods()[id].version == target.version@ {
                    r matches InstallPlan::AlreadyInstalled { change_to_explicit }
                        && change_to_explicit == (explicit && !self.mods()[id].is_explicit)
                } else {
                    r matches InstallPlan::Download { dest_path, old_filename }
                        && dest_path@ == path_join(self.mods_folder@, safe_filename(target.filename@))
                        && opt_view(old_filename) == if self.mods().contains_key(id) && self.mods()[id].filename != target.filename@ {
                            Some(self.mods()[id].filename)
                        } else {
                            None
                        }
                }
            }),
    {
        let is_explicit = index == 0;
        let existing = self.installed_mods.get(target.id.as_str());
        if let Some(e) = existing {
            if str_eq(e.version.as_str(), target.version.as_str()) {
                return InstallPlan::AlreadyInstalled { change_to_explicit: is_explicit && !e.is_explicit };
            }
        }
        let safe = match file_name(target.filename.as_str()) {
            Some(n) => n,
            None => string_of("unknown.jar"),
        };
        let dest_path = join_path(self.mods_folder.as_str(), safe.as_str());
        let old_filename = match existing {
            Some(e) => if !str_eq(e.filename.as_str(), target.filename.as_str()) {
                Some(e.filename.clone())
            } else {
                None
            },
            None => None,
        };
        InstallPlan::Download { dest_path, old_filename }
    }

    /// Adds `id` to the active profile, unless the profile is missing or lists it.
    pub fn add_id_to_active_profile(&mut self, id: &str)
        requires
            old(self).wf(),
        ensures
            final(self).wf(),
            final(self).same_but_profiles(old(self)),
            final(self).profile_map() == with_member(old(self).profile_map(), old(self).active_profile@, id@),
    {
        match self.profiles.find(self.active_profile.as_str()) {
            None => {},
            Some(i) => {
                proof {
                    self.profiles.lemma_pos(i as int);
                    assert(self.profile_map()[self.active_profile@] == strs(self.profiles.val_seq()[i as int]@));
                }
                if !contains_str(self.profiles.value_at(i), id) {
                    let ghost p0 = self.profile_map();
                    let mut members = clone_strings(self.profiles.value_at(i));
                    members.push(string_of(id));
                    assert(strs(members@) =~= p0[self.active_profile@].push(id@));
                    self.profiles.set_value_at(i, members);
                    assert(self.profile_map() =~= p0.insert(self.active_profile@, p0[self.active_profile@].push(id@)));
                }
            },
        }
    }

    /// Records that a target found installed at the same version is now asked for
    /// explicitly: it is marked explicit and joins the active profile.
    pub fn mark_explicit(&mut self, id: &str)
        requires
            old(self).wf(),
        ensures
            final(self).wf(),
            old(self).mods().contains_key(id@) ==> final(self).mods() == old(self).mods().insert(id@, ModView { is_explicit: true, ..old(self).mods()[id@] }),
            !old(self).mods().contains_key(id@) ==> final(self).mods() == old(self).mods(),
            final(self).profile_map() == with_member(old(self).profile_map(), old(self).active_profile@, id@),
            final(self).active_profile == old(self).active_profile,
            final(self).mods_folder == old(self).mods_folder,
            final(self).default_mc_version == old(self).default_mc_version,
            final(self).mod_loader == old(self).mod_loader,
    {
        let ghost m0 = self.mods();
        match self.installed_mods.find(id) {
            None => {},
            Some(i) => {
                proof {
                    self.installed_mods.lemma_pos(i as int);
                }
                let mut m = self.installed_mods.value_at(i).clone();
                m.is_explicit = true;
                self.installed_mods.set_value_at(i, m);
                assert(self.mods() =~= m0.insert(id@, ModView { is_explicit: true, ..m0[id@] }));
            },
        }
        self.add_id_to_active_profile(id);
    }

    /// Records a downloaded target found at position `index` of a resolution: it
    /// is installed and enabled; it is explicit when it is the one asked for
    /// (position 0) or was installed explicitly before, and the one asked for
    /// joins the active profile. Gives back the path of the file that the
    /// installed version had, when `old_filename` names one.
    pub fn record_download(&mut self, index: usize, target: &ResolvedTarget, old_filename: &Option<String>) -> (r: Option<String>)
        requires
            old(self).wf(),
        ensures
            final(self).wf(),
            final(self).mods() == old(self).mods().insert(target.id@,
                installed_view(target@, recorded_explicit(old(self).mods(), target.id@, index as int))),
            index == 0 ==> final(self).profile_map() == with_member(old(self).profile_map(), old(self).active_profile@, target.id@),
            index != 0 ==> final(self).profile_map() == old(self).profile_map(),
            opt_view(r) == match *old_filename {
                Some(f) => Some(mod_path(old(self).mods_folder@, f@,
                    if old(self).mods().contains_key(target.id@) { old(self).mods()[target.id@].enabled } else { true })),
                None => None,
            },
            final(self).active_profile == old(self).active_profile,
            final(self).mods_folder == old(self).mods_folder,
            final(self).default_mc_version == old(self).default_mc_version,
            final(self).mod_loader == old(self).mod_loader,
    {
        let old_path = match old_filename {
            Some(f) => {
                let enabled = match self.installed_mods.get(target.id.as_str()) {
                    Some(m) => m.enabled,
                    None => true,
                };
                Some(self.get_mod_path(f.as_str(), enabled))
            },
            None => None,
        };
        let was_explicit = match self.installed_mods.get(target.id.as_str()) {
            Some(m) => m.is_explicit,
            None => false,
        };
        let is_explicit = index == 0 || was_explicit;
        if index == 0 {
            self.add_id_to_active_profile(target.id.as_str());
        }
        let ghost m0 = self.mods();
        let m = installed_from(target, is_explicit);
        self.installed_mods.insert(target.id.clone(), m);
        assert(self.mods() =~= m0.insert(target.id@, installed_view(target@, is_explicit)));
        old_path
    }

    /// Records an applied update of mod `id` to `target`: the new version, file,
    /// address, hash and dependencies, keeping its name and its explicit and
    /// enabled flags. Gives back the path of the old file when the file name changed.
    pub fn apply_update(&mut self, id: &str, target: &ResolvedTarget) -> (r: Option<String>)
        requires
            old(self).wf(),
            old(self).mods().contains_key(id@),
        ensures
            final(self).wf(),
            ({
                let m = old(self).mods()[id@];
                &&& final(self).mods() == old(self).mods().insert(id@, ModView {
                    name: m.name,
                    version: target.version@,
                    source: target.source@,
                    filename: target.filename@,
                    download_url: target.download_url@,
                    hash: opt_view(target.hash),
                    is_explicit: m.is_explicit,
                    dependencies: strs(target.dependencies@),
                    enabled: m.enabled,
                })
                &&& opt_view(r) == if target.filename@ != m.filename {
                    Some(mod_path(old(self).mods_folder@, m.filename, m.enabled))
                } else {
                    None
                }
            }),
            final(self).profiles == old(self).profiles,
            final(self).active_profile == old(self).active_profile,
            final(self).mods_folder == old(self).mods_folder,
            final(self).default_mc_version == old(self).default_mc_version,
            final(self).mod_loader == old(self).mod_loader,
    {
        let ghost m0 = self.mods();
        let i = self.installed_mods.find(id).unwrap();
        proof {
            self.installed_mods.lemma_pos(i as int);
        }
        let cur = self.installed_mods.value_at(i);
        let old_path = if !str_eq(target.filename.as_str(), cur.filename.as_str()) {
            Some(self.get_mod_path(cur.filename.as_str(), cur.enabled))
        } else {
            None
        };
        let updated = InstalledMod {
            name: cur.name.clone(),
            version: target.version.clone(),
            source: target.source.clone(),
            filename: target.filename.clone(),
            download_url: target.download_url.clone(),
            hash: clone_opt_string(&target.hash),
            is_explicit: cur.is_explicit,
            dependencies: clone_strings(&target.dependencies),
            enabled: cur.enabled,
        };
        self.installed_mods.set_value_at(i, updated);
        assert(self.mods() =~= m0.insert(id@, ModView {
            name: m0[id@].name,
            version: target.version@,
            source: target.source@,
            filename: target.filename@,
            download_url: target.download_url@,
            hash: opt_view(target.hash),
            is_explicit: m0[id@].is_explicit,
            dependencies: strs(target.dependencies@),
            enabled: m0[id@].enabled,
        }));
        old_path
    }
}

} // verus!
