use vstd::prelude::*;
use crate::closure::{dependency_closure, reachable, mod_views};
use crate::state::{KmgrState, StateError, mod_path};
use crate::text::{strs, str_eq, str_less, seq_lt, lemma_seq_lt_total, lemma_seq_lt_transitive, string_of, to_lowercase, trim, trimmed, lowercase, contains_str};

verus! {

broadcast use vstd::seq_lib::lemma_seq_contains_after_push;

/// `s` without any item equal to `x`, the others kept in order.
pub open spec fn without(s: Seq<Seq<char>>, x: Seq<char>) -> Seq<Seq<char>>
    decreases s.len(),
{
    if s.len() == 0 {
        Seq::empty()
    } else {
        let r = without(s.drop_last(), x);
        if s.last() == x {
            r
        } else {
            r.push(s.last())
        }
    }
}

/// Every profile list with `x` taken out.
pub open spec fn strip_profiles(p: Map<Seq<char>, Seq<Seq<char>>>, x: Seq<char>) -> Map<Seq<char>, Seq<Seq<char>>> {
    p.map_values(|l: Seq<Seq<char>>| without(l, x))
}

/// A copy of `v` without the strings equal to `x`.
pub fn retain_other(v: &Vec<String>, x: &str) -> (r: Vec<String>)
    ensures
        strs(r@) == without(strs(v@), x@),
{
    let mut r: Vec<String> = Vec::new();
    let n = v.len();
    let mut i: usize = 0;
    while i < n
        invariant
            n == v@.len(),
            i <= n,
            strs(r@) == without(strs(v@).subrange(0, i as int), x@),
        decreases n - i,
    {
        assert(strs(v@).subrange(0, i + 1).drop_last() =~= strs(v@).subrange(0, i as int));
        if !str_eq(v[i].as_str(), x) {
            r.push(v[i].clone());
            assert(strs(r@) =~= without(strs(v@).subrange(0, i as int), x@).push(v@[i as int]@));
        }
        i = i + 1;
    }
    assert(strs(v@).subrange(0, n as int) =~= strs(v@));
    r
}

/// Whether an answer, trimmed and lowercased already, agrees: "y" or "yes".
pub fn is_yes(answer: &str) -> (r: bool)
    ensures
        r == (answer@ == "y"@ || answer@ == "yes"@),
{
    str_eq(answer, "y") || str_eq(answer, "yes")
}

/// Whether an answer to a yes/no question agrees: "y" or "yes", in any case,
/// with surrounding white space.
pub fn is_confirmation(input: &str) -> (r: bool)
    ensures
        r == (lowercase(trimmed(input@)) == "y"@ || lowercase(trimmed(input@)) == "yes"@),
{
    let t = trim(input);
    let v = to_lowercase(t.as_str());
    is_yes(v.as_str())
}

/// How a mod file is to be moved so that the mod is enabled or disabled.
pub enum TogglePlan {
    /// The mod is already in the state asked for.
    AlreadyDone,
    /// The file is to be renamed from the first path to the second.
    Rename(String, String),
}

/// One orphaned mod that pruning removes.
pub struct PruneItem {
    pub id: String,
    pub path: String,
    pub name: String,
}

/// The keys among the first `n` of `ks` that `keep` does not hold, in order.
pub open spec fn keys_outside(ks: Seq<Seq<char>>, keep: Set<Seq<char>>, n: int) -> Seq<Seq<char>>
    decreases n,
{
    if n <= 0 {
        Seq::empty()
    } else {
        let r = keys_outside(ks, keep, n - 1);
        if keep.contains(ks[n - 1]) {
            r
        } else {
            r.push(ks[n - 1])
        }
    }
}

impl KmgrState {
    /// How to bring the file of mod `id` into the enabled (or disabled) state.
    pub fn plan_toggle(&self, id: &str, enable: bool) -> (r: Result<TogglePlan, StateError>)
        requires
            self.wf(),
        ensures
            !self.mods().contains_key(id@) ==> (r matches Err(StateError::ModNotInstalled(e)) && e@ == id@),
            self.mods().contains_key(id@) && self.mods()[id@].enabled == enable ==> r matches Ok(TogglePlan::AlreadyDone),
            self.mods().contains_key(id@) && self.mods()[id@].enabled != enable ==> (r matches Ok(TogglePlan::Rename(from, to))
                && from@ == mod_path(self.mods_folder@, self.mods()[id@].filename, !enable)
                && to@ == mod_path(self.mods_folder@, self.mods()[id@].filename, enable)),
    {
        match self.installed_mods.get(id) {
            None => Err(StateError::ModNotInstalled(string_of(id))),
            Some(m) => {
                if m.enabled == enable {
                    Ok(TogglePlan::AlreadyDone)
                } else {
                    let from = self.get_mod_path(m.filename.as_str(), !enable);
                    let to = self.get_mod_path(m.filename.as_str(), enable);
                    Ok(TogglePlan::Rename(from, to))
                }
            },
        }
    }

    /// The file name of mod `id` and the path where its file lies.
    pub fn removal_target(&self, id: &str) -> (r: Result<(String, String), StateError>)
        requires
            self.wf(),
        ensures
            !self.mods().contains_key(id@) ==> (r matches Err(StateError::ModNotInstalled(e)) && e@ == id@),
            self.mods().contains_key(id@) ==> (r matches Ok(p)
                && p.0@ == self.mods()[id@].filename
                && p.1@ == mod_path(self.mods_folder@, self.mods()[id@].filename, self.mods()[id@].enabled)),
    {
        match self.installed_mods.get(id) {
            None => Err(StateError::ModNotInstalled(string_of(id))),
            Some(m) => Ok((m.filename.clone(), self.get_mod_path(m.filename.as_str(), m.enabled))),
        }
    }

    /// Forgets mod `id`: it leaves the installed mods and every profile.
    pub fn uninstall(&mut self, id: &str)
        requires
            old(self).wf(),
        ensures
            final(self).wf(),
            final(self).mods() == old(self).mods().remove(id@),
            final(self).profile_map() == strip_profiles(old(self).profile_map(), id@),
            final(self).active_profile == old(self).active_profile,
            final(self).mods_folder == old(self).mods_folder,
            final(self).default_mc_version == old(self).default_mc_version,
            final(self).mod_loader == old(self).mod_loader,
    {
        let ghost old_mods = self.mods();
        let ghost old_self = *self;
        let _ = self.installed_mods.remove(id);
        proof {
            assert(self.mods() =~= old_mods.remove(id@));
        }
        let n = self.profiles.len();
        let mut i: usize = 0;
        while i < n
            invariant
                self.wf(),
                n == self.profiles.spec_len(),
                i <= n,
                self.mods() == old_mods.remove(id@),
                self.active_profile == old_self.active_profile,
                self.mods_folder == old_self.mods_folder,
                self.default_mc_version == old_self.default_mc_version,
                self.mod_loader == old_self.mod_loader,
                self.profiles.key_seq() == old_self.profiles.key_seq(),
                forall|j: int| 0 <= j < i ==> strs(#[trigger] self.profiles.val_seq()[j]@) == without(strs(old_self.profiles.val_seq()[j]@), id@),
                forall|j: int| i <= j < n ==> #[trigger] self.profiles.val_seq()[j] == old_self.profiles.val_seq()[j],
            decreases n - i,
        {
            let kept = retain_other(self.profiles.value_at(i), id);
            self.profiles.set_value_at(i, kept);
            i = i + 1;
        }
        proof {
            let want = strip_profiles(old_self.profile_map(), id@);
            assert forall|k: Seq<char>| #[trigger] self.profile_map().contains_key(k) <==> want.contains_key(k) by {
                if self.profiles.has(k) {
                    let p = self.profiles.pos(k);
                    assert(old_self.profiles.key_seq()[p] == k);
                }
                if old_self.profiles.has(k) {
                    let p = old_self.profiles.pos(k);
                    assert(self.profiles.key_seq()[p] == k);
                }
            }
            assert forall|k: Seq<char>| #[trigger] self.profile_map().contains_key(k) implies self.profile_map()[k] == want[k] by {
                let p = self.profiles.pos(k);
                self.profiles.lemma_pos(p);
                old_self.profiles.lemma_pos(p);
            }
            assert(self.profile_map() =~= want);
        }
    }

    /// The roots that pruning keeps: every mod listed by a profile, and every
    /// explicitly installed mod.
    pub open spec fn prune_roots(&self) -> Set<Seq<char>> {
        Set::new(|x: Seq<char>|
            (exists|p: Seq<char>| #[trigger] self.profile_map().contains_key(p) && self.profile_map()[p].contains(x))
            || (self.mods().contains_key(x) && self.mods()[x].is_explicit))
    }

    /// The ids that pruning keeps: those reached from its roots.
    pub open spec fn kept_by_prune(&self) -> Set<Seq<char>> {
        Set::new(|x: Seq<char>| reachable(self.mods(), self.prune_roots(), x))
    }

    /// The installed mod ids in the order of the listing: by display name, mods of
    /// the same name in id order (a stable sort by name of the id-ordered mods).
    pub fn ids_by_name(&self) -> (r: Vec<String>)
        requires
            self.wf(),
        ensures
            r@.len() == self.installed_mods.spec_len(),
            forall|x: Seq<char>| strs(r@).contains(x) <==> self.mods().contains_key(x),
            forall|i: int, j: int| 0 <= i < j < r@.len() ==> listed_before(
                self.mods()[#[trigger] r@[i]@].name, r@[i]@, self.mods()[#[trigger] r@[j]@].name, r@[j]@),
    {
        let mut r: Vec<String> = Vec::new();
        let n = self.installed_mods.len();
        let mut i: usize = 0;
        while i < n
            invariant
                self.wf(),
                n == self.installed_mods.spec_len(),
                i <= n,
                r@.len() == i,
                forall|x: Seq<char>| strs(r@).contains(x) <==> exists|p: int| 0 <= p < i && #[trigger] self.installed_mods.key_seq()[p] == x,
                forall|a: int| 0 <= a < r@.len() ==> self.mods().contains_key(#[trigger] r@[a]@),
                forall|a: int, b: int| 0 <= a < b < r@.len() ==> listed_before(
                    self.mods()[#[trigger] r@[a]@].name, r@[a]@, self.mods()[#[trigger] r@[b]@].name, r@[b]@),
            decreases n - i,
        {
            let id = self.installed_mods.key_at(i);
            let name = &self.installed_mods.value_at(i).name;
            proof {
                self.installed_mods.lemma_pos(i as int);
            }
            proof {
                if strs(r@).contains(id@) {
                    let q = choose|q: int| 0 <= q < i && #[trigger] self.installed_mods.key_seq()[q] == id@;
                    crate::ordered_map::lemma_sorted_index_unique(self.installed_mods.key_seq(), q, i as int);
                }
            }
            // The position before which the new entry goes: the first entry that lists after it.
            let m = r.len();
            let mut p: usize = 0;
            while p < m
                invariant
                    self.wf(),
                    m == r@.len(),
                    p <= m,
                    self.mods().contains_key(id@),
                    self.mods()[id@].name == name@,
                    forall|a: int| 0 <= a < r@.len() ==> self.mods().contains_key(#[trigger] r@[a]@),
                    forall|a: int| 0 <= a < p ==> listed_before(self.mods()[#[trigger] r@[a]@].name, r@[a]@, name@, id@),
                    !strs(r@).contains(id@),
                ensures
                    p <= m,
                    forall|a: int| 0 <= a < p ==> listed_before(self.mods()[#[trigger] r@[a]@].name, r@[a]@, name@, id@),
                    p < m ==> listed_before(name@, id@, self.mods()[r@[p as int]@].name, r@[p as int]@),
                decreases m - p,
            {
                let other = &r[p];
                let other_name = &self.installed_mods.get(other.as_str()).unwrap().name;
                let before = str_less(other_name.as_str(), name.as_str())
                    || (str_eq(other_name.as_str(), name.as_str()) && str_less(other.as_str(), id.as_str()));
                if !before {
                    proof {
                        assert(strs(r@)[p as int] == r@[p as int]@);
                        if other@ == id@ {
                            assert(strs(r@).contains(id@));
                        }
                        if other_name@ != name@ {
                            lemma_seq_lt_total(other_name@, name@);
                        }
                        lemma_seq_lt_total(other@, id@);
                    }
                    break;
                }
                p = p + 1;
            }
            let ghost r0 = r@;
            r.insert(p, id.clone());
            proof {
                assert(r@ =~= r0.insert(p as int, *id));
                assert forall|a: int, b: int| 0 <= a < b < r@.len() implies listed_before(
                    self.mods()[#[trigger] r@[a]@].name, r@[a]@, self.mods()[#[trigger] r@[b]@].name, r@[b]@) by {
                    lemma_listed_before_transitive_all();
                    if b < p {
                        assert(r@[a] == r0[a] && r@[b] == r0[b]);
                    } else if a < p && b == p {
                        assert(r@[a] == r0[a]);
                    } else if a < p && b > p {
                        assert(r@[a] == r0[a] && r@[b] == r0[b - 1]);
                    } else if a == p {
                        assert(r@[b] == r0[b - 1]);
                        if b - 1 > p {
                            assert(listed_before(self.mods()[r0[p as int]@].name, r0[p as int]@, self.mods()[r0[b - 1]@].name, r0[b - 1]@));
                        }
                    } else {
                        assert(r@[a] == r0[a - 1] && r@[b] == r0[b - 1]);
                    }
                }
                assert forall|x: Seq<char>| strs(r@).contains(x) <==> exists|q: int| 0 <= q < i + 1 && #[trigger] self.installed_mods.key_seq()[q] == x by {
                    if strs(r@).contains(x) {
                        let k = choose|k: int| 0 <= k < strs(r@).len() && strs(r@)[k] == x;
                        if k < p {
                            assert(r@[k] == r0[k]);
                            assert(strs(r0)[k] == x);
                            assert(strs(r0).contains(x));
                            let q = choose|q: int| 0 <= q < i && #[trigger] self.installed_mods.key_seq()[q] == x;
                            assert(0 <= q < i + 1 && self.installed_mods.key_seq()[q] == x);
                        } else if k > p {
                            assert(r@[k] == r0[k - 1]);
                            assert(strs(r0)[k - 1] == x);
                            assert(strs(r0).contains(x));
                            let q = choose|q: int| 0 <= q < i && #[trigger] self.installed_mods.key_seq()[q] == x;
                            assert(0 <= q < i + 1 && self.installed_mods.key_seq()[q] == x);
                        } else {
                            assert(strs(r@)[k] == r@[k]@);
                            assert(self.installed_mods.key_seq()[i as int] == x);
                            assert(0 <= i < i + 1);
                        }
                    }
                    if exists|q: int| 0 <= q < i + 1 && #[trigger] self.installed_mods.key_seq()[q] == x {
                        let q = choose|q: int| 0 <= q < i + 1 && #[trigger] self.installed_mods.key_seq()[q] == x;
                        if q == i {
                            assert(strs(r@)[p as int] == r@[p as int]@);
                            assert(strs(r@)[p as int] == x);
                        } else {
                            assert(strs(r0).contains(x));
                            let k = choose|k: int| 0 <= k < strs(r0).len() && strs(r0)[k] == x;
                            if k < p {
                                assert(r@[k] == r0[k]);
                                assert(strs(r@)[k] == x);
                            } else {
                                assert(r@[k + 1] == r0[k]);
                                assert(strs(r@)[k + 1] == x);
                            }
                        }
                    }
                }
            }
            i = i + 1;
        }
        proof {
            assert forall|x: Seq<char>| strs(r@).contains(x) <==> self.mods().contains_key(x) by {
                if self.mods().contains_key(x) {
                    let q = self.installed_mods.pos(x);
                    self.installed_mods.lemma_pos(q);
                }
                if exists|q: int| 0 <= q < n && #[trigger] self.installed_mods.key_seq()[q] == x {
                    let q = choose|q: int| 0 <= q < n && #[trigger] self.installed_mods.key_seq()[q] == x;
                    self.installed_mods.lemma_pos(q);
                }
            }
        }
        r
    }

    /// Whether a prune item names an installed mod, its file path and its name.
    pub open spec fn prune_item_ok(&self, it: PruneItem) -> bool {
        &&& self.mods().contains_key(it.id@)
        &&& it.path@ == mod_path(self.mods_folder@, self.mods()[it.id@].filename, self.mods()[it.id@].enabled)
        &&& it.name@ == self.mods()[it.id@].name
    }

    /// The roots of pruning, as a list.
    fn prune_root_list(&self) -> (r: Vec<String>)
        requires
            self.wf(),
        ensures
            strs(r@).to_set() == self.prune_roots(),
    {
        let mut r: Vec<String> = Vec::new();
        let np = self.profiles.len();
        let mut i: usize = 0;
        while i < np
            invariant
                self.wf(),
                np == self.profiles.spec_len(),
                i <= np,
                forall|x: Seq<char>| #[trigger] strs(r@).contains(x) <==> exists|p: int| 0 <= p < i && #[trigger] strs(self.profiles.val_seq()[p]@).contains(x),
            decreases np - i,
        {
            let members = self.profiles.value_at(i);
            let nm = members.len();
            let mut j: usize = 0;
            let ghost r0 = strs(r@);
            while j < nm
                invariant
                    self.wf(),
                    np == self.profiles.spec_len(),
                    i < np,
                    nm == members@.len(),
                    j <= nm,
                    *members == self.profiles.val_seq()[i as int],
                    forall|x: Seq<char>| #[trigger] strs(r@).contains(x) <==> (r0.contains(x) || strs(members@).subrange(0, j as int).contains(x)),
                decreases nm - j,
            {
                let ghost rb = strs(r@);
                r.push(members[j].clone());
                proof {
                    assert(strs(members@)[j as int] == members@[j as int]@);
                    assert(strs(r@) =~= rb.push(members@[j as int]@));
                    assert(strs(members@).subrange(0, j + 1) =~= strs(members@).subrange(0, j as int).push(members@[j as int]@));
                    assert forall|x: Seq<char>| #[trigger] strs(r@).contains(x) <==> (r0.contains(x) || strs(members@).subrange(0, j + 1).contains(x)) by {
                        assert(rb.contains(x) <==> (r0.contains(x) || strs(members@).subrange(0, j as int).contains(x)));
                    }
                }
                j = j + 1;
            }
            proof {
                assert(strs(members@).subrange(0, nm as int) =~= strs(members@));
                assert forall|x: Seq<char>| #[trigger] strs(r@).contains(x) <==> exists|p: int| 0 <= p < i + 1 && #[trigger] strs(self.profiles.val_seq()[p]@).contains(x) by {
                    if strs(members@).contains(x) {
                        assert(strs(self.profiles.val_seq()[i as int]@).contains(x));
                    }
                    if exists|p: int| 0 <= p < i + 1 && #[trigger] strs(self.profiles.val_seq()[p]@).contains(x) {
                        let p = choose|p: int| 0 <= p < i + 1 && #[trigger] strs(self.profiles.val_seq()[p]@).contains(x);
                        if p == i {
                            assert(strs(members@).contains(x));
                        }
                    }
                }
            }
            i = i + 1;
        }
        let ghost r1 = strs(r@);
        let nm = self.installed_mods.len();
        let mut i: usize = 0;
        while i < nm
            invariant
                self.wf(),
                nm == self.installed_mods.spec_len(),
                i <= nm,
                forall|x: Seq<char>| #[trigger] strs(r@).contains(x) <==> (r1.contains(x) || exists|p: int| 0 <= p < i
                    && self.installed_mods.val_seq()[p].is_explicit && #[trigger] self.installed_mods.key_seq()[p] == x),
            decreases nm - i,
        {
            if self.installed_mods.value_at(i).is_explicit {
                let ghost rb = strs(r@);
                r.push(self.installed_mods.key_at(i).clone());
                proof {
                    assert(strs(r@) =~= rb.push(self.installed_mods.key_seq()[i as int]));
                }
            }
            i = i + 1;
        }
        proof {
            let want = self.prune_roots();
            assert forall|x: Seq<char>| strs(r@).to_set().contains(x) <==> want.contains(x) by {
                if r1.contains(x) {
                    let p = choose|p: int| 0 <= p < np && #[trigger] strs(self.profiles.val_seq()[p]@).contains(x);
                    self.profiles.lemma_pos(p);
                    assert(self.profile_map().contains_key(self.profiles.key_seq()[p]));
                }
                if exists|p: Seq<char>| #[trigger] self.profile_map().contains_key(p) && self.profile_map()[p].contains(x) {
                    let p = choose|p: Seq<char>| #[trigger] self.profile_map().contains_key(p) && self.profile_map()[p].contains(x);
                    let q = self.profiles.pos(p);
                    self.profiles.lemma_pos(q);
                    assert(strs(self.profiles.val_seq()[q]@).contains(x));
                }
                if exists|p: int| 0 <= p < nm && self.installed_mods.val_seq()[p].is_explicit && #[trigger] self.installed_mods.key_seq()[p] == x {
                    let p = choose|p: int| 0 <= p < nm && self.installed_mods.val_seq()[p].is_explicit && #[trigger] self.installed_mods.key_seq()[p] == x;
                    self.installed_mods.lemma_pos(p);
                }
                if self.mods().contains_key(x) && self.mods()[x].is_explicit {
                    let p = self.installed_mods.pos(x);
                    self.installed_mods.lemma_pos(p);
                    assert(self.installed_mods.key_seq()[p] == x);
                }
            }
            assert(strs(r@).to_set() =~= want);
        }
        r
    }

    /// Removes the installed mods that no profile and no explicitly installed mod
    /// reaches through dependencies, and gives back, in id order, what was removed
    /// with the path of its file.
    pub fn prune(&mut self) -> (r: Vec<PruneItem>)
        requires
            old(self).wf(),
        ensures
            final(self).wf(),
            r@.map_values(|it: PruneItem| it.id@) == keys_outside(old(self).installed_mods.key_seq(), old(self).kept_by_prune(), old(self).installed_mods.spec_len() as int),
            forall|i: int| 0 <= i < r@.len() ==> old(self).prune_item_ok(#[trigger] r@[i]),
            final(self).mods() == old(self).mods().restrict(old(self).kept_by_prune()),
            final(self).profiles == old(self).profiles,
            final(self).active_profile == old(self).active_profile,
            final(self).mods_folder == old(self).mods_folder,
            final(self).default_mc_version == old(self).default_mc_version,
            final(self).mod_loader == old(self).mod_loader,
    {
        let ghost old_self = *self;
        let ghost keep = self.kept_by_prune();
        let roots = self.prune_root_list();
        let reached = dependency_closure(&self.installed_mods, &roots);
        proof {
            assert(mod_views(self.installed_mods) == self.mods());
            assert forall|x: Seq<char>| strs(reached@).contains(x) <==> keep.contains(x) by {}
        }
        let mut items: Vec<PruneItem> = Vec::new();
        let n = self.installed_mods.len();
        let mut i: usize = 0;
        while i < n
            invariant
                self.wf(),
                *self == old_self,
                n == self.installed_mods.spec_len(),
                i <= n,
                forall|x: Seq<char>| strs(reached@).contains(x) <==> keep.contains(x),
                items@.map_values(|it: PruneItem| it.id@) == keys_outside(self.installed_mods.key_seq(), keep, i as int),
                forall|k: int| 0 <= k < items@.len() ==> old_self.prune_item_ok(#[trigger] items@[k]),
            decreases n - i,
        {
            let id = self.installed_mods.key_at(i);
            if !contains_str(&reached, id.as_str()) {
                let m = self.installed_mods.value_at(i);
                proof {
                    self.installed_mods.lemma_pos(i as int);
                }
                let item = PruneItem {
                    id: id.clone(),
                    path: self.get_mod_path(m.filename.as_str(), m.enabled),
                    name: m.name.clone(),
                };
                let ghost before = items@;
                proof {
                    assert(self.mods()[id@] == m@);
                }
                items.push(item);
                proof {
                    assert(items@[before.len() as int] == item);
                    assert(items@.map_values(|it: PruneItem| it.id@) =~= before.map_values(|it: PruneItem| it.id@).push(id@));
                    assert forall|k: int| 0 <= k < items@.len() implies old_self.prune_item_ok(#[trigger] items@[k]) by {
                        if k < before.len() {
                            assert(items@[k] == before[k]);
                        }
                    }
                }
            }
            i = i + 1;
        }
        let ghost listed = items@.map_values(|it: PruneItem| it.id@);
        let ni = items.len();
        let mut k: usize = 0;
        while k < ni
            invariant
                self.wf(),
                ni == items@.len(),
                k <= ni,
                listed == items@.map_values(|it: PruneItem| it.id@),
                forall|k: int| 0 <= k < items@.len() ==> old_self.prune_item_ok(#[trigger] items@[k]),
                self.mods() == old_self.mods().remove_keys(prefix_set(listed, k as int)),
                self.profiles == old_self.profiles,
                self.active_profile == old_self.active_profile,
                self.mods_folder == old_self.mods_folder,
                self.default_mc_version == old_self.default_mc_version,
                self.mod_loader == old_self.mod_loader,
            decreases ni - k,
        {
            let ghost before = self.mods();
            let _ = self.installed_mods.remove(items[k].id.as_str());
            proof {
                assert(self.mods() =~= before.remove(items@[k as int].id@));
                assert(listed[k as int] == items@[k as int].id@);
                assert(prefix_set(listed, k + 1) =~= prefix_set(listed, k as int).insert(listed[k as int]));
                assert(self.mods() =~= old_self.mods().remove_keys(prefix_set(listed, k + 1)));
            }
            k = k + 1;
        }
        proof {
            lemma_keys_outside(old_self.installed_mods.key_seq(), keep, n as int);
            assert(self.mods() =~= old_self.mods().restrict(keep)) by {
                assert forall|x: Seq<char>| old_self.mods().contains_key(x) implies (prefix_set(listed, ni as int).contains(x) <==> !keep.contains(x)) by {
                    if prefix_set(listed, ni as int).contains(x) {
                        let j = choose|j: int| 0 <= j < ni && listed[j] == x;
                        assert(listed.contains(x));
                    }
                    if listed.contains(x) {
                        let j = choose|j: int| 0 <= j < listed.len() && listed[j] == x;
                        assert(prefix_set(listed, ni as int).contains(x));
                    }
                    let p = old_self.installed_mods.pos(x);
                    old_self.installed_mods.lemma_pos(p);
                }
            }
        }
        items
    }
}

/// Whether the entry `(name, id)` lists before `(name2, id2)`: by name, then by id.
pub open spec fn listed_before(name: Seq<char>, id: Seq<char>, name2: Seq<char>, id2: Seq<char>) -> bool {
    seq_lt(name, name2) || (name == name2 && seq_lt(id, id2))
}

/// The items at the first `k` positions of `s`.
pub open spec fn prefix_set(s: Seq<Seq<char>>, k: int) -> Set<Seq<char>> {
    Set::new(|x: Seq<char>| exists|j: int| 0 <= j < k && s[j] == x)
}

/// The listing order is transitive.
proof fn lemma_listed_before_transitive_all()
    ensures
        forall|n1: Seq<char>, i1: Seq<char>, n2: Seq<char>, i2: Seq<char>, n3: Seq<char>, i3: Seq<char>|
            #[trigger] listed_before(n1, i1, n2, i2) && #[trigger] listed_before(n2, i2, n3, i3) ==> listed_before(n1, i1, n3, i3),
{
    assert forall|n1: Seq<char>, i1: Seq<char>, n2: Seq<char>, i2: Seq<char>, n3: Seq<char>, i3: Seq<char>|
        #[trigger] listed_before(n1, i1, n2, i2) && #[trigger] listed_before(n2, i2, n3, i3) implies listed_before(n1, i1, n3, i3) by {
        if seq_lt(n1, n2) && seq_lt(n2, n3) {
            lemma_seq_lt_transitive(n1, n2, n3);
        } else if seq_lt(i1, i2) && seq_lt(i2, i3) {
            lemma_seq_lt_transitive(i1, i2, i3);
        }
    }
}

/// An item lies in `keys_outside` exactly when it is one of the keys and `keep` lacks it.
proof fn lemma_keys_outside(ks: Seq<Seq<char>>, keep: Set<Seq<char>>, n: int)
    requires
        0 <= n <= ks.len(),
    ensures
        forall|x: Seq<char>| #[trigger] keys_outside(ks, keep, n).contains(x) <==> (!keep.contains(x) && exists|p: int| 0 <= p < n && ks[p] == x),
    decreases n,
{
    if n > 0 {
        lemma_keys_outside(ks, keep, n - 1);
        let r = keys_outside(ks, keep, n - 1);
        assert forall|x: Seq<char>| #[trigger] keys_outside(ks, keep, n).contains(x) <==> (!keep.contains(x) && exists|p: int| 0 <= p < n && ks[p] == x) by {
            if keys_outside(ks, keep, n).contains(x) {
                if r.contains(x) {
                    let p = choose|p: int| 0 <= p < n - 1 && ks[p] == x;
                    assert(0 <= p < n && ks[p] == x);
                } else {
                    assert(x == ks[n - 1]);
                    assert(0 <= n - 1 < n && ks[n - 1] == x);
                }
            }
            if !keep.contains(x) && exists|p: int| 0 <= p < n && ks[p] == x {
                let p = choose|p: int| 0 <= p < n && ks[p] == x;
                if p < n - 1 {
                    assert(r.contains(x));
                } else {
                    assert(keys_outside(ks, keep, n) == r.push(ks[n - 1]));
                }
            }
        }
    }
}

} // verus!
