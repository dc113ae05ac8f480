use vstd::prelude::*;
use crate::closure::{reachable, dep_closed};
use crate::digest::hex_lower;
use crate::install::{with_member, installed_view, recorded_explicit, spec_update_status, spec_needs_download, UpdateStatus};
use crate::profile::{with_enabled, lemma_with_enabled, ids_to_flip, SwitchPlan};
use crate::text::strs;
use crate::provider::TargetView;
use crate::manage::{without, strip_profiles};
use crate::ordered_map::OrderedMap;
use crate::provider::{ModProvider, ProviderRegistry};
use crate::resolve::{unseen, root_first, lemma_target_pos, dep_steps, chosen_file, first_primary};
use crate::modrinth::{Dependency, VersionFile};
use crate::state::{KmgrState, InstalledMod, ModView, mod_path, loaded_profiles, explicit_ids};
use crate::text::{lowercase, alphanumeric};
use crate::setup::version_char;

verus! {

broadcast use vstd::seq_lib::lemma_seq_contains_after_push;

/// The disabled file of a mod is its enabled file with `.disabled` appended, so
/// disabling renames `mods/x.jar` to `mods/x.jar.disabled` and enabling renames it back.
pub proof fn law_disabled_path(folder: Seq<char>, filename: Seq<char>)
    ensures
        mod_path(folder, filename, false) == mod_path(folder, filename, true) + ".disabled"@,
{
}

/// Disabling an enabled mod and enabling it again gives back the installed mods:
/// toggling keeps everything but the flag.
pub proof fn law_disable_then_enable(mods: Map<Seq<char>, ModView>, id: Seq<char>)
    requires
        mods.contains_key(id),
        mods[id].enabled,
    ensures
        ({
            let off = mods.insert(id, ModView { enabled: false, ..mods[id] });
            off.insert(id, ModView { enabled: true, ..off[id] }) == mods
        }),
{
    let off = mods.insert(id, ModView { enabled: false, ..mods[id] });
    assert(off.insert(id, ModView { enabled: true, ..off[id] }) =~= mods);
}

/// After a provider is registered, looking it up by any id that lowercases to its
/// lowercased id gives that provider: lookups do not depend on letter case.
pub proof fn law_registry_lookup_after_register<P: ModProvider>(before: ProviderRegistry<P>, after: ProviderRegistry<P>, p: P, id: Seq<char>)
    requires
        after.view() == before.view().insert(lowercase(p.spec_id()), p),
        lowercase(id) == lowercase(p.spec_id()),
    ensures
        after.view().contains_key(lowercase(id)),
        after.view()[lowercase(id)] == p,
{
}

/// Creating a profile that did not exist and deleting it again gives back the profiles.
pub proof fn law_create_then_delete(pm: Map<Seq<char>, Seq<Seq<char>>>, name: Seq<char>)
    requires
        !pm.contains_key(name),
    ensures
        pm.insert(name, Seq::empty()).remove(name) == pm,
{
    assert(pm.insert(name, Seq::empty()).remove(name) =~= pm);
}

/// The profiles after renaming `a` to `b`.
pub open spec fn renamed(pm: Map<Seq<char>, Seq<Seq<char>>>, a: Seq<char>, b: Seq<char>) -> Map<Seq<char>, Seq<Seq<char>>> {
    pm.remove(a).insert(b, pm[a])
}

/// The active profile after renaming `a` to `b`.
pub open spec fn renamed_active(act: Seq<char>, a: Seq<char>, b: Seq<char>) -> Seq<char> {
    if act == a {
        b
    } else {
        act
    }
}

/// Renaming a profile and renaming it back gives back the profiles and the
/// active profile.
pub proof fn law_rename_round_trip(pm: Map<Seq<char>, Seq<Seq<char>>>, act: Seq<char>, a: Seq<char>, b: Seq<char>)
    requires
        pm.contains_key(a),
        !pm.contains_key(b),
        pm.contains_key(act),
    ensures
        renamed(renamed(pm, a, b), b, a) == pm,
        renamed_active(renamed_active(act, a, b), b, a) == act,
{
    assert(renamed(renamed(pm, a, b), b, a) =~= pm);
}

proof fn lemma_without_absent(s: Seq<Seq<char>>, x: Seq<char>)
    requires
        !s.contains(x),
    ensures
        without(s, x) == s,
    decreases s.len(),
{
    if s.len() > 0 {
        if s.drop_last().contains(x) {
            let k = choose|k: int| 0 <= k < s.drop_last().len() && s.drop_last()[k] == x;
            assert(s[k] == x);
        }
        lemma_without_absent(s.drop_last(), x);
        assert(s.drop_last().push(s.last()) =~= s);
    }
}

proof fn lemma_without_contains(s: Seq<Seq<char>>, x: Seq<char>, y: Seq<char>)
    ensures
        without(s, x).contains(y) == (s.contains(y) && y != x),
    decreases s.len(),
{
    if s.len() > 0 {
        lemma_without_contains(s.drop_last(), x, y);
        if s.drop_last().contains(y) {
            let k = choose|k: int| 0 <= k < s.drop_last().len() && s.drop_last()[k] == y;
            assert(s[k] == y);
        }
        if s.contains(y) && y != s.last() {
            let k = choose|k: int| 0 <= k < s.len() && s[k] == y;
            assert(s.drop_last()[k] == y);
        }
    }
}

/// Adding a mod that the active profile did not list and removing it again
/// gives back the profiles.
pub proof fn law_add_then_remove(pm: Map<Seq<char>, Seq<Seq<char>>>, act: Seq<char>, id: Seq<char>)
    requires
        pm.contains_key(act),
        !pm[act].contains(id),
    ensures
        ({
            let added = pm.insert(act, pm[act].push(id));
            added.insert(act, without(added[act], id)) == pm
        }),
{
    let s = pm[act];
    lemma_without_absent(s, id);
    assert(without(s.push(id), id) == without(s, id)) by {
        assert(s.push(id).drop_last() =~= s);
    }
    assert(pm.insert(act, pm[act].push(id)).insert(act, s) =~= pm);
}

/// After a mod is uninstalled, it is neither installed nor listed by any profile.
pub proof fn law_uninstalled_mod_is_gone(mods: Map<Seq<char>, ModView>, pm: Map<Seq<char>, Seq<Seq<char>>>, id: Seq<char>)
    ensures
        !mods.remove(id).contains_key(id),
        forall|p: Seq<char>| #[trigger] strip_profiles(pm, id).contains_key(p) ==> !strip_profiles(pm, id)[p].contains(id),
{
    assert forall|p: Seq<char>| #[trigger] strip_profiles(pm, id).contains_key(p) implies !strip_profiles(pm, id)[p].contains(id) by {
        lemma_without_contains(pm[p], id, id);
    }
}

/// Loading always leaves the active profile among the profiles.
pub proof fn law_loaded_active_profile_exists(p: Map<Seq<char>, Seq<Seq<char>>>, active: Seq<char>, installed: OrderedMap<InstalledMod>)
    ensures
        loaded_profiles(p, active, installed).contains_key(active),
{
}

/// No explicit id is among the first `n` when none of those mods is explicit.
proof fn lemma_no_explicit_ids(ks: Seq<Seq<char>>, vs: Seq<InstalledMod>, n: int)
    requires
        n <= vs.len(),
        forall|i: int| 0 <= i < n ==> !(#[trigger] vs[i]).is_explicit,
    ensures
        explicit_ids(ks, vs, n).len() == 0,
    decreases n,
{
    if n > 0 {
        lemma_no_explicit_ids(ks, vs, n - 1);
        assert(!vs[n - 1].is_explicit);
    }
}

/// Loading gives back the profiles that were saved (with the other fields, which
/// `from_loaded` carries over as they are), whenever the saved state already
/// lists its active profile; the one exception is a lone empty "default" profile
/// while some installed mod is explicit, which loading fills.
pub proof fn law_reload_gives_back_profiles(p: Map<Seq<char>, Seq<Seq<char>>>, active: Seq<char>, installed: OrderedMap<InstalledMod>)
    requires
        installed.wf(),
        p.contains_key(active),
        !(p.dom() == set![active] && active == "default"@ && p[active].len() == 0
            && exists|i: int| 0 <= i < installed.spec_len() && (#[trigger] installed.val_seq()[i]).is_explicit),
    ensures
        loaded_profiles(p, active, installed) == p,
{
    if p.dom() == set![active] && active == "default"@ && p[active].len() == 0 && installed.spec_len() > 0 {
        lemma_no_explicit_ids(installed.key_seq(), installed.val_seq(), installed.spec_len() as int);
        assert(explicit_ids(installed.key_seq(), installed.val_seq(), installed.spec_len() as int) =~= p[active]);
        assert(p.insert(active, explicit_ids(installed.key_seq(), installed.val_seq(), installed.spec_len() as int)) =~= p);
    }
}

/// A mod installed explicitly joins the active profile, when that profile exists.
pub proof fn law_explicit_install_joins_profile(pm: Map<Seq<char>, Seq<Seq<char>>>, act: Seq<char>, id: Seq<char>)
    requires
        pm.contains_key(act),
    ensures
        with_member(pm, act, id).contains_key(act),
        with_member(pm, act, id)[act].contains(id),
{
    if !pm[act].contains(id) {
        assert(pm[act].push(id)[pm[act].len() as int] == id);
    }
}

/// Once a downloaded target is recorded, the workspace holds its id with the
/// target's display name, version, source, file, address, hash and
/// dependencies, enabled: installing the same target again finds it installed
/// and downloads nothing.
pub proof fn law_recorded_target_is_installed(s0: KmgrState, s1: KmgrState, t: TargetView, is_explicit: bool)
    requires
        s1.mods() == s0.mods().insert(t.id, installed_view(t, is_explicit)),
    ensures
        s1.mods().contains_key(t.id),
        s1.mods()[t.id].name == t.name,
        s1.mods()[t.id].version == t.version,
        s1.mods()[t.id].source == t.source,
        s1.mods()[t.id].filename == t.filename,
        s1.mods()[t.id].download_url == t.download_url,
        s1.mods()[t.id].hash == t.hash,
        s1.mods()[t.id].dependencies == t.dependencies,
        s1.mods()[t.id].is_explicit == is_explicit,
        s1.mods()[t.id].enabled,
{
}

/// When an installed mod answers to the query exactly (the mod that `find_mod_id`
/// gives), the fuzzy lookup picks that same mod, whatever the similarities.
pub proof fn law_fuzzy_agrees_with_exact(s: KmgrState, query: Seq<char>, similarity: Seq<u64>, i: int)
    requires
        0 <= i < s.installed_mods.spec_len(),
        s.answers_to(i, query),
        forall|j: int| 0 <= j < i ==> !#[trigger] s.answers_to(j, query),
    ensures
        s.fuzzy_pick(i, query, similarity),
        forall|k: int| #[trigger] s.fuzzy_pick(k, query, similarity) ==> k == i,
{
    assert forall|k: int| #[trigger] s.fuzzy_pick(k, query, similarity) implies k == i by {
        if k < i {
            assert(!s.answers_to(k, query));
        } else if k > i {
            assert(s.answers_to(i, query));
        }
    }
}

/// No position among the first `n` is to flip when each flag already equals reachability.
proof fn lemma_nothing_to_flip(ks: Seq<Seq<char>>, vs: Seq<ModView>, reach: Set<Seq<char>>, want: bool, n: int)
    requires
        n <= ks.len(),
        n <= vs.len(),
        forall|p: int| 0 <= p < n ==> #[trigger] vs[p].enabled == reach.contains(ks[p]),
    ensures
        ids_to_flip(ks, vs, reach, want, n).len() == 0,
    decreases n,
{
    if n > 0 {
        lemma_nothing_to_flip(ks, vs, reach, want, n - 1);
        assert(vs[n - 1].enabled == reach.contains(ks[n - 1]));
    }
}

/// Switching to a profile again, right after a switch to it in which no rename
/// failed (every installed mod is then enabled exactly when the profile reaches
/// it, which `finish_switch` ensures), renames nothing: the second plan is empty.
pub proof fn law_second_switch_is_empty(
    s0: KmgrState,
    s1: KmgrState,
    name: Seq<char>,
    en: Seq<Seq<char>>,
    dis: Seq<Seq<char>>,
    failed: Seq<Seq<char>>,
    plan2: SwitchPlan,
)
    requires
        s1.wf(),
        s1.mods() == with_enabled(with_enabled(s0.mods(), en, failed, true), dis, failed, false),
        s1.profiles == s0.profiles,
        forall|k: Seq<char>| #[trigger] s1.mods().contains_key(k) ==> s1.mods()[k].enabled == s0.profile_reach(name).contains(k),
        s1.is_switch_plan(name, plan2),
    ensures
        plan2.to_enable@.len() == 0,
        plan2.to_disable@.len() == 0,
{
    let m0 = s0.mods();
    let m1 = s1.mods();
    let mid = with_enabled(m0, en, failed, true);
    assert forall|k: Seq<char>| #[trigger] m1.contains_key(k) == m0.contains_key(k)
        && (m0.contains_key(k) ==> m1[k].dependencies == m0[k].dependencies) by {
        lemma_with_enabled(m0, en, failed, true, k);
        lemma_with_enabled(mid, dis, failed, false, k);
    }
    assert forall|st: Set<Seq<char>>| #[trigger] dep_closed(m1, st) == dep_closed(m0, st) by {
        if dep_closed(m1, st) {
            assert forall|id: Seq<char>, d: Seq<char>| st.contains(id) && m0.contains_key(id) && #[trigger] m0[id].dependencies.contains(d)
                implies st.contains(d) by {
                assert(m1.contains_key(id));
                assert(m1[id].dependencies.contains(d));
            }
        }
        if dep_closed(m0, st) {
            assert forall|id: Seq<char>, d: Seq<char>| st.contains(id) && m1.contains_key(id) && #[trigger] m1[id].dependencies.contains(d)
                implies st.contains(d) by {
                assert(m0.contains_key(id));
                assert(m0[id].dependencies.contains(d));
            }
        }
    }
    assert(s1.profile_map() == s0.profile_map());
    let roots = s0.profile_map()[name].to_set();
    assert forall|x: Seq<char>| #[trigger] reachable(m1, roots, x) == reachable(m0, roots, x) by {
        if reachable(m1, roots, x) {
            assert forall|st: Set<Seq<char>>| #[trigger] dep_closed(m0, st) && roots.subset_of(st) implies st.contains(x) by {
                assert(dep_closed(m1, st));
            }
        }
        if reachable(m0, roots, x) {
            assert forall|st: Set<Seq<char>>| #[trigger] dep_closed(m1, st) && roots.subset_of(st) implies st.contains(x) by {
                assert(dep_closed(m0, st));
            }
        }
    }
    assert(s1.profile_reach(name) =~= s0.profile_reach(name));
    let ks = s1.installed_mods.key_seq();
    let vs = s1.installed_mods.val_seq().map_values(|m: InstalledMod| m@);
    let n = s1.installed_mods.spec_len() as int;
    let reach = s1.profile_reach(name);
    assert forall|p: int| 0 <= p < n implies #[trigger] vs[p].enabled == reach.contains(ks[p]) by {
        s1.installed_mods.lemma_pos(p);
        assert(m1.contains_key(ks[p]));
        assert(m1[ks[p]] == s1.installed_mods.val_seq()[p]@);
    }
    lemma_nothing_to_flip(ks, vs, reach, true, n);
    lemma_nothing_to_flip(ks, vs, reach, false, n);
    assert(strs(plan2.to_enable@).len() == plan2.to_enable@.len());
    assert(strs(plan2.to_disable@).len() == plan2.to_disable@.len());
}

/// A mod that was installed explicitly stays explicit when it is downloaded
/// again, at any position of a resolution: dependencies never demote it.
pub proof fn law_explicit_mod_stays_explicit(s0: KmgrState, s1: KmgrState, t: TargetView, index: int)
    requires
        s1.mods() == s0.mods().insert(t.id, installed_view(t, recorded_explicit(s0.mods(), t.id, index))),
        s0.mods().contains_key(t.id),
        s0.mods()[t.id].is_explicit,
    ensures
        s1.mods()[t.id].is_explicit,
{
}

/// Adding a mod to the active profile twice in a row is adding it once: the
/// first addition appends it when the profile lacks it (what
/// `add_to_active_profile` does, as `with_member` states), and the second finds
/// it there and changes nothing.
pub proof fn law_add_twice_is_add_once(pm: Map<Seq<char>, Seq<Seq<char>>>, act: Seq<char>, id: Seq<char>)
    requires
        pm.contains_key(act),
    ensures
        with_member(pm, act, id).contains_key(act),
        with_member(pm, act, id)[act].contains(id),
        with_member(with_member(pm, act, id), act, id) == with_member(pm, act, id),
{
    if !pm[act].contains(id) {
        assert(pm[act].push(id)[pm[act].len() as int] == id);
    }
}

/// When no installed mod answers to the query exactly but some mod's lowercased
/// id or name equals the lowercased query, the fuzzy lookup picks the first such
/// mod and no other: a case-insensitive match comes before any substring or
/// similarity match.
pub proof fn law_fuzzy_prefers_case_insensitive(s: KmgrState, query: Seq<char>, similarity: Seq<u64>, i: int)
    requires
        0 <= i < s.installed_mods.spec_len(),
        forall|j: int| 0 <= j < s.installed_mods.spec_len() ==>
            s.installed_mods.key_seq()[j] != query && (#[trigger] s.installed_mods.val_seq()[j]).name@ != query,
        lowercase(s.installed_mods.key_seq()[i]) == lowercase(query)
            || lowercase(s.installed_mods.val_seq()[i].name@) == lowercase(query),
        forall|j: int| 0 <= j < i ==>
            lowercase(s.installed_mods.key_seq()[j]) != lowercase(query)
            && lowercase((#[trigger] s.installed_mods.val_seq()[j]).name@) != lowercase(query),
    ensures
        s.fuzzy_pick(i, query, similarity),
        forall|k: int| #[trigger] s.fuzzy_pick(k, query, similarity) ==> k == i,
{
    assert forall|j: int| 0 <= j < s.installed_mods.spec_len() implies !#[trigger] s.answers_to(j, query) by {
        assert(s.installed_mods.val_seq()[j].name@ != query);
    }
    assert forall|j: int| 0 <= j < i implies !#[trigger] s.answers_to_lowercase(j, lowercase(query)) by {
        assert(lowercase(s.installed_mods.val_seq()[j].name@) != lowercase(query));
    }
    assert(s.answers_to_lowercase(i, lowercase(query)));
    assert forall|k: int| #[trigger] s.fuzzy_pick(k, query, similarity) implies k == i by {
        if k < i && 0 <= k {
            assert(!s.answers_to_lowercase(k, lowercase(query)));
        }
    }
}

/// The root project's target comes first among the targets of a finished
/// resolution, wherever it stood; the other targets follow in their order.
pub proof fn law_root_target_first(ts: Seq<TargetView>, rid: Seq<char>, p: int)
    requires
        0 <= p < ts.len(),
        ts[p].id == rid,
        forall|j: int| 0 <= j < p ==> (#[trigger] ts[j]).id != rid,
    ensures
        root_first(ts, Some(rid)).len() == ts.len(),
        root_first(ts, Some(rid))[0] == ts[p],
        root_first(ts, Some(rid))[0].id == rid,
        forall|j: int| 0 <= j < p ==> #[trigger] root_first(ts, Some(rid))[j + 1] == ts[j],
        forall|j: int| p < j < ts.len() ==> #[trigger] root_first(ts, Some(rid))[j] == ts[j],
{
    lemma_target_pos(ts, rid, 0, p);
}

/// Pruning never removes an explicitly installed mod: after a prune (which keeps
/// exactly the mods that pruning keeps), every mod that was installed
/// explicitly is still installed, whatever the profiles list.
pub proof fn law_prune_keeps_explicit(s0: KmgrState, s1: KmgrState)
    requires
        s1.mods() == s0.mods().restrict(s0.kept_by_prune()),
    ensures
        forall|k: Seq<char>| #[trigger] s0.mods().contains_key(k) && s0.mods()[k].is_explicit
            ==> s1.mods().contains_key(k) && s1.mods()[k] == s0.mods()[k],
{
    assert forall|k: Seq<char>| #[trigger] s0.mods().contains_key(k) && s0.mods()[k].is_explicit
        implies s0.kept_by_prune().contains(k) by {
        assert(s0.prune_roots().contains(k));
        assert forall|st: Set<Seq<char>>| #[trigger] dep_closed(s0.mods(), st) && s0.prune_roots().subset_of(st)
            implies st.contains(k) by {}
    }
}

/// The punctuation that a Minecraft version may hold, `.`, `-` and `_`, is
/// accepted as are alphanumeric characters: every character of a text made only
/// of these counts as a version character (so `1.20.5-rc1` and `1.21-pre1` pass
/// the character check).
pub proof fn law_version_characters(v: Seq<char>)
    requires
        forall|i: int| 0 <= i < v.len() ==> alphanumeric(#[trigger] v[i]) || v[i] == '.' || v[i] == '-' || v[i] == '_',
    ensures
        forall|i: int| 0 <= i < v.len() ==> version_char(#[trigger] v[i]),
        version_char('.'),
        version_char('-'),
        version_char('_'),
{
}

/// Whether `step` is what a "required" dependency `d` gives: a version step for
/// its version, or, when it names no version, a project step for its project.
pub open spec fn step_from(d: Dependency, step: (bool, Seq<char>)) -> bool {
    &&& d.dependency_type@ == "required"@
    &&& if step.0 {
        d.version_id matches Some(v) && v@ == step.1
    } else {
        d.version_id is None && (d.project_id matches Some(p) && p@ == step.1)
    }
}

/// Whether step `k` of the steps of `ds` comes from one of the dependencies of `ds`.
pub open spec fn step_has_source(ds: Seq<Dependency>, k: int) -> bool {
    exists|j: int| 0 <= j < ds.len() && #[trigger] step_from(ds[j], dep_steps(ds)[k])
}

/// Every step that resolution takes for a version comes from one of its
/// dependencies of type "required": a version step names that dependency's
/// version, a project step its project (and only when it names no version).
pub proof fn law_steps_come_from_required_dependencies(ds: Seq<Dependency>)
    ensures
        forall|k: int| 0 <= k < dep_steps(ds).len() ==> #[trigger] step_has_source(ds, k),
    decreases ds.len(),
{
    if ds.len() > 0 {
        let prev = ds.drop_last();
        law_steps_come_from_required_dependencies(prev);
        let r = dep_steps(prev);
        let cur = dep_steps(ds);
        assert forall|k: int| 0 <= k < cur.len() implies #[trigger] step_has_source(ds, k) by {
            if k < r.len() {
                assert(step_has_source(prev, k));
                assert(cur[k] == r[k]);
                let j = choose|j: int| 0 <= j < prev.len() && #[trigger] step_from(prev[j], r[k]);
                assert(ds[j] == prev[j]);
                assert(step_from(ds[j], cur[k]));
            } else {
                let d = ds.last();
                assert(ds[ds.len() - 1] == d);
                assert(cur != r);
                if d.version_id is Some {
                    assert(cur == r.push((true, d.version_id->0@)));
                } else {
                    assert(cur == r.push((false, d.project_id->0@)));
                }
                assert(k == r.len());
                assert(step_from(ds[ds.len() - 1], cur[k]));
            }
        }
    }
}

/// The file that installing a version takes is its first primary file; only
/// when no file is primary does it take the first file.
pub proof fn law_chosen_file_is_first_primary(files: Seq<VersionFile>)
    ensures
        chosen_file(files) >= 0 ==> chosen_file(files) < files.len(),
        (exists|i: int| 0 <= i < files.len() && (#[trigger] files[i]).primary) ==> files[chosen_file(files)].primary
            && forall|j: int| 0 <= j < chosen_file(files) ==> !(#[trigger] files[j]).primary,
        (forall|i: int| 0 <= i < files.len() ==> !(#[trigger] files[i]).primary) ==>
            chosen_file(files) == (if files.len() > 0 { 0int } else { -1int }),
{
    lemma_first_primary_facts(files, 0);
    if exists|i: int| 0 <= i < files.len() && (#[trigger] files[i]).primary {
        let i = choose|i: int| 0 <= i < files.len() && (#[trigger] files[i]).primary;
        assert(first_primary(files, 0) != -1);
    }
}

proof fn lemma_first_primary_facts(files: Seq<VersionFile>, i: int)
    requires
        0 <= i <= files.len(),
    ensures
        first_primary(files, i) >= -1,
        first_primary(files, i) == -1 <==> forall|j: int| i <= j < files.len() ==> !(#[trigger] files[j]).primary,
        first_primary(files, i) >= 0 ==> i <= first_primary(files, i) < files.len()
            && files[first_primary(files, i)].primary
            && forall|j: int| i <= j < first_primary(files, i) ==> !(#[trigger] files[j]).primary,
    decreases files.len() - i,
{
    if i < files.len() {
        lemma_first_primary_facts(files, i + 1);
    }
}

/// A mod whose latest version is the installed one is up to date, and with no
/// known latest version its status is unknown: an update is only reported for
/// another version.
pub proof fn law_update_only_for_another_version(installed: Seq<char>, latest: Seq<char>)
    ensures
        spec_update_status(installed, Some(installed)) == UpdateStatus::UpToDate,
        spec_update_status(installed, None) == UpdateStatus::Unknown,
        spec_update_status(installed, Some(latest)) == UpdateStatus::Available ==> latest != installed,
{
}

/// A missing mod file is always downloaded again, and a present file whose
/// digest equals the recorded hash never is.
pub proof fn law_missing_file_is_restored(recorded: Option<Seq<char>>, computed: Option<Seq<char>>, h: Seq<char>)
    ensures
        spec_needs_download(false, recorded, computed),
        !spec_needs_download(true, Some(h), Some(h)),
        !spec_needs_download(true, None, computed),
{
}

/// A resolution batch never holds a request whose project was seen before.
pub proof fn law_batch_skips_seen(q: Seq<(Seq<char>, Option<Seq<char>>)>, seen: Seq<Seq<char>>)
    ensures
        forall|i: int| 0 <= i < unseen(q, seen).len() ==> !seen.contains(#[trigger] unseen(q, seen)[i].0),
    decreases q.len(),
{
    if q.len() > 0 {
        law_batch_skips_seen(q.drop_last(), seen);
        let r = unseen(q.drop_last(), seen);
        assert forall|i: int| 0 <= i < unseen(q, seen).len() implies !seen.contains(#[trigger] unseen(q, seen)[i].0) by {
            if i < r.len() {
                assert(unseen(q, seen)[i] == r[i]);
            }
        }
    }
}

/// Hexadecimal writing gives two digits per byte.
pub proof fn law_hex_length(data: Seq<u8>)
    ensures
        hex_lower(data).len() == 2 * data.len(),
    decreases data.len(),
{
    if data.len() > 0 {
        law_hex_length(data.drop_last());
    }
}

/// What a reached mod depends on is reached too.
proof fn lemma_reach_closed(mods: Map<Seq<char>, ModView>, roots: Set<Seq<char>>, x: Seq<char>, d: Seq<char>)
    requires
        reachable(mods, roots, x),
        mods.contains_key(x),
        mods[x].dependencies.contains(d),
    ensures
        reachable(mods, roots, d),
{
    assert forall|s: Set<Seq<char>>| #[trigger] dep_closed(mods, s) && roots.subset_of(s) implies s.contains(d) by {
        assert(s.contains(x));
    }
}

/// Pruning is idempotent: after a prune, every installed mod is kept by pruning,
/// so a second prune removes nothing.
pub proof fn law_prune_idempotent(s0: KmgrState, s1: KmgrState)
    requires
        s0.wf(),
        s1.wf(),
        s1.mods() == s0.mods().restrict(s0.kept_by_prune()),
        s1.profile_map() == s0.profile_map(),
    ensures
        forall|k: Seq<char>| #[trigger] s1.mods().contains_key(k) ==> s1.kept_by_prune().contains(k),
{
    let r0 = s0.prune_roots();
    let k0 = s0.kept_by_prune();
    let m0 = s0.mods();
    let m1 = s1.mods();
    assert forall|x: Seq<char>| r0.contains(x) implies reachable(m0, r0, x) by {
        assert forall|s: Set<Seq<char>>| #[trigger] dep_closed(m0, s) && r0.subset_of(s) implies s.contains(x) by {}
    }
    assert(s1.prune_roots() =~= r0) by {
        assert forall|x: Seq<char>| s1.prune_roots().contains(x) <==> r0.contains(x) by {
            if m0.contains_key(x) && m0[x].is_explicit {
                assert(r0.contains(x));
                assert(k0.contains(x));
            }
        }
    }
    assert forall|k: Seq<char>| #[trigger] m1.contains_key(k) implies s1.kept_by_prune().contains(k) by {
        assert(k0.contains(k));
        assert forall|s: Set<Seq<char>>| #[trigger] dep_closed(m1, s) && r0.subset_of(s) implies s.contains(k) by {
            let t = s.intersect(k0);
            assert(dep_closed(m0, t)) by {
                assert forall|x: Seq<char>, d: Seq<char>|
                    t.contains(x) && m0.contains_key(x) && #[trigger] m0[x].dependencies.contains(d) implies t.contains(d) by {
                    assert(m1.contains_key(x));
                    assert(m1[x] == m0[x]);
                    assert(s.contains(d));
                    lemma_reach_closed(m0, r0, x, d);
                }
            }
            assert(r0.subset_of(t));
            assert(t.contains(k));
        }
    }
}

} // verus!
