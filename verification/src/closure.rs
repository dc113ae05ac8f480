use vstd::prelude::*;
use crate::ordered_map::OrderedMap;
use crate::state::{InstalledMod, ModView};
use crate::text::{strs, contains_str};

verus! {

broadcast use vstd::seq_lib::lemma_seq_contains_after_push;

/// What dropping the last item of a sequence keeps.
proof fn lemma_drop_last_contains(q: Seq<Seq<char>>, x: Seq<char>)
    requires
        q.len() > 0,
    ensures
        q.drop_last().contains(x) ==> q.contains(x),
        q.contains(x) && x != q.last() ==> q.drop_last().contains(x),
{
    if q.drop_last().contains(x) {
        let k = choose|k: int| 0 <= k < q.drop_last().len() && q.drop_last()[k] == x;
        assert(q[k] == x);
    }
    if q.contains(x) && x != q.last() {
        let k = choose|k: int| 0 <= k < q.len() && q[k] == x;
        assert(q.drop_last()[k] == x);
    }
}

/// The installed mods of a map, by id, as the contracts see them.
pub open spec fn mod_views(installed: OrderedMap<InstalledMod>) -> Map<Seq<char>, ModView> {
    installed.map().map_values(|m: InstalledMod| m@)
}

/// Whether `s` holds every dependency of every installed mod that it holds.
pub open spec fn dep_closed(mods: Map<Seq<char>, ModView>, s: Set<Seq<char>>) -> bool {
    forall|id: Seq<char>, d: Seq<char>|
        s.contains(id) && mods.contains_key(id) && #[trigger] mods[id].dependencies.contains(d) ==> s.contains(d)
}

/// Whether `id` is reached from `roots` by following the dependencies of installed
/// mods: it lies in every set that holds the roots and is closed under dependencies.
pub open spec fn reachable(mods: Map<Seq<char>, ModView>, roots: Set<Seq<char>>, id: Seq<char>) -> bool {
    forall|s: Set<Seq<char>>| #[trigger] dep_closed(mods, s) && roots.subset_of(s) ==> s.contains(id)
}

/// All dependency ids listed by the first `n` mods.
pub open spec fn all_deps(vs: Seq<InstalledMod>, n: int) -> Seq<Seq<char>>
    decreases n,
{
    if n <= 0 {
        Seq::empty()
    } else {
        all_deps(vs, n - 1) + vs[n - 1]@.dependencies
    }
}

proof fn lemma_all_deps_contains(vs: Seq<InstalledMod>, n: int, p: int, d: Seq<char>)
    requires
        0 <= p < n <= vs.len(),
        vs[p]@.dependencies.contains(d),
    ensures
        all_deps(vs, n).contains(d),
    decreases n,
{
    if p < n - 1 {
        lemma_all_deps_contains(vs, n - 1, p, d);
        let a = all_deps(vs, n - 1);
        let k = choose|k: int| 0 <= k < a.len() && a[k] == d;
        assert((a + vs[n - 1]@.dependencies)[k] == d);
    } else {
        let a = all_deps(vs, n - 1);
        let ds = vs[n - 1]@.dependencies;
        let k = choose|k: int| 0 <= k < ds.len() && ds[k] == d;
        assert((a + ds)[a.len() + k] == d);
    }
}

/// Every dependency of an installed mod is listed in `all_deps`.
proof fn lemma_dep_in_universe(installed: OrderedMap<InstalledMod>, id: Seq<char>, d: Seq<char>)
    requires
        installed.wf(),
        mod_views(installed).contains_key(id),
        mod_views(installed)[id].dependencies.contains(d),
    ensures
        all_deps(installed.val_seq(), installed.spec_len() as int).contains(d),
{
    let p = installed.pos(id);
    installed.lemma_pos(p);
    lemma_all_deps_contains(installed.val_seq(), installed.spec_len() as int, p, d);
}

/// A sequence without repetition whose items all occur in `u` is no longer than `u`.
proof fn lemma_unique_within(m: Seq<Seq<char>>, u: Seq<Seq<char>>)
    requires
        m.no_duplicates(),
        forall|x: Seq<char>| m.contains(x) ==> u.contains(x),
    ensures
        m.len() <= u.len(),
{
    m.unique_seq_to_set();
    u.lemma_cardinality_of_set();
    assert(m.to_set().subset_of(u.to_set()));
    vstd::set_lib::lemma_len_subset(m.to_set(), u.to_set());
}

/// The ids reached from `roots` through the dependencies of the installed mods,
/// roots included, whether installed or not.
pub fn dependency_closure(installed: &OrderedMap<InstalledMod>, roots: &Vec<String>) -> (r: Vec<String>)
    requires
        installed.wf(),
    ensures
        strs(r@).no_duplicates(),
        forall|id: Seq<char>| #[trigger] strs(r@).contains(id) <==> reachable(mod_views(*installed), strs(roots@).to_set(), id),
{
    let ghost mods = mod_views(*installed);
    let ghost rs = strs(roots@).to_set();
    let ghost u = strs(roots@) + all_deps(installed.val_seq(), installed.spec_len() as int);
    let mut marked: Vec<String> = Vec::new();
    let mut queue: Vec<String> = Vec::new();
    let nr = roots.len();
    let mut i: usize = 0;
    while i < nr
        invariant
            nr == roots@.len(),
            i <= nr,
            rs == strs(roots@).to_set(),
            u == strs(roots@) + all_deps(installed.val_seq(), installed.spec_len() as int),
            strs(marked@).no_duplicates(),
            strs(queue@) == strs(marked@),
            forall|j: int| 0 <= j < i ==> strs(marked@).contains(#[trigger] strs(roots@)[j]),
            forall|x: Seq<char>| #[trigger] strs(marked@).contains(x) ==> rs.contains(x) && u.contains(x),
        decreases nr - i,
    {
        let ghost before = strs(marked@);
        assert(strs(roots@)[i as int] == roots@[i as int]@);
        if !contains_str(&marked, roots[i].as_str()) {
            marked.push(roots[i].clone());
            queue.push(roots[i].clone());
            proof {
                assert(strs(marked@) =~= before.push(roots@[i as int]@));
                assert(strs(queue@) =~= strs(marked@));
                assert(u[i as int] == roots@[i as int]@);
                assert forall|x: Seq<char>| #[trigger] strs(marked@).contains(x) implies rs.contains(x) && u.contains(x) by {
                    if x == roots@[i as int]@ {
                        assert(strs(roots@).contains(x));
                    } else {
                        assert(before.contains(x));
                    }
                }
                assert forall|j: int| 0 <= j < i + 1 implies strs(marked@).contains(#[trigger] strs(roots@)[j]) by {
                    if j < i {
                        assert(before.contains(strs(roots@)[j]));
                        let k = choose|k: int| 0 <= k < before.len() && before[k] == strs(roots@)[j];
                        assert(strs(marked@)[k] == before[k]);
                    } else {
                        assert(strs(marked@)[before.len() as int] == strs(roots@)[j]);
                    }
                }
            }
        }
        i = i + 1;
    }
    proof {
        assert forall|x: Seq<char>| #[trigger] strs(marked@).contains(x) implies reachable(mods, rs, x) by {
            assert forall|s: Set<Seq<char>>| #[trigger] dep_closed(mods, s) && rs.subset_of(s) implies s.contains(x) by {
                assert(rs.contains(x));
            }
        }
        assert forall|x: Seq<char>| rs.contains(x) implies strs(marked@).contains(x) by {
            let j = choose|j: int| 0 <= j < strs(roots@).len() && strs(roots@)[j] == x;
            assert(strs(marked@).contains(strs(roots@)[j]));
        }
    }
    while queue.len() > 0
        invariant
            installed.wf(),
            mods == mod_views(*installed),
            rs == strs(roots@).to_set(),
            u == strs(roots@) + all_deps(installed.val_seq(), installed.spec_len() as int),
            strs(marked@).no_duplicates(),
            forall|x: Seq<char>| rs.contains(x) ==> strs(marked@).contains(x),
            forall|x: Seq<char>| #[trigger] strs(marked@).contains(x) ==> reachable(mods, rs, x) && u.contains(x),
            forall|x: Seq<char>| #[trigger] strs(queue@).contains(x) ==> strs(marked@).contains(x),
            forall|x: Seq<char>, d: Seq<char>|
                strs(marked@).contains(x) && !strs(queue@).contains(x) && mods.contains_key(x)
                && #[trigger] mods[x].dependencies.contains(d) ==> strs(marked@).contains(d),
        decreases u.len() - marked@.len(), queue@.len(),
    {
        proof {
            lemma_unique_within(strs(marked@), u);
        }
        let ghost q0 = strs(queue@);
        let ghost m0 = strs(marked@);
        let cur = queue.pop().unwrap();
        proof {
            assert(q0.last() == cur@);
            assert(strs(queue@) =~= q0.drop_last());
            assert(q0.contains(cur@));
            assert forall|x: Seq<char>| q0.contains(x) && x != cur@ implies strs(queue@).contains(x) by {
                lemma_drop_last_contains(q0, x);
            }
            assert forall|x: Seq<char>| #[trigger] strs(queue@).contains(x) implies strs(marked@).contains(x) by {
                lemma_drop_last_contains(q0, x);
            }
        }
        match installed.get(cur.as_str()) {
            None => {
                proof {
                    assert forall|x: Seq<char>, d: Seq<char>|
                        strs(marked@).contains(x) && !strs(queue@).contains(x) && mods.contains_key(x)
                        && #[trigger] mods[x].dependencies.contains(d) implies strs(marked@).contains(d) by {
                        if x != cur@ {
                            if q0.contains(x) {
                                let k = choose|k: int| 0 <= k < q0.len() && q0[k] == x;
                                assert(strs(queue@)[k] == x);
                            }
                        }
                    }
                }
            },
            Some(m) => {
                let nd = m.dependencies.len();
                let mut j: usize = 0;
                while j < nd
                    invariant
                        installed.wf(),
                        mods == mod_views(*installed),
                        mods.contains_key(cur@),
                        mods[cur@] == m@,
                        reachable(mods, rs, cur@),
                        nd == m.dependencies@.len(),
                        j <= nd,
                        rs == strs(roots@).to_set(),
                        u == strs(roots@) + all_deps(installed.val_seq(), installed.spec_len() as int),
                        strs(marked@).no_duplicates(),
                        m0.len() <= marked@.len(),
                        forall|x: Seq<char>| m0.contains(x) ==> strs(marked@).contains(x),
                        forall|x: Seq<char>| q0.contains(x) && x != cur@ ==> strs(queue@).contains(x),
                        forall|x: Seq<char>| rs.contains(x) ==> strs(marked@).contains(x),
                        forall|x: Seq<char>| #[trigger] strs(marked@).contains(x) ==> reachable(mods, rs, x) && u.contains(x),
                        forall|x: Seq<char>| #[trigger] strs(queue@).contains(x) ==> strs(marked@).contains(x),
                        forall|k: int| 0 <= k < j ==> strs(marked@).contains(#[trigger] m@.dependencies[k]),
                        forall|x: Seq<char>, d: Seq<char>|
                            strs(marked@).contains(x) && !strs(queue@).contains(x) && x != cur@ && mods.contains_key(x)
                            && #[trigger] mods[x].dependencies.contains(d) ==> strs(marked@).contains(d),
                        marked@.len() > m0.len() || strs(queue@) == q0.drop_last(),
                    decreases nd - j,
                {
                    let dep = &m.dependencies[j];
                    assert(m@.dependencies[j as int] == dep@);
                    if !contains_str(&marked, dep.as_str()) {
                        let ghost mb = strs(marked@);
                        let ghost qb = strs(queue@);
                        marked.push(dep.clone());
                        queue.push(dep.clone());
                        proof {
                            assert(strs(marked@) =~= mb.push(dep@));
                            assert(strs(queue@) =~= qb.push(dep@));
                            assert(mods[cur@].dependencies.contains(dep@));
                            assert(reachable(mods, rs, dep@)) by {
                                assert forall|s: Set<Seq<char>>| #[trigger] dep_closed(mods, s) && rs.subset_of(s) implies s.contains(dep@) by {
                                    assert(s.contains(cur@));
                                }
                            }
                            lemma_dep_in_universe(*installed, cur@, dep@);
                            let ad = all_deps(installed.val_seq(), installed.spec_len() as int);
                            let kk = choose|kk: int| 0 <= kk < ad.len() && ad[kk] == dep@;
                            assert(u[strs(roots@).len() + kk] == dep@);
                            assert forall|x: Seq<char>| mb.contains(x) implies strs(marked@).contains(x) by {
                                let k = choose|k: int| 0 <= k < mb.len() && mb[k] == x;
                                assert(strs(marked@)[k] == x);
                            }
                            assert forall|x: Seq<char>| qb.contains(x) implies strs(queue@).contains(x) by {
                                let k = choose|k: int| 0 <= k < qb.len() && qb[k] == x;
                                assert(strs(queue@)[k] == x);
                            }
                            assert(strs(marked@)[mb.len() as int] == dep@);
                            assert(strs(queue@)[qb.len() as int] == dep@);
                        }
                    }
                    j = j + 1;
                }
                proof {
                    assert forall|x: Seq<char>, d: Seq<char>|
                        strs(marked@).contains(x) && !strs(queue@).contains(x) && mods.contains_key(x)
                        && #[trigger] mods[x].dependencies.contains(d) implies strs(marked@).contains(d) by {
                        if x == cur@ {
                            let k = choose|k: int| 0 <= k < m@.dependencies.len() && m@.dependencies[k] == d;
                            assert(strs(marked@).contains(m@.dependencies[k]));
                        }
                    }
                }
            },
        }
        proof {
            lemma_unique_within(strs(marked@), u);
            if marked@.len() == m0.len() {
                assert(strs(queue@).len() < q0.len());
            }
        }
    }
    proof {
        let ms = strs(marked@).to_set();
        assert(dep_closed(mods, ms)) by {
            assert forall|x: Seq<char>, d: Seq<char>|
                ms.contains(x) && mods.contains_key(x) && #[trigger] mods[x].dependencies.contains(d) implies ms.contains(d) by {
                assert(!strs(queue@).contains(x));
            }
        }
        assert(rs.subset_of(ms));
        assert forall|id: Seq<char>| reachable(mods, rs, id) implies #[trigger] strs(marked@).contains(id) by {
            assert(ms.contains(id));
        }
    }
    marked
}

} // verus!
