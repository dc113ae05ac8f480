use vstd::prelude::*;
use crate::modrinth::{ModrinthClient, Project, Version, Dependency};
use crate::ordered_map::OrderedMap;
use crate::resolve::{DepStep, step_view, fetched_view};
use crate::text::{strs, str_eq, string_of, contains_str};

verus! {

broadcast use vstd::seq_lib::lemma_seq_contains_after_push;

/// A depth-first resolver of Modrinth projects and their required dependencies.
pub struct DependencyResolver {
    pub modrinth: ModrinthClient,
}

/// The state of a depth-first resolution: the projects still to visit (the last
/// one next), the ids and slugs already visited, and the versions settled, by
/// project id.
pub struct DfsResolution {
    pub queue: Vec<String>,
    pub seen: Vec<String>,
    pub resolved: OrderedMap<Version>,
}

/// What is left of a stack after popping the entries that `seen` holds from its
/// end, and the entry found, if any.
pub open spec fn pop_unseen(q: Seq<Seq<char>>, seen: Seq<Seq<char>>) -> (Seq<Seq<char>>, Option<Seq<char>>)
    decreases q.len(),
{
    if q.len() == 0 {
        (q, None)
    } else if seen.contains(q.last()) {
        pop_unseen(q.drop_last(), seen)
    } else {
        (q.drop_last(), Some(q.last()))
    }
}

/// The steps that the required dependencies of a version need in depth-first
/// resolution: a dependency on a project not yet settled names that project; one
/// on a settled project needs nothing; one without a project but on a version
/// asks for that version.
pub open spec fn dfs_steps(ds: Seq<Dependency>, settled: Set<Seq<char>>) -> Seq<(bool, Seq<char>)>
    decreases ds.len(),
{
    if ds.len() == 0 {
        Seq::empty()
    } else {
        let r = dfs_steps(ds.drop_last(), settled);
        let d = ds.last();
        if d.dependency_type@ == "required"@ {
            match d.project_id {
                Some(p) => if settled.contains(p@) {
                    r
                } else {
                    r.push((false, p@))
                },
                None => match d.version_id {
                    Some(v) => r.push((true, v@)),
                    None => r,
                },
            }
        } else {
            r
        }
    }
}

/// The projects to visit for the steps: a project step names its project; a
/// fetched version names its project.
pub open spec fn dfs_links(steps: Seq<(bool, Seq<char>)>, fetched: Seq<Option<(Seq<char>, Seq<char>)>>, n: int) -> Seq<Seq<char>>
    decreases n,
{
    if n <= 0 {
        Seq::empty()
    } else {
        let r = dfs_links(steps, fetched, n - 1);
        if steps[n - 1].0 {
            match fetched[n - 1] {
                Some((pid, _vid)) => r.push(pid),
                None => r,
            }
        } else {
            r.push(steps[n - 1].1)
        }
    }
}

/// The version that depth-first resolution settles for a project: the latest
/// compatible one, which is the first that Modrinth lists (newest first).
pub fn latest_version(versions: Vec<Version>) -> (r: Option<Version>)
    ensures
        versions@.len() == 0 ==> r is None,
        versions@.len() > 0 ==> r == Some(versions@[0]),
{
    let mut vs = versions;
    if vs.len() > 0 {
        Some(vs.remove(0))
    } else {
        None
    }
}

impl DependencyResolver {
    pub fn new() -> (r: Self)
        ensures
            r.modrinth == (ModrinthClient {}),
    {
        DependencyResolver { modrinth: ModrinthClient::new() }
    }

    /// A resolution that starts from one project.
    pub fn start(&self, project_slug: &str) -> (r: DfsResolution)
        ensures
            r.resolved.wf(),
            strs(r.queue@) == seq![project_slug@],
            r.seen@.len() == 0,
            r.resolved.map() == Map::<Seq<char>, Version>::empty(),
    {
        let mut queue: Vec<String> = Vec::new();
        queue.push(string_of(project_slug));
        assert(strs(queue@) =~= seq![project_slug@]);
        DfsResolution { queue, seen: Vec::new(), resolved: OrderedMap::new() }
    }
}

impl DfsResolution {
    /// Pops projects off the stack until one not yet visited turns up, and gives it.
    pub fn next_request(&mut self) -> (r: Option<String>)
        ensures
            strs(final(self).queue@) == pop_unseen(strs(old(self).queue@), strs(old(self).seen@)).0,
            match r {
                Some(p) => pop_unseen(strs(old(self).queue@), strs(old(self).seen@)).1 == Some(p@),
                None => pop_unseen(strs(old(self).queue@), strs(old(self).seen@)).1 is None,
            },
            final(self).seen == old(self).seen,
            final(self).resolved == old(self).resolved,
    {
        let ghost q0 = strs(self.queue@);
        let ghost s0 = strs(self.seen@);
        loop
            invariant
                q0 == strs(old(self).queue@),
                s0 == strs(old(self).seen@),
                strs(self.seen@) == s0,
                self.seen == old(self).seen,
                self.resolved == old(self).resolved,
                pop_unseen(strs(self.queue@), s0) == pop_unseen(q0, s0),
            decreases self.queue@.len(),
        {
            let ghost qb = strs(self.queue@);
            match self.queue.pop() {
                None => {
                    assert(qb.len() == 0);
                    return None;
                },
                Some(cur) => {
                    assert(strs(self.queue@) =~= qb.drop_last());
                    assert(qb.last() == cur@);
                    if !contains_str(&self.seen, cur.as_str()) {
                        return Some(cur);
                    }
                },
            }
        }
    }

    /// Marks a fetched project as visited, by id and by slug.
    pub fn record_project(&mut self, project: &Project)
        ensures
            strs(final(self).seen@) == strs(old(self).seen@).push(project.id@).push(project.slug@),
            final(self).queue == old(self).queue,
            final(self).resolved == old(self).resolved,
    {
        let ghost s0 = strs(self.seen@);
        self.seen.push(project.id.clone());
        self.seen.push(project.slug.clone());
        assert(strs(self.seen@) =~= s0.push(project.id@).push(project.slug@));
    }

    /// The steps that the required dependencies of `version` need.
    pub fn dependency_steps(&self, version: &Version) -> (r: Vec<DepStep>)
        requires
            self.resolved.wf(),
        ensures
            r@.map_values(|s: DepStep| step_view(s)) == dfs_steps(version.dependencies@, self.resolved.map().dom()),
    {
        let mut r: Vec<DepStep> = Vec::new();
        let n = version.dependencies.len();
        let mut i: usize = 0;
        while i < n
            invariant
                self.resolved.wf(),
                n == version.dependencies@.len(),
                i <= n,
                r@.map_values(|s: DepStep| step_view(s)) == dfs_steps(version.dependencies@.subrange(0, i as int), self.resolved.map().dom()),
            decreases n - i,
        {
            let d = &version.dependencies[i];
            let ghost before = r@.map_values(|s: DepStep| step_view(s));
            assert(version.dependencies@.subrange(0, i + 1).drop_last() =~= version.dependencies@.subrange(0, i as int));
            assert(version.dependencies@.subrange(0, i + 1).last() == *d);
            if str_eq(d.dependency_type.as_str(), "required") {
                match &d.project_id {
                    Some(p) => {
                        if !self.resolved.contains_key(p.as_str()) {
                            r.push(DepStep::Project(p.clone()));
                            assert(r@.map_values(|s: DepStep| step_view(s)) =~= before.push((false, p@)));
                        }
                    },
                    None => match &d.version_id {
                        Some(v) => {
                            r.push(DepStep::FetchVersion(v.clone()));
                            assert(r@.map_values(|s: DepStep| step_view(s)) =~= before.push((true, v@)));
                        },
                        None => {},
                    },
                }
            }
            i = i + 1;
        }
        assert(version.dependencies@.subrange(0, n as int) =~= version.dependencies@);
        r
    }

    /// Settles `version` for project `project_id` and pushes the projects that its
    /// steps give, with `fetched[i]` the version fetched for step `i`.
    pub fn record_version(&mut self, project_id: String, version: Version, steps: &Vec<DepStep>, fetched: &Vec<Option<Version>>)
        requires
            old(self).resolved.wf(),
            fetched@.len() == steps@.len(),
        ensures
            final(self).resolved.wf(),
            strs(final(self).queue@) == strs(old(self).queue@) + dfs_links(
                steps@.map_values(|s: DepStep| step_view(s)),
                fetched@.map_values(|f: Option<Version>| fetched_view(f)),
                steps@.len() as int,
            ),
            final(self).resolved.map() == old(self).resolved.map().insert(project_id@, version),
            final(self).seen == old(self).seen,
    {
        let ghost sv = steps@.map_values(|s: DepStep| step_view(s));
        let ghost fv = fetched@.map_values(|f: Option<Version>| fetched_view(f));
        let ghost q0 = strs(self.queue@);
        let n = steps.len();
        let mut i: usize = 0;
        while i < n
            invariant
                n == steps@.len(),
                n == fetched@.len(),
                sv == steps@.map_values(|s: DepStep| step_view(s)),
                fv == fetched@.map_values(|f: Option<Version>| fetched_view(f)),
                i <= n,
                strs(self.queue@) == q0 + dfs_links(sv, fv, i as int),
                self.resolved == old(self).resolved,
                self.seen == old(self).seen,
            decreases n - i,
        {
            let ghost qb = strs(self.queue@);
            assert(sv[i as int] == step_view(steps@[i as int]));
            assert(fv[i as int] == fetched_view(fetched@[i as int]));
            match &steps[i] {
                DepStep::FetchVersion(_) => match &fetched[i] {
                    Some(v) => {
                        self.queue.push(v.project_id.clone());
                        assert(strs(self.queue@) =~= qb.push(v.project_id@));
                    },
                    None => {},
                },
                DepStep::Project(p) => {
                    self.queue.push(p.clone());
                    assert(strs(self.queue@) =~= qb.push(p@));
                },
            }
            i = i + 1;
        }
        self.resolved.insert(project_id, version);
    }

    /// The settled versions, in project id order.
    pub fn finish(self) -> (r: Vec<Version>)
        requires
            self.resolved.wf(),
        ensures
            r@ == self.resolved.val_seq(),
    {
        let DfsResolution { queue: _, seen: _, resolved } = self;
        resolved.into_values()
    }
}

} // verus!
