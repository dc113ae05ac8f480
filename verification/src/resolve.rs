use vstd::prelude::*;
use vstd::string::StrSliceExecFns;
use crate::modrinth::{ModrinthClient, Project, Version, VersionFile, Dependency};
use crate::ordered_map::OrderedMap;
use crate::provider::{ModProvider, ResolvedTarget, TargetView};
use crate::state::{opt_view, clone_opt_string};
use crate::text::{strs, str_eq, string_of, contains_str, clone_strings, find_char, file_name, path_file_name};

verus! {

broadcast use vstd::seq_lib::lemma_seq_contains_after_push;

/// A project to resolve: its id or slug, and the version asked for, if any.
pub struct ResolveRequest {
    pub project: String,
    pub version: Option<String>,
}

impl View for ResolveRequest {
    type V = (Seq<char>, Option<Seq<char>>);

    open spec fn view(&self) -> (Seq<char>, Option<Seq<char>>) {
        (self.project@, opt_view(self.version))
    }
}

impl Clone for ResolveRequest {
    fn clone(&self) -> (r: Self)
        ensures
            r@ == self@,
    {
        ResolveRequest { project: self.project.clone(), version: clone_opt_string(&self.version) }
    }
}

/// The views of a sequence of requests.
pub open spec fn reqs(q: Seq<ResolveRequest>) -> Seq<(Seq<char>, Option<Seq<char>>)> {
    q.map_values(|r: ResolveRequest| r@)
}

/// A project that resolution settled: the version chosen, the project title and
/// the ids of the projects its required dependencies belong to.
pub struct ResolvedProject {
    pub version: Version,
    pub title: String,
    pub deps: Vec<String>,
}

/// The state of a breadth-first resolution of a project and its required
/// dependencies: the requests still to send, the ids and slugs already asked for
/// or found, the first project found, and the projects settled, by id.
pub struct ResolveSession {
    pub queue: Vec<ResolveRequest>,
    pub seen: Vec<String>,
    pub root: Option<String>,
    pub resolved: OrderedMap<ResolvedProject>,
}

/// What resolving a required dependency needs.
pub enum DepStep {
    /// The version with this id is to be fetched; its project is the dependency.
    FetchVersion(String),
    /// The project with this id is the dependency.
    Project(String),
}

/// The first position of `c` in `s` at or after `i`, or -1.
pub open spec fn first_index_of(s: Seq<char>, c: char, i: int) -> int
    decreases s.len() - i,
{
    if i < 0 || i >= s.len() {
        -1
    } else if s[i] == c {
        i
    } else {
        first_index_of(s, c, i + 1)
    }
}

proof fn lemma_first_index_of(s: Seq<char>, c: char, i: int, k: int)
    requires
        0 <= i <= k < s.len(),
        s[k] == c,
        forall|j: int| i <= j < k ==> s[j] != c,
    ensures
        first_index_of(s, c, i) == k,
    decreases k - i,
{
    if i < k {
        lemma_first_index_of(s, c, i + 1, k);
    }
}

proof fn lemma_first_index_none(s: Seq<char>, c: char, i: int)
    requires
        0 <= i <= s.len(),
        forall|j: int| i <= j < s.len() ==> s[j] != c,
    ensures
        first_index_of(s, c, i) == -1,
    decreases s.len() - i,
{
    if i < s.len() {
        lemma_first_index_none(s, c, i + 1);
    }
}

/// A project given as `name@version` is the project `name` at that version;
/// a project without `@` is asked for at no particular version.
pub open spec fn split_request(s: Seq<char>) -> (Seq<char>, Option<Seq<char>>) {
    let i = first_index_of(s, '@', 0);
    if i < 0 {
        (s, None)
    } else {
        (s.subrange(0, i), Some(s.subrange(i + 1, s.len() as int)))
    }
}

/// The requests of `q` whose project `seen` lacks, in order.
pub open spec fn unseen(q: Seq<(Seq<char>, Option<Seq<char>>)>, seen: Seq<Seq<char>>) -> Seq<(Seq<char>, Option<Seq<char>>)>
    decreases q.len(),
{
    if q.len() == 0 {
        Seq::empty()
    } else {
        let r = unseen(q.drop_last(), seen);
        if seen.contains(q.last().0) {
            r
        } else {
            r.push(q.last())
        }
    }
}

/// Which version resolution takes: with a version asked for, the first whose
/// version number or id is that text; without, the first listed.
pub open spec fn chosen_version(versions: Seq<Version>, requested: Option<Seq<char>>, i: int) -> bool {
    match requested {
        Some(want) => 0 <= i < versions.len()
            && (versions[i].version_number@ == want || versions[i].id@ == want)
            && forall|j: int| 0 <= j < i ==> !(versions[j].version_number@ == want || versions[j].id@ == want),
        None => i == 0 && versions.len() > 0,
    }
}

/// The steps that the required dependencies of a version need, in order: a
/// dependency on a version asks for that version; else one on a project names it.
pub open spec fn dep_steps(ds: Seq<Dependency>) -> Seq<(bool, Seq<char>)>
    decreases ds.len(),
{
    if ds.len() == 0 {
        Seq::empty()
    } else {
        let r = dep_steps(ds.drop_last());
        let d = ds.last();
        if d.dependency_type@ == "required"@ {
            match d.version_id {
                Some(v) => r.push((true, v@)),
                None => match d.project_id {
                    Some(p) => r.push((false, p@)),
                    None => r,
                },
            }
        } else {
            r
        }
    }
}

/// A step as the contracts see it: whether it fetches a version, and the id.
pub open spec fn step_view(s: DepStep) -> (bool, Seq<char>) {
    match s {
        DepStep::FetchVersion(v) => (true, v@),
        DepStep::Project(p) => (false, p@),
    }
}

/// The requests and dependency ids that the steps give, with `fetched[i]` the
/// version fetched for step `i` (nothing when it was not fetched): a fetched
/// version asks for its project at that version; a project step asks for the
/// project at no particular version.
pub open spec fn step_links(steps: Seq<(bool, Seq<char>)>, fetched: Seq<Option<(Seq<char>, Seq<char>)>>, n: int)
    -> (Seq<(Seq<char>, Option<Seq<char>>)>, Seq<Seq<char>>)
    decreases n,
{
    if n <= 0 {
        (Seq::empty(), Seq::empty())
    } else {
        let (rq, ds) = step_links(steps, fetched, n - 1);
        let s = steps[n - 1];
        if s.0 {
            match fetched[n - 1] {
                Some((pid, vid)) => (rq.push((pid, Some(vid))), ds.push(pid)),
                None => (rq, ds),
            }
        } else {
            (rq.push((s.1, None)), ds.push(s.1))
        }
    }
}

/// The ids of a fetched version: project id, then version id.
pub open spec fn fetched_view(f: Option<Version>) -> Option<(Seq<char>, Seq<char>)> {
    match f {
        Some(v) => Some((v.project_id@, v.id@)),
        None => None,
    }
}

/// The first primary file at or after position `i`, or -1.
pub open spec fn first_primary(files: Seq<VersionFile>, i: int) -> int
    decreases files.len() - i,
{
    if i < 0 || i >= files.len() {
        -1
    } else if files[i].primary {
        i
    } else {
        first_primary(files, i + 1)
    }
}

/// The file that installing a version takes: the first primary one, else the first.
pub open spec fn chosen_file(files: Seq<VersionFile>) -> int {
    if first_primary(files, 0) >= 0 {
        first_primary(files, 0)
    } else if files.len() > 0 {
        0
    } else {
        -1
    }
}

/// The hash recorded for a file: its SHA-512 hash, else its SHA-1 hash.
pub open spec fn file_hash(f: VersionFile) -> Option<Seq<char>> {
    if f.hashes.map().contains_key("sha512"@) {
        Some(f.hashes.map()["sha512"@]@)
    } else if f.hashes.map().contains_key("sha1"@) {
        Some(f.hashes.map()["sha1"@]@)
    } else {
        None
    }
}

/// The target that a settled version gives, with its chosen file.
pub open spec fn version_target(m: Map<Seq<char>, ResolvedProject>, v: Version, f: VersionFile, source: Seq<char>) -> TargetView {
    let pid = v.project_id@;
    TargetView {
        id: pid,
        name: if m.contains_key(pid) { m[pid].title@ } else { pid },
        download_url: f.url@,
        hash: file_hash(f),
        filename: match path_file_name(f.filename@) {
            Some(n) => n,
            None => "unknown_mod.jar"@,
        },
        source: source,
        version: v.version_number@,
        dependencies: if m.contains_key(pid) { strs(m[pid].deps@) } else { Seq::empty() },
    }
}

/// The targets of the first `n` settled projects that have a file, in id order.
pub open spec fn settled_targets(resolved: OrderedMap<ResolvedProject>, source: Seq<char>, n: int) -> Seq<TargetView>
    decreases n,
{
    if n <= 0 {
        Seq::empty()
    } else {
        let r = settled_targets(resolved, source, n - 1);
        let v = resolved.val_seq()[n - 1].version;
        let fi = chosen_file(v.files@);
        if fi >= 0 {
            r.push(version_target(resolved.map(), v, v.files@[fi], source))
        } else {
            r
        }
    }
}

/// The first position at or after `i` whose target has id `id`, or -1.
pub open spec fn target_pos(ts: Seq<TargetView>, id: Seq<char>, i: int) -> int
    decreases ts.len() - i,
{
    if i < 0 || i >= ts.len() {
        -1
    } else if ts[i].id == id {
        i
    } else {
        target_pos(ts, id, i + 1)
    }
}

/// The targets with the root project's target, if there is one, moved to the front.
pub open spec fn root_first(ts: Seq<TargetView>, root: Option<Seq<char>>) -> Seq<TargetView> {
    match root {
        Some(rid) => {
            let p = target_pos(ts, rid, 0);
            if p >= 0 {
                seq![ts[p]] + ts.remove(p)
            } else {
                ts
            }
        },
        None => ts,
    }
}

/// The version to take among `versions` for `requested`.
pub fn select_version(versions: &Vec<Version>, requested: &Option<String>) -> (r: Option<usize>)
    ensures
        r matches Some(i) ==> chosen_version(versions@, opt_view(*requested), i as int),
        r is None ==> forall|i: int| !chosen_version(versions@, opt_view(*requested), i),
{
    match requested {
        None => {
            if versions.len() > 0 {
                Some(0)
            } else {
                None
            }
        },
        Some(want) => {
            assert(opt_view(*requested) == Some(want@));
            let n = versions.len();
            let mut i: usize = 0;
            while i < n
                invariant
                    n == versions@.len(),
                    i <= n,
                    opt_view(*requested) == Some(want@),
                    forall|j: int| 0 <= j < i ==> !(versions@[j].version_number@ == want@ || versions@[j].id@ == want@),
                decreases n - i,
            {
                if str_eq(versions[i].version_number.as_str(), want.as_str()) || str_eq(versions[i].id.as_str(), want.as_str()) {
                    return Some(i);
                }
                i = i + 1;
            }
            None
        },
    }
}

/// The steps that the required dependencies of `version` need.
pub fn required_steps(version: &Version) -> (r: Vec<DepStep>)
    ensures
        r@.map_values(|s: DepStep| step_view(s)) == dep_steps(version.dependencies@),
{
    let mut r: Vec<DepStep> = Vec::new();
    let n = version.dependencies.len();
    let mut i: usize = 0;
    while i < n
        invariant
            n == version.dependencies@.len(),
            i <= n,
            r@.map_values(|s: DepStep| step_view(s)) == dep_steps(version.dependencies@.subrange(0, i as int)),
        decreases n - i,
    {
        let d = &version.dependencies[i];
        let ghost before = r@.map_values(|s: DepStep| step_view(s));
        assert(version.dependencies@.subrange(0, i + 1).drop_last() =~= version.dependencies@.subrange(0, i as int));
        assert(version.dependencies@.subrange(0, i + 1).last() == *d);
        if str_eq(d.dependency_type.as_str(), "required") {
            match &d.version_id {
                Some(v) => {
                    r.push(DepStep::FetchVersion(v.clone()));
                    assert(r@.map_values(|s: DepStep| step_view(s)) =~= before.push((true, v@)));
                },
                None => match &d.project_id {
                    Some(p) => {
                        r.push(DepStep::Project(p.clone()));
                        assert(r@.map_values(|s: DepStep| step_view(s)) =~= before.push((false, p@)));
                    },
                    None => {},
                },
            }
        }
        i = i + 1;
    }
    assert(version.dependencies@.subrange(0, n as int) =~= version.dependencies@);
    r
}

/// The requests to queue and the dependency ids to record for the steps of a
/// version, given what fetching each version step gave (`fetched[i]` for step `i`).
pub fn collect_links(steps: &Vec<DepStep>, fetched: &Vec<Option<Version>>) -> (r: (Vec<ResolveRequest>, Vec<String>))
    requires
        fetched@.len() == steps@.len(),
    ensures
        reqs(r.0@) == step_links(steps@.map_values(|s: DepStep| step_view(s)), fetched@.map_values(|f: Option<Version>| fetched_view(f)), steps@.len() as int).0,
        strs(r.1@) == step_links(steps@.map_values(|s: DepStep| step_view(s)), fetched@.map_values(|f: Option<Version>| fetched_view(f)), steps@.len() as int).1,
{
    let ghost sv = steps@.map_values(|s: DepStep| step_view(s));
    let ghost fv = fetched@.map_values(|f: Option<Version>| fetched_view(f));
    let mut rq: Vec<ResolveRequest> = Vec::new();
    let mut ds: Vec<String> = Vec::new();
    let n = steps.len();
    let mut i: usize = 0;
    while i < n
        invariant
            n == steps@.len(),
            n == fetched@.len(),
            sv == steps@.map_values(|s: DepStep| step_view(s)),
            fv == fetched@.map_values(|f: Option<Version>| fetched_view(f)),
            i <= n,
            reqs(rq@) == step_links(sv, fv, i as int).0,
            strs(ds@) == step_links(sv, fv, i as int).1,
        decreases n - i,
    {
        let ghost r0 = reqs(rq@);
        let ghost d0 = strs(ds@);
        assert(sv[i as int] == step_view(steps@[i as int]));
        assert(fv[i as int] == fetched_view(fetched@[i as int]));
        match &steps[i] {
            DepStep::FetchVersion(_) => {
                match &fetched[i] {
                    Some(v) => {
                        rq.push(ResolveRequest { project: v.project_id.clone(), version: Some(v.id.clone()) });
                        ds.push(v.project_id.clone());
                        assert(reqs(rq@) =~= r0.push((v.project_id@, Some(v.id@))));
                        assert(strs(ds@) =~= d0.push(v.project_id@));
                    },
                    None => {},
                }
            },
            DepStep::Project(p) => {
                rq.push(ResolveRequest { project: p.clone(), version: None });
                ds.push(p.clone());
                assert(reqs(rq@) =~= r0.push((p@, None)));
                assert(strs(ds@) =~= d0.push(p@));
            },
        }
        i = i + 1;
    }
    (rq, ds)
}

/// The file to take among `files`: the first primary one, else the first.
pub fn choose_file(files: &Vec<VersionFile>) -> (r: Option<usize>)
    ensures
        r matches Some(i) ==> i as int == chosen_file(files@) && i < files@.len(),
        r is None ==> chosen_file(files@) == -1,
{
    let n = files.len();
    let mut i: usize = 0;
    while i < n
        invariant
            n == files@.len(),
            i <= n,
            forall|j: int| 0 <= j < i ==> !files@[j].primary,
        decreases n - i,
    {
        if files[i].primary {
            proof {
                lemma_first_primary(files@, 0, i as int);
            }
            return Some(i);
        }
        i = i + 1;
    }
    proof {
        lemma_first_primary_none(files@, 0);
    }
    if n > 0 {
        Some(0)
    } else {
        None
    }
}

proof fn lemma_first_primary(files: Seq<VersionFile>, i: int, k: int)
    requires
        0 <= i <= k < files.len(),
        files[k].primary,
        forall|j: int| i <= j < k ==> !files[j].primary,
    ensures
        first_primary(files, i) == k,
    decreases k - i,
{
    if i < k {
        lemma_first_primary(files, i + 1, k);
    }
}

proof fn lemma_first_primary_none(files: Seq<VersionFile>, i: int)
    requires
        0 <= i <= files.len(),
        forall|j: int| i <= j < files.len() ==> !files[j].primary,
    ensures
        first_primary(files, i) == -1,
    decreases files.len() - i,
{
    if i < files.len() {
        lemma_first_primary_none(files, i + 1);
    }
}

/// The hash to record for a file: its SHA-512 hash, else its SHA-1 hash.
pub fn pick_hash(f: &VersionFile) -> (r: Option<String>)
    requires
        f.hashes.wf(),
    ensures
        opt_view(r) == file_hash(*f),
{
    match f.hashes.get("sha512") {
        Some(h) => Some(h.clone()),
        None => match f.hashes.get("sha1") {
            Some(h) => Some(h.clone()),
            None => None,
        },
    }
}

impl ResolveSession {
    pub open spec fn wf(&self) -> bool {
        &&& self.resolved.wf()
        &&& forall|i: int| 0 <= i < self.resolved.spec_len() ==> (#[trigger] self.resolved.val_seq()[i]).version.files@.len() >= 0
            && forall|j: int| 0 <= j < self.resolved.val_seq()[i].version.files@.len() ==> (#[trigger] self.resolved.val_seq()[i].version.files@[j]).hashes.wf()
    }

    /// A resolution of `project_spec`, given as `name` or `name@version`.
    pub fn new(project_spec: &str) -> (r: Self)
        ensures
            r.wf(),
            reqs(r.queue@) == seq![split_request(project_spec@)],
            r.seen@.len() == 0,
            r.root is None,
            r.resolved.map() == Map::<Seq<char>, ResolvedProject>::empty(),
            r.resolved.spec_len() == 0,
    {
        let req = match find_char(project_spec, '@') {
            None => {
                proof {
                    lemma_first_index_none(project_spec@, '@', 0);
                }
                ResolveRequest { project: string_of(project_spec), version: None }
            },
            Some(i) => {
                proof {
                    lemma_first_index_of(project_spec@, '@', 0, i as int);
                }
                let n = project_spec.unicode_len();
                let name = project_spec.substring_char(0, i);
                let ver = project_spec.substring_char(i + 1, n);
                ResolveRequest { project: string_of(name), version: Some(string_of(ver)) }
            },
        };
        let mut queue: Vec<ResolveRequest> = Vec::new();
        queue.push(req);
        assert(reqs(queue@) =~= seq![split_request(project_spec@)]);
        let s = ResolveSession { queue, seen: Vec::new(), root: None, resolved: OrderedMap::new() };
        assert(s.resolved.key_seq().len() == 0);
        s
    }

    /// Takes every queued request out of the queue and gives back, in order, those
    /// whose project was not seen before; their projects now count as seen.
    pub fn next_batch(&mut self) -> (r: Vec<ResolveRequest>)
        requires
            old(self).wf(),
        ensures
            final(self).wf(),
            final(self).queue@.len() == 0,
            reqs(r@) == unseen(reqs(old(self).queue@), strs(old(self).seen@)),
            strs(final(self).seen@) == strs(old(self).seen@) + reqs(r@).map_values(|q: (Seq<char>, Option<Seq<char>>)| q.0),
            final(self).root == old(self).root,
            final(self).resolved == old(self).resolved,
    {
        let ghost q_old = self.queue@;
        let mut q: Vec<ResolveRequest> = Vec::new();
        std::mem::swap(&mut q, &mut self.queue);
        assert(q@ == q_old);
        let ghost s0 = strs(self.seen@);
        let mut batch: Vec<ResolveRequest> = Vec::new();
        let n = q.len();
        let mut i: usize = 0;
        while i < n
            invariant
                n == q@.len(),
                i <= n,
                self.queue@.len() == 0,
                self.root == old(self).root,
                self.resolved == old(self).resolved,
                strs(self.seen@) == s0,
                reqs(batch@) == unseen(reqs(q@).subrange(0, i as int), s0),
            decreases n - i,
        {
            let ghost b0 = reqs(batch@);
            assert(reqs(q@).subrange(0, i + 1).drop_last() =~= reqs(q@).subrange(0, i as int));
            assert(reqs(q@).subrange(0, i + 1).last() == q@[i as int]@);
            if !contains_str(&self.seen, q[i].project.as_str()) {
                batch.push(q[i].clone());
                assert(reqs(batch@) =~= b0.push(q@[i as int]@));
            }
            i = i + 1;
        }
        assert(reqs(q@).subrange(0, n as int) =~= reqs(q@));
        let nb = batch.len();
        let mut k: usize = 0;
        while k < nb
            invariant
                nb == batch@.len(),
                k <= nb,
                self.queue@.len() == 0,
                self.root == old(self).root,
                self.resolved == old(self).resolved,
                strs(self.seen@) == s0 + reqs(batch@).map_values(|x: (Seq<char>, Option<Seq<char>>)| x.0).subrange(0, k as int),
            decreases nb - k,
        {
            let ghost before = strs(self.seen@);
            self.seen.push(batch[k].project.clone());
            assert(strs(self.seen@) =~= before.push(batch@[k as int].project@));
            assert(reqs(batch@).map_values(|x: (Seq<char>, Option<Seq<char>>)| x.0).subrange(0, k + 1)
                =~= reqs(batch@).map_values(|x: (Seq<char>, Option<Seq<char>>)| x.0).subrange(0, k as int).push(batch@[k as int].project@));
            k = k + 1;
        }
        assert(reqs(batch@).map_values(|x: (Seq<char>, Option<Seq<char>>)| x.0).subrange(0, nb as int)
            =~= reqs(batch@).map_values(|x: (Seq<char>, Option<Seq<char>>)| x.0));
        batch
    }

    /// Records a project found for a request: the first one found is the root;
    /// its id and slug count as seen; it is settled with `version`, its title and
    /// `deps`; and the requests for its dependencies join the queue.
    pub fn record(&mut self, project: Project, version: Version, next: Vec<ResolveRequest>, deps: Vec<String>)
        requires
            old(self).wf(),
            forall|j: int| 0 <= j < version.files@.len() ==> (#[trigger] version.files@[j]).hashes.wf(),
        ensures
            final(self).wf(),
            opt_view(final(self).root) == match old(self).root {
                Some(r) => Some(r@),
                None => Some(project.id@),
            },
            strs(final(self).seen@) == strs(old(self).seen@).push(project.id@).push(project.slug@),
            reqs(final(self).queue@) == reqs(old(self).queue@) + reqs(next@),
            final(self).resolved.map() == old(self).resolved.map().insert(project.id@, (ResolvedProject { version, title: project.title, deps })),
    {
        if self.root.is_none() {
            self.root = Some(project.id.clone());
        }
        let ghost s0 = strs(self.seen@);
        self.seen.push(project.id.clone());
        self.seen.push(project.slug.clone());
        assert(strs(self.seen@) =~= s0.push(project.id@).push(project.slug@));
        let ghost q0 = reqs(self.queue@);
        let mut next = next;
        let ghost nx = reqs(next@);
        self.queue.append(&mut next);
        assert(reqs(self.queue@) =~= q0 + nx);
        let ghost old_resolved = self.resolved;
        self.resolved.insert(project.id, ResolvedProject { version, title: project.title, deps });
        proof {
            assert forall|i: int| 0 <= i < self.resolved.spec_len() implies (#[trigger] self.resolved.val_seq()[i]).version.files@.len() >= 0
                && forall|j: int| 0 <= j < self.resolved.val_seq()[i].version.files@.len() ==> (#[trigger] self.resolved.val_seq()[i].version.files@[j]).hashes.wf() by {
                self.resolved.lemma_pos(i);
                let k = self.resolved.key_seq()[i];
                if old_resolved.map().contains_key(k) && k != project.id@ {
                    let p = old_resolved.pos(k);
                    old_resolved.lemma_pos(p);
                }
            }
        }
    }

    /// The targets of the settled projects that have a file, in id order, with
    /// the root project's target moved to the front; `source` names the platform.
    pub fn finish(&self, source: &str) -> (r: Vec<ResolvedTarget>)
        requires
            self.wf(),
        ensures
            r@.map_values(|t: ResolvedTarget| t@) == root_first(
                settled_targets(self.resolved, source@, self.resolved.spec_len() as int),
                opt_view(self.root),
            ),
    {
        let mut targets: Vec<ResolvedTarget> = Vec::new();
        let n = self.resolved.len();
        let mut i: usize = 0;
        while i < n
            invariant
                self.wf(),
                n == self.resolved.spec_len(),
                i <= n,
                targets@.map_values(|t: ResolvedTarget| t@) == settled_targets(self.resolved, source@, i as int),
            decreases n - i,
        {
            let entry = self.resolved.value_at(i);
            let v = &entry.version;
            let ghost before = targets@.map_values(|t: ResolvedTarget| t@);
            match choose_file(&v.files) {
                None => {},
                Some(fi) => {
                    let f = &v.files[fi];
                    assert(f.hashes.wf());
                    let (name, deps) = match self.resolved.get(v.project_id.as_str()) {
                        Some(p) => (p.title.clone(), clone_strings(&p.deps)),
                        None => {
                            let e: Vec<String> = Vec::new();
                            assert(strs(e@) =~= Seq::<Seq<char>>::empty());
                            (v.project_id.clone(), e)
                        },
                    };
                    let filename = match file_name(f.filename.as_str()) {
                        Some(n) => n,
                        None => string_of("unknown_mod.jar"),
                    };
                    let t = ResolvedTarget {
                        id: v.project_id.clone(),
                        name,
                        download_url: f.url.clone(),
                        hash: pick_hash(f),
                        filename,
                        source: string_of(source),
                        version: v.version_number.clone(),
                        dependencies: deps,
                    };
                    targets.push(t);
                    assert(targets@.map_values(|t: ResolvedTarget| t@) =~= before.push(version_target(self.resolved.map(), *v, *f, source@)));
                },
            }
            i = i + 1;
        }
        let ghost ts = targets@.map_values(|t: ResolvedTarget| t@);
        match &self.root {
            None => {},
            Some(rid) => {
                assert(opt_view(self.root) == Some(rid@));
                assert(ts == settled_targets(self.resolved, source@, self.resolved.spec_len() as int));
                let m = targets.len();
                let mut p: usize = 0;
                while p < m
                    invariant
                        m == targets@.len(),
                        p <= m,
                        opt_view(self.root) == Some(rid@),
                        ts == settled_targets(self.resolved, source@, self.resolved.spec_len() as int),
                        ts == targets@.map_values(|t: ResolvedTarget| t@),
                        forall|j: int| 0 <= j < p ==> ts[j].id != rid@,
                    decreases m - p,
                {
                    if str_eq(targets[p].id.as_str(), rid.as_str()) {
                        proof {
                            lemma_target_pos(ts, rid@, 0, p as int);
                        }
                        let t = targets.remove(p);
                        targets.insert(0, t);
                        assert(targets@.map_values(|t: ResolvedTarget| t@) =~= seq![ts[p as int]] + ts.remove(p as int));
                        return targets;
                    }
                    p = p + 1;
                }
                proof {
                    lemma_target_pos_none(ts, rid@, 0);
                }
            },
        }
        targets
    }
}

pub proof fn lemma_target_pos(ts: Seq<TargetView>, id: Seq<char>, i: int, k: int)
    requires
        0 <= i <= k < ts.len(),
        ts[k].id == id,
        forall|j: int| i <= j < k ==> ts[j].id != id,
    ensures
        target_pos(ts, id, i) == k,
    decreases k - i,
{
    if i < k {
        lemma_target_pos(ts, id, i + 1, k);
    }
}

proof fn lemma_target_pos_none(ts: Seq<TargetView>, id: Seq<char>, i: int)
    requires
        0 <= i <= ts.len(),
        forall|j: int| i <= j < ts.len() ==> ts[j].id != id,
    ensures
        target_pos(ts, id, i) == -1,
    decreases ts.len() - i,
{
    if i < ts.len() {
        lemma_target_pos_none(ts, id, i + 1);
    }
}

impl ModrinthClient {
    /// The targets that a finished resolution gives, Modrinth named as their source.
    pub fn resolved_targets(&self, session: &ResolveSession) -> (r: Vec<ResolvedTarget>)
        requires
            session.wf(),
        ensures
            r@.map_values(|t: ResolvedTarget| t@) == root_first(
                settled_targets(session.resolved, "modrinth"@, session.resolved.spec_len() as int),
                opt_view(session.root),
            ),
    {
        session.finish(self.id())
    }
}

} // verus!
