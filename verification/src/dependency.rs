//! Repository dependency graph for build orchestration: which repository
//! depends on which, a build order that respects every dependency, and
//! groups of repositories that can be built side by side.
use vstd::prelude::*;
use crate::strings::{all_contained, clone_strings, contains_str, str_eq};

verus! {

broadcast use vstd::string::group_string_axioms;

/// A graph as a sequence of entries (repository name, names of its dependencies).
pub type GraphView = Seq<(Seq<char>, Seq<Seq<char>>)>;

/// No two entries carry the same repository name.
pub open spec fn names_distinct(g: GraphView) -> bool {
    forall|i: int, j: int|
        #![trigger g[i].0, g[j].0]
        0 <= i < g.len() && 0 <= j < g.len() && i != j ==> g[i].0 != g[j].0
}

/// `n` names a repository of the graph.
pub open spec fn is_repo(g: GraphView, n: Seq<char>) -> bool {
    exists|i: int| 0 <= i < g.len() && #[trigger] g[i].0 == n
}

/// The position of the entry named `n`.
pub open spec fn repo_index(g: GraphView, n: Seq<char>) -> int {
    choose|i: int| 0 <= i < g.len() && #[trigger] g[i].0 == n
}

/// The dependencies listed for repository `n` (empty for an unknown name).
pub open spec fn deps_of(g: GraphView, n: Seq<char>) -> Seq<Seq<char>> {
    if is_repo(g, n) {
        g[repo_index(g, n)].1
    } else {
        Seq::empty()
    }
}

/// `order` lists every repository exactly once, and every dependency that
/// names a repository of the graph comes before the repository that needs it.
/// Dependencies on names outside the graph are ignored.
pub open spec fn is_build_order(g: GraphView, order: Seq<Seq<char>>) -> bool {
    &&& order.no_duplicates()
    &&& forall|t: int| 0 <= t < order.len() ==> is_repo(g, #[trigger] order[t])
    &&& forall|i: int| 0 <= i < g.len() ==> order.contains(#[trigger] g[i].0)
    &&& forall|t: int, d: Seq<char>|
        #![trigger order[t], deps_of(g, order[t]).contains(d)]
        0 <= t < order.len() && deps_of(g, order[t]).contains(d) && is_repo(g, d) ==> exists|u: int|
            0 <= u < t && #[trigger] order[u] == d
}

/// Entry `i` lists a dependency that names a repository of the graph.
pub open spec fn has_known_dependency(g: GraphView, i: int) -> bool {
    exists|k: int| 0 <= k < g[i].1.len() && is_repo(g, #[trigger] g[i].1[k])
}

/// Positions, in graph order, of the first `n` entries that list no known
/// dependency.
pub open spec fn root_positions(g: GraphView, n: int) -> Seq<int>
    decreases n,
{
    if n <= 0 {
        Seq::empty()
    } else {
        let prev = root_positions(g, n - 1);
        if has_known_dependency(g, n - 1) { prev } else { prev.push(n - 1) }
    }
}

/// The repositories without a known dependency, in graph order.
pub open spec fn roots(g: GraphView) -> Seq<Seq<char>> {
    root_positions(g, g.len() as int).map_values(|a: int| g[a].0)
}

/// Some order of the repositories respects every known dependency, i.e. the
/// graph has no dependency cycle.
pub open spec fn has_build_order(g: GraphView) -> bool {
    exists|order: Seq<Seq<char>>| is_build_order(g, order)
}

/// The graph after setting the dependencies of `repo`: its entry is replaced
/// when it exists, and a new entry is appended otherwise.
pub open spec fn with_dependency(g: GraphView, repo: Seq<char>, deps: Seq<Seq<char>>) -> GraphView {
    if is_repo(g, repo) {
        g.update(repo_index(g, repo), (repo, deps))
    } else {
        g.push((repo, deps))
    }
}

/// Names of the repositories whose dependency list names `repo`, in graph order.
pub open spec fn dependents_spec(g: GraphView, repo: Seq<char>) -> Seq<Seq<char>>
    decreases g.len(),
{
    if g.len() == 0 {
        Seq::empty()
    } else {
        let prev = dependents_spec(g.drop_last(), repo);
        if g.last().1.contains(repo) {
            prev.push(g.last().0)
        } else {
            prev
        }
    }
}

/// Position of the first group at or after `a` that holds `d`, or
/// `groups.len()` when none does.
pub open spec fn find_group(groups: Seq<Seq<Seq<char>>>, d: Seq<char>, a: int) -> int
    decreases groups.len() - a,
{
    if a < 0 || a >= groups.len() {
        groups.len() as int
    } else if groups[a].contains(d) {
        a
    } else {
        find_group(groups, d, a + 1)
    }
}

/// The group a repository with dependencies `deps` goes to: the one after
/// the last group holding one of them (the first group when it has none).
pub open spec fn needed_level(groups: Seq<Seq<Seq<char>>>, deps: Seq<Seq<char>>) -> int
    decreases deps.len(),
{
    if deps.len() == 0 {
        0
    } else {
        let prev = needed_level(groups, deps.drop_last());
        let here = find_group(groups, deps.last(), 0) + 1;
        if prev >= here { prev } else { here }
    }
}

/// `repo` joins group `level`, or opens a new last group.
pub open spec fn put(groups: Seq<Seq<Seq<char>>>, level: int, repo: Seq<char>) -> Seq<Seq<Seq<char>>> {
    if level < groups.len() {
        groups.update(level, groups[level].push(repo))
    } else {
        groups.push(seq![repo])
    }
}

/// `repo` goes to the group after those of its dependencies.
pub open spec fn place(g: GraphView, groups: Seq<Seq<Seq<char>>>, repo: Seq<char>) -> Seq<Seq<Seq<char>>> {
    put(groups, needed_level(groups, deps_of(g, repo)), repo)
}

/// Every name of `deps` occurs in `done`.
pub open spec fn all_in(deps: Seq<Seq<char>>, done: Seq<Seq<char>>) -> bool {
    forall|k: int| 0 <= k < deps.len() ==> done.contains(#[trigger] deps[k])
}

/// The groups and the placed repositories after walking `order`: a
/// repository whose listed dependencies are all placed joins a group;
/// any other is skipped.
pub open spec fn grouping(g: GraphView, order: Seq<Seq<char>>) -> (Seq<Seq<Seq<char>>>, Seq<Seq<char>>)
    decreases order.len(),
{
    if order.len() == 0 {
        (Seq::empty(), Seq::empty())
    } else {
        let prev = grouping(g, order.drop_last());
        let repo = order.last();
        if all_in(deps_of(g, repo), prev.1) {
            (place(g, prev.0, repo), prev.1.push(repo))
        } else {
            prev
        }
    }
}

/// The groups of repositories that can be built side by side, formed along `order`.
pub open spec fn parallel_groups_spec(g: GraphView, order: Seq<Seq<char>>) -> Seq<Seq<Seq<char>>> {
    grouping(g, order).0
}

/// Repository `r` sits in one of the groups.
pub open spec fn placed(groups: Seq<Seq<Seq<char>>>, r: Seq<char>) -> bool {
    exists|a: int, k: int| 0 <= a < groups.len() && 0 <= k < groups[a].len() && #[trigger] groups[a][k] == r
}

/// Every dependency of a grouped repository is grouped too, and only in
/// groups before the repository's own: built one group after another, a
/// repository's dependencies are always built first.
pub open spec fn groups_ordered(g: GraphView, gs: Seq<Seq<Seq<char>>>) -> bool {
    forall|a: int, k: int, d: Seq<char>|
        #![trigger deps_of(g, gs[a][k]).contains(d)]
        0 <= a < gs.len() && 0 <= k < gs[a].len() && deps_of(g, gs[a][k]).contains(d)
            ==> placed(gs, d) && forall|b: int, l: int|
                0 <= b < gs.len() && 0 <= l < gs[b].len() && #[trigger] gs[b][l] == d ==> b < a
}

/// Every dependency listed in the graph names a repository of the graph.
pub open spec fn all_dependencies_known(g: GraphView) -> bool {
    forall|i: int, k: int| 0 <= i < g.len() && 0 <= k < g[i].1.len() ==> is_repo(g, #[trigger] g[i].1[k])
}

/// The standard Bitcoin Commons repositories and their build dependencies.
pub open spec fn standard_graph() -> GraphView {
    seq![
        ("bllvm-consensus"@, Seq::empty()),
        ("bllvm-protocol"@, seq!["bllvm-consensus"@]),
        ("bllvm-node"@, seq!["bllvm-protocol"@, "bllvm-consensus"@]),
        ("bllvm-sdk"@, Seq::empty()),
        ("bllvm"@, seq!["bllvm-node"@]),
        ("bllvm-commons"@, seq!["bllvm-sdk"@]),
    ]
}

/// Repository dependency graph for build ordering.
#[derive(Debug)]
pub struct DependencyGraph {
    /// Repository name and the names of its dependencies, in insertion order.
    dependencies: Vec<(String, Vec<String>)>,
    /// Organization that owns the repositories (e.g. "BTCDecoded").
    organization: String,
}

/// The graph view of a list of entries.
pub open spec fn entries_view(d: Seq<(String, Vec<String>)>) -> GraphView {
    Seq::new(d.len(), |i: int| (d[i].0@, d[i].1.deep_view()))
}

impl View for DependencyGraph {
    type V = GraphView;

    closed spec fn view(&self) -> GraphView {
        entries_view(self.dependencies@)
    }
}

impl DependencyGraph {
    #[verifier::type_invariant]
    spec fn inv(self) -> bool {
        names_distinct(self@)
    }

    /// The organization the graph was made for.
    pub closed spec fn organization_view(self) -> Seq<char> {
        self.organization@
    }

    /// Create the graph with the standard Bitcoin Commons build dependencies.
    pub fn new(organization: String) -> (res: Self)
        ensures
            res@ == standard_graph(),
            names_distinct(res@),
            res.organization_view() == organization@,
    {
        proof {
            reveal_strlit("bllvm-consensus");
            reveal_strlit("bllvm-protocol");
            reveal_strlit("bllvm-node");
            reveal_strlit("bllvm-sdk");
            reveal_strlit("bllvm");
            reveal_strlit("bllvm-commons");
        }
        let mut dependencies: Vec<(String, Vec<String>)> = Vec::new();
        dependencies.push(("bllvm-consensus".to_string(), Vec::new()));
        let mut d1: Vec<String> = Vec::new();
        d1.push("bllvm-consensus".to_string());
        dependencies.push(("bllvm-protocol".to_string(), d1));
        let mut d2: Vec<String> = Vec::new();
        d2.push("bllvm-protocol".to_string());
        d2.push("bllvm-consensus".to_string());
        dependencies.push(("bllvm-node".to_string(), d2));
        dependencies.push(("bllvm-sdk".to_string(), Vec::new()));
        let mut d4: Vec<String> = Vec::new();
        d4.push("bllvm-node".to_string());
        dependencies.push(("bllvm".to_string(), d4));
        let mut d5: Vec<String> = Vec::new();
        d5.push("bllvm-sdk".to_string());
        dependencies.push(("bllvm-commons".to_string(), d5));
        let ghost g = entries_view(dependencies@);
        assert(g =~= standard_graph()) by {
            assert(g[1].1 =~= seq!["bllvm-consensus"@]);
            assert(g[2].1 =~= seq!["bllvm-protocol"@, "bllvm-consensus"@]);
            assert(g[4].1 =~= seq!["bllvm-node"@]);
            assert(g[5].1 =~= seq!["bllvm-sdk"@]);
            assert(g[0].1 =~= Seq::<Seq<char>>::empty());
            assert(g[3].1 =~= Seq::<Seq<char>>::empty());
        }
        assert(names_distinct(g)) by {
            assert forall|i: int, j: int| 0 <= i < 6 && 0 <= j < 6 && i != j implies
                #[trigger] g[i].0 != #[trigger] g[j].0 by {
                assert(g[i].0.len() != g[j].0.len());
            }
        }
        DependencyGraph { dependencies, organization }
    }

    /// Position of the entry named `name`, if any.
    fn find_repo(&self, name: &str) -> (res: Option<usize>)
        ensures
            res matches Some(i) ==> i < self@.len() && self@[i as int].0 == name@,
            res is None ==> !is_repo(self@, name@),
    {
        let mut i: usize = 0;
        while i < self.dependencies.len()
            invariant
                i <= self.dependencies@.len(),
                forall|j: int| 0 <= j < i ==> self@[j].0 != name@,
            decreases self.dependencies@.len() - i,
        {
            if str_eq(self.dependencies[i].0.as_str(), name) {
                return Some(i);
            }
            i = i + 1;
        }
        None
    }

    /// All repositories of the graph, in graph order.
    pub fn repositories(&self) -> (res: Vec<String>)
        ensures
            res.deep_view() == Seq::new(self@.len(), |i: int| self@[i].0),
            res.deep_view().no_duplicates(),
    {
        proof {
            use_type_invariant(self);
        }
        let mut res: Vec<String> = Vec::new();
        let mut i: usize = 0;
        while i < self.dependencies.len()
            invariant
                i <= self.dependencies@.len(),
                res@.len() == i,
                forall|j: int| 0 <= j < i ==> res@[j]@ == self@[j].0,
            decreases self.dependencies@.len() - i,
        {
            res.push(self.dependencies[i].0.clone());
            i = i + 1;
        }
        assert(res.deep_view() =~= Seq::new(self@.len(), |i: int| self@[i].0));
        res
    }

    /// The dependencies listed for `repo`; empty when `repo` is not in the graph.
    pub fn get_dependencies(&self, repo: &str) -> (res: Vec<String>)
        ensures
            res.deep_view() == deps_of(self@, repo@),
    {
        proof {
            use_type_invariant(self);
        }
        match self.find_repo(repo) {
            Some(i) => {
                proof {
                    lemma_repo_index(self@, i as int);
                }
                clone_strings(&self.dependencies[i].1)
            },
            None => Vec::new(),
        }
    }

    /// The repositories whose dependency list names `repo`, in graph order.
    pub fn get_dependents(&self, repo: &str) -> (res: Vec<String>)
        ensures
            res.deep_view() == dependents_spec(self@, repo@),
            res.deep_view().no_duplicates(),
            forall|r: Seq<char>| #[trigger] res.deep_view().contains(r)
                <==> (is_repo(self@, r) && deps_of(self@, r).contains(repo@)),
    {
        proof {
            use_type_invariant(self);
            lemma_dependents_distinct(self@, repo@);
        }
        let mut res: Vec<String> = Vec::new();
        let mut i: usize = 0;
        while i < self.dependencies.len()
            invariant
                i <= self.dependencies@.len(),
                res.deep_view() == dependents_spec(self@.take(i as int), repo@),
            decreases self.dependencies@.len() - i,
        {
            let ghost before = res.deep_view();
            assert(self@.take(i + 1).drop_last() =~= self@.take(i as int));
            if contains_str(&self.dependencies[i].1, repo) {
                res.push(self.dependencies[i].0.clone());
                assert(res.deep_view() =~= before.push(self@[i as int].0));
            }
            i = i + 1;
        }
        assert(self@.take(self@.len() as int) =~= self@);
        res
    }

    /// For each entry, the positions of the dependencies that name a
    /// repository of the graph (unknown names are skipped), with repeats.
    fn known_dependency_indices(&self) -> (kd: Vec<Vec<usize>>)
        requires
            names_distinct(self@),
        ensures
            kd@.len() == self@.len(),
            forall|i: int, k: int|
                #![trigger kd@[i]@[k]]
                0 <= i < kd@.len() && 0 <= k < kd@[i]@.len() ==> kd@[i]@[k] < self@.len()
                    && self@[i].1.contains(self@[kd@[i]@[k] as int].0),
            forall|i: int, d: Seq<char>|
                #![trigger self@[i].1.contains(d), is_repo(self@, d)]
                0 <= i < self@.len() && self@[i].1.contains(d) && is_repo(self@, d)
                    ==> kd@[i]@.contains(repo_index(self@, d) as usize),
    {
        let n = self.dependencies.len();
        let mut kd: Vec<Vec<usize>> = Vec::new();
        let mut i: usize = 0;
        while i < n
            invariant
                n == self@.len(),
                names_distinct(self@),
                i <= n,
                kd@.len() == i,
                forall|a: int, k: int|
                    #![trigger kd@[a]@[k]]
                    0 <= a < kd@.len() && 0 <= k < kd@[a]@.len() ==> kd@[a]@[k] < self@.len()
                        && self@[a].1.contains(self@[kd@[a]@[k] as int].0),
                forall|a: int, d: Seq<char>|
                    #![trigger self@[a].1.contains(d), is_repo(self@, d)]
                    0 <= a < i && self@[a].1.contains(d) && is_repo(self@, d)
                        ==> kd@[a]@.contains(repo_index(self@, d) as usize),
            decreases n - i,
        {
            let deps = &self.dependencies[i].1;
            let ghost ds = self@[i as int].1;
            assert(ds == deps.deep_view());
            let mut list: Vec<usize> = Vec::new();
            let mut k: usize = 0;
            while k < deps.len()
                invariant
                    n == self@.len(),
                    names_distinct(self@),
                    i < n,
                    ds == self@[i as int].1,
                    ds == deps.deep_view(),
                    k <= deps@.len(),
                    forall|m: int| 0 <= m < list@.len() ==> list@[m] < self@.len()
                        && ds.contains(self@[#[trigger] list@[m] as int].0),
                    forall|m: int| 0 <= m < k && is_repo(self@, #[trigger] ds[m])
                        ==> list@.contains(repo_index(self@, ds[m]) as usize),
                decreases deps@.len() - k,
            {
                assert(ds[k as int] == deps@[k as int]@);
                match self.find_repo(deps[k].as_str()) {
                    Some(j) => {
                        proof {
                            lemma_repo_index(self@, j as int);
                            assert(ds.contains(ds[k as int]));
                        }
                        let ghost l0 = list@;
                        list.push(j);
                        proof {
                            assert(list@[list@.len() - 1] == j);
                            assert forall|m: int| 0 <= m <= k && is_repo(self@, #[trigger] ds[m])
                                implies list@.contains(repo_index(self@, ds[m]) as usize) by {
                                if m < k {
                                    assert(l0.contains(repo_index(self@, ds[m]) as usize));
                                    let w = choose|w: int| 0 <= w < l0.len()
                                        && l0[w] == repo_index(self@, ds[m]) as usize;
                                    assert(list@[w] == repo_index(self@, ds[m]) as usize);
                                } else {
                                    assert(list@[list@.len() - 1] == repo_index(self@, ds[m]) as usize);
                                }
                            }
                        }
                    },
                    None => {},
                }
                k = k + 1;
            }
            kd.push(list);
            proof {
                assert forall|a: int, d: Seq<char>|
                    #![trigger self@[a].1.contains(d), is_repo(self@, d)]
                    0 <= a < i + 1 && self@[a].1.contains(d) && is_repo(self@, d)
                    implies kd@[a]@.contains(repo_index(self@, d) as usize) by {
                    if a == i {
                        let m = choose|m: int| 0 <= m < ds.len() && ds[m] == d;
                        assert(is_repo(self@, ds[m]));
                    }
                }
            }
            i = i + 1;
        }
        kd
    }

    /// Build order by topological sort (Kahn's algorithm): repositories with
    /// no pending dependency are emitted first, and each emitted repository
    /// releases the repositories that were waiting only on it.  Fails exactly
    /// when the dependencies form a cycle.
    pub fn get_build_order(&self) -> (res: Result<Vec<String>, String>)
        ensures
            res matches Ok(order) ==> is_build_order(self@, order.deep_view()),
            res matches Ok(order) ==> roots(self@).len() <= order@.len()
                && order.deep_view().take(roots(self@).len() as int) == roots(self@),
            res is Err <==> !has_build_order(self@),
            res matches Err(msg) ==> msg@ == "Circular dependency detected in build graph"@,
    {
        proof {
            use_type_invariant(self);
        }
        let ghost g = self@;
        let n = self.dependencies.len();
        let kd = self.known_dependency_indices();
        let ghost kds: Seq<Seq<usize>> = Seq::new(n as nat, |a: int| kd@[a]@);
        proof {
            assert forall|a: int, k: int| 0 <= a < n && 0 <= k < kds[a].len() implies
                #[trigger] kds[a][k] < n && g[a].1.contains(g[kds[a][k] as int].0) by {
                assert(kds[a][k] == kd@[a]@[k]);
            }
        }
        let mut indeg: Vec<usize> = Vec::new();
        let mut done: Vec<bool> = Vec::new();
        let mut i: usize = 0;
        while i < n
            invariant
                n == g.len(),
                kd@.len() == n,
                i <= n,
                indeg@.len() == i,
                done@.len() == i,
                forall|a: int| 0 <= a < i ==> indeg@[a] == kd@[a]@.len(),
                forall|a: int| 0 <= a < i ==> !done@[a],
            decreases n - i,
        {
            indeg.push(kd[i].len());
            done.push(false);
            i = i + 1;
        }
        proof {
            assert forall|a: int| 0 <= a < n implies indeg@[a] == pending(kds[a], done@) by {
                lemma_pending_none(kds[a], done@);
            }
        }
        proof {
            assert forall|a: int| 0 <= a < n implies (indeg@[a] == 0 <==> !has_known_dependency(g, a)) by {
                if kd@[a]@.len() > 0 {
                    let x = kd@[a]@[0];
                    assert(g[a].1.contains(g[x as int].0));
                    let k = choose|k: int| 0 <= k < g[a].1.len() && g[a].1[k] == g[x as int].0;
                    assert(is_repo(g, g[a].1[k]));
                }
                if has_known_dependency(g, a) {
                    let k = choose|k: int| 0 <= k < g[a].1.len() && is_repo(g, #[trigger] g[a].1[k]);
                    let d = g[a].1[k];
                    assert(g[a].1.contains(d));
                    assert(kd@[a]@.contains(repo_index(g, d) as usize));
                }
            }
        }
        let mut queue: Vec<usize> = Vec::new();
        i = 0;
        while i < n
            invariant
                n == g.len(),
                kd@.len() == n,
                indeg@.len() == n,
                i <= n,
                forall|a: int| 0 <= a < n ==> (indeg@[a] == 0 <==> !has_known_dependency(g, a)),
                queue@.len() == root_positions(g, i as int).len(),
                forall|t: int| 0 <= t < queue@.len() ==> queue@[t] as int == #[trigger] root_positions(g, i as int)[t],
                forall|a: int| 0 <= a < i ==> (in_queue(queue@, a) <==> indeg@[a] == 0),
                forall|a: int| i <= a < n ==> !in_queue(queue@, a),
                forall|t: int| 0 <= t < queue@.len() ==> queue@[t] < i,
                forall|a: int, b: int| 0 <= a < b < queue@.len() ==> queue@[a] != queue@[b],
                forall|t: int| 0 <= t < queue@.len() ==> indeg@[queue@[t] as int] == 0,
            decreases n - i,
        {
            let ghost q0 = queue@;
            if indeg[i] == 0 {
                queue.push(i);
                proof {
                    lemma_in_queue_push(q0, i);
                }
            }
            proof {
                assert forall|a: int| 0 <= a < i + 1 implies (in_queue(queue@, a) <==> indeg@[a] == 0) by {
                    if a == i {
                        assert(!in_queue(q0, a));
                    }
                }
                let rp = root_positions(g, i as int);
                assert(root_positions(g, i as int + 1) == if has_known_dependency(g, i as int) { rp } else { rp.push(i as int) });
                assert forall|t: int| 0 <= t < queue@.len() implies queue@[t] as int == #[trigger] root_positions(g, i as int + 1)[t] by {
                    if t < q0.len() {
                        assert(queue@[t] == q0[t]);
                    }
                }
            }
            i = i + 1;
        }
        proof {
            assert forall|t: int| 0 <= t < queue@.len() implies ready_at(queue@, kds, 0, t) by {
                assert(kds[queue@[t] as int].len() == 0);
            }
        }
        let ghost q_init = queue@;
        let mut head: usize = 0;
        let mut result: Vec<usize> = Vec::new();
        while head < queue.len()
            invariant
                q_init.len() <= queue@.len(),
                forall|t: int| 0 <= t < q_init.len() ==> queue@[t] == q_init[t],
                n == g.len(),
                names_distinct(g),
                g == self@,
                kds.len() == n,
                kd@.len() == n,
                forall|a: int| 0 <= a < n ==> kds[a] == kd@[a]@,
                forall|a: int, k: int| 0 <= a < n && 0 <= k < kds[a].len() ==>
                    #[trigger] kds[a][k] < n && g[a].1.contains(g[kds[a][k] as int].0),
                indeg@.len() == n,
                done@.len() == n,
                head <= queue@.len(),
                forall|a: int, b: int| 0 <= a < b < queue@.len() ==> queue@[a] != queue@[b],
                forall|t: int| 0 <= t < queue@.len() ==> queue@[t] < n,
                result@ == queue@.subrange(0, head as int),
                forall|a: int| 0 <= a < n ==> (done@[a] <==> in_queue(result@, a)),
                forall|a: int| 0 <= a < n ==> indeg@[a] == pending(kds[a], done@),
                forall|a: int| 0 <= a < n ==> (in_queue(queue@, a) <==> indeg@[a] == 0),
                forall|t: int| 0 <= t < queue@.len() ==> #[trigger] ready_at(queue@, kds, head as int, t),
            decreases count_false(done@),
        {
            let p = queue[head];
            let ghost old_done = done@;
            let ghost head0 = head as int;
            let ghost r0 = result@;
            proof {
                if done@[p as int] {
                    let t = choose|t: int| 0 <= t < r0.len() && r0[t] as int == p as int;
                    assert(queue@[t] == queue@[head0]);
                }
                lemma_count_false_mark(done@, p as int);
            }
            done.set(p, true);
            head = head + 1;
            result.push(p);
            proof {
                assert(result@ =~= queue@.subrange(0, head as int));
                lemma_in_queue_push(r0, p);
                assert forall|t: int| 0 <= t < queue@.len() implies
                    #[trigger] ready_at(queue@, kds, head as int, t) by {
                    lemma_ready_mono(queue@, kds, head0, head as int, t);
                }
            }
            let mut d: usize = 0;
            while d < n
                invariant
                    q_init.len() <= queue@.len(),
                    forall|t: int| 0 <= t < q_init.len() ==> queue@[t] == q_init[t],
                    n == g.len(),
                    names_distinct(g),
                    g == self@,
                    kds.len() == n,
                    kd@.len() == n,
                    forall|a: int| 0 <= a < n ==> kds[a] == kd@[a]@,
                    forall|a: int, k: int| 0 <= a < n && 0 <= k < kds[a].len() ==>
                        #[trigger] kds[a][k] < n && g[a].1.contains(g[kds[a][k] as int].0),
                    indeg@.len() == n,
                    done@.len() == n,
                    old_done.len() == n,
                    p < n,
                    !old_done[p as int],
                    done@ == old_done.update(p as int, true),
                    1 <= head <= queue@.len(),
                    d <= n,
                    forall|a: int, b: int| 0 <= a < b < queue@.len() ==> queue@[a] != queue@[b],
                    forall|t: int| 0 <= t < queue@.len() ==> queue@[t] < n,
                    result@ == queue@.subrange(0, head as int),
                    forall|a: int| 0 <= a < n ==> (done@[a] <==> in_queue(result@, a)),
                    forall|a: int| 0 <= a < d ==> indeg@[a] == pending(kds[a], done@),
                    forall|a: int| d <= a < n ==> indeg@[a] == pending(kds[a], old_done),
                    forall|a: int| 0 <= a < n ==> (in_queue(queue@, a) <==> indeg@[a] == 0),
                    forall|t: int| 0 <= t < queue@.len() ==> #[trigger] ready_at(queue@, kds, head as int, t),
                decreases n - d,
            {
                let c = count_occurrences(&kd[d], p);
                proof {
                    assert forall|k: int| 0 <= k < kds[d as int].len() implies
                        kds[d as int][k] < old_done.len() by {
                        assert(kds[d as int][k] < n);
                    }
                    lemma_pending_mark(kds[d as int], old_done, p);
                }
                if c > 0 {
                    let nd = indeg[d] - c;
                    indeg.set(d, nd);
                    if nd == 0 {
                        let ghost q0 = queue@;
                        proof {
                            assert(!in_queue(q0, d as int));
                            assert forall|k: int| 0 <= k < kds[d as int].len() implies
                                kds[d as int][k] < done@.len() by {
                                assert(kds[d as int][k] < n);
                            }
                            lemma_pending_zero(kds[d as int], done@);
                        }
                        queue.push(d);
                        proof {
                            lemma_in_queue_push(q0, d);
                            assert forall|a: int, b: int| 0 <= a < b < queue@.len() implies
                                queue@[a] != queue@[b] by {
                                if b == q0.len() {
                                    assert(queue@[a] == q0[a]);
                                    assert(in_queue(q0, q0[a] as int));
                                }
                            }
                            assert(result@ =~= queue@.subrange(0, head as int));
                            assert forall|t: int| 0 <= t < queue@.len() implies
                                #[trigger] ready_at(queue@, kds, head as int, t) by {
                                if t < q0.len() {
                                    lemma_ready_push(q0, kds, head as int, t, d);
                                } else {
                                    assert forall|k: int| 0 <= k < kds[queue@[t] as int].len() implies
                                        placed_before(queue@, #[trigger] kds[queue@[t] as int][k], t, head as int) by {
                                        let x = kds[d as int][k];
                                        assert(done@[x as int]);
                                        assert(in_queue(result@, x as int));
                                        let u = choose|u: int| 0 <= u < result@.len() && result@[u] as int == x as int;
                                        assert(queue@[u] == result@[u]);
                                        assert(queue@[u] == x);
                                    }
                                }
                            }
                        }
                    }
                }
                d = d + 1;
            }
        }
        let mut missing: Option<usize> = None;
        i = 0;
        while i < n
            invariant
                n == g.len(),
                done@.len() == n,
                i <= n,
                missing matches Some(m) ==> m < n && !done@[m as int],
                g == self@,
                missing is None ==> forall|a: int| 0 <= a < i ==> done@[a],
            decreases n - i,
        {
            if !done[i] {
                missing = Some(i);
            }
            i = i + 1;
        }
        assert(result@ =~= queue@);
        match missing {
            Some(m) => {
                proof {
                    assert forall|a: int| 0 <= a < n && !done@[a] implies
                        #[trigger] pending(kds[a], done@) > 0 by {
                        assert(!in_queue(queue@, a));
                    }
                    lemma_unfinished_blocks_order(g, kds, done@, m as int);
                    assert(g == self@);
                    assert(!has_build_order(self@));
                }
                let msg = String::from_str("Circular dependency detected in build graph");
                Err(msg)
            },
            None => {
                let mut order: Vec<String> = Vec::new();
                let mut t: usize = 0;
                while t < result.len()
                    invariant
                        t <= result@.len(),
                        order@.len() == t,
                        g == self@,
                        forall|u: int| 0 <= u < result@.len() ==> result@[u] < g.len(),
                        forall|u: int| 0 <= u < t ==> order@[u]@ == g[result@[u] as int].0,
                    decreases result@.len() - t,
                {
                    order.push(self.dependencies[result[t]].0.clone());
                    t = t + 1;
                }
                proof {
                    let o = order.deep_view();
                    assert forall|u: int| 0 <= u < o.len() implies o[u] == g[queue@[u] as int].0 by {
                        assert(o[u] == order@[u]@);
                    }
                    let rs = roots(g);
                    assert(rs.len() == q_init.len());
                    assert forall|u: int| 0 <= u < rs.len() implies #[trigger] o.take(rs.len() as int)[u] == rs[u] by {
                        assert(q_init[u] as int == root_positions(g, n as int)[u]);
                        assert(queue@[u] == q_init[u]);
                    }
                    assert(o.take(rs.len() as int) =~= rs);
                    assert forall|a: int, b: int| 0 <= a < o.len() && 0 <= b < o.len() && a != b
                        implies o[a] != o[b] by {
                        assert(queue@[a] != queue@[b] || a > b);
                        if a < b {
                            assert(queue@[a] != queue@[b]);
                        } else {
                            assert(queue@[b] != queue@[a]);
                        }
                    }
                    assert forall|u: int| 0 <= u < o.len() implies is_repo(g, #[trigger] o[u]) by {
                        lemma_repo_index(g, queue@[u] as int);
                    }
                    assert forall|a: int| 0 <= a < g.len() implies o.contains(#[trigger] g[a].0) by {
                        assert(done@[a]);
                        let t = choose|t: int| 0 <= t < result@.len() && result@[t] as int == a;
                        assert(o[t] == g[a].0);
                    }
                    assert forall|t: int, dn: Seq<char>|
                        #![trigger o[t], deps_of(g, o[t]).contains(dn)]
                        0 <= t < o.len() && deps_of(g, o[t]).contains(dn) && is_repo(g, dn)
                        implies exists|u: int| 0 <= u < t && #[trigger] o[u] == dn by {
                        let q = queue@[t] as int;
                        lemma_repo_index(g, q);
                        assert(g[q].1.contains(dn));
                        let rj = repo_index(g, dn);
                        assert(kd@[q]@.contains(rj as usize));
                        assert(kds[q] == kd@[q]@);
                        let k = choose|k: int| 0 <= k < kds[q].len() && kds[q][k] == rj as usize;
                        assert(ready_at(queue@, kds, head as int, t));
                        assert(placed_before(queue@, kds[q][k], t, head as int));
                        let u = choose|u: int| 0 <= u < t && u < head && #[trigger] queue@[u] == kds[q][k];
                        assert(o[u] == g[rj].0);
                    }
                    assert(is_build_order(self@, o));
                    assert(has_build_order(self@));
                }
                Ok(order)
            },
        }
    }

    /// Position of the first group holding `name`, or `groups.len()`.
    fn group_index(groups: &Vec<Vec<String>>, name: &str) -> (res: usize)
        ensures
            res == find_group(groups.deep_view(), name@, 0),
    {
        let ghost gs = groups.deep_view();
        let mut a: usize = 0;
        while a < groups.len()
            invariant
                gs == groups.deep_view(),
                a <= groups@.len(),
                find_group(gs, name@, 0) == find_group(gs, name@, a as int),
            decreases groups@.len() - a,
        {
            assert(gs[a as int] == groups@[a as int].deep_view());
            if contains_str(&groups[a], name) {
                return a;
            }
            a = a + 1;
        }
        a
    }

    /// The group that a repository with dependencies `deps` goes to.
    fn dependency_level(groups: &Vec<Vec<String>>, deps: &Vec<String>) -> (res: usize)
        requires
            forall|k: int| 0 <= k < deps@.len() ==> find_group(groups.deep_view(), #[trigger] deps@[k]@, 0) < groups@.len(),
        ensures
            res == needed_level(groups.deep_view(), deps.deep_view()),
    {
        let ghost gs = groups.deep_view();
        let ghost ds = deps.deep_view();
        let mut level: usize = 0;
        let mut j: usize = 0;
        while j < deps.len()
            invariant
                gs == groups.deep_view(),
                ds == deps.deep_view(),
                j <= deps@.len(),
                forall|k: int| 0 <= k < deps@.len() ==> find_group(gs, #[trigger] deps@[k]@, 0) < groups@.len(),
                level == needed_level(gs, ds.take(j as int)),
                level <= groups@.len(),
            decreases deps@.len() - j,
        {
            assert(ds.take(j + 1).drop_last() =~= ds.take(j as int));
            assert(ds.take(j + 1).last() == deps@[j as int]@);
            let at = Self::group_index(groups, deps[j].as_str());
            assert(find_group(gs, deps@[j as int]@, 0) < groups@.len());
            let n: usize = groups.len();
            assert(at < n);
            let here = at + 1;
            if level < here {
                level = here;
            }
            j = j + 1;
        }
        assert(ds.take(ds.len() as int) =~= ds);
        level
    }

    /// Groups of repositories that can be built side by side, to be built
    /// one group after another.  The repositories are taken in build order;
    /// one whose dependencies are all placed goes to the group after the last
    /// group holding one of its dependencies (the first group when it has
    /// none), opening a new group when there is none.  Fails exactly when the
    /// dependencies form a cycle.
    pub fn get_parallel_groups(&self) -> (res: Result<Vec<Vec<String>>, String>)
        ensures
            res is Err <==> !has_build_order(self@),
            res matches Err(msg) ==> msg@ == "Circular dependency detected in build graph"@,
            res matches Ok(groups) ==> exists|order: Seq<Seq<char>>|
                is_build_order(self@, order) && groups.deep_view() == #[trigger] parallel_groups_spec(self@, order),
            res matches Ok(groups) ==> groups_ordered(self@, groups.deep_view()),
            res matches Ok(groups) ==> positions_distinct(groups.deep_view()),
            res matches Ok(groups) ==> forall|a: int, k: int|
                0 <= a < groups.deep_view().len() && 0 <= k < groups.deep_view()[a].len()
                ==> is_repo(self@, #[trigger] groups.deep_view()[a][k]),
            res matches Ok(groups) ==> forall|a: int| 0 <= a < groups@.len() ==> #[trigger] groups@[a]@.len() > 0,
            res matches Ok(groups) ==> (all_dependencies_known(self@)
                ==> forall|i: int| 0 <= i < self@.len() ==> placed(groups.deep_view(), #[trigger] self@[i].0)),
    {
        let order = match self.get_build_order() {
            Ok(o) => o,
            Err(e) => {
                return Err(e);
            },
        };
        let ghost ov = order.deep_view();
        let mut groups: Vec<Vec<String>> = Vec::new();
        let mut completed: Vec<String> = Vec::new();
        let mut i: usize = 0;
        assert(ov.take(0) =~= Seq::<Seq<char>>::empty());
        while i < order.len()
            invariant
                i <= order@.len(),
                ov == order.deep_view(),
                ov.no_duplicates(),
                groups.deep_view() == grouping(self@, ov.take(i as int)).0,
                completed.deep_view() == grouping(self@, ov.take(i as int)).1,
            decreases order@.len() - i,
        {
            let repo = &order[i];
            assert(ov[i as int] == repo@);
            assert(ov.take(i + 1).drop_last() =~= ov.take(i as int));
            proof {
                lemma_take_no_duplicates(ov, i as int);
            }
            let deps = self.get_dependencies(repo.as_str());
            if all_contained(&deps, &completed) {
                let ghost gs = groups.deep_view();
                proof {
                    lemma_grouping_ok(self@, ov.take(i as int));
                    assert forall|k: int| 0 <= k < deps@.len() implies
                        find_group(gs, #[trigger] deps@[k]@, 0) < groups@.len() by {
                        assert(deps.deep_view()[k] == deps@[k]@);
                        assert(completed.deep_view().contains(deps@[k]@));
                        lemma_find_group_placed(gs, deps@[k]@);
                    }
                }
                let f = Self::dependency_level(&groups, &deps);
                let ghost gv = groups@;
                if f < groups.len() {
                    let mut grp = groups.remove(f);
                    assert(grp.deep_view() == gs[f as int]);
                    grp.push(repo.clone());
                    assert(grp.deep_view() =~= gs[f as int].push(repo@));
                    let ghost gd = grp.deep_view();
                    groups.insert(f, grp);
                    assert forall|m: int| 0 <= m < gs.len() implies
                        #[trigger] groups.deep_view()[m] == gs.update(f as int, gd)[m] by {
                        assert(groups.deep_view()[m] == groups@[m].deep_view());
                        if m < f {
                            assert(groups@[m] == gv[m]);
                        } else if m > f {
                            assert(groups@[m] == gv[m]);
                        }
                    }
                    assert(groups.deep_view() =~= gs.update(f as int, gs[f as int].push(repo@)));
                } else {
                    let mut grp: Vec<String> = Vec::new();
                    grp.push(repo.clone());
                    assert(grp.deep_view() =~= seq![repo@]);
                    groups.push(grp);
                    assert forall|m: int| 0 <= m < gs.len() implies
                        #[trigger] groups.deep_view()[m] == gs[m] by {
                        assert(groups@[m] == gv[m]);
                    }
                    assert(groups.deep_view() =~= gs.push(seq![repo@]));
                }
                completed.push(repo.clone());
            }
            i = i + 1;
        }
        assert(ov.take(ov.len() as int) =~= ov);
        assert(groups.deep_view() == parallel_groups_spec(self@, ov));
        proof {
            lemma_parallel_groups_ordered(self@, ov);
            lemma_parallel_groups_distinct(self@, ov);
            lemma_grouping_ok(self@, ov);
            let gsv = groups.deep_view();
            assert forall|a: int, k: int| 0 <= a < gsv.len() && 0 <= k < gsv[a].len()
                implies is_repo(self@, #[trigger] gsv[a][k]) by {
                assert(placed(gsv, gsv[a][k]));
                assert(grouping(self@, ov).1.contains(gsv[a][k]));
                let t = choose|t: int| 0 <= t < ov.len() && ov[t] == gsv[a][k];
                assert(is_repo(self@, ov[t]));
            }
            if all_dependencies_known(self@) {
                lemma_parallel_groups_complete(self@, ov);
            }
            assert forall|a: int| 0 <= a < groups@.len() implies #[trigger] groups@[a]@.len() > 0 by {
                assert(groups.deep_view()[a].len() == groups@[a]@.len());
            }
        }
        Ok(groups)
    }

    /// Set the dependencies of `repo`, replacing any it had.
    pub fn add_dependency(&mut self, repo: String, dependencies: Vec<String>)
        ensures
            final(self)@ == with_dependency(old(self)@, repo@, dependencies.deep_view()),
            names_distinct(final(self)@),
            is_repo(final(self)@, repo@),
            deps_of(final(self)@, repo@) == dependencies.deep_view(),
            forall|x: Seq<char>| x != repo@ ==> #[trigger] is_repo(final(self)@, x) == is_repo(old(self)@, x)
                && deps_of(final(self)@, x) == deps_of(old(self)@, x),
            final(self).organization_view() == old(self).organization_view(),
    {
        proof {
            use_type_invariant(&*self);
            lemma_with_dependency_lookup(self@, repo@, dependencies.deep_view(), repo@);
            assert forall|x: Seq<char>| x != repo@ implies #[trigger] is_repo(
                with_dependency(self@, repo@, dependencies.deep_view()), x) == is_repo(self@, x)
                && deps_of(with_dependency(self@, repo@, dependencies.deep_view()), x) == deps_of(self@, x) by {
                lemma_with_dependency_lookup(self@, repo@, dependencies.deep_view(), x);
            }
        }
        let ghost g = self@;
        let ghost r = repo@;
        let ghost ds = dependencies.deep_view();
        match self.find_repo(repo.as_str()) {
            Some(i) => {
                proof {
                    lemma_repo_index(g, i as int);
                }
                let mut entries: Vec<(String, Vec<String>)> = Vec::new();
                std::mem::swap(&mut entries, &mut self.dependencies);
                entries.set(i, (repo, dependencies));
                proof {
                    assert(entries_view(entries@) =~= g.update(i as int, (r, ds)));
                    assert(names_distinct(entries_view(entries@)));
                }
                self.dependencies = entries;
            },
            None => {
                let mut entries: Vec<(String, Vec<String>)> = Vec::new();
                std::mem::swap(&mut entries, &mut self.dependencies);
                entries.push((repo, dependencies));
                proof {
                    assert(entries_view(entries@) =~= g.push((r, ds)));
                    assert forall|a: int, b: int|
                        0 <= a < g.len() + 1 && 0 <= b < g.len() + 1 && a != b implies
                        #[trigger] entries_view(entries@)[a].0 != #[trigger] entries_view(entries@)[b].0 by {
                        if a == g.len() {
                            assert(g[b].0 != r);
                        } else if b == g.len() {
                            assert(g[a].0 != r);
                        }
                    }
                }
                self.dependencies = entries;
            },
        }
    }
}

/// Node `a` occurs somewhere in the queue.
pub open spec fn in_queue(q: Seq<usize>, a: int) -> bool {
    exists|t: int| 0 <= t < q.len() && q[t] as int == a
}

/// Node `x` sits in the queue before position `t` and among the first `head` entries.
pub open spec fn placed_before(queue: Seq<usize>, x: usize, t: int, head: int) -> bool {
    exists|u: int| 0 <= u < t && u < head && #[trigger] queue[u] == x
}

/// Every dependency of the node at queue position `t` sits earlier in the
/// queue, among the first `head` entries.
pub open spec fn ready_at(queue: Seq<usize>, kds: Seq<Seq<usize>>, head: int, t: int) -> bool {
    forall|k: int| 0 <= k < kds[queue[t] as int].len() ==> placed_before(queue, #[trigger] kds[queue[t] as int][k], t, head)
}

proof fn lemma_ready_mono(queue: Seq<usize>, kds: Seq<Seq<usize>>, h1: int, h2: int, t: int)
    requires
        h1 <= h2,
        ready_at(queue, kds, h1, t),
    ensures
        ready_at(queue, kds, h2, t),
{
    assert forall|k: int| 0 <= k < kds[queue[t] as int].len() implies
        placed_before(queue, #[trigger] kds[queue[t] as int][k], t, h2) by {
        let x = kds[queue[t] as int][k];
        assert(placed_before(queue, x, t, h1));
        let u = choose|u: int| 0 <= u < t && u < h1 && #[trigger] queue[u] == x;
        assert(queue[u] == x);
    }
}

proof fn lemma_ready_push(queue: Seq<usize>, kds: Seq<Seq<usize>>, head: int, t: int, x: usize)
    requires
        0 <= t < queue.len(),
        ready_at(queue, kds, head, t),
    ensures
        ready_at(queue.push(x), kds, head, t),
{
    let q2 = queue.push(x);
    assert(q2[t] == queue[t]);
    assert forall|k: int| 0 <= k < kds[q2[t] as int].len() implies
        placed_before(q2, #[trigger] kds[q2[t] as int][k], t, head) by {
        let y = kds[queue[t] as int][k];
        assert(placed_before(queue, y, t, head));
        let u = choose|u: int| 0 <= u < t && u < head && #[trigger] queue[u] == y;
        assert(q2[u] == queue[u]);
    }
}

proof fn lemma_in_queue_push(q: Seq<usize>, x: usize)
    ensures
        forall|a: int| in_queue(q.push(x), a) <==> (in_queue(q, a) || a == x as int),
{
    let q2 = q.push(x);
    assert forall|a: int| in_queue(q2, a) <==> (in_queue(q, a) || a == x as int) by {
        if in_queue(q, a) {
            let t = choose|t: int| 0 <= t < q.len() && q[t] as int == a;
            assert(q2[t] == q[t]);
        }
        if a == x as int {
            assert(q2[q.len() as int] == x);
        }
        if in_queue(q2, a) && a != x as int {
            let t = choose|t: int| 0 <= t < q2.len() && q2[t] as int == a;
            assert(q[t] == q2[t]);
        }
    }
}

/// Nothing done: every entry is pending.
proof fn lemma_pending_none(s: Seq<usize>, done: Seq<bool>)
    requires
        forall|k: int| 0 <= k < s.len() ==> s[k] < done.len() && !done[s[k] as int],
    ensures
        pending(s, done) == s.len(),
    decreases s.len(),
{
    if s.len() > 0 {
        lemma_pending_none(s.drop_last(), done);
    }
}

/// Number of entries of `s` whose node is not yet marked done.
pub open spec fn pending(s: Seq<usize>, done: Seq<bool>) -> nat
    decreases s.len(),
{
    if s.len() == 0 {
        0
    } else {
        pending(s.drop_last(), done) + if done[s.last() as int] { 0nat } else { 1nat }
    }
}

/// Number of entries of `s` equal to `x`.
pub open spec fn occurrences(s: Seq<usize>, x: usize) -> nat
    decreases s.len(),
{
    if s.len() == 0 {
        0
    } else {
        occurrences(s.drop_last(), x) + if s.last() == x { 1nat } else { 0nat }
    }
}

/// Number of nodes not yet marked done.
pub open spec fn count_false(done: Seq<bool>) -> nat
    decreases done.len(),
{
    if done.len() == 0 {
        0
    } else {
        count_false(done.drop_last()) + if done.last() { 0nat } else { 1nat }
    }
}

/// Marking node `p` done lowers the pending count by its occurrences.
proof fn lemma_pending_mark(s: Seq<usize>, done: Seq<bool>, p: usize)
    requires
        p < done.len(),
        !done[p as int],
        forall|k: int| 0 <= k < s.len() ==> s[k] < done.len(),
    ensures
        pending(s, done.update(p as int, true)) + occurrences(s, p) == pending(s, done),
    decreases s.len(),
{
    if s.len() > 0 {
        lemma_pending_mark(s.drop_last(), done, p);
    }
}

/// A zero pending count means every entry is done.
proof fn lemma_pending_zero(s: Seq<usize>, done: Seq<bool>)
    requires
        pending(s, done) == 0,
        forall|k: int| 0 <= k < s.len() ==> s[k] < done.len(),
    ensures
        forall|k: int| 0 <= k < s.len() ==> done[#[trigger] s[k] as int],
    decreases s.len(),
{
    if s.len() > 0 {
        lemma_pending_zero(s.drop_last(), done);
        assert forall|k: int| 0 <= k < s.len() implies done[#[trigger] s[k] as int] by {
            if k < s.len() - 1 {
                assert(s[k] == s.drop_last()[k]);
            }
        }
    }
}

/// A positive pending count means some entry is not done.
proof fn lemma_pending_positive(s: Seq<usize>, done: Seq<bool>) -> (k: int)
    requires
        pending(s, done) > 0,
    ensures
        0 <= k < s.len(),
        !done[s[k] as int],
    decreases s.len(),
{
    if done[s.last() as int] {
        let k = lemma_pending_positive(s.drop_last(), done);
        assert(s[k] == s.drop_last()[k]);
        k
    } else {
        s.len() - 1
    }
}

/// Marking a node that was not done lowers the count of undone nodes by one.
proof fn lemma_count_false_mark(done: Seq<bool>, p: int)
    requires
        0 <= p < done.len(),
        !done[p],
    ensures
        count_false(done.update(p, true)) + 1 == count_false(done),
    decreases done.len(),
{
    let d2 = done.update(p, true);
    if p == done.len() - 1 {
        assert(d2.drop_last() =~= done.drop_last());
    } else {
        assert(d2.drop_last() =~= done.drop_last().update(p, true));
        lemma_count_false_mark(done.drop_last(), p);
    }
}

/// When the nodes left undone each still wait on an undone dependency, no
/// build order exists.
proof fn lemma_unfinished_blocks_order(g: GraphView, kds: Seq<Seq<usize>>, done: Seq<bool>, m: int)
    requires
        names_distinct(g),
        kds.len() == g.len(),
        done.len() == g.len(),
        0 <= m < g.len(),
        !done[m],
        forall|a: int, k: int| 0 <= a < g.len() && 0 <= k < kds[a].len() ==>
            #[trigger] kds[a][k] < g.len() && g[a].1.contains(g[kds[a][k] as int].0),
        forall|a: int| 0 <= a < g.len() && !done[a] ==> #[trigger] pending(kds[a], done) > 0,
    ensures
        !has_build_order(g),
{
    let bad = Seq::new(g.len(), |a: int| !done[a]);
    assert forall|a: int| 0 <= a < g.len() && #[trigger] bad[a] implies exists|j: int|
        0 <= j < g.len() && bad[j] && #[trigger] g[a].1.contains(g[j].0) by {
        assert(pending(kds[a], done) > 0);
        let k = lemma_pending_positive(kds[a], done);
        let j = kds[a][k] as int;
        assert(bad[j]);
        assert(g[a].1.contains(g[j].0));
    }
    lemma_cycle_blocks_order(g, bad, m);
}

/// Every repository in `bad` has a known dependency in `bad`; then no build
/// order exists, provided `bad` is not empty.
proof fn lemma_cycle_blocks_order(g: GraphView, bad: Seq<bool>, i0: int)
    requires
        names_distinct(g),
        bad.len() == g.len(),
        0 <= i0 < g.len(),
        bad[i0],
        forall|i: int| 0 <= i < g.len() && #[trigger] bad[i] ==> exists|j: int|
            0 <= j < g.len() && bad[j] && #[trigger] g[i].1.contains(g[j].0),
    ensures
        !has_build_order(g),
{
    assert forall|order: Seq<Seq<char>>| !is_build_order(g, order) by {
        if is_build_order(g, order) {
            lemma_no_bad_prefix(g, bad, order, order.len() as int);
            assert(order.contains(g[i0].0));
            let u = choose|u: int| 0 <= u < order.len() && order[u] == g[i0].0;
            lemma_repo_index(g, i0);
            assert(!bad[repo_index(g, order[u])]);
        }
    }
}

proof fn lemma_no_bad_prefix(g: GraphView, bad: Seq<bool>, order: Seq<Seq<char>>, k: int)
    requires
        names_distinct(g),
        bad.len() == g.len(),
        forall|i: int| 0 <= i < g.len() && #[trigger] bad[i] ==> exists|j: int|
            0 <= j < g.len() && bad[j] && #[trigger] g[i].1.contains(g[j].0),
        is_build_order(g, order),
        0 <= k <= order.len(),
    ensures
        forall|u: int| 0 <= u < k ==> !(#[trigger] bad[repo_index(g, order[u])]),
    decreases k,
{
    if k > 0 {
        lemma_no_bad_prefix(g, bad, order, k - 1);
        let t = k - 1;
        assert(is_repo(g, order[t]));
        let i = repo_index(g, order[t]);
        if bad[i] {
            let j = choose|j: int| 0 <= j < g.len() && bad[j] && #[trigger] g[i].1.contains(g[j].0);
            assert(g[j].0 == g[j].0);
            assert(is_repo(g, g[j].0));
            assert(deps_of(g, order[t]) == g[i].1);
            assert(deps_of(g, order[t]).contains(g[j].0));
            let u = choose|u: int| 0 <= u < t && #[trigger] order[u] == g[j].0;
            lemma_repo_index(g, j);
            assert(bad[repo_index(g, order[u])]);
        }
    }
}


proof fn lemma_find_group(gr: Seq<Seq<Seq<char>>>, d: Seq<char>, a: int)
    requires
        0 <= a <= gr.len(),
    ensures
        a <= find_group(gr, d, a) <= gr.len(),
        find_group(gr, d, a) < gr.len() ==> gr[find_group(gr, d, a)].contains(d),
        forall|b: int| a <= b < find_group(gr, d, a) ==> !(#[trigger] gr[b]).contains(d),
    decreases gr.len() - a,
{
    if a < gr.len() && !gr[a].contains(d) {
        lemma_find_group(gr, d, a + 1);
    }
}

/// A placed name is found, at or before any group holding it.
proof fn lemma_find_group_placed(gr: Seq<Seq<Seq<char>>>, d: Seq<char>)
    requires
        placed(gr, d),
    ensures
        find_group(gr, d, 0) < gr.len(),
        forall|b: int, l: int| 0 <= b < gr.len() && 0 <= l < gr[b].len() && #[trigger] gr[b][l] == d
            ==> find_group(gr, d, 0) <= b,
{
    lemma_find_group(gr, d, 0);
    let (a, k) = choose|a: int, k: int| 0 <= a < gr.len() && 0 <= k < gr[a].len() && #[trigger] gr[a][k] == d;
    assert(gr[a].contains(d));
    assert forall|b: int, l: int| 0 <= b < gr.len() && 0 <= l < gr[b].len() && #[trigger] gr[b][l] == d
        implies find_group(gr, d, 0) <= b by {
        assert(gr[b].contains(d));
    }
}

/// Groups that hold `d` in the same places give it the same first group.
proof fn lemma_find_group_same(gr1: Seq<Seq<Seq<char>>>, gr2: Seq<Seq<Seq<char>>>, d: Seq<char>)
    requires
        gr1.len() <= gr2.len(),
        find_group(gr1, d, 0) < gr1.len(),
        forall|b: int| 0 <= b < gr1.len() ==> (#[trigger] gr2[b]).contains(d) == gr1[b].contains(d),
    ensures
        find_group(gr2, d, 0) == find_group(gr1, d, 0),
{
    lemma_find_group(gr1, d, 0);
    lemma_find_group(gr2, d, 0);
    let f1 = find_group(gr1, d, 0);
    let f2 = find_group(gr2, d, 0);
    assert(gr2[f1].contains(d));
    if f2 < f1 {
        assert(gr2[f2].contains(d));
    }
}

proof fn lemma_needed_level(gr: Seq<Seq<Seq<char>>>, deps: Seq<Seq<char>>)
    ensures
        needed_level(gr, deps) >= 0,
        forall|k: int| 0 <= k < deps.len() ==> find_group(gr, #[trigger] deps[k], 0) < needed_level(gr, deps),
        (forall|k: int| 0 <= k < deps.len() ==> find_group(gr, #[trigger] deps[k], 0) < gr.len())
            ==> needed_level(gr, deps) <= gr.len(),
    decreases deps.len(),
{
    if deps.len() > 0 {
        let init = deps.drop_last();
        lemma_needed_level(gr, init);
        assert forall|k: int| 0 <= k < deps.len() implies find_group(gr, #[trigger] deps[k], 0) < needed_level(gr, deps) by {
            if k < init.len() {
                assert(init[k] == deps[k]);
            }
        }
        if forall|k: int| 0 <= k < deps.len() ==> find_group(gr, #[trigger] deps[k], 0) < gr.len() {
            assert forall|k: int| 0 <= k < init.len() implies find_group(gr, #[trigger] init[k], 0) < gr.len() by {
                assert(init[k] == deps[k]);
            }
            assert(find_group(gr, deps[deps.len() - 1], 0) < gr.len());
        }
    }
}

/// What holds of the groups `gr` and placed list `comp` formed along `order`.
spec fn grouping_ok(g: GraphView, gr: Seq<Seq<Seq<char>>>, comp: Seq<Seq<char>>, order: Seq<Seq<char>>) -> bool {
    &&& forall|a: int| 0 <= a < gr.len() ==> #[trigger] gr[a].len() > 0
    &&& forall|r: Seq<char>| placed(gr, r) <==> #[trigger] comp.contains(r)
    &&& forall|a: int, k: int, d: Seq<char>|
        #![trigger deps_of(g, gr[a][k]).contains(d)]
        0 <= a < gr.len() && 0 <= k < gr[a].len() && deps_of(g, gr[a][k]).contains(d)
            ==> comp.contains(d) && find_group(gr, d, 0) < a
    &&& forall|r: Seq<char>| #[trigger] comp.contains(r) ==> order.contains(r)
    &&& positions_distinct(gr)
}

proof fn lemma_take_no_duplicates(s: Seq<Seq<char>>, n: int)
    requires
        s.no_duplicates(),
        0 <= n <= s.len(),
    ensures
        s.take(n).no_duplicates(),
{
    assert forall|i: int, j: int| 0 <= i < n && 0 <= j < n && i != j implies s.take(n)[i] != s.take(n)[j] by {
        assert(s.take(n)[i] == s[i] && s.take(n)[j] == s[j]);
    }
}

proof fn lemma_grouping_ok(g: GraphView, order: Seq<Seq<char>>)
    requires
        order.no_duplicates(),
    ensures
        grouping_ok(g, grouping(g, order).0, grouping(g, order).1, order),
    decreases order.len(),
{
    if order.len() > 0 {
        let prev_order = order.drop_last();
        lemma_take_no_duplicates(order, order.len() - 1);
        assert(prev_order =~= order.take(order.len() - 1));
        lemma_grouping_ok(g, prev_order);
        let gr = grouping(g, prev_order).0;
        let comp = grouping(g, prev_order).1;
        let r = order.last();
        assert forall|x: Seq<char>| prev_order.contains(x) implies order.contains(x) by {
            let t = choose|t: int| 0 <= t < prev_order.len() && prev_order[t] == x;
            assert(order[t] == x);
        }
        if all_in(deps_of(g, r), comp) {
            let deps = deps_of(g, r);
            let l = needed_level(gr, deps);
            let gr2 = place(g, gr, r);
            let comp2 = comp.push(r);
            assert(gr2 == put(gr, l, r));
            assert forall|k: int| 0 <= k < deps.len() implies find_group(gr, #[trigger] deps[k], 0) < gr.len() by {
                assert(comp.contains(deps[k]));
                lemma_find_group_placed(gr, deps[k]);
            }
            lemma_needed_level(gr, deps);
            assert(0 <= l <= gr.len());
            assert(order[order.len() - 1] == r);
            assert(comp2[comp.len() as int] == r);
            if comp.contains(r) {
                let t = choose|t: int| 0 <= t < prev_order.len() && prev_order[t] == r;
                assert(order[t] == order[order.len() - 1]);
            }
            assert(!placed(gr, r));
            // where r sits now
            let (ra, rk) = if l < gr.len() { (l, gr[l].len() as int) } else { (gr.len() as int, 0int) };
            assert(0 <= ra < gr2.len() && 0 <= rk < gr2[ra].len() && gr2[ra][rk] == r);
            assert(ra == l);
            assert forall|a: int, k: int| 0 <= a < gr2.len() && 0 <= k < gr2[a].len() && !(a == ra && k == rk)
                implies 0 <= a < gr.len() && 0 <= k < gr[a].len() && #[trigger] gr2[a][k] == gr[a][k] by {}
            // names other than r keep their first group
            assert forall|d: Seq<char>| #[trigger] comp.contains(d) implies find_group(gr2, d, 0) == find_group(gr, d, 0) by {
                lemma_find_group_placed(gr, d);
                assert(d != r);
                assert forall|b: int| 0 <= b < gr.len() implies (#[trigger] gr2[b]).contains(d) == gr[b].contains(d) by {
                    if b == l {
                        if gr2[b].contains(d) {
                            let k = choose|k: int| 0 <= k < gr2[b].len() && gr2[b][k] == d;
                            assert(k != rk);
                            assert(gr[b][k] == d);
                        }
                        if gr[b].contains(d) {
                            let k = choose|k: int| 0 <= k < gr[b].len() && gr[b][k] == d;
                            assert(gr2[b][k] == d);
                        }
                    } else {
                        assert(gr2[b] == gr[b]);
                    }
                }
                lemma_find_group_same(gr, gr2, d);
            }
            assert forall|a: int| 0 <= a < gr2.len() implies #[trigger] gr2[a].len() > 0 by {
                if a < gr.len() {
                    assert(gr[a].len() > 0);
                }
            }
            assert forall|x: Seq<char>| placed(gr2, x) <==> #[trigger] comp2.contains(x) by {
                if placed(gr2, x) {
                    let (a, k) = choose|a: int, k: int| 0 <= a < gr2.len() && 0 <= k < gr2[a].len() && #[trigger] gr2[a][k] == x;
                    if !(a == ra && k == rk) {
                        assert(gr2[a][k] == gr[a][k]);
                        assert(placed(gr, x));
                        assert(comp.contains(x));
                        let t = choose|t: int| 0 <= t < comp.len() && comp[t] == x;
                        assert(comp2[t] == x);
                    }
                }
                if comp2.contains(x) {
                    if x == r {
                        assert(gr2[ra][rk] == x);
                    } else {
                        let t = choose|t: int| 0 <= t < comp2.len() && comp2[t] == x;
                        assert(comp[t] == x);
                        assert(comp.contains(x));
                        assert(placed(gr, x));
                        let (a, k) = choose|a: int, k: int| 0 <= a < gr.len() && 0 <= k < gr[a].len() && #[trigger] gr[a][k] == x;
                        assert(gr2[a][k] == x);
                    }
                }
            }
            assert forall|x: Seq<char>| comp.contains(x) implies #[trigger] comp2.contains(x) by {
                let t = choose|t: int| 0 <= t < comp.len() && comp[t] == x;
                assert(comp2[t] == x);
            }
            assert forall|a: int, k: int, d: Seq<char>|
                0 <= a < gr2.len() && 0 <= k < gr2[a].len() && #[trigger] deps_of(g, gr2[a][k]).contains(d)
                implies comp2.contains(d) && find_group(gr2, d, 0) < a by {
                if a == ra && k == rk {
                    let t = choose|t: int| 0 <= t < deps.len() && deps[t] == d;
                    assert(comp.contains(deps[t]));
                    assert(find_group(gr, deps[t], 0) < l);
                    assert(find_group(gr2, d, 0) == find_group(gr, d, 0));
                } else {
                    assert(gr2[a][k] == gr[a][k]);
                    assert(deps_of(g, gr[a][k]).contains(d));
                    assert(comp.contains(d));
                    assert(find_group(gr2, d, 0) == find_group(gr, d, 0));
                }
            }
            assert forall|x: Seq<char>| #[trigger] comp2.contains(x) implies order.contains(x) by {
                if x != r {
                    let t = choose|t: int| 0 <= t < comp2.len() && comp2[t] == x;
                    assert(comp[t] == x);
                    assert(comp.contains(x));
                }
            }
            assert forall|a: int, k: int, b: int, l2: int|
                0 <= a < gr2.len() && 0 <= k < gr2[a].len() && 0 <= b < gr2.len() && 0 <= l2 < gr2[b].len()
                && !(a == b && k == l2) implies #[trigger] gr2[a][k] != #[trigger] gr2[b][l2] by {
                if a == ra && k == rk {
                    assert(gr2[b][l2] == gr[b][l2]);
                } else if b == ra && l2 == rk {
                    assert(gr2[a][k] == gr[a][k]);
                } else {
                    assert(gr2[a][k] == gr[a][k]);
                    assert(gr2[b][l2] == gr[b][l2]);
                }
            }
        }
    }
}

/// No repository occupies two places in the groups.
pub open spec fn positions_distinct(gr: Seq<Seq<Seq<char>>>) -> bool {
    forall|a: int, k: int, b: int, l: int|
        #![trigger gr[a][k], gr[b][l]]
        0 <= a < gr.len() && 0 <= k < gr[a].len() && 0 <= b < gr.len() && 0 <= l < gr[b].len()
            && !(a == b && k == l) ==> gr[a][k] != gr[b][l]
}

/// Along an order without repeats, every group is non-empty and no
/// repository depends on another repository of the same group, so a group
/// can be built side by side.
pub proof fn lemma_parallel_groups_independent(g: GraphView, order: Seq<Seq<char>>)
    requires
        order.no_duplicates(),
    ensures
        forall|a: int| 0 <= a < parallel_groups_spec(g, order).len()
            ==> #[trigger] parallel_groups_spec(g, order)[a].len() > 0,
        forall|a: int, k: int, l: int|
            #![trigger parallel_groups_spec(g, order)[a][k], parallel_groups_spec(g, order)[a][l]]
            0 <= a < parallel_groups_spec(g, order).len() && 0 <= k < parallel_groups_spec(g, order)[a].len()
                && 0 <= l < parallel_groups_spec(g, order)[a].len() && k != l
                ==> !deps_of(g, parallel_groups_spec(g, order)[a][k]).contains(parallel_groups_spec(g, order)[a][l]),
{
    lemma_parallel_groups_ordered(g, order);
}

/// Along an order without repeats, every dependency of a placed repository
/// is placed, and only in groups before the repository's own group: built
/// one group after another, a repository's dependencies are always built
/// first.
pub proof fn lemma_parallel_groups_ordered(g: GraphView, order: Seq<Seq<char>>)
    requires
        order.no_duplicates(),
    ensures
        forall|a: int, k: int, d: Seq<char>|
            #![trigger deps_of(g, parallel_groups_spec(g, order)[a][k]).contains(d)]
            0 <= a < parallel_groups_spec(g, order).len() && 0 <= k < parallel_groups_spec(g, order)[a].len()
                && deps_of(g, parallel_groups_spec(g, order)[a][k]).contains(d)
                ==> placed(parallel_groups_spec(g, order), d)
                && forall|b: int, l: int|
                    0 <= b < parallel_groups_spec(g, order).len() && 0 <= l < parallel_groups_spec(g, order)[b].len()
                    && #[trigger] parallel_groups_spec(g, order)[b][l] == d ==> b < a,
        forall|a: int| 0 <= a < parallel_groups_spec(g, order).len()
            ==> #[trigger] parallel_groups_spec(g, order)[a].len() > 0,
{
    lemma_grouping_ok(g, order);
    let gr = grouping(g, order).0;
    let comp = grouping(g, order).1;
    assert forall|a: int, k: int, d: Seq<char>|
        0 <= a < gr.len() && 0 <= k < gr[a].len() && #[trigger] deps_of(g, gr[a][k]).contains(d)
        implies placed(gr, d) && forall|b: int, l: int|
            0 <= b < gr.len() && 0 <= l < gr[b].len() && #[trigger] gr[b][l] == d ==> b < a by {
        assert(comp.contains(d));
        lemma_find_group_placed(gr, d);
        assert forall|b: int, l: int| 0 <= b < gr.len() && 0 <= l < gr[b].len() && #[trigger] gr[b][l] == d
            implies b < a by {
            let f = find_group(gr, d, 0);
            lemma_find_group(gr, d, 0);
            let m = choose|m: int| 0 <= m < gr[f].len() && gr[f][m] == d;
            if b != f {
                assert(gr[b][l] == gr[f][m]);
            }
        }
    }
}

/// Along an order without repeats, no repository is placed twice.
pub proof fn lemma_parallel_groups_distinct(g: GraphView, order: Seq<Seq<char>>)
    requires
        order.no_duplicates(),
    ensures
        positions_distinct(parallel_groups_spec(g, order)),
{
    lemma_grouping_ok(g, order);
}

/// Along a build order of a graph whose dependencies all name repositories
/// of the graph, every repository is placed in some group.
pub proof fn lemma_parallel_groups_complete(g: GraphView, order: Seq<Seq<char>>)
    requires
        is_build_order(g, order),
        all_dependencies_known(g),
    ensures
        forall|i: int| 0 <= i < g.len() ==> placed(parallel_groups_spec(g, order), #[trigger] g[i].0),
{
    lemma_grouping_prefix(g, order, order.len() as int);
    assert(order.take(order.len() as int) =~= order);
    lemma_grouping_ok(g, order);
    let comp = grouping(g, order).1;
    assert forall|i: int| 0 <= i < g.len() implies placed(parallel_groups_spec(g, order), #[trigger] g[i].0) by {
        assert(order.contains(g[i].0));
        let t = choose|t: int| 0 <= t < order.len() && order[t] == g[i].0;
        assert(comp.contains(order[t]));
    }
}

proof fn lemma_grouping_prefix(g: GraphView, order: Seq<Seq<char>>, n: int)
    requires
        is_build_order(g, order),
        forall|i: int, k: int| 0 <= i < g.len() && 0 <= k < g[i].1.len() ==> is_repo(g, #[trigger] g[i].1[k]),
        0 <= n <= order.len(),
    ensures
        forall|u: int| 0 <= u < n ==> grouping(g, order.take(n)).1.contains(#[trigger] order[u]),
    decreases n,
{
    if n > 0 {
        lemma_grouping_prefix(g, order, n - 1);
        let p = order.take(n);
        assert(p.drop_last() =~= order.take(n - 1));
        let comp = grouping(g, order.take(n - 1)).1;
        let r = order[n - 1];
        assert(p.last() == r);
        assert(is_repo(g, r));
        let ri = repo_index(g, r);
        assert forall|k: int| 0 <= k < deps_of(g, r).len() implies comp.contains(#[trigger] deps_of(g, r)[k]) by {
            let d = deps_of(g, r)[k];
            assert(deps_of(g, r) == g[ri].1);
            assert(is_repo(g, g[ri].1[k]));
            assert(deps_of(g, order[n - 1]).contains(d));
            let u = choose|u: int| 0 <= u < n - 1 && #[trigger] order[u] == d;
            assert(comp.contains(order[u]));
        }
        let comp2 = grouping(g, p).1;
        assert(comp2 == comp.push(r));
        assert forall|u: int| 0 <= u < n implies comp2.contains(#[trigger] order[u]) by {
            if u < n - 1 {
                assert(comp.contains(order[u]));
                let t = choose|t: int| 0 <= t < comp.len() && comp[t] == order[u];
                assert(comp2[t] == order[u]);
            } else {
                assert(comp2[comp.len() as int] == r);
            }
        }
    }
}

/// Number of entries of `s` equal to `x`.
fn count_occurrences(s: &Vec<usize>, x: usize) -> (c: usize)
    ensures
        c == occurrences(s@, x),
{
    let mut c: usize = 0;
    let mut k: usize = 0;
    while k < s.len()
        invariant
            k <= s@.len(),
            c == occurrences(s@.take(k as int), x),
            c <= k,
        decreases s@.len() - k,
    {
        assert(s@.take(k + 1).drop_last() =~= s@.take(k as int));
        if s[k] == x {
            c = c + 1;
        }
        k = k + 1;
    }
    assert(s@.take(s@.len() as int) =~= s@);
    c
}

/// The dependents of a name are repository names of the graph, each at
/// most once when the names are distinct.
pub proof fn lemma_dependents_distinct(g: GraphView, x: Seq<char>)
    requires
        names_distinct(g),
    ensures
        dependents_spec(g, x).no_duplicates(),
        forall|t: int| 0 <= t < dependents_spec(g, x).len() ==> is_repo(g, #[trigger] dependents_spec(g, x)[t]),
        forall|r: Seq<char>| #[trigger] dependents_spec(g, x).contains(r)
            <==> (is_repo(g, r) && deps_of(g, r).contains(x)),
    decreases g.len(),
{
    if g.len() > 0 {
        let init = g.drop_last();
        assert(names_distinct(init)) by {
            assert forall|i: int, j: int| 0 <= i < init.len() && 0 <= j < init.len() && i != j
                implies #[trigger] init[i].0 != #[trigger] init[j].0 by {
                assert(init[i] == g[i] && init[j] == g[j]);
            }
        }
        lemma_dependents_distinct(init, x);
        let prev = dependents_spec(init, x);
        assert forall|t: int| 0 <= t < prev.len() implies is_repo(g, #[trigger] prev[t]) && prev[t] != g.last().0 by {
            let i = choose|i: int| 0 <= i < init.len() && #[trigger] init[i].0 == prev[t];
            assert(g[i].0 == prev[t]);
            assert(g[i].0 != g[g.len() - 1].0);
        }
        assert(g[g.len() - 1].0 == g.last().0);
        let last = g.len() - 1;
        lemma_repo_index(g, last);
        assert forall|r: Seq<char>| #[trigger] dependents_spec(g, x).contains(r)
            <==> (is_repo(g, r) && deps_of(g, r).contains(x)) by {
            if r == g[last].0 {
                if prev.contains(r) {
                    let t = choose|t: int| 0 <= t < prev.len() && prev[t] == r;
                    assert(prev[t] != g.last().0);
                }
                if g.last().1.contains(x) {
                    assert(dependents_spec(g, x) == prev.push(r));
                    assert(prev.push(r)[prev.len() as int] == r);
                }
            } else {
                if is_repo(g, r) {
                    let i = repo_index(g, r);
                    assert(i != last);
                    assert(init[i] == g[i]);
                    lemma_repo_index(g, i);
                    lemma_repo_index(init, i);
                } else {
                    if is_repo(init, r) {
                        let i = repo_index(init, r);
                        assert(g[i].0 == r);
                    }
                }
                if dependents_spec(g, x).contains(r) && !prev.contains(r) {
                    let t = choose|t: int| 0 <= t < dependents_spec(g, x).len() && dependents_spec(g, x)[t] == r;
                    if t < prev.len() {
                        assert(dependents_spec(g, x)[t] == prev[t]);
                    }
                }
                if prev.contains(r) {
                    let t = choose|t: int| 0 <= t < prev.len() && prev[t] == r;
                    if g.last().1.contains(x) {
                        assert(prev.push(g.last().0)[t] == r);
                    }
                }
            }
        }
    }
}

/// Setting the dependencies of `r` keeps the names distinct, makes `r` a
/// repository listing exactly `ds`, and leaves every other name as it was.
pub proof fn lemma_with_dependency_lookup(g: GraphView, r: Seq<char>, ds: Seq<Seq<char>>, x: Seq<char>)
    requires
        names_distinct(g),
    ensures
        names_distinct(with_dependency(g, r, ds)),
        is_repo(with_dependency(g, r, ds), r),
        deps_of(with_dependency(g, r, ds), r) == ds,
        x != r ==> is_repo(with_dependency(g, r, ds), x) == is_repo(g, x),
        x != r ==> deps_of(with_dependency(g, r, ds), x) == deps_of(g, x),
{
    let w = with_dependency(g, r, ds);
    let ri: int = if is_repo(g, r) { repo_index(g, r) } else { g.len() as int };
    assert(w[ri] == (r, ds));
    assert forall|i: int| 0 <= i < w.len() && i != ri implies #[trigger] w[i] == g[i] by {}
    assert forall|i: int, j: int| 0 <= i < w.len() && 0 <= j < w.len() && i != j
        implies #[trigger] w[i].0 != #[trigger] w[j].0 by {
        if i == ri {
            assert(g[j].0 != r);
        } else if j == ri {
            assert(g[i].0 != r);
        } else {
            assert(w[i] == g[i] && w[j] == g[j]);
        }
    }
    lemma_repo_index(w, ri);
    if x != r {
        if is_repo(g, x) {
            let i = repo_index(g, x);
            assert(g[i].0 == x);
            assert(i != ri);
            assert(w[i] == g[i]);
            lemma_repo_index(w, i);
            lemma_repo_index(g, i);
        } else {
            if is_repo(w, x) {
                let j = repo_index(w, x);
                assert(w[j].0 == x);
                assert(j != ri);
                assert(w[j] == g[j]);
            }
        }
    }
}

/// With distinct names, the entry at position `i` is the one `repo_index` picks for its name.
pub proof fn lemma_repo_index(g: GraphView, i: int)
    requires
        names_distinct(g),
        0 <= i < g.len(),
    ensures
        is_repo(g, g[i].0),
        repo_index(g, g[i].0) == i,
        deps_of(g, g[i].0) == g[i].1,
{
    assert(g[i].0 == g[i].0);
    let j = repo_index(g, g[i].0);
    assert(g[j].0 == g[i].0);
}

} // verus!
