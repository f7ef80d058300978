//! Persisted configuration: the settings of one tracked repository and
//! the process-wide store that maps repository names to them.
//!
//! The store is modelled as a mathematical map from repository name to
//! repository settings; the executable representation keeps one entry
//! per name, keys unique, so that the map view determines it.

use vstd::prelude::*;

use crate::OpError;

verus! {

/// The mathematical content of one repository's settings.
#[verifier::ext_equal]
pub ghost struct RepoConfigView {
    pub base_tree: Seq<char>,
    pub base_path: Seq<char>,
    pub inactive_trees: Seq<Seq<char>>,
}

/// Settings of one tracked repository: the branch checked out in the
/// canonical working copy, the directory holding that copy and all
/// worktree subdirectories, and the paths of archived worktree slots,
/// oldest first.
#[derive(Debug)]
pub struct RepoConfig {
    pub base_tree: String,
    pub base_path: String,
    pub inactive_trees: Vec<String>,
}

impl View for RepoConfig {
    type V = RepoConfigView;

    open spec fn view(&self) -> RepoConfigView {
        RepoConfigView {
            base_tree: self.base_tree@,
            base_path: self.base_path@,
            inactive_trees: self.inactive_trees.deep_view(),
        }
    }
}

impl DeepView for RepoConfig {
    type V = RepoConfigView;

    open spec fn deep_view(&self) -> RepoConfigView {
        self.view()
    }
}

fn clone_strings(v: &Vec<String>) -> (r: Vec<String>)
    ensures
        r.deep_view() == v.deep_view(),
{
    let mut r: Vec<String> = Vec::new();
    let mut i: usize = 0;
    while i < v.len()
        invariant
            i <= v@.len(),
            r@.len() == i,
            forall|k: int| 0 <= k < i ==> r@[k]@ == v@[k]@,
        decreases v@.len() - i,
    {
        r.push(v[i].clone());
        i += 1;
    }
    proof {
        assert(r.deep_view() =~~= v.deep_view());
    }
    r
}

impl Clone for RepoConfig {
    /// A copy with the same settings.
    fn clone(&self) -> (r: Self)
        ensures
            r@ == self@,
    {
        let r = RepoConfig {
            base_tree: self.base_tree.clone(),
            base_path: self.base_path.clone(),
            inactive_trees: clone_strings(&self.inactive_trees),
        };
        proof {
            assert(r@ =~~= self@);
        }
        r
    }
}

/// The map from repository name to settings that a sequence of store
/// entries represents; a later entry wins, though well-formed stores
/// never hold two entries with one name.
pub open spec fn repos_map(entries: Seq<(String, RepoConfig)>) -> Map<Seq<char>, RepoConfigView>
    decreases entries.len(),
{
    if entries.len() == 0 {
        Map::empty()
    } else {
        repos_map(entries.drop_last()).insert(entries.last().0@, entries.last().1@)
    }
}

/// Entry keys are pairwise distinct.
pub open spec fn wf_repos(entries: Seq<(String, RepoConfig)>) -> bool {
    forall|i: int, j: int| 0 <= i < j < entries.len() ==> entries[i].0@ != entries[j].0@
}

/// Some entry carries this name.
pub open spec fn has_key(entries: Seq<(String, RepoConfig)>, name: Seq<char>) -> bool {
    exists|i: int| 0 <= i < entries.len() && entries[i].0@ == name
}

proof fn lemma_repos_map_contains(entries: Seq<(String, RepoConfig)>, name: Seq<char>)
    ensures
        repos_map(entries).contains_key(name) <==> has_key(entries, name),
    decreases entries.len(),
{
    if entries.len() == 0 {
    } else {
        let dl = entries.drop_last();
        lemma_repos_map_contains(dl, name);
        if entries.last().0@ == name {
            assert(entries[entries.len() - 1].0@ == name);
            assert(has_key(entries, name));
        } else {
            if has_key(dl, name) {
                let i = choose|i: int| 0 <= i < dl.len() && dl[i].0@ == name;
                assert(entries[i].0@ == name);
            }
            if has_key(entries, name) {
                let i = choose|i: int| 0 <= i < entries.len() && entries[i].0@ == name;
                assert(i < entries.len() - 1);
                assert(dl[i].0@ == name);
                assert(has_key(dl, name));
            }
        }
    }
}

proof fn lemma_repos_map_at(entries: Seq<(String, RepoConfig)>, i: int)
    requires
        wf_repos(entries),
        0 <= i < entries.len(),
    ensures
        repos_map(entries).contains_key(entries[i].0@),
        repos_map(entries)[entries[i].0@] == entries[i].1@,
    decreases entries.len(),
{
    if i == entries.len() - 1 {
    } else {
        let dl = entries.drop_last();
        assert(wf_repos(dl));
        lemma_repos_map_at(dl, i);
        assert(entries[i].0@ != entries.last().0@);
    }
}

proof fn lemma_repos_map_update(entries: Seq<(String, RepoConfig)>, i: int, e: (String, RepoConfig))
    requires
        wf_repos(entries),
        0 <= i < entries.len(),
        e.0@ == entries[i].0@,
    ensures
        repos_map(entries.update(i, e)) == repos_map(entries).insert(e.0@, e.1@),
        wf_repos(entries.update(i, e)),
    decreases entries.len(),
{
    let upd = entries.update(i, e);
    assert(forall|x: int, y: int| 0 <= x < y < upd.len() ==> upd[x].0@ != upd[y].0@);
    if i == entries.len() - 1 {
        assert(upd.drop_last() =~= entries.drop_last());
        assert(upd.last() == e);
        assert(repos_map(entries).insert(e.0@, e.1@) =~= repos_map(entries.drop_last()).insert(
            e.0@,
            e.1@,
        ));
    } else {
        let dl = entries.drop_last();
        assert(wf_repos(dl));
        assert(upd.drop_last() =~= dl.update(i, e));
        assert(dl[i] == entries[i]);
        lemma_repos_map_update(dl, i, e);
        let lk = entries.last().0@;
        let lv = entries.last().1@;
        assert(upd.last() == entries.last());
        assert(e.0@ != lk);
        assert(repos_map(upd) == repos_map(dl).insert(e.0@, e.1@).insert(lk, lv));
        assert(repos_map(dl).insert(e.0@, e.1@).insert(lk, lv) =~= repos_map(dl).insert(
            lk,
            lv,
        ).insert(e.0@, e.1@));
    }
}

proof fn lemma_repos_map_push(entries: Seq<(String, RepoConfig)>, e: (String, RepoConfig))
    ensures
        repos_map(entries.push(e)) == repos_map(entries).insert(e.0@, e.1@),
{
    assert(entries.push(e).drop_last() =~= entries);
    assert(entries.push(e).last() == e);
}

proof fn lemma_repos_map_remove(entries: Seq<(String, RepoConfig)>, i: int)
    requires
        wf_repos(entries),
        0 <= i < entries.len(),
    ensures
        repos_map(entries.remove(i)) == repos_map(entries).remove(entries[i].0@),
        wf_repos(entries.remove(i)),
    decreases entries.len(),
{
    let k = entries[i].0@;
    let rm = entries.remove(i);
    assert(forall|x: int, y: int| 0 <= x < y < rm.len() ==> rm[x].0@ != rm[y].0@);
    let dl = entries.drop_last();
    assert(wf_repos(dl));
    if i == entries.len() - 1 {
        assert(rm =~= dl);
        lemma_repos_map_contains(dl, k);
        assert(!has_key(dl, k));
        assert(repos_map(entries).remove(k) =~= repos_map(dl));
    } else {
        assert(rm.drop_last() =~= dl.remove(i));
        assert(dl[i] == entries[i]);
        lemma_repos_map_remove(dl, i);
        let lk = entries.last().0@;
        let lv = entries.last().1@;
        assert(rm.last() == entries[entries.len() - 1]);
        assert(k != lk);
        assert(repos_map(rm) == repos_map(dl).remove(k).insert(lk, lv));
        assert(repos_map(dl).remove(k).insert(lk, lv) =~= repos_map(dl).insert(lk, lv).remove(k));
    }
}

/// The mathematical content of the process-wide store.
#[verifier::ext_equal]
pub ghost struct ConfigView {
    pub repos: Map<Seq<char>, RepoConfigView>,
    pub active_repo: Seq<char>,
}

/// Process-wide persisted state: the tracked repositories, keyed by
/// name, and the name of the repository used when none is given.
#[derive(Debug)]
pub struct Config {
    pub repos: Vec<(String, RepoConfig)>,
    pub active_repo: String,
}

impl View for Config {
    type V = ConfigView;

    open spec fn view(&self) -> ConfigView {
        ConfigView { repos: repos_map(self.repos@), active_repo: self.active_repo@ }
    }
}

impl Config {
    /// Entries carry pairwise distinct repository names.
    pub open spec fn wf(&self) -> bool {
        wf_repos(self.repos@)
    }

    fn find_index(&self, name: &String) -> (r: Option<usize>)
        ensures
            match r {
                Some(i) => i < self.repos@.len() && self.repos@[i as int].0@ == name@,
                None => !has_key(self.repos@, name@),
            },
    {
        let mut i: usize = 0;
        while i < self.repos.len()
            invariant
                i <= self.repos@.len(),
                forall|k: int| 0 <= k < i ==> self.repos@[k].0@ != name@,
            decreases self.repos@.len() - i,
        {
            let e = &self.repos[i];
            if e.0.eq(name) {
                return Some(i);
            }
            i += 1;
        }
        None
    }

    /// The settings stored under `name`, if that repository is tracked.
    pub fn get_repo(&self, name: &String) -> (r: Option<&RepoConfig>)
        requires
            self.wf(),
        ensures
            match r {
                Some(rc) => self@.repos.contains_key(name@) && rc@ == self@.repos[name@],
                None => !self@.repos.contains_key(name@),
            },
    {
        proof {
            lemma_repos_map_contains(self.repos@, name@);
        }
        match self.find_index(name) {
            Some(i) => {
                proof {
                    lemma_repos_map_at(self.repos@, i as int);
                }
                Some(&self.repos[i].1)
            },
            None => None,
        }
    }

    /// Stores `rc` under `name`, replacing the entry of that name if
    /// one exists.
    pub fn insert_repo(&mut self, name: &String, rc: RepoConfig)
        requires
            old(self).wf(),
        ensures
            final(self).wf(),
            final(self)@.repos == old(self)@.repos.insert(name@, rc@),
            final(self)@.active_repo == old(self)@.active_repo,
    {
        let ghost entries = self.repos@;
        match self.find_index(name) {
            Some(i) => {
                let e = (name.clone(), rc);
                let ghost ge = e;
                self.repos.remove(i);
                self.repos.insert(i, e);
                proof {
                    assert(self.repos@ =~= entries.update(i as int, ge));
                    lemma_repos_map_update(entries, i as int, ge);
                }
            },
            None => {
                let e = (name.clone(), rc);
                let ghost ge = e;
                self.repos.push(e);
                proof {
                    lemma_repos_map_push(entries, ge);
                    assert forall|x: int, y: int|
                        0 <= x < y < self.repos@.len() implies self.repos@[x].0@
                        != self.repos@[y].0@ by {
                        if y == self.repos@.len() - 1 {
                            assert(!has_key(entries, name@));
                            assert(entries[x].0@ != name@);
                        }
                    }
                }
            },
        }
    }

    /// Begins tracking a repository with no archived slots. Errs, and
    /// changes nothing, exactly when the name is already tracked.
    pub fn add_repo(&mut self, name: &String, base_tree: String, base_path: String) -> (r: Result<
        (),
        OpError,
    >)
        requires
            old(self).wf(),
        ensures
            final(self).wf(),
            final(self)@.active_repo == old(self)@.active_repo,
            old(self)@.repos.contains_key(name@) ==> r == Err::<(), OpError>(OpError::RepoExists)
                && final(self)@ == old(self)@,
            !old(self)@.repos.contains_key(name@) ==> r == Ok::<(), OpError>(())
                && final(self)@.repos == old(self)@.repos.insert(
                name@,
                RepoConfigView {
                    base_tree: base_tree@,
                    base_path: base_path@,
                    inactive_trees: Seq::empty(),
                },
            ),
    {
        proof {
            lemma_repos_map_contains(self.repos@, name@);
        }
        match self.find_index(name) {
            Some(i) => {
                proof {
                    assert(has_key(self.repos@, name@));
                }
                Err(OpError::RepoExists)
            },
            None => {
                let rc = RepoConfig {
                    base_tree,
                    base_path,
                    inactive_trees: Vec::new(),
                };
                proof {
                    assert(rc.inactive_trees.deep_view() =~~= Seq::<Seq<char>>::empty());
                }
                self.insert_repo(name, rc);
                Ok(())
            },
        }
    }

    /// Stops tracking the named repository. Errs, and changes nothing,
    /// exactly when the name is not tracked.
    pub fn delete_repo(&mut self, name: &String) -> (r: Result<(), OpError>)
        requires
            old(self).wf(),
        ensures
            final(self).wf(),
            final(self)@.active_repo == old(self)@.active_repo,
            !old(self)@.repos.contains_key(name@) ==> r == Err::<(), OpError>(OpError::RepoNotFound)
                && final(self)@ == old(self)@,
            old(self)@.repos.contains_key(name@) ==> r == Ok::<(), OpError>(())
                && final(self)@.repos == old(self)@.repos.remove(name@),
    {
        proof {
            lemma_repos_map_contains(self.repos@, name@);
        }
        match self.find_index(name) {
            Some(i) => {
                proof {
                    lemma_repos_map_remove(self.repos@, i as int);
                }
                self.repos.remove(i);
                Ok(())
            },
            None => Err(OpError::RepoNotFound),
        }
    }

    /// Makes `name` the repository used when none is given. The tracked
    /// repositories are untouched; the name is not checked against
    /// them.
    pub fn set_active_repo(&mut self, name: String)
        ensures
            final(self)@.active_repo == name@,
            final(self)@.repos == old(self)@.repos,
            final(self).wf() == old(self).wf(),
    {
        self.active_repo = name;
    }

    /// The names of the tracked repositories, in entry order.
    pub fn repo_names(&self) -> (r: Vec<String>)
        ensures
            r@.len() == self.repos@.len(),
            forall|i: int| 0 <= i < r@.len() ==> r@[i]@ == self.repos@[i].0@,
    {
        let mut r: Vec<String> = Vec::new();
        let mut i: usize = 0;
        while i < self.repos.len()
            invariant
                i <= self.repos@.len(),
                r@.len() == i,
                forall|k: int| 0 <= k < i ==> r@[k]@ == self.repos@[k].0@,
            decreases self.repos@.len() - i,
        {
            r.push(self.repos[i].0.clone());
            i += 1;
        }
        r
    }

    /// The settings to operate on: those stored under `repo` when a
    /// repository is named, else those of the active repository. `None`
    /// when the key is missing — a configuration error the caller
    /// surfaces.
    pub fn resolve(&self, repo: Option<&String>) -> (r: Option<RepoConfig>)
        requires
            self.wf(),
        ensures
            match repo {
                Some(name) => match r {
                    Some(rc) => self@.repos.contains_key(name@) && rc@ == self@.repos[name@],
                    None => !self@.repos.contains_key(name@),
                },
                None => match r {
                    Some(rc) => self@.repos.contains_key(self@.active_repo) && rc@
                        == self@.repos[self@.active_repo],
                    None => !self@.repos.contains_key(self@.active_repo),
                },
            },
    {
        let name = match repo {
            Some(name) => name,
            None => &self.active_repo,
        };
        match self.get_repo(name) {
            Some(rc) => Some(rc.clone()),
            None => None,
        }
    }

    /// The store written on first run: one tracked repository, which is
    /// also the active one.
    pub fn initial(repo_name: String, values: RepoConfig) -> (c: Config)
        ensures
            c.wf(),
            c@.active_repo == repo_name@,
            c@.repos == Map::<Seq<char>, RepoConfigView>::empty().insert(repo_name@, values@),
    {
        let ghost gv = values@;
        let mut repos: Vec<(String, RepoConfig)> = Vec::new();
        repos.push((repo_name.clone(), values));
        proof {
            assert(repos@.drop_last() =~= Seq::<(String, RepoConfig)>::empty());
            assert(repos_map(Seq::<(String, RepoConfig)>::empty())
                == Map::<Seq<char>, RepoConfigView>::empty());
            assert(repos@.last().0@ == repo_name@ && repos@.last().1@ == gv);
            assert(repos_map(repos@) =~= Map::<Seq<char>, RepoConfigView>::empty().insert(
                repo_name@,
                gv,
            ));
        }
        Config { repos, active_repo: repo_name }
    }
}

} // verus!
