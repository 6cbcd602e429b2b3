//! The store: the root aggregate holding all projects and all environments,
//! with the exactly-one-active selection rule for each collection.
//!
//! At most one project and at most one environment carry `is_active`; a
//! non-empty collection always resolves an active element, falling back to
//! its first element when none is marked.

use vstd::prelude::*;
use crate::env::env_data_eq;
use crate::env::Env;
use crate::ids::new_id;
use crate::project::proj_data_eq;
use crate::project::Project;
use crate::request::is_default_request;
use crate::rows::blank_row;
use crate::rows::kv_view;
use crate::select_options::SelectItems;
use crate::select_options::SelectOption;
use crate::text::clone_opt_string;

verus! {

/// At most one project is marked active.
pub open spec fn projects_exclusive(items: Seq<Project>) -> bool {
    forall|i: int, j: int|
        0 <= i < items.len() && 0 <= j < items.len() && (#[trigger] items[i]).is_active && (
        #[trigger] items[j]).is_active ==> i == j
}

/// At most one environment is marked active.
pub open spec fn envs_exclusive(envs: Seq<Env>) -> bool {
    forall|i: int, j: int|
        0 <= i < envs.len() && 0 <= j < envs.len() && (#[trigger] envs[i]).is_active && (
        #[trigger] envs[j]).is_active ==> i == j
}

/// No two projects share an id.
pub open spec fn unique_project_ids(items: Seq<Project>) -> bool {
    forall|i: int, j: int|
        0 <= i < items.len() && 0 <= j < items.len() && (#[trigger] items[i]).id@ == (
        #[trigger] items[j]).id@ ==> i == j
}

/// No two environments share an id.
pub open spec fn unique_env_ids(envs: Seq<Env>) -> bool {
    forall|i: int, j: int|
        0 <= i < envs.len() && 0 <= j < envs.len() && (#[trigger] envs[i]).id@ == (
        #[trigger] envs[j]).id@ ==> i == j
}

/// Whether `i` is the index the store resolves as the active project: the
/// first marked one, or index zero when none is marked.
pub open spec fn marked_or_first_project(items: Seq<Project>, i: int) -> bool {
    0 <= i < items.len() && if exists|j: int|
        0 <= j < items.len() && (#[trigger] items[j]).is_active {
        items[i].is_active && forall|j: int| 0 <= j < i ==> !(#[trigger] items[j]).is_active
    } else {
        i == 0
    }
}

/// Whether `i` is the index the store resolves as the active environment.
pub open spec fn marked_or_first_env(envs: Seq<Env>, i: int) -> bool {
    0 <= i < envs.len() && if exists|j: int| 0 <= j < envs.len() && (#[trigger] envs[j]).is_active {
        envs[i].is_active && forall|j: int| 0 <= j < i ==> !(#[trigger] envs[j]).is_active
    } else {
        i == 0
    }
}

/// Whether `f` is the first index of a project with the given id.
pub open spec fn first_project_idx(items: Seq<Project>, id: Seq<char>, f: int) -> bool {
    0 <= f < items.len() && items[f].id@ == id && forall|j: int|
        0 <= j < f ==> (#[trigger] items[j]).id@ != id
}

/// Whether `f` is the first index of an environment with the given id.
pub open spec fn first_env_idx(envs: Seq<Env>, id: Seq<char>, f: int) -> bool {
    0 <= f < envs.len() && envs[f].id@ == id && forall|j: int|
        0 <= j < f ==> (#[trigger] envs[j]).id@ != id
}

/// Whether the store resolves a default environment: the active project
/// (by the marked-or-first rule) points at a default environment that is
/// present among the store's environments.
pub open spec fn default_env_resolves(db: DB) -> bool {
    exists|i: int, j: int|
        #![trigger marked_or_first_project(db.items@, i), db.envs@[j]]
        marked_or_first_project(db.items@, i) && (db.items@[i].default_env matches Some(pd) && 0
            <= j < db.envs@.len() && db.envs@[j].id@ == pd@)
}

/// Exclusivity survives deleting a project.
pub proof fn lemma_exclusive_after_remove_project(items: Seq<Project>, f: int)
    requires
        0 <= f < items.len(),
        projects_exclusive(items),
    ensures
        projects_exclusive(items.remove(f)),
{
    let out = items.remove(f);
    assert forall|i: int, j: int|
        0 <= i < out.len() && 0 <= j < out.len() && (#[trigger] out[i]).is_active && (
        #[trigger] out[j]).is_active implies i == j by {
        let i0 = if i < f {
            i
        } else {
            i + 1
        };
        let j0 = if j < f {
            j
        } else {
            j + 1
        };
        assert(out[i] == items[i0]);
        assert(out[j] == items[j0]);
    }
}

/// Exclusivity survives deleting an environment.
pub proof fn lemma_exclusive_after_remove_env(envs: Seq<Env>, f: int)
    requires
        0 <= f < envs.len(),
        envs_exclusive(envs),
    ensures
        envs_exclusive(envs.remove(f)),
{
    let out = envs.remove(f);
    assert forall|i: int, j: int|
        0 <= i < out.len() && 0 <= j < out.len() && (#[trigger] out[i]).is_active && (
        #[trigger] out[j]).is_active implies i == j by {
        let i0 = if i < f {
            i
        } else {
            i + 1
        };
        let j0 = if j < f {
            j
        } else {
            j + 1
        };
        assert(out[i] == envs[i0]);
        assert(out[j] == envs[j0]);
    }
}

/// Ids stay unique when a duplicate is appended under a fresh id.
pub proof fn lemma_unique_env_ids_after_duplicate(envs: Seq<Env>, e: Env)
    requires
        unique_env_ids(envs),
        forall|j: int| 0 <= j < envs.len() ==> (#[trigger] envs[j]).id@ != e.id@,
    ensures
        unique_env_ids(envs.push(e)),
{
    let out = envs.push(e);
    assert forall|i: int, j: int|
        0 <= i < out.len() && 0 <= j < out.len() && (#[trigger] out[i]).id@ == (
        #[trigger] out[j]).id@ implies i == j by {
        if i < envs.len() {
            assert(out[i] == envs[i]);
        }
        if j < envs.len() {
            assert(out[j] == envs[j]);
        }
    }
}

/// Ids stay unique when a duplicated project is appended under a fresh id.
pub proof fn lemma_unique_project_ids_after_duplicate(items: Seq<Project>, p: Project)
    requires
        unique_project_ids(items),
        forall|j: int| 0 <= j < items.len() ==> (#[trigger] items[j]).id@ != p.id@,
    ensures
        unique_project_ids(items.push(p)),
{
    let out = items.push(p);
    assert forall|i: int, j: int|
        0 <= i < out.len() && 0 <= j < out.len() && (#[trigger] out[i]).id@ == (
        #[trigger] out[j]).id@ implies i == j by {
        if i < items.len() {
            assert(out[i] == items[i]);
        }
        if j < items.len() {
            assert(out[j] == items[j]);
        }
    }
}

/// With a non-empty collection the marked-or-first rule resolves exactly
/// one project as active.
pub proof fn lemma_one_active_project(items: Seq<Project>, i: int, j: int)
    requires
        marked_or_first_project(items, i),
        marked_or_first_project(items, j),
    ensures
        i == j,
{
    if exists|k: int| 0 <= k < items.len() && (#[trigger] items[k]).is_active {
        if i < j {
            assert(!items[i].is_active);
        }
        if j < i {
            assert(!items[j].is_active);
        }
    }
}

/// With a non-empty collection the marked-or-first rule resolves exactly
/// one environment as active.
pub proof fn lemma_one_active_env(envs: Seq<Env>, i: int, j: int)
    requires
        marked_or_first_env(envs, i),
        marked_or_first_env(envs, j),
    ensures
        i == j,
{
    if exists|k: int| 0 <= k < envs.len() && (#[trigger] envs[k]).is_active {
        if i < j {
            assert(!envs[i].is_active);
        }
        if j < i {
            assert(!envs[j].is_active);
        }
    }
}

/// The root aggregate: all projects and all environments.
#[derive(Debug)]
pub struct DB {
    pub items: Vec<Project>,
    pub envs: Vec<Env>,
}

impl DB {
    /// A fresh store: one default project (named `Unknown project`, with a
    /// `root` folder holding one default request) and one default
    /// environment (named `Default env`, with one blank item), neither
    /// marked active.
    pub fn new() -> (r: Self)
        ensures
            r.items@.len() == 1,
            r.items@[0].name@ == "Unknown project"@,
            r.items@[0].base_url is None,
            !r.items@[0].is_active,
            r.items@[0].requests@.len() == 1,
            r.items@[0].requests@[0].0@ == "root"@,
            r.items@[0].requests@[0].1@.len() == 1,
            is_default_request(r.items@[0].requests@[0].1@[0]),
            r.items@[0].active_request_id is None,
            r.items@[0].default_env is None,
            r.envs@.len() == 1,
            r.envs@[0].name@ == "Default env"@,
            kv_view(r.envs@[0].items@) =~= seq![blank_row()],
            !r.envs@[0].is_active,
            r.envs@[0].base_url is None,
            projects_exclusive(r.items@),
            envs_exclusive(r.envs@),
    {
        let mut items: Vec<Project> = Vec::new();
        items.push(Project::default());
        let mut envs: Vec<Env> = Vec::new();
        envs.push(Env::default());
        DB { items, envs }
    }

    /// A store assembled from loaded parts.
    pub fn from_parts(items: Vec<Project>, envs: Vec<Env>) -> (r: Self)
        ensures
            r.items == items,
            r.envs == envs,
    {
        DB { items, envs }
    }

    fn marked_project_index(&self) -> (r: Option<usize>)
        ensures
            match r {
                Some(i) => i < self.items@.len() && self.items@[i as int].is_active && forall|
                    j: int,
                |
                    0 <= j < i ==> !(#[trigger] self.items@[j]).is_active,
                None => forall|j: int|
                    0 <= j < self.items@.len() ==> !(#[trigger] self.items@[j]).is_active,
            },
    {
        let n: usize = self.items.len();
        let mut i: usize = 0;
        while i < n
            invariant
                i <= n,
                n == self.items@.len(),
                forall|j: int| 0 <= j < i ==> !(#[trigger] self.items@[j]).is_active,
            decreases n - i,
        {
            if self.items[i].is_active {
                return Some(i);
            }
            i = i + 1;
        }
        None
    }

    fn marked_env_index(&self) -> (r: Option<usize>)
        ensures
            match r {
                Some(i) => i < self.envs@.len() && self.envs@[i as int].is_active && forall|j: int|
                    0 <= j < i ==> !(#[trigger] self.envs@[j]).is_active,
                None => forall|j: int|
                    0 <= j < self.envs@.len() ==> !(#[trigger] self.envs@[j]).is_active,
            },
    {
        let n: usize = self.envs.len();
        let mut i: usize = 0;
        while i < n
            invariant
                i <= n,
                n == self.envs@.len(),
                forall|j: int| 0 <= j < i ==> !(#[trigger] self.envs@[j]).is_active,
            decreases n - i,
        {
            if self.envs[i].is_active {
                return Some(i);
            }
            i = i + 1;
        }
        None
    }

    /// The active project: the first marked one, or the first project when
    /// none is marked. `None` exactly on an empty store.
    pub fn active(&self) -> (r: Option<&Project>)
        ensures
            r is Some <==> self.items@.len() > 0,
            match r {
                Some(p) => exists|i: int|
                    #[trigger] marked_or_first_project(self.items@, i) && *p == self.items@[i],
                None => true,
            },
    {
        match self.marked_project_index() {
            Some(i) => {
                proof {
                    assert(marked_or_first_project(self.items@, i as int));
                }
                Some(&self.items[i])
            },
            None => {
                if self.items.len() > 0 {
                    proof {
                        assert(marked_or_first_project(self.items@, 0));
                    }
                    Some(&self.items[0])
                } else {
                    None
                }
            },
        }
    }

    /// The index of the project that active-project mutation applies to
    /// (the same resolution as `active`). `None` exactly on an empty store.
    pub fn active_mut(&mut self) -> (r: Option<usize>)
        ensures
            *final(self) == *old(self),
            r is Some <==> old(self).items@.len() > 0,
            match r {
                Some(i) => marked_or_first_project(old(self).items@, i as int),
                None => true,
            },
    {
        match self.marked_project_index() {
            Some(i) => {
                proof {
                    assert(marked_or_first_project(self.items@, i as int));
                }
                Some(i)
            },
            None => {
                if self.items.len() > 0 {
                    proof {
                        assert(marked_or_first_project(self.items@, 0));
                    }
                    Some(0)
                } else {
                    None
                }
            },
        }
    }

    /// The active environment, by the same rule as `active`.
    pub fn active_env(&self) -> (r: Option<&Env>)
        ensures
            r is Some <==> self.envs@.len() > 0,
            match r {
                Some(e) => exists|i: int|
                    #[trigger] marked_or_first_env(self.envs@, i) && *e == self.envs@[i],
                None => true,
            },
    {
        match self.marked_env_index() {
            Some(i) => {
                proof {
                    assert(marked_or_first_env(self.envs@, i as int));
                }
                Some(&self.envs[i])
            },
            None => {
                if self.envs.len() > 0 {
                    proof {
                        assert(marked_or_first_env(self.envs@, 0));
                    }
                    Some(&self.envs[0])
                } else {
                    None
                }
            },
        }
    }

    /// The index of the environment that active-environment mutation
    /// applies to. `None` exactly when the store has no environment.
    pub fn active_env_mut(&mut self) -> (r: Option<usize>)
        ensures
            *final(self) == *old(self),
            r is Some <==> old(self).envs@.len() > 0,
            match r {
                Some(i) => marked_or_first_env(old(self).envs@, i as int),
                None => true,
            },
    {
        match self.marked_env_index() {
            Some(i) => {
                proof {
                    assert(marked_or_first_env(self.envs@, i as int));
                }
                Some(i)
            },
            None => {
                if self.envs.len() > 0 {
                    proof {
                        assert(marked_or_first_env(self.envs@, 0));
                    }
                    Some(0)
                } else {
                    None
                }
            },
        }
    }

    /// Sets the default environment pointer of every project with the given
    /// id.
    pub fn set_project_default_env(&mut self, project_id: &str, env_id: Option<String>)
        ensures
            *final(self) == (DB { items: final(self).items, ..*old(self) }),
            final(self).items@.len() == old(self).items@.len(),
            forall|j: int|
                0 <= j < old(self).items@.len() ==> final(self).items@[j] == (if old(
                    self,
                ).items@[j].id@ == project_id@ {
                    (Project { default_env: env_id, ..old(self).items@[j] })
                } else {
                    old(self).items@[j]
                }),
    {
        let n: usize = self.items.len();
        let mut i: usize = 0;
        while i < n
            invariant
                i <= n,
                n == self.items@.len(),
                self.envs == old(self).envs,
                self.items@.len() == old(self).items@.len(),
                forall|j: int|
                    i <= j < n ==> #[trigger] self.items@[j] == old(self).items@[j],
                forall|j: int|
                    0 <= j < i ==> #[trigger] self.items@[j] == (if old(self).items@[j].id@
                        == project_id@ {
                        (Project { default_env: env_id, ..old(self).items@[j] })
                    } else {
                        old(self).items@[j]
                    }),
            decreases n - i,
        {
            if self.items[i].has_id(project_id) {
                let value: Option<String> = clone_opt_string(&env_id);
                self.items[i].default_env = value;
            }
            i = i + 1;
        }
    }

    /// The id of the active project's default environment: `Some` exactly
    /// when the active project (marked-or-first) points at a default
    /// environment that is present in the store.
    pub fn get_project_default_env_id(&self) -> (r: Option<String>)
        ensures
            r is Some <==> default_env_resolves(*self),
            match r {
                Some(d) => exists|i: int, j: int|
                    #![trigger marked_or_first_project(self.items@, i), self.envs@[j]]
                    marked_or_first_project(self.items@, i) && (
                    self.items@[i].default_env matches Some(pd) && d@ == pd@ && 0 <= j
                        < self.envs@.len() && self.envs@[j].id@ == pd@),
                None => true,
            },
    {
        let active: Option<usize> = match self.marked_project_index() {
            Some(i) => Some(i),
            None => if self.items.len() > 0 {
                Some(0)
            } else {
                None
            },
        };
        match active {
            Some(i) => {
                proof {
                    assert(marked_or_first_project(self.items@, i as int));
                }
                match clone_opt_string(&self.items[i].default_env) {
                    Some(d) => {
                        let n: usize = self.envs.len();
                        let mut j: usize = 0;
                        while j < n
                            invariant
                                j <= n,
                                i < self.items@.len(),
                                n == self.envs@.len(),
                                marked_or_first_project(self.items@, i as int),
                                self.items@[i as int].default_env matches Some(pd) && d@ == pd@,
                                forall|j2: int|
                                    0 <= j2 < j ==> (#[trigger] self.envs@[j2]).id@ != d@,
                            decreases n - j,
                        {
                            if self.envs[j].has_id(d.as_str()) {
                                proof {
                                    assert(default_env_resolves(*self));
                                }
                                return Some(self.envs[j].id.clone());
                            }
                            j = j + 1;
                        }
                        proof {
                            self.lemma_no_default_env(i as int);
                        }
                        None
                    },
                    None => {
                        proof {
                            self.lemma_no_default_env(i as int);
                        }
                        None
                    },
                }
            },
            None => {
                assert(!default_env_resolves(*self));
                None
            },
        }
    }

    /// With `i` resolved as the active project, a default environment
    /// resolves only through `i`: if `i`'s pointer is unset or matches no
    /// environment, none resolves.
    proof fn lemma_no_default_env(&self, i: int)
        requires
            marked_or_first_project(self.items@, i),
            match self.items@[i].default_env {
                Some(pd) => forall|j: int|
                    0 <= j < self.envs@.len() ==> (#[trigger] self.envs@[j]).id@ != pd@,
                None => true,
            },
        ensures
            !default_env_resolves(*self),
    {
        if default_env_resolves(*self) {
            let (i2, j2) = choose|i2: int, j2: int|
                #![trigger marked_or_first_project(self.items@, i2), self.envs@[j2]]
                marked_or_first_project(self.items@, i2) && (self.items@[i2].default_env matches
                Some(pd) && 0 <= j2 < self.envs@.len() && self.envs@[j2].id@ == pd@);
            lemma_one_active_project(self.items@, i, i2);
        }
    }

    /// The active project's default environment: `Some` exactly when the
    /// active project (marked-or-first) points at a default environment
    /// that is present in the store.
    pub fn project_default_env(&self) -> (r: Option<&Env>)
        ensures
            r is Some <==> default_env_resolves(*self),
            match r {
                Some(e) => exists|i: int, j: int|
                    #![trigger marked_or_first_project(self.items@, i), self.envs@[j]]
                    marked_or_first_project(self.items@, i) && (
                    self.items@[i].default_env matches Some(pd) && 0 <= j < self.envs@.len() && *e
                        == self.envs@[j] && e.id@ == pd@),
                None => true,
            },
    {
        let active: Option<usize> = match self.marked_project_index() {
            Some(i) => Some(i),
            None => if self.items.len() > 0 {
                Some(0)
            } else {
                None
            },
        };
        match active {
            Some(i) => {
                proof {
                    assert(marked_or_first_project(self.items@, i as int));
                }
                match clone_opt_string(&self.items[i].default_env) {
                    Some(d) => {
                        let n: usize = self.envs.len();
                        let mut j: usize = 0;
                        while j < n
                            invariant
                                j <= n,
                                i < self.items@.len(),
                                n == self.envs@.len(),
                                marked_or_first_project(self.items@, i as int),
                                self.items@[i as int].default_env matches Some(pd) && d@ == pd@,
                                forall|j2: int|
                                    0 <= j2 < j ==> (#[trigger] self.envs@[j2]).id@ != d@,
                            decreases n - j,
                        {
                            if self.envs[j].has_id(d.as_str()) {
                                proof {
                                    assert(default_env_resolves(*self));
                                }
                                return Some(&self.envs[j]);
                            }
                            j = j + 1;
                        }
                        proof {
                            self.lemma_no_default_env(i as int);
                        }
                        None
                    },
                    None => {
                        proof {
                            self.lemma_no_default_env(i as int);
                        }
                        None
                    },
                }
            },
            None => {
                assert(!default_env_resolves(*self));
                None
            },
        }
    }

    /// Marks exactly the environments with the given id active. With unique
    /// ids, at most one environment stays active.
    pub fn set_active_env(&mut self, id: &str)
        ensures
            *final(self) == (DB { envs: final(self).envs, ..*old(self) }),
            final(self).envs@.len() == old(self).envs@.len(),
            forall|j: int|
                0 <= j < old(self).envs@.len() ==> final(self).envs@[j] == (Env {
                    is_active: old(self).envs@[j].id@ == id@,
                    ..old(self).envs@[j]
                }),
            unique_env_ids(old(self).envs@) ==> envs_exclusive(final(self).envs@),
    {
        let n: usize = self.envs.len();
        let mut i: usize = 0;
        while i < n
            invariant
                i <= n,
                n == self.envs@.len(),
                self.items == old(self).items,
                self.envs@.len() == old(self).envs@.len(),
                forall|j: int| i <= j < n ==> #[trigger] self.envs@[j] == old(self).envs@[j],
                forall|j: int|
                    0 <= j < i ==> #[trigger] self.envs@[j] == (Env {
                        is_active: old(self).envs@[j].id@ == id@,
                        ..old(self).envs@[j]
                    }),
            decreases n - i,
        {
            let hit: bool = self.envs[i].has_id(id);
            self.envs[i].is_active = hit;
            i = i + 1;
        }
    }

    /// Removes the first environment with the given id, if any.
    pub fn delete_env(&mut self, id: &str)
        ensures
            *final(self) == (DB { envs: final(self).envs, ..*old(self) }),
            (exists|f: int| first_env_idx(old(self).envs@, id@, f)) ==> exists|f: int|
                #[trigger] first_env_idx(old(self).envs@, id@, f) && final(self).envs@ == old(
                    self,
                ).envs@.remove(f),
            !(exists|f: int| first_env_idx(old(self).envs@, id@, f)) ==> final(self).envs == old(
                self,
            ).envs,
            envs_exclusive(old(self).envs@) ==> envs_exclusive(final(self).envs@),
    {
        let n: usize = self.envs.len();
        let mut i: usize = 0;
        while i < n
            invariant
                i <= n,
                n == self.envs@.len(),
                *self == *old(self),
                forall|j: int| 0 <= j < i ==> (#[trigger] self.envs@[j]).id@ != id@,
            decreases n - i,
        {
            if self.envs[i].has_id(id) {
                proof {
                    assert(first_env_idx(old(self).envs@, id@, i as int));
                    if envs_exclusive(old(self).envs@) {
                        lemma_exclusive_after_remove_env(old(self).envs@, i as int);
                    }
                }
                self.envs.remove(i);
                return ;
            }
            i = i + 1;
        }
        proof {
            assert forall|f: int| !first_env_idx(old(self).envs@, id@, f) by {}
        }
    }

    /// Appends a copy of the environment with the given id under a freshly
    /// drawn id, returning an equal copy of what was appended. `None` when
    /// no environment carries the id.
    pub fn duplicate_env(&mut self, id: &str) -> (r: Option<Env>)
        ensures
            *final(self) == (DB { envs: final(self).envs, ..*old(self) }),
            r is Some <==> exists|f: int| first_env_idx(old(self).envs@, id@, f),
            match r {
                Some(e) => exists|f: int|
                    {
                        &&& #[trigger] first_env_idx(old(self).envs@, id@, f)
                        &&& final(self).envs@.len() == old(self).envs@.len() + 1
                        &&& forall|j: int|
                            0 <= j < old(self).envs@.len() ==> final(self).envs@[j] == old(
                                self,
                            ).envs@[j]
                        &&& env_data_eq(final(self).envs@.last(), old(self).envs@[f])
                        &&& env_data_eq(e, old(self).envs@[f])
                        &&& e.id == final(self).envs@.last().id
                    },
                None => final(self).envs == old(self).envs,
            },
    {
        let n: usize = self.envs.len();
        let mut i: usize = 0;
        while i < n
            invariant
                i <= n,
                n == self.envs@.len(),
                *self == *old(self),
                forall|j: int| 0 <= j < i ==> (#[trigger] self.envs@[j]).id@ != id@,
            decreases n - i,
        {
            if self.envs[i].has_id(id) {
                proof {
                    assert(first_env_idx(old(self).envs@, id@, i as int));
                }
                let nid: String = new_id();
                let pushed: Env = self.envs[i].copy_with_id(nid.clone());
                let returned: Env = self.envs[i].copy_with_id(nid);
                self.envs.push(pushed);
                return Some(returned);
            }
            i = i + 1;
        }
        proof {
            assert forall|f: int| !first_env_idx(old(self).envs@, id@, f) by {}
        }
        None
    }

    /// Whether the environment the store resolves as active carries the
    /// given id: the first marked environment, or the first environment
    /// when none is marked.
    pub fn is_active_env(&self, id: &str) -> (r: bool)
        ensures
            r == exists|i: int|
                #[trigger] marked_or_first_env(self.envs@, i) && self.envs@[i].id@ == id@,
    {
        match self.marked_env_index() {
            Some(i) => {
                proof {
                    assert(marked_or_first_env(self.envs@, i as int));
                }
                let hit: bool = self.envs[i].has_id(id);
                proof {
                    if !hit {
                        assert forall|k: int|
                            marked_or_first_env(self.envs@, k) implies self.envs@[k].id@ != id@ by {
                            assert(k == i);
                        }
                    }
                }
                hit
            },
            None => {
                if self.envs.len() > 0 {
                    proof {
                        assert(marked_or_first_env(self.envs@, 0));
                    }
                    let hit: bool = self.envs[0].has_id(id);
                    proof {
                        if !hit {
                            assert forall|k: int|
                                marked_or_first_env(self.envs@, k) implies self.envs@[k].id@
                                != id@ by {
                                assert(k == 0);
                            }
                        }
                    }
                    hit
                } else {
                    false
                }
            },
        }
    }

    /// Appends an environment as given.
    pub fn add_env(&mut self, env: Env)
        ensures
            *final(self) == (DB { envs: final(self).envs, ..*old(self) }),
            final(self).envs@ == old(self).envs@.push(env),
            envs_exclusive(old(self).envs@) && !env.is_active ==> envs_exclusive(
                final(self).envs@,
            ),
    {
        self.envs.push(env);
    }

    /// Marks exactly the projects with the given id active. With unique
    /// ids, at most one project stays active.
    pub fn set_active(&mut self, id: &str)
        ensures
            *final(self) == (DB { items: final(self).items, ..*old(self) }),
            final(self).items@.len() == old(self).items@.len(),
            forall|j: int|
                0 <= j < old(self).items@.len() ==> final(self).items@[j] == (Project {
                    is_active: old(self).items@[j].id@ == id@,
                    ..old(self).items@[j]
                }),
            unique_project_ids(old(self).items@) ==> projects_exclusive(final(self).items@),
    {
        let n: usize = self.items.len();
        let mut i: usize = 0;
        while i < n
            invariant
                i <= n,
                n == self.items@.len(),
                self.envs == old(self).envs,
                self.items@.len() == old(self).items@.len(),
                forall|j: int| i <= j < n ==> #[trigger] self.items@[j] == old(self).items@[j],
                forall|j: int|
                    0 <= j < i ==> #[trigger] self.items@[j] == (Project {
                        is_active: old(self).items@[j].id@ == id@,
                        ..old(self).items@[j]
                    }),
            decreases n - i,
        {
            let hit: bool = self.items[i].has_id(id);
            self.items[i].is_active = hit;
            i = i + 1;
        }
    }

    /// Appends a project; an incoming active project first clears the flag
    /// on every other project, so exclusivity is kept.
    pub fn add(&mut self, project: Project)
        ensures
            *final(self) == (DB { items: final(self).items, ..*old(self) }),
            final(self).items@.len() == old(self).items@.len() + 1,
            forall|j: int|
                0 <= j < old(self).items@.len() ==> final(self).items@[j] == (if project.is_active {
                    (Project { is_active: false, ..old(self).items@[j] })
                } else {
                    old(self).items@[j]
                }),
            final(self).items@.last() == project,
            projects_exclusive(old(self).items@) || project.is_active ==> projects_exclusive(
                final(self).items@,
            ),
    {
        if project.is_active {
            let n: usize = self.items.len();
            let mut i: usize = 0;
            while i < n
                invariant
                    i <= n,
                    n == self.items@.len(),
                    self.envs == old(self).envs,
                    self.items@.len() == old(self).items@.len(),
                    forall|j: int| i <= j < n ==> #[trigger] self.items@[j] == old(self).items@[j],
                    forall|j: int|
                        0 <= j < i ==> #[trigger] self.items@[j] == (Project {
                            is_active: false,
                            ..old(self).items@[j]
                        }),
                decreases n - i,
            {
                self.items[i].is_active = false;
                i = i + 1;
            }
        }
        self.items.push(project);
    }

    /// The projects as id-plus-label options, in order.
    pub fn into_options(&self) -> (r: SelectItems<String>)
        ensures
            r.0@.len() == self.items@.len(),
            forall|j: int|
                0 <= j < self.items@.len() ==> (#[trigger] r.0@[j]).label@ == self.items@[j].name@
                    && r.0@[j].value@ == self.items@[j].id@,
    {
        let mut opts: Vec<SelectOption<String>> = Vec::new();
        let n: usize = self.items.len();
        let mut i: usize = 0;
        while i < n
            invariant
                i <= n,
                n == self.items@.len(),
                opts@.len() == i,
                forall|j: int|
                    0 <= j < i ==> (#[trigger] opts@[j]).label@ == self.items@[j].name@
                        && opts@[j].value@ == self.items@[j].id@,
            decreases n - i,
        {
            let opt = SelectOption { label: self.items[i].name.clone(), value: self.items[i].id.clone() };
            opts.push(opt);
            i = i + 1;
        }
        SelectItems(opts)
    }

    /// The active project as an option, when the store is non-empty.
    pub fn selected_project(&self) -> (r: Option<SelectOption<String>>)
        ensures
            r is Some <==> self.items@.len() > 0,
            match r {
                Some(opt) => exists|i: int|
                    #[trigger] marked_or_first_project(self.items@, i) && opt.label@
                        == self.items@[i].name@ && opt.value@ == self.items@[i].id@,
                None => true,
            },
    {
        match self.active() {
            Some(p) => Some(SelectOption { label: p.name.clone(), value: p.id.clone() }),
            None => None,
        }
    }

    /// Removes the first project with the given id, if any.
    pub fn delete_project(&mut self, id: &str)
        ensures
            *final(self) == (DB { items: final(self).items, ..*old(self) }),
            (exists|f: int| first_project_idx(old(self).items@, id@, f)) ==> exists|f: int|
                #[trigger] first_project_idx(old(self).items@, id@, f) && final(self).items@ == old(
                    self,
                ).items@.remove(f),
            !(exists|f: int| first_project_idx(old(self).items@, id@, f)) ==> final(self).items
                == old(self).items,
            projects_exclusive(old(self).items@) ==> projects_exclusive(final(self).items@),
    {
        let n: usize = self.items.len();
        let mut i: usize = 0;
        while i < n
            invariant
                i <= n,
                n == self.items@.len(),
                *self == *old(self),
                forall|j: int| 0 <= j < i ==> (#[trigger] self.items@[j]).id@ != id@,
            decreases n - i,
        {
            if self.items[i].has_id(id) {
                proof {
                    assert(first_project_idx(old(self).items@, id@, i as int));
                    if projects_exclusive(old(self).items@) {
                        lemma_exclusive_after_remove_project(old(self).items@, i as int);
                    }
                }
                self.items.remove(i);
                return ;
            }
            i = i + 1;
        }
        proof {
            assert forall|f: int| !first_project_idx(old(self).items@, id@, f) by {}
        }
    }

    /// Appends a deep copy of the project with the given id under a freshly
    /// drawn id, returning an equal copy of what was appended. `None` when
    /// no project carries the id.
    pub fn duplicate_project(&mut self, id: &str) -> (r: Option<Project>)
        ensures
            *final(self) == (DB { items: final(self).items, ..*old(self) }),
            r is Some <==> exists|f: int| first_project_idx(old(self).items@, id@, f),
            match r {
                Some(p) => exists|f: int|
                    {
                        &&& #[trigger] first_project_idx(old(self).items@, id@, f)
                        &&& final(self).items@.len() == old(self).items@.len() + 1
                        &&& forall|j: int|
                            0 <= j < old(self).items@.len() ==> final(self).items@[j] == old(
                                self,
                            ).items@[j]
                        &&& proj_data_eq(final(self).items@.last(), old(self).items@[f])
                        &&& proj_data_eq(p, old(self).items@[f])
                        &&& p.id == final(self).items@.last().id
                    },
                None => final(self).items == old(self).items,
            },
    {
        let n: usize = self.items.len();
        let mut i: usize = 0;
        while i < n
            invariant
                i <= n,
                n == self.items@.len(),
                *self == *old(self),
                forall|j: int| 0 <= j < i ==> (#[trigger] self.items@[j]).id@ != id@,
            decreases n - i,
        {
            if self.items[i].has_id(id) {
                proof {
                    assert(first_project_idx(old(self).items@, id@, i as int));
                }
                let nid: String = new_id();
                let pushed: Project = self.items[i].copy_with_id(nid.clone());
                let returned: Project = self.items[i].copy_with_id(nid);
                self.items.push(pushed);
                return Some(returned);
            }
            i = i + 1;
        }
        proof {
            assert forall|f: int| !first_project_idx(old(self).items@, id@, f) by {}
        }
        None
    }

    /// The active environment's base URL, or the empty string when there is
    /// no active environment or it has none.
    pub fn get_active_base_url(&self) -> (r: String)
        ensures
            (exists|i: int|
                #[trigger] marked_or_first_env(self.envs@, i) && self.envs@[i].base_url is Some)
                ==> exists|i: int|
                #[trigger] marked_or_first_env(self.envs@, i) && (self.envs@[i].base_url matches
                Some(b) && r@ == b@),
            !(exists|i: int|
                #[trigger] marked_or_first_env(self.envs@, i) && self.envs@[i].base_url is Some)
                ==> r@ =~= Seq::<char>::empty(),
    {
        match self.active_env() {
            Some(e) => {
                match clone_opt_string(&e.base_url) {
                    Some(b) => {
                        proof {
                            let i = choose|i: int|
                                #[trigger] marked_or_first_env(self.envs@, i) && *e
                                    == self.envs@[i];
                        }
                        b
                    },
                    None => {
                        proof {
                            let i0 = choose|i: int|
                                #[trigger] marked_or_first_env(self.envs@, i) && *e
                                    == self.envs@[i];
                            assert forall|i: int|
                                marked_or_first_env(self.envs@, i) implies !(
                            self.envs@[i].base_url is Some) by {
                                assert(i == i0);
                            }
                        }
                        String::new()
                    },
                }
            },
            None => String::new(),
        }
    }

    /// Replaces the active environment's base URL; a no-op on a store
    /// without environments.
    pub fn set_active_base_url(&mut self, base: Option<String>)
        ensures
            *final(self) == (DB { envs: final(self).envs, ..*old(self) }),
            old(self).envs@.len() == 0 ==> final(self).envs == old(self).envs,
            old(self).envs@.len() > 0 ==> exists|i: int|
                #[trigger] marked_or_first_env(old(self).envs@, i) && final(self).envs@ == old(
                    self,
                ).envs@.update(i, (Env { base_url: base, ..old(self).envs@[i] })),
    {
        match self.active_env_mut() {
            Some(i) => {
                proof {
                    assert(marked_or_first_env(old(self).envs@, i as int));
                }
                self.envs[i].base_url = base;
                proof {
                    assert(self.envs@ =~= old(self).envs@.update(
                        i as int,
                        (Env { base_url: base, ..old(self).envs@[i as int] }),
                    ));
                }
            },
            None => {},
        }
    }

    /// The environments as id-plus-label options, in order.
    pub fn env_into_options(&self) -> (r: SelectItems<String>)
        ensures
            r.0@.len() == self.envs@.len(),
            forall|j: int|
                0 <= j < self.envs@.len() ==> (#[trigger] r.0@[j]).label@ == self.envs@[j].name@
                    && r.0@[j].value@ == self.envs@[j].id@,
    {
        let mut opts: Vec<SelectOption<String>> = Vec::new();
        let n: usize = self.envs.len();
        let mut i: usize = 0;
        while i < n
            invariant
                i <= n,
                n == self.envs@.len(),
                opts@.len() == i,
                forall|j: int|
                    0 <= j < i ==> (#[trigger] opts@[j]).label@ == self.envs@[j].name@
                        && opts@[j].value@ == self.envs@[j].id@,
            decreases n - i,
        {
            let opt = SelectOption { label: self.envs[i].name.clone(), value: self.envs[i].id.clone() };
            opts.push(opt);
            i = i + 1;
        }
        SelectItems(opts)
    }

    /// The active environment as an option, when one exists.
    pub fn selected_env_as_option(&self) -> (r: Option<SelectOption<String>>)
        ensures
            r is Some <==> self.envs@.len() > 0,
            match r {
                Some(opt) => exists|i: int|
                    #[trigger] marked_or_first_env(self.envs@, i) && opt.label@
                        == self.envs@[i].name@ && opt.value@ == self.envs@[i].id@,
                None => true,
            },
    {
        match self.active_env() {
            Some(e) => Some(SelectOption { label: e.name.clone(), value: e.id.clone() }),
            None => None,
        }
    }
}

} // verus!
