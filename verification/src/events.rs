//! The editing events of the workbench and what each does to the store.
//!
//! Each event is a plain value; `handle` applies it. The surrounding shell
//! only constructs events from user input and hands them here, so all the
//! decisions live in the library.

use vstd::prelude::*;
use vstd::string::StrSliceExecFns;
use crate::db::first_env_idx;
use crate::db::first_project_idx;
use crate::db::marked_or_first_env;
use crate::db::marked_or_first_project;
use crate::db::DB;
use crate::env::env_data_eq;
use crate::env::Env;
use crate::http_method::HttpMethod;
use crate::db::default_env_resolves;
use crate::project::current_edited;
use crate::project::first_req_in;
use crate::project::has_folder;
use crate::project::matches_at;
use crate::request::is_default_request;
use crate::project::is_first_folder;
use crate::project::proj_data_eq;
use crate::project::request_item_edited;
use crate::project::some_nonempty;
use crate::project::Project;
use crate::request::FalconAuthorization;
use crate::request::PendingRequest;
use crate::request::PendingRequestItem;
use crate::rows::kv_view;
use crate::rows::rows_key_updated;
use crate::rows::rows_value_updated;

verus! {

/// An edit of the environment collection.
#[derive(Debug)]
pub enum EnvEvent {
    Select(String),
    Duplicate(String),
    Delete(String),
    ItemKeyInput(usize, String),
    ItemValueInput(usize, String),
    ItemRemove(usize),
    NameInput(String),
    BaseUrlInput(String),
    Add,
}

/// Whether `e2` is `e1` with one field of the active environment changed by
/// `rel`, everything else equal; a no-op on a store without environments.
pub open spec fn active_env_edited(db1: DB, db2: DB, rel: spec_fn(Env, Env) -> bool) -> bool {
    &&& db2 == (DB { envs: db2.envs, ..db1 })
    &&& if db1.envs@.len() == 0 {
        db2.envs == db1.envs
    } else {
        exists|i: int|
            {
                &&& #[trigger] marked_or_first_env(db1.envs@, i)
                &&& db2.envs@.len() == db1.envs@.len()
                &&& forall|j: int|
                    0 <= j < db1.envs@.len() && j != i ==> db2.envs@[j] == db1.envs@[j]
                &&& rel(db1.envs@[i], db2.envs@[i])
            }
    }
}

impl EnvEvent {
    /// Applies the event to the store.
    pub fn handle(self, db: &mut DB)
        ensures
            *final(db) == (DB { envs: final(db).envs, ..*old(db) }),
            match self {
                EnvEvent::Select(id) => {
                    &&& final(db).envs@.len() == old(db).envs@.len()
                    &&& forall|j: int|
                        0 <= j < old(db).envs@.len() ==> final(db).envs@[j] == (Env {
                            is_active: old(db).envs@[j].id@ == id@,
                            ..old(db).envs@[j]
                        })
                },
                EnvEvent::Duplicate(id) => {
                    &&& (exists|f: int| first_env_idx(old(db).envs@, id@, f)) ==> exists|f: int|
                        {
                            &&& #[trigger] first_env_idx(old(db).envs@, id@, f)
                            &&& final(db).envs@.len() == old(db).envs@.len() + 1
                            &&& forall|j: int|
                                0 <= j < old(db).envs@.len() ==> final(db).envs@[j] == old(db).envs@[j]
                            &&& env_data_eq(final(db).envs@.last(), old(db).envs@[f])
                        }
                    &&& !(exists|f: int| first_env_idx(old(db).envs@, id@, f)) ==> final(db).envs
                        == old(db).envs
                },
                EnvEvent::Delete(id) => {
                    &&& (exists|f: int| first_env_idx(old(db).envs@, id@, f)) ==> exists|f: int|
                        #[trigger] first_env_idx(old(db).envs@, id@, f) && final(db).envs@ == old(db).envs@.remove(f)
                    &&& !(exists|f: int| first_env_idx(old(db).envs@, id@, f)) ==> final(db).envs
                        == old(db).envs
                },
                EnvEvent::ItemKeyInput(index, key) => active_env_edited(
                    *old(db),
                    *final(db),
                    |e1: Env, e2: Env|
                        kv_view(e2.items@) == rows_key_updated(
                            kv_view(e1.items@),
                            index as int,
                            key@,
                        ) && e2 == (Env { items: e2.items, ..e1 }),
                ),
                EnvEvent::ItemValueInput(index, value) => active_env_edited(
                    *old(db),
                    *final(db),
                    |e1: Env, e2: Env|
                        kv_view(e2.items@) == rows_value_updated(
                            kv_view(e1.items@),
                            index as int,
                            value@,
                        ) && e2 == (Env { items: e2.items, ..e1 }),
                ),
                EnvEvent::ItemRemove(index) => active_env_edited(
                    *old(db),
                    *final(db),
                    |e1: Env, e2: Env|
                        (if index < e1.items@.len() {
                            e2.items@ == e1.items@.remove(index as int) && e2 == (Env {
                                items: e2.items,
                                ..e1
                            })
                        } else {
                            e2 == e1
                        }),
                ),
                EnvEvent::NameInput(name) => active_env_edited(
                    *old(db),
                    *final(db),
                    |e1: Env, e2: Env| e2 == (Env { name, ..e1 }),
                ),
                EnvEvent::BaseUrlInput(base) => active_env_edited(
                    *old(db),
                    *final(db),
                    |e1: Env, e2: Env|
                        e2 == (Env {
                            base_url: if base@.len() == 0 {
                                None
                            } else {
                                Some(base)
                            },
                            ..e1
                        }),
                ),
                EnvEvent::Add => {
                    &&& final(db).envs@.len() == old(db).envs@.len() + 1
                    &&& forall|j: int|
                        0 <= j < old(db).envs@.len() ==> final(db).envs@[j] == (Env {
                            is_active: old(db).envs@[j].id@ == final(db).envs@.last().id@,
                            ..old(db).envs@[j]
                        })
                    &&& final(db).envs@.last().name@ == "Default env"@
                    &&& final(db).envs@.last().is_active
                    &&& final(db).envs@.last().base_url is None
                },
            },
    {
        match self {
            EnvEvent::Select(id) => {
                db.set_active_env(id.as_str());
            },
            EnvEvent::Duplicate(id) => {
                db.duplicate_env(id.as_str());
            },
            EnvEvent::Delete(id) => {
                db.delete_env(id.as_str());
            },
            EnvEvent::ItemKeyInput(index, key) => {
                match db.active_env_mut() {
                    Some(i) => {
                        proof {
                            assert(marked_or_first_env(old(db).envs@, i as int));
                        }
                        db.envs[i].update_item_key(index, key);
                    },
                    None => {},
                }
            },
            EnvEvent::ItemValueInput(index, value) => {
                match db.active_env_mut() {
                    Some(i) => {
                        proof {
                            assert(marked_or_first_env(old(db).envs@, i as int));
                        }
                        db.envs[i].update_item_value(index, value);
                    },
                    None => {},
                }
            },
            EnvEvent::ItemRemove(index) => {
                match db.active_env_mut() {
                    Some(i) => {
                        proof {
                            assert(marked_or_first_env(old(db).envs@, i as int));
                        }
                        if index < db.envs[i].items.len() {
                            db.envs[i].remove_item(index);
                        }
                    },
                    None => {},
                }
            },
            EnvEvent::NameInput(name) => {
                match db.active_env_mut() {
                    Some(i) => {
                        proof {
                            assert(marked_or_first_env(old(db).envs@, i as int));
                        }
                        db.envs[i].name = name;
                    },
                    None => {},
                }
            },
            EnvEvent::BaseUrlInput(base) => {
                let value: Option<String> = if base.as_str().unicode_len() == 0 {
                    None
                } else {
                    Some(base)
                };
                match db.active_env_mut() {
                    Some(i) => {
                        proof {
                            assert(marked_or_first_env(old(db).envs@, i as int));
                        }
                        db.envs[i].base_url = value;
                    },
                    None => {},
                }
            },
            EnvEvent::Add => {
                let env: Env = Env::default();
                let id: String = env.id.clone();
                db.add_env(env);
                db.set_active_env(id.as_str());
            },
        }
    }
}

/// An edit of the project collection.
#[derive(Debug)]
pub enum ProjectEvent {
    NameInput(String),
    Remove(String),
    Duplicate(String),
    DefaultEnvSelect(Option<String>),
    Add(String),
    Select(String),
}

impl ProjectEvent {
    /// Applies the event to the store; the result says whether a new
    /// project was created.
    pub fn handle(self, db: &mut DB) -> (created: bool)
        ensures
            created == (self is Add),
            match self {
                ProjectEvent::NameInput(name) => {
                    &&& *final(db) == (DB { items: final(db).items, ..*old(db) })
                    &&& if old(db).items@.len() == 0 {
                        final(db).items == old(db).items
                    } else {
                        exists|i: int|
                            #[trigger] marked_or_first_project(old(db).items@, i) && final(db).items@ == old(db).items@.update(
                                i,
                                (Project { name, ..old(db).items@[i] }),
                            )
                    }
                },
                ProjectEvent::Remove(id) => {
                    &&& *final(db) == (DB { items: final(db).items, ..*old(db) })
                    &&& (exists|f: int| first_project_idx(old(db).items@, id@, f)) ==> exists|
                        f: int,
                    |
                        #[trigger] first_project_idx(old(db).items@, id@, f) && final(db).items@
                            == old(db).items@.remove(f)
                    &&& !(exists|f: int| first_project_idx(old(db).items@, id@, f)) ==> final(db).items == old(db).items
                },
                ProjectEvent::Duplicate(id) => {
                    &&& *final(db) == (DB { items: final(db).items, ..*old(db) })
                    &&& (exists|f: int| first_project_idx(old(db).items@, id@, f)) ==> exists|
                        f: int,
                    |
                        {
                            &&& #[trigger] first_project_idx(old(db).items@, id@, f)
                            &&& final(db).items@.len() == old(db).items@.len() + 1
                            &&& forall|j: int|
                                0 <= j < old(db).items@.len() ==> final(db).items@[j] == old(db).items@[j]
                            &&& proj_data_eq(final(db).items@.last(), old(db).items@[f])
                        }
                    &&& !(exists|f: int| first_project_idx(old(db).items@, id@, f)) ==> final(db).items == old(db).items
                },
                ProjectEvent::DefaultEnvSelect(opt) => {
                    &&& final(db).items@.len() == old(db).items@.len()
                    &&& final(db).envs@.len() == old(db).envs@.len()
                    &&& match opt {
                        Some(env_id) => forall|j: int|
                            0 <= j < old(db).envs@.len() ==> final(db).envs@[j] == (Env {
                                is_active: old(db).envs@[j].id@ == env_id@,
                                ..old(db).envs@[j]
                            }),
                        None => final(db).envs == old(db).envs,
                    }
                    &&& if old(db).items@.len() == 0 {
                        final(db).items == old(db).items
                    } else {
                        exists|i: int|
                            #[trigger] marked_or_first_project(old(db).items@, i) && final(db).items@ == old(db).items@.update(
                                i,
                                (Project { default_env: opt, ..old(db).items@[i] }),
                            )
                    }
                },
                ProjectEvent::Add(name) => {
                    &&& *final(db) == (DB { items: final(db).items, ..*old(db) })
                    &&& final(db).items@.len() == old(db).items@.len() + 1
                    &&& forall|j: int|
                        0 <= j < old(db).items@.len() ==> final(db).items@[j] == (Project {
                            is_active: false,
                            ..old(db).items@[j]
                        })
                    &&& final(db).items@.last().name == name
                    &&& final(db).items@.last().is_active
                    &&& final(db).items@.last().requests@.len() == 1
                    &&& final(db).items@.last().requests@[0].0@ == "root"@
                    &&& final(db).items@.last().requests@[0].1@.len() == 1
                    &&& is_default_request(final(db).items@.last().requests@[0].1@[0])
                    &&& final(db).items@.last().active_request_id is None
                    &&& final(db).items@.last().default_env is None
                    &&& crate::db::projects_exclusive(final(db).items@)
                },
                ProjectEvent::Select(id) => {
                    &&& final(db).items@.len() == old(db).items@.len()
                    &&& forall|j: int|
                        0 <= j < old(db).items@.len() ==> final(db).items@[j] == (Project {
                            is_active: old(db).items@[j].id@ == id@,
                            ..old(db).items@[j]
                        })
                    &&& final(db).envs@.len() == old(db).envs@.len()
                    &&& if default_env_resolves(
                        (DB { items: final(db).items, envs: old(db).envs }),
                    ) {
                        exists|i: int|
                            #[trigger] marked_or_first_project(final(db).items@, i) && (final(db).items@[i].default_env matches Some(pd) && forall|j: int|
                                0 <= j < old(db).envs@.len() ==> final(db).envs@[j] == (Env {
                                    is_active: (#[trigger] old(db).envs@[j]).id@ == pd@,
                                    ..old(db).envs@[j]
                                }))
                    } else {
                        final(db).envs == old(db).envs
                    }
                },
            },
    {
        match self {
            ProjectEvent::NameInput(name) => {
                match db.active_mut() {
                    Some(i) => {
                        proof {
                            assert(marked_or_first_project(old(db).items@, i as int));
                        }
                        db.items[i].name = name;
                        proof {
                            assert(db.items@ =~= old(db).items@.update(
                                i as int,
                                (Project { name, ..old(db).items@[i as int] }),
                            ));
                        }
                    },
                    None => {},
                }
                false
            },
            ProjectEvent::Remove(id) => {
                db.delete_project(id.as_str());
                false
            },
            ProjectEvent::Duplicate(id) => {
                db.duplicate_project(id.as_str());
                false
            },
            ProjectEvent::DefaultEnvSelect(opt) => {
                match &opt {
                    Some(env_id) => {
                        db.set_active_env(env_id.as_str());
                    },
                    None => {},
                }
                match db.active_mut() {
                    Some(i) => {
                        proof {
                            assert(marked_or_first_project(old(db).items@, i as int));
                        }
                        db.items[i].default_env = opt;
                        proof {
                            assert(db.items@ =~= old(db).items@.update(
                                i as int,
                                (Project { default_env: opt, ..old(db).items@[i as int] }),
                            ));
                        }
                    },
                    None => {},
                }
                false
            },
            ProjectEvent::Add(name) => {
                let mut project: Project = Project::default();
                project.name = name;
                project.is_active = true;
                db.add(project);
                true
            },
            ProjectEvent::Select(id) => {
                db.set_active(id.as_str());
                // Selecting a project also activates its default environment.
                match db.get_project_default_env_id() {
                    Some(env_id) => {
                        db.set_active_env(env_id.as_str());
                    },
                    None => {},
                }
                false
            },
        }
    }
}

/// An edit of the active project's current request.
#[derive(Debug)]
pub enum RequestEvent {
    SelectMethod(HttpMethod),
    ItemKeyInput(PendingRequestItem, usize, String),
    ItemValueInput(PendingRequestItem, usize, String),
    NameInput(String),
    RemoveItem(PendingRequestItem, usize),
    Add(PendingRequest),
    Select(String),
    Delete(String),
    AuthorizationInput(FalconAuthorization),
    UrlInput(String),
    New,
}

/// Whether removing row `index` of the selected list (when in range) turned
/// `q1` into `q2`.
pub open spec fn request_item_removed(
    q1: PendingRequest,
    q2: PendingRequest,
    item: PendingRequestItem,
    index: int,
) -> bool {
    match item {
        PendingRequestItem::Header => if 0 <= index < q1.headers@.len() {
            q2.headers@ == q1.headers@.remove(index) && q2 == (PendingRequest {
                headers: q2.headers,
                ..q1
            })
        } else {
            q2 == q1
        },
        PendingRequestItem::Cookie => if 0 <= index < q1.cookies@.len() {
            q2.cookies@ == q1.cookies@.remove(index) && q2 == (PendingRequest {
                cookies: q2.cookies,
                ..q1
            })
        } else {
            q2 == q1
        },
        PendingRequestItem::Query => if 0 <= index < q1.queries@.len() {
            q2.queries@ == q1.queries@.remove(index) && q2 == (PendingRequest {
                queries: q2.queries,
                ..q1
            })
        } else {
            q2 == q1
        },
    }
}

impl RequestEvent {
    /// Applies the event to a project.
    pub fn handle(self, project: &mut Project)
        ensures
            match self {
                RequestEvent::SelectMethod(method) => current_edited(
                    *old(project),
                    *final(project),
                    |q1: PendingRequest, q2: PendingRequest|
                        q2 == (PendingRequest { method, ..q1 }),
                ),
                RequestEvent::ItemKeyInput(item, index, name) => current_edited(
                    *old(project),
                    *final(project),
                    |q1: PendingRequest, q2: PendingRequest|
                        request_item_edited(q1, q2, item, index as int, name@, true),
                ),
                RequestEvent::ItemValueInput(item, index, value) => current_edited(
                    *old(project),
                    *final(project),
                    |q1: PendingRequest, q2: PendingRequest|
                        request_item_edited(q1, q2, item, index as int, value@, false),
                ),
                RequestEvent::NameInput(name) => current_edited(
                    *old(project),
                    *final(project),
                    |q1: PendingRequest, q2: PendingRequest|
                        q2 == (PendingRequest { name: Some(name), ..q1 }),
                ),
                RequestEvent::RemoveItem(item, index) => current_edited(
                    *old(project),
                    *final(project),
                    |q1: PendingRequest, q2: PendingRequest|
                        request_item_removed(q1, q2, item, index as int),
                ),
                RequestEvent::Add(request) => {
                    &&& *final(project) == (Project {
                        requests: final(project).requests,
                        active_request_id: Some(request.id),
                        ..*old(project)
                    })
                    &&& has_folder(old(project).requests@, "root"@) ==> exists|f: int|
                        {
                            &&& #[trigger] is_first_folder(old(project).requests@, "root"@, f)
                            &&& final(project).requests@.len() == old(project).requests@.len()
                            &&& forall|f2: int|
                                0 <= f2 < old(project).requests@.len() && f2 != f ==> final(project).requests@[f2] == old(project).requests@[f2]
                            &&& final(project).requests@[f].0 == old(project).requests@[f].0
                            &&& final(project).requests@[f].1@ == old(project).requests@[f].1@.push(request)
                        }
                    &&& !has_folder(old(project).requests@, "root"@) ==> {
                        &&& final(project).requests@.len() == old(project).requests@.len() + 1
                        &&& forall|f2: int|
                            0 <= f2 < old(project).requests@.len() ==> final(project).requests@[f2]
                                == old(project).requests@[f2]
                        &&& final(project).requests@.last().0@ == "root"@
                        &&& final(project).requests@.last().1@ == seq![request]
                    }
                },
                RequestEvent::Select(id) => *final(project) == (Project {
                    active_request_id: Some(id),
                    ..*old(project)
                }),
                RequestEvent::Delete(id) => {
                    &&& *final(project) == (Project {
                        requests: final(project).requests,
                        active_request_id: final(project).active_request_id,
                        ..*old(project)
                    })
                    &&& has_folder(old(project).requests@, "root"@) ==> exists|f: int|
                        {
                            &&& #[trigger] is_first_folder(old(project).requests@, "root"@, f)
                            &&& if exists|i: int|
                                first_req_in(old(project).requests@[f].1@, id@, i) {
                                exists|i: int|
                                    {
                                        &&& #[trigger] first_req_in(
                                            old(project).requests@[f].1@,
                                            id@,
                                            i,
                                        )
                                        &&& final(project).requests@.len() == old(project).requests@.len()
                                        &&& forall|f2: int|
                                            0 <= f2 < old(project).requests@.len() && f2 != f
                                                ==> final(project).requests@[f2] == old(project).requests@[f2]
                                        &&& final(project).requests@[f].0 == old(project).requests@[f].0
                                        &&& final(project).requests@[f].1@ == old(project).requests@[f].1@.remove(i)
                                    }
                            } else {
                                final(project).requests == old(project).requests
                            }
                        }
                    &&& !has_folder(old(project).requests@, "root"@) ==> final(project).requests
                        == old(project).requests
                    &&& some_nonempty(final(project).requests@) ==> (final(project).active_request_id matches Some(aid) && exists|f: int, i: int|
                        matches_at(final(project).requests@, aid@, f, i))
                    &&& !some_nonempty(final(project).requests@) ==> final(project).active_request_id == old(project).active_request_id
                },
                RequestEvent::AuthorizationInput(auth) => current_edited(
                    *old(project),
                    *final(project),
                    |q1: PendingRequest, q2: PendingRequest|
                        q2 == (PendingRequest { authorization: auth, ..q1 }),
                ),
                RequestEvent::UrlInput(url) => current_edited(
                    *old(project),
                    *final(project),
                    |q1: PendingRequest, q2: PendingRequest| q2 == (PendingRequest { url, ..q1 }),
                ),
                RequestEvent::New => exists|q: PendingRequest|
                    {
                        &&& #[trigger] is_default_request(q)
                        &&& *final(project) == (Project {
                            requests: final(project).requests,
                            active_request_id: Some(q.id),
                            ..*old(project)
                        })
                        &&& has_folder(old(project).requests@, "root"@) ==> exists|f: int|
                            {
                                &&& #[trigger] is_first_folder(old(project).requests@, "root"@, f)
                                &&& final(project).requests@.len() == old(project).requests@.len()
                                &&& final(project).requests@[f].1@ == old(project).requests@[f].1@.push(q)
                            }
                        &&& !has_folder(old(project).requests@, "root"@) ==> {
                            &&& final(project).requests@.len() == old(project).requests@.len()
                                + 1
                            &&& final(project).requests@.last().1@ == seq![q]
                        }
                    },
            },
    {
        match self {
            RequestEvent::SelectMethod(method) => {
                project.update_request_method(method);
            },
            RequestEvent::ItemKeyInput(item, index, name) => {
                project.update_request_item(item, index, name, true);
            },
            RequestEvent::ItemValueInput(item, index, value) => {
                project.update_request_item(item, index, value, false);
            },
            RequestEvent::NameInput(name) => {
                match project.current_request_mut() {
                    Some(pos) => {
                        let (f, i): (usize, usize) = pos;
                        project.requests[f].1[i].name = Some(name);
                    },
                    None => {},
                }
            },
            RequestEvent::RemoveItem(item, index) => {
                match project.current_request_mut() {
                    Some(pos) => {
                        let (f, i): (usize, usize) = pos;
                        let in_range: bool = match item {
                            PendingRequestItem::Header => index
                                < project.requests[f].1[i].headers.len(),
                            PendingRequestItem::Cookie => index
                                < project.requests[f].1[i].cookies.len(),
                            PendingRequestItem::Query => index
                                < project.requests[f].1[i].queries.len(),
                        };
                        if in_range {
                            project.requests[f].1[i].remove_item(item, index);
                        }
                    },
                    None => {},
                }
            },
            RequestEvent::Add(request) => {
                project.add_request("root".to_owned(), request);
            },
            RequestEvent::Select(id) => {
                project.set_current_request(id);
            },
            RequestEvent::Delete(id) => {
                project.remove_request("root".to_owned(), id);
            },
            RequestEvent::AuthorizationInput(auth) => {
                match project.current_request_mut() {
                    Some(pos) => {
                        let (f, i): (usize, usize) = pos;
                        project.requests[f].1[i].set_auth(auth);
                    },
                    None => {},
                }
            },
            RequestEvent::UrlInput(url) => {
                project.update_request_url(url);
            },
            RequestEvent::New => {
                let request: PendingRequest = PendingRequest::default();
                project.add_request("root".to_owned(), request);
            },
        }
    }
}

} // verus!
