//! A project: a named collection of saved requests grouped into folders,
//! tracking which request is current, plus a pointer to a default
//! environment.
//!
//! Folders are an ordered list of `(name, requests)` pairs, so "first in
//! iteration order" is well defined. The current request is the one whose
//! id matches `active_request_id`; if none matches, the first request in
//! folder order is current.

use vstd::prelude::*;
use crate::http_method::HttpMethod;
use crate::ids::new_id;
use crate::request::copy_request;
use crate::request::is_default_request;
use crate::request::req_eqv;
use crate::request::PendingRequest;
use crate::request::PendingRequestItem;
use crate::text::clone_opt_string;
use crate::rows::kv_view;
use crate::rows::rows_key_updated;
use crate::rows::rows_value_updated;
use crate::text::str_eq;

verus! {

/// Whether the request at folder `f`, position `i` carries `id`.
pub open spec fn matches_at(
    folders: Seq<(String, Vec<PendingRequest>)>,
    id: Seq<char>,
    f: int,
    i: int,
) -> bool {
    0 <= f < folders.len() && 0 <= i < folders[f].1@.len() && folders[f].1@[i].id@ == id
}

/// Whether position `(f2, i2)` comes before `(f, i)` in folder order.
pub open spec fn earlier(f2: int, i2: int, f: int, i: int) -> bool {
    f2 < f || (f2 == f && i2 < i)
}

/// Whether `(f, i)` is the first position carrying `id`.
pub open spec fn first_match_at(
    folders: Seq<(String, Vec<PendingRequest>)>,
    id: Seq<char>,
    f: int,
    i: int,
) -> bool {
    matches_at(folders, id, f, i) && forall|f2: int, i2: int|
        earlier(f2, i2, f, i) ==> !matches_at(folders, id, f2, i2)
}

/// Whether any request carries `id`.
pub open spec fn has_match(folders: Seq<(String, Vec<PendingRequest>)>, id: Seq<char>) -> bool {
    exists|f: int, i: int| matches_at(folders, id, f, i)
}

/// Whether folder `f` is the first non-empty folder.
pub open spec fn first_any_at(folders: Seq<(String, Vec<PendingRequest>)>, f: int) -> bool {
    0 <= f < folders.len() && folders[f].1@.len() > 0 && forall|f2: int|
        0 <= f2 < f ==> (#[trigger] folders[f2].1)@.len() == 0
}

/// Whether any folder holds a request.
pub open spec fn some_nonempty(folders: Seq<(String, Vec<PendingRequest>)>) -> bool {
    exists|f: int| 0 <= f < folders.len() && (#[trigger] folders[f].1)@.len() > 0
}

/// Whether `(f, i)` is the position the project resolves as current: the
/// first match of `active_request_id`, or the first request at all when the
/// id is unset or dangling.
pub open spec fn cur_at(p: Project, f: int, i: int) -> bool {
    match p.active_request_id {
        Some(id) => if has_match(p.requests@, id@) {
            first_match_at(p.requests@, id@, f, i)
        } else {
            first_any_at(p.requests@, f) && i == 0
        },
        None => first_any_at(p.requests@, f) && i == 0,
    }
}

/// Whether folder `f` is the first folder named `name`.
pub open spec fn is_first_folder(
    folders: Seq<(String, Vec<PendingRequest>)>,
    name: Seq<char>,
    f: int,
) -> bool {
    0 <= f < folders.len() && folders[f].0@ == name && forall|f2: int|
        0 <= f2 < f ==> (#[trigger] folders[f2].0)@ != name
}

/// Whether some folder is named `name`.
pub open spec fn has_folder(folders: Seq<(String, Vec<PendingRequest>)>, name: Seq<char>) -> bool {
    exists|f: int| 0 <= f < folders.len() && (#[trigger] folders[f].0)@ == name
}

/// Whether `(f2, i2)` is the first in-folder position of `id` in `reqs`.
pub open spec fn first_req_in(reqs: Seq<PendingRequest>, id: Seq<char>, i: int) -> bool {
    0 <= i < reqs.len() && reqs[i].id@ == id && forall|i2: int|
        0 <= i2 < i ==> (#[trigger] reqs[i2]).id@ != id
}

/// Whether `p2` equals `p1` everywhere except possibly the request at
/// `(f, i)` and the `active_request_id` pointer.
pub open spec fn same_but_request(p1: Project, p2: Project, f: int, i: int) -> bool {
    &&& p2 == (Project { requests: p2.requests, active_request_id: p2.active_request_id, ..p1 })
    &&& 0 <= f < p1.requests@.len()
    &&& 0 <= i < p1.requests@[f].1@.len()
    &&& p2.requests@.len() == p1.requests@.len()
    &&& forall|f2: int|
        0 <= f2 < p1.requests@.len() && f2 != f ==> p2.requests@[f2] == p1.requests@[f2]
    &&& p2.requests@[f].0 == p1.requests@[f].0
    &&& p2.requests@[f].1@.len() == p1.requests@[f].1@.len()
    &&& forall|i2: int|
        0 <= i2 < p1.requests@[f].1@.len() && i2 != i ==> p2.requests@[f].1@[i2]
            == p1.requests@[f].1@[i2]
}

/// Whether one key/value edit turned `q1` into `q2`: only the selected row
/// list changes, by `rows_key_updated` or `rows_value_updated`.
pub open spec fn request_item_edited(
    q1: PendingRequest,
    q2: PendingRequest,
    item: PendingRequestItem,
    index: int,
    value: Seq<char>,
    is_key: bool,
) -> bool {
    match item {
        PendingRequestItem::Header => {
            &&& kv_view(q2.headers@) == (if is_key {
                rows_key_updated(kv_view(q1.headers@), index, value)
            } else {
                rows_value_updated(kv_view(q1.headers@), index, value)
            })
            &&& q2 == (PendingRequest { headers: q2.headers, ..q1 })
        },
        PendingRequestItem::Cookie => {
            &&& kv_view(q2.cookies@) == (if is_key {
                rows_key_updated(kv_view(q1.cookies@), index, value)
            } else {
                rows_value_updated(kv_view(q1.cookies@), index, value)
            })
            &&& q2 == (PendingRequest { cookies: q2.cookies, ..q1 })
        },
        PendingRequestItem::Query => {
            &&& kv_view(q2.queries@) == (if is_key {
                rows_key_updated(kv_view(q1.queries@), index, value)
            } else {
                rows_value_updated(kv_view(q1.queries@), index, value)
            })
            &&& q2 == (PendingRequest { queries: q2.queries, ..q1 })
        },
    }
}

/// Whether `p2` is `p1` with its current request transformed by `rel`.
/// On an empty project a `root` folder with one fresh default request is
/// created first and the edit lands on it. A stale id (matching nothing)
/// falls back to the first request and re-points at it; only when no
/// request exists at all does nothing change.
pub open spec fn current_edited(
    p1: Project,
    p2: Project,
    rel: spec_fn(PendingRequest, PendingRequest) -> bool,
) -> bool {
    if p1.requests@.len() == 0 {
        &&& p2 == (Project {
            requests: p2.requests,
            active_request_id: p2.active_request_id,
            ..p1
        })
        &&& p2.requests@.len() == 1
        &&& p2.requests@[0].0@ == "root"@
        &&& p2.requests@[0].1@.len() == 1
        &&& (p2.active_request_id matches Some(aid) && aid@ == p2.requests@[0].1@[0].id@)
        &&& exists|d: PendingRequest| is_default_request(d) && rel(d, p2.requests@[0].1@[0])
    } else {
        match p1.active_request_id {
            Some(id) => if has_match(p1.requests@, id@) {
                &&& p2.active_request_id == p1.active_request_id
                &&& exists|f: int, i: int|
                    #[trigger] first_match_at(p1.requests@, id@, f, i) && same_but_request(
                        p1,
                        p2,
                        f,
                        i,
                    ) && rel(p1.requests@[f].1@[i], p2.requests@[f].1@[i])
            } else if some_nonempty(p1.requests@) {
                exists|f: int|
                    #[trigger] first_any_at(p1.requests@, f) && same_but_request(p1, p2, f, 0)
                        && rel(p1.requests@[f].1@[0], p2.requests@[f].1@[0]) && (
                    p2.active_request_id matches Some(aid) && aid@ == p1.requests@[f].1@[0].id@)
            } else {
                p2 == p1
            },
            None => if some_nonempty(p1.requests@) {
                exists|f: int|
                    #[trigger] first_any_at(p1.requests@, f) && same_but_request(p1, p2, f, 0)
                        && rel(p1.requests@[f].1@[0], p2.requests@[f].1@[0]) && (
                    p2.active_request_id matches Some(aid) && aid@ == p1.requests@[f].1@[0].id@)
            } else {
                p2 == p1
            },
        }
    }
}

/// Whether two request lists hold data-equal requests, position by
/// position.
pub open spec fn reqs_eqv(a: Seq<PendingRequest>, b: Seq<PendingRequest>) -> bool {
    a.len() == b.len() && forall|i: int| 0 <= i < a.len() ==> req_eqv(#[trigger] a[i], b[i])
}

/// Whether two folder lists hold the same folder names and data-equal
/// request lists.
pub open spec fn folders_eqv(
    a: Seq<(String, Vec<PendingRequest>)>,
    b: Seq<(String, Vec<PendingRequest>)>,
) -> bool {
    a.len() == b.len() && forall|f: int|
        0 <= f < a.len() ==> (#[trigger] a[f]).0 == b[f].0 && reqs_eqv(a[f].1@, b[f].1@)
}

/// Whether two projects hold the same data apart from their ids.
pub open spec fn proj_data_eq(a: Project, b: Project) -> bool {
    &&& a.name == b.name
    &&& a.base_url == b.base_url
    &&& a.is_active == b.is_active
    &&& folders_eqv(a.requests@, b.requests@)
    &&& a.active_request_id == b.active_request_id
    &&& a.default_env == b.default_env
}

/// A named collection of requests in folders, with an optional current
/// request and an optional default environment.
#[derive(Clone, Debug)]
pub struct Project {
    pub name: String,
    pub base_url: Option<String>,
    pub is_active: bool,
    pub id: String,
    pub requests: Vec<(String, Vec<PendingRequest>)>,
    pub active_request_id: Option<String>,
    pub default_env: Option<String>,
}

impl Default for Project {
    /// A fresh inactive project named `Unknown project` with one `root`
    /// folder holding one default request. The id is freshly drawn.
    fn default() -> (r: Self)
        ensures
            r.name@ == "Unknown project"@,
            r.base_url is None,
            !r.is_active,
            r.requests@.len() == 1,
            r.requests@[0].0@ == "root"@,
            r.requests@[0].1@.len() == 1,
            is_default_request(r.requests@[0].1@[0]),
            r.active_request_id is None,
            r.default_env is None,
    {
        let mut reqs: Vec<PendingRequest> = Vec::new();
        reqs.push(PendingRequest::default());
        let mut requests: Vec<(String, Vec<PendingRequest>)> = Vec::new();
        requests.push(("root".to_owned(), reqs));
        Project {
            name: "Unknown project".to_owned(),
            base_url: None,
            is_active: false,
            id: new_id(),
            requests,
            active_request_id: None,
            default_env: None,
        }
    }
}

impl Project {
    /// Whether this project carries the given id.
    pub fn has_id(&self, id: &str) -> (r: bool)
        ensures
            r == (self.id@ == id@),
    {
        str_eq(self.id.as_str(), id)
    }

    /// The folder name and request the project currently points at: the
    /// first request matching `active_request_id`, or the first request in
    /// folder order when the id is unset or matches nothing. `None` exactly
    /// when the project holds no request at all.
    pub fn current_request(&self) -> (r: Option<(&String, &PendingRequest)>)
        ensures
            r is Some <==> some_nonempty(self.requests@),
            match r {
                Some(pair) => exists|f: int, i: int|
                    #[trigger] cur_at(*self, f, i) && pair.0@ == self.requests@[f].0@ && *pair.1
                        == self.requests@[f].1@[i],
                None => true,
            },
    {
        let n: usize = self.requests.len();
        if let Some(id) = &self.active_request_id {
            let mut f: usize = 0;
            while f < n
                invariant
                    f <= n,
                    n == self.requests@.len(),
                    self.active_request_id matches Some(aid) && aid == *id,
                    forall|f2: int, i2: int|
                        f2 < f ==> !matches_at(self.requests@, id@, f2, i2),
                decreases n - f,
            {
                let reqs: &Vec<PendingRequest> = &self.requests[f].1;
                let m: usize = reqs.len();
                let mut i: usize = 0;
                while i < m
                    invariant
                        i <= m,
                        f < n,
                        n == self.requests@.len(),
                        m == self.requests@[f as int].1@.len(),
                        reqs@ == self.requests@[f as int].1@,
                        self.active_request_id matches Some(aid) && aid == *id,
                        forall|f2: int, i2: int|
                            f2 < f ==> !matches_at(self.requests@, id@, f2, i2),
                        forall|i2: int| i2 < i ==> !matches_at(self.requests@, id@, f as int, i2),
                    decreases m - i,
                {
                    if reqs[i].has_id(id.as_str()) {
                        proof {
                            assert(matches_at(self.requests@, id@, f as int, i as int));
                            assert forall|f2: int, i2: int|
                                earlier(f2, i2, f as int, i as int) implies !matches_at(
                                self.requests@,
                                id@,
                                f2,
                                i2,
                            ) by {
                                if f2 < f {
                                } else {
                                }
                            }
                            assert(first_match_at(self.requests@, id@, f as int, i as int));
                            assert(cur_at(*self, f as int, i as int));
                        }
                        return Some((&self.requests[f].0, &reqs[i]));
                    }
                    i = i + 1;
                }
                f = f + 1;
            }
        }
        // No match for the active id (or none set): fall back to the first
        // request in folder order.
        let mut f: usize = 0;
        while f < n
            invariant
                f <= n,
                n == self.requests@.len(),
                self.active_request_id matches Some(aid) ==> !has_match(self.requests@, aid@),
                forall|f2: int| 0 <= f2 < f ==> (#[trigger] self.requests@[f2].1)@.len() == 0,
            decreases n - f,
        {
            if self.requests[f].1.len() > 0 {
                proof {
                    assert(first_any_at(self.requests@, f as int));
                    assert(cur_at(*self, f as int, 0));
                }
                return Some((&self.requests[f].0, &self.requests[f].1[0]));
            }
            f = f + 1;
        }
        proof {
            assert(!some_nonempty(self.requests@));
        }
        None
    }

    /// The id of the current request, when there is one.
    pub fn current_request_id(&self) -> (r: Option<String>)
        ensures
            r is Some <==> some_nonempty(self.requests@),
            match r {
                Some(id) => exists|f: int, i: int|
                    #[trigger] cur_at(*self, f, i) && id@ == self.requests@[f].1@[i].id@,
                None => true,
            },
    {
        match self.current_request() {
            Some(pair) => Some(pair.1.id.clone()),
            None => None,
        }
    }

    /// Resolves the current request for mutation and returns its position
    /// `(folder, index)`. On an empty project a `root` folder with one
    /// fresh default request is created and pointed at. When the id is
    /// unset or stale (matching no request), the pointer falls back to the
    /// first request in folder order, as the read path does; `None` comes
    /// only when no request exists at all.
    pub fn current_request_mut(&mut self) -> (r: Option<(usize, usize)>)
        ensures
            *final(self) == (Project {
                requests: final(self).requests,
                active_request_id: final(self).active_request_id,
                ..*old(self)
            }),
            old(self).requests@.len() == 0 ==> {
                &&& final(self).requests@.len() == 1
                &&& final(self).requests@[0].0@ == "root"@
                &&& final(self).requests@[0].1@.len() == 1
                &&& is_default_request(final(self).requests@[0].1@[0])
                &&& (final(self).active_request_id matches Some(aid)
                    && aid@ == final(self).requests@[0].1@[0].id@)
                &&& r == Some((0usize, 0usize))
            },
            old(self).requests@.len() > 0 ==> {
                &&& final(self).requests == old(self).requests
                &&& match old(self).active_request_id {
                    Some(id) => {
                        &&& if has_match(old(self).requests@, id@) {
                            &&& final(self).active_request_id == old(self).active_request_id
                            &&& match r {
                                Some(pos) => first_match_at(
                                    old(self).requests@,
                                    id@,
                                    pos.0 as int,
                                    pos.1 as int,
                                ),
                                None => false,
                            }
                        } else if some_nonempty(old(self).requests@) {
                            match r {
                                Some(pos) => first_any_at(old(self).requests@, pos.0 as int)
                                    && pos.1 == 0usize && (final(self).active_request_id matches
                                Some(aid) && aid@ == old(self).requests@[pos.0 as int].1@[0].id@),
                                None => false,
                            }
                        } else {
                            r is None && final(self).active_request_id == old(
                                self,
                            ).active_request_id
                        }
                    },
                    None => {
                        &&& if some_nonempty(old(self).requests@) {
                            match r {
                                Some(pos) => first_any_at(old(self).requests@, pos.0 as int)
                                    && pos.1 == 0usize && (final(self).active_request_id matches
                                Some(aid) && aid@ == old(self).requests@[pos.0 as int].1@[0].id@),
                                None => false,
                            }
                        } else {
                            r is None && final(self).active_request_id is None
                        }
                    },
                }
            },
    {
        let n: usize = self.requests.len();
        if n == 0 {
            let req: PendingRequest = PendingRequest::default();
            let aid: String = req.id.clone();
            let mut reqs: Vec<PendingRequest> = Vec::new();
            reqs.push(req);
            self.requests.push(("root".to_owned(), reqs));
            self.active_request_id = Some(aid);
            return Some((0, 0));
        }
        if self.active_request_id.is_none() {
            return self.point_at_first();
        }
        let id: String = match &self.active_request_id {
            Some(id) => id.clone(),
            None => {
                // unreachable: the unset-id path returned above
                assert(false);
                String::new()
            },
        };
        let mut f: usize = 0;
        while f < n
            invariant
                f <= n,
                n == self.requests@.len(),
                *self == *old(self),
                old(self).active_request_id matches Some(aid) && aid@ == id@,
                forall|f2: int, i2: int| f2 < f ==> !matches_at(self.requests@, id@, f2, i2),
            decreases n - f,
        {
            let m: usize = self.requests[f].1.len();
            let mut i: usize = 0;
            while i < m
                invariant
                    i <= m,
                    f < n,
                    n == self.requests@.len(),
                    *self == *old(self),
                    old(self).active_request_id matches Some(aid) && aid@ == id@,
                    m == self.requests@[f as int].1@.len(),
                    forall|f2: int, i2: int| f2 < f ==> !matches_at(self.requests@, id@, f2, i2),
                    forall|i2: int| i2 < i ==> !matches_at(self.requests@, id@, f as int, i2),
                decreases m - i,
            {
                if self.requests[f].1[i].has_id(id.as_str()) {
                    proof {
                        assert(matches_at(self.requests@, id@, f as int, i as int));
                        assert forall|f2: int, i2: int|
                            earlier(f2, i2, f as int, i as int) implies !matches_at(
                            self.requests@,
                            id@,
                            f2,
                            i2,
                        ) by {
                            if f2 < f {
                            } else {
                            }
                        }
                        assert(first_match_at(old(self).requests@, id@, f as int, i as int));
                    }
                    return Some((f, i));
                }
                i = i + 1;
            }
            f = f + 1;
        }
        proof {
            assert(!has_match(self.requests@, id@));
        }
        // The pointer is stale: fall back to the first request.
        self.point_at_first()
    }

    /// Points the project at the first request in folder order and returns
    /// its position `(folder, 0)`; on a project without requests it
    /// returns `None` and changes nothing.
    fn point_at_first(&mut self) -> (r: Option<(usize, usize)>)
        ensures
            *final(self) == (Project {
                active_request_id: final(self).active_request_id,
                ..*old(self)
            }),
            if some_nonempty(old(self).requests@) {
                r matches Some(pos) && first_any_at(old(self).requests@, pos.0 as int) && pos.1
                    == 0usize && (final(self).active_request_id matches Some(aid) && aid@ == old(
                    self,
                ).requests@[pos.0 as int].1@[0].id@)
            } else {
                r is None && final(self).active_request_id == old(self).active_request_id
            },
    {
        let n: usize = self.requests.len();
        let mut f: usize = 0;
        while f < n
            invariant
                f <= n,
                n == self.requests@.len(),
                *self == *old(self),
                forall|f2: int| 0 <= f2 < f ==> (#[trigger] self.requests@[f2].1)@.len() == 0,
            decreases n - f,
        {
            if self.requests[f].1.len() > 0 {
                proof {
                    assert(first_any_at(self.requests@, f as int));
                }
                let aid: String = self.requests[f].1[0].id.clone();
                self.active_request_id = Some(aid);
                return Some((f, 0));
            }
            f = f + 1;
        }
        proof {
            assert(!some_nonempty(self.requests@));
        }
        None
    }

    /// Points the project at the request with the given id.
    pub fn set_current_request(&mut self, id: String)
        ensures
            *final(self) == (Project { active_request_id: Some(id), ..*old(self) }),
    {
        self.active_request_id = Some(id);
    }

    /// Applies one key/value edit to the current request (resolving and, if
    /// need be, creating it as `current_request_mut` does).
    pub fn update_request_item(
        &mut self,
        item: PendingRequestItem,
        index: usize,
        value: String,
        is_key: bool,
    )
        ensures
            current_edited(
                *old(self),
                *final(self),
                |q1: PendingRequest, q2: PendingRequest|
                    request_item_edited(q1, q2, item, index as int, value@, is_key),
            ),
    {
        let ghost p1 = *self;
        match self.current_request_mut() {
            Some(pos) => {
                let (f, i): (usize, usize) = pos;
                if is_key {
                    self.requests[f].1[i].update_item_key(item, index, value);
                } else {
                    self.requests[f].1[i].update_item_value(item, index, value);
                }
            },
            None => {},
        }
    }

    /// Replaces the URL of the current request (resolving and, if need be,
    /// creating it as `current_request_mut` does).
    pub fn update_request_url(&mut self, url: String)
        ensures
            current_edited(
                *old(self),
                *final(self),
                |q1: PendingRequest, q2: PendingRequest| q2 == (PendingRequest { url, ..q1 }),
            ),
    {
        match self.current_request_mut() {
            Some(pos) => {
                let (f, i): (usize, usize) = pos;
                self.requests[f].1[i].set_url(url);
            },
            None => {},
        }
    }

    /// Replaces the method of the current request (resolving and, if need
    /// be, creating it as `current_request_mut` does).
    pub fn update_request_method(&mut self, method: HttpMethod)
        ensures
            current_edited(
                *old(self),
                *final(self),
                |q1: PendingRequest, q2: PendingRequest| q2 == (PendingRequest { method, ..q1 }),
            ),
    {
        match self.current_request_mut() {
            Some(pos) => {
                let (f, i): (usize, usize) = pos;
                self.requests[f].1[i].set_method(method);
            },
            None => {},
        }
    }

    /// Adds a request to the named folder (the first folder with that name,
    /// or a fresh folder at the end) and points the project at it.
    pub fn add_request(&mut self, folder: String, request: PendingRequest)
        ensures
            *final(self) == (Project {
                requests: final(self).requests,
                active_request_id: Some(request.id),
                ..*old(self)
            }),
            has_folder(old(self).requests@, folder@) ==> exists|f: int|
                {
                    &&& #[trigger] is_first_folder(old(self).requests@, folder@, f)
                    &&& final(self).requests@.len() == old(self).requests@.len()
                    &&& forall|f2: int|
                        0 <= f2 < old(self).requests@.len() && f2 != f
                            ==> final(self).requests@[f2] == old(self).requests@[f2]
                    &&& final(self).requests@[f].0 == old(self).requests@[f].0
                    &&& final(self).requests@[f].1@ == old(self).requests@[f].1@.push(request)
                },
            !has_folder(old(self).requests@, folder@) ==> {
                &&& final(self).requests@.len() == old(self).requests@.len() + 1
                &&& forall|f2: int|
                    0 <= f2 < old(self).requests@.len() ==> final(self).requests@[f2] == old(
                        self,
                    ).requests@[f2]
                &&& final(self).requests@.last().0 == folder
                &&& final(self).requests@.last().1@ == seq![request]
            },
    {
        let aid: String = request.id.clone();
        self.active_request_id = Some(aid);
        let n: usize = self.requests.len();
        let mut f: usize = 0;
        while f < n
            invariant
                f <= n,
                n == self.requests@.len(),
                *self == (Project {
                    active_request_id: self.active_request_id,
                    ..*old(self)
                }),
                self.active_request_id matches Some(a) && a@ == request.id@ && a == request.id,
                forall|f2: int| 0 <= f2 < f ==> (#[trigger] self.requests@[f2].0)@ != folder@,
            decreases n - f,
        {
            if str_eq(self.requests[f].0.as_str(), folder.as_str()) {
                proof {
                    assert(is_first_folder(self.requests@, folder@, f as int));
                }
                self.requests[f].1.push(request);
                return ;
            }
            f = f + 1;
        }
        proof {
            assert(!has_folder(self.requests@, folder@));
        }
        let mut reqs: Vec<PendingRequest> = Vec::new();
        reqs.push(request);
        self.requests.push((folder, reqs));
    }

    /// Removes the first request with the given id from the named folder,
    /// then re-points `active_request_id` at whatever request now resolves
    /// as current, so the pointer never dangles while requests remain.
    pub fn remove_request(&mut self, folder: String, id: String)
        ensures
            *final(self) == (Project {
                requests: final(self).requests,
                active_request_id: final(self).active_request_id,
                ..*old(self)
            }),
            has_folder(old(self).requests@, folder@) ==> exists|f: int|
                {
                    &&& #[trigger] is_first_folder(old(self).requests@, folder@, f)
                    &&& if exists|i: int| first_req_in(old(self).requests@[f].1@, id@, i) {
                        exists|i: int|
                            {
                                &&& #[trigger] first_req_in(old(self).requests@[f].1@, id@, i)
                                &&& final(self).requests@.len() == old(self).requests@.len()
                                &&& forall|f2: int|
                                    0 <= f2 < old(self).requests@.len() && f2 != f
                                        ==> final(self).requests@[f2] == old(self).requests@[f2]
                                &&& final(self).requests@[f].0 == old(self).requests@[f].0
                                &&& final(self).requests@[f].1@ == old(
                                    self,
                                ).requests@[f].1@.remove(i)
                            }
                    } else {
                        final(self).requests == old(self).requests
                    }
                },
            !has_folder(old(self).requests@, folder@) ==> final(self).requests == old(
                self,
            ).requests,
            some_nonempty(final(self).requests@) ==> (final(self).active_request_id matches Some(
                aid,
            ) && exists|f: int, i: int| matches_at(final(self).requests@, aid@, f, i)),
            !some_nonempty(final(self).requests@) ==> final(self).active_request_id == old(
                self,
            ).active_request_id,
    {
        let n: usize = self.requests.len();
        let mut f: usize = 0;
        while f < n
            invariant
                f <= n,
                n == self.requests@.len(),
                *self == *old(self),
                forall|f2: int| 0 <= f2 < f ==> (#[trigger] self.requests@[f2].0)@ != folder@,
            decreases n - f,
        {
            if str_eq(self.requests[f].0.as_str(), folder.as_str()) {
                proof {
                    assert(is_first_folder(old(self).requests@, folder@, f as int));
                    assert(has_folder(old(self).requests@, folder@));
                }
                let m: usize = self.requests[f].1.len();
                let mut i: usize = 0;
                while i < m
                    invariant
                        i <= m,
                        f < n,
                        n == self.requests@.len(),
                        *self == *old(self),
                        m == self.requests@[f as int].1@.len(),
                        is_first_folder(old(self).requests@, folder@, f as int),
                        has_folder(old(self).requests@, folder@),
                        forall|i2: int|
                            0 <= i2 < i ==> (#[trigger] self.requests@[f as int].1@[i2]).id@
                                != id@,
                    decreases m - i,
                {
                    if self.requests[f].1[i].has_id(id.as_str()) {
                        proof {
                            assert(first_req_in(old(self).requests@[f as int].1@, id@, i as int));
                        }
                        self.requests[f].1.remove(i);
                        self.repoint_current();
                        return ;
                    }
                    i = i + 1;
                }
                proof {
                    assert(forall|i2: int|
                        !first_req_in(old(self).requests@[f as int].1@, id@, i2));
                }
                self.repoint_current();
                return ;
            }
            f = f + 1;
        }
        proof {
            assert(!has_folder(self.requests@, folder@));
        }
        self.repoint_current();
    }

    /// Re-points `active_request_id` at whatever request currently
    /// resolves, leaving it alone when no request remains.
    fn repoint_current(&mut self)
        ensures
            *final(self) == (Project {
                active_request_id: final(self).active_request_id,
                ..*old(self)
            }),
            some_nonempty(old(self).requests@) ==> (final(self).active_request_id matches Some(
                aid,
            ) && exists|f: int, i: int| matches_at(old(self).requests@, aid@, f, i)),
            !some_nonempty(old(self).requests@) ==> final(self).active_request_id == old(
                self,
            ).active_request_id,
    {
        let cur: Option<String> = self.current_request_id();
        match cur {
            Some(cid) => {
                proof {
                    let (f, i) = choose|f: int, i: int|
                        #[trigger] cur_at(*self, f, i) && cid@ == self.requests@[f].1@[i].id@;
                    assert(matches_at(self.requests@, cid@, f, i));
                }
                self.set_current_request(cid);
            },
            None => {},
        }
    }

    /// A deep copy of this project under the given id, with all other data
    /// equal to the source.
    pub fn copy_with_id(&self, id: String) -> (r: Project)
        ensures
            proj_data_eq(r, *self),
            r.id == id,
    {
        let mut requests: Vec<(String, Vec<PendingRequest>)> = Vec::new();
        let n: usize = self.requests.len();
        let mut f: usize = 0;
        while f < n
            invariant
                f <= n,
                n == self.requests@.len(),
                requests@.len() == f,
                forall|f2: int|
                    0 <= f2 < f ==> (#[trigger] requests@[f2]).0 == self.requests@[f2].0
                        && reqs_eqv(requests@[f2].1@, self.requests@[f2].1@),
            decreases n - f,
        {
            let name: String = self.requests[f].0.clone();
            let m: usize = self.requests[f].1.len();
            let mut reqs: Vec<PendingRequest> = Vec::new();
            let mut i: usize = 0;
            while i < m
                invariant
                    i <= m,
                    f < n,
                    n == self.requests@.len(),
                    m == self.requests@[f as int].1@.len(),
                    reqs@.len() == i,
                    forall|i2: int|
                        0 <= i2 < i ==> req_eqv(
                            #[trigger] reqs@[i2],
                            self.requests@[f as int].1@[i2],
                        ),
                decreases m - i,
            {
                let q: PendingRequest = copy_request(&self.requests[f].1[i]);
                reqs.push(q);
                i = i + 1;
            }
            requests.push((name, reqs));
            f = f + 1;
        }
        Project {
            name: self.name.clone(),
            base_url: clone_opt_string(&self.base_url),
            is_active: self.is_active,
            id,
            requests,
            active_request_id: clone_opt_string(&self.active_request_id),
            default_env: clone_opt_string(&self.default_env),
        }
    }

    /// Sets the default environment pointer.
    pub fn set_default_env(&mut self, id: String)
        ensures
            *final(self) == (Project { default_env: Some(id), ..*old(self) }),
    {
        self.default_env = Some(id);
    }

    /// Clears the default environment pointer.
    pub fn remove_default_env(&mut self)
        ensures
            *final(self) == (Project { default_env: None, ..*old(self) }),
    {
        self.default_env = None;
    }
}

} // verus!
