//! The editable description of one HTTP call, and the captured result of a
//! finished call.

use vstd::prelude::*;
use crate::falcon_duration::FalconDuration;
use crate::http_method::HttpMethod;
use crate::ids::new_id;
use crate::rows::blank_row;
use crate::rows::blank_rows;
use crate::rows::clone_rows;
use crate::text::clone_opt_string;
use crate::rows::kv_view;
use crate::rows::rows_key_updated;
use crate::rows::rows_value_updated;
use crate::rows::update_row_key;
use crate::rows::update_row_value;
use crate::text::str_eq;

verus! {

/// Selects one of the three row lists of a pending request.
#[derive(Clone, Copy, Debug, PartialEq, Eq, Structural)]
pub enum PendingRequestItem {
    Header,
    Cookie,
    Query,
}

/// A cookie captured from a response.
#[derive(Clone, Debug)]
pub struct FalconCookie {
    pub name: String,
    pub value: Option<String>,
    pub http_only: bool,
    /// Expiry instant as seconds since the Unix epoch, when the cookie has
    /// one.
    pub expires: Option<u64>,
}

/// The captured result of a finished HTTP call.
#[derive(Clone, Debug)]
pub struct FalconResponse {
    pub status_code: u16,
    pub body: String,
    pub headers: Vec<(String, String)>,
    pub cookies: Vec<FalconCookie>,
    pub duration: FalconDuration,
    /// `ceil(body bytes / 1024)`.
    pub size_kb: usize,
}

/// How a request authenticates itself.
#[derive(Clone, Debug)]
pub enum FalconAuthorization {
    Bearer { prefix: String, token: String },
}

impl Default for FalconAuthorization {
    /// An empty bearer token under the conventional `Bearer` prefix.
    fn default() -> (r: Self)
        ensures
            r matches FalconAuthorization::Bearer { prefix, token } && prefix@ == "Bearer"@
                && token@ =~= Seq::<char>::empty(),
    {
        FalconAuthorization::Bearer { prefix: "Bearer".to_owned(), token: String::new() }
    }
}

/// The request body.
#[derive(Clone, Debug)]
pub enum FlBody {
    ApplicationJson(String),
}

impl Default for FlBody {
    /// An empty JSON body.
    fn default() -> (r: Self)
        ensures
            r matches FlBody::ApplicationJson(json) && json@ =~= Seq::<char>::empty(),
    {
        FlBody::ApplicationJson(String::new())
    }
}

impl FlBody {
    /// The raw text of the body.
    pub fn text(&self) -> (r: &String)
        ensures
            *self matches FlBody::ApplicationJson(json) && r@ == json@,
    {
        match self {
            FlBody::ApplicationJson(json) => json,
        }
    }
}

/// The editable, unsent description of one HTTP call.
#[derive(Clone, Debug)]
pub struct PendingRequest {
    pub id: String,
    pub name: Option<String>,
    pub url: String,
    pub method: HttpMethod,
    pub headers: Vec<(String, String)>,
    pub cookies: Vec<(String, String)>,
    pub queries: Vec<(String, String)>,
    pub authorization: FalconAuthorization,
    pub body: FlBody,
}

/// Whether two requests hold the same data, field for field (their row
/// vectors may be distinct allocations with equal contents).
pub open spec fn req_eqv(a: PendingRequest, b: PendingRequest) -> bool {
    &&& a.id == b.id
    &&& a.name == b.name
    &&& a.url == b.url
    &&& a.method == b.method
    &&& a.headers@ == b.headers@
    &&& a.cookies@ == b.cookies@
    &&& a.queries@ == b.queries@
    &&& a.authorization == b.authorization
    &&& a.body == b.body
}

/// A deep copy of a request, data-equal to the source.
pub fn copy_request(q: &PendingRequest) -> (r: PendingRequest)
    ensures
        req_eqv(r, *q),
{
    PendingRequest {
        id: q.id.clone(),
        name: clone_opt_string(&q.name),
        url: q.url.clone(),
        method: q.method,
        headers: clone_rows(&q.headers),
        cookies: clone_rows(&q.cookies),
        queries: clone_rows(&q.queries),
        authorization: match &q.authorization {
            FalconAuthorization::Bearer { prefix, token } => FalconAuthorization::Bearer {
                prefix: prefix.clone(),
                token: token.clone(),
            },
        },
        body: match &q.body {
            FlBody::ApplicationJson(json) => FlBody::ApplicationJson(json.clone()),
        },
    }
}

/// The shape of a freshly created request: GET on `https://`, one blank row
/// in each list, an empty bearer token under the `Bearer` prefix, an empty
/// JSON body and no name. (The id is freshly drawn and unconstrained.)
pub open spec fn is_default_request(r: PendingRequest) -> bool {
    &&& r.name is None
    &&& r.url@ == "https://"@
    &&& r.method == HttpMethod::Get
    &&& kv_view(r.headers@) =~= seq![blank_row()]
    &&& kv_view(r.cookies@) =~= seq![blank_row()]
    &&& kv_view(r.queries@) =~= seq![blank_row()]
    &&& r.authorization matches FalconAuthorization::Bearer { prefix, token } && prefix@
        == "Bearer"@ && token@ =~= Seq::<char>::empty()
    &&& r.body matches FlBody::ApplicationJson(json) && json@ =~= Seq::<char>::empty()
}

impl Default for PendingRequest {
    /// A fresh request: GET on `https://`, one blank row in each list, an
    /// empty bearer token and an empty JSON body. The id is freshly drawn.
    fn default() -> (r: Self)
        ensures
            is_default_request(r),
    {
        PendingRequest {
            id: new_id(),
            name: None,
            url: "https://".to_owned(),
            method: HttpMethod::Get,
            headers: blank_rows(),
            cookies: blank_rows(),
            queries: blank_rows(),
            authorization: FalconAuthorization::default(),
            body: FlBody::default(),
        }
    }
}

impl PendingRequest {
    /// Whether this request carries the given id.
    pub fn has_id(&self, id: &str) -> (r: bool)
        ensures
            r == (self.id@ == id@),
    {
        str_eq(self.id.as_str(), id)
    }

    /// Replaces the stored URL.
    pub fn set_url(&mut self, url: String)
        ensures
            *final(self) == (PendingRequest { url, ..*old(self) }),
    {
        self.url = url;
    }

    /// Appends a header row.
    pub fn add_header(&mut self, name: String, value: String)
        ensures
            final(self).headers@ == old(self).headers@.push((name, value)),
            *final(self) == (PendingRequest { headers: final(self).headers, ..*old(self) }),
    {
        self.headers.push((name, value));
    }

    /// Appends a cookie row.
    pub fn add_cookie(&mut self, name: String, value: String)
        ensures
            final(self).cookies@ == old(self).cookies@.push((name, value)),
            *final(self) == (PendingRequest { cookies: final(self).cookies, ..*old(self) }),
    {
        self.cookies.push((name, value));
    }

    /// Appends a query row.
    pub fn add_query(&mut self, name: String, value: String)
        ensures
            final(self).queries@ == old(self).queries@.push((name, value)),
            *final(self) == (PendingRequest { queries: final(self).queries, ..*old(self) }),
    {
        self.queries.push((name, value));
    }

    /// Edits the key at `index` of the selected row list, appending a blank
    /// row when the last row was edited.
    pub fn update_item_key(&mut self, item: PendingRequestItem, index: usize, name: String)
        ensures
            match item {
                PendingRequestItem::Header => kv_view(final(self).headers@) == rows_key_updated(
                    kv_view(old(self).headers@),
                    index as int,
                    name@,
                ) && *final(self) == (PendingRequest {
                    headers: final(self).headers,
                    ..*old(self)
                }),
                PendingRequestItem::Cookie => kv_view(final(self).cookies@) == rows_key_updated(
                    kv_view(old(self).cookies@),
                    index as int,
                    name@,
                ) && *final(self) == (PendingRequest {
                    cookies: final(self).cookies,
                    ..*old(self)
                }),
                PendingRequestItem::Query => kv_view(final(self).queries@) == rows_key_updated(
                    kv_view(old(self).queries@),
                    index as int,
                    name@,
                ) && *final(self) == (PendingRequest {
                    queries: final(self).queries,
                    ..*old(self)
                }),
            },
    {
        match item {
            PendingRequestItem::Header => self.update_header_key(index, name),
            PendingRequestItem::Cookie => self.update_cookie_key(index, name),
            PendingRequestItem::Query => self.update_query_key(index, name),
        }
    }

    /// Edits the value at `index` of the selected row list, appending a blank
    /// row when the last row was edited.
    pub fn update_item_value(&mut self, item: PendingRequestItem, index: usize, value: String)
        ensures
            match item {
                PendingRequestItem::Header => kv_view(final(self).headers@) == rows_value_updated(
                    kv_view(old(self).headers@),
                    index as int,
                    value@,
                ) && *final(self) == (PendingRequest {
                    headers: final(self).headers,
                    ..*old(self)
                }),
                PendingRequestItem::Cookie => kv_view(final(self).cookies@) == rows_value_updated(
                    kv_view(old(self).cookies@),
                    index as int,
                    value@,
                ) && *final(self) == (PendingRequest {
                    cookies: final(self).cookies,
                    ..*old(self)
                }),
                PendingRequestItem::Query => kv_view(final(self).queries@) == rows_value_updated(
                    kv_view(old(self).queries@),
                    index as int,
                    value@,
                ) && *final(self) == (PendingRequest {
                    queries: final(self).queries,
                    ..*old(self)
                }),
            },
    {
        match item {
            PendingRequestItem::Header => self.update_header_value(index, value),
            PendingRequestItem::Cookie => self.update_cookie_value(index, value),
            PendingRequestItem::Query => self.update_query_value(index, value),
        }
    }

    /// Removes the row at `index` of the selected row list.
    pub fn remove_item(&mut self, item: PendingRequestItem, index: usize)
        requires
            match item {
                PendingRequestItem::Header => index < old(self).headers@.len(),
                PendingRequestItem::Cookie => index < old(self).cookies@.len(),
                PendingRequestItem::Query => index < old(self).queries@.len(),
            },
        ensures
            match item {
                PendingRequestItem::Header => final(self).headers@ == old(
                    self,
                ).headers@.remove(index as int) && *final(self) == (PendingRequest {
                    headers: final(self).headers,
                    ..*old(self)
                }),
                PendingRequestItem::Cookie => final(self).cookies@ == old(
                    self,
                ).cookies@.remove(index as int) && *final(self) == (PendingRequest {
                    cookies: final(self).cookies,
                    ..*old(self)
                }),
                PendingRequestItem::Query => final(self).queries@ == old(
                    self,
                ).queries@.remove(index as int) && *final(self) == (PendingRequest {
                    queries: final(self).queries,
                    ..*old(self)
                }),
            },
    {
        match item {
            PendingRequestItem::Header => {
                self.headers.remove(index);
            },
            PendingRequestItem::Cookie => {
                self.cookies.remove(index);
            },
            PendingRequestItem::Query => {
                self.queries.remove(index);
            },
        }
    }

    /// Edits a header key, appending a blank row when the last row was
    /// edited.
    pub fn update_header_key(&mut self, index: usize, name: String)
        ensures
            kv_view(final(self).headers@) == rows_key_updated(
                kv_view(old(self).headers@),
                index as int,
                name@,
            ),
            *final(self) == (PendingRequest { headers: final(self).headers, ..*old(self) }),
    {
        update_row_key(&mut self.headers, index, name);
    }

    /// Edits a header value, appending a blank row when the last row was
    /// edited.
    pub fn update_header_value(&mut self, index: usize, value: String)
        ensures
            kv_view(final(self).headers@) == rows_value_updated(
                kv_view(old(self).headers@),
                index as int,
                value@,
            ),
            *final(self) == (PendingRequest { headers: final(self).headers, ..*old(self) }),
    {
        update_row_value(&mut self.headers, index, value);
    }

    /// Edits a cookie key, appending a blank row when the last row was
    /// edited.
    pub fn update_cookie_key(&mut self, index: usize, name: String)
        ensures
            kv_view(final(self).cookies@) == rows_key_updated(
                kv_view(old(self).cookies@),
                index as int,
                name@,
            ),
            *final(self) == (PendingRequest { cookies: final(self).cookies, ..*old(self) }),
    {
        update_row_key(&mut self.cookies, index, name);
    }

    /// Edits a cookie value, appending a blank row when the last row was
    /// edited.
    pub fn update_cookie_value(&mut self, index: usize, value: String)
        ensures
            kv_view(final(self).cookies@) == rows_value_updated(
                kv_view(old(self).cookies@),
                index as int,
                value@,
            ),
            *final(self) == (PendingRequest { cookies: final(self).cookies, ..*old(self) }),
    {
        update_row_value(&mut self.cookies, index, value);
    }

    /// Edits a query key, appending a blank row when the last row was edited.
    pub fn update_query_key(&mut self, index: usize, name: String)
        ensures
            kv_view(final(self).queries@) == rows_key_updated(
                kv_view(old(self).queries@),
                index as int,
                name@,
            ),
            *final(self) == (PendingRequest { queries: final(self).queries, ..*old(self) }),
    {
        update_row_key(&mut self.queries, index, name);
    }

    /// Edits a query value, appending a blank row when the last row was
    /// edited.
    pub fn update_query_value(&mut self, index: usize, value: String)
        ensures
            kv_view(final(self).queries@) == rows_value_updated(
                kv_view(old(self).queries@),
                index as int,
                value@,
            ),
            *final(self) == (PendingRequest { queries: final(self).queries, ..*old(self) }),
    {
        update_row_value(&mut self.queries, index, value);
    }

    /// Replaces the method.
    pub fn set_method(&mut self, method: HttpMethod)
        ensures
            *final(self) == (PendingRequest { method, ..*old(self) }),
    {
        self.method = method;
    }

    /// Replaces the authorization.
    pub fn set_auth(&mut self, auth: FalconAuthorization)
        ensures
            *final(self) == (PendingRequest { authorization: auth, ..*old(self) }),
    {
        self.authorization = auth;
    }

    /// Replaces the body.
    pub fn set_body(&mut self, body: FlBody)
        ensures
            *final(self) == (PendingRequest { body, ..*old(self) }),
    {
        self.body = body;
    }
}

} // verus!
