//! The HTTP verb of a pending request.

use vstd::prelude::*;
use crate::text::str_chars;

verus! {

/// The verbs the workbench offers. Anything unrecognized falls back to GET.
#[derive(Clone, Copy, Debug, PartialEq, Eq, Structural)]
pub enum HttpMethod {
    Get,
    Post,
    Put,
    Patch,
    Delete,
}

/// Whether `s` matches a name given in its uppercase and lowercase forms,
/// choosing independently at each position.
pub open spec fn matches_ci(s: Seq<char>, up: Seq<char>, low: Seq<char>) -> bool {
    s.len() == up.len() && forall|i: int|
        0 <= i < s.len() ==> s[i] == (#[trigger] up[i]) || s[i] == low[i]
}

/// The method a name denotes, compared case-insensitively; unknown names
/// denote GET.
pub open spec fn method_of(s: Seq<char>) -> HttpMethod {
    if matches_ci(s, "GET"@, "get"@) {
        HttpMethod::Get
    } else if matches_ci(s, "POST"@, "post"@) {
        HttpMethod::Post
    } else if matches_ci(s, "PUT"@, "put"@) {
        HttpMethod::Put
    } else if matches_ci(s, "PATCH"@, "patch"@) {
        HttpMethod::Patch
    } else if matches_ci(s, "DELETE"@, "delete"@) {
        HttpMethod::Delete
    } else {
        HttpMethod::Get
    }
}

impl Default for HttpMethod {
    /// A fresh request uses GET.
    fn default() -> (r: Self)
        ensures
            r == HttpMethod::Get,
    {
        HttpMethod::Get
    }
}

fn chars_match_ci(v: &Vec<char>, up: &str, low: &str) -> (r: bool)
    requires
        up@.len() == low@.len(),
    ensures
        r == matches_ci(v@, up@, low@),
{
    let uc: Vec<char> = str_chars(up);
    let lc: Vec<char> = str_chars(low);
    if v.len() != uc.len() {
        return false;
    }
    let mut i: usize = 0;
    while i < v.len()
        invariant
            uc@ == up@,
            lc@ == low@,
            uc@.len() == lc@.len(),
            v@.len() == uc@.len(),
            i <= v@.len(),
            forall|j: int| 0 <= j < i ==> v@[j] == (#[trigger] uc@[j]) || v@[j] == lc@[j],
        decreases v@.len() - i,
    {
        let c: char = v[i];
        if c != uc[i] && c != lc[i] {
            return false;
        }
        i = i + 1;
    }
    true
}

impl HttpMethod {
    /// The wire name of the method.
    pub open spec fn name_seq(self) -> Seq<char> {
        match self {
            HttpMethod::Get => "GET"@,
            HttpMethod::Post => "POST"@,
            HttpMethod::Put => "PUT"@,
            HttpMethod::Patch => "PATCH"@,
            HttpMethod::Delete => "DELETE"@,
        }
    }

    /// The display name of the method: first letter upper, rest lower.
    pub open spec fn label_seq(self) -> Seq<char> {
        match self {
            HttpMethod::Get => "Get"@,
            HttpMethod::Post => "Post"@,
            HttpMethod::Put => "Put"@,
            HttpMethod::Patch => "Patch"@,
            HttpMethod::Delete => "Delete"@,
        }
    }

    /// The wire name, e.g. `GET`.
    pub fn as_str(&self) -> (r: &'static str)
        ensures
            r@ == self.name_seq(),
    {
        match self {
            HttpMethod::Get => "GET",
            HttpMethod::Post => "POST",
            HttpMethod::Put => "PUT",
            HttpMethod::Patch => "PATCH",
            HttpMethod::Delete => "DELETE",
        }
    }

    /// The display name, e.g. `Get`.
    pub fn label(&self) -> (r: &'static str)
        ensures
            r@ == self.label_seq(),
    {
        match self {
            HttpMethod::Get => "Get",
            HttpMethod::Post => "Post",
            HttpMethod::Put => "Put",
            HttpMethod::Patch => "Patch",
            HttpMethod::Delete => "Delete",
        }
    }

    /// Parses a method name, case-insensitively; unknown names give GET.
    pub fn from_name(value: &str) -> (r: HttpMethod)
        ensures
            r == method_of(value@),
    {
        proof {
            reveal_strlit("GET");
            reveal_strlit("get");
            reveal_strlit("POST");
            reveal_strlit("post");
            reveal_strlit("PUT");
            reveal_strlit("put");
            reveal_strlit("PATCH");
            reveal_strlit("patch");
            reveal_strlit("DELETE");
            reveal_strlit("delete");
        }
        let v: Vec<char> = str_chars(value);
        if chars_match_ci(&v, "GET", "get") {
            HttpMethod::Get
        } else if chars_match_ci(&v, "POST", "post") {
            HttpMethod::Post
        } else if chars_match_ci(&v, "PUT", "put") {
            HttpMethod::Put
        } else if chars_match_ci(&v, "PATCH", "patch") {
            HttpMethod::Patch
        } else if chars_match_ci(&v, "DELETE", "delete") {
            HttpMethod::Delete
        } else {
            HttpMethod::Get
        }
    }
}

} // verus!
