//! The request URL composer.
//!
//! A stored request URL may reference the owning project's base URL through
//! the sentinel `{{%PROJECT_BASE_URL%}}` (bare) or
//! `{{%PROJECT_BASE_URL[ARGS]%}}` (carrying arguments). `build` turns the
//! stored form into a displayable/sendable URL against a concrete base URL;
//! `extract` is the approximate inverse, folding a base-URL prefix back into
//! sentinel form.

use vstd::prelude::*;
use crate::subst::find_cb;
use crate::subst::find_cb_from;
use crate::subst::is_name_char;
use crate::subst::is_ws;
use crate::subst::name_char;
use crate::subst::ws_char;
use crate::text::chars_start_with;
use crate::text::chars_start_with_vec;
use crate::text::chars_string;
use crate::text::copy_range;
use crate::text::push_all;
use crate::text::push_range;
use crate::text::starts_with;
use crate::text::str_chars;

verus! {

/// The bare base-URL sentinel.
pub open spec fn sentinel_seq() -> Seq<char> {
    "{{%PROJECT_BASE_URL%}}"@
}

/// The opening of the bracketed base-URL sentinel.
pub open spec fn sentinel_open_seq() -> Seq<char> {
    "{{%PROJECT_BASE_URL["@
}

/// Whether `]%}}` stands at position `j` of `s`.
pub open spec fn cb4_at(s: Seq<char>, j: int) -> bool {
    0 <= j && j + 4 <= s.len() && s[j] == ']' && s[j + 1] == '%' && s[j + 2] == '}' && s[j + 3]
        == '}'
}

/// The first position at or after `from` where `]%}}` stands.
pub open spec fn find_cb4(s: Seq<char>, from: int) -> Option<int>
    decreases s.len() - from,
{
    if from + 4 > s.len() {
        None
    } else if cb4_at(s, from) {
        Some(from)
    } else {
        find_cb4(s, from + 1)
    }
}

proof fn lemma_find_cb4_some(s: Seq<char>, from: int, j: int)
    requires
        from <= j,
        cb4_at(s, j),
        forall|m: int| from <= m < j ==> !cb4_at(s, m),
    ensures
        find_cb4(s, from) == Some(j),
    decreases j - from,
{
    if from < j {
        lemma_find_cb4_some(s, from + 1, j);
    }
}

proof fn lemma_find_cb4_none(s: Seq<char>, from: int)
    requires
        forall|m: int| from <= m ==> !cb4_at(s, m),
    ensures
        find_cb4(s, from) is None,
    decreases s.len() - from,
{
    if from + 4 <= s.len() {
        lemma_find_cb4_none(s, from + 1);
    }
}

/// Whether `s` is exactly a variable reference `{{name}}`, `name` one or
/// more word characters.
pub open spec fn var_pattern(s: Seq<char>) -> bool {
    s.len() >= 5 && s[0] == '{' && s[1] == '{' && s[s.len() - 2] == '}' && s[s.len() - 1] == '}'
        && forall|i: int| 2 <= i < s.len() - 2 ==> is_name_char(#[trigger] s[i])
}

/// As `var_pattern`, but the inner name may also hold whitespace; this is
/// the laxer shape `extract` accepts.
pub open spec fn var_pattern_loose(s: Seq<char>) -> bool {
    s.len() >= 5 && s[0] == '{' && s[1] == '{' && s[s.len() - 2] == '}' && s[s.len() - 1] == '}'
        && forall|i: int| 2 <= i < s.len() - 2 ==> is_name_char(#[trigger] s[i]) || is_ws(s[i])
}

/// The inner name of a variable reference: `{{name}}` gives `name`.
pub open spec fn inner_of(s: Seq<char>) -> Seq<char> {
    s.subrange(2, s.len() - 2)
}

/// The arguments of a bracketed sentinel prefix of `url`, and how many
/// characters that prefix spans.
pub open spec fn bracket_args(url: Seq<char>) -> Option<(Seq<char>, int)> {
    if starts_with(url, sentinel_open_seq()) {
        match find_cb4(url, sentinel_open_seq().len() as int) {
            Some(j) => Some((url.subrange(sentinel_open_seq().len() as int, j), j + 4)),
            None => None,
        }
    } else {
        None
    }
}

/// The arguments of a `{{inner[ARGS]}}` prefix of `url`, and how many
/// characters that prefix spans.
pub open spec fn var_bracket_args(url: Seq<char>, inner: Seq<char>) -> Option<(Seq<char>, int)> {
    let pre = "{{"@ + inner + "["@;
    if starts_with(url, pre) {
        match find_cb(url, pre.len() as int) {
            Some(j) => Some((url.subrange(pre.len() as int, j), j + 3)),
            None => None,
        }
    } else {
        None
    }
}

/// What `build` returns: the stored `url` materialized against `base`.
pub open spec fn build_spec(url: Seq<char>, base: Seq<char>) -> Seq<char> {
    if starts_with(url, sentinel_seq()) {
        base + url.skip(sentinel_seq().len() as int)
    } else if base.len() == 0 {
        match bracket_args(url) {
            Some(pair) => url.skip(pair.1),
            None => url,
        }
    } else if var_pattern(base) {
        match bracket_args(url) {
            Some(pair) => "{{"@ + inner_of(base) + "["@ + pair.0 + "]}}"@ + url.skip(pair.1),
            None => url,
        }
    } else {
        url
    }
}

/// What `extract` returns: `url` with a base-URL prefix folded back into
/// sentinel form.
pub open spec fn extract_spec(url: Seq<char>, base: Seq<char>) -> Seq<char> {
    if base.len() == 0 {
        url
    } else if starts_with(url, base) {
        sentinel_seq() + url.skip(base.len() as int)
    } else if var_pattern_loose(base) {
        match var_bracket_args(url, inner_of(base)) {
            Some(pair) => sentinel_open_seq() + pair.0 + "]%}}"@ + url.skip(pair.1),
            None => url,
        }
    } else {
        url
    }
}

/// Composer round-trip, one direction: a URL stored in bare sentinel form,
/// built against a non-empty base URL, extracts back to the stored form.
pub proof fn lemma_build_extract_round_trip(url: Seq<char>, base: Seq<char>)
    requires
        base.len() > 0,
        starts_with(url, sentinel_seq()),
    ensures
        extract_spec(build_spec(url, base), base) == url,
{
    let rest = url.skip(sentinel_seq().len() as int);
    let built = base + rest;
    assert(built.take(base.len() as int) =~= base);
    assert(starts_with(built, base));
    assert(built.skip(base.len() as int) =~= rest);
    assert(sentinel_seq() + rest =~= url);
}

/// Composer round-trip, the other direction: a URL that literally starts
/// with a non-empty base URL, extracted into sentinel form and built back
/// against the same base URL, is unchanged.
pub proof fn lemma_extract_build_round_trip(url: Seq<char>, base: Seq<char>)
    requires
        base.len() > 0,
        starts_with(url, base),
    ensures
        build_spec(extract_spec(url, base), base) == url,
{
    let rest = url.skip(base.len() as int);
    let stored = sentinel_seq() + rest;
    assert(stored.take(sentinel_seq().len() as int) =~= sentinel_seq());
    assert(starts_with(stored, sentinel_seq()));
    assert(stored.skip(sentinel_seq().len() as int) =~= rest);
    assert(base + rest =~= url);
}

/// Composer round-trip for the bracketed sentinel: a URL stored as
/// `{{%PROJECT_BASE_URL[args]%}}rest`, built against a `{{VAR}}` base URL
/// and extracted against the same base URL, comes back unchanged — provided
/// the argument text does not itself contain a closing token (`]}}` or
/// `]%}}`), on which the two anchored rewrites would cut short.
pub proof fn lemma_bracket_round_trip(base: Seq<char>, args: Seq<char>, rest: Seq<char>)
    requires
        var_pattern(base),
        forall|m: int|
            0 <= m && m + 3 <= args.len() ==> !((#[trigger] args[m]) == ']' && args[m + 1] == '}'
                && args[m + 2] == '}'),
        forall|m: int|
            0 <= m && m + 4 <= args.len() ==> !((#[trigger] args[m]) == ']' && args[m + 1] == '%'
                && args[m + 2] == '}' && args[m + 3] == '}'),
    ensures
        extract_spec(build_spec(sentinel_open_seq() + args + "]%}}"@ + rest, base), base)
            == sentinel_open_seq() + args + "]%}}"@ + rest,
{
    reveal_strlit("{{%PROJECT_BASE_URL%}}");
    reveal_strlit("{{%PROJECT_BASE_URL[");
    reveal_strlit("]%}}");
    reveal_strlit("]}}");
    reveal_strlit("{{");
    reveal_strlit("[");
    reveal_strlit("}}");
    let inner = inner_of(base);
    let stored = sentinel_open_seq() + args + "]%}}"@ + rest;
    let cb4 = 20 + args.len() as int;
    assert(base =~= "{{"@ + inner + "}}"@);
    // `build` does not see the bare sentinel: its char 19 is `%`, not `[`.
    assert(stored[19] == '[');
    assert(!starts_with(stored, sentinel_seq())) by {
        if starts_with(stored, sentinel_seq()) {
            assert(stored.take(22)[19] == '%');
        }
    }
    // `build` recognizes the bracketed sentinel prefix.
    assert(stored.take(20) =~= sentinel_open_seq());
    assert(starts_with(stored, sentinel_open_seq()));
    assert(cb4_at(stored, cb4));
    assert forall|m: int| 20 <= m < cb4 implies !cb4_at(stored, m) by {
        if m + 4 <= cb4 {
            assert(stored[m] == args[m - 20] && stored[m + 1] == args[m - 20 + 1] && stored[m + 2]
                == args[m - 20 + 2] && stored[m + 3] == args[m - 20 + 3]);
        } else if m == cb4 - 1 {
            assert(stored[m + 1] == ']');
        } else if m == cb4 - 2 {
            assert(stored[m + 2] == ']');
        } else {
            assert(stored[m + 3] == ']');
        }
    }
    lemma_find_cb4_some(stored, 20, cb4);
    assert(stored.subrange(20, cb4) =~= args);
    let built = "{{"@ + inner + "["@ + args + "]}}"@ + stored.skip(cb4 + 4);
    assert(stored.skip(cb4 + 4) =~= rest);
    assert(build_spec(stored, base) =~= built);
    // `extract` does not see a literal base-URL prefix: where the base has
    // its closing `}`, the built URL has `[`.
    let d = 2 + inner.len() as int;
    assert(base[d] == '}');
    assert(built[d] == '[');
    assert(!starts_with(built, base)) by {
        if starts_with(built, base) {
            assert(built.take(base.len() as int)[d] == base[d]);
        }
    }
    assert(var_pattern_loose(base));
    // `extract` recognizes the `{{VAR[args]}}` prefix.
    let pre = "{{"@ + inner + "["@;
    let cb3 = pre.len() as int + args.len() as int;
    assert(built.take(pre.len() as int) =~= pre);
    assert(starts_with(built, pre));
    assert(crate::subst::cb_at(built, cb3));
    assert forall|m: int| pre.len() <= m < cb3 implies !crate::subst::cb_at(built, m) by {
        if m + 3 <= cb3 {
            assert(built[m] == args[m - pre.len()] && built[m + 1] == args[m - pre.len() + 1]
                && built[m + 2] == args[m - pre.len() + 2]);
        } else if m == cb3 - 1 {
            assert(built[m + 1] == ']');
        } else {
            assert(built[m + 2] == ']');
        }
    }
    crate::subst::lemma_find_cb_some(built, pre.len() as int, cb3);
    assert(built.subrange(pre.len() as int, cb3) =~= args);
    assert(built.skip(cb3 + 3) =~= rest);
    assert(extract_spec(built, base) =~= stored);
}

/// A stored request URL, possibly in sentinel form.
#[derive(Clone, Debug)]
pub struct RequestUrl(pub String);

impl Default for RequestUrl {
    /// An empty URL.
    fn default() -> (r: Self)
        ensures
            r.0@ =~= Seq::<char>::empty(),
    {
        RequestUrl(String::new())
    }
}

impl From<String> for RequestUrl {
    /// Wraps a stored URL string.
    fn from(value: String) -> (r: Self)
        ensures
            r.0@ == value@,
    {
        RequestUrl(value)
    }
}

impl vstd::std_specs::convert::FromSpecImpl<String> for RequestUrl {
    open spec fn obeys_from_spec() -> bool {
        true
    }

    open spec fn from_spec(t: String) -> Self {
        RequestUrl(t)
    }
}

fn find_cb4_from(v: &Vec<char>, from: usize) -> (r: Option<usize>)
    ensures
        match r {
            Some(j) => find_cb4(v@, from as int) == Some(j as int) && from <= j && j + 4
                <= v@.len(),
            None => find_cb4(v@, from as int) is None,
        },
{
    let n: usize = v.len();
    let mut j: usize = from;
    while j < n && n - j >= 4
        invariant
            from <= j,
            n == v@.len(),
            forall|m: int| from <= m < j ==> !cb4_at(v@, m),
        decreases n - j,
    {
        if v[j] == ']' && v[j + 1] == '%' && v[j + 2] == '}' && v[j + 3] == '}' {
            proof {
                lemma_find_cb4_some(v@, from as int, j as int);
            }
            return Some(j);
        }
        assert(!cb4_at(v@, j as int));
        j = j + 1;
    }
    proof {
        assert forall|m: int| from <= m implies !cb4_at(v@, m) by {
            if m < j {
            } else {
                assert(m + 4 > v@.len());
            }
        }
        lemma_find_cb4_none(v@, from as int);
    }
    None
}

fn bracket_args_exec(url: &Vec<char>) -> (r: Option<(Vec<char>, usize)>)
    ensures
        match r {
            Some(pair) => bracket_args(url@) == Some((pair.0@, pair.1 as int)) && pair.1
                <= url@.len(),
            None => bracket_args(url@) is None,
        },
{
    proof {
        reveal_strlit("{{%PROJECT_BASE_URL[");
    }
    if !chars_start_with(url, "{{%PROJECT_BASE_URL[") {
        return None;
    }
    match find_cb4_from(url, 20) {
        Some(j) => {
            let n: usize = url.len();
            assert(j + 4 <= n);
            Some((copy_range(url, 20, j), j + 4))
        },
        None => None,
    }
}

fn is_var_pattern(base: &Vec<char>) -> (r: bool)
    ensures
        r == var_pattern(base@),
{
    let n: usize = base.len();
    if n < 5 {
        return false;
    }
    if base[0] != '{' || base[1] != '{' || base[n - 2] != '}' || base[n - 1] != '}' {
        return false;
    }
    let mut i: usize = 2;
    while i < n - 2
        invariant
            2 <= i <= n - 2,
            n == base@.len(),
            n >= 5,
            forall|j: int| 2 <= j < i ==> is_name_char(#[trigger] base@[j]),
        decreases n - i,
    {
        if !name_char(base[i]) {
            return false;
        }
        i = i + 1;
    }
    true
}

fn is_var_pattern_loose(base: &Vec<char>) -> (r: bool)
    ensures
        r == var_pattern_loose(base@),
{
    let n: usize = base.len();
    if n < 5 {
        return false;
    }
    if base[0] != '{' || base[1] != '{' || base[n - 2] != '}' || base[n - 1] != '}' {
        return false;
    }
    let mut i: usize = 2;
    while i < n - 2
        invariant
            2 <= i <= n - 2,
            n == base@.len(),
            n >= 5,
            forall|j: int| 2 <= j < i ==> is_name_char(#[trigger] base@[j]) || is_ws(base@[j]),
        decreases n - i,
    {
        if !name_char(base[i]) && !ws_char(base[i]) {
            return false;
        }
        i = i + 1;
    }
    true
}

impl RequestUrl {
    /// The stored text of the URL.
    pub fn text(&self) -> (r: &String)
        ensures
            r@ == self.0@,
    {
        &self.0
    }

    /// Materializes the stored URL against `base_url`: a bare sentinel
    /// prefix becomes `base_url`; with an empty `base_url` a bracketed
    /// sentinel prefix is dropped; when `base_url` is itself a `{{VAR}}`
    /// reference, a bracketed sentinel prefix becomes `{{VAR[ARGS]}}`;
    /// otherwise the URL is returned unchanged.
    pub fn build(self, base_url: &str) -> (r: String)
        ensures
            r@ == build_spec(self.0@, base_url@),
    {
        let url: Vec<char> = str_chars(self.0.as_str());
        proof {
            reveal_strlit("{{%PROJECT_BASE_URL%}}");
        }
        if chars_start_with(&url, "{{%PROJECT_BASE_URL%}}") {
            let mut out: Vec<char> = str_chars(base_url);
            push_range(&mut out, &url, 22, url.len());
            proof {
                assert(url@.subrange(22, url@.len() as int) =~= url@.skip(22));
            }
            return chars_string(&out);
        }
        let base: Vec<char> = str_chars(base_url);
        if base.len() == 0 {
            match bracket_args_exec(&url) {
                Some(pair) => {
                    let rest: Vec<char> = copy_range(&url, pair.1, url.len());
                    proof {
                        assert(url@.subrange(pair.1 as int, url@.len() as int) =~= url@.skip(
                            pair.1 as int,
                        ));
                    }
                    return chars_string(&rest);
                },
                None => {
                    return self.0;
                },
            }
        }
        if is_var_pattern(&base) {
            match bracket_args_exec(&url) {
                Some(pair) => {
                    let mut out: Vec<char> = Vec::new();
                    out.push('{');
                    out.push('{');
                    push_range(&mut out, &base, 2, base.len() - 2);
                    out.push('[');
                    push_all(&mut out, &pair.0);
                    out.push(']');
                    out.push('}');
                    out.push('}');
                    push_range(&mut out, &url, pair.1, url.len());
                    proof {
                        reveal_strlit("{{");
                        reveal_strlit("[");
                        reveal_strlit("]}}");
                        assert(url@.subrange(pair.1 as int, url@.len() as int) =~= url@.skip(
                            pair.1 as int,
                        ));
                        assert(out@ =~= "{{"@ + inner_of(base@) + "["@ + pair.0@ + "]}}"@
                            + url@.skip(pair.1 as int));
                    }
                    return chars_string(&out);
                },
                None => {
                    return self.0;
                },
            }
        }
        self.0
    }

    /// Folds a base-URL prefix of the stored URL back into sentinel form:
    /// a literal `base_url` prefix becomes the bare sentinel; when
    /// `base_url` is a `{{VAR}}` reference, a `{{VAR[ARGS]}}` prefix becomes
    /// the bracketed sentinel; otherwise the URL is returned unchanged.
    pub fn extract(self, base_url: &str) -> (r: String)
        ensures
            r@ == extract_spec(self.0@, base_url@),
    {
        let url: Vec<char> = str_chars(self.0.as_str());
        let base: Vec<char> = str_chars(base_url);
        if base.len() == 0 {
            return self.0;
        }
        if chars_start_with_vec(&url, &base) {
            let mut out: Vec<char> = str_chars("{{%PROJECT_BASE_URL%}}");
            push_range(&mut out, &url, base.len(), url.len());
            proof {
                assert(url@.subrange(base@.len() as int, url@.len() as int) =~= url@.skip(
                    base@.len() as int,
                ));
            }
            return chars_string(&out);
        }
        if is_var_pattern_loose(&base) {
            let mut pre: Vec<char> = Vec::new();
            pre.push('{');
            pre.push('{');
            push_range(&mut pre, &base, 2, base.len() - 2);
            pre.push('[');
            proof {
                reveal_strlit("{{");
                reveal_strlit("[");
                assert(pre@ =~= "{{"@ + inner_of(base@) + "["@);
            }
            if chars_start_with_vec(&url, &pre) {
                match find_cb_from(&url, pre.len()) {
                    Some(j) => {
                        let n: usize = url.len();
                        assert(j + 3 <= n);
                        let mut out: Vec<char> = str_chars("{{%PROJECT_BASE_URL[");
                        push_range(&mut out, &url, pre.len(), j);
                        out.push(']');
                        out.push('%');
                        out.push('}');
                        out.push('}');
                        push_range(&mut out, &url, j + 3, url.len());
                        proof {
                            reveal_strlit("{{%PROJECT_BASE_URL[");
                            reveal_strlit("]%}}");
                            assert(url@.subrange(j + 3 as int, url@.len() as int) =~= url@.skip(
                                j + 3 as int,
                            ));
                            assert(out@ =~= sentinel_open_seq() + url@.subrange(
                                pre@.len() as int,
                                j as int,
                            ) + "]%}}"@ + url@.skip(j + 3 as int));
                        }
                        return chars_string(&out);
                    },
                    None => {
                        return self.0;
                    },
                }
            }
            return self.0;
        }
        self.0
    }
}

} // verus!
