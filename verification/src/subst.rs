//! The variable-substitution engine.
//!
//! A placeholder is `{{KEY}}` or `{{KEY[ARGS]}}`, where `KEY` is one or more
//! of `A`-`Z`, `0`-`9`, `_`. The key is looked up among an environment's
//! items (the last item with the key wins); an unknown key leaves the
//! placeholder untouched. `ARGS` is a comma-separated argument list; each
//! argument is trimmed of surrounding whitespace and double quotes. The
//! item's value is a template in which `$0`, `$1`, … are replaced by the
//! argument at that position and `$name` by the value of the argument
//! written `name: value`; a `$` token that resolves to nothing stays as it
//! is. With no (or empty) `ARGS` the value is used verbatim.

use vstd::prelude::*;
use crate::rows::kv_view;
use crate::text::chars_eq;
use crate::text::chars_string;
use crate::text::copy_range;
use crate::text::push_all;
use crate::text::push_range;
use crate::text::str_chars;

verus! {

// ---------------------------------------------------------------------
// Character classes
// ---------------------------------------------------------------------
/// A white-space character (the Unicode `White_Space` set), as trimmed
/// from argument tokens and counted by blank tests.
pub open spec fn is_ws(c: char) -> bool {
    ('\u{09}' <= c && c <= '\u{0D}') || c == ' ' || c == '\u{85}' || c == '\u{A0}' || c
        == '\u{1680}' || ('\u{2000}' <= c && c <= '\u{200A}') || c == '\u{2028}' || c
        == '\u{2029}' || c == '\u{202F}' || c == '\u{205F}' || c == '\u{3000}'
}

/// The double quote trimmed from argument tokens.
pub open spec fn is_quote(c: char) -> bool {
    c == '"'
}

/// A character allowed in a placeholder key.
pub open spec fn is_key_char(c: char) -> bool {
    ('A' <= c && c <= 'Z') || ('0' <= c && c <= '9') || c == '_'
}

/// A character allowed in a `$name` token of a value template.
pub open spec fn is_name_char(c: char) -> bool {
    ('a' <= c && c <= 'z') || ('A' <= c && c <= 'Z') || ('0' <= c && c <= '9') || c == '_'
}

/// A decimal digit.
pub open spec fn is_digit(c: char) -> bool {
    '0' <= c && c <= '9'
}

// ---------------------------------------------------------------------
// Leading runs
// ---------------------------------------------------------------------
/// Length of the maximal run of key characters at the front of `s`.
pub open spec fn key_run(s: Seq<char>) -> nat
    decreases s.len(),
{
    if s.len() == 0 || !is_key_char(s[0]) {
        0
    } else {
        1 + key_run(s.drop_first())
    }
}

/// Length of the maximal run of name characters at the front of `s`.
pub open spec fn name_run(s: Seq<char>) -> nat
    decreases s.len(),
{
    if s.len() == 0 || !is_name_char(s[0]) {
        0
    } else {
        1 + name_run(s.drop_first())
    }
}

/// Length of the maximal colon-free run at the front of `s`.
pub open spec fn colon_run(s: Seq<char>) -> nat
    decreases s.len(),
{
    if s.len() == 0 || s[0] == ':' {
        0
    } else {
        1 + colon_run(s.drop_first())
    }
}

proof fn lemma_key_run_is(s: Seq<char>, k: int)
    requires
        0 <= k <= s.len(),
        forall|j: int| 0 <= j < k ==> is_key_char(s[j]),
        k == s.len() || !is_key_char(s[k]),
    ensures
        key_run(s) == k,
    decreases s.len(),
{
    if k == 0 {
    } else {
        assert(is_key_char(s[0]));
        lemma_key_run_is(s.drop_first(), k - 1);
    }
}

proof fn lemma_name_run_is(s: Seq<char>, k: int)
    requires
        0 <= k <= s.len(),
        forall|j: int| 0 <= j < k ==> is_name_char(s[j]),
        k == s.len() || !is_name_char(s[k]),
    ensures
        name_run(s) == k,
    decreases s.len(),
{
    if k == 0 {
    } else {
        assert(is_name_char(s[0]));
        lemma_name_run_is(s.drop_first(), k - 1);
    }
}

proof fn lemma_colon_run_is(s: Seq<char>, k: int)
    requires
        0 <= k <= s.len(),
        forall|j: int| 0 <= j < k ==> s[j] != ':',
        k == s.len() || s[k] == ':',
    ensures
        colon_run(s) == k,
    decreases s.len(),
{
    if k == 0 {
    } else {
        lemma_colon_run_is(s.drop_first(), k - 1);
    }
}

proof fn lemma_key_run_le(s: Seq<char>)
    ensures
        key_run(s) <= s.len(),
    decreases s.len(),
{
    if s.len() > 0 && is_key_char(s[0]) {
        lemma_key_run_le(s.drop_first());
    }
}

proof fn lemma_name_run_le(s: Seq<char>)
    ensures
        name_run(s) <= s.len(),
    decreases s.len(),
{
    if s.len() > 0 && is_name_char(s[0]) {
        lemma_name_run_le(s.drop_first());
    }
}

// ---------------------------------------------------------------------
// The closing `]}}` of a bracketed placeholder
// ---------------------------------------------------------------------
/// Whether `]}}` stands at position `j` of `s`.
pub open spec fn cb_at(s: Seq<char>, j: int) -> bool {
    0 <= j && j + 3 <= s.len() && s[j] == ']' && s[j + 1] == '}' && s[j + 2] == '}'
}

/// The first position at or after `from` where `]}}` stands.
pub open spec fn find_cb(s: Seq<char>, from: int) -> Option<int>
    decreases s.len() - from,
{
    if from + 3 > s.len() {
        None
    } else if cb_at(s, from) {
        Some(from)
    } else {
        find_cb(s, from + 1)
    }
}

pub(crate) proof fn lemma_find_cb_some(s: Seq<char>, from: int, j: int)
    requires
        from <= j,
        cb_at(s, j),
        forall|m: int| from <= m < j ==> !cb_at(s, m),
    ensures
        find_cb(s, from) == Some(j),
    decreases j - from,
{
    if from < j {
        lemma_find_cb_some(s, from + 1, j);
    }
}

pub(crate) proof fn lemma_find_cb_none(s: Seq<char>, from: int)
    requires
        forall|m: int| from <= m ==> !cb_at(s, m),
    ensures
        find_cb(s, from) is None,
    decreases s.len() - from,
{
    if from + 3 <= s.len() {
        lemma_find_cb_none(s, from + 1);
    }
}

proof fn lemma_find_cb_props(s: Seq<char>, from: int)
    ensures
        match find_cb(s, from) {
            Some(j) => cb_at(s, j) && j >= from,
            None => true,
        },
    decreases s.len() - from,
{
    if from + 3 > s.len() {
    } else if cb_at(s, from) {
    } else {
        lemma_find_cb_props(s, from + 1);
    }
}

// ---------------------------------------------------------------------
// Placeholder recognition
// ---------------------------------------------------------------------
/// The placeholder at the front of `s`, if any: its key, its bracketed
/// argument text (when the bracketed form is used), and how many characters
/// it spans.
pub open spec fn ph_at(s: Seq<char>) -> Option<(Seq<char>, Option<Seq<char>>, int)> {
    if s.len() >= 2 && s[0] == '{' && s[1] == '{' {
        let k = key_run(s.skip(2)) as int;
        if k == 0 {
            None
        } else {
            let p = 2 + k;
            if p + 2 <= s.len() && s[p] == '}' && s[p + 1] == '}' {
                Some((s.subrange(2, p), None, p + 2))
            } else if p < s.len() && s[p] == '[' {
                match find_cb(s, p + 1) {
                    Some(j) => Some((s.subrange(2, p), Some(s.subrange(p + 1, j)), j + 3)),
                    None => None,
                }
            } else {
                None
            }
        }
    } else {
        None
    }
}

proof fn lemma_ph_at_bounds(s: Seq<char>)
    ensures
        match ph_at(s) {
            Some(ph) => 1 <= ph.2 <= s.len(),
            None => true,
        },
{
    if s.len() >= 2 && s[0] == '{' && s[1] == '{' {
        lemma_key_run_le(s.skip(2));
        let k = key_run(s.skip(2)) as int;
        if k > 0 {
            let p = 2 + k;
            if p + 2 <= s.len() && s[p] == '}' && s[p + 1] == '}' {
            } else if p < s.len() && s[p] == '[' {
                lemma_find_cb_props(s, p + 1);
            }
        }
    }
}

// ---------------------------------------------------------------------
// Variable lookup: the last item with the key wins
// ---------------------------------------------------------------------
/// The value of `key` among `envs`, when present; on duplicate keys the
/// last item wins.
pub open spec fn lookup(envs: Seq<(Seq<char>, Seq<char>)>, key: Seq<char>) -> Option<Seq<char>>
    decreases envs.len(),
{
    if envs.len() == 0 {
        None
    } else if envs.last().0 == key {
        Some(envs.last().1)
    } else {
        lookup(envs.drop_last(), key)
    }
}

// ---------------------------------------------------------------------
// Argument tokens
// ---------------------------------------------------------------------
/// What is left of `s` after dropping leading characters satisfying `p`.
pub open spec fn lead_trim(s: Seq<char>, p: spec_fn(char) -> bool) -> Seq<char>
    decreases s.len(),
{
    if s.len() > 0 && p(s[0]) {
        lead_trim(s.drop_first(), p)
    } else {
        s
    }
}

/// What is left of `s` after dropping trailing characters satisfying `p`.
pub open spec fn tail_trim(s: Seq<char>, p: spec_fn(char) -> bool) -> Seq<char>
    decreases s.len(),
{
    if s.len() > 0 && p(s.last()) {
        tail_trim(s.drop_last(), p)
    } else {
        s
    }
}

/// `s` without leading and trailing whitespace.
pub open spec fn trim_ws(s: Seq<char>) -> Seq<char> {
    tail_trim(lead_trim(s, |c: char| is_ws(c)), |c: char| is_ws(c))
}

/// `s` without leading and trailing double quotes.
pub open spec fn trim_quotes(s: Seq<char>) -> Seq<char> {
    tail_trim(lead_trim(s, |c: char| is_quote(c)), |c: char| is_quote(c))
}

proof fn lemma_lead_trim(s: Seq<char>, p: spec_fn(char) -> bool, k: int)
    requires
        0 <= k <= s.len(),
        forall|j: int| 0 <= j < k ==> p(s[j]),
        k == s.len() || !p(s[k]),
    ensures
        lead_trim(s, p) == s.skip(k),
    decreases s.len(),
{
    if k == 0 {
        assert(s.skip(0) =~= s);
    } else {
        assert(p(s[0]));
        lemma_lead_trim(s.drop_first(), p, k - 1);
        assert(s.drop_first().skip(k - 1) =~= s.skip(k));
    }
}

proof fn lemma_tail_trim(s: Seq<char>, p: spec_fn(char) -> bool, k: int)
    requires
        0 <= k <= s.len(),
        forall|j: int| k <= j < s.len() ==> p(s[j]),
        k == 0 || !p(s[k - 1]),
    ensures
        tail_trim(s, p) == s.take(k),
    decreases s.len(),
{
    if k == s.len() {
        if s.len() > 0 && p(s.last()) {
            assert(false);
        } else {
            assert(s.take(k) =~= s);
        }
    } else {
        assert(p(s.last()));
        lemma_tail_trim(s.drop_last(), p, k);
        assert(s.drop_last().take(k) =~= s.take(k));
    }
}

/// The raw comma-separated pieces of an argument text. An empty text is one
/// empty piece.
pub open spec fn split_args(s: Seq<char>) -> Seq<Seq<char>>
    decreases s.len(),
{
    if s.len() == 0 {
        seq![Seq::<char>::empty()]
    } else if s[0] == ',' {
        seq![Seq::<char>::empty()] + split_args(s.drop_first())
    } else {
        let rest = split_args(s.drop_first());
        seq![seq![s[0]] + rest[0]] + rest.drop_first()
    }
}

proof fn lemma_split_args_len(s: Seq<char>)
    ensures
        split_args(s).len() >= 1,
    decreases s.len(),
{
    if s.len() > 0 {
        lemma_split_args_len(s.drop_first());
    }
}

/// An argument token: its raw piece trimmed of whitespace, then of quotes.
pub open spec fn token_of(raw: Seq<char>) -> Seq<char> {
    trim_quotes(trim_ws(raw))
}

/// The argument tokens of an argument text.
pub open spec fn toks_of(args: Seq<char>) -> Seq<Seq<char>> {
    split_args(args).map_values(|raw: Seq<char>| token_of(raw))
}

/// The name of a token: what stands before its first colon (trimmed), or
/// the whole token if it has none.
pub open spec fn tok_name(t: Seq<char>) -> Seq<char> {
    let p = colon_run(t) as int;
    if p < t.len() {
        trim_ws(t.take(p))
    } else {
        t
    }
}

/// The value of a token: what stands after its first colon (trimmed), or
/// the whole token if it has none.
pub open spec fn tok_val(t: Seq<char>) -> Seq<char> {
    let p = colon_run(t) as int;
    if p < t.len() {
        trim_ws(t.skip(p + 1))
    } else {
        t
    }
}

/// The value of the first token whose name is `name`.
pub open spec fn named_val(toks: Seq<Seq<char>>, name: Seq<char>) -> Option<Seq<char>>
    decreases toks.len(),
{
    if toks.len() == 0 {
        None
    } else if tok_name(toks.first()) == name {
        Some(tok_val(toks.first()))
    } else {
        named_val(toks.drop_first(), name)
    }
}

/// Whether `s` is one or more decimal digits.
pub open spec fn all_digits(s: Seq<char>) -> bool {
    s.len() > 0 && forall|i: int| 0 <= i < s.len() ==> is_digit(s[i])
}

/// The numeric value of a digit character.
pub open spec fn digit_val(c: char) -> nat {
    if c == '0' {
        0
    } else if c == '1' {
        1
    } else if c == '2' {
        2
    } else if c == '3' {
        3
    } else if c == '4' {
        4
    } else if c == '5' {
        5
    } else if c == '6' {
        6
    } else if c == '7' {
        7
    } else if c == '8' {
        8
    } else {
        9
    }
}

/// The numeric value of a digit string.
pub open spec fn dec_val(s: Seq<char>) -> nat
    decreases s.len(),
{
    if s.len() == 0 {
        0
    } else {
        dec_val(s.drop_last()) * 10 + digit_val(s.last())
    }
}

/// What a `$name` token resolves to: for an all-digit name, the token at
/// that position; otherwise the value of the first token with that name.
pub open spec fn dollar_val(toks: Seq<Seq<char>>, name: Seq<char>) -> Option<Seq<char>> {
    if all_digits(name) {
        if dec_val(name) < toks.len() {
            Some(toks[dec_val(name) as int])
        } else {
            None
        }
    } else {
        named_val(toks, name)
    }
}

// ---------------------------------------------------------------------
// Template resolution
// ---------------------------------------------------------------------
/// The value template `tpl` with every `$`-token that resolves replaced by
/// its argument; unresolved tokens stay.
pub open spec fn resolved(tpl: Seq<char>, toks: Seq<Seq<char>>) -> Seq<char>
    decreases tpl.len(),
    via resolved_dec
{
    if tpl.len() == 0 {
        Seq::<char>::empty()
    } else if tpl[0] == '$' && name_run(tpl.skip(1)) > 0 {
        let n = name_run(tpl.skip(1)) as int;
        let name = tpl.subrange(1, 1 + n);
        match dollar_val(toks, name) {
            Some(v) => v + resolved(tpl.skip(1 + n), toks),
            None => tpl.take(1 + n) + resolved(tpl.skip(1 + n), toks),
        }
    } else {
        seq![tpl[0]] + resolved(tpl.drop_first(), toks)
    }
}

#[via_fn]
proof fn resolved_dec(tpl: Seq<char>, toks: Seq<Seq<char>>) {
    if tpl.len() > 0 && tpl[0] == '$' && name_run(tpl.skip(1)) > 0 {
        lemma_name_run_le(tpl.skip(1));
    }
}

// ---------------------------------------------------------------------
// The whole substitution
// ---------------------------------------------------------------------
/// `input` with every recognized placeholder whose key is known replaced by
/// its resolved value, scanning once from the left; inserted values are not
/// rescanned.
pub open spec fn substituted(input: Seq<char>, envs: Seq<(Seq<char>, Seq<char>)>) -> Seq<char>
    decreases input.len(),
    via substituted_dec
{
    if input.len() == 0 {
        Seq::<char>::empty()
    } else {
        match ph_at(input) {
            Some(ph) => {
                match lookup(envs, ph.0) {
                    Some(tpl) => {
                        let rep = match ph.1 {
                            Some(a) => if a.len() > 0 {
                                resolved(tpl, toks_of(a))
                            } else {
                                tpl
                            },
                            None => tpl,
                        };
                        rep + substituted(input.skip(ph.2), envs)
                    },
                    None => input.take(ph.2) + substituted(input.skip(ph.2), envs),
                }
            },
            None => seq![input[0]] + substituted(input.drop_first(), envs),
        }
    }
}

#[via_fn]
proof fn substituted_dec(input: Seq<char>, envs: Seq<(Seq<char>, Seq<char>)>) {
    if input.len() > 0 {
        lemma_ph_at_bounds(input);
    }
}

/// Whether `input` holds at least one placeholder whose key the environment
/// knows.
pub open spec fn has_known_placeholder(
    input: Seq<char>,
    envs: Seq<(Seq<char>, Seq<char>)>,
) -> bool
    decreases input.len(),
    via has_known_placeholder_dec
{
    if input.len() == 0 {
        false
    } else {
        match ph_at(input) {
            Some(ph) => lookup(envs, ph.0) is Some || has_known_placeholder(
                input.skip(ph.2),
                envs,
            ),
            None => has_known_placeholder(input.drop_first(), envs),
        }
    }
}

#[via_fn]
proof fn has_known_placeholder_dec(input: Seq<char>, envs: Seq<(Seq<char>, Seq<char>)>) {
    if input.len() > 0 {
        lemma_ph_at_bounds(input);
    }
}

/// Unknown keys pass through: an input without any placeholder the
/// environment knows comes back unchanged.
pub proof fn lemma_unknown_keys_passthrough(input: Seq<char>, envs: Seq<(Seq<char>, Seq<char>)>)
    requires
        !has_known_placeholder(input, envs),
    ensures
        substituted(input, envs) == input,
    decreases input.len(),
{
    if input.len() == 0 {
        assert(substituted(input, envs) =~= input);
    } else {
        lemma_ph_at_bounds(input);
        match ph_at(input) {
            Some(ph) => {
                lemma_unknown_keys_passthrough(input.skip(ph.2), envs);
                assert(input.take(ph.2) + input.skip(ph.2) =~= input);
            },
            None => {
                lemma_unknown_keys_passthrough(input.drop_first(), envs);
                assert(seq![input[0]] + input.drop_first() =~= input);
            },
        }
    }
}

// ---------------------------------------------------------------------
// Executable scanner
// ---------------------------------------------------------------------
pub(crate) fn ws_char(c: char) -> (r: bool)
    ensures
        r == is_ws(c),
{
    ('\u{09}' <= c && c <= '\u{0D}') || c == ' ' || c == '\u{85}' || c == '\u{A0}' || c
        == '\u{1680}' || ('\u{2000}' <= c && c <= '\u{200A}') || c == '\u{2028}' || c
        == '\u{2029}' || c == '\u{202F}' || c == '\u{205F}' || c == '\u{3000}'
}

fn quote_char(c: char) -> (r: bool)
    ensures
        r == is_quote(c),
{
    c == '"'
}

fn key_char(c: char) -> (r: bool)
    ensures
        r == is_key_char(c),
{
    (c >= 'A' && c <= 'Z') || (c >= '0' && c <= '9') || c == '_'
}

pub(crate) fn name_char(c: char) -> (r: bool)
    ensures
        r == is_name_char(c),
{
    (c >= 'a' && c <= 'z') || (c >= 'A' && c <= 'Z') || (c >= '0' && c <= '9') || c == '_'
}

fn key_run_from(v: &Vec<char>, from: usize) -> (k: usize)
    requires
        from <= v@.len(),
    ensures
        k == key_run(v@.skip(from as int)),
        from + k <= v@.len(),
{
    let n: usize = v.len();
    let mut j: usize = from;
    while j < n && key_char(v[j])
        invariant
            from <= j <= n,
            n == v@.len(),
            forall|m: int| from <= m < j ==> is_key_char(v@[m]),
        decreases n - j,
    {
        j = j + 1;
    }
    proof {
        let s = v@.skip(from as int);
        assert forall|m: int| 0 <= m < j - from implies is_key_char(s[m]) by {
            assert(s[m] == v@[from + m]);
        }
        if (j - from) < s.len() {
            assert(s[j - from] == v@[j as int]);
        }
        lemma_key_run_is(s, j - from);
    }
    j - from
}

fn name_run_from(v: &Vec<char>, from: usize) -> (k: usize)
    requires
        from <= v@.len(),
    ensures
        k == name_run(v@.skip(from as int)),
        from + k <= v@.len(),
{
    let n: usize = v.len();
    let mut j: usize = from;
    while j < n && name_char(v[j])
        invariant
            from <= j <= n,
            n == v@.len(),
            forall|m: int| from <= m < j ==> is_name_char(v@[m]),
        decreases n - j,
    {
        j = j + 1;
    }
    proof {
        let s = v@.skip(from as int);
        assert forall|m: int| 0 <= m < j - from implies is_name_char(s[m]) by {
            assert(s[m] == v@[from + m]);
        }
        if (j - from) < s.len() {
            assert(s[j - from] == v@[j as int]);
        }
        lemma_name_run_is(s, j - from);
    }
    j - from
}

fn colon_run_of(t: &Vec<char>) -> (k: usize)
    ensures
        k == colon_run(t@),
        k <= t@.len(),
{
    let n: usize = t.len();
    let mut j: usize = 0;
    while j < n && t[j] != ':'
        invariant
            j <= n,
            n == t@.len(),
            forall|m: int| 0 <= m < j ==> t@[m] != ':',
        decreases n - j,
    {
        j = j + 1;
    }
    proof {
        lemma_colon_run_is(t@, j as int);
    }
    j
}

pub(crate) fn find_cb_from(v: &Vec<char>, from: usize) -> (r: Option<usize>)
    ensures
        match r {
            Some(j) => find_cb(v@, from as int) == Some(j as int) && from <= j && j + 3 <= v@.len(),
            None => find_cb(v@, from as int) is None,
        },
{
    let n: usize = v.len();
    let mut j: usize = from;
    while j < n && n - j >= 3
        invariant
            from <= j,
            n == v@.len(),
            forall|m: int| from <= m < j ==> !cb_at(v@, m),
        decreases n - j,
    {
        if v[j] == ']' && v[j + 1] == '}' && v[j + 2] == '}' {
            proof {
                lemma_find_cb_some(v@, from as int, j as int);
            }
            return Some(j);
        }
        assert(!cb_at(v@, j as int));
        j = j + 1;
    }
    proof {
        assert forall|m: int| from <= m implies !cb_at(v@, m) by {
            if m < j {
            } else {
                assert(m + 3 > v@.len());
            }
        }
        lemma_find_cb_none(v@, from as int);
    }
    None
}

/// A recognized placeholder in the input buffer.
pub(crate) struct PhInfo {
    pub key: Vec<char>,
    pub args: Option<Vec<char>>,
    pub consumed: usize,
}

fn ph_parse(v: &Vec<char>, at: usize) -> (r: Option<PhInfo>)
    requires
        at <= v@.len(),
    ensures
        match r {
            Some(info) => {
                &&& 1 <= info.consumed
                &&& at + info.consumed <= v@.len()
                &&& match info.args {
                    Some(a) => ph_at(v@.skip(at as int)) == Some(
                        (info.key@, Some(a@), info.consumed as int),
                    ),
                    None => ph_at(v@.skip(at as int)) == Some(
                        (info.key@, None::<Seq<char>>, info.consumed as int),
                    ),
                }
            },
            None => ph_at(v@.skip(at as int)) is None,
        },
{
    let suf: Vec<char> = copy_range(v, at, v.len());
    proof {
        assert(suf@ =~= v@.skip(at as int));
    }
    if suf.len() < 2 {
        return None;
    }
    if suf[0] != '{' || suf[1] != '{' {
        return None;
    }
    let k: usize = key_run_from(&suf, 2);
    proof {
        assert(suf@.skip(2) =~= v@.skip(at as int).skip(2));
    }
    if k == 0 {
        return None;
    }
    let p: usize = 2 + k;
    let sl: usize = suf.len();
    if p <= sl - 2 && suf[p] == '}' {
        if suf[p + 1] == '}' {
            let key: Vec<char> = copy_range(&suf, 2, p);
            return Some(PhInfo { key, args: None, consumed: p + 2 });
        }
    }
    if p < suf.len() && suf[p] == '[' {
        match find_cb_from(&suf, p + 1) {
            Some(j) => {
                let key: Vec<char> = copy_range(&suf, 2, p);
                let args: Vec<char> = copy_range(&suf, p + 1, j);
                return Some(PhInfo { key, args: Some(args), consumed: j + 3 });
            },
            None => {
                return None;
            },
        }
    }
    None
}

fn lookup_exec(items: &Vec<(String, String)>, key: &Vec<char>) -> (r: Option<String>)
    ensures
        match r {
            Some(tpl) => lookup(kv_view(items@), key@) == Some(tpl@),
            None => lookup(kv_view(items@), key@) is None,
        },
{
    let key_string: String = chars_string(key);
    let ghost kv = kv_view(items@);
    let mut i: usize = items.len();
    proof {
        assert(kv.take(items@.len() as int) =~= kv);
    }
    while i > 0
        invariant
            i <= items@.len(),
            kv == kv_view(items@),
            key_string@ == key@,
            lookup(kv, key@) == lookup(kv.take(i as int), key@),
        decreases i,
    {
        i = i - 1;
        if items[i].0 == key_string {
            proof {
                assert(kv.take(i + 1 as int).last() == kv[i as int]);
            }
            return Some(items[i].1.clone());
        }
        proof {
            assert(kv.take(i + 1 as int).last() == kv[i as int]);
            assert(kv.take(i + 1 as int).drop_last() =~= kv.take(i as int));
        }
    }
    proof {
        assert(kv.take(0) =~= Seq::<(Seq<char>, Seq<char>)>::empty());
    }
    None
}

fn trim_ws_vec(t: &Vec<char>) -> (r: Vec<char>)
    ensures
        r@ == trim_ws(t@),
{
    let n: usize = t.len();
    let mut s: usize = 0;
    while s < n && ws_char(t[s])
        invariant
            s <= n,
            n == t@.len(),
            forall|m: int| 0 <= m < s ==> is_ws(t@[m]),
        decreases n - s,
    {
        s = s + 1;
    }
    let mut e: usize = n;
    while e > s && ws_char(t[e - 1])
        invariant
            s <= e <= n,
            n == t@.len(),
            forall|m: int| e <= m < n ==> is_ws(t@[m]),
        decreases e,
    {
        e = e - 1;
    }
    proof {
        lemma_lead_trim(t@, |c: char| is_ws(c), s as int);
        let mid = t@.skip(s as int);
        assert forall|m: int| (e - s) <= m < mid.len() implies is_ws(mid[m]) by {
            assert(mid[m] == t@[s + m]);
        }
        if e > s {
            assert(mid[e - s - 1] == t@[e - 1]);
        }
        lemma_tail_trim(mid, |c: char| is_ws(c), e - s as int);
        assert(mid.take(e - s as int) =~= t@.subrange(s as int, e as int));
    }
    copy_range(t, s, e)
}

fn trim_quotes_vec(t: &Vec<char>) -> (r: Vec<char>)
    ensures
        r@ == trim_quotes(t@),
{
    let n: usize = t.len();
    let mut s: usize = 0;
    while s < n && quote_char(t[s])
        invariant
            s <= n,
            n == t@.len(),
            forall|m: int| 0 <= m < s ==> is_quote(t@[m]),
        decreases n - s,
    {
        s = s + 1;
    }
    let mut e: usize = n;
    while e > s && quote_char(t[e - 1])
        invariant
            s <= e <= n,
            n == t@.len(),
            forall|m: int| e <= m < n ==> is_quote(t@[m]),
        decreases e,
    {
        e = e - 1;
    }
    proof {
        lemma_lead_trim(t@, |c: char| is_quote(c), s as int);
        let mid = t@.skip(s as int);
        assert forall|m: int| (e - s) <= m < mid.len() implies is_quote(mid[m]) by {
            assert(mid[m] == t@[s + m]);
        }
        if e > s {
            assert(mid[e - s - 1] == t@[e - 1]);
        }
        lemma_tail_trim(mid, |c: char| is_quote(c), e - s as int);
        assert(mid.take(e - s as int) =~= t@.subrange(s as int, e as int));
    }
    copy_range(t, s, e)
}

fn token_of_vec(raw: &Vec<char>) -> (r: Vec<char>)
    ensures
        r@ == token_of(raw@),
{
    let t: Vec<char> = trim_ws_vec(raw);
    trim_quotes_vec(&t)
}

/// The views of a vector of character vectors.
pub open spec fn vv_view(ts: Seq<Vec<char>>) -> Seq<Seq<char>> {
    Seq::new(ts.len(), |i: int| ts[i]@)
}

fn split_args_exec(v: &Vec<char>, from: usize) -> (r: Vec<Vec<char>>)
    requires
        from <= v@.len(),
    ensures
        vv_view(r@) == split_args(v@.skip(from as int)),
    decreases v@.len() - from,
{
    let ghost s = v@.skip(from as int);
    if from == v.len() {
        let mut r: Vec<Vec<char>> = Vec::new();
        r.push(Vec::new());
        proof {
            assert(s =~= Seq::<char>::empty());
            assert(vv_view(r@) =~= split_args(s));
        }
        r
    } else if v[from] == ',' {
        let mut r: Vec<Vec<char>> = split_args_exec(v, from + 1);
        r.insert(0, Vec::new());
        proof {
            assert(s.drop_first() =~= v@.skip(from + 1 as int));
            assert(vv_view(r@) =~= split_args(s));
        }
        r
    } else {
        let c: char = v[from];
        let mut r: Vec<Vec<char>> = split_args_exec(v, from + 1);
        proof {
            assert(s.drop_first() =~= v@.skip(from + 1 as int));
            lemma_split_args_len(s.drop_first());
            assert(vv_view(r@).len() >= 1);
        }
        let mut head: Vec<char> = r.remove(0);
        head.insert(0, c);
        r.insert(0, head);
        proof {
            assert(head@ =~= seq![s[0]] + split_args(s.drop_first())[0]);
            assert(vv_view(r@) =~= split_args(s));
        }
        r
    }
}

fn toks_exec(args: &Vec<char>) -> (r: Vec<Vec<char>>)
    ensures
        vv_view(r@) == toks_of(args@),
{
    let raw: Vec<Vec<char>> = split_args_exec(args, 0);
    proof {
        assert(args@.skip(0) =~= args@);
    }
    let mut out: Vec<Vec<char>> = Vec::new();
    let mut i: usize = 0;
    while i < raw.len()
        invariant
            i <= raw@.len(),
            vv_view(raw@) == split_args(args@),
            out@.len() == i,
            forall|j: int| 0 <= j < i ==> (#[trigger] out@[j])@ == token_of(raw@[j]@),
        decreases raw@.len() - i,
    {
        let tok: Vec<char> = token_of_vec(&raw[i]);
        out.push(tok);
        i = i + 1;
    }
    proof {
        assert(vv_view(out@) =~= toks_of(args@));
    }
    out
}

fn tok_name_vec(t: &Vec<char>) -> (r: Vec<char>)
    ensures
        r@ == tok_name(t@),
{
    let p: usize = colon_run_of(t);
    if p < t.len() {
        let head: Vec<char> = copy_range(t, 0, p);
        proof {
            assert(head@ =~= t@.take(p as int));
        }
        trim_ws_vec(&head)
    } else {
        copy_range(t, 0, t.len())
    }
}

fn tok_val_vec(t: &Vec<char>) -> (r: Vec<char>)
    ensures
        r@ == tok_val(t@),
{
    let p: usize = colon_run_of(t);
    if p < t.len() {
        let tail: Vec<char> = copy_range(t, p + 1, t.len());
        proof {
            assert(tail@ =~= t@.skip(p + 1 as int));
        }
        trim_ws_vec(&tail)
    } else {
        copy_range(t, 0, t.len())
    }
}

fn named_val_exec(toks: &Vec<Vec<char>>, from: usize, name: &Vec<char>) -> (r: Option<Vec<char>>)
    requires
        from <= toks@.len(),
    ensures
        match r {
            Some(v) => named_val(vv_view(toks@).skip(from as int), name@) == Some(v@),
            None => named_val(vv_view(toks@).skip(from as int), name@) is None,
        },
    decreases toks@.len() - from,
{
    let ghost tv = vv_view(toks@).skip(from as int);
    if from == toks.len() {
        proof {
            assert(tv =~= Seq::<Seq<char>>::empty());
        }
        None
    } else {
        proof {
            assert(tv.first() == toks@[from as int]@);
            assert(tv.drop_first() =~= vv_view(toks@).skip(from + 1 as int));
        }
        let nm: Vec<char> = tok_name_vec(&toks[from]);
        if chars_eq(&nm, name) {
            Some(tok_val_vec(&toks[from]))
        } else {
            named_val_exec(toks, from + 1, name)
        }
    }
}

fn digit_of(c: char) -> (d: u8)
    requires
        is_digit(c),
    ensures
        d as nat == digit_val(c),
{
    if c == '0' {
        0
    } else if c == '1' {
        1
    } else if c == '2' {
        2
    } else if c == '3' {
        3
    } else if c == '4' {
        4
    } else if c == '5' {
        5
    } else if c == '6' {
        6
    } else if c == '7' {
        7
    } else if c == '8' {
        8
    } else {
        9
    }
}

fn dollar_val_exec(toks: &Vec<Vec<char>>, name: &Vec<char>) -> (r: Option<Vec<char>>)
    ensures
        match r {
            Some(v) => dollar_val(vv_view(toks@), name@) == Some(v@),
            None => dollar_val(vv_view(toks@), name@) is None,
        },
{
    let n: usize = name.len();
    let mut all: bool = n > 0;
    let mut i: usize = 0;
    while i < n
        invariant
            i <= n,
            n == name@.len(),
            all == (n > 0 && forall|j: int| 0 <= j < i ==> is_digit(name@[j])),
        decreases n - i,
    {
        let c: char = name[i];
        if !(c >= '0' && c <= '9') {
            all = false;
        }
        i = i + 1;
    }
    if !all {
        assert(!all_digits(name@));
        proof {
            assert(vv_view(toks@).skip(0) =~= vv_view(toks@));
        }
        return named_val_exec(toks, 0, name);
    }
    assert(all_digits(name@));
    // Parse the index, saturating just above the token count.
    let tl: usize = toks.len();
    let tl_wide: u128 = tl as u128;
    let mut val: u128 = 0;
    let mut over: bool = false;
    let mut k: usize = 0;
    while k < n
        invariant
            k <= n,
            n == name@.len(),
            all_digits(name@),
            tl_wide as nat == vv_view(toks@).len(),
            tl_wide <= u64::MAX as u128,
            !over ==> val as nat == dec_val(name@.take(k as int)) && val <= tl_wide,
            over ==> dec_val(name@.take(k as int)) > tl_wide as nat,
        decreases n - k,
    {
        proof {
            assert(name@.take(k + 1 as int).drop_last() =~= name@.take(k as int));
            assert(name@.take(k + 1 as int).last() == name@[k as int]);
        }
        if over {
        } else {
            let d: u8 = digit_of(name[k]);
            let grown: u128 = val * 10 + (d as u128);
            if grown > tl_wide {
                over = true;
            } else {
                val = grown;
            }
        }
        k = k + 1;
    }
    proof {
        assert(name@.take(n as int) =~= name@);
    }
    if over || val >= tl_wide {
        return None;
    }
    let idx: usize = val as usize;
    Some(toks[idx].clone())
}

fn resolved_exec(tpl: &Vec<char>, toks: &Vec<Vec<char>>) -> (r: Vec<char>)
    ensures
        r@ == resolved(tpl@, vv_view(toks@)),
{
    let ghost tv = vv_view(toks@);
    let n: usize = tpl.len();
    let mut out: Vec<char> = Vec::new();
    let mut i: usize = 0;
    proof {
        assert(tpl@.skip(0) =~= tpl@);
        assert(out@ + resolved(tpl@, tv) =~= resolved(tpl@, tv));
    }
    while i < n
        invariant
            i <= n,
            n == tpl@.len(),
            tv == vv_view(toks@),
            resolved(tpl@, tv) == out@ + resolved(tpl@.skip(i as int), tv),
        decreases n - i,
    {
        let ghost suf = tpl@.skip(i as int);
        proof {
            assert(suf[0] == tpl@[i as int]);
            assert(suf.skip(1) =~= tpl@.skip(i + 1 as int));
        }
        if tpl[i] == '$' {
            let run: usize = name_run_from(tpl, i + 1);
            if run > 0 {
                let name: Vec<char> = copy_range(tpl, i + 1, i + 1 + run);
                proof {
                    assert(name@ =~= suf.subrange(1, 1 + run as int));
                    assert(suf.skip(1 + run as int) =~= tpl@.skip(i + 1 + run as int));
                }
                match dollar_val_exec(toks, &name) {
                    Some(v) => {
                        push_all(&mut out, &v);
                    },
                    None => {
                        push_range(&mut out, tpl, i, i + 1 + run);
                        proof {
                            assert(tpl@.subrange(i as int, i + 1 + run as int) =~= suf.take(
                                1 + run as int,
                            ));
                        }
                    },
                }
                i = i + 1 + run;
            } else {
                out.push('$');
                proof {
                    assert(seq!['$'] =~= seq![suf[0]]);
                    assert(suf.drop_first() =~= tpl@.skip(i + 1 as int));
                }
                i = i + 1;
            }
        } else {
            let c: char = tpl[i];
            out.push(c);
            proof {
                assert(suf.drop_first() =~= tpl@.skip(i + 1 as int));
            }
            i = i + 1;
        }
    }
    proof {
        assert(tpl@.skip(n as int) =~= Seq::<char>::empty());
        assert(out@ + Seq::<char>::empty() =~= out@);
    }
    out
}

/// Performs the substitution of `substituted` on a character buffer.
pub(crate) fn substitute_chars(input: &Vec<char>, items: &Vec<(String, String)>) -> (r: Vec<char>)
    ensures
        r@ == substituted(input@, kv_view(items@)),
{
    let ghost envs = kv_view(items@);
    let n: usize = input.len();
    let mut out: Vec<char> = Vec::new();
    let mut i: usize = 0;
    proof {
        assert(input@.skip(0) =~= input@);
        assert(out@ + substituted(input@, envs) =~= substituted(input@, envs));
    }
    while i < n
        invariant
            i <= n,
            n == input@.len(),
            envs == kv_view(items@),
            substituted(input@, envs) == out@ + substituted(input@.skip(i as int), envs),
        decreases n - i,
    {
        let ghost suf = input@.skip(i as int);
        proof {
            assert(suf[0] == input@[i as int]);
        }
        match ph_parse(input, i) {
            Some(info) => {
                let consumed: usize = info.consumed;
                proof {
                    assert(suf.skip(consumed as int) =~= input@.skip(i + consumed as int));
                }
                match lookup_exec(items, &info.key) {
                    Some(tpl) => {
                        let tpl_chars: Vec<char> = str_chars(tpl.as_str());
                        match info.args {
                            Some(args) => {
                                if args.len() > 0 {
                                    let toks: Vec<Vec<char>> = toks_exec(&args);
                                    let rep: Vec<char> = resolved_exec(&tpl_chars, &toks);
                                    push_all(&mut out, &rep);
                                } else {
                                    push_all(&mut out, &tpl_chars);
                                }
                            },
                            None => {
                                push_all(&mut out, &tpl_chars);
                            },
                        }
                    },
                    None => {
                        push_range(&mut out, input, i, i + consumed);
                        proof {
                            assert(input@.subrange(i as int, i + consumed as int) =~= suf.take(
                                consumed as int,
                            ));
                        }
                    },
                }
                i = i + consumed;
            },
            None => {
                let c: char = input[i];
                out.push(c);
                proof {
                    assert(suf.drop_first() =~= input@.skip(i + 1 as int));
                    assert(seq![suf[0]] =~= seq![c]);
                }
                i = i + 1;
            },
        }
    }
    proof {
        assert(input@.skip(n as int) =~= Seq::<char>::empty());
        assert(out@ + Seq::<char>::empty() =~= out@);
    }
    out
}

} // verus!
