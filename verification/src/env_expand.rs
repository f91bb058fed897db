//! `${VAR}` / `${VAR:default}` placeholder expansion.
//!
//! A placeholder is `$`, `{`, a non-empty name free of `}` and `:`, then
//! either `}` or `:` followed by a default free of `}` and a closing `}`.
//! Text is scanned left to right; each placeholder found is replaced and
//! scanning resumes after it. Everything else is copied unchanged.

use vstd::prelude::*;
use vstd::string::StringExecFns;

use crate::text::{chars_of, push_char, string_from_chars};

verus! {

/// The default that stands for the engine's own version.
pub const ENGINE_VERSION_PLACEHOLDER: &'static str = "__III_ENGINE_VERSION__";

/// A snapshot of the process environment: `(name, value)` pairs.
#[derive(Debug, Clone)]
pub struct EnvVars {
    pub vars: Vec<(String, String)>,
}

/// The value of the first pair named `name` at or after index `i`.
pub open spec fn lookup_from(vars: Seq<(String, String)>, name: Seq<char>, i: int) -> Option<Seq<char>>
    decreases vars.len() - i,
{
    if i < 0 || i >= vars.len() {
        None
    } else if vars[i].0@ == name {
        Some(vars[i].1@)
    } else {
        lookup_from(vars, name, i + 1)
    }
}

impl EnvVars {
    /// The value the environment gives `name`, if any.
    pub open spec fn lookup(self, name: Seq<char>) -> Option<Seq<char>> {
        lookup_from(self.vars@, name, 0)
    }

    /// The value of variable `name`, if set.
    pub fn get(&self, name: &String) -> (r: Option<String>)
        ensures
            r is Some <==> self.lookup(name@) is Some,
            r matches Some(v) ==> v@ == self.lookup(name@)->0,
    {
        let mut i: usize = 0;
        while i < self.vars.len()
            invariant
                i <= self.vars.len(),
                self.lookup(name@) == lookup_from(self.vars@, name@, i as int),
            decreases self.vars.len() - i,
        {
            if self.vars[i].0 == *name {
                return Some(self.vars[i].1.clone());
            }
            i += 1;
        }
        None
    }
}

/// First index `k >= j` holding `}` or `:` (or the end of `s`).
pub open spec fn name_end(s: Seq<char>, j: int) -> int
    decreases s.len() - j,
{
    if j >= s.len() || j < 0 {
        j
    } else if s[j] == '}' || s[j] == ':' {
        j
    } else {
        name_end(s, j + 1)
    }
}

/// First index `k >= j` holding `}` (or the end of `s`).
pub open spec fn brace_end(s: Seq<char>, j: int) -> int
    decreases s.len() - j,
{
    if j >= s.len() || j < 0 {
        j
    } else if s[j] == '}' {
        j
    } else {
        brace_end(s, j + 1)
    }
}

/// A placeholder found in the text: where it ends (exclusive), its variable
/// name and its default, if one is written.
pub struct Placeholder {
    pub end: int,
    pub name: Seq<char>,
    pub default: Option<Seq<char>>,
}

/// The placeholder that starts at index `i`, if one does.
pub open spec fn placeholder_at(s: Seq<char>, i: int) -> Option<Placeholder> {
    if 0 <= i && i + 1 < s.len() && s[i] == '$' && s[i + 1] == '{' {
        let j = name_end(s, i + 2);
        if j == i + 2 || j >= s.len() {
            None
        } else if s[j] == '}' {
            Some(Placeholder { end: j + 1, name: s.subrange(i + 2, j), default: None })
        } else {
            let k = brace_end(s, j + 1);
            if k >= s.len() {
                None
            } else {
                Some(
                    Placeholder {
                        end: k + 1,
                        name: s.subrange(i + 2, j),
                        default: Some(s.subrange(j + 1, k)),
                    },
                )
            }
        }
    } else {
        None
    }
}

/// What a placeholder resolves to: the variable's value when set, else its
/// default (the engine version for the version placeholder); `None` when
/// neither exists.
pub open spec fn resolve(env: EnvVars, p: Placeholder, version: Seq<char>) -> Option<Seq<char>> {
    match env.lookup(p.name) {
        Some(v) => Some(v),
        None => match p.default {
            Some(d) => if d == ENGINE_VERSION_PLACEHOLDER@ {
                Some(version)
            } else {
                Some(d)
            },
            None => None,
        },
    }
}

/// Whether every placeholder from index `i` on resolves.
pub open spec fn resolvable_from(s: Seq<char>, i: int, env: EnvVars) -> bool
    decreases s.len() - i,
{
    if i < 0 || i >= s.len() {
        true
    } else {
        match placeholder_at(s, i) {
            Some(p) => (env.lookup(p.name) is Some || p.default is Some) && (p.end > i
                ==> resolvable_from(s, p.end, env)),
            None => resolvable_from(s, i + 1, env),
        }
    }
}

/// The expansion of the text from index `i` on.
pub open spec fn expand_from(s: Seq<char>, i: int, env: EnvVars, version: Seq<char>) -> Seq<char>
    decreases s.len() - i,
{
    if i < 0 || i >= s.len() {
        Seq::empty()
    } else {
        match placeholder_at(s, i) {
            Some(p) => if p.end > i {
                match resolve(env, p, version) {
                    Some(v) => v + expand_from(s, p.end, env, version),
                    None => expand_from(s, p.end, env, version),
                }
            } else {
                Seq::empty()
            },
            None => seq![s[i]] + expand_from(s, i + 1, env, version),
        }
    }
}

/// The expansion of the whole text.
pub open spec fn expansion(s: Seq<char>, env: EnvVars, version: Seq<char>) -> Seq<char> {
    expand_from(s, 0, env, version)
}

proof fn lemma_name_end_bounds(s: Seq<char>, j: int)
    requires
        0 <= j <= s.len(),
    ensures
        j <= name_end(s, j) <= s.len(),
        forall|k: int| j <= k < name_end(s, j) ==> s[k] != '}' && s[k] != ':',
        name_end(s, j) < s.len() ==> (s[name_end(s, j)] == '}' || s[name_end(s, j)] == ':'),
    decreases s.len() - j,
{
    if j < s.len() && !(s[j] == '}' || s[j] == ':') {
        lemma_name_end_bounds(s, j + 1);
    }
}

proof fn lemma_brace_end_bounds(s: Seq<char>, j: int)
    requires
        0 <= j <= s.len(),
    ensures
        j <= brace_end(s, j) <= s.len(),
        brace_end(s, j) < s.len() ==> s[brace_end(s, j)] == '}',
    decreases s.len() - j,
{
    if j < s.len() && s[j] != '}' {
        lemma_brace_end_bounds(s, j + 1);
    }
}

fn scan_name_end(s: &Vec<char>, j: usize) -> (k: usize)
    requires
        j <= s.len(),
    ensures
        k as int == name_end(s@, j as int),
{
    let mut k = j;
    while k < s.len() && s[k] != '}' && s[k] != ':'
        invariant
            j <= k <= s.len(),
            name_end(s@, j as int) == name_end(s@, k as int),
        decreases s.len() - k,
    {
        k += 1;
    }
    k
}

fn scan_brace_end(s: &Vec<char>, j: usize) -> (k: usize)
    requires
        j <= s.len(),
    ensures
        k as int == brace_end(s@, j as int),
{
    let mut k = j;
    while k < s.len() && s[k] != '}'
        invariant
            j <= k <= s.len(),
            brace_end(s@, j as int) == brace_end(s@, k as int),
        decreases s.len() - k,
    {
        k += 1;
    }
    k
}

/// Positions of a placeholder found at an index: end, end of name, and the
/// default's span when present.
struct Found {
    end: usize,
    name_stop: usize,
    default_span: Option<(usize, usize)>,
}

fn find_placeholder(s: &Vec<char>, i: usize) -> (r: Option<Found>)
    requires
        i < s.len(),
    ensures
        r is Some <==> placeholder_at(s@, i as int) is Some,
        r matches Some(f) ==> {
            let p = placeholder_at(s@, i as int)->0;
            &&& f.end as int == p.end
            &&& i + 2 < f.name_stop < f.end <= s.len()
            &&& p.name == s@.subrange(i as int + 2, f.name_stop as int)
            &&& (p.default is None <==> f.default_span is None)
            &&& (f.default_span matches Some((a, b)) ==> a <= b <= s.len() && p.default->0
                == s@.subrange(a as int, b as int))
        },
{
    if i + 1 < s.len() && s[i] == '$' && s[i + 1] == '{' {
        let j = scan_name_end(s, i + 2);
        proof {
            lemma_name_end_bounds(s@, i as int + 2);
        }
        if j == i + 2 || j >= s.len() {
            None
        } else if s[j] == '}' {
            Some(Found { end: j + 1, name_stop: j, default_span: None })
        } else {
            let k = scan_brace_end(s, j + 1);
            proof {
                lemma_brace_end_bounds(s@, j as int + 1);
            }
            if k >= s.len() {
                None
            } else {
                Some(Found { end: k + 1, name_stop: j, default_span: Some((j + 1, k)) })
            }
        }
    } else {
        None
    }
}

fn sub_string(s: &Vec<char>, a: usize, b: usize) -> (r: String)
    requires
        a <= b <= s.len(),
    ensures
        r@ == s@.subrange(a as int, b as int),
{
    let mut r = String::new();
    let mut k = a;
    while k < b
        invariant
            a <= k <= b <= s.len(),
            r@ == s@.subrange(a as int, k as int),
        decreases b - k,
    {
        push_char(&mut r, s[k]);
        assert(s@.subrange(a as int, k as int + 1) == s@.subrange(a as int, k as int).push(
            s@[k as int],
        ));
        k += 1;
    }
    r
}

fn append_string(out: &mut Vec<char>, v: &String)
    ensures
        final(out)@ == old(out)@ + v@,
{
    let cs = chars_of(v.as_str());
    let mut k: usize = 0;
    let ghost start = out@;
    while k < cs.len()
        invariant
            k <= cs.len(),
            cs@ == v@,
            out@ == start + cs@.take(k as int),
        decreases cs.len() - k,
    {
        out.push(cs[k]);
        assert(cs@.take(k as int + 1) == cs@.take(k as int).push(cs@[k as int]));
        k += 1;
    }
    assert(cs@.take(cs.len() as int) == cs@);
}

/// The first placeholder from index `i` on that resolves to nothing.
pub open spec fn first_unresolved(s: Seq<char>, i: int, env: EnvVars) -> Option<Seq<char>>
    decreases s.len() - i,
{
    if i < 0 || i >= s.len() {
        None
    } else {
        match placeholder_at(s, i) {
            Some(p) => if p.end > i {
                if env.lookup(p.name) is None && p.default is None {
                    Some(p.name)
                } else {
                    first_unresolved(s, p.end, env)
                }
            } else {
                None
            },
            None => first_unresolved(s, i + 1, env),
        }
    }
}

proof fn lemma_first_unresolved(s: Seq<char>, i: int, env: EnvVars)
    requires
        0 <= i,
    ensures
        first_unresolved(s, i, env) is None <==> resolvable_from(s, i, env),
    decreases s.len() - i,
{
    if i < s.len() {
        match placeholder_at(s, i) {
            Some(p) => {
                lemma_placeholder_end(s, i);
                lemma_first_unresolved(s, p.end, env);
            },
            None => {
                lemma_first_unresolved(s, i + 1, env);
            },
        }
    }
}

proof fn lemma_placeholder_end(s: Seq<char>, i: int)
    requires
        placeholder_at(s, i) is Some,
    ensures
        i + 3 <= placeholder_at(s, i)->0.end <= s.len(),
{
    lemma_name_end_bounds(s, i + 2);
    let j = name_end(s, i + 2);
    if s[j] != '}' {
        lemma_brace_end_bounds(s, j + 1);
    }
}

/// The name of the first placeholder in `input` that neither the
/// environment nor a default resolves, if any.
pub fn find_unresolved(input: &str, env: &EnvVars) -> (r: Option<String>)
    ensures
        r is None <==> resolvable_from(input@, 0, *env),
        r matches Some(n) ==> first_unresolved(input@, 0, *env) == Some(n@),
{
    let s = chars_of(input);
    proof {
        lemma_first_unresolved(s@, 0, *env);
    }
    let mut i: usize = 0;
    while i < s.len()
        invariant
            i <= s.len(),
            s@ == input@,
            first_unresolved(s@, 0, *env) == first_unresolved(s@, i as int, *env),
            first_unresolved(s@, 0, *env) is None <==> resolvable_from(s@, 0, *env),
        decreases s.len() - i,
    {
        match find_placeholder(&s, i) {
            Some(f) => {
                proof {
                    lemma_placeholder_end(s@, i as int);
                }
                let name = sub_string(&s, i + 2, f.name_stop);
                if env.get(&name).is_none() && f.default_span.is_none() {
                    assert(first_unresolved(s@, i as int, *env) == Some(name@));
                    return Some(name);
                }
                i = f.end;
            },
            None => {
                i += 1;
            },
        }
    }
    None
}

/// Expand every placeholder of `input` against `env`; `version` stands for
/// the engine version placeholder. Every placeholder must resolve.
pub fn expand_with(input: &str, env: &EnvVars, version: &str) -> (r: String)
    requires
        resolvable_from(input@, 0, *env),
    ensures
        r@ == expansion(input@, *env, version@),
{
    let s = chars_of(input);
    let mut out: Vec<char> = Vec::new();
    let mut i: usize = 0;
    while i < s.len()
        invariant
            i <= s.len(),
            s@ == input@,
            resolvable_from(s@, i as int, *env),
            expansion(s@, *env, version@) == out@ + expand_from(s@, i as int, *env, version@),
        decreases s.len() - i,
    {
        match find_placeholder(&s, i) {
            Some(f) => {
                proof {
                    lemma_placeholder_end(s@, i as int);
                }
                let name = sub_string(&s, i + 2, f.name_stop);
                let value = match env.get(&name) {
                    Some(v) => v,
                    None => match f.default_span {
                        Some((a, b)) => {
                            let d = sub_string(&s, a, b);
                            if d == String::from_str(ENGINE_VERSION_PLACEHOLDER) {
                                String::from_str(version)
                            } else {
                                d
                            }
                        },
                        None => {
                            assert(false);
                            String::new()
                        },
                    },
                };
                let ghost before = out@;
                append_string(&mut out, &value);
                assert(out@ == before + value@);
                assert(expand_from(s@, i as int, *env, version@) == value@ + expand_from(
                    s@,
                    f.end as int,
                    *env,
                    version@,
                ));
                assert(before + (value@ + expand_from(s@, f.end as int, *env, version@)) == (
                before + value@) + expand_from(s@, f.end as int, *env, version@));
                i = f.end;
            },
            None => {
                let ghost before = out@;
                out.push(s[i]);
                assert(expand_from(s@, i as int, *env, version@) == seq![s@[i as int]]
                    + expand_from(s@, i as int + 1, *env, version@));
                assert(before + (seq![s@[i as int]] + expand_from(s@, i as int + 1, *env, version@))
                    == before.push(s@[i as int]) + expand_from(s@, i as int + 1, *env, version@));
                i += 1;
            },
        }
    }
    string_from_chars(&out)
}


/// Whether `s` holds a `${` anywhere.
pub open spec fn has_placeholder_opening(s: Seq<char>) -> bool {
    exists|i: int| 0 <= i && i + 1 < s.len() && s[i] == '$' && #[trigger] s[i + 1] == '{'
}

proof fn lemma_plain_suffix_unchanged(s: Seq<char>, i: int, env: EnvVars, version: Seq<char>)
    requires
        0 <= i <= s.len(),
        !has_placeholder_opening(s),
    ensures
        expand_from(s, i, env, version) == s.subrange(i, s.len() as int),
    decreases s.len() - i,
{
    if i < s.len() {
        if i + 1 < s.len() && s[i] == '$' && s[i + 1] == '{' {
            assert(has_placeholder_opening(s));
        }
        assert(placeholder_at(s, i) is None);
        lemma_plain_suffix_unchanged(s, i + 1, env, version);
        assert(seq![s[i]] + s.subrange(i + 1, s.len() as int) == s.subrange(i, s.len() as int));
    }
}

/// Text without any `${` comes out of expansion unchanged, whatever the
/// environment.
pub proof fn text_without_placeholders_is_unchanged(s: Seq<char>, env: EnvVars, version: Seq<char>)
    requires
        !has_placeholder_opening(s),
    ensures
        expansion(s, env, version) == s,
        resolvable_from(s, 0, env),
{
    lemma_plain_suffix_unchanged(s, 0, env, version);
    assert(s.subrange(0, s.len() as int) == s);
    lemma_plain_resolvable(s, 0, env);
}

proof fn lemma_plain_resolvable(s: Seq<char>, i: int, env: EnvVars)
    requires
        0 <= i <= s.len(),
        !has_placeholder_opening(s),
    ensures
        resolvable_from(s, i, env),
    decreases s.len() - i,
{
    if i < s.len() {
        if i + 1 < s.len() && s[i] == '$' && s[i + 1] == '{' {
            assert(has_placeholder_opening(s));
        }
        lemma_plain_resolvable(s, i + 1, env);
    }
}

} // verus!
