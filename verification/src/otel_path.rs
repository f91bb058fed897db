//! Normalisation of the engine WebSocket URL into its `/otel` endpoint.

use vstd::prelude::*;

use crate::text::{chars_of, string_from_chars};

verus! {

/// The path segment telemetry connections use.
pub open spec fn otel_segment() -> Seq<char> {
    seq!['/', 'o', 't', 'e', 'l']
}

/// First index at or after `i` holding `?` or `#` (the length when none).
pub open spec fn query_start(s: Seq<char>, i: int) -> int
    decreases s.len() - i,
{
    if i < 0 || i >= s.len() {
        s.len() as int
    } else if s[i] == '?' || s[i] == '#' {
        i
    } else {
        query_start(s, i + 1)
    }
}

/// `s` without its trailing `/` characters.
pub open spec fn trim_trailing_slashes(s: Seq<char>) -> Seq<char>
    decreases s.len(),
{
    if s.len() > 0 && s.last() == '/' {
        trim_trailing_slashes(s.drop_last())
    } else {
        s
    }
}

pub open spec fn ends_with(s: Seq<char>, t: Seq<char>) -> bool {
    t.len() <= s.len() && s.subrange(s.len() - t.len(), s.len() as int) == t
}

/// The URL with `/otel` as the last path segment: trailing slashes of the
/// path are dropped, `/otel` is appended unless already there, and any
/// query string or fragment is kept after it.
pub open spec fn otel_url(s: Seq<char>) -> Seq<char> {
    let k = query_start(s, 0);
    let path = trim_trailing_slashes(s.take(k));
    let rest = s.skip(k);
    if ends_with(path, otel_segment()) {
        path + rest
    } else {
        path + otel_segment() + rest
    }
}

proof fn lemma_query_start(s: Seq<char>, i: int)
    requires
        0 <= i <= s.len(),
    ensures
        i <= query_start(s, i) <= s.len(),
        forall|k: int| i <= k < query_start(s, i) ==> s[k] != '?' && s[k] != '#',
        query_start(s, i) < s.len() ==> (s[query_start(s, i)] == '?' || s[query_start(s, i)]
            == '#'),
    decreases s.len() - i,
{
    if i < s.len() && !(s[i] == '?' || s[i] == '#') {
        lemma_query_start(s, i + 1);
    }
}

proof fn lemma_query_start_is_first(s: Seq<char>, i: int, k: int)
    requires
        0 <= i <= k <= s.len(),
        forall|j: int| i <= j < k ==> s[j] != '?' && s[j] != '#',
        k == s.len() || s[k] == '?' || s[k] == '#',
    ensures
        query_start(s, i) == k,
    decreases k - i,
{
    if i < k {
        lemma_query_start_is_first(s, i + 1, k);
    }
}

/// Trimming slashes gives a prefix that does not end in `/`.
proof fn lemma_trim(s: Seq<char>)
    ensures
        trim_trailing_slashes(s).len() <= s.len(),
        trim_trailing_slashes(s) == s.take(trim_trailing_slashes(s).len() as int),
        trim_trailing_slashes(s).len() == 0 || trim_trailing_slashes(s).last() != '/',
        forall|k: int|
            trim_trailing_slashes(s).len() <= k < s.len() ==> s[k] == '/',
    decreases s.len(),
{
    if s.len() > 0 && s.last() == '/' {
        lemma_trim(s.drop_last());
        let t = trim_trailing_slashes(s.drop_last());
        assert(s.drop_last().take(t.len() as int) == s.take(t.len() as int));
        assert forall|k: int| t.len() <= k < s.len() implies s[k] == '/' by {
            if k < s.len() - 1 {
                assert(s[k] == s.drop_last()[k]);
            }
        }
    } else {
        assert(s.take(s.len() as int) == s);
    }
}

proof fn lemma_trim_is(s: Seq<char>, j: int)
    requires
        0 <= j <= s.len(),
        j == 0 || s[j - 1] != '/',
        forall|k: int| j <= k < s.len() ==> s[k] == '/',
    ensures
        trim_trailing_slashes(s) == s.take(j),
    decreases s.len(),
{
    if s.len() > j {
        assert(s.last() == '/');
        lemma_trim_is(s.drop_last(), j);
        assert(s.drop_last().take(j) == s.take(j));
    } else {
        assert(s.take(j) == s);
    }
}

/// Normalise an engine WebSocket URL into the dedicated `/otel` endpoint.
/// Handles trailing slashes, is idempotent when the URL already ends in
/// `/otel`, and keeps query strings and fragments after the path.
pub fn append_otel_path(base: &str) -> (r: String)
    ensures
        r@ == otel_url(base@),
{
    let s = chars_of(base);
    let mut k: usize = 0;
    while k < s.len() && s[k] != '?' && s[k] != '#'
        invariant
            k <= s.len(),
            forall|j: int| 0 <= j < k ==> s@[j] != '?' && s@[j] != '#',
        decreases s.len() - k,
    {
        k += 1;
    }
    proof {
        lemma_query_start_is_first(s@, 0, k as int);
    }
    let mut j = k;
    while j > 0 && s[j - 1] == '/'
        invariant
            j <= k <= s.len(),
            forall|m: int| j <= m < k ==> s@[m] == '/',
        decreases j,
    {
        j -= 1;
    }
    proof {
        assert(forall|m: int| j <= m < k ==> s@.take(k as int)[m] == '/');
        lemma_trim_is(s@.take(k as int), j as int);
        assert(s@.take(k as int).take(j as int) == s@.take(j as int));
    }
    let ghost path = s@.take(j as int);
    let mut out: Vec<char> = Vec::new();
    let mut m: usize = 0;
    while m < j
        invariant
            m <= j <= s.len(),
            out@ == s@.take(m as int),
        decreases j - m,
    {
        out.push(s[m]);
        assert(s@.take(m as int + 1) == s@.take(m as int).push(s@[m as int]));
        m += 1;
    }
    let already = j >= 5 && s[j - 5] == '/' && s[j - 4] == 'o' && s[j - 3] == 't' && s[j - 2]
        == 'e' && s[j - 1] == 'l';
    assert(already == ends_with(path, otel_segment())) by {
        if j >= 5 {
            let tail = path.subrange(path.len() - 5, path.len() as int);
            if already {
                assert(tail == otel_segment());
            }
            if tail == otel_segment() {
                assert(tail[0] == '/');
                assert(tail[4] == 'l');
            }
        }
    }
    if !already {
        out.push('/');
        out.push('o');
        out.push('t');
        out.push('e');
        out.push('l');
        assert(out@ == path + otel_segment());
    }
    let ghost head = out@;
    let mut q = k;
    while q < s.len()
        invariant
            k <= q <= s.len(),
            out@ == head + s@.subrange(k as int, q as int),
        decreases s.len() - q,
    {
        out.push(s[q]);
        assert(s@.subrange(k as int, q as int + 1) == s@.subrange(k as int, q as int).push(
            s@[q as int],
        ));
        q += 1;
    }
    assert(s@.subrange(k as int, s.len() as int) == s@.skip(k as int));
    string_from_chars(&out)
}

/// Normalising to the `/otel` endpoint is idempotent.
pub proof fn otel_url_is_idempotent(s: Seq<char>)
    ensures
        otel_url(otel_url(s)) == otel_url(s),
{
    let k = query_start(s, 0);
    lemma_query_start(s, 0);
    let raw = s.take(k);
    lemma_trim(raw);
    let path = trim_trailing_slashes(raw);
    let rest = s.skip(k);
    let head = if ends_with(path, otel_segment()) {
        path
    } else {
        path + otel_segment()
    };
    let r = head + rest;
    assert(r == otel_url(s));
    // `head` ends in `/otel`, holds no `?` or `#`, and `rest` starts with one
    // of them (or is empty).
    assert(ends_with(head, otel_segment())) by {
        if !ends_with(path, otel_segment()) {
            assert(head.subrange(head.len() - 5, head.len() as int) == otel_segment());
        }
    }
    assert forall|m: int| 0 <= m < head.len() implies head[m] != '?' && head[m] != '#' by {
        if m < path.len() {
            assert(head[m] == raw[m]);
            assert(raw[m] == s[m]);
        } else {
            assert(head[m] == otel_segment()[m - path.len()]);
        }
    }
    assert forall|m: int| 0 <= m < head.len() implies r[m] != '?' && r[m] != '#' by {
        assert(r[m] == head[m]);
    }
    if rest.len() > 0 {
        assert(r[head.len() as int] == s[k]);
    }
    lemma_query_start_is_first(r, 0, head.len() as int);
    assert(r.take(head.len() as int) == head);
    assert(r.skip(head.len() as int) == rest);
    assert(head.last() == 'l');
    lemma_trim_is(head, head.len() as int);
    assert(head.take(head.len() as int) == head);
}

/// A plain engine URL (no query string or fragment, no trailing `/`, not
/// already ending in `/otel`) gets `/otel` appended and nothing else.
pub proof fn otel_url_appends_the_otel_segment(s: Seq<char>)
    requires
        forall|i: int| 0 <= i < s.len() ==> s[i] != '?' && s[i] != '#',
        s.len() > 0 ==> s.last() != '/',
        !ends_with(s, "/otel"@),
    ensures
        otel_url(s) == s + "/otel"@,
{
    reveal_strlit("/otel");
    assert(otel_segment() == "/otel"@);
    lemma_query_start_is_first(s, 0, s.len() as int);
    assert(s.take(s.len() as int) == s);
    assert(s.skip(s.len() as int) == Seq::<char>::empty());
    assert(trim_trailing_slashes(s) == s);
    assert(s + "/otel"@ + Seq::<char>::empty() == s + "/otel"@);
}

} // verus!

