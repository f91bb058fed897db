//! Payload redaction decisions and size capping for invocation event
//! capture.

use vstd::prelude::*;
use vstd::string::{StringExecFns, StringSliceAdditionalSpecFns};
use vstd::utf8::{decode_utf8, encode_utf8, is_ascii_chars, is_char_boundary, valid_utf8};

use crate::numeric::{
    ascii_lower, chars_eq_ignore_ascii_case, eq_ignore_ascii_case, is_trim_span, parse_usize,
    parsed_usize, trim_chars,
};
use crate::json::{Json, JsonValue};
use crate::otel_path::ends_with;
use crate::text::{chars_of, string_from_chars};

verus! {

broadcast use vstd::utf8::group_utf8_lib;

/// What the value of a sensitive key is replaced with.
pub const REDACTED_PLACEHOLDER: &'static str = "[REDACTED]";

/// Byte length of the truncation marker.
pub const TRUNCATION_MARKER_LEN: usize = 16;

/// The marker appended to a truncated payload: `..."[TRUNCATED]"`.
pub open spec fn truncation_marker() -> Seq<char> {
    seq!['.', '.', '.', '"', '[', 'T', 'R', 'U', 'N', 'C', 'A', 'T', 'E', 'D', ']', '"']
}

fn marker_chars() -> (v: Vec<char>)
    ensures
        v@ == truncation_marker(),
{
    let v = vec!['.', '.', '.', '"', '[', 'T', 'R', 'U', 'N', 'C', 'A', 'T', 'E', 'D', ']', '"'];
    assert(v@ == truncation_marker());
    v
}

/// Key fragments that mark a value as sensitive wherever they occur.
pub open spec fn sensitive_fragments() -> Seq<Seq<char>> {
    seq![
        "api_key"@,
        "apikey"@,
        "api-key"@,
        "password"@,
        "secret"@,
        "credential"@,
        "authorization"@,
        "auth_token"@,
        "access_token"@,
        "refresh_token"@,
        "bearer"@,
        "private_key"@,
        "client_secret"@,
    ]
}

/// Whether `f` occurs in `s`.
pub open spec fn contains_seq(s: Seq<char>, f: Seq<char>) -> bool {
    exists|i: int| 0 <= i && i + f.len() <= s.len() && #[trigger] s.subrange(i, i + f.len()) == f
}

pub open spec fn lowercase(s: Seq<char>) -> Seq<char> {
    s.map_values(|c: char| ascii_lower(c))
}

/// Whether a key names a secret: its ASCII-lowercased form contains one of
/// the sensitive fragments, or is `token`, or ends in `_token` or `-token`
/// (`token` alone is too common a substring to match anywhere).
pub open spec fn sensitive_key(key: Seq<char>) -> bool {
    let lower = lowercase(key);
    ||| exists|k: int| 0 <= k < sensitive_fragments().len() && contains_seq(
        lower,
        #[trigger] sensitive_fragments()[k],
    )
    ||| lower == "token"@
    ||| ends_with(lower, "_token"@)
    ||| ends_with(lower, "-token"@)
}

fn lowercase_chars(s: &str) -> (r: Vec<char>)
    ensures
        r@ == lowercase(s@),
{
    let cs = chars_of(s);
    let mut r: Vec<char> = Vec::new();
    let mut i: usize = 0;
    while i < cs.len()
        invariant
            i <= cs.len(),
            cs@ == s@,
            r@ == lowercase(cs@.take(i as int)),
        decreases cs.len() - i,
    {
        let c = cs[i];
        r.push(crate::numeric::lower(c));
        assert(lowercase(cs@.take(i as int + 1)) == lowercase(cs@.take(i as int)).push(
            ascii_lower(c),
        ));
        i += 1;
    }
    assert(cs@.take(cs.len() as int) == cs@);
    r
}

fn matches_at(s: &Vec<char>, f: &Vec<char>, i: usize) -> (r: bool)
    requires
        i + f.len() <= s.len(),
    ensures
        r == (s@.subrange(i as int, i + f.len()) == f@),
{
    let mut k: usize = 0;
    while k < f.len()
        invariant
            k <= f.len(),
            i + f.len() <= s.len(),
            forall|m: int| 0 <= m < k ==> s@[i + m] == f@[m],
        decreases f.len() - k,
    {
        if s[i + k] != f[k] {
            assert(s@.subrange(i as int, i + f.len())[k as int] != f@[k as int]);
            return false;
        }
        k += 1;
    }
    assert(s@.subrange(i as int, i + f.len()) == f@);
    true
}

fn contains_chars(s: &Vec<char>, f: &Vec<char>) -> (r: bool)
    ensures
        r == contains_seq(s@, f@),
{
    if f.len() > s.len() {
        return false;
    }
    let limit = s.len() - f.len();
    let mut i: usize = 0;
    loop
        invariant
            f.len() <= s.len(),
            limit == s.len() - f.len(),
            i <= limit,
            forall|j: int| 0 <= j < i ==> #[trigger] s@.subrange(j, j + f.len()) != f@,
        decreases limit - i,
    {
        if matches_at(s, f, i) {
            return true;
        }
        if i == limit {
            return false;
        }
        i += 1;
    }
}

fn ends_with_chars(s: &Vec<char>, t: &Vec<char>) -> (r: bool)
    ensures
        r == ends_with(s@, t@),
{
    if t.len() > s.len() {
        return false;
    }
    matches_at(s, t, s.len() - t.len())
}

/// Which keys are secret: exactly those whose ASCII-lowercased form
/// contains `api_key`, `apikey`, `api-key`, `password`, `secret`,
/// `credential`, `authorization`, `auth_token`, `access_token`,
/// `refresh_token`, `bearer`, `private_key` or `client_secret`, or is
/// `token`, or ends in `_token` or `-token`.
pub proof fn sensitive_keys_are_the_listed_ones(key: Seq<char>)
    ensures
        sensitive_key(key) <==> ({
            contains_seq(lowercase(key), "api_key"@)
            || contains_seq(lowercase(key), "apikey"@)
            || contains_seq(lowercase(key), "api-key"@)
            || contains_seq(lowercase(key), "password"@)
            || contains_seq(lowercase(key), "secret"@)
            || contains_seq(lowercase(key), "credential"@)
            || contains_seq(lowercase(key), "authorization"@)
            || contains_seq(lowercase(key), "auth_token"@)
            || contains_seq(lowercase(key), "access_token"@)
            || contains_seq(lowercase(key), "refresh_token"@)
            || contains_seq(lowercase(key), "bearer"@)
            || contains_seq(lowercase(key), "private_key"@)
            || contains_seq(lowercase(key), "client_secret"@)
            || lowercase(key) == "token"@
            || ends_with(lowercase(key), "_token"@)
            || ends_with(lowercase(key), "-token"@)
        }),
{
    let f = sensitive_fragments();
    assert(f.len() == 13);
    assert(f[0] == "api_key"@);
    assert(f[1] == "apikey"@);
    assert(f[2] == "api-key"@);
    assert(f[3] == "password"@);
    assert(f[4] == "secret"@);
    assert(f[5] == "credential"@);
    assert(f[6] == "authorization"@);
    assert(f[7] == "auth_token"@);
    assert(f[8] == "access_token"@);
    assert(f[9] == "refresh_token"@);
    assert(f[10] == "bearer"@);
    assert(f[11] == "private_key"@);
    assert(f[12] == "client_secret"@);
    if exists|k: int| 0 <= k < f.len() && contains_seq(lowercase(key), #[trigger] f[k]) {
        let k = choose|k: int| 0 <= k < f.len() && contains_seq(lowercase(key), #[trigger] f[k]);
        assert(0 <= k < 13);
        assert(k == 0 || k == 1 || k == 2 || k == 3 || k == 4 || k == 5 || k == 6 || k == 7 || k == 8
            || k == 9 || k == 10 || k == 11 || k == 12);
    }
}

/// Whether the value under `key` must be redacted.
pub fn is_sensitive_key(key: &str) -> (r: bool)
    ensures
        r == sensitive_key(key@),
{
    let lower = lowercase_chars(key);
    let fragments: Vec<&str> = vec![
        "api_key",
        "apikey",
        "api-key",
        "password",
        "secret",
        "credential",
        "authorization",
        "auth_token",
        "access_token",
        "refresh_token",
        "bearer",
        "private_key",
        "client_secret",
    ];
    assert(fragments@.len() == sensitive_fragments().len());
    assert forall|k: int| 0 <= k < fragments@.len() implies fragments@[k]@
        == #[trigger] sensitive_fragments()[k] by {}
    let mut k: usize = 0;
    while k < fragments.len()
        invariant
            k <= fragments.len() == sensitive_fragments().len(),
            lower@ == lowercase(key@),
            forall|j: int| 0 <= j < fragments@.len() ==> fragments@[j]@ == #[trigger] sensitive_fragments()[j],
            forall|j: int| 0 <= j < k ==> !contains_seq(lower@, #[trigger] sensitive_fragments()[j]),
        decreases fragments.len() - k,
    {
        let f = chars_of(fragments[k]);
        if contains_chars(&lower, &f) {
            return true;
        }
        k += 1;
    }
    let token = chars_of("token");
    let underscore_token = chars_of("_token");
    let dash_token = chars_of("-token");
    crate::text::chars_eq(&lower, &token) || ends_with_chars(&lower, &underscore_token)
        || ends_with_chars(&lower, &dash_token)
}

/// The model of a redacted JSON value: every member whose key is sensitive
/// has its whole value replaced by the placeholder string; arrays and the
/// other members are redacted element by element; scalars stay as they are.
pub open spec fn redacted(j: Json) -> Json
    decreases j,
{
    match j {
        Json::Array(items) => Json::Array(
            Seq::new(
                items.len(),
                |i: int|
                    if 0 <= i < items.len() {
                        redacted(items[i])
                    } else {
                        Json::Null
                    },
            ),
        ),
        Json::Object(members) => Json::Object(
            Seq::new(
                members.len(),
                |i: int|
                    if 0 <= i < members.len() {
                        if sensitive_key(members[i].0) {
                            (members[i].0, Json::Str(REDACTED_PLACEHOLDER@))
                        } else {
                            (members[i].0, redacted(members[i].1))
                        }
                    } else {
                        (Seq::empty(), Json::Null)
                    },
            ),
        ),
        _ => j,
    }
}

/// Redact the values of sensitive keys, at any depth. Returns a new value.
pub fn redact(value: &JsonValue) -> (r: JsonValue)
    ensures
        r.model() == redacted(value.model()),
    decreases value,
{
    match value {
        JsonValue::Null => JsonValue::Null,
        JsonValue::Bool(b) => JsonValue::Bool(*b),
        JsonValue::Number(n) => JsonValue::Number(n.clone()),
        JsonValue::Str(t) => JsonValue::Str(t.clone()),
        JsonValue::Array(items) => {
            let mut out: Vec<JsonValue> = Vec::new();
            let mut i: usize = 0;
            while i < items.len()
                invariant
                    i <= items.len(),
                    out.len() == i,
                    *value == JsonValue::Array(*items),
                    forall|k: int| 0 <= k < i ==> #[trigger] out@[k].model() == redacted(items@[k].model()),
                decreases items.len() - i,
            {
                assert(decreases_to!(value => items@[i as int])) by {
                    assert(decreases_to!(*value => value->Array_0));
                    assert(decreases_to!(*items => items@));
                    assert(decreases_to!(items@ => items@[i as int]));
                }
                let r = redact(&items[i]);
                out.push(r);
                i += 1;
            }
            let r = JsonValue::Array(out);
            proof {
                let ms = value.model()->Array_0;
                assert(ms.len() == items@.len());
                assert forall|k: int| 0 <= k < items@.len() implies #[trigger] r.model()->Array_0[k]
                    == redacted(value.model())->Array_0[k] by {
                    assert(ms[k] == items@[k].model());
                    assert(out@[k].model() == redacted(items@[k].model()));
                }
                assert(r.model()->Array_0 =~= redacted(value.model())->Array_0);
            }
            r
        },
        JsonValue::Object(members) => {
            let mut out: Vec<(String, JsonValue)> = Vec::new();
            let mut i: usize = 0;
            while i < members.len()
                invariant
                    i <= members.len(),
                    out.len() == i,
                    *value == JsonValue::Object(*members),
                    forall|k: int| 0 <= k < i ==> #[trigger] out@[k].0@ == members@[k].0@,
                    forall|k: int|
                        0 <= k < i ==> #[trigger] out@[k].1.model() == (if sensitive_key(members@[k].0@) {
                            Json::Str(REDACTED_PLACEHOLDER@)
                        } else {
                            redacted(members@[k].1.model())
                        }),
                decreases members.len() - i,
            {
                let key = members[i].0.clone();
                if is_sensitive_key(key.as_str()) {
                    out.push((key, JsonValue::Str(String::from_str(REDACTED_PLACEHOLDER))));
                } else {
                    assert(decreases_to!(value => members@[i as int].1)) by {
                        assert(decreases_to!(*value => value->Object_0));
                        assert(decreases_to!(*members => members@));
                        assert(decreases_to!(members@ => members@[i as int]));
                        assert(decreases_to!(members@[i as int] => members@[i as int].1));
                    }
                    let v = redact(&members[i].1);
                    out.push((key, v));
                }
                i += 1;
            }
            let r = JsonValue::Object(out);
            proof {
                let ms = value.model()->Object_0;
                assert(ms.len() == members@.len());
                assert forall|k: int| 0 <= k < members@.len() implies #[trigger] r.model()->Object_0[k]
                    == redacted(value.model())->Object_0[k] by {
                    assert(ms[k] == (members@[k].0@, members@[k].1.model()));
                    assert(out@[k].0@ == members@[k].0@);
                    assert(r.model()->Object_0[k] == (out@[k].0@, out@[k].1.model()));
                    assert(out@[k].1.model() == (if sensitive_key(members@[k].0@) {
                        Json::Str(REDACTED_PLACEHOLDER@)
                    } else {
                        redacted(members@[k].1.model())
                    }));
                }
                assert(r.model()->Object_0 =~= redacted(value.model())->Object_0);
            }
            r
        },
    }
}

/// Redacting twice gives what redacting once gave.
pub proof fn redaction_is_idempotent(j: Json)
    ensures
        redacted(redacted(j)) == redacted(j),
    decreases j,
{
    match j {
        Json::Array(items) => {
            let once = redacted(j)->Array_0;
            assert forall|k: int| 0 <= k < items.len() implies #[trigger] redacted(
                redacted(j),
            )->Array_0[k] == once[k] by {
                assert(decreases_to!(j => items));
                assert(decreases_to!(items => items[k]));
                redaction_is_idempotent(items[k]);
            }
            assert(redacted(redacted(j))->Array_0 =~= once);
        },
        Json::Object(members) => {
            let once = redacted(j)->Object_0;
            assert forall|k: int| 0 <= k < members.len() implies #[trigger] redacted(
                redacted(j),
            )->Object_0[k] == once[k] by {
                if !sensitive_key(members[k].0) {
                    assert(decreases_to!(j => members));
                    assert(decreases_to!(members => members[k]));
                    assert(decreases_to!(members[k] => members[k].1));
                    redaction_is_idempotent(members[k].1);
                }
            }
            assert(redacted(redacted(j))->Object_0 =~= once);
        },
        _ => {},
    }
}

/// No secret shows: at any depth, every member under a sensitive key holds
/// the redaction placeholder.
pub open spec fn secrets_hidden(j: Json) -> bool
    decreases j,
{
    match j {
        Json::Array(items) => forall|k: int| 0 <= k < items.len() ==> secrets_hidden(#[trigger] items[k]),
        Json::Object(members) => forall|k: int|
            0 <= k < members.len() ==> if sensitive_key((#[trigger] members[k]).0) {
                members[k].1 == Json::Str(REDACTED_PLACEHOLDER@)
            } else {
                secrets_hidden(members[k].1)
            },
        _ => true,
    }
}

/// Redaction hides every secret: whatever the payload, its redacted form
/// holds the placeholder under every sensitive key, at any depth.
pub proof fn redaction_hides_secrets(j: Json)
    ensures
        secrets_hidden(redacted(j)),
    decreases j,
{
    match j {
        Json::Array(items) => {
            let once = redacted(j)->Array_0;
            assert forall|k: int| 0 <= k < once.len() implies secrets_hidden(#[trigger] once[k]) by {
                assert(decreases_to!(j => items));
                assert(decreases_to!(items => items[k]));
                redaction_hides_secrets(items[k]);
            }
        },
        Json::Object(members) => {
            let once = redacted(j)->Object_0;
            assert forall|k: int| 0 <= k < once.len() implies (if sensitive_key((#[trigger] once[k]).0) {
                once[k].1 == Json::Str(REDACTED_PLACEHOLDER@)
            } else {
                secrets_hidden(once[k].1)
            }) by {
                if !sensitive_key(members[k].0) {
                    assert(decreases_to!(j => members));
                    assert(decreases_to!(members => members[k]));
                    assert(decreases_to!(members[k] => members[k].1));
                    redaction_hides_secrets(members[k].1);
                }
            }
        },
        _ => {},
    }
}

/// The largest character boundary of `bytes` at or below `c` (0 at worst).
pub open spec fn boundary_at_or_below(bytes: Seq<u8>, c: int) -> int
    decreases c,
{
    if c <= 0 {
        0
    } else if is_char_boundary(bytes, c) {
        c
    } else {
        boundary_at_or_below(bytes, c - 1)
    }
}

/// How a serialised payload is capped at `max_bytes`: unchanged when there
/// is no cap or it fits; otherwise cut at the last character boundary that
/// leaves room for the marker, and the marker appended; when the cap is no
/// larger than the marker, the first `cap` bytes of the marker alone.
pub open spec fn capped(serialized: Seq<char>, max_bytes: Option<usize>) -> (Seq<char>, bool) {
    let bytes = encode_utf8(serialized);
    match max_bytes {
        None => (serialized, false),
        Some(cap) => if bytes.len() <= cap {
            (serialized, false)
        } else if cap <= TRUNCATION_MARKER_LEN {
            (truncation_marker().take(cap as int), true)
        } else {
            let cut = boundary_at_or_below(bytes, cap - TRUNCATION_MARKER_LEN);
            (decode_utf8(bytes.subrange(0, cut)) + truncation_marker(), true)
        },
    }
}

/// Cap an already serialised (redacted) payload at `max_bytes`, returning
/// the text and whether it was truncated.
pub fn truncate_serialized(serialized: &str, max_bytes: Option<usize>) -> (r: (String, bool))
    requires
        serialized.spec_bytes().len() <= usize::MAX,
    ensures
        r.0@ == capped(serialized@, max_bytes).0,
        r.1 == capped(serialized@, max_bytes).1,
{
    if max_bytes.is_none() {
        let r = (String::from_str(serialized), false);
        assert(capped(serialized@, max_bytes) == (serialized@, false));
        return r;
    }
    let cap = max_bytes.unwrap();
    if serialized.len() <= cap {
        return (String::from_str(serialized), false);
    }
    let marker = marker_chars();
    if cap <= TRUNCATION_MARKER_LEN {
        let mut v: Vec<char> = Vec::new();
        let mut k: usize = 0;
        while k < cap
            invariant
                k <= cap <= TRUNCATION_MARKER_LEN,
                marker@ == truncation_marker(),
                v@ == truncation_marker().take(k as int),
            decreases cap - k,
        {
            v.push(marker[k]);
            assert(truncation_marker().take(k as int + 1) == truncation_marker().take(k as int).push(
                truncation_marker()[k as int],
            ));
            k += 1;
        }
        return (string_from_chars(&v), true);
    }
    let ghost bytes = serialized.spec_bytes();
    let mut cut = cap - TRUNCATION_MARKER_LEN;
    while cut > 0 && !serialized.is_char_boundary(cut)
        invariant
            cut <= cap - TRUNCATION_MARKER_LEN,
            bytes == serialized.spec_bytes(),
            boundary_at_or_below(bytes, (cap - TRUNCATION_MARKER_LEN) as int) == boundary_at_or_below(
                bytes,
                cut as int,
            ),
        decreases cut,
    {
        cut -= 1;
    }
    assert(is_char_boundary(bytes, cut as int)) by {
        assert(bytes == encode_utf8(serialized@));
        if cut == 0 {
            assert(is_char_boundary(bytes, 0));
        }
    }
    let (head, _) = serialized.split_at(cut);
    let mut out = String::from_str(head);
    assert(head.spec_bytes() == encode_utf8(head@));
    assert(decode_utf8(bytes.subrange(0, cut as int)) == head@);
    let marker_text = string_from_chars(&marker);
    out = out.concat(marker_text.as_str());
    (out, true)
}

/// The text `serde_json::to_string` gives for a JSON value: its compact
/// JSON form.
pub uninterp spec fn json_text(v: Json) -> Seq<char>;

/// `serde_json::to_string` of the value's `serde_json` form (`"null"` should
/// it report an error, which it does not for a `serde_json::Value`). The
/// text is named by `json_text` and depends on the value alone.
#[verifier::external_body]
pub(crate) fn serialize(v: &JsonValue) -> (r: String)
    ensures
        r@ == json_text(v.model()),
{
    serde_json::to_string(&crate::schema::serde_value(v)).unwrap_or_else(|_| String::from("null"))
}

/// Redact a payload, serialise it and cap it at `max_bytes`: the capped
/// JSON text of the redacted value, and whether it was truncated.
pub fn redact_and_truncate(value: &JsonValue, max_bytes: Option<usize>) -> (r: (String, bool))
    ensures
        r.0@ == capped(json_text(redacted(value.model())), max_bytes).0,
        r.1 == capped(json_text(redacted(value.model())), max_bytes).1,
{
    let clean = redact(value);
    let text = serialize(&clean);
    let _byte_len = text.as_str().as_bytes().len();
    truncate_serialized(text.as_str(), max_bytes)
}

/// The payload cap set by `III_TRACE_PAYLOAD_MAX_BYTES` (`raw` is the
/// variable's value, if set): none when unset, blank, `unlimited` (any
/// case), zero or not a number; otherwise that many bytes.
pub fn resolve_max_bytes(raw: Option<&str>) -> (r: Option<usize>)
    ensures
        raw is None ==> r is None,
        raw matches Some(t) ==> exists|a: int, b: int|
            #![trigger is_trim_span(t@, a, b)]
            is_trim_span(t@, a, b) && r == max_bytes_from(t@.subrange(a, b)),
{
    let text = match raw {
        None => {
            return None;
        },
        Some(t) => t,
    };
    let trimmed = trim_chars(text);
    let unlimited = chars_of("unlimited");
    if trimmed.len() == 0 || chars_eq_ignore_ascii_case(&trimmed, &unlimited) {
        return None;
    }
    let trimmed_text = string_from_chars(&trimmed);
    match parse_usize(trimmed_text.as_str()) {
        Some(0) => None,
        Some(n) => Some(n),
        None => None,
    }
}

/// The cap a trimmed setting gives.
pub open spec fn max_bytes_from(trimmed: Seq<char>) -> Option<usize> {
    if trimmed.len() == 0 || eq_ignore_ascii_case(trimmed, "unlimited"@) {
        None
    } else {
        match parsed_usize(trimmed) {
            Some(n) => if n == 0 {
                None
            } else {
                Some(n)
            },
            None => None,
        }
    }
}

proof fn lemma_encode_utf8_concat(a: Seq<char>, b: Seq<char>)
    ensures
        encode_utf8(a + b) == encode_utf8(a) + encode_utf8(b),
    decreases a.len(),
{
    if a.len() == 0 {
        assert(a + b == b);
    } else {
        assert((a + b).drop_first() == a.drop_first() + b);
        lemma_encode_utf8_concat(a.drop_first(), b);
    }
}

proof fn lemma_boundary_at_or_below_bounds(bytes: Seq<u8>, c: int)
    requires
        0 <= c,
    ensures
        0 <= boundary_at_or_below(bytes, c) <= c,
        is_char_boundary(bytes, boundary_at_or_below(bytes, c)) || boundary_at_or_below(bytes, c)
            == 0,
    decreases c,
{
    if c > 0 && !is_char_boundary(bytes, c) {
        lemma_boundary_at_or_below_bounds(bytes, c - 1);
    }
}

proof fn lemma_marker_is_ascii()
    ensures
        is_ascii_chars(truncation_marker()),
        encode_utf8(truncation_marker()).len() == TRUNCATION_MARKER_LEN,
{
    assert(is_ascii_chars(truncation_marker()));
}

/// A capped payload never takes more than `cap` bytes of UTF-8, and it is
/// marked truncated exactly when the serialised payload did not fit.
pub proof fn capped_payload_fits(serialized: Seq<char>, cap: usize)
    ensures
        encode_utf8(capped(serialized, Some(cap)).0).len() <= cap,
        capped(serialized, Some(cap)).1 <==> encode_utf8(serialized).len() > cap,
{
    let bytes = encode_utf8(serialized);
    lemma_marker_is_ascii();
    if bytes.len() <= cap {
    } else if cap <= TRUNCATION_MARKER_LEN {
        let head = truncation_marker().take(cap as int);
        assert(is_ascii_chars(head));
        assert(head.len() == cap);
    } else {
        let c = cap - TRUNCATION_MARKER_LEN;
        let cut = boundary_at_or_below(bytes, c as int);
        lemma_boundary_at_or_below_bounds(bytes, c as int);
        assert(is_char_boundary(bytes, cut)) by {
            if cut == 0 {
                assert(is_char_boundary(bytes, 0));
            }
        }
        let prefix = bytes.subrange(0, cut);
        assert(valid_utf8(prefix));
        let head = decode_utf8(prefix);
        assert(encode_utf8(head) == prefix);
        lemma_encode_utf8_concat(head, truncation_marker());
    }
}

} // verus!
