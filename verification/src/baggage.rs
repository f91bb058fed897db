//! W3C baggage: the allowlist of baggage entries copied onto spans, and
//! how the entries of a context's baggage are set, removed and overlaid.

use vstd::prelude::*;
use vstd::string::StringExecFns;

use opentelemetry::baggage::Baggage;

use crate::text::str_eq;

verus! {

#[verifier::external_type_specification]
#[verifier::external_body]
pub struct ExBaggage(Baggage);

/// The entries of a baggage, as a map from keys to values.
pub uninterp spec fn baggage_entries(b: Baggage) -> Map<Seq<char>, Seq<char>>;

/// `Baggage::get`: the value stored under `key`, if any.
#[verifier::external_body]
fn baggage_get(b: &Baggage, key: &str) -> (r: Option<String>)
    ensures
        r is Some <==> baggage_entries(*b).dom().contains(key@),
        r matches Some(v) ==> v@ == baggage_entries(*b)[key@],
{
    b.get(key).map(|v| v.as_str().to_string())
}

/// `Baggage::iter`: every entry once, in no particular order.
#[verifier::external_body]
fn baggage_pairs(b: &Baggage) -> (r: Vec<(String, String)>)
    ensures
        keys_distinct(r@),
        pairs_map(r@) == baggage_entries(*b),
{
    b.iter().map(|(k, (v, _meta))| (k.as_str().to_string(), v.as_str().to_string())).collect()
}

/// No key occurs twice among `s`.
pub open spec fn keys_distinct(s: Seq<(String, String)>) -> bool {
    forall|i: int, j: int| 0 <= i < j < s.len() ==> #[trigger] s[i].0@ != #[trigger] s[j].0@
}

/// The map of a list of pairs: later pairs win over earlier ones.
pub open spec fn pairs_map(s: Seq<(String, String)>) -> Map<Seq<char>, Seq<char>>
    decreases s.len(),
{
    if s.len() == 0 {
        Map::empty()
    } else {
        pairs_map(s.drop_last()).insert(s.last().0@, s.last().1@)
    }
}

/// The map of a list of borrowed pairs: later pairs win over earlier ones.
pub open spec fn overlay(m: Map<Seq<char>, Seq<char>>, s: Seq<(&str, &str)>) -> Map<Seq<char>, Seq<char>>
    decreases s.len(),
{
    if s.len() == 0 {
        m
    } else {
        overlay(m, s.drop_last()).insert(s.last().0@, s.last().1@)
    }
}

/// The baggage keys copied onto every span by default.
pub const DEFAULT_ALLOWLIST: [&'static str; 3] = ["iii.session.id", "iii.message.id", "iii.function.id"];

pub open spec fn default_allowlist() -> Seq<Seq<char>> {
    seq!["iii.session.id"@, "iii.message.id"@, "iii.function.id"@]
}

/// Copies allowlisted baggage entries onto spans as they start.
#[derive(Debug, Clone)]
pub struct BaggageSpanProcessor {
    allowlist: Vec<&'static str>,
}

/// The attributes a started span gets: for each allowlisted key in order,
/// the key and its baggage value, when the baggage has it.
pub open spec fn selected(allow: Seq<Seq<char>>, m: Map<Seq<char>, Seq<char>>) -> Seq<(Seq<char>, Seq<char>)>
    decreases allow.len(),
{
    if allow.len() == 0 {
        Seq::empty()
    } else {
        let rest = selected(allow.drop_last(), m);
        let k = allow.last();
        if m.dom().contains(k) {
            rest.push((k, m[k]))
        } else {
            rest
        }
    }
}

pub open spec fn pair_views(s: Seq<(String, String)>) -> Seq<(Seq<char>, Seq<char>)> {
    s.map_values(|p: (String, String)| (p.0@, p.1@))
}

impl BaggageSpanProcessor {
    /// The allowlisted keys, in order.
    pub closed spec fn keys(&self) -> Seq<Seq<char>> {
        self.allowlist@.map_values(|k: &str| k@)
    }

    /// A processor with [`DEFAULT_ALLOWLIST`].
    pub fn new() -> (r: Self)
        ensures
            r.keys() == default_allowlist(),
    {
        let mut allowlist: Vec<&'static str> = Vec::new();
        allowlist.push("iii.session.id");
        allowlist.push("iii.message.id");
        allowlist.push("iii.function.id");
        let r = BaggageSpanProcessor { allowlist };
        assert(r.keys() =~= default_allowlist());
        r
    }

    /// A processor copying exactly `keys`.
    pub fn with_allowlist(keys: Vec<&'static str>) -> (r: Self)
        ensures
            r.keys() == keys@.map_values(|k: &str| k@),
    {
        BaggageSpanProcessor { allowlist: keys }
    }

    /// The attributes set on a span as it starts: none when the span is not
    /// recording; otherwise the allowlisted entries of `baggage`.
    pub fn attributes_for(&self, recording: bool, baggage: &Baggage) -> (r: Vec<(String, String)>)
        ensures
            !recording ==> r@.len() == 0,
            recording ==> pair_views(r@) == selected(self.keys(), baggage_entries(*baggage)),
    {
        let mut r: Vec<(String, String)> = Vec::new();
        if !recording {
            return r;
        }
        let mut i: usize = 0;
        while i < self.allowlist.len()
            invariant
                i <= self.allowlist@.len(),
                pair_views(r@) == selected(self.keys().take(i as int), baggage_entries(*baggage)),
            decreases self.allowlist.len() - i,
        {
            let key = self.allowlist[i];
            assert(self.keys().take(i as int + 1).drop_last() == self.keys().take(i as int));
            assert(self.keys().take(i as int + 1).last() == key@);
            match baggage_get(baggage, key) {
                Some(v) => {
                    let ghost before = r@;
                    r.push((String::from_str(key), v));
                    assert(pair_views(r@) == pair_views(before).push((key@, baggage_entries(*baggage)[key@])));
                },
                None => {},
            }
            i += 1;
        }
        assert(self.keys().take(self.allowlist@.len() as int) == self.keys());
        r
    }
}

impl Default for BaggageSpanProcessor {
    fn default() -> (r: Self)
        ensures
            r.keys() == default_allowlist(),
    {
        BaggageSpanProcessor::new()
    }
}

/// The value of baggage entry `key`, if any.
pub fn baggage_entry(baggage: &Baggage, key: &str) -> (r: Option<String>)
    ensures
        r is Some <==> baggage_entries(*baggage).dom().contains(key@),
        r matches Some(v) ==> v@ == baggage_entries(*baggage)[key@],
{
    baggage_get(baggage, key)
}

/// Every entry of the baggage, once each.
pub fn all_entries(baggage: &Baggage) -> (r: Vec<(String, String)>)
    ensures
        keys_distinct(r@),
        pairs_map(r@) == baggage_entries(*baggage),
{
    baggage_pairs(baggage)
}

proof fn lemma_pairs_map_dom(s: Seq<(String, String)>, k: Seq<char>)
    ensures
        pairs_map(s).dom().contains(k) <==> exists|i: int| 0 <= i < s.len() && #[trigger] s[i].0@ == k,
    decreases s.len(),
{
    if s.len() > 0 {
        lemma_pairs_map_dom(s.drop_last(), k);
        if pairs_map(s.drop_last()).dom().contains(k) {
            let i = choose|i: int| 0 <= i < s.drop_last().len() && #[trigger] s.drop_last()[i].0@ == k;
            assert(s[i].0@ == k);
        }
        if exists|i: int| 0 <= i < s.len() && #[trigger] s[i].0@ == k {
            let i = choose|i: int| 0 <= i < s.len() && #[trigger] s[i].0@ == k;
            if i < s.len() - 1 {
                assert(s.drop_last()[i].0@ == k);
            }
        }
    }
}

/// The entries of `baggage` without `key`, in their order.
fn entries_without(baggage: &Baggage, key: &str) -> (r: Vec<(String, String)>)
    ensures
        keys_distinct(r@),
        pairs_map(r@) == baggage_entries(*baggage).remove(key@),
        forall|i: int| 0 <= i < r@.len() ==> (#[trigger] r@[i]).0@ != key@,
{
    let all = baggage_pairs(baggage);
    let mut r: Vec<(String, String)> = Vec::new();
    let mut i: usize = 0;
    while i < all.len()
        invariant
            i <= all@.len(),
            keys_distinct(all@),
            keys_distinct(r@),
            forall|j: int| 0 <= j < r@.len() ==> (#[trigger] r@[j]).0@ != key@,
            forall|j: int| #![trigger r@[j]] 0 <= j < r@.len() ==> exists|q: int| 0 <= q < i && #[trigger] all@[q].0@ == r@[j].0@,
            pairs_map(r@) == pairs_map(all@.take(i as int)).remove(key@),
        decreases all.len() - i,
    {
        let (k, v) = (&all[i].0, &all[i].1);
        assert(all@.take(i as int + 1).drop_last() == all@.take(i as int));
        if !str_eq(k.as_str(), key) {
            let ghost before = r@;
            proof {
                assert forall|j: int| 0 <= j < before.len() implies before[j].0@ != k@ by {
                    let q = choose|q: int| 0 <= q < i && #[trigger] all@[q].0@ == before[j].0@;
                    assert(all@[q].0@ != all@[i as int].0@);
                }
            }
            r.push((k.clone(), v.clone()));
            proof {
                assert(r@.drop_last() == before);
                assert(pairs_map(r@) =~= pairs_map(all@.take(i as int + 1)).remove(key@));
                assert forall|j: int| #![trigger r@[j]] 0 <= j < r@.len() implies exists|q: int| 0 <= q < i + 1 && #[trigger] all@[q].0@ == r@[j].0@ by {
                    if j == before.len() {
                        assert(all@[i as int].0@ == r@[j].0@);
                    } else {
                        assert(r@[j] == before[j]);
                    }
                }
            }
        } else {
            assert(pairs_map(r@) =~= pairs_map(all@.take(i as int + 1)).remove(key@));
        }
        i += 1;
    }
    assert(all@.take(all@.len() as int) == all@);
    r
}

/// The entries of `baggage` with `key` set to `value`: the others in
/// their order, then the new pair.
pub fn entries_with_entry(baggage: &Baggage, key: &str, value: &str) -> (r: Vec<(String, String)>)
    ensures
        keys_distinct(r@),
        pairs_map(r@) == baggage_entries(*baggage).insert(key@, value@),
{
    let mut r = entries_without(baggage, key);
    let ghost before = r@;
    r.push((String::from_str(key), String::from_str(value)));
    assert(r@.drop_last() == before);
    assert(pairs_map(r@) =~= baggage_entries(*baggage).insert(key@, value@));
    r
}

/// The entries of `baggage` without `key`.
pub fn entries_without_entry(baggage: &Baggage, key: &str) -> (r: Vec<(String, String)>)
    ensures
        keys_distinct(r@),
        pairs_map(r@) == baggage_entries(*baggage).remove(key@),
{
    entries_without(baggage, key)
}

/// The entries of `baggage` overlaid with `entries`: each given pair
/// replaces the entry of its key, the last pair of a key winning.
pub fn entries_overlaid(baggage: &Baggage, entries: &[(&str, &str)]) -> (r: Vec<(String, String)>)
    ensures
        pairs_map(r@) == overlay(baggage_entries(*baggage), entries@),
{
    let mut r = baggage_pairs(baggage);
    let mut i: usize = 0;
    while i < entries.len()
        invariant
            i <= entries@.len(),
            pairs_map(r@) == overlay(baggage_entries(*baggage), entries@.take(i as int)),
        decreases entries.len() - i,
    {
        let (k, v) = entries[i];
        let ghost before = r@;
        r.push((String::from_str(k), String::from_str(v)));
        assert(r@.drop_last() == before);
        assert(entries@.take(i as int + 1).drop_last() == entries@.take(i as int));
        i += 1;
    }
    assert(entries@.take(entries@.len() as int) == entries@);
    r
}

} // verus!
