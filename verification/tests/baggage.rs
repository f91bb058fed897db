use std::collections::HashMap;

use iii_core::baggage::{
    all_entries, baggage_entry, entries_overlaid, entries_with_entry, entries_without_entry,
    BaggageSpanProcessor, DEFAULT_ALLOWLIST,
};
use opentelemetry::baggage::Baggage;
use opentelemetry::KeyValue;

fn baggage(pairs: &[(&str, &str)]) -> Baggage {
    pairs.iter().map(|(k, v)| KeyValue::new(k.to_string(), v.to_string())).collect()
}

fn as_map(pairs: Vec<(String, String)>) -> HashMap<String, String> {
    let mut m = HashMap::new();
    for (k, v) in pairs {
        m.insert(k, v);
    }
    m
}

fn attr<'a>(attrs: &'a [(String, String)], key: &str) -> Option<&'a str> {
    attrs.iter().find(|(k, _)| k == key).map(|(_, v)| v.as_str())
}

#[test]
fn default_allowlist_matches_harness_baggage_write_set() {
    assert_eq!(DEFAULT_ALLOWLIST, ["iii.session.id", "iii.message.id", "iii.function.id"],);
}

#[test]
fn copies_default_allowlist_from_baggage_to_attributes() {
    let b = baggage(&[
        ("iii.session.id", "S-1"),
        ("iii.message.id", "M-1"),
        ("iii.function.id", "auth::set_token"),
    ]);
    let attrs = BaggageSpanProcessor::default().attributes_for(true, &b);
    assert_eq!(attr(&attrs, "iii.session.id"), Some("S-1"));
    assert_eq!(attr(&attrs, "iii.message.id"), Some("M-1"));
    assert_eq!(attr(&attrs, "iii.function.id"), Some("auth::set_token"));
}

#[test]
fn missing_baggage_entry_means_attribute_not_set() {
    let b = baggage(&[("iii.message.id", "M-only")]);
    let attrs = BaggageSpanProcessor::default().attributes_for(true, &b);
    assert_eq!(attr(&attrs, "iii.message.id"), Some("M-only"));
    assert_eq!(attr(&attrs, "iii.session.id"), None);
    assert_eq!(attr(&attrs, "iii.function.id"), None);
}

#[test]
fn baggage_entries_not_in_allowlist_are_dropped() {
    let b = baggage(&[("iii.message.id", "M"), ("tenant.id", "t-42"), ("debug.feature_flag", "on")]);
    let attrs = BaggageSpanProcessor::default().attributes_for(true, &b);
    assert_eq!(attr(&attrs, "iii.message.id"), Some("M"));
    assert_eq!(attr(&attrs, "tenant.id"), None);
    assert_eq!(attr(&attrs, "debug.feature_flag"), None);
}

#[test]
fn custom_allowlist_is_honored() {
    let b = baggage(&[("tenant.id", "t-1"), ("iii.message.id", "M"), ("iii.session.id", "S-not-copied")]);
    let attrs = BaggageSpanProcessor::with_allowlist(vec!["tenant.id", "iii.message.id"]).attributes_for(true, &b);
    assert_eq!(attr(&attrs, "tenant.id"), Some("t-1"));
    assert_eq!(attr(&attrs, "iii.message.id"), Some("M"));
    assert_eq!(attr(&attrs, "iii.session.id"), None);
}

#[test]
fn empty_parent_context_produces_no_attributes() {
    let attrs = BaggageSpanProcessor::default().attributes_for(true, &Baggage::new());
    assert!(attrs.is_empty());
}

#[test]
fn noop_guard_skips_processing_when_sampled_out() {
    let b = baggage(&[("iii.session.id", "S-1"), ("iii.message.id", "M-1")]);
    let attrs = BaggageSpanProcessor::default().attributes_for(false, &b);
    assert!(attrs.is_empty());
}

#[test]
fn attributes_follow_allowlist_order() {
    let b = baggage(&[("iii.function.id", "F"), ("iii.session.id", "S")]);
    let attrs = BaggageSpanProcessor::default().attributes_for(true, &b);
    assert_eq!(
        attrs,
        vec![
            ("iii.session.id".to_string(), "S".to_string()),
            ("iii.function.id".to_string(), "F".to_string()),
        ]
    );
}

#[test]
fn test_baggage_operations() {
    let b = baggage(&[]);
    let set = baggage(
        &entries_with_entry(&b, "user_id", "12345")
            .iter()
            .map(|(k, v)| (k.as_str(), v.as_str()))
            .collect::<Vec<_>>(),
    );
    assert_eq!(baggage_entry(&set, "user_id"), Some("12345".to_string()));
    let all = as_map(all_entries(&set));
    assert_eq!(all.get("user_id"), Some(&"12345".to_string()));
    let removed = as_map(entries_without_entry(&set, "user_id"));
    assert_eq!(removed.get("user_id"), None);
}

#[test]
fn set_replaces_existing_entry_and_keeps_others() {
    let b = baggage(&[("a", "1"), ("b", "2")]);
    let m = as_map(entries_with_entry(&b, "a", "9"));
    assert_eq!(m.len(), 2);
    assert_eq!(m["a"], "9");
    assert_eq!(m["b"], "2");
}

#[test]
fn run_with_baggage_overwrites_existing_keys() {
    let b = baggage(&[("iii.session.id", "outer"), ("keep", "k")]);
    let m = as_map(entries_overlaid(&b, &[("iii.session.id", "inner"), ("new", "n"), ("new", "n2")]));
    assert_eq!(m["iii.session.id"], "inner");
    assert_eq!(m["keep"], "k");
    assert_eq!(m["new"], "n2");
    assert_eq!(m.len(), 3);
}
