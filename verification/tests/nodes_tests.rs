use avail_light::nodes::{shuffle_full_nodes, Version};

fn version(version: &str, spec_version: u32, spec_name: &str) -> Version {
    Version {
        version: version.to_string(),
        spec_version,
        spec_name: spec_name.to_string(),
    }
}

// The prefix rule tolerates patch-level differences in the software
// version, but spec name and spec version must agree exactly.
#[test]
fn version_matching_prefix_rule() {
    let reported = version("1.2.3", 5, "avail");
    let expected = version("1.2", 5, "avail");
    assert!(reported.matches(&expected));
    assert!(expected.matches(&reported));

    let wrong_spec = version("1.2", 6, "avail");
    assert!(!reported.matches(&wrong_spec));

    let wrong_name = version("1.2", 5, "data-avail");
    assert!(!reported.matches(&wrong_name));
}

#[test]
fn version_matching_non_prefix() {
    let a = version("1.2.3", 5, "avail");
    let b = version("1.3", 5, "avail");
    assert!(!a.matches(&b));
    let same = version("1.2.3", 5, "avail");
    assert!(a.matches(&same));
    let empty = version("", 5, "avail");
    assert!(a.matches(&empty)); // the empty string is a prefix of all
}

fn count_of(nodes: &[String], x: &str) -> usize {
    nodes.iter().filter(|n| n.as_str() == x).count()
}

// With a previously used node among the candidates, the result keeps
// the same endpoints, with the previously used one moved to the end.
#[test]
fn shuffle_moves_last_used_to_end() {
    let full: Vec<String> = ["a", "b", "c"].iter().map(|s| s.to_string()).collect();
    for _ in 0..20 {
        let shuffled = shuffle_full_nodes(&full, Some("b".to_string()));
        assert_eq!(shuffled.len(), 3);
        assert_eq!(shuffled.last().map(String::as_str), Some("b"));
        for node in ["a", "b", "c"] {
            assert_eq!(count_of(&shuffled, node), 1);
        }
    }
}

// With no previously used node the result is a permutation of the
// whole list.
#[test]
fn shuffle_without_last_is_permutation() {
    let full: Vec<String> = ["a", "b", "c", "b"].iter().map(|s| s.to_string()).collect();
    for _ in 0..20 {
        let shuffled = shuffle_full_nodes(&full, None);
        assert_eq!(shuffled.len(), 4);
        assert_eq!(count_of(&shuffled, "a"), 1);
        assert_eq!(count_of(&shuffled, "b"), 2);
        assert_eq!(count_of(&shuffled, "c"), 1);
    }
}

// A previously used node that is not in the list changes nothing about
// the entries.
#[test]
fn shuffle_with_unknown_last_used() {
    let full: Vec<String> = ["a", "b", "c"].iter().map(|s| s.to_string()).collect();
    let shuffled = shuffle_full_nodes(&full, Some("zzz".to_string()));
    assert_eq!(shuffled.len(), 3);
    for node in ["a", "b", "c"] {
        assert_eq!(count_of(&shuffled, node), 1);
    }
    assert_eq!(count_of(&shuffled, "zzz"), 0);
}

// Every copy of the previously used node is removed before one copy is
// appended at the end.
#[test]
fn shuffle_collapses_duplicate_last_used() {
    let full: Vec<String> = ["a", "b", "a", "c"].iter().map(|s| s.to_string()).collect();
    let shuffled = shuffle_full_nodes(&full, Some("a".to_string()));
    assert_eq!(shuffled.len(), 3);
    assert_eq!(shuffled.last().map(String::as_str), Some("a"));
    assert_eq!(count_of(&shuffled, "a"), 1);
    assert_eq!(count_of(&shuffled, "b"), 1);
    assert_eq!(count_of(&shuffled, "c"), 1);
}
