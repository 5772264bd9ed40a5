use archgrep::{plan_listing, EntryFilter, SelectionCriterion};

fn filter(term: &str, regex: &str) -> EntryFilter {
    EntryFilter::new(&SelectionCriterion::from_options(term, regex)).unwrap()
}

fn names(v: &[&str]) -> Vec<String> {
    v.iter().map(|s| s.to_string()).collect()
}

#[test]
fn term_takes_priority_over_regex() {
    assert!(matches!(
        SelectionCriterion::from_options("secret", "^x$"),
        SelectionCriterion::Term(t) if t == "secret"
    ));
    assert!(matches!(
        SelectionCriterion::from_options("", "^x$"),
        SelectionCriterion::Pattern(p) if p == "^x$"
    ));
}

#[test]
fn term_matches_substrings() {
    let f = filter("secret", ".*");
    assert!(f.is_match("data/secret.bin"));
    assert!(f.is_match("secret"));
    assert!(!f.is_match("readme.txt"));
    assert!(!f.is_match("data/SECRET.bin"));
}

#[test]
fn term_agrees_with_wrapped_pattern() {
    let by_term = filter("secret", "");
    let by_regex = filter("", ".*secret.*");
    for name in ["data/secret.bin", "readme.txt", "secrets", "secre", ""] {
        assert_eq!(by_term.is_match(name), by_regex.is_match(name));
    }
}

#[test]
fn regex_matches_anywhere() {
    let f = filter("", r"\.bin$");
    assert!(f.is_match("data/secret.bin"));
    assert!(!f.is_match("data/secret.bin.txt"));
    let all = filter("", ".*");
    assert!(all.is_match(""));
    assert!(all.is_match("anything at all"));
}

#[test]
fn invalid_pattern_is_a_configuration_error() {
    let e = EntryFilter::new(&SelectionCriterion::from_options("", "(")).unwrap_err();
    assert_eq!(e.pattern, "(");
    assert!(!e.reason.is_empty());
    let t = EntryFilter::new(&SelectionCriterion::from_options("(", ".*")).unwrap_err();
    assert_eq!(t.pattern, ".*(.*");
}

#[test]
fn selection_keeps_order_and_duplicates() {
    let f = filter("a", "");
    let entries = names(&["a/x", "b", "c/a", "a/x"]);
    assert_eq!(f.select_entries(&entries), names(&["a/x", "c/a", "a/x"]));
}

#[test]
fn term_selects_from_each_archive() {
    let a = "2024-01-15 10:30:00 ....A 10 5 readme.txt\n2024-01-15 10:30:00 ....A 20 9 data/secret.bin\n";
    let b = "2024-01-15 10:30:00 ....A 10 5 notes.md\n2024-01-15 10:30:00 ....A 30 9 img/photo.png\n";
    let f = filter("secret", ".*");
    let pa = plan_listing(&f, true, a, false, false);
    let pb = plan_listing(&f, true, b, false, false);
    assert_eq!(pa.matched, names(&["data/secret.bin"]));
    assert!(pb.matched.is_empty());
    assert!(pa.extractions.is_empty());
}

#[test]
fn failed_listing_plans_nothing() {
    let f = filter("", ".*");
    let p = plan_listing(&f, false, "2024-01-15 10:30:00 ....A 10 5 readme.txt\n", true, true);
    assert!(p.matched.is_empty());
    assert!(p.extractions.is_empty());
}
