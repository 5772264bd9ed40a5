use archgrep::{
    archive_search_pattern, extract_args, invert_bytes, invert_in_place, list_args, plan_archive,
    plan_extractions, single_output_path, tree_pattern, widened_mode, EntryFilter, Extraction,
    SelectionCriterion,
};

fn names(v: &[&str]) -> Vec<String> {
    v.iter().map(|s| s.to_string()).collect()
}

#[test]
fn whole_archive_is_extracted_once() {
    for n in [1usize, 2, 5] {
        let matched: Vec<String> = (0..n).map(|i| format!("f{}", i)).collect();
        let plan = plan_extractions(&matched, true);
        assert_eq!(plan.len(), 1);
        assert!(matches!(plan[0], Extraction::All));
    }
    assert!(plan_extractions(&Vec::new(), true).is_empty());
}

#[test]
fn single_mode_extracts_each_match() {
    let plan = plan_extractions(&names(&["a", "b/c", "a"]), false);
    let got: Vec<String> = plan
        .iter()
        .map(|x| match x {
            Extraction::One(e) => e.clone(),
            Extraction::All => panic!("whole-archive extraction in single mode"),
        })
        .collect();
    assert_eq!(got, names(&["a", "b/c", "a"]));
}

#[test]
fn archive_plan_uses_the_filter() {
    let f = EntryFilter::new(&SelectionCriterion::from_options("secret", ".*")).unwrap();
    let entries = names(&["readme.txt", "data/secret.bin", "secret2"]);
    assert_eq!(plan_archive(&f, &entries, true).len(), 1);
    assert_eq!(plan_archive(&f, &entries, false).len(), 2);
    assert!(plan_archive(&f, &names(&["readme.txt"]), true).is_empty());
}

#[test]
fn list_arguments() {
    assert_eq!(list_args("a.7z", ""), names(&["l", "-r", "-ba", "a.7z"]));
    assert_eq!(list_args("a.7z", "pw"), names(&["l", "-r", "-ba", "-ppw", "a.7z"]));
}

#[test]
fn extract_arguments() {
    let one = Extraction::One("data/secret.bin".to_string());
    assert_eq!(
        extract_args("a.7z", &one, "out", ""),
        names(&["e", "a.7z", "data/secret.bin", "-y", "-oout"])
    );
    assert_eq!(
        extract_args("a.7z", &one, "out", "pw"),
        names(&["e", "a.7z", "data/secret.bin", "-ppw", "-y", "-oout"])
    );
    assert_eq!(
        extract_args("a.7z", &Extraction::All, "out", ""),
        names(&["x", "a.7z", "-y", "-oout"])
    );
    assert_eq!(
        extract_args("a.7z", &Extraction::All, "out", "pw"),
        names(&["x", "a.7z", "-ppw", "-y", "-oout"])
    );
}

#[test]
fn single_output_is_named_after_base_name() {
    assert_eq!(single_output_path("out", "data/secret.bin"), "out/secret.bin");
    assert_eq!(single_output_path("out", "readme.txt"), "out/readme.txt");
    assert_eq!(single_output_path(".", "a\\b\\c.txt"), "./c.txt");
}

#[test]
fn search_patterns() {
    assert_eq!(archive_search_pattern("root", false), "root/**/*.7z");
    assert_eq!(archive_search_pattern("root/a.7z", true), "root/a.7z");
    assert_eq!(tree_pattern("out"), "out/**");
}

#[test]
fn inversion_flips_every_bit() {
    assert_eq!(invert_bytes(vec![0x00, 0xff, 0x0f, 0xa5]), vec![0xff, 0x00, 0xf0, 0x5a]);
    assert!(invert_bytes(Vec::new()).is_empty());
}

#[test]
fn inversion_twice_restores_content() {
    let content: Vec<u8> = (0..=255u8).chain(b"hello".iter().copied()).collect();
    let mut c = content.clone();
    invert_in_place(&mut c);
    assert_ne!(c, content);
    invert_in_place(&mut c);
    assert_eq!(c, content);
}

#[test]
fn widened_mode_only_adds_permissions() {
    assert_eq!(widened_mode(0o444), 0o666);
    assert_eq!(widened_mode(0o755), 0o777);
    assert_eq!(widened_mode(0o100400), 0o100666);
    assert_eq!(widened_mode(0o000), 0o666);
}
