use archgrep::{parse_listing, parse_row, try_to_tokenize_lines};

const README_ROW: &str = "2024-01-15 10:30:00 ....A         1024          512  readme.txt";
const SECRET_ROW: &str = "2024-01-15 10:30:00 ....A         2048         1024  data/secret.bin";

fn chars(s: &str) -> Vec<char> {
    s.chars().collect()
}

#[test]
fn row_gives_last_field() {
    assert_eq!(parse_row(&chars(README_ROW)), Some("readme.txt".to_string()));
}

#[test]
fn row_with_too_few_fields_is_skipped() {
    assert_eq!(parse_row(&chars("2024-01-15 10:30:00 ....A 1024 512")), None);
    assert_eq!(parse_row(&chars("------------------- -----")), None);
    assert_eq!(parse_row(&chars("")), None);
    assert_eq!(parse_row(&chars("   \t  ")), None);
}

#[test]
fn row_name_keeps_inner_whitespace() {
    let row = "2024-01-15 10:30:00 ....A  10  5  my  big file.txt   ";
    assert_eq!(parse_row(&chars(row)), Some("my  big file.txt".to_string()));
}

#[test]
fn row_name_loses_enclosing_quotes() {
    let row = "2024-01-15 10:30:00 ....A 10 5 \"quoted name.txt\"";
    assert_eq!(parse_row(&chars(row)), Some("quoted name.txt".to_string()));
    let inner = "2024-01-15 10:30:00 ....A 10 5 say\"hi\".txt";
    assert_eq!(parse_row(&chars(inner)), Some("say\"hi\".txt".to_string()));
}

#[test]
fn row_with_tabs_and_unicode() {
    let row = "2024-01-15\t10:30:00\t....A\t10\t5\tdonn\u{e9}es/r\u{e9}sum\u{e9}.txt";
    assert_eq!(parse_row(&chars(row)), Some("donn\u{e9}es/r\u{e9}sum\u{e9}.txt".to_string()));
}

#[test]
fn listing_keeps_rows_in_order_and_skips_the_rest() {
    let text = format!(
        "header line\n{}\n-----\n{}\n\n2024-01-15 10:30:00 D.... 0\n{}\n",
        SECRET_ROW, README_ROW, SECRET_ROW
    );
    let names = parse_listing(&text);
    assert_eq!(names, vec!["data/secret.bin", "readme.txt", "data/secret.bin"]);
}

#[test]
fn listing_counts_rows_and_skipped_lines() {
    let good = 4;
    let bad = 3;
    let mut text = String::new();
    for i in 0..good {
        text.push_str(&format!("2024-01-15 10:30:00 ....A 1 1 f{}.bin\n", i));
        if i < bad {
            text.push_str("not a row\n");
        }
    }
    let names = parse_listing(&text);
    assert_eq!(names.len(), good);
    assert_eq!(text.lines().count() - names.len(), bad);
    assert_eq!(names, vec!["f0.bin", "f1.bin", "f2.bin", "f3.bin"]);
}

#[test]
fn listing_handles_crlf_and_missing_final_break() {
    let text = format!("{}\r\n{}", README_ROW, SECRET_ROW);
    assert_eq!(parse_listing(&text), vec!["readme.txt", "data/secret.bin"]);
}

#[test]
fn empty_listing_has_no_entries() {
    assert!(parse_listing("").is_empty());
    assert!(parse_listing("\n\n").is_empty());
}

#[test]
fn failed_listing_yields_no_entries() {
    let text = format!("{}\n", README_ROW);
    assert!(try_to_tokenize_lines(false, &text).is_empty());
    assert_eq!(try_to_tokenize_lines(true, &text), vec!["readme.txt"]);
}
