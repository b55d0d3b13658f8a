use iceberg_rust::location::metadata_location;
use iceberg_rust::text::{chars_of, decimal_string, join, same_text, split, trim_start_matches};

fn strings(parts: &[&str]) -> Vec<String> {
    parts.iter().map(|part| part.to_string()).collect()
}

#[test]
fn split_cuts_at_every_separator() {
    assert_eq!(split("a.b.c", '.'), strings(&["a", "b", "c"]));
    assert_eq!(split("abc", '.'), strings(&["abc"]));
    assert_eq!(split("", '.'), strings(&[""]));
    assert_eq!(split(".", '.'), strings(&["", ""]));
    assert_eq!(split("a..b.", '.'), strings(&["a", "", "b", ""]));
    assert_eq!(split(".é.ü", '.'), strings(&["", "é", "ü"]));
}

#[test]
fn join_puts_the_separator_between_neighbours() {
    assert_eq!(join(&strings(&[]), "."), "");
    assert_eq!(join(&strings(&["a"]), "."), "a");
    assert_eq!(join(&strings(&["a", "b", "c"]), ", "), "a, b, c");
    assert_eq!(join(&strings(&["", ""]), "-"), "-");
}

#[test]
fn split_undoes_join() {
    let parts = strings(&["level1", "lével2", "3"]);
    assert_eq!(split(&join(&parts, "\u{1f}"), '\u{1f}'), parts);
}

#[test]
fn trim_start_matches_drops_every_leading_copy() {
    assert_eq!(trim_start_matches("identifier:db.t1", "identifier:"), "db.t1");
    assert_eq!(
        trim_start_matches("identifier:identifier:db.t1", "identifier:"),
        "db.t1"
    );
    assert_eq!(trim_start_matches("db.identifier:t1", "identifier:"), "db.identifier:t1");
    assert_eq!(trim_start_matches("identifier", "identifier:"), "identifier");
    assert_eq!(trim_start_matches("aaa", "a"), "");
    assert_eq!(trim_start_matches("abc", ""), "abc");
    assert_eq!(trim_start_matches("", "abc"), "");
}

#[test]
fn decimal_numerals() {
    assert_eq!(decimal_string(0), "0");
    assert_eq!(decimal_string(7), "7");
    assert_eq!(decimal_string(10), "10");
    assert_eq!(decimal_string(-1), "-1");
    assert_eq!(decimal_string(1234567890), "1234567890");
    assert_eq!(decimal_string(i64::MAX), "9223372036854775807");
    assert_eq!(decimal_string(i64::MIN), "-9223372036854775808");
}

#[test]
fn text_comparison_and_characters() {
    assert!(same_text("abc", "abc"));
    assert!(!same_text("abc", "abd"));
    assert!(!same_text("abc", "ab"));
    assert_eq!(chars_of("aé"), vec!['a', 'é']);
}

#[test]
fn metadata_location_names_version_and_token() {
    assert_eq!(
        metadata_location("s3://b/t", 12, "0123"),
        "s3://b/t/metadata/12-0123.metadata.json"
    );
    assert_eq!(
        metadata_location("", -3, ""),
        "/metadata/-3-.metadata.json"
    );
}
