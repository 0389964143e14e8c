use speq::order::{name_comes_first, sorted_order};
use speq::text::{
    extract_ref_name, glue, glue3, i64_text, join, push_decimal, starts_with, usize_text,
};

#[test]
fn counts_in_decimal() {
    assert_eq!(usize_text(0), "0");
    assert_eq!(usize_text(7), "7");
    assert_eq!(usize_text(10), "10");
    assert_eq!(usize_text(255), "255");
    assert_eq!(usize_text(1_000_000), "1000000");
    assert_eq!(usize_text(usize::MAX), usize::MAX.to_string());
}

#[test]
fn signed_numbers_in_decimal() {
    assert_eq!(i64_text(0), "0");
    assert_eq!(i64_text(42), "42");
    assert_eq!(i64_text(-1), "-1");
    assert_eq!(i64_text(-120), "-120");
    assert_eq!(i64_text(i64::MAX), "9223372036854775807");
    assert_eq!(i64_text(i64::MIN), "-9223372036854775808");
}

#[test]
fn push_decimal_appends() {
    let mut out = String::from("n=");
    push_decimal(&mut out, 18_446_744_073_709_551_615);
    assert_eq!(out, "n=18446744073709551615");
}

#[test]
fn last_piece_of_a_reference() {
    assert_eq!(extract_ref_name("#/components/schemas/Pet"), "Pet");
    assert_eq!(extract_ref_name("Pet"), "Pet");
    assert_eq!(extract_ref_name(""), "");
    assert_eq!(extract_ref_name("a/b/"), "");
    assert_eq!(extract_ref_name("/x"), "x");
    assert_eq!(extract_ref_name("other.yaml#/defs/Caf\u{e9}"), "Caf\u{e9}");
}

#[test]
fn prefixes() {
    assert!(starts_with("3.1.0", "3.1"));
    assert!(starts_with("3.1", "3.1"));
    assert!(!starts_with("3.", "3.1"));
    assert!(!starts_with("3.0.3", "3.1"));
    assert!(starts_with("anything", ""));
    assert!(!starts_with("", "2."));
}

#[test]
fn joining() {
    let none: Vec<String> = Vec::new();
    assert_eq!(join(&none, ", "), "");
    assert_eq!(join(&vec!["a".to_string()], ", "), "a");
    assert_eq!(
        join(&vec!["a".to_string(), "b".to_string(), "c".to_string()], " \u{b7} "),
        "a \u{b7} b \u{b7} c"
    );
    assert_eq!(glue("min: ", "3"), "min: 3");
    assert_eq!(glue3("[", "0", "]"), "[0]");
}

#[test]
fn names_compare_by_their_bytes() {
    assert!(name_comes_first("Error", "NewPet"));
    assert!(!name_comes_first("NewPet", "Error"));
    assert!(name_comes_first("Pet", "Pets"));
    assert!(!name_comes_first("Pets", "Pet"));
    assert!(name_comes_first("Pet", "Pet"));
    assert!(name_comes_first("", "a"));
    assert!(name_comes_first("Z", "a"));
    assert!(!name_comes_first("a", "Z"));
    assert!(name_comes_first("z", "\u{e9}"));
}

#[test]
fn order_is_stable_and_ascending() {
    let names: Vec<String> = ["Pets", "Error", "Pet", "NewPet"]
        .iter()
        .map(|s| s.to_string())
        .collect();
    assert_eq!(sorted_order(&names), vec![1, 3, 2, 0]);
    let twice: Vec<String> = ["b", "a", "b", "a"].iter().map(|s| s.to_string()).collect();
    assert_eq!(sorted_order(&twice), vec![1, 3, 0, 2]);
    let none: Vec<String> = Vec::new();
    assert!(sorted_order(&none).is_empty());
}
