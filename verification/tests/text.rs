use imgsearch::text::{contains_text, decimal_string, dedup, ends_with, zero_padded_string};

fn strings(texts: &[&str]) -> Vec<String> {
    texts.iter().map(|t| t.to_string()).collect()
}

#[test]
fn numbers_are_written_in_decimal() {
    assert_eq!(decimal_string(0), "0");
    assert_eq!(decimal_string(7), "7");
    assert_eq!(decimal_string(10), "10");
    assert_eq!(decimal_string(1234567890), "1234567890");
    assert_eq!(decimal_string(u64::MAX), "18446744073709551615");
}

#[test]
fn short_numbers_are_filled_up_with_zeros() {
    assert_eq!(zero_padded_string(0, 4), "0000");
    assert_eq!(zero_padded_string(5, 4), "0005");
    assert_eq!(zero_padded_string(123, 4), "0123");
    assert_eq!(zero_padded_string(1234, 4), "1234");
    assert_eq!(zero_padded_string(12345, 4), "12345");
    assert_eq!(zero_padded_string(9, 0), "9");
    assert_eq!(zero_padded_string(9, 1), "9");
}

#[test]
fn a_suffix_is_found_at_the_end_only() {
    assert!(ends_with("photo.png", "png"));
    assert!(ends_with("photo.png", ""));
    assert!(ends_with("png", "png"));
    assert!(ends_with("", ""));
    assert!(!ends_with("photo.png.txt", "png"));
    assert!(!ends_with("ng", "png"));
    assert!(!ends_with("", "png"));
    assert!(ends_with("grüße", "üße"));
    assert!(!ends_with("grüße", "usse"));
}

#[test]
fn repetitions_are_dropped_where_they_occur_again() {
    assert_eq!(dedup(&strings(&["b", "a", "b", "c", "a", "b"])), strings(&["b", "a", "c"]));
    assert_eq!(dedup(&strings(&["x"])), strings(&["x"]));
    assert!(dedup(&Vec::new()).is_empty());
    assert!(contains_text(&strings(&["a", "b"]), &"b".to_string()));
    assert!(!contains_text(&strings(&["a", "b"]), &"c".to_string()));
    assert!(!contains_text(&Vec::new(), &"".to_string()));
}
