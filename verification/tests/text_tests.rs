use batch_image_processing::text::{decimal_string, to_ascii_lowercase, trimmed};

#[test]
fn decimal_formatting_matches_display() {
    for n in [0usize, 7, 10, 99, 100, 4096, 1234567890, usize::MAX] {
        assert_eq!(decimal_string(n), n.to_string());
    }
}

#[test]
fn trimming_matches_str_trim() {
    for s in ["", "   ", " a ", "\u{2003}82\u{3000}", "x\ty", "\n\r 12 \u{85}"] {
        assert_eq!(trimmed(s), s.trim());
    }
}

#[test]
fn lowercasing_matches_to_ascii_lowercase() {
    for s in ["JPG", "JpEg", "png", "ÄBC", "", "Z9-"] {
        assert_eq!(to_ascii_lowercase(s), s.to_ascii_lowercase());
    }
}
