use challenges::endpoints::cloze::ClozeAnswerError;
use challenges::text::{i64_to_string, is_whitespace, text_eq, u64_to_string};

#[test]
fn uuids_print_hyphenated_in_lower_case() {
    let id = uuid::Uuid::parse_str("A1A2A3A4-B1B2-C1C2-D1D2-D3D4D5D6D7D8").unwrap();
    assert_eq!(
        ClozeAnswerError::ForeignOption(id.as_u128()).message(),
        "Option a1a2a3a4-b1b2-c1c2-d1d2-d3d4d5d6d7d8 does not belong to this cloze."
    );
    assert_eq!(
        ClozeAnswerError::OptionReused(0).message(),
        "Option 00000000-0000-0000-0000-000000000000 was used more than once."
    );
}

#[test]
fn numbers_print_as_std_prints_them() {
    for n in [0u64, 7, 10, 99, 12345, u64::MAX] {
        assert_eq!(u64_to_string(n), n.to_string());
    }
    for n in [0i64, -1, 42, i64::MIN, i64::MAX] {
        assert_eq!(i64_to_string(n), n.to_string());
    }
}

#[test]
fn whitespace_is_unicode_whitespace() {
    for c in ['a', ' ', '\t', '\n', '\u{a0}', '\u{3000}', '\u{200b}', 'x', '\u{85}', '\u{2029}'] {
        assert_eq!(is_whitespace(c), c.is_whitespace(), "{c:?}");
    }
    assert!(text_eq("abc", "abc"));
    assert!(!text_eq("abc", "abd"));
    assert!(!text_eq("abc", "ab"));
}
