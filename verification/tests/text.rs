use rattler_package_streaming::archive::CondaArchiveType;
use rattler_package_streaming::text::{
    contains, ends_with, eq_ignore_ascii_case, hex_text, parse_u64, same_text, u64_text,
};

#[test]
fn numbers_are_read_like_unsigned_integers() {
    for text in [
        "0", "7", "42", "007", "+5", "18446744073709551615", "18446744073709551616", "", "+", "-1",
        "-0", " 1", "1 ", "1_000", "0x10", "99999999999999999999999", "12a", "++1", "\u{0663}",
    ] {
        assert_eq!(parse_u64(text), text.parse::<u64>().ok(), "{}", text);
    }
    assert_eq!(parse_u64("18446744073709551615"), Some(u64::MAX));
    assert_eq!(parse_u64("18446744073709551616"), None);
}

#[test]
fn decimal_spellings_read_back() {
    for n in [0u64, 9, 10, 99, 100, 8388608, u64::MAX - 1, u64::MAX] {
        assert_eq!(u64_text(n), format!("{}", n));
        assert_eq!(parse_u64(&u64_text(n)), Some(n));
    }
}

#[test]
fn bytes_are_spelled_in_lower_case_hex() {
    assert_eq!(hex_text(&[]), "");
    assert_eq!(hex_text(&[0x00, 0x0f, 0xbe, 0xef, 0xff]), "000fbeefff");
    assert_ne!(hex_text(&[0x01, 0x23]), hex_text(&[0x12, 0x03]));
}

#[test]
fn case_of_ascii_letters_is_left_aside() {
    assert!(eq_ignore_ascii_case("Bytes", "bytes"));
    assert!(eq_ignore_ascii_case("BYTES", "bytes"));
    assert!(!eq_ignore_ascii_case("byte", "bytes"));
    assert!(!eq_ignore_ascii_case("bytez", "bytes"));
    assert!(!eq_ignore_ascii_case("@", "`"));
    assert!(!eq_ignore_ascii_case("\u{c4}", "\u{e4}"));
}

#[test]
fn searching_in_text() {
    assert!(contains("a needle in hay", "needle"));
    assert!(contains("nneedle", "needle"));
    assert!(contains("x", ""));
    assert!(!contains("needl", "needle"));
    assert!(!contains("need le", "needle"));
    assert!(ends_with("file.conda", ".conda"));
    assert!(!ends_with("file.conda2", ".conda"));
    assert!(same_text("file", "file"));
    assert!(!same_text("file", "files"));
    assert!(!same_text("file", "File"));
}

#[test]
fn archive_type_follows_the_ending() {
    assert_eq!(
        CondaArchiveType::try_from("/conda-forge/linux-64/python-3.12.7-hc5c86c4_0_cpython.conda"),
        Some(CondaArchiveType::Conda)
    );
    assert_eq!(
        CondaArchiveType::try_from("/win-64/python-3.11.0-hcf16a7b_0_cpython.tar.bz2"),
        Some(CondaArchiveType::TarBz2)
    );
    assert_eq!(CondaArchiveType::try_from("/win-64/python.tar.gz"), None);
    assert_eq!(CondaArchiveType::try_from("/win-64/python.CONDA"), None);
    assert_eq!(CondaArchiveType::try_from(""), None);
}
