use vaultsearch::classify::{
    classify, classify_name, classify_sample, classify_size, is_probably_binary, is_text_extension_str,
    is_text_like, Classification, SkipReason, BINARY_SNIFF_BYTES, MAX_FILE_SIZE_BYTES,
};

#[test]
fn text_names_are_recognised() {
    assert!(is_text_like("notes.txt"));
    assert!(is_text_like("todo.md"));
    assert!(is_text_like("archive.tar.json"));
    assert!(is_text_like(".hidden.rs"));
    assert!(is_text_like("Cargo.lock"));
}

#[test]
fn extension_match_ignores_case() {
    assert!(is_text_like("README.MD"));
    assert!(is_text_like("Script.Ps1"));
    assert!(is_text_extension_str("TXT"));
    assert!(is_text_extension_str("Html"));
}

#[test]
fn names_without_text_extension_are_refused() {
    assert!(!is_text_like("Makefile"));
    assert!(!is_text_like(".bashrc"));
    assert!(!is_text_like("photo.png"));
    assert!(!is_text_like("notes.txt.bak"));
    assert!(!is_text_like("trailing."));
    assert!(!is_text_like(""));
    assert!(!is_text_extension_str("tx"));
    assert!(!is_text_extension_str("txtx"));
}

#[test]
fn unsupported_extension_is_the_verdict_for_other_names() {
    assert_eq!(
        classify_name("image.jpeg"),
        Some(Classification::Skip(SkipReason::UnsupportedExtension))
    );
    assert_eq!(classify_name("main.rs"), None);
}

#[test]
fn size_ceiling_is_inclusive() {
    assert_eq!(classify_size(Some(MAX_FILE_SIZE_BYTES)), None);
    assert_eq!(
        classify_size(Some(MAX_FILE_SIZE_BYTES + 1)),
        Some(Classification::Skip(SkipReason::TooLarge))
    );
    assert_eq!(classify_size(Some(0)), None);
    assert_eq!(classify_size(None), Some(Classification::Skip(SkipReason::ReadError)));
}

#[test]
fn size_boundary_through_full_classification() {
    let sample = b"plain text".to_vec();
    assert_eq!(
        classify("big.txt", Some(5_000_000), Some(&sample)),
        Classification::Include
    );
    assert_eq!(
        classify("big.txt", Some(5_000_001), Some(&sample)),
        Classification::Skip(SkipReason::TooLarge)
    );
}

#[test]
fn single_nul_byte_marks_binary() {
    let mut sample = vec![b'a'; BINARY_SNIFF_BYTES];
    sample[BINARY_SNIFF_BYTES - 1] = 0;
    assert!(is_probably_binary(&sample));
    assert_eq!(
        classify("data.txt", Some(10_000), Some(&sample)),
        Classification::Skip(SkipReason::BinaryContent)
    );
}

#[test]
fn invalid_utf8_marks_binary() {
    let sample = vec![b'o', b'k', 0xff, 0xfe];
    assert!(is_probably_binary(&sample));
    assert_eq!(
        classify_sample(Some(&sample)),
        Classification::Skip(SkipReason::BinaryContent)
    );
}

#[test]
fn clean_text_is_not_binary() {
    assert!(!is_probably_binary("héllo wörld\n".as_bytes()));
    assert!(!is_probably_binary(b""));
    assert_eq!(classify_sample(Some(b"fine")), Classification::Include);
}

#[test]
fn unreadable_sample_is_a_read_error() {
    assert_eq!(classify_sample(None), Classification::Skip(SkipReason::ReadError));
    assert_eq!(
        classify("notes.txt", Some(12), None),
        Classification::Skip(SkipReason::ReadError)
    );
}

#[test]
fn name_is_checked_before_size_and_content() {
    assert_eq!(
        classify("movie.mkv", Some(9_000_000), None),
        Classification::Skip(SkipReason::UnsupportedExtension)
    );
    assert_eq!(
        classify("log.log", None, Some(b"\0")),
        Classification::Skip(SkipReason::ReadError)
    );
}

#[test]
fn ceiling_sized_ascii_file_is_included() {
    let sample = vec![b'a'; BINARY_SNIFF_BYTES];
    assert_eq!(
        classify("exact.txt", Some(MAX_FILE_SIZE_BYTES), Some(&sample)),
        Classification::Include
    );
}
