use shell::text::{join_with, same_text, split_whitespace, white_space};

#[test]
fn white_space_is_unicode_white_space() {
    for u in 0u32..=0x10ffff {
        if let Some(c) = char::from_u32(u) {
            assert_eq!(white_space(c), c.is_whitespace(), "at {:#x}", u);
        }
    }
}

#[test]
fn split_whitespace_matches_std() {
    let samples = [
        "",
        " ",
        "a",
        "  a  b\tc\n",
        "x\u{85}y\u{2028}z\u{200b}w",
        "héllo wörld\u{3000}!",
        "\u{feff}a b",
    ];
    for s in samples {
        let expected: Vec<String> = s.split_whitespace().map(String::from).collect();
        assert_eq!(split_whitespace(s), expected, "for {:?}", s);
    }
}

#[test]
fn join_matches_std() {
    let parts: Vec<String> = vec!["a".into(), "".into(), "bc".into()];
    assert_eq!(join_with(&parts, " "), parts.join(" "));
    assert_eq!(join_with(&Vec::new(), ", "), "");
    assert_eq!(join_with(&vec!["x".to_string()], ", "), "x");
}

#[test]
fn same_text_compares_characters() {
    assert!(same_text("echo", "echo"));
    assert!(!same_text("echo", "ech"));
    assert!(!same_text("echo", "Echo"));
    assert!(same_text("", ""));
}
