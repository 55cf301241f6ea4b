use shard_elect::text::{
    chars_of, same_text, split_at_first, strip_prefix_or_keep, trim_end_of, trim_of, trim_start_of,
    Pattern,
};

#[test]
fn white_space_is_that_of_the_standard_library() {
    for u in 0..=0x10ffffu32 {
        if let Some(c) = char::from_u32(u) {
            assert_eq!(Pattern::WhiteSpace.is_match(c), c.is_whitespace(), "{u:x}");
        }
    }
}

#[test]
fn trimming_agrees_with_the_standard_library() {
    for s in ["", ".", "..", "a", "a.", ".a..", "a.b..", "\u{e4}..", "\"a\"", "\"\"", "\"", "a\"b"] {
        assert_eq!(trim_end_of(s, Pattern::Char('.')), s.trim_end_matches('.'));
        assert_eq!(trim_start_of(s, Pattern::Char('.')), s.trim_start_matches('.'));
        assert_eq!(trim_of(s, Pattern::Char('"')), s.trim_matches('"'));
    }
    for s in ["", " ", "\u{a0} x \t y\u{3000}\n", "\u{200b}x\u{200b}"] {
        assert_eq!(trim_of(s, Pattern::WhiteSpace), s.trim());
    }
}

#[test]
fn splitting_agrees_with_the_standard_library() {
    for s in ["", " ", "a", "a ", " a", "a b c", "\u{e4} \u{1f600} "] {
        assert_eq!(split_at_first(s, ' '), s.split_once(' '));
    }
}

#[test]
fn prefix_is_stripped_once() {
    let p = "/hostedzone/";
    for s in ["", "/hosted", "/hostedzone/", "/hostedzone/Z1", "/hostedzone//hostedzone/Z1", "Z1",
        "x/hostedzone/Z1", "/HostedZone/Z1"]
    {
        assert_eq!(strip_prefix_or_keep(s, p), s.strip_prefix(p).unwrap_or(s));
    }
}

#[test]
fn characters_and_equality() {
    assert_eq!(chars_of("a\u{e4}\u{1f600}"), vec!['a', '\u{e4}', '\u{1f600}']);
    assert!(same_text("ab", "ab"));
    assert!(!same_text("ab", "aB"));
    assert!(!same_text("ab", "abc"));
}
