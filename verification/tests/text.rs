use bevy_slang::text::{chars_of, contains};

#[test]
fn chars_of_keeps_every_character_in_order() {
    assert_eq!(chars_of(""), Vec::<char>::new());
    assert_eq!(chars_of("ps_6"), vec!['p', 's', '_', '6']);
    assert_eq!(chars_of("é/ß.slang").len(), 9);
    assert_eq!(chars_of("é/ß")[2], 'ß');
}

#[test]
fn contains_finds_a_token_at_any_position() {
    assert!(contains("ps_6_0", "ps_"));
    assert!(contains("glsl_ps_450", "ps_"));
    assert!(contains("6_0ps_", "ps_"));
    assert!(contains("éps_", "ps_"));
}

#[test]
fn contains_rejects_a_text_without_the_token() {
    assert!(!contains("sm_6_0", "ps_"));
    assert!(!contains("ps", "ps_"));
    assert!(!contains("p_s_", "ps_"));
    assert!(!contains("", "ps_"));
    assert!(!contains("PS_6_0", "ps_"));
}

#[test]
fn contains_the_empty_token_everywhere() {
    assert!(contains("", ""));
    assert!(contains("sm_6_0", ""));
}

#[test]
fn contains_agrees_with_std() {
    let texts = ["", "a", "ab", "aab", "abab", "ps_vs_", "vs_ps_", "xxps", "ps_", "_sp"];
    let tokens = ["", "a", "b", "ab", "ba", "ps_", "vs_", "aab", "abab", "ababa"];
    for text in texts {
        for token in tokens {
            assert_eq!(contains(text, token), text.contains(token), "{text:?} {token:?}");
        }
    }
}
