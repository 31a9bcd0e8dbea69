use windows_board::error::BoardError;
use windows_board::herdr::focus_failure_quoting;
use windows_board::error::quoted_text;
use windows_board::text::{
    decimal_text, hex_text, replace_text, signed_decimal_text, text_contains, text_less, trim_text, white,
    without_last_char,
};

#[test]
fn trims_unicode_whitespace() {
    assert_eq!(trim_text("  \t hello world \n"), "hello world");
    assert_eq!(trim_text("\u{3000}x\u{a0}"), "x");
    assert_eq!(trim_text("   "), "");
    assert!(white('\u{2028}'));
    assert!(!white('x'));
}

#[test]
fn replaces_every_occurrence_left_to_right() {
    assert_eq!(replace_text("{title} / {title}", "{title}", "T"), "T / T");
    assert_eq!(replace_text("aaa", "aa", "b"), "ba");
    assert_eq!(replace_text("none here", "{x}", "y"), "none here");
}

#[test]
fn contains_finds_substrings() {
    assert!(text_contains("agent_not_ready: booting", "agent_not_ready"));
    assert!(!text_contains("agent not ready", "agent_not_ready"));
    assert!(text_contains("abc", ""));
}

#[test]
fn numbers_render_like_display() {
    assert_eq!(decimal_text(0), "0");
    assert_eq!(decimal_text(18446744073709551615), "18446744073709551615");
    assert_eq!(signed_decimal_text(-42), "-42");
    assert_eq!(signed_decimal_text(i64::MIN), "-9223372036854775808");
    assert_eq!(hex_text(0), "0");
    assert_eq!(hex_text(0x1a2b), "1a2b");
}

#[test]
fn quoting_escapes_like_debug() {
    assert_eq!(quoted_text("a\"b\\c\n"), "\"a\\\"b\\\\c\\n\"");
    assert_eq!(quoted_text("plain"), format!("{:?}", "plain"));
}

#[test]
fn code_point_order_and_last_char() {
    assert!(text_less("Zeta", "alpha"));
    assert!(text_less("ab", "abc"));
    assert!(!text_less("abc", "abc"));
    assert_eq!(without_last_char("héé"), "hé");
    assert_eq!(without_last_char(""), "");
}

#[test]
fn quoting_escapes_control_characters_like_debug() {
    for code in (0u32..0x20).chain(0x7f..0xa0) {
        let c = char::from_u32(code).unwrap();
        let s = format!("a{c}b");
        assert_eq!(quoted_text(&s), format!("{s:?}"), "{code:#x}");
    }
    assert_eq!(quoted_text("esc\u{1b}"), "\"esc\\u{1b}\"");
    assert_eq!(quoted_text("caf\u{e9} 'q'"), format!("{:?}", "caf\u{e9} 'q'"));
}

#[test]
fn quoting_follows_debug_for_invisible_and_combining_characters() {
    for s in ["zero\u{200b}width", "e\u{301}", "\u{301}lead", "soft\u{ad}hyphen", "bidi\u{202e}", "tab\tq\"'"] {
        assert_eq!(quoted_text(s), format!("{s:?}"));
    }
}

#[test]
fn messages_compose_around_the_quoted_fields() {
    let e = BoardError::PaneGone { pane_id: "p".into(), id: "c".into() };
    assert_eq!(e.message_quoting("<P>", "<C>"), "linked pane <P> for card <C> no longer exists");
    assert_eq!(e.message(), "linked pane \"p\" for card \"c\" no longer exists");
    let e = BoardError::CardNotFound { id: "a\u{200b}b".into() };
    assert_eq!(e.message(), format!("card {:?} not found", "a\u{200b}b"));
    assert_eq!(
        focus_failure_quoting("<P>", "a", "b"),
        "could not focus pane <P> (agent focus: a; plugin pane focus: b)"
    );
}
