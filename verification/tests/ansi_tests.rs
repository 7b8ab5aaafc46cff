use labalaba::ansi::strip_ansi;

#[test]
fn test_strip_ansi_sgr() {
    assert_eq!(strip_ansi("\x1b[31mred\x1b[0m"), "red");
}

#[test]
fn test_strip_ansi_plain_passthrough() {
    assert_eq!(strip_ansi("plain text"), "plain text");
}

#[test]
fn test_strip_ansi_multiple_codes() {
    assert_eq!(strip_ansi("\x1b[1m\x1b[32mok\x1b[0m done\x1b[0m"), "ok done");
}

#[test]
fn test_strip_ansi_osc_and_utf8() {
    // OSC title sequence terminated by BEL, plus a multibyte char preserved.
    assert_eq!(strip_ansi("\x1b]0;title\x07caf\u{e9}"), "caf\u{e9}");
}

#[test]
fn strip_ansi_osc_terminated_by_string_terminator() {
    assert_eq!(strip_ansi("a\x1b]2;t\x1b\\b"), "ab");
}

#[test]
fn strip_ansi_two_byte_escape_drops_next_byte() {
    assert_eq!(strip_ansi("x\x1bcy"), "xy");
}

#[test]
fn strip_ansi_trailing_escape_is_dropped() {
    assert_eq!(strip_ansi("end\x1b"), "end");
    assert_eq!(strip_ansi("end\x1b[12"), "end");
}

#[test]
fn strip_ansi_is_idempotent_on_examples() {
    for s in ["\x1b[31mred\x1b[0m", "plain", "\x1b]0;t\x07x", "a\x1bcb"] {
        let once = strip_ansi(s);
        assert_eq!(strip_ansi(&once), once);
        assert!(!once.contains('\x1b'));
    }
}

#[test]
fn strip_ansi_keeps_multibyte_text_intact() {
    let out = strip_ansi("\x1b[1mcaf\u{e9} \u{2713} \u{1f600}\x1b[0m");
    assert_eq!(out, "caf\u{e9} \u{2713} \u{1f600}");
    assert!(!out.contains('\u{fffd}'));
}

#[test]
fn strip_ansi_of_escape_before_multibyte_char_leaves_no_escape() {
    let once = strip_ansi("a\x1b\u{e9}b");
    assert_eq!(once, "a\u{fffd}b");
    assert!(!once.contains('\x1b'));
    assert_eq!(strip_ansi(&once), once);
}
