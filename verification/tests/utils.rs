use rust_net_protocols::utils::{compose_status, status_line};

#[test]
fn good_status_trims_label_and_returns_carriage() {
    assert_eq!(compose_status("  hello \t", true, "ok"), "hello [ok]\r");
}

#[test]
fn bad_status_keeps_label_and_ends_line() {
    assert_eq!(compose_status("  cmd ", false, "no"), "  cmd  [no]\n");
}

#[test]
fn trim_uses_unicode_white_space() {
    assert_eq!(compose_status("\u{3000}x\u{a0}", true, "t"), "x [t]\r");
}

#[test]
fn status_line_shows_word() {
    let s = status_line(" addr ", true);
    assert!(s.starts_with("addr ["));
    assert!(s.contains("ok"));
    assert!(s.ends_with("]\r"));
    let s = status_line("x", false);
    assert!(s.starts_with("x ["));
    assert!(s.contains("no"));
    assert!(s.ends_with("]\n"));
}

#[test]
fn status_tag_is_plain_or_bold_coloured() {
    let s = status_line("addr", true);
    assert!(s == "addr [ok]\r" || s == "addr [\u{1b}[1;32mok\u{1b}[0m]\r", "{:?}", s);
    let s = status_line("cmd", false);
    assert!(s == "cmd [no]\n" || s == "cmd [\u{1b}[1;33mno\u{1b}[0m]\n", "{:?}", s);
}
