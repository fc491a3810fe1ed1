use mux_picker::sessions::{get_screen_sessions, get_sessions, get_tmux_sessions, get_zellij_sessions, sanitize, Multiplexer};
use mux_picker::text::{contains, lines_of, squeeze_spaces, trim_str};

fn names(v: &[mux_picker::sessions::Session]) -> Vec<String> {
    v.iter().map(|s| s.name.clone()).collect()
}

#[test]
fn tmux_two_sessions_first_attached() {
    let r = get_sessions(
        Multiplexer::Tmux,
        "myproj: 2 windows (attached) (UTF-8)\nother: 1 windows (UTF-8)\n",
    );
    assert_eq!(r.len(), 2);
    assert_eq!(r[0].name, "myproj: 2 windows (attached) (UTF-8)");
    assert!(!r[0].available);
    assert_eq!(r[1].name, "other: 1 windows (UTF-8)");
    assert!(r[1].available);
}

#[test]
fn tmux_empty_output_has_no_sessions() {
    assert!(get_tmux_sessions("").is_empty());
    assert!(get_sessions(Multiplexer::Tmux, "").is_empty());
}

#[test]
fn tmux_last_line_without_newline_is_kept() {
    let r = get_tmux_sessions("a: 1 windows\nb: 2 windows");
    assert_eq!(names(&r), vec!["a: 1 windows", "b: 2 windows"]);
}

#[test]
fn screen_sentinel_gives_no_sessions() {
    assert!(get_screen_sessions("No Sockets found in /run/screen/S-user.\n\n").is_empty());
    let noisy = "There are screens on:\n\t1.a\t(Detached)\nNo Sockets found in /run/screen/S-user.\nx\ny\n";
    assert!(get_sessions(Multiplexer::Screen, noisy).is_empty());
}

#[test]
fn screen_drops_header_and_trailer() {
    let raw = "There are screens on:\n\t1234.pts-0.host\t(Detached)\n\t5678.work\t(Attached)\n2 Sockets in /run/screen/S-user.\n";
    let r = get_sessions(Multiplexer::Screen, raw);
    assert_eq!(names(&r), vec!["1234.pts-0.host (Detached)", "5678.work (Attached)"]);
    assert!(r[0].available);
    assert!(!r[1].available);
}

#[test]
fn screen_short_output_has_no_sessions() {
    assert!(get_screen_sessions("only\none").is_empty());
}

#[test]
fn zellij_blank_output_has_no_sessions() {
    assert!(get_zellij_sessions("  \n").is_empty());
}

#[test]
fn zellij_every_session_available() {
    let r = get_sessions(Multiplexer::Zellij, "foo 1 2\nbar 3\n");
    assert_eq!(names(&r), vec!["foo 1 2", "bar 3"]);
    assert!(r.iter().all(|s| s.available));
}

#[test]
fn sanitize_removes_csi_sequences() {
    assert_eq!(sanitize("\x1b[1mbold\x1b[0m  text\tx"), "bold text x");
    assert_eq!(sanitize("\x1b[32;1mgreen\x1b[m"), "green");
}

#[test]
fn sanitize_removes_underscore_sequences() {
    assert_eq!(sanitize("\x1b_abc;def\\name"), "name");
}

#[test]
fn sanitize_leaves_no_escape_nor_double_space() {
    let out = sanitize("a\x1b[1m   b\x1b_x;y\\\t\tc");
    assert!(!out.contains('\x1b'));
    assert!(!out.contains("  "));
    assert_eq!(out, "a b c");
}

#[test]
fn sanitize_is_idempotent_on_examples() {
    for raw in ["\x1b[1mx\x1b[0m  y", "  lead\t\ttrail  ", "plain", ""] {
        let once = sanitize(raw);
        assert_eq!(sanitize(&once), once);
    }
}

#[test]
fn squeeze_collapses_tabs_and_spaces() {
    assert_eq!(squeeze_spaces("a \t  b\t"), "a b ");
    assert_eq!(squeeze_spaces(""), "");
}

#[test]
fn text_helpers() {
    assert!(contains("abc (attached)", "(attached)"));
    assert!(!contains("abc", "abcd"));
    assert!(contains("x", ""));
    assert_eq!(trim_str("\t a b \n"), "a b");
    assert_eq!(lines_of("a\n\nb\n"), vec!["a", "", "b", ""]);
    assert_eq!(lines_of(""), vec![""]);
}
