use mux_picker::directory::{get_session_from_string, Directory};
use mux_picker::resolver::{check_if_available, check_if_new, connect_to_session, create_new_session, Step, NEW_SESSION};
use mux_picker::sessions::{Multiplexer, Session};

fn session(name: &str, available: bool) -> Session {
    Session { name: name.to_string(), available }
}

#[test]
fn display_strings_keep_listing_order() {
    let d = Directory::new(Multiplexer::Tmux, "a: 1 windows\nb: 2 windows (attached)\n");
    assert_eq!(d.display_strings(), vec!["a: 1 windows", "b: 2 windows (attached)"]);
}

#[test]
fn resolve_round_trip_each_backend() {
    let cases = [
        (Multiplexer::Tmux, "alpha: 1 windows\nbeta: 2 windows (attached)\n"),
        (Multiplexer::Screen, "There are screens on:\n\t11.alpha\t(Detached)\n\t22.beta\t(Attached)\n2 Sockets in /tmp.\n"),
        (Multiplexer::Zellij, "alpha [Created 1h ago]\nbeta [Created 2h ago]\n"),
    ];
    for (m, raw) in cases {
        let d = Directory::new(m, raw);
        assert_eq!(d.sessions.len(), 2);
        for (i, shown) in d.display_strings().iter().enumerate() {
            let s = d.resolve(shown).expect("a shown entry resolves");
            assert_eq!(s.name, d.sessions[i].name);
            assert_eq!(s.available, d.sessions[i].available);
        }
    }
}

#[test]
fn resolve_unknown_selection_fails() {
    let d = Directory::new(Multiplexer::Tmux, "alpha: 1 windows\n");
    assert!(d.resolve("gamma: 3 windows").is_none());
    let sessions = vec![session("11.alpha (Detached)", true)];
    assert!(get_session_from_string(Multiplexer::Screen, &sessions, "99.zeta").is_none());
}

#[test]
fn resolve_takes_first_containing_name() {
    let sessions = vec![session("ba: 1 windows", true), session("a: 2 windows", false)];
    let s = get_session_from_string(Multiplexer::Tmux, &sessions, "a: 2 windows").unwrap();
    assert_eq!(s.name, "ba: 1 windows");
}

#[test]
fn new_session_entry_creates_without_lookup() {
    let empty = Directory { multiplexer: Multiplexer::Screen, sessions: Vec::new() };
    assert!(matches!(check_if_new(&empty, NEW_SESSION), Some(Step::Create)));
    let full = Directory::new(Multiplexer::Tmux, "New session: 1 windows (attached)\n");
    assert!(matches!(check_if_new(&full, "New session"), Some(Step::Create)));
}

#[test]
fn end_to_end_tmux_warn_then_attach() {
    let d = Directory::new(Multiplexer::Tmux, "a:1: 1 windows (attached)\nb:1: 1 windows\n");
    let shown = d.display_strings();
    assert_eq!(shown.len(), 2);
    match check_if_new(&d, &shown[0]) {
        Some(Step::Warn(s)) => {
            assert_eq!(s.name, "a:1: 1 windows (attached)");
            let inv = connect_to_session(d.multiplexer, &s);
            assert_eq!(inv.program, "tmux");
            assert_eq!(inv.args, vec!["attach", "-t", "a"]);
        }
        _ => panic!("an attached session warns first"),
    }
    match check_if_new(&d, &shown[1]) {
        Some(Step::Attach(s)) => {
            let inv = connect_to_session(d.multiplexer, &s);
            assert_eq!(inv.program, "tmux");
            assert_eq!(inv.args, vec!["attach", "-t", "b"]);
        }
        _ => panic!("a free session is attached directly"),
    }
}

#[test]
fn lookup_of_unknown_selection_is_none() {
    let d = Directory::new(Multiplexer::Zellij, "alpha\n");
    assert!(check_if_available(&d, "omega").is_none());
    assert!(check_if_new(&d, "omega").is_none());
}

#[test]
fn attach_arguments_per_backend() {
    let screen = connect_to_session(Multiplexer::Screen, &session("1234.pts-0.host (Detached)", true));
    assert_eq!(screen.program, "screen");
    assert_eq!(screen.args, vec!["-rD", "1234"]);
    let zellij = connect_to_session(Multiplexer::Zellij, &session("work [Created 3m ago]", true));
    assert_eq!(zellij.program, "zellij");
    assert_eq!(
        zellij.args,
        vec!["options", "--mirror-session", "false", "--attach-to-session", "true", "--session-name", "work"]
    );
}

#[test]
fn create_is_the_bare_program() {
    for (m, p) in [(Multiplexer::Tmux, "tmux"), (Multiplexer::Screen, "screen"), (Multiplexer::Zellij, "zellij")] {
        let inv = create_new_session(m);
        assert_eq!(inv.program, p);
        assert!(inv.args.is_empty());
    }
}
