use vstd::prelude::*;

use crate::directory::{Directory, resolved, unresolvable};
use crate::sessions::{Multiplexer, Session, identity, identity_delimiter};
use crate::text::before_str;

verus! {

/// The entry shown after the sessions, which asks for a new session.
pub const NEW_SESSION: &'static str = "New session";

/// The text of the new-session entry.
pub open spec fn new_session_marker() -> Seq<char> {
    "New session"@
}

/// What to do with a selection.
#[derive(Clone, Debug)]
pub enum Step {
    /// Start the multiplexer's default session.
    Create,
    /// The session has a client already: ask before attaching to it.
    Warn(Session),
    /// Attach to the session.
    Attach(Session),
}

/// The step that a resolved session leads to.
pub open spec fn step_for(s: Session) -> Step {
    if s.available {
        Step::Attach(s)
    } else {
        Step::Warn(s)
    }
}

/// Looks a selection up in the directory: a session that has a client gives a warning
/// first, a free one is attached to; `None` where the selection names no session.
pub fn check_if_available(directory: &Directory, selection: &str) -> (r: Option<Step>)
    ensures
        r is None ==> unresolvable(directory.multiplexer, directory.sessions@, selection@),
        r is Some ==> exists|s: Session|
            #![trigger step_for(s)]
            resolved(directory.multiplexer, directory.sessions@, selection@, Some(s))
                && r->0 == step_for(s),
{
    let found = directory.resolve(selection);
    match found {
        None => {
            assert(resolved(directory.multiplexer, directory.sessions@, selection@, found));
            None
        },
        Some(s) => {
            let ghost g = s;
            assert(resolved(directory.multiplexer, directory.sessions@, selection@, Some(g)));
            let step = if !s.available {
                Step::Warn(s)
            } else {
                Step::Attach(s)
            };
            assert(step == step_for(g));
            Some(step)
        },
    }
}

/// Decides what a selection leads to: the new-session entry creates a session without
/// looking at the directory; any other selection is looked up.
pub fn check_if_new(directory: &Directory, selection: &str) -> (r: Option<Step>)
    ensures
        selection@ == new_session_marker() ==> r == Some(Step::Create),
        selection@ != new_session_marker() && r is None ==> unresolvable(
            directory.multiplexer,
            directory.sessions@,
            selection@,
        ),
        selection@ != new_session_marker() && r is Some ==> exists|s: Session|
            #![trigger step_for(s)]
            resolved(directory.multiplexer, directory.sessions@, selection@, Some(s))
                && r->0 == step_for(s),
{
    if str_eq(selection, NEW_SESSION) {
        Some(Step::Create)
    } else {
        check_if_available(directory, selection)
    }
}

/// Returns whether `a` and `b` hold the same characters.
pub fn str_eq(a: &str, b: &str) -> (r: bool)
    ensures
        r == (a@ == b@),
{
    let n: usize = a.unicode_len();
    if n != b.unicode_len() {
        return false;
    }
    let mut i: usize = 0;
    while i < n
        invariant
            n == a@.len(),
            n == b@.len(),
            i <= n,
            forall|k: int| 0 <= k < i ==> a@[k] == b@[k],
        decreases n - i,
    {
        if a.get_char(i) != b.get_char(i) {
            return false;
        }
        i = i + 1;
    }
    assert(a@ =~= b@);
    true
}

/// A program to run and its arguments.
pub struct Invocation {
    pub program: String,
    pub args: Vec<String>,
}

/// The arguments of an invocation, as text.
pub open spec fn arg_views(inv: Invocation) -> Seq<Seq<char>> {
    inv.args@.map_values(|a: String| a@)
}

/// The program of a multiplexer.
pub open spec fn program_of(m: Multiplexer) -> Seq<char> {
    match m {
        Multiplexer::Tmux => "tmux"@,
        Multiplexer::Screen => "screen"@,
        Multiplexer::Zellij => "zellij"@,
    }
}

/// The arguments that attach a multiplexer to the session with identity `id`.
pub open spec fn attach_args(m: Multiplexer, id: Seq<char>) -> Seq<Seq<char>> {
    match m {
        Multiplexer::Tmux => seq!["attach"@, "-t"@, id],
        Multiplexer::Screen => seq!["-rD"@, id],
        Multiplexer::Zellij => seq![
            "options"@,
            "--mirror-session"@,
            "false"@,
            "--attach-to-session"@,
            "true"@,
            "--session-name"@,
            id,
        ],
    }
}

fn program(m: Multiplexer) -> (r: String)
    ensures
        r@ == program_of(m),
{
    match m {
        Multiplexer::Tmux => String::from_str("tmux"),
        Multiplexer::Screen => String::from_str("screen"),
        Multiplexer::Zellij => String::from_str("zellij"),
    }
}

/// The invocation that starts a multiplexer's default session: its program, bare.
pub fn create_new_session(m: Multiplexer) -> (r: Invocation)
    ensures
        r.program@ == program_of(m),
        r.args@.len() == 0,
{
    Invocation { program: program(m), args: Vec::new() }
}

/// The invocation that attaches to `session`, addressed by the identity its name starts
/// with.
pub fn connect_to_session(m: Multiplexer, session: &Session) -> (r: Invocation)
    ensures
        r.program@ == program_of(m),
        arg_views(r) == attach_args(m, identity(m, session.name@)),
{
    let id = String::from_str(before_str(session.name.as_str(), identity_delimiter(m)));
    let mut args: Vec<String> = Vec::new();
    match m {
        Multiplexer::Tmux => {
            args.push(String::from_str("attach"));
            args.push(String::from_str("-t"));
            args.push(id);
        },
        Multiplexer::Screen => {
            args.push(String::from_str("-rD"));
            args.push(id);
        },
        Multiplexer::Zellij => {
            args.push(String::from_str("options"));
            args.push(String::from_str("--mirror-session"));
            args.push(String::from_str("false"));
            args.push(String::from_str("--attach-to-session"));
            args.push(String::from_str("true"));
            args.push(String::from_str("--session-name"));
            args.push(id);
        },
    }
    let r = Invocation { program: program(m), args };
    assert(arg_views(r) =~= attach_args(m, identity(m, session.name@)));
    r
}

} // verus!
