use vstd::prelude::*;

use crate::text::{
    before, contains, contains_seq, is_squeezed, lemma_squeeze_shape, lines_of, split_lines,
    squeeze, squeeze_spaces, trim, trim_str,
};

verus! {

/// The terminal multiplexers that sessions can be listed from and attached to.
#[derive(Clone, Copy, Debug, PartialEq, Eq, Structural)]
pub enum Multiplexer {
    Tmux,
    Screen,
    Zellij,
}

/// One session as a multiplexer listed it.
#[derive(Clone, Debug)]
pub struct Session {
    /// The listed line, cleaned of escape sequences and doubled spaces.
    pub name: String,
    /// Whether attaching would not detach another client.
    pub available: bool,
}

/// The character that ends a session's identity in its name.
pub open spec fn delimiter(m: Multiplexer) -> char {
    match m {
        Multiplexer::Tmux => ':',
        Multiplexer::Screen => '.',
        Multiplexer::Zellij => ' ',
    }
}

/// Returns the character that ends a session's identity in its name.
pub fn identity_delimiter(m: Multiplexer) -> (r: char)
    ensures
        r == delimiter(m),
{
    match m {
        Multiplexer::Tmux => ':',
        Multiplexer::Screen => '.',
        Multiplexer::Zellij => ' ',
    }
}

/// The identity that a name addresses: its part before the multiplexer's delimiter.
pub open spec fn identity(m: Multiplexer, name: Seq<char>) -> Seq<char> {
    before(name, delimiter(m))
}

/// The escape character that starts every terminal control sequence.
pub open spec fn esc() -> char {
    '\u{1B}'
}

/// What removing every ANSI escape sequence from `s` leaves.
pub uninterp spec fn ansi_stripped(s: Seq<char>) -> Seq<char>;

/// An ESC followed by a CSI sequence (`[`, parameter and intermediate bytes, a final
/// byte in `@`..=`~`) or by an `_`-introduced sequence ended by a backslash.
pub const ANSI_ESCAPE_PATTERN: &'static str = "\x1B(?:\\[[0-?]*[- /]*[@-~]|_[^\\\\]*;[^\\\\]*\\\\)";

/// Relies on `regex::Regex::new`, which compiles `pattern` (the escape-sequence pattern,
/// which is valid), and `regex::Regex::replace_all` with an empty replacement: every
/// match is removed. Each match starts with ESC, so a text without ESC comes back as it is.
#[verifier::external_body]
fn remove_ansi_escape_codes(pattern: &str, s: &str) -> (r: String)
    requires
        pattern@ == ANSI_ESCAPE_PATTERN@,
    ensures
        r@ == ansi_stripped(s@),
        !s@.contains(esc()) ==> r@ == s@,
{
    let re = regex::Regex::new(pattern).unwrap();
    re.replace_all(s, "").into_owned()
}

/// The cleaned form of a listed line: escape sequences removed, then spaces squeezed.
pub open spec fn sanitized(s: Seq<char>) -> Seq<char> {
    squeeze(ansi_stripped(s))
}

/// Removes escape sequences from `raw`, turns tabs into spaces and squeezes runs of
/// spaces into one.
pub fn sanitize(raw: &str) -> (r: String)
    ensures
        r@ == sanitized(raw@),
        is_squeezed(r@),
        !raw@.contains(esc()) ==> r@ == squeeze(raw@),
{
    let stripped = remove_ansi_escape_codes(ANSI_ESCAPE_PATTERN, raw);
    let r = squeeze_spaces(stripped.as_str());
    proof {
        lemma_squeeze_shape(stripped@);
    }
    r
}

/// The phrase that `screen -ls` prints when it has no session.
pub open spec fn no_sockets_phrase() -> Seq<char> {
    "No Sockets found in"@
}

/// The marker of a tmux session that a client is attached to.
pub open spec fn attached_marker() -> Seq<char> {
    "(attached)"@
}

/// The marker of a screen session that no client is attached to.
pub open spec fn detached_marker() -> Seq<char> {
    "(Detached)"@
}

/// The lines of a listing that describe sessions, before any trimming.
pub open spec fn listed_lines(m: Multiplexer, raw: Seq<char>) -> Seq<Seq<char>> {
    match m {
        Multiplexer::Tmux => {
            if raw.len() == 0 {
                Seq::empty()
            } else if split_lines(raw).last().len() == 0 {
                split_lines(raw).drop_last()
            } else {
                split_lines(raw)
            }
        },
        Multiplexer::Screen => {
            if contains_seq(raw, no_sockets_phrase()) || split_lines(raw).len() < 3 {
                Seq::empty()
            } else {
                split_lines(raw).subrange(1, split_lines(raw).len() - 2)
            }
        },
        Multiplexer::Zellij => {
            if trim(raw).len() == 0 {
                Seq::empty()
            } else {
                split_lines(trim(raw))
            }
        },
    }
}

/// The name that a listed line gives, before sanitising.
pub open spec fn raw_name(m: Multiplexer, line: Seq<char>) -> Seq<char> {
    match m {
        Multiplexer::Screen => trim(line),
        _ => line,
    }
}

/// Whether a session listed under `name` may be attached without detaching a client.
pub open spec fn is_available(m: Multiplexer, name: Seq<char>) -> bool {
    match m {
        Multiplexer::Tmux => !contains_seq(name, attached_marker()),
        Multiplexer::Screen => contains_seq(name, detached_marker()),
        Multiplexer::Zellij => true,
    }
}

/// `r` holds one session per listed line of `raw`, in order, named by the raw line.
pub open spec fn parsed_from(m: Multiplexer, raw: Seq<char>, r: Seq<Session>) -> bool {
    &&& r.len() == listed_lines(m, raw).len()
    &&& forall|i: int|
        0 <= i < r.len() ==> {
            &&& (#[trigger] r[i]).name@ == raw_name(m, listed_lines(m, raw)[i])
            &&& r[i].available == is_available(m, raw_name(m, listed_lines(m, raw)[i]))
        }
}

/// Builds one session per line of `lines[lo..hi]`.
fn sessions_of_lines(m: Multiplexer, lines: &Vec<String>, lo: usize, hi: usize) -> (r: Vec<
    Session,
>)
    requires
        lo <= hi <= lines.len(),
    ensures
        r.len() == hi - lo,
        forall|i: int|
            0 <= i < r.len() ==> {
                &&& (#[trigger] r@[i]).name@ == raw_name(m, lines@[lo + i]@)
                &&& r@[i].available == is_available(m, raw_name(m, lines@[lo + i]@))
            },
{
    let mut out: Vec<Session> = Vec::new();
    let mut k: usize = lo;
    while k < hi
        invariant
            lo <= k <= hi <= lines.len(),
            out.len() == k - lo,
            forall|i: int|
                0 <= i < out.len() ==> {
                    &&& (#[trigger] out@[i]).name@ == raw_name(m, lines@[lo + i]@)
                    &&& out@[i].available == is_available(m, raw_name(m, lines@[lo + i]@))
                },
        decreases hi - k,
    {
        let line: &str = lines[k].as_str();
        let session = match m {
            Multiplexer::Tmux => {
                let attached = contains(line, "(attached)");
                Session { name: String::from_str(line), available: !attached }
            },
            Multiplexer::Screen => {
                let trimmed = trim_str(line);
                let detached = contains(trimmed, "(Detached)");
                Session { name: String::from_str(trimmed), available: detached }
            },
            Multiplexer::Zellij => Session { name: String::from_str(line), available: true },
        };
        out.push(session);
        k = k + 1;
    }
    out
}

/// Parses the output of `tmux list-sessions`: one session per line (a final empty line
/// is not one), unavailable where the line holds `(attached)`.
pub fn get_tmux_sessions(raw: &str) -> (r: Vec<Session>)
    ensures
        parsed_from(Multiplexer::Tmux, raw@, r@),
{
    if raw.unicode_len() == 0 {
        return Vec::new();
    }
    let lines = lines_of(raw);
    proof {
        crate::text::lemma_split_lines_nonempty(raw@);
    }
    let mut hi: usize = lines.len();
    if lines[hi - 1].unicode_len() == 0 {
        hi = hi - 1;
    }
    sessions_of_lines(Multiplexer::Tmux, &lines, 0, hi)
}

/// Parses the output of `screen -ls`: nothing where it holds `No Sockets found in`;
/// else the lines between the first one and the last two, trimmed, available where
/// they hold `(Detached)`.
pub fn get_screen_sessions(raw: &str) -> (r: Vec<Session>)
    ensures
        parsed_from(Multiplexer::Screen, raw@, r@),
        contains_seq(raw@, no_sockets_phrase()) ==> r@.len() == 0,
{
    if contains(raw, "No Sockets found in") {
        return Vec::new();
    }
    let lines = lines_of(raw);
    if lines.len() < 3 {
        return Vec::new();
    }
    sessions_of_lines(Multiplexer::Screen, &lines, 1, lines.len() - 2)
}

/// Parses the output of `zellij ls`: nothing where it is blank, else one session per
/// line of the trimmed text, each available.
pub fn get_zellij_sessions(raw: &str) -> (r: Vec<Session>)
    ensures
        parsed_from(Multiplexer::Zellij, raw@, r@),
{
    let trimmed = trim_str(raw);
    if trimmed.unicode_len() == 0 {
        return Vec::new();
    }
    let lines = lines_of(trimmed);
    sessions_of_lines(Multiplexer::Zellij, &lines, 0, lines.len())
}

/// `r` holds the sessions that `raw` lists for `m`, in order, each name sanitised.
pub open spec fn listed_sessions(m: Multiplexer, raw: Seq<char>, r: Seq<Session>) -> bool {
    &&& r.len() == listed_lines(m, raw).len()
    &&& forall|i: int|
        0 <= i < r.len() ==> {
            &&& (#[trigger] r[i]).name@ == sanitized(raw_name(m, listed_lines(m, raw)[i]))
            &&& r[i].available == is_available(m, raw_name(m, listed_lines(m, raw)[i]))
        }
}

/// Parses a session listing of `m` and sanitises each session's name.
pub fn get_sessions(multiplexer: Multiplexer, raw: &str) -> (r: Vec<Session>)
    ensures
        listed_sessions(multiplexer, raw@, r@),
        forall|i: int| 0 <= i < r.len() ==> is_squeezed((#[trigger] r@[i]).name@),
{
    let sessions = match multiplexer {
        Multiplexer::Tmux => get_tmux_sessions(raw),
        Multiplexer::Screen => get_screen_sessions(raw),
        Multiplexer::Zellij => get_zellij_sessions(raw),
    };
    let mut out: Vec<Session> = Vec::new();
    let mut k: usize = 0;
    while k < sessions.len()
        invariant
            parsed_from(multiplexer, raw@, sessions@),
            k <= sessions.len(),
            out.len() == k,
            forall|i: int|
                0 <= i < out.len() ==> {
                    &&& (#[trigger] out@[i]).name@ == sanitized(sessions@[i].name@)
                    &&& out@[i].available == sessions@[i].available
                    &&& is_squeezed(out@[i].name@)
                },
        decreases sessions.len() - k,
    {
        let name = sanitize(sessions[k].name.as_str());
        out.push(Session { name, available: sessions[k].available });
        k = k + 1;
    }
    proof {
        assert forall|i: int| 0 <= i < out.len() implies (#[trigger] out@[i]).name@ == sanitized(
            raw_name(multiplexer, listed_lines(multiplexer, raw@)[i]),
        ) by {
            assert(sessions@[i].name@ == raw_name(
                multiplexer,
                listed_lines(multiplexer, raw@)[i],
            ));
        }
    }
    out
}

} // verus!
