use vstd::prelude::*;

use crate::sessions::{Multiplexer, Session, get_sessions, identity, identity_delimiter, listed_sessions};
use crate::text::{before, before_str, contains, contains_seq, occurs_at};

verus! {

/// `k` is the first position in `sessions` whose name holds the identity of `selection`.
pub open spec fn resolves_to(
    m: Multiplexer,
    sessions: Seq<Session>,
    selection: Seq<char>,
    k: int,
) -> bool {
    &&& 0 <= k < sessions.len()
    &&& contains_seq(sessions[k].name@, identity(m, selection))
    &&& forall|j: int| 0 <= j < k ==> !contains_seq(#[trigger] sessions[j].name@, identity(m, selection))
}

/// No name in `sessions` holds the identity of `selection`.
pub open spec fn unresolvable(m: Multiplexer, sessions: Seq<Session>, selection: Seq<char>) -> bool {
    forall|j: int| 0 <= j < sessions.len() ==> !contains_seq(#[trigger] sessions[j].name@, identity(m, selection))
}

/// `r` is what resolving `selection` against `sessions` gives: the first session whose
/// name holds the selection's identity, or `None` where there is none.
pub open spec fn resolved(
    m: Multiplexer,
    sessions: Seq<Session>,
    selection: Seq<char>,
    r: Option<Session>,
) -> bool {
    match r {
        None => unresolvable(m, sessions, selection),
        Some(s) => exists|k: int|
            #![trigger sessions[k]]
            resolves_to(m, sessions, selection, k) && s.name@ == sessions[k].name@ && s.available
                == sessions[k].available,
    }
}

/// Finds the first session whose name holds the identity that `screen_name` starts with.
pub fn get_session_from_string(
    multiplexer: Multiplexer,
    sessions: &Vec<Session>,
    screen_name: &str,
) -> (r: Option<Session>)
    ensures
        resolved(multiplexer, sessions@, screen_name@, r),
{
    let id = before_str(screen_name, identity_delimiter(multiplexer));
    let mut k: usize = 0;
    while k < sessions.len()
        invariant
            id@ == identity(multiplexer, screen_name@),
            k <= sessions.len(),
            forall|j: int|
                0 <= j < k ==> !contains_seq(#[trigger] sessions@[j].name@, id@),
        decreases sessions.len() - k,
    {
        if contains(sessions[k].name.as_str(), id) {
            let s = Session { name: sessions[k].name.clone(), available: sessions[k].available };
            assert(resolves_to(multiplexer, sessions@, screen_name@, k as int));
            return Some(s);
        }
        k = k + 1;
    }
    None
}

/// The sessions of one multiplexer, listed once and read afterwards.
pub struct Directory {
    pub multiplexer: Multiplexer,
    pub sessions: Vec<Session>,
}

impl Directory {
    /// Builds the directory of the sessions that `raw`, a listing of `multiplexer`, holds.
    pub fn new(multiplexer: Multiplexer, raw: &str) -> (r: Directory)
        ensures
            r.multiplexer == multiplexer,
            listed_sessions(multiplexer, raw@, r.sessions@),
    {
        Directory { multiplexer, sessions: get_sessions(multiplexer, raw) }
    }

    /// The names of the sessions, in listing order, as they are shown.
    pub fn display_strings(&self) -> (r: Vec<String>)
        ensures
            r.len() == self.sessions.len(),
            forall|i: int| 0 <= i < r.len() ==> (#[trigger] r@[i])@ == self.sessions@[i].name@,
    {
        let mut out: Vec<String> = Vec::new();
        let mut k: usize = 0;
        while k < self.sessions.len()
            invariant
                k <= self.sessions.len(),
                out.len() == k,
                forall|i: int| 0 <= i < out.len() ==> (#[trigger] out@[i])@ == self.sessions@[i].name@,
            decreases self.sessions.len() - k,
        {
            out.push(self.sessions[k].name.clone());
            k = k + 1;
        }
        out
    }

    /// The session that a shown string stands for: the first one whose name holds the
    /// string's identity; `None` where no name holds it.
    pub fn resolve(&self, selection: &str) -> (r: Option<Session>)
        ensures
            resolved(self.multiplexer, self.sessions@, selection@, r),
    {
        get_session_from_string(self.multiplexer, &self.sessions, selection)
    }
}

proof fn lemma_before_is_prefix(s: Seq<char>, d: char)
    ensures
        before(s, d).len() <= s.len(),
        before(s, d) == s.take(before(s, d).len() as int),
    decreases s.len(),
{
    if s.len() > 0 && s[0] != d {
        lemma_before_is_prefix(s.drop_first(), d);
        assert(before(s, d) =~= s.take(before(s, d).len() as int));
    } else if s.len() > 0 {
        assert(before(s, d) =~= s.take(0));
    } else {
        assert(s.take(0) =~= s);
    }
}

/// A name holds its own identity.
pub proof fn lemma_name_holds_identity(m: Multiplexer, name: Seq<char>)
    ensures
        contains_seq(name, identity(m, name)),
{
    let d = crate::sessions::delimiter(m);
    lemma_before_is_prefix(name, d);
    assert(name.subrange(0, before(name, d).len() as int) =~= before(name, d));
    assert(occurs_at(name, identity(m, name), 0));
}

/// Resolving the shown name of the session at `i` finds that session, provided no
/// earlier session's name holds its identity.
pub proof fn lemma_resolve_round_trip(m: Multiplexer, sessions: Seq<Session>, i: int)
    requires
        0 <= i < sessions.len(),
        forall|j: int|
            0 <= j < i ==> !contains_seq(
                #[trigger] sessions[j].name@,
                identity(m, sessions[i].name@),
            ),
    ensures
        resolves_to(m, sessions, sessions[i].name@, i),
        forall|r: Option<Session>|
            resolved(m, sessions, sessions[i].name@, r) ==> r is Some && (r->0).name@
                == sessions[i].name@ && (r->0).available == sessions[i].available,
{
    lemma_name_holds_identity(m, sessions[i].name@);
    assert forall|r: Option<Session>|
        resolved(m, sessions, sessions[i].name@, r) implies r is Some && (r->0).name@
            == sessions[i].name@ && (r->0).available == sessions[i].available by {
        if r is Some {
            let k = choose|k: int|
                #![trigger sessions[k]]
                resolves_to(m, sessions, sessions[i].name@, k) && (r->0).name@ == sessions[k].name@
                    && (r->0).available == sessions[k].available;
            if k < i {
                assert(!contains_seq(sessions[k].name@, identity(m, sessions[i].name@)));
            }
            if k > i {
                assert(!contains_seq(sessions[i].name@, identity(m, sessions[i].name@)));
            }
        } else {
            assert(!contains_seq(sessions[i].name@, identity(m, sessions[i].name@)));
        }
    }
}

} // verus!
