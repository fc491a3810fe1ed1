use vstd::prelude::*;

verus! {

/// `p` occurs in `s` at position `i`.
pub open spec fn occurs_at(s: Seq<char>, p: Seq<char>, i: int) -> bool {
    0 <= i && i + p.len() <= s.len() && s.subrange(i, i + p.len()) == p
}

/// `p` occurs somewhere in `s` as a contiguous substring.
pub open spec fn contains_seq(s: Seq<char>, p: Seq<char>) -> bool {
    exists|i: int| occurs_at(s, p, i)
}

/// Returns whether `p` occurs in `s`.
pub fn contains(s: &str, p: &str) -> (r: bool)
    ensures
        r == contains_seq(s@, p@),
{
    let n: usize = s.unicode_len();
    let m: usize = p.unicode_len();
    if m > n {
        assert forall|i: int| !occurs_at(s@, p@, i) by {}
        return false;
    }
    let mut i: usize = 0;
    while i <= n - m
        invariant
            n == s@.len(),
            m == p@.len(),
            m <= n,
            forall|k: int| 0 <= k < i ==> !occurs_at(s@, p@, k),
        decreases n - m + 1 - i,
    {
        let mut j: usize = 0;
        let mut same: bool = true;
        while j < m
            invariant
                n == s@.len(),
                m == p@.len(),
                i + m <= n,
                j <= m,
                same == (forall|k: int| 0 <= k < j ==> s@[i + k] == p@[k]),
            decreases m - j,
        {
            if s.get_char(i + j) != p.get_char(j) {
                same = false;
            }
            j = j + 1;
        }
        if same {
            assert(s@.subrange(i as int, i + m) =~= p@);
            assert(occurs_at(s@, p@, i as int));
            return true;
        }
        assert(s@.subrange(i as int, i + m)[0] == s@[i as int + 0]);
        assert(!occurs_at(s@, p@, i as int)) by {
            if occurs_at(s@, p@, i as int) {
                assert forall|k: int| 0 <= k < m implies s@[i + k] == p@[k] by {
                    assert(s@.subrange(i as int, i + m)[k] == s@[i + k]);
                }
            }
        }
        i = i + 1;
    }
    assert forall|k: int| !occurs_at(s@, p@, k) by {
        if 0 <= k < i {
        }
    }
    false
}

/// The characters that `char::is_whitespace` accepts (Unicode White_Space).
pub open spec fn is_ws(c: char) -> bool {
    c == '\t' || c == '\n' || c == '\u{0B}' || c == '\u{0C}' || c == '\r' || c == ' '
        || c == '\u{85}' || c == '\u{A0}' || c == '\u{1680}' || ('\u{2000}' <= c
        && c <= '\u{200A}') || c == '\u{2028}' || c == '\u{2029}' || c == '\u{202F}'
        || c == '\u{205F}' || c == '\u{3000}'
}

fn is_whitespace(c: char) -> (r: bool)
    ensures
        r == is_ws(c),
{
    c == '\t' || c == '\n' || c == '\u{0B}' || c == '\u{0C}' || c == '\r' || c == ' '
        || c == '\u{85}' || c == '\u{A0}' || c == '\u{1680}' || ('\u{2000}' <= c
        && c <= '\u{200A}') || c == '\u{2028}' || c == '\u{2029}' || c == '\u{202F}'
        || c == '\u{205F}' || c == '\u{3000}'
}

/// `s` without its leading whitespace.
pub open spec fn trim_start(s: Seq<char>) -> Seq<char>
    decreases s.len(),
{
    if s.len() > 0 && is_ws(s[0]) {
        trim_start(s.drop_first())
    } else {
        s
    }
}

/// `s` without its trailing whitespace.
pub open spec fn trim_end(s: Seq<char>) -> Seq<char>
    decreases s.len(),
{
    if s.len() > 0 && is_ws(s.last()) {
        trim_end(s.drop_last())
    } else {
        s
    }
}

/// `s` without leading and trailing whitespace.
pub open spec fn trim(s: Seq<char>) -> Seq<char> {
    trim_end(trim_start(s))
}

/// Returns `s` without leading and trailing whitespace.
pub fn trim_str(s: &str) -> (r: &str)
    ensures
        r@ == trim(s@),
{
    let n: usize = s.unicode_len();
    let mut a: usize = 0;
    assert(s@.subrange(0, n as int) =~= s@);
    while a < n && is_whitespace(s.get_char(a))
        invariant
            n == s@.len(),
            a <= n,
            trim_start(s@) == trim_start(s@.subrange(a as int, n as int)),
        decreases n - a,
    {
        assert(s@.subrange(a as int, n as int).drop_first() =~= s@.subrange(a + 1, n as int));
        a = a + 1;
    }
    assert(trim_start(s@) == s@.subrange(a as int, n as int));
    let mut b: usize = n;
    while b > a && is_whitespace(s.get_char(b - 1))
        invariant
            n == s@.len(),
            a <= b <= n,
            trim(s@) == trim_end(s@.subrange(a as int, b as int)),
        decreases b - a,
    {
        assert(s@.subrange(a as int, b as int).drop_last() =~= s@.subrange(a as int, b - 1));
        b = b - 1;
    }
    s.substring_char(a, b)
}

/// The lines of `s`, split at each `'\n'` as `str::split` does: `k` newlines give `k + 1`
/// lines, the last one empty when `s` ends with a newline.
pub open spec fn split_lines(s: Seq<char>) -> Seq<Seq<char>>
    decreases s.len(),
{
    if s.len() == 0 {
        seq![Seq::<char>::empty()]
    } else {
        let r = split_lines(s.drop_last());
        if s.last() == '\n' {
            r.push(Seq::<char>::empty())
        } else {
            r.update(r.len() - 1, r.last().push(s.last()))
        }
    }
}

pub proof fn lemma_split_lines_nonempty(s: Seq<char>)
    ensures
        split_lines(s).len() >= 1,
    decreases s.len(),
{
    if s.len() > 0 {
        lemma_split_lines_nonempty(s.drop_last());
    }
}

/// Returns the lines of `s` (see `split_lines`).
pub fn lines_of(s: &str) -> (r: Vec<String>)
    ensures
        r@.map_values(|l: String| l@) == split_lines(s@),
{
    let n: usize = s.unicode_len();
    let mut out: Vec<String> = Vec::new();
    let mut start: usize = 0;
    let mut i: usize = 0;
    assert(out@.map_values(|l: String| l@) =~= Seq::<Seq<char>>::empty());
    assert(s@.subrange(0, 0) =~= Seq::<char>::empty());
    assert(out@.map_values(|l: String| l@).push(s@.subrange(0, 0)) =~= seq![Seq::<char>::empty()]);
    assert(s@.take(0) =~= Seq::<char>::empty());
    while i < n
        invariant
            n == s@.len(),
            start <= i <= n,
            out@.map_values(|l: String| l@).push(s@.subrange(start as int, i as int))
                == split_lines(s@.take(i as int)),
        decreases n - i,
    {
        proof {
            lemma_split_lines_nonempty(s@.take(i as int));
            assert(s@.take(i + 1).drop_last() =~= s@.take(i as int));
        }
        let ghost prev = out@.map_values(|l: String| l@);
        let c = s.get_char(i);
        assert(s@.take(i + 1).last() == c);
        if c == '\n' {
            let line = String::from_str(s.substring_char(start, i));
            out.push(line);
            assert(out@.map_values(|l: String| l@) =~= prev.push(line@));
            assert(s@.subrange(i + 1, i + 1) =~= Seq::<char>::empty());
            assert(out@.map_values(|l: String| l@).push(s@.subrange(i + 1, i + 1))
                =~= split_lines(s@.take(i + 1)));
            start = i + 1;
        } else {
            assert(s@.subrange(start as int, i as int).push(c) =~= s@.subrange(start as int, i + 1));
            assert(prev.push(s@.subrange(start as int, i + 1))
                =~= split_lines(s@.take(i + 1)));
        }
        i = i + 1;
    }
    let ghost prev = out@.map_values(|l: String| l@);
    let last = String::from_str(s.substring_char(start, n));
    out.push(last);
    assert(out@.map_values(|l: String| l@) =~= prev.push(last@));
    assert(s@.take(n as int) =~= s@);
    assert(out@.map_values(|l: String| l@) =~= split_lines(s@));
    out
}

/// The part of `s` before the first `d`, or all of `s` when it holds none
/// (the first item of `str::split(d)`).
pub open spec fn before(s: Seq<char>, d: char) -> Seq<char>
    decreases s.len(),
{
    if s.len() == 0 {
        s
    } else if s[0] == d {
        Seq::<char>::empty()
    } else {
        seq![s[0]] + before(s.drop_first(), d)
    }
}

proof fn lemma_before_take(s: Seq<char>, d: char, i: int)
    requires
        0 <= i <= s.len(),
        forall|j: int| 0 <= j < i ==> s[j] != d,
        i == s.len() || s[i] == d,
    ensures
        before(s, d) == s.take(i),
    decreases i,
{
    if i == 0 {
        if s.len() == 0 {
            assert(s.take(0) =~= s);
        } else {
            assert(s.take(0) =~= Seq::<char>::empty());
        }
    } else {
        let t = s.drop_first();
        assert forall|j: int| 0 <= j < i - 1 implies t[j] != d by {
            assert(t[j] == s[j + 1]);
        }
        if i - 1 < t.len() {
            assert(t[i - 1] == s[i]);
        }
        lemma_before_take(t, d, i - 1);
        assert(s[0] != d);
        assert(seq![s[0]] + t.take(i - 1) =~= s.take(i));
    }
}

/// Returns the part of `s` before the first `d`, or all of `s`.
pub fn before_str(s: &str, d: char) -> (r: &str)
    ensures
        r@ == before(s@, d),
{
    let n: usize = s.unicode_len();
    let mut i: usize = 0;
    while i < n && s.get_char(i) != d
        invariant
            n == s@.len(),
            i <= n,
            forall|j: int| 0 <= j < i ==> s@[j] != d,
        decreases n - i,
    {
        i = i + 1;
    }
    proof {
        lemma_before_take(s@, d, i as int);
        assert(s@.subrange(0, i as int) =~= s@.take(i as int));
    }
    s.substring_char(0, i)
}

/// `s` with each tab turned into a space and each run of spaces cut to one space.
pub open spec fn squeeze(s: Seq<char>) -> Seq<char>
    decreases s.len(),
{
    if s.len() == 0 {
        s
    } else {
        let r = squeeze(s.drop_last());
        let c = if s.last() == '\t' {
            ' '
        } else {
            s.last()
        };
        if c == ' ' && r.len() > 0 && r.last() == ' ' {
            r
        } else {
            r.push(c)
        }
    }
}

/// `s` holds no tab and no two spaces in a row.
pub open spec fn is_squeezed(s: Seq<char>) -> bool {
    &&& forall|i: int| 0 <= i < s.len() ==> s[i] != '\t'
    &&& forall|i: int| 0 <= i < s.len() - 1 ==> !(#[trigger] s[i] == ' ' && s[i + 1] == ' ')
}

/// What `squeeze` gives is squeezed, and it adds no character that was not there.
pub proof fn lemma_squeeze_shape(s: Seq<char>)
    ensures
        is_squeezed(squeeze(s)),
        forall|c: char| c != ' ' && squeeze(s).contains(c) ==> s.contains(c),
    decreases s.len(),
{
    if s.len() > 0 {
        let p = s.drop_last();
        lemma_squeeze_shape(p);
        let r = squeeze(p);
        assert forall|c: char| c != ' ' && squeeze(s).contains(c) implies s.contains(c) by {
            let k = choose|k: int| 0 <= k < squeeze(s).len() && squeeze(s)[k] == c;
            if k < r.len() {
                assert(r[k] == c);
                assert(r.contains(c));
                assert(p.contains(c));
                let j = choose|j: int| 0 <= j < p.len() && p[j] == c;
                assert(s[j] == c);
            } else {
                assert(s[s.len() - 1] == c);
            }
        }
    }
}

/// Squeezing a squeezed text leaves it as it is.
pub proof fn lemma_squeeze_fixed(s: Seq<char>)
    requires
        is_squeezed(s),
    ensures
        squeeze(s) == s,
    decreases s.len(),
{
    if s.len() > 0 {
        let p = s.drop_last();
        assert forall|i: int| 0 <= i < p.len() - 1 implies !(#[trigger] p[i] == ' ' && p[i + 1] == ' ') by {
            assert(s[i] == p[i] && s[i + 1] == p[i + 1]);
        }
        assert forall|i: int| 0 <= i < p.len() implies p[i] != '\t' by {
            assert(s[i] == p[i]);
        }
        lemma_squeeze_fixed(p);
        if p.len() > 0 {
            assert(s[p.len() - 1] == p.last());
        }
        assert(p.push(s.last()) =~= s);
    }
}

/// Squeezing twice gives what squeezing once gives.
pub proof fn lemma_squeeze_idempotent(s: Seq<char>)
    ensures
        squeeze(squeeze(s)) == squeeze(s),
{
    lemma_squeeze_shape(s);
    lemma_squeeze_fixed(squeeze(s));
}

/// Returns `squeeze(s)`: tabs become spaces and runs of spaces become one space.
pub fn squeeze_spaces(s: &str) -> (r: String)
    ensures
        r@ == squeeze(s@),
{
    let n: usize = s.unicode_len();
    let mut out: String = String::new();
    let mut last_space: bool = false;
    let mut i: usize = 0;
    proof {
        reveal_strlit(" ");
        assert(s@.take(0) =~= Seq::<char>::empty());
    }
    while i < n
        invariant
            n == s@.len(),
            i <= n,
            out@ == squeeze(s@.take(i as int)),
            last_space == (out@.len() > 0 && out@.last() == ' '),
        decreases n - i,
    {
        proof {
            reveal_strlit(" ");
            assert(s@.take(i + 1).drop_last() =~= s@.take(i as int));
        }
        let c = s.get_char(i);
        if c == ' ' || c == '\t' {
            if !last_space {
                out.append(" ");
                last_space = true;
            }
        } else {
            out.append(s.substring_char(i, i + 1));
            assert(s@.subrange(i as int, i + 1) =~= seq![c]);
            last_space = false;
        }
        i = i + 1;
    }
    assert(s@.take(n as int) =~= s@);
    out
}

} // verus!
