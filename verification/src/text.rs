//! Character-level text model: line splitting, whitespace-separated words
//! and character trimming, each stated as a spec function over `Seq<char>`
//! and implemented over index ranges of a `Vec<char>`.
use vstd::prelude::*;

verus! {

/// The Unicode `White_Space` code points (the set that `char::is_whitespace`
/// and `str::split_whitespace` use).
pub open spec fn is_ws_code(u: u32) -> bool {
    ||| 0x09 <= u <= 0x0D
    ||| u == 0x20
    ||| u == 0x85
    ||| u == 0xA0
    ||| u == 0x1680
    ||| 0x2000 <= u <= 0x200A
    ||| u == 0x2028
    ||| u == 0x2029
    ||| u == 0x202F
    ||| u == 0x205F
    ||| u == 0x3000
}

pub open spec fn is_whitespace(c: char) -> bool {
    is_ws_code(c as u32)
}

/// Whether `c` is a whitespace character.
pub fn is_whitespace_char(c: char) -> (b: bool)
    ensures
        b == is_whitespace(c),
{
    let u = c as u32;
    (0x09 <= u && u <= 0x0D) || u == 0x20 || u == 0x85 || u == 0xA0 || u == 0x1680 || (0x2000
        <= u && u <= 0x200A) || u == 0x2028 || u == 0x2029 || u == 0x202F || u == 0x205F || u
        == 0x3000
}

/// Number of characters before the first `'\n'` (or the whole length).
pub open spec fn line_len(s: Seq<char>) -> nat
    decreases s.len(),
{
    if s.len() == 0 || s[0] == '\n' {
        0
    } else {
        1 + line_len(s.drop_first())
    }
}

/// Drops one trailing carriage return.
pub open spec fn strip_cr(l: Seq<char>) -> Seq<char> {
    if l.len() > 0 && l.last() == '\r' {
        l.drop_last()
    } else {
        l
    }
}

/// The lines of a text: split at `"\n"` or `"\r\n"`, terminators removed,
/// the final terminator optional (an empty text has no lines).
pub open spec fn lines(s: Seq<char>) -> Seq<Seq<char>>
    decreases s.len(),
{
    if s.len() == 0 {
        seq![]
    } else {
        let n = line_len(s);
        if n < s.len() {
            seq![strip_cr(s.take(n as int))] + lines(s.skip(n + 1 as int))
        } else {
            seq![s]
        }
    }
}

/// Drops leading whitespace.
pub open spec fn skip_ws(s: Seq<char>) -> Seq<char>
    decreases s.len(),
{
    if s.len() > 0 && is_whitespace(s[0]) {
        skip_ws(s.drop_first())
    } else {
        s
    }
}

/// Length of the leading run of non-whitespace characters.
pub open spec fn word_len(s: Seq<char>) -> nat
    decreases s.len(),
{
    if s.len() > 0 && !is_whitespace(s[0]) {
        1 + word_len(s.drop_first())
    } else {
        0
    }
}

/// The first whitespace-separated word of `s` (empty when there is none)
/// and what follows it.
pub open spec fn next_word(s: Seq<char>) -> (Seq<char>, Seq<char>) {
    let t = skip_ws(s);
    let n = word_len(t);
    (t.take(n as int), t.skip(n as int))
}

/// Drops every leading `c`.
pub open spec fn trim_start_char(s: Seq<char>, c: char) -> Seq<char>
    decreases s.len(),
{
    if s.len() > 0 && s[0] == c {
        trim_start_char(s.drop_first(), c)
    } else {
        s
    }
}

/// Drops every trailing `c`.
pub open spec fn trim_end_char(s: Seq<char>, c: char) -> Seq<char>
    decreases s.len(),
{
    if s.len() > 0 && s.last() == c {
        trim_end_char(s.drop_last(), c)
    } else {
        s
    }
}

pub open spec fn starts_with(s: Seq<char>, p: Seq<char>) -> bool {
    p.len() <= s.len() && s.take(p.len() as int) == p
}

/// The characters of a string.
pub fn chars_of(s: &str) -> (v: Vec<char>)
    ensures
        v@ == s@,
{
    let n = s.unicode_len();
    let mut v: Vec<char> = Vec::new();
    let mut i: usize = 0;
    while i < n
        invariant
            n == s@.len(),
            i <= n,
            v@ == s@.take(i as int),
        decreases n - i,
    {
        let c = s.get_char(i);
        v.push(c);
        i = i + 1;
        assert(v@ =~= s@.take(i as int));
    }
    assert(v@ =~= s@);
    v
}

pub proof fn lemma_line_len(s: Seq<char>, k: int)
    requires
        0 <= k <= s.len(),
        forall|i: int| 0 <= i < k ==> s[i] != '\n',
        k == s.len() || s[k] == '\n',
    ensures
        line_len(s) == k,
    decreases k,
{
    if k > 0 {
        lemma_line_len(s.drop_first(), k - 1);
    }
}

/// Character ranges `[start, end)` of the lines of `v` (see `lines`).
pub fn line_ranges(v: &Vec<char>) -> (r: Vec<(usize, usize)>)
    ensures
        r@.len() == lines(v@).len(),
        forall|i: int| 0 <= i < r@.len() ==> #[trigger] r@[i].0 <= r@[i].1 <= v@.len(),
        forall|i: int|
            0 <= i < r@.len() ==> #[trigger] lines(v@)[i] == v@.subrange(
                r@[i].0 as int,
                r@[i].1 as int,
            ),
{
    let n = v.len();
    let mut r: Vec<(usize, usize)> = Vec::new();
    let mut pos: usize = 0;
    proof {
        assert(v@.skip(0) =~= v@);
        assert(Seq::new(r@.len(), |i: int| v@.subrange(r@[i].0 as int, r@[i].1 as int)) + lines(
            v@,
        ) =~= lines(v@));
    }
    while pos < n
        invariant
            n == v@.len(),
            pos <= n,
            lines(v@) == Seq::new(r@.len(), |i: int| v@.subrange(r@[i].0 as int, r@[i].1 as int))
                + lines(v@.skip(pos as int)),
            forall|i: int| 0 <= i < r@.len() ==> #[trigger] r@[i].0 <= r@[i].1 <= n,
        decreases n - pos,
    {
        let mut j = pos;
        while j < n && v[j] != '\n'
            invariant
                pos <= j <= n,
                n == v@.len(),
                forall|t: int| pos <= t < j ==> v@[t] != '\n',
            decreases n - j,
        {
            j = j + 1;
        }
        let ghost rest = v@.skip(pos as int);
        let ghost old_r = r@;
        proof {
            lemma_line_len(rest, j - pos);
        }
        if j < n {
            let end = if j > pos && v[j - 1] == '\r' {
                j - 1
            } else {
                j
            };
            r.push((pos, end));
            proof {
                assert(rest.take(j - pos) =~= v@.subrange(pos as int, j as int));
                assert(strip_cr(rest.take(j - pos)) =~= v@.subrange(pos as int, end as int));
                assert(rest.skip(j - pos + 1) =~= v@.skip(j + 1));
                assert(lines(rest) == seq![v@.subrange(pos as int, end as int)] + lines(
                    v@.skip(j + 1),
                ));
                assert(Seq::new(r@.len(), |i: int| v@.subrange(r@[i].0 as int, r@[i].1 as int))
                    =~= Seq::new(old_r.len(), |i: int| v@.subrange(old_r[i].0 as int, old_r[i].1 as int))
                    + seq![v@.subrange(pos as int, end as int)]);
            }
            pos = j + 1;
        } else {
            r.push((pos, n));
            proof {
                assert(rest =~= v@.subrange(pos as int, n as int));
                assert(lines(rest) == seq![v@.subrange(pos as int, n as int)]);
                assert(v@.skip(n as int).len() == 0);
                assert(lines(v@.skip(n as int)) =~= Seq::<Seq<char>>::empty());
                assert(Seq::new(r@.len(), |i: int| v@.subrange(r@[i].0 as int, r@[i].1 as int))
                    =~= Seq::new(old_r.len(), |i: int| v@.subrange(old_r[i].0 as int, old_r[i].1 as int))
                    + seq![v@.subrange(pos as int, n as int)]);
            }
            pos = n;
        }
    }
    proof {
        assert(v@.skip(n as int).len() == 0);
        assert(lines(v@.skip(n as int)) =~= Seq::<Seq<char>>::empty());
        assert(lines(v@) =~= Seq::new(
            r@.len(),
            |i: int| v@.subrange(r@[i].0 as int, r@[i].1 as int),
        ));
        assert forall|i: int| 0 <= i < r@.len() implies r@[i].0 <= r@[i].1 <= v@.len()
            && #[trigger] lines(v@)[i] == v@.subrange(r@[i].0 as int, r@[i].1 as int) by {
            assert(r@[i].0 <= r@[i].1 <= n);
        }
    }
    r
}

pub proof fn lemma_skip_ws(v: Seq<char>, i: int, j: int, b: int)
    requires
        0 <= i <= j <= b <= v.len(),
        forall|t: int| i <= t < j ==> is_whitespace(v[t]),
        j == b || !is_whitespace(v[j]),
    ensures
        skip_ws(v.subrange(i, b)) == v.subrange(j, b),
    decreases j - i,
{
    if i < j {
        assert(v.subrange(i, b).drop_first() =~= v.subrange(i + 1, b));
        lemma_skip_ws(v, i + 1, j, b);
    }
}

pub proof fn lemma_word_len(v: Seq<char>, i: int, j: int, b: int)
    requires
        0 <= i <= j <= b <= v.len(),
        forall|t: int| i <= t < j ==> !is_whitespace(v[t]),
        j == b || is_whitespace(v[j]),
    ensures
        word_len(v.subrange(i, b)) == j - i,
    decreases j - i,
{
    if i < j {
        assert(v.subrange(i, b).drop_first() =~= v.subrange(i + 1, b));
        lemma_word_len(v, i + 1, j, b);
    }
}

/// Position of the first non-whitespace character of `v[i..b]` (or `b`).
pub fn skip_ws_from(v: &Vec<char>, i: usize, b: usize) -> (j: usize)
    requires
        i <= b <= v@.len(),
    ensures
        i <= j <= b,
        skip_ws(v@.subrange(i as int, b as int)) == v@.subrange(j as int, b as int),
        j < b ==> !is_whitespace(v@[j as int]),
{
    let mut j = i;
    while j < b && is_whitespace_char(v[j])
        invariant
            i <= j <= b <= v@.len(),
            forall|t: int| i <= t < j ==> is_whitespace(v@[t]),
        decreases b - j,
    {
        j = j + 1;
    }
    proof {
        lemma_skip_ws(v@, i as int, j as int, b as int);
    }
    j
}

/// End of the run of non-whitespace characters that starts at `i`.
pub fn word_end_from(v: &Vec<char>, i: usize, b: usize) -> (j: usize)
    requires
        i <= b <= v@.len(),
    ensures
        i <= j <= b,
        word_len(v@.subrange(i as int, b as int)) == j - i,
{
    let mut j = i;
    while j < b && !is_whitespace_char(v[j])
        invariant
            i <= j <= b <= v@.len(),
            forall|t: int| i <= t < j ==> !is_whitespace(v@[t]),
        decreases b - j,
    {
        j = j + 1;
    }
    proof {
        lemma_word_len(v@, i as int, j as int, b as int);
    }
    j
}

/// The first word of `v[i..b]` is `v[s..e]`, and what follows it is `v[e..b]`.
pub fn next_word_from(v: &Vec<char>, i: usize, b: usize) -> (r: (usize, usize))
    requires
        i <= b <= v@.len(),
    ensures
        i <= r.0 <= r.1 <= b,
        next_word(v@.subrange(i as int, b as int)).0 == v@.subrange(r.0 as int, r.1 as int),
        next_word(v@.subrange(i as int, b as int)).1 == v@.subrange(r.1 as int, b as int),
        (r.0 == r.1) == (r.0 == b),
{
    let s = skip_ws_from(v, i, b);
    let e = word_end_from(v, s, b);
    proof {
        let t = v@.subrange(s as int, b as int);
        assert(t.take(e - s) =~= v@.subrange(s as int, e as int));
        assert(t.skip(e - s) =~= v@.subrange(e as int, b as int));
        if s < b {
            assert(t[0] == v@[s as int]);
            assert(word_len(t) > 0);
        }
    }
    (s, e)
}

pub proof fn lemma_trim_start(v: Seq<char>, i: int, j: int, e: int, c: char)
    requires
        0 <= i <= j <= e <= v.len(),
        forall|t: int| i <= t < j ==> v[t] == c,
        j == e || v[j] != c,
    ensures
        trim_start_char(v.subrange(i, e), c) == v.subrange(j, e),
    decreases j - i,
{
    if i < j {
        assert(v.subrange(i, e).drop_first() =~= v.subrange(i + 1, e));
        lemma_trim_start(v, i + 1, j, e, c);
    }
}

pub proof fn lemma_trim_end(v: Seq<char>, s: int, j: int, e: int, c: char)
    requires
        0 <= s <= j <= e <= v.len(),
        forall|t: int| j <= t < e ==> v[t] == c,
        j == s || v[j - 1] != c,
    ensures
        trim_end_char(v.subrange(s, e), c) == v.subrange(s, j),
    decreases e - j,
{
    if j < e {
        assert(v.subrange(s, e).drop_last() =~= v.subrange(s, e - 1));
        lemma_trim_end(v, s, j, e - 1, c);
    }
}

/// `v[i..e]` with every leading `c` removed starts at the returned position.
pub fn trim_start_from(v: &Vec<char>, i: usize, e: usize, c: char) -> (j: usize)
    requires
        i <= e <= v@.len(),
    ensures
        i <= j <= e,
        trim_start_char(v@.subrange(i as int, e as int), c) == v@.subrange(j as int, e as int),
{
    let mut j = i;
    while j < e && v[j] == c
        invariant
            i <= j <= e <= v@.len(),
            forall|t: int| i <= t < j ==> v@[t] == c,
        decreases e - j,
    {
        j = j + 1;
    }
    proof {
        lemma_trim_start(v@, i as int, j as int, e as int, c);
    }
    j
}

/// `v[s..e]` with every trailing `c` removed ends at the returned position.
pub fn trim_end_from(v: &Vec<char>, s: usize, e: usize, c: char) -> (j: usize)
    requires
        s <= e <= v@.len(),
    ensures
        s <= j <= e,
        trim_end_char(v@.subrange(s as int, e as int), c) == v@.subrange(s as int, j as int),
{
    let mut j = e;
    while j > s && v[j - 1] == c
        invariant
            s <= j <= e <= v@.len(),
            forall|t: int| j <= t < e ==> v@[t] == c,
        decreases j - s,
    {
        j = j - 1;
    }
    proof {
        lemma_trim_end(v@, s as int, j as int, e as int, c);
    }
    j
}

} // verus!
