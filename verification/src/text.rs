//! Character-level text helpers: the models of `str::lines`, `str::trim` and
//! friends that the configuration and log functions are specified over.
use vstd::prelude::*;

verus! {

/// Unicode `White_Space`, the set that `char::is_whitespace` and `str::trim` use.
pub open spec fn is_ws(c: char) -> bool {
    let u = c as u32;
    (0x09 <= u && u <= 0x0d) || u == 0x20 || u == 0x85 || u == 0xa0 || u == 0x1680 || (0x2000 <= u
        && u <= 0x200a) || u == 0x2028 || u == 0x2029 || u == 0x202f || u == 0x205f || u == 0x3000
}

pub fn is_whitespace_char(c: char) -> (r: bool)
    ensures
        r == is_ws(c),
{
    let u = c as u32;
    (0x09 <= u && u <= 0x0d) || u == 0x20 || u == 0x85 || u == 0xa0 || u == 0x1680 || (0x2000 <= u
        && u <= 0x200a) || u == 0x2028 || u == 0x2029 || u == 0x202f || u == 0x205f || u == 0x3000
}

/// The characters of a string slice, in order.
pub fn chars_of(s: &str) -> (v: Vec<char>)
    ensures
        v@ == s@,
{
    let mut v: Vec<char> = Vec::new();
    for c in it: s.chars()
        invariant
            v@ == it.seq().take(it.index() as int),
            it.seq() == s@,
    {
        v.push(c);
    }
    v
}


/// Builds a `String` from characters; `String`'s `FromIterator<&char>`.
#[verifier::external_body]
pub(crate) fn string_from_chars(v: &[char]) -> (s: String)
    ensures
        s@ == v@,
{
    v.iter().collect()
}

/// The index of the first position at or after `i` (below `n`) where `p` holds.
pub open spec fn first_from(n: int, p: spec_fn(int) -> bool, i: int) -> Option<int>
    decreases n - i,
{
    if i >= n {
        None
    } else if p(i) {
        Some(i)
    } else {
        first_from(n, p, i + 1)
    }
}

/// What `first_from` finds: the least index in `[i, n)` where `p` holds.
pub proof fn lemma_first_from(n: int, p: spec_fn(int) -> bool, i: int)
    ensures
        match first_from(n, p, i) {
            Some(k) => i <= k < n && p(k) && forall|j: int| i <= j < k ==> !#[trigger] p(j),
            None => forall|j: int| i <= j < n ==> !#[trigger] p(j),
        },
    decreases n - i,
{
    if i < n && !p(i) {
        lemma_first_from(n, p, i + 1);
    }
}

/// A result equal to `first_from` when it has the least-index property.
pub proof fn lemma_first_from_unique(n: int, p: spec_fn(int) -> bool, i: int, r: Option<int>)
    requires
        match r {
            Some(k) => i <= k < n && p(k) && forall|j: int| i <= j < k ==> !#[trigger] p(j),
            None => forall|j: int| i <= j < n ==> !#[trigger] p(j),
        },
    ensures
        first_from(n, p, i) == r,
{
    lemma_first_from(n, p, i);
    match (first_from(n, p, i), r) {
        (Some(a), Some(b)) => {
            if a < b {
                assert(!p(a));
            } else if b < a {
                assert(!p(b));
            }
        },
        (Some(a), None) => {
            assert(!p(a));
        },
        (None, Some(b)) => {
            assert(!p(b));
        },
        (None, None) => {},
    }
}

/// The number of leading whitespace characters of `s`.
pub open spec fn lead_ws(s: Seq<char>) -> int {
    match first_from(s.len() as int, |j: int| !is_ws(s[j]), 0) {
        Some(k) => k,
        None => s.len() as int,
    }
}

/// The number of trailing whitespace characters of `s`.
pub open spec fn trail_ws(s: Seq<char>) -> int {
    lead_ws(s.reverse())
}

/// `s` with leading and trailing Unicode whitespace removed, as `str::trim` does.
pub open spec fn trim(s: Seq<char>) -> Seq<char> {
    if lead_ws(s) == s.len() {
        Seq::empty()
    } else {
        s.subrange(lead_ws(s), s.len() - trail_ws(s))
    }
}

/// Whether `s` is empty or made only of whitespace.
pub open spec fn is_blank(s: Seq<char>) -> bool {
    forall|j: int| 0 <= j < s.len() ==> is_ws(#[trigger] s[j])
}

pub proof fn lemma_lead_ws(s: Seq<char>)
    ensures
        0 <= lead_ws(s) <= s.len(),
        forall|j: int| 0 <= j < lead_ws(s) ==> is_ws(#[trigger] s[j]),
        lead_ws(s) < s.len() ==> !is_ws(s[lead_ws(s)]),
        lead_ws(s) == s.len() <==> is_blank(s),
{
    let p = |j: int| !is_ws(s[j]);
    lemma_first_from(s.len() as int, p, 0);
    assert forall|j: int| 0 <= j < lead_ws(s) implies is_ws(#[trigger] s[j]) by {
        assert(!p(j));
    }
    if is_blank(s) {
        if first_from(s.len() as int, p, 0) is Some {
            let k = first_from(s.len() as int, p, 0)->0;
            assert(p(k));
        }
    }
}

/// The number of leading whitespace characters of `v`.
pub fn leading_whitespace_len(v: &[char]) -> (n: usize)
    ensures
        n == lead_ws(v@),
{
    let mut i: usize = 0;
    while i < v.len()
        invariant
            0 <= i <= v@.len(),
            forall|j: int| 0 <= j < i ==> is_ws(#[trigger] v@[j]),
        decreases v@.len() - i,
    {
        if !is_whitespace_char(v[i]) {
            proof {
                lemma_first_from_unique(v@.len() as int, |j: int| !is_ws(v@[j]), 0, Some(i as int));
            }
            return i;
        }
        i = i + 1;
    }
    proof {
        lemma_first_from_unique(v@.len() as int, |j: int| !is_ws(v@[j]), 0, None);
    }
    i
}

/// The number of trailing whitespace characters of `v`.
pub fn trailing_whitespace_len(v: &[char]) -> (n: usize)
    ensures
        n == trail_ws(v@),
{
    let ghost r = v@.reverse();
    let mut i: usize = 0;
    while i < v.len()
        invariant
            0 <= i <= v@.len(),
            r == v@.reverse(),
            forall|j: int| 0 <= j < i ==> is_ws(#[trigger] r[j]),
        decreases v@.len() - i,
    {
        if !is_whitespace_char(v[v.len() - 1 - i]) {
            proof {
                lemma_first_from_unique(r.len() as int, |j: int| !is_ws(r[j]), 0, Some(i as int));
            }
            return i;
        }
        i = i + 1;
    }
    proof {
        lemma_first_from_unique(r.len() as int, |j: int| !is_ws(r[j]), 0, None);
    }
    i
}

/// `v` without leading and trailing whitespace.
pub fn trimmed(v: &[char]) -> (t: Vec<char>)
    ensures
        t@ == trim(v@),
{
    let lead = leading_whitespace_len(v);
    if lead == v.len() {
        return Vec::new();
    }
    let trail = trailing_whitespace_len(v);
    proof {
        lemma_lead_ws(v@);
        lemma_lead_ws(v@.reverse());
        assert(!is_ws(v@.reverse()[v@.len() - 1 - lead]));
    }
    slice_range(v, lead, v.len() - trail)
}

/// The characters of `v` from `start` up to `end`.
pub fn slice_range(v: &[char], start: usize, end: usize) -> (r: Vec<char>)
    requires
        start <= end <= v@.len(),
    ensures
        r@ == v@.subrange(start as int, end as int),
{
    let mut r: Vec<char> = Vec::new();
    let mut i = start;
    while i < end
        invariant
            start <= i <= end <= v@.len(),
            r@ == v@.subrange(start as int, i as int),
        decreases end - i,
    {
        r.push(v[i]);
        i = i + 1;
    }
    r
}

/// Whether `s` begins with `p`.
pub open spec fn starts_with(s: Seq<char>, p: Seq<char>) -> bool {
    p.len() <= s.len() && s.subrange(0, p.len() as int) == p
}

/// Whether `s` ends with `p`.
pub open spec fn ends_with(s: Seq<char>, p: Seq<char>) -> bool {
    p.len() <= s.len() && s.subrange(s.len() - p.len(), s.len() as int) == p
}

pub fn has_prefix(s: &[char], p: &[char]) -> (r: bool)
    ensures
        r == starts_with(s@, p@),
{
    if p.len() > s.len() {
        return false;
    }
    let mut i: usize = 0;
    while i < p.len()
        invariant
            p@.len() <= s@.len(),
            0 <= i <= p@.len(),
            forall|j: int| 0 <= j < i ==> s@[j] == p@[j],
        decreases p@.len() - i,
    {
        if s[i] != p[i] {
            assert(s@.subrange(0, p@.len() as int)[i as int] != p@[i as int]);
            return false;
        }
        i = i + 1;
    }
    assert(s@.subrange(0, p@.len() as int) =~= p@);
    true
}

pub fn has_suffix(s: &[char], p: &[char]) -> (r: bool)
    ensures
        r == ends_with(s@, p@),
{
    if p.len() > s.len() {
        return false;
    }
    let slen = s.len();
    let off = slen - p.len();
    let mut i: usize = 0;
    while i < p.len()
        invariant
            p@.len() <= s@.len(),
            off == s@.len() - p@.len(),
            slen == s@.len(),
            0 <= i <= p@.len(),
            forall|j: int| 0 <= j < i ==> s@[off + j] == p@[j],
        decreases p@.len() - i,
    {
        let k: usize = off + i;
        if s[k] != p[i] {
            assert(s@.subrange(off as int, s@.len() as int)[i as int] != p@[i as int]);
            return false;
        }
        i = i + 1;
    }
    assert(s@.subrange(off as int, s@.len() as int) =~= p@);
    true
}

/// Whether two character sequences are equal.
pub fn chars_eq(a: &[char], b: &[char]) -> (r: bool)
    ensures
        r == (a@ == b@),
{
    if a.len() != b.len() {
        return false;
    }
    let r = has_prefix(a, b);
    proof {
        assert(a@ =~= a@.subrange(0, b@.len() as int));
    }
    r
}


/// The character sequences held by a vector of character vectors.
pub open spec fn views(ls: Seq<Vec<char>>) -> Seq<Seq<char>> {
    Seq::new(ls.len(), |i: int| ls[i]@)
}

/// `l` without one trailing carriage return.
pub open spec fn strip_cr(l: Seq<char>) -> Seq<char> {
    if l.len() > 0 && l.last() == '\r' {
        l.drop_last()
    } else {
        l
    }
}

/// The position of the first line feed in `s`, if any.
pub open spec fn first_newline(s: Seq<char>) -> Option<int> {
    first_from(s.len() as int, |j: int| s[j] == '\n', 0)
}

/// The lines of `s` as `str::lines` yields them: split at each line feed, a
/// carriage return before a line feed dropped, and no final empty line after a
/// trailing line feed.
pub open spec fn lines_of(s: Seq<char>) -> Seq<Seq<char>>
    decreases s.len(),
{
    if s.len() == 0 {
        Seq::empty()
    } else {
        match first_newline(s) {
            Some(k) => {
                proof {
                    lemma_first_from(s.len() as int, |j: int| s[j] == '\n', 0);
                }
                if 0 <= k < s.len() {
                    seq![strip_cr(s.subrange(0, k))] + lines_of(s.subrange(k + 1, s.len() as int))
                } else {
                    seq![s]
                }
            },
            None => seq![s],
        }
    }
}

/// `ls` joined with line feeds between them, as `[..].join("\n")` does.
pub open spec fn join_lines(ls: Seq<Seq<char>>) -> Seq<char>
    decreases ls.len(),
{
    if ls.len() == 0 {
        Seq::empty()
    } else if ls.len() == 1 {
        ls[0]
    } else {
        join_lines(ls.drop_last()) + seq!['\n'] + ls.last()
    }
}

/// The characters of `v` from `start` up to `end`, without a trailing `'\r'`.
fn line_without_cr(v: &[char], start: usize, end: usize) -> (r: Vec<char>)
    requires
        start <= end <= v@.len(),
    ensures
        r@ == strip_cr(v@.subrange(start as int, end as int)),
{
    if end > start && v[end - 1] == '\r' {
        let r = slice_range(v, start, end - 1);
        assert(r@ =~= v@.subrange(start as int, end as int).drop_last());
        r
    } else {
        slice_range(v, start, end)
    }
}

/// The lines of `v`, as `str::lines` yields them.
pub fn split_lines(v: &[char]) -> (ls: Vec<Vec<char>>)
    ensures
        views(ls@) == lines_of(v@),
{
    let mut ls: Vec<Vec<char>> = Vec::new();
    let n = v.len();
    let mut start: usize = 0;
    let mut i: usize = 0;
    proof {
        assert(v@.subrange(0, n as int) =~= v@);
        assert(views(ls@) + lines_of(v@) =~= lines_of(v@));
    }
    while i < n
        invariant
            n == v@.len(),
            start <= i <= n,
            forall|j: int| start <= j < i ==> v@[j] != '\n',
            views(ls@) + lines_of(v@.subrange(start as int, n as int)) == lines_of(v@),
        decreases n - i,
    {
        if v[i] == '\n' {
            let ghost t = v@.subrange(start as int, n as int);
            proof {
                let p = |j: int| t[j] == '\n';
                assert forall|j: int| 0 <= j < (i - start) implies !#[trigger] p(j) by {
                    assert(t[j] == v@[start + j]);
                }
                lemma_first_from_unique(t.len() as int, p, 0, Some(i - start));
                assert(t.subrange(0, i - start) =~= v@.subrange(start as int, i as int));
                assert(t.subrange(i - start + 1, t.len() as int) =~= v@.subrange(i + 1, n as int));
            }
            let line = line_without_cr(v, start, i);
            let ghost before = views(ls@);
            ls.push(line);
            proof {
                assert(views(ls@) =~= before.push(line@));
                assert(lines_of(t) == seq![strip_cr(t.subrange(0, i - start))] + lines_of(
                    t.subrange(i - start + 1, t.len() as int),
                ));
                assert(before + lines_of(t) =~= views(ls@) + lines_of(
                    v@.subrange(i + 1, n as int),
                ));
            }
            start = i + 1;
        }
        i = i + 1;
    }
    if start < n {
        let ghost t = v@.subrange(start as int, n as int);
        proof {
            let p = |j: int| t[j] == '\n';
            assert forall|j: int| 0 <= j < t.len() implies !#[trigger] p(j) by {
                assert(t[j] == v@[start + j]);
            }
            lemma_first_from_unique(t.len() as int, p, 0, None);
        }
        let line = slice_range(v, start, n);
        let ghost before = views(ls@);
        ls.push(line);
        proof {
            assert(views(ls@) =~= before.push(line@));
            assert(lines_of(t) == seq![t]);
            assert(lines_of(v@.subrange(n as int, n as int)) =~= Seq::<Seq<char>>::empty());
            assert(before + lines_of(t) =~= views(ls@));
        }
    } else {
        proof {
            assert(lines_of(v@.subrange(start as int, n as int)) =~= Seq::<Seq<char>>::empty());
            assert(views(ls@) + Seq::<Seq<char>>::empty() =~= views(ls@));
        }
    }
    ls
}

/// Appends the characters of `src` to `dst`.
pub fn push_all(dst: &mut Vec<char>, src: &[char])
    ensures
        final(dst)@ == old(dst)@ + src@,
{
    let mut i: usize = 0;
    while i < src.len()
        invariant
            0 <= i <= src@.len(),
            dst@ == old(dst)@ + src@.subrange(0, i as int),
        decreases src@.len() - i,
    {
        dst.push(src[i]);
        i = i + 1;
        assert(dst@ =~= old(dst)@ + src@.subrange(0, i as int));
    }
    assert(src@.subrange(0, src@.len() as int) =~= src@);
}

/// Appends the characters of `s`.
pub fn push_str(dst: &mut Vec<char>, s: &str)
    ensures
        final(dst)@ == old(dst)@ + s@,
{
    let w = chars_of(s);
    push_all(dst, w.as_slice());
}

/// `ls` joined with line feeds.
pub fn join_with_newlines(ls: &Vec<Vec<char>>) -> (r: Vec<char>)
    ensures
        r@ == join_lines(views(ls@)),
{
    let mut r: Vec<char> = Vec::new();
    let mut i: usize = 0;
    while i < ls.len()
        invariant
            0 <= i <= ls@.len(),
            r@ == join_lines(views(ls@).subrange(0, i as int)),
        decreases ls@.len() - i,
    {
        let ghost pre = views(ls@).subrange(0, i as int);
        let ghost next = views(ls@).subrange(0, i + 1);
        if i > 0 {
            r.push('\n');
        }
        push_all(&mut r, ls[i].as_slice());
        proof {
            assert(next.drop_last() =~= pre);
            assert(next.last() == ls[i as int]@);
            if i == 0 {
                assert(r@ =~= next[0]);
            } else {
                assert(r@ =~= join_lines(pre) + seq!['\n'] + next.last());
            }
        }
        i = i + 1;
    }
    assert(views(ls@).subrange(0, ls@.len() as int) =~= views(ls@));
    r
}

/// The decimal digit for `d < 10`.
pub open spec fn digit_char(d: nat) -> char {
    if d == 0 { '0' } else if d == 1 { '1' } else if d == 2 { '2' } else if d == 3 { '3' }
    else if d == 4 { '4' } else if d == 5 { '5' } else if d == 6 { '6' } else if d == 7 { '7' }
    else if d == 8 { '8' } else { '9' }
}

/// The decimal representation of `n`, without leading zeros.
pub open spec fn decimal(n: nat) -> Seq<char>
    decreases n,
{
    if n < 10 {
        seq![digit_char(n)]
    } else {
        decimal(n / 10) + seq![digit_char(n % 10)]
    }
}

fn digit(d: u64) -> (c: char)
    requires
        d < 10,
    ensures
        c == digit_char(d as nat),
{
    if d == 0 { '0' } else if d == 1 { '1' } else if d == 2 { '2' } else if d == 3 { '3' }
    else if d == 4 { '4' } else if d == 5 { '5' } else if d == 6 { '6' } else if d == 7 { '7' }
    else if d == 8 { '8' } else { '9' }
}

/// The decimal representation of `n`, as `format!("{n}")` writes it.
pub fn decimal_chars(n: u64) -> (r: Vec<char>)
    ensures
        r@ == decimal(n as nat),
    decreases n,
{
    if n < 10 {
        let mut r = Vec::new();
        r.push(digit(n));
        r
    } else {
        let mut r = decimal_chars(n / 10);
        r.push(digit(n % 10));
        r
    }
}

/// `n` spaces.
pub open spec fn spaces(n: nat) -> Seq<char> {
    Seq::new(n, |_i: int| ' ')
}

pub fn space_chars(n: usize) -> (r: Vec<char>)
    ensures
        r@ == spaces(n as nat),
{
    let mut r: Vec<char> = Vec::new();
    let mut i: usize = 0;
    while i < n
        invariant
            0 <= i <= n,
            r@ == spaces(i as nat),
        decreases n - i,
    {
        r.push(' ');
        i = i + 1;
        assert(r@ =~= spaces(i as nat));
    }
    r
}


/// Whether two string slices hold the same characters.
pub fn str_eq(a: &str, b: &str) -> (r: bool)
    ensures
        r == (a@ == b@),
{
    let x = chars_of(a);
    let y = chars_of(b);
    chars_eq(x.as_slice(), y.as_slice())
}

/// The string holding the characters of `s`.
pub fn owned(s: &str) -> (r: String)
    ensures
        r@ == s@,
{
    s.to_owned()
}

/// Whether `m` occurs in `s` from a position on.
pub open spec fn occurs_from(s: Seq<char>, m: Seq<char>) -> spec_fn(int) -> bool {
    |i: int| s.subrange(i, i + m.len()) == m
}

/// The first position in `s` where `m` occurs, as `str::find` locates it.
pub open spec fn find(s: Seq<char>, m: Seq<char>) -> Option<int> {
    first_from(s.len() - m.len() + 1, occurs_from(s, m), 0)
}

/// The first position in `s` where `m` occurs.
pub fn find_chars(s: &[char], m: &[char]) -> (r: Option<usize>)
    ensures
        r matches Some(k) ==> k + m@.len() <= s@.len(),
        match r {
            Some(k) => find(s@, m@) == Some(k as int),
            None => find(s@, m@) is None,
        },
{
    if m.len() == 0 {
        proof {
            let p = occurs_from(s@, m@);
            assert(s@.subrange(0, 0) =~= m@);
            assert(p(0));
            lemma_first_from_unique(s@.len() - m@.len() + 1, p, 0, Some(0));
        }
        return Some(0);
    }
    if m.len() > s.len() {
        proof {
            let p = occurs_from(s@, m@);
            lemma_first_from_unique(s@.len() - m@.len() + 1, p, 0, None);
        }
        return None;
    }
    let last = s.len() - m.len();
    let mut i: usize = 0;
    while i <= last
        invariant
            last == s@.len() - m@.len(),
            m@.len() >= 1,
            last < s@.len(),
            0 <= i <= last + 1,
            forall|j: int| 0 <= j < i ==> #[trigger] s@.subrange(j, j + m@.len()) != m@,
        decreases last + 1 - i,
    {
        let rest = slice_range(s, i, s.len());
        let hit = has_prefix(rest.as_slice(), m);
        proof {
            assert(rest@.subrange(0, m@.len() as int) =~= s@.subrange(i as int, i + m@.len()));
        }
        if hit {
            proof {
                let p = occurs_from(s@, m@);
                assert forall|j: int| 0 <= j < i implies !#[trigger] p(j) by {
                    assert(s@.subrange(j, j + m@.len()) != m@);
                }
                lemma_first_from_unique(s@.len() - m@.len() + 1, p, 0, Some(i as int));
            }
            return Some(i);
        }
        i = i + 1;
    }
    proof {
        let p = occurs_from(s@, m@);
        assert forall|j: int| 0 <= j < s@.len() - m@.len() + 1 implies !#[trigger] p(j) by {
            assert(s@.subrange(j, j + m@.len()) != m@);
        }
        lemma_first_from_unique(s@.len() - m@.len() + 1, p, 0, None);
    }
    None
}


/// A blank sequence trims to nothing, and only a blank one does.
pub proof fn lemma_trim_empty_iff_blank(s: Seq<char>)
    ensures
        trim(s).len() == 0 <==> is_blank(s),
        !is_blank(s) ==> trim(s).len() > 0 && !is_ws(trim(s)[0]) && trim(s) == s.subrange(
            lead_ws(s),
            s.len() - trail_ws(s),
        ),
{
    lemma_lead_ws(s);
    lemma_lead_ws(s.reverse());
    if !is_blank(s) {
        let l = lead_ws(s);
        let t = trail_ws(s);
        assert(!is_ws(s[l]));
        if t > s.len() - l - 1 {
            let j = s.len() - 1 - l;
            assert(0 <= j < t);
            assert(is_ws(s.reverse()[j]));
            assert(s.reverse()[j] == s[l]);
        }
    }
}

/// Whether `v` is empty or only whitespace.
pub fn is_blank_chars(v: &[char]) -> (r: bool)
    ensures
        r == is_blank(v@),
{
    let n = leading_whitespace_len(v);
    proof {
        lemma_lead_ws(v@);
    }
    n == v.len()
}

/// Whether the character of `s` at a position is not `c`.
pub open spec fn differs_from(s: Seq<char>, c: char) -> spec_fn(int) -> bool {
    |j: int| s[j] != c
}

/// The number of leading copies of `c` in `s`.
pub open spec fn lead_char(s: Seq<char>, c: char) -> int {
    match first_from(s.len() as int, differs_from(s, c), 0) {
        Some(k) => k,
        None => s.len() as int,
    }
}

pub fn leading_char_count(v: &[char], c: char) -> (n: usize)
    ensures
        n == lead_char(v@, c),
        n <= v@.len(),
        n < v@.len() ==> v@[n as int] != c,
        forall|j: int| 0 <= j < n ==> v@[j] == c,
{
    let mut i: usize = 0;
    while i < v.len()
        invariant
            0 <= i <= v@.len(),
            forall|j: int| 0 <= j < i ==> v@[j] == c,
        decreases v@.len() - i,
    {
        if v[i] != c {
            proof {
                let p = differs_from(v@, c);
                assert forall|j: int| 0 <= j < i implies !#[trigger] p(j) by {}
                lemma_first_from_unique(v@.len() as int, p, 0, Some(i as int));
            }
            return i;
        }
        i = i + 1;
    }
    proof {
        let p = differs_from(v@, c);
        assert forall|j: int| 0 <= j < v@.len() implies !#[trigger] p(j) by {}
        lemma_first_from_unique(v@.len() as int, p, 0, None);
    }
    i
}


/// `a` followed by `b`.
pub fn concat_str(a: &str, b: &str) -> (r: String)
    ensures
        r@ == a@ + b@,
{
    let mut v = chars_of(a);
    let w = chars_of(b);
    push_all(&mut v, w.as_slice());
    string_from_chars(v.as_slice())
}

/// `a`, `b` and `c` in order.
pub fn concat3(a: &str, b: &str, c: &str) -> (r: String)
    ensures
        r@ == a@ + b@ + c@,
{
    let mut v = chars_of(a);
    let w = chars_of(b);
    push_all(&mut v, w.as_slice());
    let x = chars_of(c);
    push_all(&mut v, x.as_slice());
    string_from_chars(v.as_slice())
}

/// `s` in ASCII lower case, as `str::to_ascii_lowercase`.
pub open spec fn ascii_lower(s: Seq<char>) -> Seq<char> {
    s.map_values(|c: char| lower_char(c))
}

pub open spec fn lower_char(c: char) -> char {
    if 'A' <= c && c <= 'Z' {
        ((c as u32) + 32) as char
    } else {
        c
    }
}

pub fn to_ascii_lower(v: &[char]) -> (r: Vec<char>)
    ensures
        r@ == ascii_lower(v@),
{
    let mut r: Vec<char> = Vec::new();
    let mut i: usize = 0;
    while i < v.len()
        invariant
            0 <= i <= v@.len(),
            r@ == ascii_lower(v@.subrange(0, i as int)),
        decreases v@.len() - i,
    {
        let c = v[i];
        let l = if 'A' <= c && c <= 'Z' {
            ((c as u8) + 32) as char
        } else {
            c
        };
        r.push(l);
        i = i + 1;
        assert(r@ =~= ascii_lower(v@.subrange(0, i as int)));
    }
    assert(v@.subrange(0, v@.len() as int) =~= v@);
    r
}

/// ASCII hexadecimal digits.
pub open spec fn is_hex(c: char) -> bool {
    ('0' <= c && c <= '9') || ('a' <= c && c <= 'f') || ('A' <= c && c <= 'F')
}

/// Whether every character of `v` is an ASCII hexadecimal digit.
pub fn all_hex(v: &[char]) -> (r: bool)
    ensures
        r == forall|j: int| 0 <= j < v@.len() ==> is_hex(#[trigger] v@[j]),
{
    let mut i: usize = 0;
    while i < v.len()
        invariant
            0 <= i <= v@.len(),
            forall|j: int| 0 <= j < i ==> is_hex(#[trigger] v@[j]),
        decreases v@.len() - i,
    {
        let c = v[i];
        if !(('0' <= c && c <= '9') || ('a' <= c && c <= 'f') || ('A' <= c && c <= 'F')) {
            return false;
        }
        i = i + 1;
    }
    true
}

} // verus!
