//! Facts about splitting text into lines and joining lines again, and about
//! trimming: what the configuration rewrites rely on to read back what they
//! wrote.
use crate::text::{
    first_from, is_blank, is_ws, join_lines, lead_ws, lemma_first_from, lemma_first_from_unique,
    lemma_lead_ws, lemma_trim_empty_iff_blank, lines_of, spaces, strip_cr, trail_ws, trim,
};
use vstd::prelude::*;

verus! {

/// `first_from` only looks at the predicate on `[i, n)`.
pub proof fn lemma_first_from_congruent(n: int, p: spec_fn(int) -> bool, q: spec_fn(int) -> bool, i: int)
    requires
        forall|j: int| i <= j < n ==> #[trigger] p(j) == q(j),
    ensures
        first_from(n, p, i) == first_from(n, q, i),
    decreases n - i,
{
    if i < n {
        lemma_first_from_congruent(n, p, q, i + 1);
    }
}

/// Whether `l` holds no line feed.
pub open spec fn no_newline(l: Seq<char>) -> bool {
    forall|k: int| 0 <= k < l.len() ==> l[k] != '\n'
}

/// The lines of a text never hold a line feed.
pub proof fn lemma_lines_have_no_newline(s: Seq<char>)
    ensures
        forall|j: int| 0 <= j < lines_of(s).len() ==> no_newline(#[trigger] lines_of(s)[j]),
    decreases s.len(),
{
    if s.len() > 0 {
        let p = |j: int| s[j] == '\n';
        lemma_first_from(s.len() as int, p, 0);
        match first_from(s.len() as int, p, 0) {
            Some(k) => {
                let rest = s.subrange(k + 1, s.len() as int);
                lemma_lines_have_no_newline(rest);
                let head = s.subrange(0, k);
                assert(no_newline(head)) by {
                    assert forall|m: int| 0 <= m < head.len() implies head[m] != '\n' by {
                        assert(!p(m));
                    }
                }
                assert(no_newline(strip_cr(head)));
                assert forall|j: int| 0 <= j < lines_of(s).len() implies no_newline(
                    #[trigger] lines_of(s)[j],
                ) by {
                    if j > 0 {
                        assert(lines_of(s)[j] == lines_of(rest)[j - 1]);
                    }
                }
            },
            None => {
                assert forall|m: int| 0 <= m < s.len() implies s[m] != '\n' by {
                    assert(!p(m));
                }
            },
        }
    }
}

/// Joined lines are the first line, then a line feed and the rest joined.
pub proof fn lemma_join_front(ls: Seq<Seq<char>>)
    requires
        ls.len() >= 2,
    ensures
        join_lines(ls) == ls[0] + seq!['\n'] + join_lines(ls.drop_first()),
    decreases ls.len(),
{
    if ls.len() == 2 {
        assert(ls.drop_last().len() == 1);
        assert(join_lines(ls.drop_last()) == ls[0]);
        assert(ls.drop_first().len() == 1);
        assert(join_lines(ls.drop_first()) == ls[1]);
    } else {
        lemma_join_front(ls.drop_last());
        assert(ls.drop_last().drop_first() =~= ls.drop_first().drop_last());
        assert(ls.drop_first().last() == ls.last());
        assert(join_lines(ls.drop_first()) == join_lines(ls.drop_first().drop_last()) + seq!['\n']
            + ls.drop_first().last());
    }
}

/// A line, a line feed and more text split into the line (without a
/// carriage return before the feed) and the lines of the rest.
pub proof fn lemma_lines_of_line_then_rest(l: Seq<char>, rest: Seq<char>)
    requires
        no_newline(l),
    ensures
        lines_of(l + seq!['\n'] + rest) == seq![strip_cr(l)] + lines_of(rest),
{
    let s = l + seq!['\n'] + rest;
    let p = |j: int| s[j] == '\n';
    assert forall|j: int| 0 <= j < l.len() implies !#[trigger] p(j) by {
        assert(s[j] == l[j]);
    }
    assert(p(l.len() as int));
    lemma_first_from_unique(s.len() as int, p, 0, Some(l.len() as int));
    assert(s.subrange(0, l.len() as int) =~= l);
    assert(s.subrange(l.len() as int + 1, s.len() as int) =~= rest);
}

/// A non-empty text without a line feed is one line.
pub proof fn lemma_lines_of_single(l: Seq<char>)
    requires
        no_newline(l),
        l.len() > 0,
    ensures
        lines_of(l) == seq![l],
{
    let p = |j: int| l[j] == '\n';
    assert forall|j: int| 0 <= j < l.len() implies !#[trigger] p(j) by {}
    lemma_first_from_unique(l.len() as int, p, 0, None);
}

/// Lines without line feeds, joined and followed by a line feed, split back
/// into the same lines, each without a carriage return before its feed.
pub proof fn lemma_lines_of_joined_newline(ls: Seq<Seq<char>>)
    requires
        ls.len() >= 1,
        forall|j: int| 0 <= j < ls.len() ==> no_newline(#[trigger] ls[j]),
    ensures
        lines_of(join_lines(ls) + seq!['\n']) == Seq::new(ls.len(), |j: int| strip_cr(ls[j])),
    decreases ls.len(),
{
    if ls.len() == 1 {
        assert(join_lines(ls) == ls[0]);
        lemma_lines_of_line_then_rest(ls[0], Seq::empty());
        assert(ls[0] + seq!['\n'] + Seq::<char>::empty() =~= ls[0] + seq!['\n']);
        assert(lines_of(Seq::<char>::empty()) == Seq::<Seq<char>>::empty());
        assert(seq![strip_cr(ls[0])] + Seq::<Seq<char>>::empty() =~= Seq::new(
            ls.len(),
            |j: int| strip_cr(ls[j]),
        ));
    } else {
        let rest = ls.drop_first();
        lemma_join_front(ls);
        lemma_lines_of_joined_newline(rest);
        let tail = join_lines(rest) + seq!['\n'];
        assert(join_lines(ls) + seq!['\n'] =~= ls[0] + seq!['\n'] + tail);
        lemma_lines_of_line_then_rest(ls[0], tail);
        assert(seq![strip_cr(ls[0])] + Seq::new(rest.len(), |j: int| strip_cr(rest[j])) =~= Seq::new(
            ls.len(),
            |j: int| strip_cr(ls[j]),
        ));
    }
}

/// Lines without line feeds whose last one is not empty, joined, split back
/// into the same lines, each but the last without a carriage return before
/// its feed.
pub proof fn lemma_lines_of_joined(ls: Seq<Seq<char>>)
    requires
        ls.len() >= 1,
        forall|j: int| 0 <= j < ls.len() ==> no_newline(#[trigger] ls[j]),
        ls.last().len() > 0,
    ensures
        lines_of(join_lines(ls)) == Seq::new(
            ls.len(),
            |j: int|
                if j < ls.len() - 1 {
                    strip_cr(ls[j])
                } else {
                    ls[j]
                },
        ),
    decreases ls.len(),
{
    if ls.len() == 1 {
        assert(join_lines(ls) == ls[0]);
        lemma_lines_of_single(ls[0]);
        assert(seq![ls[0]] =~= Seq::new(
            ls.len(),
            |j: int|
                if j < ls.len() - 1 {
                    strip_cr(ls[j])
                } else {
                    ls[j]
                },
        ));
    } else {
        let rest = ls.drop_first();
        lemma_join_front(ls);
        lemma_lines_of_joined(rest);
        lemma_lines_of_line_then_rest(ls[0], join_lines(rest));
        assert(seq![strip_cr(ls[0])] + Seq::new(
            rest.len(),
            |j: int|
                if j < rest.len() - 1 {
                    strip_cr(rest[j])
                } else {
                    rest[j]
                },
        ) =~= Seq::new(
            ls.len(),
            |j: int|
                if j < ls.len() - 1 {
                    strip_cr(ls[j])
                } else {
                    ls[j]
                },
        ));
    }
}


/// Text indented by `n` spaces whose first and last characters are not
/// whitespace: its indentation is `n` and it trims to the text itself.
pub proof fn lemma_trim_padded(n: nat, x: Seq<char>)
    requires
        x.len() > 0,
        !is_ws(x[0]),
        !is_ws(x.last()),
    ensures
        lead_ws(spaces(n) + x) == n,
        trim(spaces(n) + x) == x,
{
    let s = spaces(n) + x;
    let p = |j: int| !is_ws(s[j]);
    assert forall|j: int| 0 <= j < n implies !#[trigger] p(j) by {
        assert(s[j] == ' ');
    }
    assert(s[n as int] == x[0]);
    lemma_first_from_unique(s.len() as int, p, 0, Some(n as int));
    let r = s.reverse();
    let q = |j: int| !is_ws(r[j]);
    assert(r[0] == x.last());
    lemma_first_from_unique(r.len() as int, q, 0, Some(0));
    assert(trail_ws(s) == 0);
    assert(s.subrange(n as int, s.len() as int) =~= x);
}

/// Two lines that trim alike and, when not blank, are indented alike: every
/// rule on configuration lines reads them the same.
pub open spec fn line_equiv(a: Seq<char>, b: Seq<char>) -> bool {
    trim(a) == trim(b) && (trim(a).len() > 0 ==> lead_ws(a) == lead_ws(b))
}

/// Dropping a carriage return at the end of a line changes nothing that the
/// configuration rules read.
pub proof fn lemma_strip_cr_equiv(l: Seq<char>)
    ensures
        line_equiv(strip_cr(l), l),
{
    if l.len() > 0 && l.last() == '\r' {
        let m = l.drop_last();
        assert(strip_cr(l) == m);
        lemma_trim_empty_iff_blank(m);
        lemma_trim_empty_iff_blank(l);
        lemma_lead_ws(m);
        if is_blank(m) {
            assert forall|j: int| 0 <= j < l.len() implies is_ws(#[trigger] l[j]) by {
                if j < m.len() {
                    assert(l[j] == m[j]);
                }
            }
            assert(trim(m) =~= trim(l));
        } else {
            let k = lead_ws(m);
            let p = |j: int| !is_ws(l[j]);
            assert forall|j: int| 0 <= j < k implies !#[trigger] p(j) by {
                assert(l[j] == m[j]);
            }
            assert(l[k] == m[k]);
            lemma_first_from_unique(l.len() as int, p, 0, Some(k));
            assert(lead_ws(l) == k);
            let rm = m.reverse();
            let rl = l.reverse();
            assert(rm[m.len() - 1 - k] == m[k]);
            assert(!is_blank(rm));
            lemma_lead_ws(rm);
            let t = lead_ws(rm);
            let q = |j: int| !is_ws(rl[j]);
            assert(rl[0] == '\r');
            assert forall|j: int| 0 <= j < t + 1 implies !#[trigger] q(j) by {
                if j > 0 {
                    assert(rl[j] == rm[j - 1]);
                }
            }
            assert(rl[t + 1] == rm[t]);
            lemma_first_from_unique(rl.len() as int, q, 0, Some(t + 1));
            assert(trail_ws(l) == t + 1);
            assert(trail_ws(m) == t);
            assert(!is_blank(l)) by {
                assert(!is_ws(l[k]));
            }
            assert(trim(l) =~= trim(m));
        }
    }
}

/// A text that does not end with a line feed ends with a non-empty line.
pub proof fn lemma_last_line_nonempty(s: Seq<char>)
    requires
        s.len() > 0,
        s.last() != '\n',
    ensures
        lines_of(s).len() > 0,
        lines_of(s).last().len() > 0,
    decreases s.len(),
{
    let p = |j: int| s[j] == '\n';
    lemma_first_from(s.len() as int, p, 0);
    match first_from(s.len() as int, p, 0) {
        Some(k) => {
            let rest = s.subrange(k + 1, s.len() as int);
            assert(k != s.len() - 1);
            assert(rest.last() == s.last());
            lemma_last_line_nonempty(rest);
            assert(lines_of(s) == seq![strip_cr(s.subrange(0, k))] + lines_of(rest));
        },
        None => {
            assert(lines_of(s) == seq![s]);
        },
    }
}

/// Lines without line feeds, joined, and followed by a line feed or ending
/// with a non-empty line, split back into as many lines, each equivalent to
/// the one it came from.
pub proof fn lemma_lines_of_join_equiv(ls: Seq<Seq<char>>, tail: Seq<char>)
    requires
        ls.len() >= 1,
        forall|j: int| 0 <= j < ls.len() ==> no_newline(#[trigger] ls[j]),
        tail == seq!['\n'] || (tail.len() == 0 && ls.last().len() > 0),
    ensures
        lines_of(join_lines(ls) + tail).len() == ls.len(),
        forall|j: int|
            0 <= j < ls.len() ==> line_equiv(#[trigger] lines_of(join_lines(ls) + tail)[j], ls[j]),
{
    if tail.len() > 0 {
        lemma_lines_of_joined_newline(ls);
        assert forall|j: int| 0 <= j < ls.len() implies line_equiv(strip_cr(#[trigger] ls[j]), ls[j]) by {
            lemma_strip_cr_equiv(ls[j]);
        }
    } else {
        assert(join_lines(ls) + tail =~= join_lines(ls));
        lemma_lines_of_joined(ls);
        assert forall|j: int| 0 <= j < ls.len() - 1 implies line_equiv(strip_cr(#[trigger] ls[j]), ls[j]) by {
            lemma_strip_cr_equiv(ls[j]);
        }
    }
}

} // verus!
