//! Log redaction and rotation decisions for the desktop and CliRelay logs.
use crate::paths::DesktopPaths;
use crate::text::{
    chars_of, decimal, decimal_chars, find, find_chars, first_from, push_all, slice_range, string_from_chars,
};
use vstd::prelude::*;

verus! {

pub const MAX_LOG_BYTES: u64 = 10485760;
pub const MAX_ROTATED_FILES: usize = 5;

/// `input` cut at the first `marker` and completed with `replacement`, or
/// `input` unchanged when the marker does not occur.
pub open spec fn redact_after(input: Seq<char>, marker: Seq<char>, replacement: Seq<char>) -> Seq<char> {
    match find(input, marker) {
        Some(k) => input.subrange(0, k) + replacement,
        None => input,
    }
}

/// The markers of secret values, each with the text that replaces everything
/// from the marker on, in the order they are applied.
pub open spec fn redaction_rules() -> Seq<(Seq<char>, Seq<char>)> {
    seq![
        ("Authorization:"@, "Authorization: [REDACTED]"@),
        ("authorization:"@, "authorization: [REDACTED]"@),
        ("api_key="@, "api_key=[REDACTED]"@),
        ("api-key:"@, "api-key: [REDACTED]"@),
        ("cookie:"@, "cookie: [REDACTED]"@),
        ("oauth_token="@, "oauth_token=[REDACTED]"@),
        ("secret-key:"@, "secret-key: [REDACTED]"@),
    ]
}

/// `input` after the first `n` redaction rules, applied in order.
pub open spec fn redact_with_rules(input: Seq<char>, n: nat) -> Seq<char>
    decreases n,
{
    if n == 0 {
        input
    } else {
        let rule = redaction_rules()[n - 1];
        redact_after(redact_with_rules(input, (n - 1) as nat), rule.0, rule.1)
    }
}

/// A desktop log line with every secret marker's value redacted.
pub open spec fn redacted_line(input: Seq<char>) -> Seq<char> {
    redact_with_rules(input, 7)
}

fn redact_after_marker(input: &Vec<char>, marker: &str, replacement: &str) -> (r: Vec<char>)
    ensures
        r@ == redact_after(input@, marker@, replacement@),
{
    let m = chars_of(marker);
    match find_chars(input.as_slice(), m.as_slice()) {
        Some(start) => {
            let mut r = slice_range(input.as_slice(), 0, start);
            let rep = chars_of(replacement);
            push_all(&mut r, rep.as_slice());
            r
        },
        None => {
            let r = slice_range(input.as_slice(), 0, input.len());
            assert(r@ =~= input@);
            r
        },
    }
}

struct RedactionRule {
    marker: &'static str,
    replacement: &'static str,
}

impl RedactionRule {
    fn new(marker: &'static str, replacement: &'static str) -> (r: Self)
        ensures
            r.marker == marker,
            r.replacement == replacement,
    {
        Self { marker, replacement }
    }
}

/// Redacts the value after each known secret marker in a desktop log line.
pub fn redact_log_line(input: &str) -> (r: String)
    ensures
        r@ == redacted_line(input@),
{
    let rules = [
        RedactionRule::new("Authorization:", "Authorization: [REDACTED]"),
        RedactionRule::new("authorization:", "authorization: [REDACTED]"),
        RedactionRule::new("api_key=", "api_key=[REDACTED]"),
        RedactionRule::new("api-key:", "api-key: [REDACTED]"),
        RedactionRule::new("cookie:", "cookie: [REDACTED]"),
        RedactionRule::new("oauth_token=", "oauth_token=[REDACTED]"),
        RedactionRule::new("secret-key:", "secret-key: [REDACTED]"),
    ];
    let mut redacted = chars_of(input);
    let mut i: usize = 0;
    while i < 7
        invariant
            0 <= i <= 7,
            redacted@ == redact_with_rules(input@, i as nat),
            forall|j: int| 0 <= j < 7 ==> (#[trigger] rules@[j]).marker@ == redaction_rules()[j].0
                && rules@[j].replacement@ == redaction_rules()[j].1,
        decreases 7 - i,
    {
        redacted = redact_after_marker(&redacted, rules[i].marker, rules[i].replacement);
        i = i + 1;
    }
    string_from_chars(redacted.as_slice())
}

/// The only log files the UI may read: the (redacted) desktop log.
pub fn ui_readable_log_files(paths: &DesktopPaths) -> (r: Vec<String>)
    ensures
        r@ == seq![paths.desktop_log],
{
    let mut r = Vec::new();
    r.push(paths.desktop_log.clone());
    assert(r@ =~= seq![paths.desktop_log]);
    r
}

/// A line to append to a log file (a line feed follows it).
#[derive(Clone, Debug)]
pub struct LogAppend {
    pub path: String,
    pub line: String,
}

/// The append that records a desktop log line: to the desktop log, with its
/// secrets redacted.
pub fn append_desktop_log_line(paths: &DesktopPaths, line: &str) -> (r: LogAppend)
    ensures
        r.path@ == paths.desktop_log@,
        r.line@ == redacted_line(line@),
{
    LogAppend { path: paths.desktop_log.clone(), line: redact_log_line(line) }
}

/// The append that records a line of CliRelay's output: to the CliRelay log,
/// exactly as written.
pub fn append_clirelay_output_line(paths: &DesktopPaths, line: &str) -> (r: LogAppend)
    ensures
        r.path@ == paths.clirelay_log@,
        r.line@ == line@,
{
    LogAppend { path: paths.clirelay_log.clone(), line: crate::text::owned(line) }
}

/// The path of the `index`-th rotated copy of a log: the log's path, a dot and
/// the index.
pub open spec fn rotated_path(log_path: Seq<char>, index: nat) -> Seq<char> {
    log_path + seq!['.'] + decimal(index)
}

pub fn rotated_log_path(log_path: &str, index: usize) -> (r: String)
    ensures
        r@ == rotated_path(log_path@, index as nat),
{
    let mut v = chars_of(log_path);
    v.push('.');
    let d = decimal_chars(index as u64);
    push_all(&mut v, d.as_slice());
    string_from_chars(v.as_slice())
}

/// One file operation of a log rotation.
#[derive(Clone, Debug, PartialEq, Eq)]
pub enum RotationStep {
    Remove(String),
    Rename(String, String),
}

/// The renames that shift rotated copies `k`, `k - 1`, ..., `1` up by one, for
/// the copies that exist (`existing[i]` says whether copy `i + 1` exists), as
/// `(from, Some(to))` pairs.
pub open spec fn shift_steps(log_path: Seq<char>, existing: Seq<bool>, k: nat) -> Seq<(Seq<char>, Option<Seq<char>>)>
    decreases k,
{
    if k == 0 {
        Seq::empty()
    } else {
        let here: Seq<(Seq<char>, Option<Seq<char>>)> = if existing[k - 1] {
            seq![(rotated_path(log_path, k), Some(rotated_path(log_path, k + 1)))]
        } else {
            Seq::empty()
        };
        here + shift_steps(log_path, existing, (k - 1) as nat)
    }
}

/// The view of a rotation step: `(from, Some(to))` for a rename, `(path, None)`
/// for a removal.
pub open spec fn step_view(step: RotationStep) -> (Seq<char>, Option<Seq<char>>) {
    match step {
        RotationStep::Remove(p) => (p@, None),
        RotationStep::Rename(a, b) => (a@, Some(b@)),
    }
}

/// The rotation of a log of `log_len` bytes (`None` when the log does not
/// exist): nothing below the size limit; otherwise the oldest copy is removed
/// when present, the others shift up by one from the oldest down, and the log
/// becomes copy 1. `existing[i]` says whether copy `i + 1` exists.
pub open spec fn rotation_plan_spec(log_path: Seq<char>, log_len: Option<u64>, existing: Seq<bool>) -> Option<
    Seq<(Seq<char>, Option<Seq<char>>)>,
> {
    match log_len {
        Some(len) if len > MAX_LOG_BYTES => {
            let remove: Seq<(Seq<char>, Option<Seq<char>>)> = if existing[4] {
                seq![(rotated_path(log_path, 5), None)]
            } else {
                Seq::empty()
            };
            Some(remove + shift_steps(log_path, existing, 4) + seq![(log_path, Some(rotated_path(log_path, 1)))])
        },
        _ => None,
    }
}

/// The file operations that rotate a log, or `None` when it needs no rotation.
pub fn rotation_plan(log_path: &str, log_len: Option<u64>, existing: &Vec<bool>) -> (r: Option<Vec<RotationStep>>)
    requires
        existing@.len() == MAX_ROTATED_FILES,
    ensures
        match (r, rotation_plan_spec(log_path@, log_len, existing@)) {
            (Some(steps), Some(plan)) => steps@.map_values(|s: RotationStep| step_view(s)) == plan,
            (None, None) => true,
            _ => false,
        },
{
    let len = match log_len {
        Some(len) if len > MAX_LOG_BYTES => len,
        _ => {
            return None;
        },
    };
    let ghost lp = log_path@;
    let mut steps: Vec<RotationStep> = Vec::new();
    if existing[4] {
        steps.push(RotationStep::Remove(rotated_log_path(log_path, 5)));
    }
    let ghost remove: Seq<(Seq<char>, Option<Seq<char>>)> = if existing@[4] {
        seq![(rotated_path(lp, 5), None)]
    } else {
        Seq::empty()
    };
    assert(steps@.map_values(|s: RotationStep| step_view(s)) =~= remove);
    let mut index: usize = 4;
    while index >= 1
        invariant
            0 <= index <= 4,
            existing@.len() == MAX_ROTATED_FILES,
            lp == log_path@,
            steps@.map_values(|s: RotationStep| step_view(s)) + shift_steps(lp, existing@, index as nat)
                == remove + shift_steps(lp, existing@, 4),
        decreases index,
    {
        let ghost before = steps@.map_values(|s: RotationStep| step_view(s));
        if existing[index - 1] {
            steps.push(RotationStep::Rename(rotated_log_path(log_path, index), rotated_log_path(log_path, index + 1)));
        }
        proof {
            let here: Seq<(Seq<char>, Option<Seq<char>>)> = if existing@[index - 1] {
                seq![(rotated_path(lp, index as nat), Some(rotated_path(lp, (index + 1) as nat)))]
            } else {
                Seq::empty()
            };
            assert(steps@.map_values(|s: RotationStep| step_view(s)) =~= before + here);
            assert(shift_steps(lp, existing@, index as nat) == here + shift_steps(lp, existing@, (index - 1) as nat));
            assert(before + here + shift_steps(lp, existing@, (index - 1) as nat) =~= before + shift_steps(lp, existing@, index as nat));
        }
        index = index - 1;
    }
    let ghost before = steps@.map_values(|s: RotationStep| step_view(s));
    steps.push(RotationStep::Rename(log_path.to_owned(), rotated_log_path(log_path, 1)));
    proof {
        assert(shift_steps(lp, existing@, 0) =~= Seq::<(Seq<char>, Option<Seq<char>>)>::empty());
        assert(before =~= remove + shift_steps(lp, existing@, 4));
        assert(steps@.map_values(|s: RotationStep| step_view(s)) =~= before.push((lp, Some(rotated_path(lp, 1)))));
    }
    Some(steps)
}

// ---------------------------------------------------------------------------
// What redaction leaves of a line

/// `m` occurs in `s` at position `p`.
pub open spec fn occurs_at(s: Seq<char>, m: Seq<char>, p: int) -> bool {
    0 <= p && p + m.len() <= s.len() && s.subrange(p, p + m.len()) == m
}

/// The rule, among the first `n`, whose marker occurs in `s` at `p`.
pub open spec fn marker_at(s: Seq<char>, p: int, n: nat) -> Option<int>
    decreases n,
{
    if n == 0 {
        None
    } else if occurs_at(s, redaction_rules()[n - 1].0, p) {
        Some(n - 1)
    } else {
        marker_at(s, p, (n - 1) as nat)
    }
}

/// Whether some marker of the first `n` rules occurs at a position of `s`.
pub open spec fn has_marker_at(s: Seq<char>, n: nat) -> spec_fn(int) -> bool {
    |p: int| marker_at(s, p, n) is Some
}

/// The first position of `s` where a marker of the first `n` rules occurs.
pub open spec fn first_marker(s: Seq<char>, n: nat) -> Option<int> {
    first_from(s.len() as int, has_marker_at(s, n), 0)
}

/// `s` up to its first marker of the first `n` rules, followed by that rule's
/// replacement; `s` itself when no such marker occurs.
pub open spec fn cut_at_first_marker(s: Seq<char>, n: nat) -> Seq<char> {
    match first_marker(s, n) {
        Some(p) => s.subrange(0, p) + redaction_rules()[marker_at(s, p, n)->0].1,
        None => s,
    }
}

/// Whether `a` and `b` hold the same characters wherever both have one.
pub open spec fn agree(a: Seq<char>, b: Seq<char>) -> bool {
    forall|k: int| 0 <= k < a.len() && k < b.len() ==> a[k] == b[k]
}

/// No marker overlaps another one or a shifted copy of itself: from any
/// position inside a marker, or from the start of a different marker, the
/// text disagrees with the start of each marker.
proof fn lemma_markers_never_overlap()
    ensures
        forall|i: int, j: int, d: int|
            0 <= i < 7 && 0 <= j < 7 && 0 <= d < redaction_rules()[j].0.len() && (d > 0 || i != j)
                ==> !agree(
                #[trigger] redaction_rules()[j].0.subrange(d, redaction_rules()[j].0.len() as int),
                #[trigger] redaction_rules()[i].0,
            ),
{
    reveal_strlit("Authorization:");
    reveal_strlit("authorization:");
    reveal_strlit("api_key=");
    reveal_strlit("api-key:");
    reveal_strlit("cookie:");
    reveal_strlit("oauth_token=");
    reveal_strlit("secret-key:");
    assert forall|i: int, j: int, d: int|
        0 <= i < 7 && 0 <= j < 7 && 0 <= d < redaction_rules()[j].0.len() && (d > 0 || i != j) implies !agree(
        redaction_rules()[j].0.subrange(d, redaction_rules()[j].0.len() as int),
        redaction_rules()[i].0,
    ) by {
        let mj = redaction_rules()[j].0;
        let mi = redaction_rules()[i].0;
        let a = mj.subrange(d, mj.len() as int);
        if agree(a, mi) {
            assert(a[0] == mi[0]);
            if a.len() > 1 {
                assert(a[1] == mi[1]);
            }
            if a.len() > 3 {
                assert(a[3] == mi[3]);
            }
            if a.len() > 4 {
                assert(a[4] == mi[4]);
            }
        }
    }
}

/// Each replacement starts with its marker, and no marker starts inside the
/// text that a replacement adds after its marker.
proof fn lemma_replacement_shape()
    ensures
        forall|i: int|
            0 <= i < 7 ==> 0 < (#[trigger] redaction_rules()[i]).0.len() < redaction_rules()[i].1.len()
                && redaction_rules()[i].1.subrange(0, redaction_rules()[i].0.len() as int)
                == redaction_rules()[i].0,
        forall|i: int, j: int, e: int|
            0 <= i < 7 && 0 <= j < 7 && redaction_rules()[i].0.len() <= e && e + redaction_rules()[j].0.len()
                <= redaction_rules()[i].1.len() ==> #[trigger] redaction_rules()[i].1[e]
                != #[trigger] redaction_rules()[j].0[0],
{
    reveal_strlit("Authorization:");
    reveal_strlit("authorization:");
    reveal_strlit("api_key=");
    reveal_strlit("api-key:");
    reveal_strlit("cookie:");
    reveal_strlit("oauth_token=");
    reveal_strlit("secret-key:");
    reveal_strlit("Authorization: [REDACTED]");
    reveal_strlit("authorization: [REDACTED]");
    reveal_strlit("api_key=[REDACTED]");
    reveal_strlit("api-key: [REDACTED]");
    reveal_strlit("cookie: [REDACTED]");
    reveal_strlit("oauth_token=[REDACTED]");
    reveal_strlit("secret-key: [REDACTED]");
    assert forall|i: int| 0 <= i < 7 implies 0 < (#[trigger] redaction_rules()[i]).0.len()
        < redaction_rules()[i].1.len() && redaction_rules()[i].1.subrange(0, redaction_rules()[i].0.len() as int)
        == redaction_rules()[i].0 by {
        let r = redaction_rules()[i];
        assert(r.1.subrange(0, r.0.len() as int) =~= r.0);
    }
}

/// Where `find` stops: at the first occurrence, or nowhere.
proof fn lemma_find_occurs(s: Seq<char>, m: Seq<char>)
    requires
        m.len() > 0,
    ensures
        match find(s, m) {
            Some(k) => occurs_at(s, m, k) && forall|q: int| q < k ==> !#[trigger] occurs_at(s, m, q),
            None => forall|q: int| !#[trigger] occurs_at(s, m, q),
        },
{
    crate::text::lemma_first_from(s.len() - m.len() + 1, crate::text::occurs_from(s, m), 0);
    match find(s, m) {
        Some(k) => {
            assert(s.subrange(k, k + m.len()) == m);
            assert forall|q: int| q < k implies !#[trigger] occurs_at(s, m, q) by {
                if 0 <= q {
                    assert(!crate::text::occurs_from(s, m)(q));
                }
            }
        },
        None => {
            assert forall|q: int| !#[trigger] occurs_at(s, m, q) by {
                if 0 <= q && q + m.len() <= s.len() {
                    assert(!crate::text::occurs_from(s, m)(q));
                }
            }
        },
    }
}

/// The rule `marker_at` names has its marker at that position, and no rule
/// among the first `n` has when it names none.
proof fn lemma_marker_at(s: Seq<char>, p: int, n: nat)
    requires
        n <= 7,
    ensures
        match marker_at(s, p, n) {
            Some(i) => 0 <= i < n && occurs_at(s, redaction_rules()[i].0, p),
            None => forall|i: int| 0 <= i < n ==> !occurs_at(s, #[trigger] redaction_rules()[i].0, p),
        },
    decreases n,
{
    if n > 0 {
        lemma_marker_at(s, p, (n - 1) as nat);
    }
}

/// Two markers never occur in one text so that the second starts inside the
/// first, nor do two different markers start at one position.
proof fn lemma_occurrences_apart(x: Seq<char>, i: int, j: int, a: int, b: int)
    requires
        0 <= i < 7,
        0 <= j < 7,
        occurs_at(x, redaction_rules()[j].0, a),
        a <= b < a + redaction_rules()[j].0.len(),
        a < b || i != j,
    ensures
        !occurs_at(x, redaction_rules()[i].0, b),
{
    if occurs_at(x, redaction_rules()[i].0, b) {
        lemma_overlap_agrees(x, i, j, a, b);
        lemma_markers_never_overlap();
    }
}

/// A marker that starts inside another one agrees with the rest of it.
proof fn lemma_overlap_agrees(x: Seq<char>, i: int, j: int, a: int, b: int)
    requires
        0 <= i < 7,
        0 <= j < 7,
        occurs_at(x, redaction_rules()[j].0, a),
        occurs_at(x, redaction_rules()[i].0, b),
        a <= b < a + redaction_rules()[j].0.len(),
    ensures
        agree(
            redaction_rules()[j].0.subrange(b - a, redaction_rules()[j].0.len() as int),
            redaction_rules()[i].0,
        ),
{
    let mj = redaction_rules()[j].0;
    let mi = redaction_rules()[i].0;
    let d = b - a;
    let tail = mj.subrange(d, mj.len() as int);
    assert forall|k: int| 0 <= k < tail.len() && k < mi.len() implies tail[k] == mi[k] by {
        assert(tail[k] == mj[d + k]);
        assert(x.subrange(a, a + mj.len())[d + k] == x[a + d + k]);
        assert(x.subrange(b, b + mi.len())[k] == x[b + k]);
    }
}

/// Applying one more rule keeps a redacted line cut at its first marker.
proof fn lemma_redaction_step(x: Seq<char>, n: nat)
    requires
        n < 7,
        redact_with_rules(x, n) == cut_at_first_marker(x, n),
    ensures
        redact_with_rules(x, n + 1) == cut_at_first_marker(x, n + 1),
{
    lemma_replacement_shape();
    let rule = redaction_rules()[n as int];
    let m = rule.0;
    let r = rule.1;
    let t = redact_with_rules(x, n);
    assert(redact_with_rules(x, n + 1) == redact_after(t, m, r));
    lemma_find_occurs(x, m);
    lemma_find_occurs(t, m);
    let len = x.len() as int;
    let before = has_marker_at(x, n);
    let after = has_marker_at(x, n + 1);
    crate::text::lemma_first_from(len, before, 0);
    assert forall|p: int| #[trigger] after(p) == (occurs_at(x, m, p) || before(p)) by {}
    match first_marker(x, n) {
        None => {
            assert(t == x);
            match find(x, m) {
                Some(q) => {
                    assert(after(q));
                    assert forall|p: int| 0 <= p < q implies !#[trigger] after(p) by {
                        assert(!before(p));
                    }
                    crate::text::lemma_first_from_unique(len, after, 0, Some(q));
                    assert(marker_at(x, q, n + 1) == Some(n as int));
                },
                None => {
                    assert forall|p: int| 0 <= p < len implies !#[trigger] after(p) by {
                        assert(!before(p));
                    }
                    crate::text::lemma_first_from_unique(len, after, 0, None);
                },
            }
        },
        Some(p) => {
            lemma_marker_at(x, p, n);
            let i = marker_at(x, p, n)->0;
            let mi = redaction_rules()[i].0;
            let ri = redaction_rules()[i].1;
            assert(t == x.subrange(0, p) + ri);
            assert(occurs_at(t, mi, p)) by {
                assert(t.subrange(p, p + mi.len()) =~= ri.subrange(0, mi.len() as int));
            }
            let earlier = match find(x, m) {
                Some(q) => q < p,
                None => false,
            };
            if earlier {
                let q = find(x, m)->0;
                if q + m.len() > p {
                    lemma_occurrences_apart(x, i, n as int, q, p);
                }
                assert(t.subrange(q, q + m.len()) =~= x.subrange(q, q + m.len()));
                assert(occurs_at(t, m, q));
                let k = find(t, m)->0;
                if k < q {
                    assert(t.subrange(k, k + m.len()) =~= x.subrange(k, k + m.len()));
                    assert(occurs_at(x, m, k));
                }
                assert(find(t, m) == Some(q));
                assert(t.subrange(0, q) =~= x.subrange(0, q));
                assert(after(q));
                assert forall|p2: int| 0 <= p2 < q implies !#[trigger] after(p2) by {
                    assert(!before(p2));
                }
                crate::text::lemma_first_from_unique(len, after, 0, Some(q));
                assert(marker_at(x, q, n + 1) == Some(n as int));
            } else {
                if occurs_at(x, m, p) {
                    lemma_occurrences_apart(x, i, n as int, p, p);
                }
                assert forall|q: int| !#[trigger] occurs_at(t, m, q) by {
                    if occurs_at(t, m, q) {
                        if q + m.len() <= p {
                            assert(t.subrange(q, q + m.len()) =~= x.subrange(q, q + m.len()));
                            assert(occurs_at(x, m, q));
                        } else if q <= p {
                            lemma_occurrences_apart(t, i, n as int, q, p);
                        } else if q < p + mi.len() {
                            lemma_occurrences_apart(t, n as int, i, p, q);
                        } else {
                            assert(t.subrange(q, q + m.len())[0] == t[q]);
                            assert(t[q] == ri[q - p]);
                            assert(ri[q - p] != m[0]);
                        }
                    }
                }
                assert(find(t, m) is None);
                assert(before(p));
                assert(after(p));
                assert forall|p2: int| 0 <= p2 < p implies !#[trigger] after(p2) by {
                    assert(!before(p2));
                }
                crate::text::lemma_first_from_unique(len, after, 0, Some(p));
                assert(marker_at(x, p, n + 1) == marker_at(x, p, n));
            }
        },
    }
}

/// The first `n` rules leave a line cut at its first marker among them.
proof fn lemma_redaction_through(x: Seq<char>, n: nat)
    requires
        n <= 7,
    ensures
        redact_with_rules(x, n) == cut_at_first_marker(x, n),
    decreases n,
{
    if n == 0 {
        let none = has_marker_at(x, 0);
        assert forall|p: int| 0 <= p < x.len() implies !#[trigger] none(p) by {}
        crate::text::lemma_first_from_unique(x.len() as int, none, 0, None);
    } else {
        lemma_redaction_through(x, (n - 1) as nat);
        lemma_redaction_step(x, (n - 1) as nat);
    }
}

/// A desktop log line keeps its text up to the first position where a secret
/// marker starts, followed by that marker's fixed replacement, and is kept
/// whole when no marker occurs: nothing that follows a marker reaches the
/// desktop log.
pub proof fn lemma_redaction_cuts_at_first_marker(input: Seq<char>)
    ensures
        redacted_line(input) == cut_at_first_marker(input, 7),
{
    lemma_redaction_through(input, 7);
}

// ---------------------------------------------------------------------------
// What a rotation keeps

/// The step that moves rotated copy `k` up to copy `k + 1`.
pub open spec fn move_up(log_path: Seq<char>, k: nat) -> (Seq<char>, Option<Seq<char>>) {
    (rotated_path(log_path, k), Some(rotated_path(log_path, k + 1)))
}

/// The copies that a rotation moves up, from the highest down.
spec fn moved_copies(existing: Seq<bool>, k: nat) -> Seq<nat>
    decreases k,
{
    if k == 0 {
        Seq::empty()
    } else {
        (if existing[k - 1] {
            seq![k]
        } else {
            Seq::<nat>::empty()
        }) + moved_copies(existing, (k - 1) as nat)
    }
}

proof fn lemma_moved_copies(log_path: Seq<char>, existing: Seq<bool>, k: nat)
    requires
        k <= existing.len(),
    ensures
        shift_steps(log_path, existing, k) == moved_copies(existing, k).map_values(
            |j: nat| move_up(log_path, j),
        ),
        forall|p: int| 0 <= p < moved_copies(existing, k).len() ==> 1 <= #[trigger] moved_copies(existing, k)[p] <= k,
        forall|p: int, q: int|
            0 <= p < q < moved_copies(existing, k).len() ==> #[trigger] moved_copies(existing, k)[p]
                > #[trigger] moved_copies(existing, k)[q],
        forall|j: nat| 1 <= j <= k ==> (moved_copies(existing, k).contains(j) <==> existing[j - 1]),
    decreases k,
{
    if k > 0 {
        let k1 = (k - 1) as nat;
        lemma_moved_copies(log_path, existing, k1);
        let here: Seq<nat> = if existing[k - 1] {
            seq![k]
        } else {
            Seq::<nat>::empty()
        };
        let rest = moved_copies(existing, k1);
        let all = moved_copies(existing, k);
        assert(all == here + rest);
        assert(shift_steps(log_path, existing, k) =~= all.map_values(|j: nat| move_up(log_path, j))) by {
            let hs: Seq<(Seq<char>, Option<Seq<char>>)> = if existing[k - 1] {
                seq![(rotated_path(log_path, k), Some(rotated_path(log_path, k + 1)))]
            } else {
                Seq::empty()
            };
            assert(hs =~= here.map_values(|j: nat| move_up(log_path, j)));
            assert(all.map_values(|j: nat| move_up(log_path, j)) =~= here.map_values(
                |j: nat| move_up(log_path, j),
            ) + rest.map_values(|j: nat| move_up(log_path, j)));
        }
        assert forall|p: int| 0 <= p < all.len() implies 1 <= #[trigger] all[p] <= k by {
            if p >= here.len() {
                assert(all[p] == rest[p - here.len()]);
            }
        }
        assert forall|p: int, q: int| 0 <= p < q < all.len() implies #[trigger] all[p] > #[trigger] all[q] by {
            if p >= here.len() {
                assert(all[p] == rest[p - here.len()]);
            }
            assert(all[q] == rest[q - here.len()]);
        }
        assert forall|j: nat| 1 <= j <= k implies (all.contains(j) <==> existing[j - 1]) by {
            if j == k {
                if existing[k - 1] {
                    assert(all[0] == k);
                } else {
                    if all.contains(j) {
                        let p = choose|p: int| 0 <= p < all.len() && all[p] == j;
                        assert(all[p] == rest[p]);
                    }
                }
            } else {
                if rest.contains(j) {
                    let p = choose|p: int| 0 <= p < rest.len() && rest[p] == j;
                    assert(all[p + here.len()] == rest[p]);
                }
                if all.contains(j) {
                    let p = choose|p: int| 0 <= p < all.len() && all[p] == j;
                    if p < here.len() {
                        assert(all[p] == k);
                    } else {
                        assert(all[p] == rest[p - here.len()]);
                    }
                }
            }
        }
    }
}

/// Rotated copies 1 to 5 have different paths, none of them the log's.
proof fn lemma_rotated_paths_differ(log_path: Seq<char>, a: nat, b: nat)
    requires
        1 <= a <= 5,
        1 <= b <= 5,
    ensures
        rotated_path(log_path, a).len() == log_path.len() + 2,
        rotated_path(log_path, a) == rotated_path(log_path, b) ==> a == b,
        rotated_path(log_path, a) != log_path,
{
    let ra = rotated_path(log_path, a);
    let rb = rotated_path(log_path, b);
    assert(decimal(a) == seq![crate::text::digit_char(a)]);
    assert(decimal(b) == seq![crate::text::digit_char(b)]);
    assert(ra.last() == crate::text::digit_char(a));
    assert(rb.last() == crate::text::digit_char(b));
}

/// A rotation happens exactly when the log exists and is over the size
/// limit. It then removes copy 5 first when it exists, moves up each copy
/// from 4 down to 1 exactly when that copy exists, from the highest down so
/// that no copy is written over before it has moved, and ends by making the
/// log copy 1; it does nothing else.
pub proof fn lemma_rotation_keeps_every_copy(log_path: Seq<char>, log_len: Option<u64>, existing: Seq<bool>)
    requires
        existing.len() == 5,
    ensures
        rotation_plan_spec(log_path, log_len, existing) is Some <==> (log_len matches Some(n) && n
            > MAX_LOG_BYTES),
        rotation_plan_spec(log_path, log_len, existing) matches Some(plan) ==> {
            &&& forall|k: nat| 1 <= k <= 4 ==> (plan.contains(move_up(log_path, k)) <==> existing[k - 1])
            &&& plan.contains((rotated_path(log_path, 5), None)) <==> existing[4]
            &&& existing[4] ==> plan[0] == (rotated_path(log_path, 5), None::<Seq<char>>)
            &&& plan.len() > 0 && plan.last() == (log_path, Some(rotated_path(log_path, 1)))
            &&& forall|i: int|
                0 <= i < plan.len() ==> (#[trigger] plan[i] == (rotated_path(log_path, 5), None::<Seq<char>>)
                    || plan[i] == (log_path, Some(rotated_path(log_path, 1))) || exists|k: nat|
                    1 <= k <= 4 && plan[i] == move_up(log_path, k))
            &&& forall|i1: int, i2: int, j1: nat, j2: nat|
                #![trigger plan[i1], plan[i2], move_up(log_path, j1), move_up(log_path, j2)]
                0 <= i1 < i2 < plan.len() && 1 <= j1 <= 4 && 1 <= j2 <= 4 && plan[i1] == move_up(log_path, j1)
                    && plan[i2] == move_up(log_path, j2) ==> j1 > j2
        },
{
    if let Some(plan) = rotation_plan_spec(log_path, log_len, existing) {
        lemma_moved_copies(log_path, existing, 4);
        let idx = moved_copies(existing, 4);
        let mid = idx.map_values(|j: nat| move_up(log_path, j));
        let remove: Seq<(Seq<char>, Option<Seq<char>>)> = if existing[4] {
            seq![(rotated_path(log_path, 5), None)]
        } else {
            Seq::empty()
        };
        let last = (log_path, Some(rotated_path(log_path, 1)));
        assert(plan == remove + mid + seq![last]);
        let rl = remove.len() as int;
        lemma_rotated_paths_differ(log_path, 1, 1);
        lemma_rotated_paths_differ(log_path, 5, 5);
        // Where each kind of step stands.
        assert forall|i: int| 0 <= i < plan.len() implies (#[trigger] plan[i] == (rotated_path(log_path, 5), None::<
            Seq<char>,
        >) || plan[i] == last || exists|k: nat| 1 <= k <= 4 && plan[i] == move_up(log_path, k)) by {
            if rl <= i < rl + mid.len() {
                assert(plan[i] == mid[i - rl]);
                assert(mid[i - rl] == move_up(log_path, idx[i - rl]));
            }
        }
        // A move of copy k stands only among the moves, at the place of k.
        assert forall|i: int, k: nat|
            #![trigger plan[i], move_up(log_path, k)]
            0 <= i < plan.len() && 1 <= k <= 4 && plan[i] == move_up(log_path, k) implies rl <= i < rl
                + mid.len() && idx[i - rl] == k by {
            lemma_rotated_paths_differ(log_path, k, 1);
            if i == plan.len() - 1 {
                assert(plan[i] == last);
            } else if i < rl {
                assert(plan[i] == remove[i]);
            } else {
                assert(plan[i] == mid[i - rl]);
                let j = idx[i - rl];
                lemma_rotated_paths_differ(log_path, j, k);
            }
        }
        assert forall|k: nat| 1 <= k <= 4 implies (plan.contains(move_up(log_path, k)) <==> existing[k - 1]) by {
            if existing[k - 1] {
                assert(idx.contains(k));
                let p = choose|p: int| 0 <= p < idx.len() && idx[p] == k;
                assert(plan[rl + p] == mid[p]);
            }
            if plan.contains(move_up(log_path, k)) {
                let i = choose|i: int| 0 <= i < plan.len() && plan[i] == move_up(log_path, k);
                assert(idx[i - rl] == k);
                assert(idx.contains(k));
            }
        }
        if plan.contains((rotated_path(log_path, 5), None)) {
            let i = choose|i: int| 0 <= i < plan.len() && plan[i] == (rotated_path(log_path, 5), None::<Seq<char>>);
            if !existing[4] {
                if i == plan.len() - 1 {
                    assert(plan[i] == last);
                } else {
                    assert(plan[i] == mid[i]);
                }
            }
        }
        if existing[4] {
            assert(plan[0] == remove[0]);
            assert(plan.contains((rotated_path(log_path, 5), None)));
        }
        assert forall|i1: int, i2: int, j1: nat, j2: nat|
            #![trigger plan[i1], plan[i2], move_up(log_path, j1), move_up(log_path, j2)]
            0 <= i1 < i2 < plan.len() && 1 <= j1 <= 4 && 1 <= j2 <= 4 && plan[i1] == move_up(log_path, j1)
                && plan[i2] == move_up(log_path, j2) implies j1 > j2 by {
            assert(idx[i1 - rl] == j1);
            assert(idx[i2 - rl] == j2);
        }
    }
}

} // verus!
