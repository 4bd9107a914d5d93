//! JSON string literals, as serde_json writes them.
use crate::lines::no_newline;
use vstd::prelude::*;

verus! {

/// The lower-case hexadecimal digit of a value below 16.
pub open spec fn lower_hex_digit(d: u32) -> char {
    if d < 10 {
        (d + 48) as char
    } else {
        (d + 87) as char
    }
}

/// How serde_json writes one character inside a string literal: quote and
/// backslash behind a backslash, the control characters with a short escape
/// (`\b`, `\t`, `\n`, `\f`, `\r`) or as `\u00XX` in lower-case hex, and
/// every other character as itself.
pub open spec fn json_char_escape(c: char) -> Seq<char> {
    let u = c as u32;
    if c == '"' {
        seq!['\\', '"']
    } else if c == '\\' {
        seq!['\\', '\\']
    } else if u == 0x08 {
        seq!['\\', 'b']
    } else if u == 0x09 {
        seq!['\\', 't']
    } else if u == 0x0a {
        seq!['\\', 'n']
    } else if u == 0x0c {
        seq!['\\', 'f']
    } else if u == 0x0d {
        seq!['\\', 'r']
    } else if u < 0x20 {
        seq!['\\', 'u', '0', '0', lower_hex_digit(u / 16), lower_hex_digit(u % 16)]
    } else {
        seq![c]
    }
}

/// The escaped characters of `s`, in order.
pub open spec fn json_escaped(s: Seq<char>) -> Seq<char>
    decreases s.len(),
{
    if s.len() == 0 {
        Seq::empty()
    } else {
        json_escaped(s.drop_last()) + json_char_escape(s.last())
    }
}

/// The JSON string literal that serde_json writes for a string: the escaped
/// text between double quotes.
pub open spec fn json_string_literal(s: Seq<char>) -> Seq<char> {
    seq!['"'] + json_escaped(s) + seq!['"']
}

/// `serde_json::to_string` on a string slice. The contract states the
/// literal that serde_json's string formatter writes (its escape table), and
/// that the call is always `Ok`: a `str` serializes without error into an
/// in-memory buffer. An error would be handed back as its message.
#[verifier::external_body]
pub(crate) fn encode_json_string(s: &str) -> (r: Result<String, String>)
    ensures
        r is Ok,
        r is Ok ==> r->Ok_0@ == json_string_literal(s@),
{
    serde_json::to_string(s).map_err(|error| error.to_string())
}

/// One escaped character is never empty and never a line feed; it starts
/// with a backslash exactly when the character needs an escape.
pub proof fn lemma_char_escape(c: char)
    ensures
        json_char_escape(c).len() >= 1,
        no_newline(json_char_escape(c)),
        json_char_escape(c)[0] == if c == '"' || c == '\\' || (c as u32) < 0x20 {
            '\\'
        } else {
            c
        },
{
    let u = c as u32;
    if u < 0x20 && u != 0x08 && u != 0x09 && u != 0x0a && u != 0x0c && u != 0x0d {
        let hi = u / 16;
        let lo = u % 16;
        assert(hi < 2);
        assert(lower_hex_digit(hi) != '\n');
        assert(lower_hex_digit(lo) != '\n');
    }
}

/// The escaped text holds no line feed, and a non-empty text escapes to a
/// non-empty text that starts with the escape of its first character.
pub proof fn lemma_escaped(s: Seq<char>)
    ensures
        no_newline(json_escaped(s)),
        s.len() > 0 ==> json_escaped(s).len() > 0 && json_escaped(s)[0] == json_char_escape(s[0])[0],
    decreases s.len(),
{
    if s.len() > 0 {
        let init = s.drop_last();
        lemma_escaped(init);
        lemma_char_escape(s.last());
        let e = json_escaped(s);
        assert(e == json_escaped(init) + json_char_escape(s.last()));
        assert forall|k: int| 0 <= k < e.len() implies e[k] != '\n' by {
            if k >= json_escaped(init).len() {
                assert(e[k] == json_char_escape(s.last())[k - json_escaped(init).len()]);
            }
        }
        if init.len() > 0 {
            assert(init[0] == s[0]);
        } else {
            assert(s.last() == s[0]);
        }
    }
}

/// A string literal is quoted at both ends and holds no line feed.
pub proof fn lemma_literal(s: Seq<char>)
    ensures
        json_string_literal(s).len() >= 2,
        json_string_literal(s)[0] == '"',
        json_string_literal(s).last() == '"',
        no_newline(json_string_literal(s)),
        json_string_literal(s).subrange(1, json_string_literal(s).len() - 1) == json_escaped(s),
{
    lemma_escaped(s);
    let l = json_string_literal(s);
    let e = json_escaped(s);
    assert forall|k: int| 0 <= k < l.len() implies l[k] != '\n' by {
        if 1 <= k < l.len() - 1 {
            assert(l[k] == e[k - 1]);
        }
    }
    assert(l.subrange(1, l.len() - 1) =~= e);
}

/// Escaping a concatenation escapes each part in turn.
pub proof fn lemma_escaped_concat(a: Seq<char>, b: Seq<char>)
    ensures
        json_escaped(a + b) == json_escaped(a) + json_escaped(b),
    decreases b.len(),
{
    if b.len() == 0 {
        assert(a + b =~= a);
        assert(json_escaped(a) + json_escaped(b) =~= json_escaped(a));
    } else {
        lemma_escaped_concat(a, b.drop_last());
        assert((a + b).drop_last() =~= a + b.drop_last());
        assert((a + b).last() == b.last());
        assert(json_escaped(a) + json_escaped(b) =~= json_escaped(a) + json_escaped(b.drop_last())
            + json_char_escape(b.last()));
    }
}

/// Where the escape of character `x` starts in the escaped text: after the
/// escapes of the characters before it; escapes of later characters start
/// no earlier.
pub proof fn lemma_escape_position(s: Seq<char>, x: int, y: int)
    requires
        0 <= x <= y < s.len(),
    ensures
        json_escaped(s.subrange(0, x)).len() <= json_escaped(s.subrange(0, y)).len(),
        json_escaped(s.subrange(0, x)).len() < json_escaped(s).len(),
        json_escaped(s)[json_escaped(s.subrange(0, x)).len() as int] == json_char_escape(s[x])[0],
{
    let head = s.subrange(0, x);
    let rest = s.subrange(x, s.len() as int);
    assert(s =~= head + rest);
    lemma_escaped_concat(head, rest);
    lemma_escaped(rest);
    assert(rest[0] == s[x]);
    assert(s.subrange(0, y) =~= head + s.subrange(x, y));
    lemma_escaped_concat(head, s.subrange(x, y));
}

} // verus!
