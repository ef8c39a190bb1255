//! JSON string literals, as `serde_json` writes them.

use vstd::prelude::*;

use crate::utf8_text::{bytes_of, lemma_bytes_of_concat};

verus! {

/// Lowercase hexadecimal digit for `n < 16`.
pub open spec fn hex_digit(n: nat) -> char {
    if n < 10 {
        ((n + 48) as u32) as char
    } else {
        ((n + 87) as u32) as char
    }
}

/// How one character appears inside a JSON string literal: `"` and `\` and the control
/// characters below U+0020 are escaped (short forms where JSON has them, `\u00xx` otherwise);
/// every other character stands for itself.
pub open spec fn json_escape(c: char) -> Seq<char> {
    if c == '"' {
        seq!['\\', '"']
    } else if c == '\\' {
        seq!['\\', '\\']
    } else if c == '\u{8}' {
        seq!['\\', 'b']
    } else if c == '\t' {
        seq!['\\', 't']
    } else if c == '\n' {
        seq!['\\', 'n']
    } else if c == '\u{c}' {
        seq!['\\', 'f']
    } else if c == '\r' {
        seq!['\\', 'r']
    } else if (c as u32) < 0x20 {
        seq!['\\', 'u', '0', '0', hex_digit(((c as u32) / 16) as nat), hex_digit(((c as u32) % 16) as nat)]
    } else {
        seq![c]
    }
}

/// The escaped body of a JSON string literal.
pub open spec fn json_escaped(s: Seq<char>) -> Seq<char>
    decreases s.len(),
{
    if s.len() == 0 {
        Seq::empty()
    } else {
        json_escape(s[0]) + json_escaped(s.drop_first())
    }
}

/// The JSON string literal for `s`, quotes included.
pub open spec fn json_string(s: Seq<char>) -> Seq<char> {
    seq!['"'] + json_escaped(s) + seq!['"']
}

/// Byte length of the JSON string literal for `s`.
pub open spec fn json_string_len(s: Seq<char>) -> nat {
    bytes_of(json_string(s)).len()
}

/// The JSON string literal for `s`.
///
/// Calls `serde_json::to_string` on the string slice; its contract is the escaping that
/// `serde_json`'s serializer applies (quote, backslash and control characters escaped,
/// everything else copied). Serialising a `str` into memory does not fail.
#[verifier::external_body]
pub(crate) fn json_quote(s: &str) -> (res: String)
    ensures
        res@ == json_string(s@),
{
    match serde_json::to_string(s) {
        Ok(quoted) => quoted,
        Err(_) => String::new(),
    }
}

/// Escaping distributes over concatenation.
pub proof fn lemma_json_escaped_concat(a: Seq<char>, b: Seq<char>)
    ensures
        json_escaped(a + b) == json_escaped(a) + json_escaped(b),
    decreases a.len(),
{
    if a.len() == 0 {
        assert(a + b =~= b);
        assert(json_escaped(a) + json_escaped(b) =~= json_escaped(b));
    } else {
        lemma_json_escaped_concat(a.drop_first(), b);
        assert((a + b).drop_first() =~= a.drop_first() + b);
        assert((a + b)[0] == a[0]);
        assert(json_escape(a[0]) + (json_escaped(a.drop_first()) + json_escaped(b)) =~= json_escape(
            a[0],
        ) + json_escaped(a.drop_first()) + json_escaped(b));
    }
}

proof fn lemma_escape_not_shorter(c: char)
    ensures
        bytes_of(json_escape(c)).len() >= bytes_of(seq![c]).len(),
{
    reveal_with_fuel(vstd::utf8::encode_utf8, 7);
    let e = json_escape(c);
    if (c as u32) < 0x80 {
        assert(bytes_of(seq![c]).len() == 1) by {
            assert(seq![c].drop_first() =~= Seq::<char>::empty());
        }
        assert(e.len() >= 1);
        assert(bytes_of(e).len() >= 1) by {
            assert(e[0] == e[0]);
        }
    } else {
        assert(e =~= seq![c]);
    }
}

/// Bytes added by escaping `s`: the literal's length minus the raw UTF-8 length minus the quotes.
pub open spec fn json_escape_overhead(s: Seq<char>) -> int {
    bytes_of(json_escaped(s)).len() - bytes_of(s).len()
}

/// Escaping never shortens a string, and the escape overhead of a concatenation is the
/// sum of the overheads of its parts.
pub proof fn lemma_json_escape_overhead(a: Seq<char>, b: Seq<char>)
    ensures
        json_escape_overhead(a) >= 0,
        json_escape_overhead(a + b) == json_escape_overhead(a) + json_escape_overhead(b),
    decreases a.len(),
{
    lemma_json_escaped_concat(a, b);
    lemma_bytes_of_concat(json_escaped(a), json_escaped(b));
    lemma_bytes_of_concat(a, b);
    if a.len() > 0 {
        lemma_json_escape_overhead(a.drop_first(), b);
        lemma_escape_not_shorter(a[0]);
        assert(a =~= seq![a[0]] + a.drop_first());
        lemma_bytes_of_concat(seq![a[0]], a.drop_first());
        lemma_bytes_of_concat(json_escape(a[0]), json_escaped(a.drop_first()));
    }
}

/// The literal's byte length: two quotes, the raw bytes and the escape overhead.
pub proof fn lemma_json_string_len(s: Seq<char>)
    ensures
        json_string_len(s) == bytes_of(s).len() + 2 + json_escape_overhead(s),
{
    lemma_bytes_of_concat(seq!['"'] + json_escaped(s), seq!['"']);
    lemma_bytes_of_concat(seq!['"'], json_escaped(s));
    reveal_with_fuel(vstd::utf8::encode_utf8, 2);
    assert(seq!['"'].drop_first() =~= Seq::<char>::empty());
}

} // verus!
