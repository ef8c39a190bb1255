//! Byte-level reasoning about UTF-8 strings: char-boundary search and the
//! byte length of concatenations.

use vstd::prelude::*;
use vstd::string::StringExecFns;
use vstd::string::StringSliceAdditionalSpecFns;
use vstd::utf8::*;

verus! {

broadcast use vstd::utf8::encode_utf8_valid_utf8;

/// The UTF-8 bytes of a character sequence.
pub open spec fn bytes_of(chars: Seq<char>) -> Seq<u8> {
    encode_utf8(chars)
}

/// Largest char boundary of `bytes` that is `<= idx` (the length when `idx` is past the end).
pub open spec fn floor_boundary(bytes: Seq<u8>, idx: int) -> int
    decreases idx,
{
    if idx >= bytes.len() {
        bytes.len() as int
    } else if idx <= 0 {
        0
    } else if is_char_boundary(bytes, idx) {
        idx
    } else {
        floor_boundary(bytes, idx - 1)
    }
}

/// Smallest char boundary of `bytes` that is `>= idx` (the length when there is none).
pub open spec fn ceil_boundary(bytes: Seq<u8>, idx: int) -> int
    decreases bytes.len() - idx,
{
    if idx >= bytes.len() {
        if idx < 0 { 0 } else { idx }
    } else if idx >= 0 && is_char_boundary(bytes, idx) {
        idx
    } else {
        ceil_boundary(bytes, idx + 1)
    }
}

/// `floor_boundary` is a boundary, lies at or below `idx` (within the bytes), and no
/// boundary lies strictly between it and `idx`.
pub proof fn lemma_floor_boundary(bytes: Seq<u8>, idx: int)
    requires
        valid_utf8(bytes),
        idx >= 0,
    ensures
        0 <= floor_boundary(bytes, idx) <= bytes.len(),
        floor_boundary(bytes, idx) <= idx,
        is_char_boundary(bytes, floor_boundary(bytes, idx)),
        forall|j: int|
            floor_boundary(bytes, idx) < j <= idx && j <= bytes.len() ==> !is_char_boundary(
                bytes,
                j,
            ),
    decreases idx,
{
    vstd::utf8::is_char_boundary_start_end_of_seq(bytes);
    if idx >= bytes.len() {
    } else if idx <= 0 {
    } else if is_char_boundary(bytes, idx) {
    } else {
        lemma_floor_boundary(bytes, idx - 1);
    }
}

/// `ceil_boundary` is a boundary at or above `idx`, within the bytes, with no boundary
/// between `idx` and it.
pub proof fn lemma_ceil_boundary(bytes: Seq<u8>, idx: int)
    requires
        valid_utf8(bytes),
        0 <= idx <= bytes.len(),
    ensures
        idx <= ceil_boundary(bytes, idx) <= bytes.len(),
        is_char_boundary(bytes, ceil_boundary(bytes, idx)),
        forall|j: int| idx <= j < ceil_boundary(bytes, idx) ==> !is_char_boundary(bytes, j),
    decreases bytes.len() - idx,
{
    vstd::utf8::is_char_boundary_start_end_of_seq(bytes);
    if idx >= bytes.len() {
    } else if is_char_boundary(bytes, idx) {
    } else {
        lemma_ceil_boundary(bytes, idx + 1);
    }
}

/// Largest char-boundary index `<= idx` of `s` (never splits a UTF-8 codepoint).
pub fn floor_char_boundary(s: &str, idx: usize) -> (res: usize)
    ensures
        res == floor_boundary(s.spec_bytes(), idx as int),
        res <= s.spec_bytes().len(),
        res <= idx,
        is_char_boundary(s.spec_bytes(), res as int),
{
    proof {
        lemma_floor_boundary(s.spec_bytes(), idx as int);
    }
    let n = s.as_bytes().len();
    if idx >= n {
        return n;
    }
    let mut i = idx;
    while i > 0 && !s.is_char_boundary(i)
        invariant
            i <= idx < s.spec_bytes().len(),
            floor_boundary(s.spec_bytes(), i as int) == floor_boundary(s.spec_bytes(), idx as int),
        decreases i,
    {
        i -= 1;
    }
    i
}

/// Smallest char-boundary index `>= idx` of `s` (never splits a UTF-8 codepoint).
pub fn ceil_char_boundary(s: &str, idx: usize) -> (res: usize)
    ensures
        res == ceil_boundary(s.spec_bytes(), idx as int),
        idx <= s.spec_bytes().len() ==> res <= s.spec_bytes().len(),
        idx <= s.spec_bytes().len() ==> is_char_boundary(s.spec_bytes(), res as int),
        res >= idx,
{
    proof {
        if idx <= s.spec_bytes().len() {
            lemma_ceil_boundary(s.spec_bytes(), idx as int);
        }
    }
    let n = s.as_bytes().len();
    let mut i = idx;
    while i < n && !s.is_char_boundary(i)
        invariant
            idx <= i,
            n == s.spec_bytes().len(),
            ceil_boundary(s.spec_bytes(), i as int) == ceil_boundary(s.spec_bytes(), idx as int),
        decreases s.spec_bytes().len() - i,
    {
        i += 1;
    }
    i
}


/// The UTF-8 encoding of a concatenation is the concatenation of the encodings.
pub proof fn lemma_bytes_of_concat(a: Seq<char>, b: Seq<char>)
    ensures
        bytes_of(a + b) == bytes_of(a) + bytes_of(b),
    decreases a.len(),
{
    if a.len() == 0 {
        assert(a + b =~= b);
        assert(bytes_of(a) + bytes_of(b) =~= bytes_of(b));
    } else {
        lemma_bytes_of_concat(a.drop_first(), b);
        assert((a + b).drop_first() =~= a.drop_first() + b);
        assert((a + b)[0] == a[0]);
        assert(bytes_of(a + b) =~= encode_scalar(a[0] as u32) + bytes_of(a.drop_first() + b));
        assert(bytes_of(a) + bytes_of(b) =~= encode_scalar(a[0] as u32) + (bytes_of(a.drop_first())
            + bytes_of(b)));
    }
}

/// Three-way form of [`lemma_bytes_of_concat`].
pub proof fn lemma_bytes_of_concat3(a: Seq<char>, b: Seq<char>, c: Seq<char>)
    ensures
        bytes_of(a + b + c) == bytes_of(a) + bytes_of(b) + bytes_of(c),
{
    lemma_bytes_of_concat(a + b, c);
    lemma_bytes_of_concat(a, b);
}

/// The ASCII digit for `d < 10`.
pub open spec fn digit_char(d: nat) -> char {
    if d == 0 { '0' }
    else if d == 1 { '1' }
    else if d == 2 { '2' }
    else if d == 3 { '3' }
    else if d == 4 { '4' }
    else if d == 5 { '5' }
    else if d == 6 { '6' }
    else if d == 7 { '7' }
    else if d == 8 { '8' }
    else { '9' }
}

/// Decimal representation of `n`, without sign or leading zeros.
pub open spec fn decimal(n: nat) -> Seq<char>
    decreases n,
{
    if n < 10 {
        seq![digit_char(n)]
    } else {
        decimal(n / 10).push(digit_char(n % 10))
    }
}

/// Decimal digits are ASCII, one byte each.
pub proof fn lemma_decimal_ascii(n: nat)
    ensures
        is_ascii_chars(decimal(n)),
        bytes_of(decimal(n)).len() == decimal(n).len(),
    decreases n,
{
    if n >= 10 {
        lemma_decimal_ascii(n / 10);
        let d = decimal(n / 10);
        assert forall|i: int| 0 <= i < decimal(n).len() implies '\0' <= #[trigger] decimal(n)[i]
            <= '\u{7f}' by {
            if i < d.len() {
                assert(decimal(n)[i] == d[i]);
            }
        }
    }
    vstd::utf8::is_ascii_chars_encode_utf8(decimal(n));
}

/// `10` to the power `k`.
pub open spec fn pow10(k: nat) -> nat
    decreases k,
{
    if k == 0 {
        1
    } else {
        10 * pow10((k - 1) as nat)
    }
}

proof fn lemma_decimal_len_below(n: nat, k: nat)
    requires
        k >= 1,
        n < pow10(k),
    ensures
        decimal(n).len() <= k,
    decreases k,
{
    if n >= 10 {
        if k == 1 {
            assert(pow10(1) == 10 * pow10(0));
        }
        lemma_decimal_len_below(n / 10, (k - 1) as nat);
    }
}

/// A 64-bit number has at most 20 decimal digits.
pub proof fn lemma_decimal_len(n: nat)
    requires
        n <= u64::MAX,
    ensures
        decimal(n).len() <= 20,
{
    reveal_with_fuel(pow10, 21);
    assert(pow10(20) == 100000000000000000000nat);
    lemma_decimal_len_below(n, 20);
}

fn digit_str(d: u64) -> (res: &'static str)
    requires
        d < 10,
    ensures
        res@ == seq![digit_char(d as nat)],
{
    proof {
        reveal_strlit("0");
        reveal_strlit("1");
        reveal_strlit("2");
        reveal_strlit("3");
        reveal_strlit("4");
        reveal_strlit("5");
        reveal_strlit("6");
        reveal_strlit("7");
        reveal_strlit("8");
        reveal_strlit("9");
    }
    if d == 0 { "0" }
    else if d == 1 { "1" }
    else if d == 2 { "2" }
    else if d == 3 { "3" }
    else if d == 4 { "4" }
    else if d == 5 { "5" }
    else if d == 6 { "6" }
    else if d == 7 { "7" }
    else if d == 8 { "8" }
    else { "9" }
}

/// Appends the decimal representation of `n` to `out`.
pub fn push_decimal(out: &mut String, n: u64)
    ensures
        final(out)@ == old(out)@ + decimal(n as nat),
    decreases n,
{
    if n < 10 {
        out.append(digit_str(n));
    } else {
        push_decimal(out, n / 10);
        out.append(digit_str(n % 10));
        assert(decimal(n as nat) == decimal((n / 10) as nat).push(digit_char((n % 10) as nat)));
    }
}

} // verus!
