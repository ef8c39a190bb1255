//! Inbound per-field text truncation.
//!
//! An oversized text field is cut in the middle: a head of about 70% of the budget and a
//! tail fill the byte cap around a visible marker. Cut points never split a UTF-8
//! codepoint, and fields within the cap pass through untouched.

use vstd::prelude::*;
use vstd::string::StringExecFns;
use vstd::string::StringSliceAdditionalSpecFns;
use vstd::utf8::*;

use crate::settings::{is_off_setting, is_off_word, parse_usize, parsed_unsigned};
use crate::utf8_text::{
    bytes_of, ceil_char_boundary, decimal, floor_boundary, ceil_boundary, floor_char_boundary,
    lemma_bytes_of_concat3, lemma_ceil_boundary, lemma_decimal_ascii, lemma_decimal_len,
    lemma_floor_boundary, push_decimal,
};

verus! {

broadcast use vstd::utf8::encode_utf8_valid_utf8;

/// Default per-field byte cap, just below the upstream per-field limit.
pub const DEFAULT_MAX_FIELD_BYTES: usize = 680_000;

/// Inbound text-field truncation configuration.
#[derive(Debug, Clone, Copy)]
pub struct TextLimitConfig {
    pub enabled: bool,
    pub max_field_bytes: usize,
}

impl TextLimitConfig {
    /// The configuration given the raw values of the truncate switch and of the per-field cap.
    ///
    /// An absent switch enables truncation; `0`, `false`, `no` or `off` (any ASCII case)
    /// disable it. An absent, unparsable or zero cap falls back to
    /// [`DEFAULT_MAX_FIELD_BYTES`].
    pub fn from_settings(truncate: Option<&str>, max_field_bytes: Option<&str>) -> (res: Self)
        ensures
            res.enabled == match truncate {
                Some(v) => !is_off_word(v@),
                None => true,
            },
            res.max_field_bytes == match max_field_bytes {
                Some(v) => match parsed_unsigned(v@, usize::MAX as nat) {
                    Some(n) => if n > 0 { n } else { DEFAULT_MAX_FIELD_BYTES as nat },
                    None => DEFAULT_MAX_FIELD_BYTES as nat,
                },
                None => DEFAULT_MAX_FIELD_BYTES as nat,
            },
    {
        let enabled = match truncate {
            Some(v) => !is_off_setting(v),
            None => true,
        };
        let max_field_bytes = match max_field_bytes {
            Some(v) => match parse_usize(v) {
                Some(n) => if n > 0 { n } else { DEFAULT_MAX_FIELD_BYTES },
                None => DEFAULT_MAX_FIELD_BYTES,
            },
            None => DEFAULT_MAX_FIELD_BYTES,
        };
        TextLimitConfig { enabled, max_field_bytes }
    }
}

/// Bytes of the budget kept from the head: 70% of `max`, rounded down.
pub open spec fn head_budget(max: nat) -> nat {
    max * 7 / 10
}

/// The marker that replaces the removed middle, mentioning the estimated removed bytes.
pub open spec fn text_marker(removed: nat) -> Seq<char> {
    "\n\n\u{2026}[kiro-rs truncated ~"@ + decimal(removed) + " bytes]\u{2026}\n\n"@
}

/// Index where the kept head of `text` ends.
pub open spec fn field_head_end(text: Seq<u8>, max: nat) -> int {
    floor_boundary(text, head_budget(max) as int)
}

/// Index where the kept tail of `text` starts (never before the head's end).
pub open spec fn field_tail_start(text: Seq<u8>, max: nat) -> int {
    let head_end = field_head_end(text, max);
    let marker_len = bytes_of(text_marker((text.len() - max) as nat)).len();
    let tail_budget = if max >= head_end + marker_len { max - head_end - marker_len } else { 0 };
    let start = ceil_boundary(text, text.len() - tail_budget);
    if start > head_end { start } else { head_end }
}

/// The bytes of a field longer than `max`: head, marker, tail.
pub open spec fn truncated_field(text: Seq<u8>, max: nat) -> Seq<u8> {
    text.subrange(0, field_head_end(text, max)) + bytes_of(text_marker((text.len() - max) as nat))
        + text.subrange(field_tail_start(text, max), text.len() as int)
}

/// Bytes taken by the marker for a field of `len` bytes cut to `max`.
pub open spec fn field_marker_len(len: nat, max: nat) -> nat {
    bytes_of(text_marker((len - max) as nat)).len()
}

/// The cut points of a truncated field are char boundaries, in order, with the head within its
/// 70% budget: the kept head and tail are whole characters and never overlap.
pub proof fn law_field_cut_points(text: Seq<char>, max: nat)
    requires
        bytes_of(text).len() > max,
    ensures
        ({
            let b = bytes_of(text);
            let head_end = field_head_end(b, max);
            let tail_start = field_tail_start(b, max);
            &&& 0 <= head_end <= head_budget(max)
            &&& head_end <= tail_start <= b.len()
            &&& is_char_boundary(b, head_end)
            &&& is_char_boundary(b, tail_start)
        }),
{
    let b = bytes_of(text);
    lemma_floor_boundary(b, head_budget(max) as int);
    let head_end = field_head_end(b, max);
    let marker_len = bytes_of(text_marker((b.len() - max) as nat)).len();
    let tail_budget = if max >= head_end + marker_len { max - head_end - marker_len } else { 0 };
    lemma_ceil_boundary(b, b.len() - tail_budget);
}

/// Bytes of what [`truncate_field`] returns for `text`.
pub open spec fn field_result(enabled: bool, max: nat, text: Seq<char>) -> Seq<u8> {
    if !enabled || bytes_of(text).len() <= max {
        bytes_of(text)
    } else {
        truncated_field(bytes_of(text), max)
    }
}

proof fn lemma_text_marker_len(removed: nat)
    ensures
        bytes_of(text_marker(removed)).len() == 37 + decimal(removed).len(),
{
    reveal_strlit("\n\n\u{2026}[kiro-rs truncated ~");
    reveal_strlit(" bytes]\u{2026}\n\n");
    reveal_with_fuel(vstd::utf8::encode_utf8, 24);
    assert(bytes_of("\n\n\u{2026}[kiro-rs truncated ~"@).len() == 25);
    assert(bytes_of(" bytes]\u{2026}\n\n"@).len() == 12);
    lemma_decimal_ascii(removed);
    lemma_bytes_of_concat3(
        "\n\n\u{2026}[kiro-rs truncated ~"@,
        decimal(removed),
        " bytes]\u{2026}\n\n"@,
    );
}

/// A truncated field fits the cap whenever the marker fits beside the head budget.
proof fn lemma_truncated_field_fits(b: Seq<u8>, max: nat)
    requires
        valid_utf8(b),
        b.len() > max,
        max >= head_budget(max) + field_marker_len(b.len(), max),
    ensures
        truncated_field(b, max).len() <= max,
{
    lemma_floor_boundary(b, head_budget(max) as int);
    let head_end = field_head_end(b, max);
    let marker_len = bytes_of(text_marker((b.len() - max) as nat)).len();
    let tail_budget = if max >= head_end + marker_len { max - head_end - marker_len } else { 0 };
    lemma_ceil_boundary(b, b.len() - tail_budget);
}

/// With a cap of at least 200 bytes a truncated field is within the cap, so truncating the
/// result again leaves it as it is.
pub proof fn law_truncate_field_idempotent(enabled: bool, max: nat, text: Seq<char>, out: Seq<char>)
    requires
        max >= 200,
        bytes_of(text).len() <= usize::MAX,
        bytes_of(out) == field_result(enabled, max, text),
    ensures
        !enabled || bytes_of(out).len() <= max,
        field_result(enabled, max, out) == bytes_of(out),
{
    let b = bytes_of(text);
    if enabled && b.len() > max {
        let removed = (b.len() - max) as nat;
        lemma_text_marker_len(removed);
        lemma_decimal_len(removed);
        assert(max * 7 / 10 + 57 <= max) by (nonlinear_arith)
            requires
                max >= 200,
        ;
        lemma_truncated_field_fits(b, max);
    }
}

fn compute_head_budget(max: usize) -> (res: usize)
    ensures
        res == head_budget(max as nat),
{
    assert((max / 10) * 7 + (max % 10) * 7 / 10 == max * 7 / 10) by (nonlinear_arith);
    max / 10 * 7 + max % 10 * 7 / 10
}

fn build_text_marker(removed: usize) -> (res: String)
    ensures
        res@ == text_marker(removed as nat),
{
    let prefix = "\n\n\u{2026}[kiro-rs truncated ~";
    let suffix = " bytes]\u{2026}\n\n";
    let mut out = prefix.to_owned();
    push_decimal(&mut out, removed as u64);
    out.append(suffix);
    out
}

/// Truncates one text field to `cfg.max_field_bytes`, keeping head + tail with a marker in between.
///
/// Returns `text` untouched when truncation is disabled or the field is already within the cap.
/// `label` names the field for the caller's diagnostics; it does not affect the result.
pub fn truncate_field(cfg: &TextLimitConfig, label: &str, text: String) -> (res: String)
    ensures
        !cfg.enabled || bytes_of(text@).len() <= cfg.max_field_bytes ==> res == text,
        cfg.enabled && bytes_of(text@).len() > cfg.max_field_bytes ==> bytes_of(res@)
            == truncated_field(bytes_of(text@), cfg.max_field_bytes as nat),
        bytes_of(res@) == field_result(cfg.enabled, cfg.max_field_bytes as nat, text@),
        // The result fits the cap whenever the marker fits beside the head budget.
        cfg.enabled && cfg.max_field_bytes >= head_budget(cfg.max_field_bytes as nat)
            + field_marker_len(bytes_of(text@).len(), cfg.max_field_bytes as nat) ==> bytes_of(
            res@,
        ).len() <= cfg.max_field_bytes,
{
    let s = text.as_str();
    let original_bytes = s.as_bytes().len();
    let max = cfg.max_field_bytes;
    if !cfg.enabled || original_bytes <= max {
        return text;
    }
    let ghost bytes = s.spec_bytes();
    let head_end = floor_char_boundary(s, compute_head_budget(max));
    let marker = build_text_marker(original_bytes - max);
    let marker_len = marker.as_str().as_bytes().len();
    let tail_budget = max.saturating_sub(head_end).saturating_sub(marker_len);
    let ceil_start = ceil_char_boundary(s, original_bytes - tail_budget);
    let tail_start = if ceil_start > head_end {
        ceil_start
    } else {
        head_end
    };
    proof {
        lemma_ceil_boundary(bytes, (original_bytes - tail_budget) as int);
        assert(tail_start == field_tail_start(bytes, max as nat));
    }
    let (head, _) = s.split_at(head_end);
    let (_, tail) = s.split_at(tail_start);
    let mut out = head.to_owned();
    out.append(marker.as_str());
    out.append(tail);
    proof {
        lemma_bytes_of_concat3(head@, marker@, tail@);
        assert(bytes_of(out@) =~= truncated_field(bytes, max as nat));
    }
    out
}

} // verus!
