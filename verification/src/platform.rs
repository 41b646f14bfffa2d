//! Platform gating: reading an operating-system version string.
//!
//! The system-audio backend needs the thirteenth major release or later;
//! the caller reads the version text from the platform and this module
//! parses it.

use vstd::prelude::*;
use vstd::string::StrSliceExecFns;

use crate::ai::find_char_from;
use crate::text::lower_of;
use crate::transcriber::trim_spec;

verus! {

/// Whether the character is a decimal digit.
pub open spec fn is_digit(c: char) -> bool {
    '0' <= c && c <= '9'
}

/// The value of a digit.
pub open spec fn digit_val(c: char) -> int {
    c as int - 48
}

/// The value of the first `i` digits read as a decimal number.
pub open spec fn dec_value(s: Seq<char>, i: int) -> int
    decreases i,
{
    if i <= 0 {
        0
    } else {
        dec_value(s, i - 1) * 10 + digit_val(s[i - 1])
    }
}

/// What a decimal number field parses to: its value, for a non-empty
/// all-digit text whose value fits; nothing otherwise.
pub open spec fn parse_u32_spec(s: Seq<char>) -> Option<u32> {
    if s.len() > 0 && (forall|i: int| 0 <= i < s.len() ==> is_digit(#[trigger] s[i]))
        && dec_value(s, s.len() as int) <= u32::MAX {
        Some(dec_value(s, s.len() as int) as u32)
    } else {
        None
    }
}

/// A number over digits is never negative.
proof fn lemma_dec_value_nonneg(s: Seq<char>, i: int)
    requires
        0 <= i <= s.len(),
        forall|k: int| 0 <= k < i ==> is_digit(#[trigger] s[k]),
    ensures
        dec_value(s, i) >= 0,
    decreases i,
{
    if i > 0 {
        lemma_dec_value_nonneg(s, i - 1);
        assert(dec_value(s, i - 1) * 10 >= 0) by (nonlinear_arith)
            requires
                dec_value(s, i - 1) >= 0,
        ;
    }
}

/// A number over digit text never shrinks as more digits arrive.
proof fn lemma_dec_value_grows(s: Seq<char>, i: int, j: int)
    requires
        0 <= i <= j <= s.len(),
        forall|k: int| 0 <= k < j ==> is_digit(#[trigger] s[k]),
    ensures
        0 <= dec_value(s, i) <= dec_value(s, j),
    decreases j - i,
{
    lemma_dec_value_nonneg(s, i);
    if i < j {
        lemma_dec_value_grows(s, i, j - 1);
        assert(dec_value(s, j) == dec_value(s, j - 1) * 10 + digit_val(s[j - 1]));
        assert(dec_value(s, j - 1) * 10 >= dec_value(s, j - 1)) by (nonlinear_arith)
            requires
                dec_value(s, j - 1) >= 0,
        ;
    }
}

/// Parse a decimal number field, as a version component reads.
pub fn parse_u32_field(s: &str) -> (r: Option<u32>)
    ensures
        r == parse_u32_spec(s@),
{
    let n = s.unicode_len();
    if n == 0 {
        return None;
    }
    let mut acc: u64 = 0;
    let mut i: usize = 0;
    while i < n
        invariant
            n == s@.len(),
            i <= n,
            forall|k: int| 0 <= k < i ==> is_digit(#[trigger] s@[k]),
            acc == dec_value(s@, i as int),
            acc <= u32::MAX,
        decreases n - i,
    {
        let c = s.get_char(i);
        if !('0' <= c && c <= '9') {
            proof {
                assert(!is_digit(s@[i as int]));
            }
            return None;
        }
        let d = (c as u32) - 48;
        let next: u64 = acc * 10 + (d as u64);
        proof {
            assert(dec_value(s@, i + 1) == dec_value(s@, i as int) * 10 + digit_val(
                s@[i as int],
            ));
        }
        if next > 0xffffffff {
            proof {
                if parse_u32_spec(s@) is Some {
                    lemma_dec_value_grows(s@, i + 1, s@.len() as int);
                }
            }
            return None;
        }
        acc = next;
        i = i + 1;
    }
    Some(acc as u32)
}

/// The pieces of `s` between occurrences of `c`, in order; separators at
/// the edges and next to each other yield empty pieces.
pub open spec fn split_char_spec(s: Seq<char>, c: char) -> Seq<Seq<char>>
    decreases s.len(),
    via split_char_dec
{
    match find_char_from(s, c, 0) {
        Some(p) => seq![s.take(p)] + split_char_spec(s.skip(p + 1), c),
        None => seq![s],
    }
}

#[via_fn]
proof fn split_char_dec(s: Seq<char>, c: char) {
    match find_char_from(s, c, 0) {
        Some(p) => crate::ai::lemma_find_char_bounds_pub(s, c, 0, p),
        None => (),
    }
}

/// Split a text on one character.
pub fn split_on_char(s: &str, c: char) -> (r: Vec<String>)
    ensures
        crate::text::word_views(r@) =~= split_char_spec(s@, c),
    decreases s@.len(),
{
    let n = s.unicode_len();
    let pos = crate::ai::find_char(s, c);
    match pos {
        Some(p) => {
            proof {
                crate::ai::lemma_find_char_bounds_pub(s@, c, 0, p as int);
            }
            let head = s.substring_char(0, p).to_owned();
            let rest = s.substring_char(p + 1, n);
            let mut out: Vec<String> = Vec::new();
            out.push(head);
            let tail_pieces = split_on_char(rest, c);
            let ghost mid = crate::text::word_views(out@);
            let mut k: usize = 0;
            let m = tail_pieces.len();
            while k < m
                invariant
                    m == tail_pieces@.len(),
                    k <= m,
                    crate::text::word_views(out@) =~= mid + crate::text::word_views(
                        tail_pieces@,
                    ).take(k as int),
                decreases m - k,
            {
                let ghost prev = crate::text::word_views(out@);
                out.push(tail_pieces[k].clone());
                proof {
                    assert(crate::text::word_views(out@) =~= prev.push(
                        tail_pieces@[k as int]@,
                    ));
                }
                k = k + 1;
            }
            proof {
                assert(crate::text::word_views(tail_pieces@).take(m as int)
                    =~= crate::text::word_views(tail_pieces@));
                assert(crate::text::word_views(out@) =~= split_char_spec(s@, c));
            }
            out
        },
        None => {
            let mut out: Vec<String> = Vec::new();
            out.push(s.to_owned());
            proof {
                assert(crate::text::word_views(out@) =~= split_char_spec(s@, c));
            }
            out
        },
    }
}

/// The numeric components of a version text: each dot-separated piece
/// that parses as a number, in order, the rest dropped.
pub open spec fn version_parts_spec(pieces: Seq<Seq<char>>) -> Seq<u32>
    decreases pieces.len(),
{
    if pieces.len() == 0 {
        Seq::empty()
    } else {
        let rest = version_parts_spec(pieces.drop_last());
        match parse_u32_spec(pieces.last()) {
            Some(v) => rest.push(v),
            None => rest,
        }
    }
}

/// The version triple a version text reads as: the text trimmed and
/// split on dots, the numeric pieces taken in order, missing components
/// defaulting to the tenth major release and zero.
pub open spec fn os_version_spec(s: Seq<char>) -> (u32, u32, u32) {
    let parts = version_parts_spec(split_char_spec(trim_spec(s), '.'));
    (
        if parts.len() > 0 {
            parts[0]
        } else {
            10u32
        },
        if parts.len() > 1 {
            parts[1]
        } else {
            0u32
        },
        if parts.len() > 2 {
            parts[2]
        } else {
            0u32
        },
    )
}

/// Parse an operating-system version text into its numeric triple.
pub fn parse_os_version(s: &str) -> (r: (u32, u32, u32))
    ensures
        r == os_version_spec(s@),
{
    let trimmed = crate::transcriber::trim_str(s);
    let pieces = split_on_char(trimmed.as_str(), '.');
    let mut parts: Vec<u32> = Vec::new();
    let mut i: usize = 0;
    let n = pieces.len();
    while i < n
        invariant
            n == pieces@.len(),
            i <= n,
            parts@ =~= version_parts_spec(
                crate::text::word_views(pieces@).take(i as int),
            ),
        decreases n - i,
    {
        proof {
            assert(crate::text::word_views(pieces@).take(i + 1).drop_last()
                =~= crate::text::word_views(pieces@).take(i as int));
            assert(crate::text::word_views(pieces@).take(i + 1).last() == pieces@[i as int]@);
        }
        match parse_u32_field(pieces[i].as_str()) {
            Some(v) => {
                parts.push(v);
            },
            None => (),
        }
        i = i + 1;
    }
    proof {
        assert(crate::text::word_views(pieces@).take(n as int) =~= crate::text::word_views(
            pieces@,
        ));
    }
    let major = if parts.len() > 0 {
        parts[0]
    } else {
        10
    };
    let minor = if parts.len() > 1 {
        parts[1]
    } else {
        0
    };
    let patch = if parts.len() > 2 {
        parts[2]
    } else {
        0
    };
    (major, minor, patch)
}

/// Whether a version text names the thirteenth major release or later:
/// the system-audio capture needs it.
pub fn is_macos_13_or_later(version_text: &str) -> (r: bool)
    ensures
        r == (os_version_spec(version_text@).0 >= 13),
{
    let version = parse_os_version(version_text);
    version.0 >= 13
}

/// Whether system-audio capture is available: on the Apple platform from
/// the thirteenth major release on, on the Windows platform always, and
/// nowhere else.  The caller names the platform and hands in its version
/// text.
pub fn is_system_audio_available(os: &str, version_text: &str) -> (r: bool)
    ensures
        r == (if lower_of(os@) == "macos"@ {
            os_version_spec(version_text@).0 >= 13
        } else {
            lower_of(os@) == "windows"@
        }),
{
    let lower = crate::text::to_lowercase_str(os);
    if crate::model::eq_str(lower.as_str(), "macos") {
        is_macos_13_or_later(version_text)
    } else {
        crate::model::eq_str(lower.as_str(), "windows")
    }
}

} // verus!
