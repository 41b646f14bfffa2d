//! Text post-processing around the language-model assistant: stripping
//! reasoning tags from responses, cleaning and validating generated
//! titles, and chunking long transcripts.
//!
//! Tag search is case-insensitive over an ASCII fold; the tags themselves
//! are plain ASCII.

use vstd::prelude::*;
use vstd::string::StrSliceExecFns;
use vstd::string::StringExecFns;

use crate::text::{is_ws, matches_at, words_from};
use crate::transcriber::trim_spec;

verus! {

/// A character folded to ASCII lowercase; other characters are left
/// alone.
pub open spec fn ascii_lower(c: char) -> char {
    if 'A' <= c <= 'Z' {
        ((c as u8) + 32) as char
    } else {
        c
    }
}

/// The text folded to ASCII lowercase.
pub open spec fn fold_ascii(s: Seq<char>) -> Seq<char> {
    s.map_values(|c: char| ascii_lower(c))
}

/// Fold one character to ASCII lowercase.
pub fn ascii_lower_char(c: char) -> (r: char)
    ensures
        r == ascii_lower(c),
{
    if 'A' <= c && c <= 'Z' {
        (((c as u8) + 32) as char)
    } else {
        c
    }
}

/// Fold a text to ASCII lowercase.
pub fn fold_ascii_str(s: &str) -> (r: String)
    ensures
        r@ =~= fold_ascii(s@),
{
    let n = s.unicode_len();
    let mut out = String::new();
    let mut i: usize = 0;
    while i < n
        invariant
            n == s@.len(),
            i <= n,
            out@ =~= fold_ascii(s@).take(i as int),
        decreases n - i,
    {
        let c = ascii_lower_char(s.get_char(i));
        push_char(&mut out, c);
        proof {
            assert(fold_ascii(s@).take(i + 1) =~= fold_ascii(s@).take(i as int).push(
                ascii_lower(s@[i as int]),
            ));
        }
        i = i + 1;
    }
    proof {
        assert(fold_ascii(s@).take(n as int) =~= fold_ascii(s@));
    }
    out
}

/// Append one character to a string.
pub fn push_char(s: &mut String, c: char)
    ensures
        final(s)@ == old(s)@ + seq![c],
{
    let mut buf = [0u8;4];
    let enc: &str = char_encode(c, &mut buf);
    s.append(enc);
}

/// Relies on `char::encode_utf8`: the one-character string slice holding
/// exactly `c`.
#[verifier::external_body]
fn char_encode<'a>(c: char, buf: &'a mut [u8;4]) -> (r: &'a str)
    ensures
        r@ == seq![c],
{
    c.encode_utf8(buf)
}

/// The first position at or past `from` where `pat` occurs in the ASCII
/// fold of `s`.
pub open spec fn find_ci_from(s: Seq<char>, pat: Seq<char>, from: int) -> Option<int>
    decreases s.len() + 1 - from,
{
    if from < 0 || from + pat.len() > s.len() {
        None
    } else if matches_at(fold_ascii(s), pat, from) {
        Some(from)
    } else {
        find_ci_from(s, pat, from + 1)
    }
}

/// Find `pat` in the ASCII fold of `s`, scanning from the left.
pub fn find_ci(s: &str, pat: &str) -> (r: Option<usize>)
    ensures
        (match r {
            Some(i) => find_ci_from(s@, pat@, 0) == Some(i as int),
            None => find_ci_from(s@, pat@, 0) is None,
        }),
{
    let n = s.unicode_len();
    let m = pat.unicode_len();
    if m > n {
        return None;
    }
    if m == 0 {
        proof {
            assert(fold_ascii(s@).subrange(0, 0) =~= pat@);
            assert(matches_at(fold_ascii(s@), pat@, 0));
        }
        return Some(0);
    }
    let mut i: usize = 0;
    while i <= n - m
        invariant
            n == s@.len(),
            m == pat@.len(),
            1 <= m <= n,
            i <= n - m + 1,
            find_ci_from(s@, pat@, 0) == find_ci_from(s@, pat@, i as int),
        decreases n - m + 1 - i,
    {
        let mut j: usize = 0;
        let mut matched = true;
        while matched && j < m
            invariant
                n == s@.len(),
                m == pat@.len(),
                1 <= m <= n,
                i <= n - m,
                j <= m,
                matched ==> forall|t: int|
                    0 <= t < j ==> fold_ascii(s@)[i + t] == #[trigger] pat@[t],
                !matched ==> !matches_at(fold_ascii(s@), pat@, i as int),
            decreases m - j + (if matched {
                1int
            } else {
                0int
            }),
        {
            let a = ascii_lower_char(s.get_char(i + j));
            let b = pat.get_char(j);
            if a != b {
                matched = false;
                proof {
                    assert(fold_ascii(s@).subrange(i as int, i + m) != pat@) by {
                        assert(fold_ascii(s@).subrange(i as int, i + m)[j as int] == fold_ascii(
                            s@,
                        )[i + j]);
                    }
                }
            } else {
                proof {
                    assert(fold_ascii(s@)[i + j] == ascii_lower(s@[i + j]));
                }
                j = j + 1;
            }
        }
        if matched {
            proof {
                assert(fold_ascii(s@).subrange(i as int, i + m) =~= pat@);
                assert(matches_at(fold_ascii(s@), pat@, i as int));
            }
            return Some(i);
        }
        i = i + 1;
    }
    proof {
        assert(find_ci_from(s@, pat@, i as int) is None);
    }
    None
}

/// One pass of tag removal: with both tags present, cut from the first
/// opening tag through the first closing tag's end; with only a closing
/// tag, cut everything up to its end; with only an opening tag, keep just
/// what precedes it and stop; with neither, stop.
pub open spec fn strip_iter(s: Seq<char>, open: Seq<char>, close: Seq<char>) -> (Seq<char>, bool) {
    match find_ci_from(s, close, 0) {
        Some(e) => match find_ci_from(s, open, 0) {
            Some(st) => (s.take(st) + s.skip(e + close.len()), true),
            None => (s.skip(e + close.len()), true),
        },
        None => match find_ci_from(s, open, 0) {
            Some(st) => (s.take(st), false),
            None => (s, false),
        },
    }
}

/// Tag removal run to a fixed point: passes repeat while they shrink the
/// text; a pass that fails to shrink it ends the run.
pub open spec fn strip_loop(s: Seq<char>, open: Seq<char>, close: Seq<char>) -> Seq<char>
    decreases s.len(),
{
    let (t, cont) = strip_iter(s, open, close);
    if !cont {
        t
    } else if t.len() < s.len() {
        strip_loop(t, open, close)
    } else {
        t
    }
}

/// Remove every `open`…`close` tag pair from the text, case-insensitively.
fn strip_tag_pair(s: &String, open: &str, close: &str) -> (r: String)
    ensures
        r@ =~= strip_loop(s@, open@, close@),
    decreases s@.len(),
{
    let close_pos = find_ci(s.as_str(), close);
    let open_pos = find_ci(s.as_str(), open);
    let cl = close.unicode_len();
    let slen = s.as_str().unicode_len();
    proof {
        match find_ci_from(s@, close@, 0) {
            Some(e) => lemma_find_ci_bounds(s@, close@, 0, e),
            None => (),
        }
        match find_ci_from(s@, open@, 0) {
            Some(st) => lemma_find_ci_bounds(s@, open@, 0, st),
            None => (),
        }
    }
    match close_pos {
        Some(e) => {
            proof {
                assert(e as int + cl as int <= s@.len());
            }
            let next: String = match open_pos {
                Some(st) => {
                    let mut t = s.as_str().substring_char(0, st).to_owned();
                    let tail = s.as_str().substring_char(e + cl, slen);
                    t.append(tail);
                    t
                },
                None => s.as_str().substring_char(e + cl, slen).to_owned(),
            };
            proof {
                assert(next@ =~= strip_iter(s@, open@, close@).0);
            }
            if next.as_str().unicode_len() < slen {
                strip_tag_pair(&next, open, close)
            } else {
                next
            }
        },
        None => {
            match open_pos {
                Some(st) => s.as_str().substring_char(0, st).to_owned(),
                None => s.clone(),
            }
        },
    }
}

/// A found position is in bounds, with room for the pattern.
proof fn lemma_find_ci_bounds(s: Seq<char>, pat: Seq<char>, from: int, e: int)
    requires
        0 <= from,
        find_ci_from(s, pat, from) == Some(e),
    ensures
        from <= e,
        e + pat.len() <= s.len(),
    decreases s.len() + 1 - from,
{
    if from + pat.len() <= s.len() && !matches_at(fold_ascii(s), pat, from) {
        lemma_find_ci_bounds(s, pat, from + 1, e);
    }
}

/// What stripping reasoning tags leaves: first every `<think>` pair, then
/// every `<thinking>` pair, then surrounding whitespace.
pub open spec fn strip_tags_spec(s: Seq<char>) -> Seq<char> {
    trim_spec(
        strip_loop(
            strip_loop(s, "<think>"@, "</think>"@),
            "<thinking>"@,
            "</thinking>"@,
        ),
    )
}

/// Strip the reasoning tags some language models wrap around their
/// thinking — `<think>`…`</think>` and `<thinking>`…`</thinking>`, any
/// casing, unmatched tags included — and trim the result.
pub fn strip_thinking_tags(text: &str) -> (r: String)
    ensures
        r@ =~= strip_tags_spec(text@),
{
    let owned = text.to_owned();
    let pass1 = strip_tag_pair(&owned, "<think>", "</think>");
    let pass2 = strip_tag_pair(&pass1, "<thinking>", "</thinking>");
    crate::transcriber::trim_str(pass2.as_str())
}

/// The first position at or past `from` holding the character.
pub open spec fn find_char_from(s: Seq<char>, c: char, from: int) -> Option<int>
    decreases s.len() + 1 - from,
{
    if from < 0 || from >= s.len() {
        None
    } else if s[from] == c {
        Some(from)
    } else {
        find_char_from(s, c, from + 1)
    }
}

/// Find a character, scanning from the left.
pub fn find_char(s: &str, c: char) -> (r: Option<usize>)
    ensures
        (match r {
            Some(i) => find_char_from(s@, c, 0) == Some(i as int) && i < s@.len(),
            None => find_char_from(s@, c, 0) is None,
        }),
{
    let n = s.unicode_len();
    let mut i: usize = 0;
    while i < n
        invariant
            n == s@.len(),
            i <= n,
            find_char_from(s@, c, 0) == find_char_from(s@, c, i as int),
        decreases n - i,
    {
        if s.get_char(i) == c {
            return Some(i);
        }
        i = i + 1;
    }
    None
}

/// The first line whose trim is visible, trimmed — or the whole text
/// where every line is blank.
pub open spec fn first_line_spec(s: Seq<char>) -> Seq<char>
    decreases s.len(),
    via first_line_spec_dec
{
    match find_char_from(s, '\n', 0) {
        Some(p) => if trim_spec(s.take(p)).len() > 0 {
            trim_spec(s.take(p))
        } else {
            first_line_spec(s.skip(p + 1))
        },
        None => if trim_spec(s).len() > 0 {
            trim_spec(s)
        } else {
            s
        },
    }
}

#[via_fn]
proof fn first_line_spec_dec(s: Seq<char>) {
    match find_char_from(s, '\n', 0) {
        Some(p) => lemma_find_char_bounds(s, '\n', 0, p),
        None => (),
    }
}

/// The first non-blank line of the text, trimmed; the whole text where
/// all lines are blank.
pub fn first_nonblank_line(s: &str) -> (r: String)
    ensures
        r@ =~= first_line_spec(s@),
    decreases s@.len(),
{
    let n = s.unicode_len();
    let pos = find_char(s, '\n');
    match pos {
        Some(p) => {
            proof {
                lemma_find_char_bounds(s@, '\n', 0, p as int);
            }
            let head = s.substring_char(0, p);
            let trimmed = crate::transcriber::trim_str(head);
            if !trimmed.as_str().is_empty() {
                trimmed
            } else {
                let rest = s.substring_char(p + 1, n);
                first_nonblank_line(rest)
            }
        },
        None => {
            let trimmed = crate::transcriber::trim_str(s);
            if !trimmed.as_str().is_empty() {
                trimmed
            } else {
                s.to_owned()
            }
        },
    }
}

/// A found character position is in bounds.
pub proof fn lemma_find_char_bounds_pub(s: Seq<char>, c: char, from: int, e: int)
    requires
        0 <= from,
        find_char_from(s, c, from) == Some(e),
    ensures
        from <= e < s.len(),
{
    lemma_find_char_bounds(s, c, from, e);
}

/// A found character position is in bounds.
proof fn lemma_find_char_bounds(s: Seq<char>, c: char, from: int, e: int)
    requires
        0 <= from,
        find_char_from(s, c, from) == Some(e),
    ensures
        from <= e < s.len(),
    decreases s.len() + 1 - from,
{
    if from < s.len() && s[from] != c {
        lemma_find_char_bounds(s, c, from + 1, e);
    }
}

/// The text with every leading repetition of `pat` removed.
pub open spec fn strip_prefix_all(s: Seq<char>, pat: Seq<char>) -> Seq<char>
    decreases s.len(),
{
    if pat.len() > 0 && s.len() >= pat.len() && s.take(pat.len() as int) == pat {
        strip_prefix_all(s.skip(pat.len() as int), pat)
    } else {
        s
    }
}

/// Remove every leading repetition of `pat`.
pub fn strip_prefix_str(s: &str, pat: &str) -> (r: String)
    ensures
        r@ =~= strip_prefix_all(s@, pat@),
    decreases s@.len(),
{
    let n = s.unicode_len();
    let m = pat.unicode_len();
    if m == 0 || n < m {
        return s.to_owned();
    }
    let head = s.substring_char(0, m);
    if crate::model::eq_str(head, pat) {
        proof {
            assert(s@.take(m as int) == pat@);
        }
        let rest = s.substring_char(m, n);
        strip_prefix_str(rest, pat)
    } else {
        proof {
            assert(s@.take(m as int) != pat@);
        }
        s.to_owned()
    }
}

/// The first index from the left not holding `c`.
pub open spec fn skip_char_idx(s: Seq<char>, c: char, i: int) -> int
    decreases s.len() + 1 - i,
{
    if i < 0 || i >= s.len() || s[i] != c {
        i
    } else {
        skip_char_idx(s, c, i + 1)
    }
}

/// One past the last index before `i` not holding `c`.
pub open spec fn rskip_char_idx(s: Seq<char>, c: char, i: int) -> int
    decreases i,
{
    if i <= 0 {
        0
    } else if s[i - 1] != c {
        i
    } else {
        rskip_char_idx(s, c, i - 1)
    }
}

/// The text without leading and trailing repetitions of `c`.
pub open spec fn trim_char_spec(s: Seq<char>, c: char) -> Seq<char> {
    let a = skip_char_idx(s, c, 0);
    let b = rskip_char_idx(s, c, s.len() as int);
    if a <= b {
        s.subrange(a, b)
    } else {
        Seq::empty()
    }
}

/// Remove leading and trailing repetitions of one character.
pub fn trim_char(s: &str, c: char) -> (r: String)
    ensures
        r@ =~= trim_char_spec(s@, c),
{
    let n = s.unicode_len();
    let mut a: usize = 0;
    while a < n
        invariant
            n == s@.len(),
            a <= n,
            forall|j: int| 0 <= j < a ==> #[trigger] s@[j] == c,
        ensures
            a <= n,
            forall|j: int| 0 <= j < a ==> #[trigger] s@[j] == c,
            a == n || s@[a as int] != c,
        decreases n - a,
    {
        if s.get_char(a) != c {
            break ;
        }
        a = a + 1;
    }
    let mut b: usize = n;
    while b > a
        invariant
            n == s@.len(),
            a <= b <= n,
            forall|j: int| b <= j < n ==> #[trigger] s@[j] == c,
        ensures
            a <= b <= n,
            forall|j: int| b <= j < n ==> #[trigger] s@[j] == c,
            b == a || s@[b - 1] != c,
        decreases b,
    {
        if s.get_char(b - 1) != c {
            break ;
        }
        b = b - 1;
    }
    proof {
        lemma_trim_char_agree(s@, c, a as int, b as int, n as int);
    }
    s.substring_char(a, b).to_owned()
}

/// The indices the character-trim scans find are the spec's.
proof fn lemma_trim_char_agree(s: Seq<char>, c: char, a: int, b: int, n: int)
    requires
        n == s.len(),
        0 <= a <= b <= n,
        forall|j: int| 0 <= j < a ==> #[trigger] s[j] == c,
        a == n || s[a] != c,
        forall|j: int| b <= j < n ==> #[trigger] s[j] == c,
        b == a || s[b - 1] != c,
    ensures
        s.subrange(a, b) =~= trim_char_spec(s, c),
{
    lemma_skip_char(s, c, 0);
    lemma_rskip_char(s, c, n);
    let sa = skip_char_idx(s, c, 0);
    let sb = rskip_char_idx(s, c, n);
    if a == b {
        assert(forall|j: int| 0 <= j < n ==> #[trigger] s[j] == c);
        assert(sa == n) by {
            if sa < n {
                assert(s[sa] != c);
            }
        }
        assert(sb == 0) by {
            if sb > 0 {
                assert(s[sb - 1] != c);
            }
        }
    } else {
        assert(sa == a) by {
            if sa < a {
                assert(s[sa] == c);
            }
            if sa > a {
                assert(s[a] == c);
            }
        }
        assert(sb == b) by {
            if sb > b {
                assert(s[sb - 1] == c);
            }
            if sb < b {
                assert(s[b - 1] == c);
            }
        }
    }
}

/// Bounds and content of `skip_char_idx`.
proof fn lemma_skip_char(s: Seq<char>, c: char, i: int)
    requires
        0 <= i <= s.len(),
    ensures
        i <= skip_char_idx(s, c, i) <= s.len(),
        skip_char_idx(s, c, i) == s.len() || s[skip_char_idx(s, c, i)] != c,
        forall|j: int| i <= j < skip_char_idx(s, c, i) ==> #[trigger] s[j] == c,
    decreases s.len() - i,
{
    if i < s.len() && s[i] == c {
        lemma_skip_char(s, c, i + 1);
    }
}

/// Bounds and content of `rskip_char_idx`.
proof fn lemma_rskip_char(s: Seq<char>, c: char, i: int)
    requires
        0 <= i <= s.len(),
    ensures
        0 <= rskip_char_idx(s, c, i) <= i,
        rskip_char_idx(s, c, i) == 0 || s[rskip_char_idx(s, c, i) - 1] != c,
        forall|j: int| rskip_char_idx(s, c, i) <= j < i ==> #[trigger] s[j] == c,
    decreases i,
{
    if i > 0 && s[i - 1] == c {
        lemma_rskip_char(s, c, i - 1);
    }
}

/// Whether `s` begins with `pat`.
pub open spec fn starts_with_spec(s: Seq<char>, pat: Seq<char>) -> bool {
    s.len() >= pat.len() && s.take(pat.len() as int) == pat
}

/// Whether the text begins with the pattern.
pub fn starts_with_str(s: &str, pat: &str) -> (r: bool)
    ensures
        r == starts_with_spec(s@, pat@),
{
    let n = s.unicode_len();
    let m = pat.unicode_len();
    if n < m {
        return false;
    }
    let head = s.substring_char(0, m);
    let e = crate::model::eq_str(head, pat);
    proof {
        assert(head@ == s@.take(m as int));
    }
    e
}

/// What `char::is_alphabetic` returns: a function of the character alone.
pub uninterp spec fn is_alphabetic_of(c: char) -> bool;

/// Relies on `char::is_alphabetic`: whether the character has the
/// Unicode `Alphabetic` property, a function of the character alone.
#[verifier::external_body]
pub fn char_is_alphabetic(c: char) -> (r: bool)
    ensures
        r == is_alphabetic_of(c),
{
    c.is_alphabetic()
}

/// What `char::is_alphanumeric` returns: a function of the character
/// alone.
pub uninterp spec fn is_alphanumeric_of(c: char) -> bool;

/// Relies on `char::is_alphanumeric`: whether the character is a letter
/// or digit, a function of the character alone.
#[verifier::external_body]
pub fn char_is_alphanumeric(c: char) -> (r: bool)
    ensures
        r == is_alphanumeric_of(c),
{
    c.is_alphanumeric()
}

/// The five ASCII vowels.
pub open spec fn is_vowel(c: char) -> bool {
    c == 'a' || c == 'e' || c == 'i' || c == 'o' || c == 'u'
}

/// How many of the first `i` characters are alphabetic.
pub open spec fn count_alpha(s: Seq<char>, i: int) -> int
    decreases i,
{
    if i <= 0 {
        0
    } else {
        count_alpha(s, i - 1) + if is_alphabetic_of(s[i - 1]) {
            1int
        } else {
            0int
        }
    }
}

/// How many of the first `i` characters are letters, digits or
/// whitespace.
pub open spec fn count_meaningful(s: Seq<char>, i: int) -> int
    decreases i,
{
    if i <= 0 {
        0
    } else {
        count_meaningful(s, i - 1) + if is_alphanumeric_of(s[i - 1]) || is_ws(s[i - 1]) {
            1int
        } else {
            0int
        }
    }
}

/// The consonant run ending at position `i` of a lowercase text: letters
/// that are no vowels extend it, anything else resets it.
pub open spec fn streak_at(s: Seq<char>, i: int) -> int
    decreases i,
{
    if i <= 0 {
        0
    } else if is_alphabetic_of(s[i - 1]) && !is_vowel(s[i - 1]) {
        streak_at(s, i - 1) + 1
    } else {
        0
    }
}

/// The longest consonant run within the first `i` characters.
pub open spec fn max_streak(s: Seq<char>, i: int) -> int
    decreases i,
{
    if i <= 0 {
        0
    } else {
        let m = max_streak(s, i - 1);
        let st = streak_at(s, i);
        if st > m {
            st
        } else {
            m
        }
    }
}

/// Whether the trimmed lowercase title is one of the exact placeholder
/// or filler words a model falls back to instead of a real title.
pub open spec fn nonsense_exact_spec(l: Seq<char>) -> bool {
    ||| l == "lorem ipsum"@
    ||| l == "test title"@
    ||| l == "title here"@
    ||| l == "insert title"@
    ||| l == "placeholder"@
    ||| l == "example"@
    ||| l == "sample"@
    ||| l == "asdf"@
    ||| l == "qwerty"@
    ||| l == "title"@
    ||| l == "summary"@
    ||| l == "transcript"@
    ||| l == "meeting"@
    ||| l == "note"@
    ||| l == "notes"@
    ||| l == "untitled meeting"@
    ||| l == "new meeting"@
    ||| l == "meeting title"@
    ||| l == "the title"@
    ||| l == "a title"@
    ||| l == "discussion"@
    ||| l == "conversation"@
    ||| l == "audio"@
    ||| l == "recording"@
    ||| l == "call"@
    ||| l == "chat"@
    ||| l == "talk"@
    ||| l == "overview"@
    ||| l == "review"@
    ||| l == "update"@
    ||| l == "general"@
    ||| l == "misc"@
    ||| l == "miscellaneous"@
    ||| l == "various"@
    ||| l == "topics"@
    ||| l == "items"@
    ||| l == "agenda"@
    ||| l == "content"@
    ||| l == "text"@
    ||| l == "document"@
}

/// Whether a word is one of the generic meeting words that cannot carry
/// a title on their own.
pub open spec fn generic_word_spec(w: Seq<char>) -> bool {
    ||| w == "meeting"@
    ||| w == "discussion"@
    ||| w == "summary"@
    ||| w == "overview"@
    ||| w == "notes"@
    ||| w == "update"@
    ||| w == "review"@
    ||| w == "call"@
    ||| w == "conversation"@
    ||| w == "talk"@
    ||| w == "general"@
    ||| w == "team"@
    ||| w == "weekly"@
    ||| w == "daily"@
    ||| w == "monthly"@
}

/// Whether the trimmed lowercase title carries a fragment that leaked
/// from the prompt instead of a title.
pub open spec fn leakage_spec(l: Seq<char>) -> bool {
    ||| crate::text::contains_seq(l, "2-6 word"@)
    ||| crate::text::contains_seq(l, "2-6word"@)
    ||| crate::text::contains_seq(l, "generate a"@)
    ||| crate::text::contains_seq(l, "just the title"@)
    ||| crate::text::contains_seq(l, "nothing else"@)
    ||| crate::text::contains_seq(l, "word title for"@)
    ||| crate::text::contains_seq(l, "title for this"@)
    ||| crate::text::contains_seq(l, "for this transcript"@)
    ||| crate::text::contains_seq(l, "for this summary"@)
    ||| crate::text::contains_seq(l, "here is"@)
    ||| crate::text::contains_seq(l, "here's a"@)
    ||| crate::text::contains_seq(l, "i would suggest"@)
    ||| crate::text::contains_seq(l, "i suggest"@)
    ||| crate::text::contains_seq(l, "my suggestion"@)
    ||| crate::text::contains_seq(l, "based on the"@)
    ||| crate::text::contains_seq(l, "based on this"@)
    ||| crate::text::contains_seq(l, "title idea"@)
    ||| crate::text::contains_seq(l, "any other"@)
    ||| crate::text::contains_seq(l, "name1"@)
    ||| crate::text::contains_seq(l, "name2"@)
    ||| crate::text::contains_seq(l, "option1"@)
    ||| crate::text::contains_seq(l, "option2"@)
    ||| crate::text::contains_seq(l, "alternative"@)
    ||| crate::text::contains_seq(l, "suggested title"@)
    ||| crate::text::contains_seq(l, "possible title"@)
    ||| crate::text::contains_seq(l, "potential title"@)
    ||| crate::text::contains_seq(l, "description"@)
    ||| crate::text::contains_seq(l, "describe"@)
    ||| crate::text::contains_seq(l, "we need"@)
    ||| crate::text::contains_seq(l, "summary:"@)
    ||| crate::text::contains_seq(l, "main topic"@)
    ||| crate::text::contains_seq(l, "key points"@)
    ||| crate::text::contains_seq(l, "important"@)
}

/// What makes a generated title acceptable: long enough, carrying real
/// letters, free of degenerate repetition, pronounceable, mostly visible
/// characters, and neither a placeholder word, a string of generic
/// meeting words, nor a leaked prompt fragment.
pub open spec fn valid_title_spec(t: Seq<char>) -> bool {
    let n = t.len() as int;
    let lower = fold_ascii(t);
    let lt = trim_spec(lower);
    &&& n >= 3
    &&& count_alpha(t, n) >= 2
    &&& !(n >= 4 && (forall|i: int| 0 <= i < n ==> #[trigger] t[i] == t[0]))
    &&& !(n >= 4 && n % 2 == 0 && n > 4 && (forall|k: int|
        0 <= k && 2 * k + 1 < n ==> #[trigger] t[2 * k] == t[0] && t[2 * k + 1] == t[1]))
    &&& max_streak(lower, n) <= 6
    &&& count_meaningful(t, n) >= n / 2
    &&& !nonsense_exact_spec(lt)
    &&& !(words_from(lt, 0).len() > 0 && (forall|i: int|
        0 <= i < words_from(lt, 0).len() ==> generic_word_spec(#[trigger] words_from(lt, 0)[i])))
    &&& !leakage_spec(lt)
}

/// Whether a generated title is acceptable, exactly as
/// [`valid_title_spec`] defines it.
#[verifier::rlimit(30)]
pub fn is_valid_title(title: &str) -> (r: bool)
    ensures
        r == valid_title_spec(title@),
{
    let n = title.unicode_len();
    if n < 3 {
        return false;
    }
    // at least two letters
    let mut alpha: usize = 0;
    let mut i: usize = 0;
    while i < n
        invariant
            n == title@.len(),
            i <= n,
            alpha == count_alpha(title@, i as int),
            alpha <= i,
        decreases n - i,
    {
        if char_is_alphabetic(title.get_char(i)) {
            alpha = alpha + 1;
        }
        i = i + 1;
    }
    if alpha < 2 {
        return false;
    }
    // degenerate repetition: one character, or one two-character pattern
    if n >= 4 {
        if all_chars_same(title) {
            return false;
        }
        if n % 2 == 0 && n > 4 {
            if is_two_char_repeat(title) {
                proof {
                    assert(forall|k: int|
                        0 <= k && 2 * k + 1 < title@.len() ==> #[trigger] title@[2 * k]
                            == title@[0] && title@[2 * k + 1] == title@[1]);
                    assert(!valid_title_spec(title@));
                }
                return false;
            }
        }
    }
    // pronounceability: no run of more than six consonants
    let lower = fold_ascii_str(title);
    let mut streak: usize = 0;
    let mut maxs: usize = 0;
    let mut p: usize = 0;
    while p < n
        invariant
            n == title@.len(),
            lower@ =~= fold_ascii(title@),
            p <= n,
            streak == streak_at(lower@, p as int),
            maxs == max_streak(lower@, p as int),
            streak <= p,
            maxs <= p,
        decreases n - p,
    {
        let c = lower.as_str().get_char(p);
        if char_is_alphabetic(c) {
            if c == 'a' || c == 'e' || c == 'i' || c == 'o' || c == 'u' {
                streak = 0;
            } else {
                streak = streak + 1;
                if streak > maxs {
                    maxs = streak;
                }
            }
        } else {
            streak = 0;
        }
        p = p + 1;
    }
    if maxs > 6 {
        return false;
    }
    // mostly visible characters
    let mut meaningful: usize = 0;
    let mut q: usize = 0;
    while q < n
        invariant
            n == title@.len(),
            q <= n,
            meaningful == count_meaningful(title@, q as int),
            meaningful <= q,
        decreases n - q,
    {
        let c = title.get_char(q);
        if char_is_alphanumeric(c) || crate::text::is_ws_char(c) {
            meaningful = meaningful + 1;
        }
        q = q + 1;
    }
    if meaningful < n / 2 {
        return false;
    }
    // placeholder words, generic-only phrases, prompt leakage
    let lt = crate::transcriber::trim_str(lower.as_str());
    let l = lt.as_str();
    if crate::model::eq_str(l, "lorem ipsum") || crate::model::eq_str(l, "test title")
        || crate::model::eq_str(l, "title here") || crate::model::eq_str(l, "insert title")
        || crate::model::eq_str(l, "placeholder") || crate::model::eq_str(l, "example")
        || crate::model::eq_str(l, "sample") || crate::model::eq_str(l, "asdf")
        || crate::model::eq_str(l, "qwerty") || crate::model::eq_str(l, "title")
        || crate::model::eq_str(l, "summary") || crate::model::eq_str(l, "transcript")
        || crate::model::eq_str(l, "meeting") || crate::model::eq_str(l, "note")
        || crate::model::eq_str(l, "notes") || crate::model::eq_str(l, "untitled meeting")
        || crate::model::eq_str(l, "new meeting") || crate::model::eq_str(l, "meeting title")
        || crate::model::eq_str(l, "the title") || crate::model::eq_str(l, "a title")
        || crate::model::eq_str(l, "discussion") || crate::model::eq_str(l, "conversation")
        || crate::model::eq_str(l, "audio") || crate::model::eq_str(l, "recording")
        || crate::model::eq_str(l, "call") || crate::model::eq_str(l, "chat")
        || crate::model::eq_str(l, "talk") || crate::model::eq_str(l, "overview")
        || crate::model::eq_str(l, "review") || crate::model::eq_str(l, "update")
        || crate::model::eq_str(l, "general") || crate::model::eq_str(l, "misc")
        || crate::model::eq_str(l, "miscellaneous") || crate::model::eq_str(l, "various")
        || crate::model::eq_str(l, "topics") || crate::model::eq_str(l, "items")
        || crate::model::eq_str(l, "agenda") || crate::model::eq_str(l, "content")
        || crate::model::eq_str(l, "text") || crate::model::eq_str(l, "document") {
        return false;
    }
    let ws = crate::text::split_words(l);
    if ws.len() > 0 {
        let mut all_generic = true;
        let mut w: usize = 0;
        let nw = ws.len();
        while w < nw
            invariant
                nw == ws@.len(),
                crate::text::word_views(ws@) =~= words_from(lt@, 0),
                w <= nw,
                all_generic == forall|j: int|
                    0 <= j < w ==> generic_word_spec(#[trigger] crate::text::word_views(ws@)[j]),
            decreases nw - w,
        {
            let wd = ws[w].as_str();
            let g = crate::model::eq_str(wd, "meeting") || crate::model::eq_str(wd, "discussion")
                || crate::model::eq_str(wd, "summary") || crate::model::eq_str(wd, "overview")
                || crate::model::eq_str(wd, "notes") || crate::model::eq_str(wd, "update")
                || crate::model::eq_str(wd, "review") || crate::model::eq_str(wd, "call")
                || crate::model::eq_str(wd, "conversation") || crate::model::eq_str(wd, "talk")
                || crate::model::eq_str(wd, "general") || crate::model::eq_str(wd, "team")
                || crate::model::eq_str(wd, "weekly") || crate::model::eq_str(wd, "daily")
                || crate::model::eq_str(wd, "monthly");
            proof {
                assert(g == generic_word_spec(crate::text::word_views(ws@)[w as int]));
            }
            if !g {
                all_generic = false;
            }
            w = w + 1;
        }
        if all_generic {
            proof {
                assert(words_from(lt@, 0).len() > 0);
            }
            return false;
        }
    }
    if crate::text::contains_str(l, "2-6 word") || crate::text::contains_str(l, "2-6word")
        || crate::text::contains_str(l, "generate a") || crate::text::contains_str(
        l,
        "just the title",
    ) || crate::text::contains_str(l, "nothing else") || crate::text::contains_str(
        l,
        "word title for",
    ) || crate::text::contains_str(l, "title for this") || crate::text::contains_str(
        l,
        "for this transcript",
    ) || crate::text::contains_str(l, "for this summary") || crate::text::contains_str(
        l,
        "here is",
    ) || crate::text::contains_str(l, "here's a") || crate::text::contains_str(
        l,
        "i would suggest",
    ) || crate::text::contains_str(l, "i suggest") || crate::text::contains_str(
        l,
        "my suggestion",
    ) || crate::text::contains_str(l, "based on the") || crate::text::contains_str(
        l,
        "based on this",
    ) || crate::text::contains_str(l, "title idea") || crate::text::contains_str(l, "any other")
        || crate::text::contains_str(l, "name1") || crate::text::contains_str(l, "name2")
        || crate::text::contains_str(l, "option1") || crate::text::contains_str(l, "option2")
        || crate::text::contains_str(l, "alternative") || crate::text::contains_str(
        l,
        "suggested title",
    ) || crate::text::contains_str(l, "possible title") || crate::text::contains_str(
        l,
        "potential title",
    ) || crate::text::contains_str(l, "description") || crate::text::contains_str(l, "describe")
        || crate::text::contains_str(l, "we need") || crate::text::contains_str(l, "summary:")
        || crate::text::contains_str(l, "main topic") || crate::text::contains_str(
        l,
        "key points",
    ) || crate::text::contains_str(l, "important") {
        return false;
    }
    true
}

/// Whether every character of the text equals its first.
fn all_chars_same(title: &str) -> (r: bool)
    requires
        title@.len() >= 1,
    ensures
        r == (forall|i: int| 0 <= i < title@.len() ==> #[trigger] title@[i] == title@[0]),
{
    let n = title.unicode_len();
    let first = title.get_char(0);
    let mut k: usize = 0;
    while k < n
        invariant
            n == title@.len(),
            k <= n,
            first == title@[0],
            forall|j: int| 0 <= j < k ==> #[trigger] title@[j] == title@[0],
        decreases n - k,
    {
        if title.get_char(k) != first {
            return false;
        }
        k = k + 1;
    }
    true
}

/// Whether the text is its own first two characters repeated.
fn is_two_char_repeat(title: &str) -> (r: bool)
    requires
        title@.len() >= 2,
        title@.len() % 2 == 0,
    ensures
        r == (forall|k: int|
            0 <= k && 2 * k + 1 < title@.len() ==> #[trigger] title@[2 * k] == title@[0]
                && title@[2 * k + 1] == title@[1]),
{
    let n = title.unicode_len();
    let c0 = title.get_char(0);
    let c1 = title.get_char(1);
    let mut k2: usize = 0;
    while k2 + 1 < n
        invariant
            n == title@.len(),
            n % 2 == 0,
            k2 % 2 == 0,
            k2 <= n,
            c0 == title@[0],
            c1 == title@[1],
            forall|j: int|
                0 <= j && 2 * j + 1 < k2 ==> #[trigger] title@[2 * j] == title@[0] && title@[2 * j
                    + 1] == title@[1],
        decreases n - k2,
    {
        if title.get_char(k2) != c0 || title.get_char(k2 + 1) != c1 {
            proof {
                let j = k2 as int / 2;
                assert(2 * j == k2 && 2 * j + 1 == k2 + 1);
                assert(!(title@[2 * j] == title@[0] && title@[2 * j + 1] == title@[1]));
            }
            return false;
        }
        proof {
            assert forall|j: int|
                0 <= j && 2 * j + 1 < k2 + 2 implies #[trigger] title@[2 * j] == title@[0]
                && title@[2 * j + 1] == title@[1] by {
                if 2 * j + 1 < k2 {
                } else {
                    assert(2 * j == k2);
                }
            }
        }
        k2 = k2 + 2;
    }
    proof {
        if k2 == n - 1 {
            assert(k2 % 2 == 0 && n % 2 == 0);
            assert(false);
        }
        assert(k2 >= n);
    }
    true
}

/// The text without trailing whitespace.
pub open spec fn trim_end_spec(s: Seq<char>) -> Seq<char> {
    s.take(crate::transcriber::rskip_ws_idx(s, s.len() as int))
}

/// Remove trailing whitespace.
pub fn trim_end_str(s: &str) -> (r: String)
    ensures
        r@ =~= trim_end_spec(s@),
{
    let n = s.unicode_len();
    proof {
        crate::transcriber::lemma_rskip_ws_pub(s@, n as int);
    }
    let mut b: usize = n;
    while b > 0
        invariant
            n == s@.len(),
            b <= n,
            forall|j: int| b <= j < n ==> is_ws(#[trigger] s@[j]),
        ensures
            b <= n,
            forall|j: int| b <= j < n ==> is_ws(#[trigger] s@[j]),
            b == 0 || !is_ws(s@[b - 1]),
        decreases b,
    {
        if !crate::text::is_ws_char(s.get_char(b - 1)) {
            break ;
        }
        b = b - 1;
    }
    proof {
        let sb = crate::transcriber::rskip_ws_idx(s@, n as int);
        if b < sb {
            assert(is_ws(s@[sb - 1]));
        }
        if b > sb {
            assert(is_ws(s@[b - 1]));
        }
        assert(b == sb);
    }
    s.substring_char(0, b).to_owned()
}

/// The title a raw model response boils down to: reasoning tags stripped,
/// only the first visible line kept, label prefixes and quoting
/// characters removed — and the fallback title where what remains is a
/// refusal, a question, a placeholder, or nothing, or the first hundred
/// characters where it runs over.
pub open spec fn clean_title_spec(resp: Seq<char>) -> Seq<char> {
    let cleaned = strip_tags_spec(resp);
    let fl = first_line_spec(cleaned);
    let wp = trim_spec(
        strip_prefix_all(
            strip_prefix_all(
                strip_prefix_all(
                    strip_prefix_all(
                        strip_prefix_all(
                            strip_prefix_all(strip_prefix_all(fl, "Title:"@), "title:"@),
                            "TITLE:"@,
                        ),
                        "Here's a title:"@,
                    ),
                    "Here is a title:"@,
                ),
                "The title is:"@,
            ),
            "Suggested title:"@,
        ),
    );
    let wq = trim_spec(
        trim_char_spec(
            trim_char_spec(
                trim_char_spec(
                    trim_char_spec(trim_char_spec(trim_char_spec(wp, '"'), '\''), '`'),
                    '*',
                ),
                '#',
            ),
            '_',
        ),
    );
    if title_refused_spec(wq) {
        "Meeting Notes"@
    } else if wq.len() > 100 {
        trim_end_spec(wq.take(100))
    } else {
        wq
    }
}

/// Whether the cleaned response is a refusal, request, placeholder or
/// question rather than a title.
pub open spec fn title_refused_spec(wq: Seq<char>) -> bool {
    let lower = fold_ascii(wq);
    ||| crate::text::contains_seq(lower, "can you"@)
    ||| crate::text::contains_seq(lower, "could you"@)
    ||| crate::text::contains_seq(lower, "please provide"@)
    ||| crate::text::contains_seq(lower, "more details"@)
    ||| crate::text::contains_seq(lower, "more context"@)
    ||| crate::text::contains_seq(lower, "more information"@)
    ||| starts_with_spec(lower, "i need"@)
    ||| starts_with_spec(lower, "i would need"@)
    ||| starts_with_spec(lower, "unfortunately"@)
    ||| starts_with_spec(lower, "i cannot"@)
    ||| starts_with_spec(lower, "i'm unable"@)
    ||| lower == "unspecified"@
    ||| lower == "untitled"@
    ||| lower == "n/a"@
    ||| lower == "none"@
    ||| lower == "unknown"@
    ||| lower.len() == 0
    ||| (wq.len() > 0 && wq.last() == '?')
}

/// Boil a raw model response down to a usable title, per
/// [`clean_title_spec`].
pub fn clean_title_response(response: &str) -> (r: String)
    ensures
        r@ =~= clean_title_spec(response@),
{
    let cleaned = strip_thinking_tags(response);
    let fl = first_nonblank_line(cleaned.as_str());
    let p1 = strip_prefix_str(fl.as_str(), "Title:");
    let p2 = strip_prefix_str(p1.as_str(), "title:");
    let p3 = strip_prefix_str(p2.as_str(), "TITLE:");
    let p4 = strip_prefix_str(p3.as_str(), "Here's a title:");
    let p5 = strip_prefix_str(p4.as_str(), "Here is a title:");
    let p6 = strip_prefix_str(p5.as_str(), "The title is:");
    let p7 = strip_prefix_str(p6.as_str(), "Suggested title:");
    let wp = crate::transcriber::trim_str(p7.as_str());
    let q1 = trim_char(wp.as_str(), '"');
    let q2 = trim_char(q1.as_str(), '\'');
    let q3 = trim_char(q2.as_str(), '`');
    let q4 = trim_char(q3.as_str(), '*');
    let q5 = trim_char(q4.as_str(), '#');
    let q6 = trim_char(q5.as_str(), '_');
    let wq = crate::transcriber::trim_str(q6.as_str());
    let lower = fold_ascii_str(wq.as_str());
    let l = lower.as_str();
    let wn = wq.as_str().unicode_len();
    let refused = crate::text::contains_str(l, "can you") || crate::text::contains_str(
        l,
        "could you",
    ) || crate::text::contains_str(l, "please provide") || crate::text::contains_str(
        l,
        "more details",
    ) || crate::text::contains_str(l, "more context") || crate::text::contains_str(
        l,
        "more information",
    ) || starts_with_str(l, "i need") || starts_with_str(l, "i would need") || starts_with_str(
        l,
        "unfortunately",
    ) || starts_with_str(l, "i cannot") || starts_with_str(l, "i'm unable")
        || crate::model::eq_str(l, "unspecified") || crate::model::eq_str(l, "untitled")
        || crate::model::eq_str(l, "n/a") || crate::model::eq_str(l, "none")
        || crate::model::eq_str(l, "unknown") || l.is_empty() || (wn > 0 && wq.as_str().get_char(
        wn - 1,
    ) == '?');
    if refused {
        proof {
            assert(title_refused_spec(wq@));
        }
        return "Meeting Notes".to_owned();
    }
    proof {
        assert(!title_refused_spec(wq@));
    }
    if wn > 100 {
        let head = wq.as_str().substring_char(0, 100);
        trim_end_str(head)
    } else {
        wq
    }
}

/// Whether a character ends a sentence.
pub open spec fn is_sentence_end(c: char) -> bool {
    c == '.' || c == '!' || c == '?'
}

/// One past the end of the sentence starting at `i`: just past the first
/// sentence-ending character, or the end of the text.
pub open spec fn sent_end(s: Seq<char>, i: int) -> int
    decreases s.len() + 1 - i,
{
    if i < 0 || i >= s.len() {
        s.len() as int
    } else if is_sentence_end(s[i]) {
        i + 1
    } else {
        sent_end(s, i + 1)
    }
}

/// `sent_end` moves forward and stays in bounds.
proof fn lemma_sent_end(s: Seq<char>, i: int)
    requires
        0 <= i <= s.len(),
    ensures
        i <= sent_end(s, i) <= s.len(),
        i < s.len() ==> i + 1 <= sent_end(s, i),
    decreases s.len() + 1 - i,
{
    if i < s.len() && !is_sentence_end(s[i]) {
        lemma_sent_end(s, i + 1);
    }
}

/// `sent_end` is where the scan for a terminator stops.
proof fn lemma_sent_end_unique(s: Seq<char>, i: int, e: int)
    requires
        0 <= i <= e <= s.len(),
        forall|j: int| i <= j < e ==> !is_sentence_end(#[trigger] s[j]),
        e == s.len() || is_sentence_end(s[e]),
    ensures
        sent_end(s, i) == (if e < s.len() {
            e + 1
        } else {
            s.len() as int
        }),
    decreases e - i,
{
    if i < e {
        lemma_sent_end_unique(s, i + 1, e);
    }
}

/// The greedy sentence packing: sentences accumulate into the current
/// chunk until adding one would push it past `max`; a full chunk is
/// flushed trimmed, and the closing chunk only where its trim is visible.
pub open spec fn pack_sentences(s: Seq<char>, i: int, cur: Seq<char>, max: int) -> Seq<Seq<char>>
    decreases s.len() - i,
    when 0 <= i <= s.len()
    via pack_sentences_dec
{
    if i >= s.len() {
        if trim_spec(cur).len() > 0 {
            seq![trim_spec(cur)]
        } else {
            Seq::empty()
        }
    } else {
        let e = sent_end(s, i);
        let sent = s.subrange(i, e);
        if cur.len() + sent.len() > max && cur.len() > 0 {
            seq![trim_spec(cur)] + pack_sentences(s, e, sent, max)
        } else {
            pack_sentences(s, e, cur + sent, max)
        }
    }
}

#[via_fn]
proof fn pack_sentences_dec(s: Seq<char>, i: int, cur: Seq<char>, max: int) {
    if 0 <= i && i < s.len() {
        lemma_sent_end(s, i);
    }
}

/// The greedy word packing a too-large chunk falls back to: words joined
/// by single spaces accumulate until the next word would push the piece
/// past `max`.
pub open spec fn wpack(ws: Seq<Seq<char>>, k: int, cur: Seq<char>, max: int) -> Seq<Seq<char>>
    decreases ws.len() + 1 - k,
{
    if k < 0 || k >= ws.len() {
        if trim_spec(cur).len() > 0 {
            seq![trim_spec(cur)]
        } else {
            Seq::empty()
        }
    } else {
        let w = ws[k];
        if cur.len() + w.len() + 1 > max && cur.len() > 0 {
            seq![trim_spec(cur)] + wpack(ws, k + 1, w, max)
        } else {
            wpack(
                ws,
                k + 1,
                if cur.len() > 0 {
                    cur + " "@ + w
                } else {
                    w
                },
                max,
            )
        }
    }
}

/// A chunk within the limit stands; a larger one is re-split on word
/// boundaries.
pub open spec fn force_split_spec(chunk: Seq<char>, max: int) -> Seq<Seq<char>> {
    if chunk.len() <= max {
        seq![chunk]
    } else {
        wpack(words_from(chunk, 0), 0, Seq::empty(), max)
    }
}

/// Every chunk of the first pass re-split where needed, in order.
pub open spec fn flat_force(cs: Seq<Seq<char>>, max: int) -> Seq<Seq<char>>
    decreases cs.len(),
{
    if cs.len() == 0 {
        Seq::empty()
    } else {
        flat_force(cs.drop_last(), max) + force_split_spec(cs.last(), max)
    }
}

/// How a long text splits into chunks of at most `max` characters: a text
/// within the limit is one chunk; otherwise sentences pack greedily into
/// chunks, and any chunk still over the limit is re-split on word
/// boundaries.
pub open spec fn chunks_spec(s: Seq<char>, max: int) -> Seq<Seq<char>> {
    if s.len() <= max {
        seq![s]
    } else {
        flat_force(pack_sentences(s, 0, Seq::empty(), max), max)
    }
}

/// Split a text into chunks of at most `max_size` characters, preferring
/// sentence boundaries and falling back to word boundaries.
pub fn split_into_chunks(text: &str, max_size: usize) -> (r: Vec<String>)
    ensures
        crate::text::word_views(r@) =~= chunks_spec(text@, max_size as int),
{
    let n = text.unicode_len();
    if n <= max_size {
        let mut out: Vec<String> = Vec::new();
        out.push(text.to_owned());
        proof {
            assert(crate::text::word_views(out@) =~= seq![text@]);
        }
        return out;
    }
    // first pass: pack whole sentences
    let mut chunks: Vec<String> = Vec::new();
    let mut cur = String::new();
    let mut i: usize = 0;
    while i < n
        invariant
            n == text@.len(),
            i <= n,
            crate::text::word_views(chunks@) + pack_sentences(
                text@,
                i as int,
                cur@,
                max_size as int,
            ) =~= pack_sentences(text@, 0, Seq::empty(), max_size as int),
        decreases n - i,
    {
        let mut e: usize = i;
        while e < n
            invariant
                n == text@.len(),
                i <= e <= n,
                forall|j: int| i <= j < e ==> !is_sentence_end(#[trigger] text@[j]),
            ensures
                i <= e <= n,
                forall|j: int| i <= j < e ==> !is_sentence_end(#[trigger] text@[j]),
                e == n || is_sentence_end(text@[e as int]),
            decreases n - e,
        {
            let c = text.get_char(e);
            if c == '.' || c == '!' || c == '?' {
                break ;
            }
            e = e + 1;
        }
        let se = if e < n {
            e + 1
        } else {
            n
        };
        proof {
            lemma_sent_end_unique(text@, i as int, e as int);
            assert(sent_end(text@, i as int) == se as int);
        }
        let sent = text.substring_char(i, se);
        let cur_len = cur.as_str().unicode_len();
        let sent_len = se - i;
        proof {
            assert(sent@.len() == se - i);
        }
        let ghost prev_chunks = crate::text::word_views(chunks@);
        let ghost prev_cur = cur@;
        if (cur_len as u128) + (sent_len as u128) > (max_size as u128) && cur_len > 0 {
            let flushed = crate::transcriber::trim_str(cur.as_str());
            chunks.push(flushed);
            cur = sent.to_owned();
            proof {
                assert(crate::text::word_views(chunks@) =~= prev_chunks.push(
                    trim_spec(prev_cur),
                ));
                assert(pack_sentences(text@, i as int, prev_cur, max_size as int) =~= seq![
                    trim_spec(prev_cur),
                ] + pack_sentences(text@, se as int, cur@, max_size as int));
            }
        } else {
            cur.append(sent);
            proof {
                assert(cur@ =~= prev_cur + text@.subrange(i as int, se as int));
                assert(pack_sentences(text@, i as int, prev_cur, max_size as int)
                    == pack_sentences(text@, se as int, cur@, max_size as int));
            }
        }
        i = se;
    }
    let leftover = crate::transcriber::trim_str(cur.as_str());
    if !leftover.as_str().is_empty() {
        chunks.push(leftover);
    }
    proof {
        assert(crate::text::word_views(chunks@) =~= pack_sentences(
            text@,
            0,
            Seq::empty(),
            max_size as int,
        ));
    }
    // second pass: re-split anything still over the limit
    let mut out: Vec<String> = Vec::new();
    let mut k: usize = 0;
    let m = chunks.len();
    while k < m
        invariant
            m == chunks@.len(),
            k <= m,
            crate::text::word_views(chunks@) =~= pack_sentences(
                text@,
                0,
                Seq::empty(),
                max_size as int,
            ),
            crate::text::word_views(out@) =~= flat_force(
                crate::text::word_views(chunks@).take(k as int),
                max_size as int,
            ),
        decreases m - k,
    {
        proof {
            assert(crate::text::word_views(chunks@).take(k + 1).drop_last()
                =~= crate::text::word_views(chunks@).take(k as int));
            assert(crate::text::word_views(chunks@).take(k + 1).last() == chunks@[k as int]@);
        }
        let c = &chunks[k];
        let clen = c.as_str().unicode_len();
        if clen <= max_size {
            out.push(c.clone());
            proof {
                assert(force_split_spec(chunks@[k as int]@, max_size as int) =~= seq![
                    chunks@[k as int]@,
                ]);
            }
        } else {
            let ws = crate::text::split_words(c.as_str());
            let mut sub = String::new();
            let mut w: usize = 0;
            let nw = ws.len();
            while w < nw
                invariant
                    nw == ws@.len(),
                    w <= nw,
                    m == chunks@.len(),
                    k < m,
                    crate::text::word_views(ws@) =~= words_from(chunks@[k as int]@, 0),
                    crate::text::word_views(out@) + wpack(
                        crate::text::word_views(ws@),
                        w as int,
                        sub@,
                        max_size as int,
                    ) =~= flat_force(
                        crate::text::word_views(chunks@).take(k as int),
                        max_size as int,
                    ) + wpack(crate::text::word_views(ws@), 0, Seq::empty(), max_size as int),
                decreases nw - w,
            {
                let word = &ws[w];
                let sub_len = sub.as_str().unicode_len();
                let word_len = word.as_str().unicode_len();
                let ghost prev_out = crate::text::word_views(out@);
                let ghost prev_sub = sub@;
                if (sub_len as u128) + (word_len as u128) + 1 > (max_size as u128) && sub_len
                    > 0 {
                    let flushed = crate::transcriber::trim_str(sub.as_str());
                    out.push(flushed);
                    sub = word.clone();
                    proof {
                        assert(crate::text::word_views(out@) =~= prev_out.push(
                            trim_spec(prev_sub),
                        ));
                        assert(wpack(
                            crate::text::word_views(ws@),
                            w as int,
                            prev_sub,
                            max_size as int,
                        ) =~= seq![trim_spec(prev_sub)] + wpack(
                            crate::text::word_views(ws@),
                            w + 1,
                            sub@,
                            max_size as int,
                        ));
                    }
                } else {
                    if sub_len > 0 {
                        sub.append(" ");
                    }
                    sub.append(word.as_str());
                    proof {
                        if prev_sub.len() > 0 {
                            assert(sub@ =~= prev_sub + " "@ + crate::text::word_views(ws@)[
                                w as int
                            ]);
                        } else {
                            assert(sub@ =~= crate::text::word_views(ws@)[w as int]);
                        }
                        assert(wpack(
                            crate::text::word_views(ws@),
                            w as int,
                            prev_sub,
                            max_size as int,
                        ) == wpack(crate::text::word_views(ws@), w + 1, sub@, max_size as int));
                    }
                }
                w = w + 1;
            }
            let tail = crate::transcriber::trim_str(sub.as_str());
            if !tail.as_str().is_empty() {
                out.push(tail);
            }
            proof {
                assert(crate::text::word_views(out@) =~= flat_force(
                    crate::text::word_views(chunks@).take(k as int),
                    max_size as int,
                ) + wpack(crate::text::word_views(ws@), 0, Seq::empty(), max_size as int));
                assert(force_split_spec(chunks@[k as int]@, max_size as int) =~= wpack(
                    words_from(chunks@[k as int]@, 0),
                    0,
                    Seq::empty(),
                    max_size as int,
                ));
                assert(wpack(words_from(chunks@[k as int]@, 0), 0, Seq::empty(), max_size as int)
                    =~= wpack(crate::text::word_views(ws@), 0, Seq::empty(), max_size as int));
            }
        }
        k = k + 1;
    }
    proof {
        assert(crate::text::word_views(chunks@).take(m as int) =~= crate::text::word_views(
            chunks@,
        ));
    }
    out
}

} // verus!
