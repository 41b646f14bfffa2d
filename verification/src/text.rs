//! Text utilities of the transcription pipeline: case folding, substring
//! search, whitespace handling, word splitting, and the skip tokens that
//! mark non-speech.

use vstd::prelude::*;
use vstd::string::StrSliceExecFns;

verus! {

/// The whitespace characters this library recognizes: the code points
/// with the Unicode `White_Space` property.
pub open spec fn is_ws(c: char) -> bool {
    ||| c == ' '
    ||| ('\u{9}' <= c && c <= '\u{d}')
    ||| c == '\u{85}'
    ||| c == '\u{a0}'
    ||| c == '\u{1680}'
    ||| ('\u{2000}' <= c && c <= '\u{200a}')
    ||| c == '\u{2028}'
    ||| c == '\u{2029}'
    ||| c == '\u{202f}'
    ||| c == '\u{205f}'
    ||| c == '\u{3000}'
}

/// Whether the text holds nothing but whitespace.
pub open spec fn is_blank(s: Seq<char>) -> bool {
    forall|i: int| 0 <= i < s.len() ==> is_ws(#[trigger] s[i])
}

/// Whether `pat` occurs in `s` starting at position `i`.
pub open spec fn matches_at(s: Seq<char>, pat: Seq<char>, i: int) -> bool {
    0 <= i && i + pat.len() <= s.len() && s.subrange(i, i + pat.len()) == pat
}

/// Whether `pat` occurs anywhere in `s`.
pub open spec fn contains_seq(s: Seq<char>, pat: Seq<char>) -> bool {
    exists|i: int| matches_at(s, pat, i)
}

/// What `str::to_lowercase` returns: a function of the characters alone.
pub uninterp spec fn lower_of(s: Seq<char>) -> Seq<char>;

/// Relies on `str::to_lowercase`: the lowercase version of the text,
/// which depends on the characters alone; an empty text stays empty, and
/// on text that is all ASCII the Unicode mapping is exactly the ASCII
/// fold — `A` through `Z` gain 32, everything else stays.
#[verifier::external_body]
pub fn to_lowercase_str(s: &str) -> (r: String)
    ensures
        r@ == lower_of(s@),
        s@.len() == 0 ==> r@.len() == 0,
        (forall|i: int| 0 <= i < s@.len() ==> #[trigger] s@[i] < '\u{80}') ==> r@
            == crate::ai::fold_ascii(s@),
{
    s.to_lowercase()
}

/// Whether the character is whitespace, as [`is_ws`] defines it.
pub fn is_ws_char(c: char) -> (r: bool)
    ensures
        r == is_ws(c),
{
    c == ' ' || ('\u{9}' <= c && c <= '\u{d}') || c == '\u{85}' || c == '\u{a0}'
        || c == '\u{1680}' || ('\u{2000}' <= c && c <= '\u{200a}') || c == '\u{2028}'
        || c == '\u{2029}' || c == '\u{202f}' || c == '\u{205f}' || c == '\u{3000}'
}

/// Whether the text holds nothing but whitespace.
pub fn is_blank_str(s: &str) -> (r: bool)
    ensures
        r == is_blank(s@),
{
    let n = s.unicode_len();
    let mut i: usize = 0;
    while i < n
        invariant
            n == s@.len(),
            i <= n,
            forall|j: int| 0 <= j < i ==> is_ws(#[trigger] s@[j]),
        decreases n - i,
    {
        let c = s.get_char(i);
        if !is_ws_char(c) {
            return false;
        }
        i = i + 1;
    }
    true
}

/// Whether `pat` occurs in `s`, by characters.
pub fn contains_str(s: &str, pat: &str) -> (r: bool)
    ensures
        r == contains_seq(s@, pat@),
{
    let n = s.unicode_len();
    let m = pat.unicode_len();
    if m > n {
        proof {
            assert forall|i: int| !matches_at(s@, pat@, i) by {}
        }
        return false;
    }
    if m == 0 {
        proof {
            assert(s@.subrange(0, 0) =~= pat@);
            assert(matches_at(s@, pat@, 0));
        }
        return true;
    }
    let mut i: usize = 0;
    while i <= n - m
        invariant
            n == s@.len(),
            m == pat@.len(),
            1 <= m <= n,
            i <= n - m + 1,
            forall|k: int| 0 <= k < i ==> !matches_at(s@, pat@, k),
        decreases n - m + 1 - i,
    {
        let mut j: usize = 0;
        let mut matched = true;
        while matched && j < m
            invariant
                n == s@.len(),
                m == pat@.len(),
                1 <= m <= n,
                i <= n - m,
                j <= m,
                matched ==> forall|t: int| 0 <= t < j ==> s@[i + t] == #[trigger] pat@[t],
                !matched ==> !matches_at(s@, pat@, i as int),
            decreases m - j + (if matched {
                1int
            } else {
                0int
            }),
        {
            let a = s.get_char(i + j);
            let b = pat.get_char(j);
            if a != b {
                matched = false;
                proof {
                    assert(s@.subrange(i as int, i + m) != pat@) by {
                        assert(s@.subrange(i as int, i + m)[j as int] == s@[i + j]);
                    }
                }
            } else {
                j = j + 1;
            }
        }
        if matched {
            proof {
                assert(s@.subrange(i as int, i + m) =~= pat@);
                assert(matches_at(s@, pat@, i as int));
            }
            return true;
        }
        i = i + 1;
    }
    proof {
        assert forall|k: int| !matches_at(s@, pat@, k) by {
            if 0 <= k && k + pat@.len() <= s@.len() {
                assert(k < i);
            }
        }
    }
    false
}

/// Whether a transcript text is one the pipeline refuses to keep: it
/// contains a skip token — a marker the speech engine emits for silence or
/// noise — case-insensitively, or holds no visible character at all.
pub open spec fn skip_spec(t: Seq<char>) -> bool {
    ||| contains_seq(lower_of(t), "[blank_audio]"@)
    ||| contains_seq(lower_of(t), "[inaudible]"@)
    ||| contains_seq(lower_of(t), "[ inaudible ]"@)
    ||| contains_seq(lower_of(t), "[silence]"@)
    ||| contains_seq(lower_of(t), "[music]"@)
    ||| contains_seq(lower_of(t), "[applause]"@)
    ||| contains_seq(lower_of(t), "[laughter]"@)
    ||| is_blank(t)
}

/// Whether a transcript segment should be dropped rather than stored:
/// blank audio, inaudible or noise markers, or whitespace-only text.
pub fn should_skip_segment(text: &str) -> (r: bool)
    ensures
        r == skip_spec(text@),
{
    let lower = to_lowercase_str(text);
    contains_str(lower.as_str(), "[blank_audio]") || contains_str(lower.as_str(), "[inaudible]")
        || contains_str(lower.as_str(), "[ inaudible ]") || contains_str(
        lower.as_str(),
        "[silence]",
    ) || contains_str(lower.as_str(), "[music]") || contains_str(lower.as_str(), "[applause]")
        || contains_str(lower.as_str(), "[laughter]") || is_blank_str(text)
}

/// The end of the word starting at `i`: the first position at or after
/// `i` that is past the end or holds whitespace.
pub open spec fn word_end(s: Seq<char>, i: int) -> int
    decreases s.len() - i,
{
    if i < 0 {
        i
    } else if i >= s.len() || is_ws(s[i]) {
        i
    } else {
        word_end(s, i + 1)
    }
}

/// `word_end` stays within bounds, stops at whitespace or the end, and
/// everything before it is part of the word.
pub proof fn lemma_word_end(s: Seq<char>, i: int)
    requires
        0 <= i <= s.len(),
    ensures
        i <= word_end(s, i) <= s.len(),
        word_end(s, i) == s.len() || is_ws(s[word_end(s, i)]),
        forall|j: int| i <= j < word_end(s, i) ==> !is_ws(#[trigger] s[j]),
    decreases s.len() - i,
{
    if i < s.len() && !is_ws(s[i]) {
        lemma_word_end(s, i + 1);
    }
}

/// `word_end` is the only position with its properties.
pub proof fn lemma_word_end_unique(s: Seq<char>, i: int, e: int)
    requires
        0 <= i <= e <= s.len(),
        forall|j: int| i <= j < e ==> !is_ws(#[trigger] s[j]),
        e == s.len() || is_ws(s[e]),
    ensures
        word_end(s, i) == e,
    decreases e - i,
{
    if i < e {
        lemma_word_end_unique(s, i + 1, e);
    }
}

/// The whitespace-separated words of `s` from position `i` on.
pub open spec fn words_from(s: Seq<char>, i: int) -> Seq<Seq<char>>
    decreases s.len() - i,
    when 0 <= i <= s.len()
    via words_from_dec
{
    if i >= s.len() {
        Seq::empty()
    } else if is_ws(s[i]) {
        words_from(s, i + 1)
    } else {
        seq![s.subrange(i, word_end(s, i))] + words_from(s, word_end(s, i))
    }
}

#[via_fn]
proof fn words_from_dec(s: Seq<char>, i: int) {
    if 0 <= i && i < s.len() && !is_ws(s[i]) {
        lemma_word_end(s, i);
        assert(word_end(s, i) == word_end(s, i + 1));
        lemma_word_end(s, i + 1);
    }
}

/// The views of a word vector.
pub open spec fn word_views(ws: Seq<String>) -> Seq<Seq<char>> {
    ws.map_values(|w: String| w@)
}

/// Split a text into its whitespace-separated words.
pub fn split_words(s: &str) -> (r: Vec<String>)
    ensures
        word_views(r@) =~= words_from(s@, 0),
{
    let n = s.unicode_len();
    let mut out: Vec<String> = Vec::new();
    let mut p: usize = 0;
    while p < n
        invariant
            n == s@.len(),
            p <= n,
            word_views(out@) + words_from(s@, p as int) =~= words_from(s@, 0),
        decreases n - p,
    {
        let c = s.get_char(p);
        if is_ws_char(c) {
            proof {
                assert(words_from(s@, p as int) == words_from(s@, p + 1));
            }
            p = p + 1;
        } else {
            let ghost start = p as int;
            let mut e: usize = p;
            while e < n
                invariant
                    n == s@.len(),
                    p <= e <= n,
                    forall|j: int| p <= j < e ==> !is_ws(#[trigger] s@[j]),
                ensures
                    p <= e <= n,
                    forall|j: int| p <= j < e ==> !is_ws(#[trigger] s@[j]),
                    e == n || is_ws(s@[e as int]),
                decreases n - e,
            {
                let d = s.get_char(e);
                if is_ws_char(d) {
                    break ;
                }
                e = e + 1;
            }
            proof {
                lemma_word_end_unique(s@, p as int, e as int);
            }
            let w = s.substring_char(p, e).to_owned();
            out.push(w);
            proof {
                assert(word_views(out@) =~= word_views(out@.drop_last()).push(w@));
                assert(words_from(s@, start) == seq![s@.subrange(start, e as int)] + words_from(
                    s@,
                    e as int,
                ));
                assert(word_views(out@) + words_from(s@, e as int) =~= words_from(s@, 0));
            }
            p = e;
        }
    }
    proof {
        assert(words_from(s@, n as int) =~= Seq::<Seq<char>>::empty());
    }
    out
}

/// The first `k` of the words, or all of them where there are fewer.
pub open spec fn first_n<A>(ws: Seq<A>, k: int) -> Seq<A> {
    if ws.len() <= k {
        ws
    } else {
        ws.take(k)
    }
}

/// Take at most the first `k` words of a vector.
pub fn take_first_n(ws: &Vec<String>, k: usize) -> (r: Vec<String>)
    ensures
        word_views(r@) =~= first_n(word_views(ws@), k as int),
{
    let mut out: Vec<String> = Vec::new();
    let end = if ws.len() <= k {
        ws.len()
    } else {
        k
    };
    let mut i: usize = 0;
    while i < end
        invariant
            end <= ws@.len(),
            i <= end,
            end == (if ws@.len() <= k {
                ws@.len() as int
            } else {
                k as int
            }),
            word_views(out@) =~= word_views(ws@).take(i as int),
        decreases end - i,
    {
        out.push(ws[i].clone());
        proof {
            assert(word_views(out@) =~= word_views(out@.drop_last()).push(ws@[i as int]@));
            assert(word_views(ws@).take(i + 1) =~= word_views(ws@).take(i as int).push(
                word_views(ws@)[i as int],
            ));
        }
        i = i + 1;
    }
    proof {
        if ws@.len() <= k {
            assert(word_views(ws@).take(end as int) =~= word_views(ws@));
        }
    }
    out
}

/// How many of the words of `ws` occur in `sys`, counting repeats in `ws`
/// each time.
pub open spec fn match_count(ws: Seq<Seq<char>>, sys: Seq<Seq<char>>) -> int
    decreases ws.len(),
{
    if ws.len() == 0 {
        0
    } else {
        match_count(ws.drop_last(), sys) + if sys.contains(ws.last()) {
            1int
        } else {
            0int
        }
    }
}

/// Whether any word of `sys` equals `w`.
fn contains_word(sys: &Vec<String>, w: &String) -> (r: bool)
    ensures
        r == word_views(sys@).contains(w@),
{
    let mut i: usize = 0;
    let n = sys.len();
    while i < n
        invariant
            n == sys@.len(),
            i <= n,
            forall|j: int| 0 <= j < i ==> word_views(sys@)[j] != w@,
        decreases n - i,
    {
        if crate::store::str_eq(&sys[i], w) {
            proof {
                assert(word_views(sys@)[i as int] == w@);
            }
            return true;
        }
        i = i + 1;
    }
    proof {
        assert forall|j: int| 0 <= j < word_views(sys@).len() implies word_views(sys@)[j]
            != w@ by {}
    }
    false
}

/// Count how many words of `ws` occur in `sys`.
pub fn count_matches(ws: &Vec<String>, sys: &Vec<String>) -> (r: usize)
    ensures
        r == match_count(word_views(ws@), word_views(sys@)),
{
    proof {
        lemma_match_count_bounds(word_views(ws@), word_views(sys@));
    }
    let mut count: usize = 0;
    let mut i: usize = 0;
    let n = ws.len();
    while i < n
        invariant
            n == ws@.len(),
            i <= n,
            count == match_count(word_views(ws@).take(i as int), word_views(sys@)),
            count <= i,
        decreases n - i,
    {
        proof {
            assert(word_views(ws@).take(i + 1).drop_last() =~= word_views(ws@).take(i as int));
            assert(word_views(ws@).take(i + 1).last() == word_views(ws@)[i as int]);
        }
        if contains_word(sys, &ws[i]) {
            count = count + 1;
        }
        i = i + 1;
    }
    proof {
        assert(word_views(ws@).take(n as int) =~= word_views(ws@));
    }
    count
}

/// A match count is between zero and the number of words counted.
proof fn lemma_match_count_bounds(ws: Seq<Seq<char>>, sys: Seq<Seq<char>>)
    ensures
        0 <= match_count(ws, sys) <= ws.len(),
    decreases ws.len(),
{
    if ws.len() > 0 {
        lemma_match_count_bounds(ws.drop_last(), sys);
    }
}

} // verus!
