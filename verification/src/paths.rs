//! On-disk layout of the recordings: one WAV per segment per source under
//! the recordings directory, and one mixed playback WAV per note.

use vstd::prelude::*;
use vstd::string::StringExecFns;

verus! {

/// The character of one decimal digit.
pub open spec fn digit_char(d: int) -> char {
    if d == 0 {
        '0'
    } else if d == 1 {
        '1'
    } else if d == 2 {
        '2'
    } else if d == 3 {
        '3'
    } else if d == 4 {
        '4'
    } else if d == 5 {
        '5'
    } else if d == 6 {
        '6'
    } else if d == 7 {
        '7'
    } else if d == 8 {
        '8'
    } else {
        '9'
    }
}

/// The decimal writing of a non-negative integer, without sign or padding.
pub open spec fn dec_str(n: int) -> Seq<char>
    decreases n,
{
    if n < 0 {
        Seq::empty()
    } else if n < 10 {
        seq![digit_char(n)]
    } else {
        dec_str(n / 10).push(digit_char(n % 10))
    }
}

/// One decimal digit as a string slice.
fn digit_str(d: u32) -> (r: &'static str)
    requires
        d < 10,
    ensures
        r@ =~= seq![digit_char(d as int)],
{
    proof {
        reveal_strlit("0");
        reveal_strlit("1");
        reveal_strlit("2");
        reveal_strlit("3");
        reveal_strlit("4");
        reveal_strlit("5");
        reveal_strlit("6");
        reveal_strlit("7");
        reveal_strlit("8");
        reveal_strlit("9");
    }
    match d {
        0 => "0",
        1 => "1",
        2 => "2",
        3 => "3",
        4 => "4",
        5 => "5",
        6 => "6",
        7 => "7",
        8 => "8",
        _ => "9",
    }
}

/// The decimal writing of `n`.
pub fn u32_to_string(n: u32) -> (r: String)
    ensures
        r@ =~= dec_str(n as int),
    decreases n,
{
    if n < 10 {
        digit_str(n).to_owned()
    } else {
        let mut s = u32_to_string(n / 10);
        s.append(digit_str(n % 10));
        proof {
            assert(s@ =~= dec_str((n / 10) as int).push(digit_char((n % 10) as int)));
        }
        s
    }
}

/// The path of one segment's WAV for one source:
/// `<dir>/<note><label><index>.wav`, where `label` is `_mic_seg` or
/// `_system_seg`.
pub open spec fn seg_path_spec(
    dir: Seq<char>,
    note: Seq<char>,
    label: Seq<char>,
    idx: int,
) -> Seq<char> {
    dir + "/"@ + note + label + dec_str(idx) + ".wav"@
}

/// The path of the note's mixed playback WAV: `<dir>/<note>.wav`.
pub open spec fn note_wav_spec(dir: Seq<char>, note: Seq<char>) -> Seq<char> {
    dir + "/"@ + note + ".wav"@
}

/// Build one segment's WAV path for one source.
pub fn seg_file_path(dir: &String, note_id: &String, label: &str, index: u32) -> (r: String)
    ensures
        r@ =~= seg_path_spec(dir@, note_id@, label@, index as int),
{
    let mut s = dir.clone();
    s.append("/");
    s.append(note_id.as_str());
    s.append(label);
    let idx = u32_to_string(index);
    s.append(idx.as_str());
    s.append(".wav");
    s
}

/// Build the note's mixed playback WAV path.
pub fn note_wav_path(dir: &String, note_id: &String) -> (r: String)
    ensures
        r@ =~= note_wav_spec(dir@, note_id@),
{
    let mut s = dir.clone();
    s.append("/");
    s.append(note_id.as_str());
    s.append(".wav");
    s
}

/// Join a directory and a file name with a single separator.
pub fn join_path(dir: &String, name: &str) -> (r: String)
    ensures
        r@ =~= dir@ + "/"@ + name@,
{
    let mut s = dir.clone();
    s.append("/");
    s.append(name);
    s
}

/// The decimal writing of an unsigned 64-bit number.
pub fn u64_to_string(n: u64) -> (r: String)
    ensures
        r@ =~= dec_str(n as int),
    decreases n,
{
    if n < 10 {
        digit_str((n % 10) as u32).to_owned()
    } else {
        let mut s = u64_to_string(n / 10);
        s.append(digit_str((n % 10) as u32));
        proof {
            assert(s@ =~= dec_str((n / 10) as int).push(digit_char((n % 10) as int)));
        }
        s
    }
}

/// The decimal writing of a signed number: a minus sign before the
/// magnitude where it is negative.
pub open spec fn dec_str_signed(n: int) -> Seq<char> {
    if n < 0 {
        "-"@ + dec_str(-n)
    } else {
        dec_str(n)
    }
}

/// The decimal writing of a signed 64-bit number.
pub fn i64_to_string(n: i64) -> (r: String)
    requires
        n > i64::MIN,
    ensures
        r@ =~= dec_str_signed(n as int),
{
    if n < 0 {
        let mut s = "-".to_owned();
        let m = u64_to_string((-n) as u64);
        s.append(m.as_str());
        s
    } else {
        u64_to_string(n as u64)
    }
}

} // verus!
