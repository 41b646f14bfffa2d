//! Markdown export of a note: header, summaries and timestamped
//! transcript, plus the file name it saves under.
//!
//! Timestamps arrive as the RFC 3339 text the datastore keeps; the
//! calendar arithmetic behind their display is the `chrono` crate's.

use vstd::prelude::*;
use vstd::string::StrSliceExecFns;
use vstd::string::StringExecFns;

use crate::ai::is_alphanumeric_of;
use crate::paths::{dec_str, dec_str_signed};
use crate::pcm::trunc_div;
use crate::records::{Summary, SummaryType};
use crate::transcriber::{trim_spec, TranscriptionSegment};

verus! {

/// What exporting a note yields: the document and its file name.
#[derive(Debug)]
pub struct ExportData {
    pub markdown: String,
    pub filename: String,
}

/// What `chrono` displays for an RFC 3339 timestamp as `%B %d, %Y at
/// %H:%M`, or the input itself where it does not parse.  A function of
/// the text alone.
pub uninterp spec fn rfc3339_display_of(s: Seq<char>) -> Seq<char>;

/// Relies on `chrono::DateTime::parse_from_rfc3339` and `format`: the
/// timestamp displayed as month, day, year, hour and minute; an
/// unparsable input comes back unchanged.
#[verifier::external_body]
pub fn format_datetime(datetime_str: &str) -> (r: String)
    ensures
        r@ == rfc3339_display_of(datetime_str@),
{
    chrono::DateTime::parse_from_rfc3339(datetime_str)
        .map(|dt| dt.format("%B %d, %Y at %H:%M").to_string())
        .unwrap_or_else(|_| datetime_str.to_string())
}

/// What `chrono` reads an RFC 3339 timestamp as, in milliseconds since
/// the epoch; nothing where it does not parse.  A function of the text
/// alone.
pub uninterp spec fn unix_ms_of(s: Seq<char>) -> Option<int>;

/// Relies on `chrono::DateTime::parse_from_rfc3339` and
/// `timestamp_millis`: the timestamp in milliseconds since the epoch.
#[verifier::external_body]
pub fn parse_rfc3339_ms(s: &str) -> (r: Option<i64>)
    ensures
        (match r {
            Some(v) => unix_ms_of(s@) == Some(v as int),
            None => unix_ms_of(s@) is None,
        }),
{
    chrono::DateTime::parse_from_rfc3339(s).ok().map(|dt| dt.timestamp_millis())
}

/// A number in at least two digits: one leading zero where it has one.
pub open spec fn pad2(n: int) -> Seq<char> {
    if 0 <= n < 10 {
        seq!['0'] + dec_str(n)
    } else {
        dec_str(n)
    }
}

/// A transcript position as `HH:MM:SS`, or `MM:SS` below an hour.
pub open spec fn timestamp_spec(total_secs: int) -> Seq<char> {
    let hours = total_secs / 3600;
    let minutes = (total_secs % 3600) / 60;
    let secs = total_secs % 60;
    if hours > 0 {
        pad2(hours) + ":"@ + pad2(minutes) + ":"@ + pad2(secs)
    } else {
        pad2(minutes) + ":"@ + pad2(secs)
    }
}

/// A number in at least two digits.
fn pad2_str(n: u64) -> (r: String)
    ensures
        r@ =~= pad2(n as int),
{
    if n < 10 {
        let mut s = "0".to_owned();
        let d = crate::paths::u64_to_string(n);
        s.append(d.as_str());
        proof {
            reveal_strlit("0");
        }
        s
    } else {
        crate::paths::u64_to_string(n)
    }
}

/// Format a transcript position, given in whole seconds.
pub fn format_timestamp(total_secs: u64) -> (r: String)
    ensures
        r@ =~= timestamp_spec(total_secs as int),
{
    let hours = total_secs / 3600;
    let minutes = (total_secs % 3600) / 60;
    let secs = total_secs % 60;
    if hours > 0 {
        let mut s = pad2_str(hours);
        s.append(":");
        let m = pad2_str(minutes);
        s.append(m.as_str());
        s.append(":");
        let c = pad2_str(secs);
        s.append(c.as_str());
        s
    } else {
        let mut s = pad2_str(minutes);
        s.append(":");
        let c = pad2_str(secs);
        s.append(c.as_str());
        s
    }
}

/// The wall-clock span between two stored timestamps, in words: hours
/// and minutes, minutes alone below an hour, or `Unknown` where either
/// timestamp does not parse.
pub open spec fn duration_label_spec(start: Seq<char>, end: Seq<char>) -> Seq<char> {
    match (unix_ms_of(start), unix_ms_of(end)) {
        (Some(sms), Some(ems)) => {
            let diff = ems - sms;
            let hours = trunc_div(diff, 3600000);
            let total_minutes = trunc_div(diff, 60000);
            let minutes = total_minutes - 60 * trunc_div(total_minutes, 60);
            if hours > 0 {
                dec_str_signed(hours) + " hour"@ + (if hours == 1 {
                    Seq::<char>::empty()
                } else {
                    "s"@
                }) + " "@ + dec_str_signed(minutes) + " minute"@ + (if minutes == 1 {
                    Seq::<char>::empty()
                } else {
                    "s"@
                })
            } else {
                dec_str_signed(minutes) + " minute"@ + (if minutes == 1 {
                    Seq::<char>::empty()
                } else {
                    "s"@
                })
            }
        },
        _ => "Unknown"@,
    }
}

/// The duration between two stored timestamps, in words.
pub fn calculate_duration(start: &str, end: &str) -> (r: String)
    ensures
        r@ =~= duration_label_spec(start@, end@),
{
    let sms = parse_rfc3339_ms(start);
    let ems = parse_rfc3339_ms(end);
    match (sms, ems) {
        (Some(s), Some(e)) => {
            let diff: i128 = (e as i128) - (s as i128);
            let hours: i128 = trunc_div_i128(diff, 3600000);
            let total_minutes: i128 = trunc_div_i128(diff, 60000);
            let minutes: i128 = total_minutes - 60 * trunc_div_i128(total_minutes, 60);
            proof {
                assert(-60 < minutes < 60) by (nonlinear_arith)
                    requires
                        minutes == total_minutes - 60 * (if total_minutes >= 0 {
                            total_minutes / 60
                        } else {
                            -((-total_minutes) / 60)
                        }),
                ;
                assert(-0x8000000000000000i128 < hours < 0x8000000000000000i128)
                    by (nonlinear_arith)
                    requires
                        hours == (if diff >= 0 {
                            diff / 3600000
                        } else {
                            -((-diff) / 3600000)
                        }),
                        -0x200000000000000000i128 < diff < 0x200000000000000000i128,
                ;
            }
            if hours > 0 {
                let mut out = crate::paths::i64_to_string(hours as i64);
                out.append(" hour");
                if hours != 1 {
                    out.append("s");
                }
                out.append(" ");
                let m = crate::paths::i64_to_string(minutes as i64);
                out.append(m.as_str());
                out.append(" minute");
                if minutes != 1 {
                    out.append("s");
                }
                out
            } else {
                let mut out = crate::paths::i64_to_string(minutes as i64);
                out.append(" minute");
                if minutes != 1 {
                    out.append("s");
                }
                out
            }
        },
        _ => "Unknown".to_owned(),
    }
}

/// Rust's signed division on `i128` is `trunc_div`.
fn trunc_div_i128(a: i128, b: i128) -> (r: i128)
    requires
        b > 0,
        a > i128::MIN,
    ensures
        r == trunc_div(a as int, b as int),
{
    a / b
}

/// The heading of one summary kind in the export.
pub open spec fn summary_label(t: SummaryType) -> Seq<char> {
    match t {
        SummaryType::Overview => "Overview"@,
        SummaryType::ActionItems => "Action Items"@,
        SummaryType::KeyDecisions => "Key Decisions"@,
        SummaryType::Custom => "Custom Summary"@,
    }
}

/// The summary blocks of the export, in order.
pub open spec fn summaries_md(sums: Seq<Summary>) -> Seq<char>
    decreases sums.len(),
{
    if sums.len() == 0 {
        Seq::empty()
    } else {
        summaries_md(sums.drop_last()) + "### "@ + summary_label(sums.last().summary_type)
            + "\n\n"@ + sums.last().content@ + "\n\n"@
    }
}

/// The transcript lines of the export, in order: a bracketed position
/// and the trimmed text.  A position before the start of the note reads
/// as zero.
pub open spec fn transcripts_md(segs: Seq<crate::transcriber::TransSnap>) -> Seq<char>
    decreases segs.len(),
{
    if segs.len() == 0 {
        Seq::empty()
    } else {
        let secs = if segs.last().start_cs < 0 {
            0int
        } else {
            segs.last().start_cs / 100
        };
        transcripts_md(segs.drop_last()) + "**["@ + timestamp_spec(secs) + "]** "@ + trim_spec(
            segs.last().text,
        ) + "\n\n"@
    }
}

/// The file name a note's export saves under: the title kept to letters,
/// digits, spaces, dashes and underscores, spaces turned to underscores,
/// with the markdown extension.
pub open spec fn safe_filename_spec(title: Seq<char>) -> Seq<char> {
    safe_chars(title, title.len() as int) + ".md"@
}

/// The filtered, space-mangled title characters up to position `i`.
pub open spec fn safe_chars(title: Seq<char>, i: int) -> Seq<char>
    decreases i,
{
    if i <= 0 {
        Seq::empty()
    } else {
        let c = title[i - 1];
        safe_chars(title, i - 1) + (if c == ' ' {
            seq!['_']
        } else if is_alphanumeric_of(c) || c == '-' || c == '_' {
            seq![c]
        } else {
            Seq::<char>::empty()
        })
    }
}

/// The whole markdown document of a note's export.
pub open spec fn export_md_spec(
    title: Seq<char>,
    description: Option<Seq<char>>,
    participants: Option<Seq<char>>,
    started_at: Seq<char>,
    ended_at: Option<Seq<char>>,
    sums: Seq<Summary>,
    segs: Seq<crate::transcriber::TransSnap>,
) -> Seq<char> {
    "# "@ + title + "\n\n**Date:** "@ + rfc3339_display_of(started_at) + "\n"@ + (match ended_at {
        Some(e) => "**Duration:** "@ + duration_label_spec(started_at, e) + "\n"@,
        None => Seq::<char>::empty(),
    }) + (match description {
        Some(d) => "\n**Description:** "@ + d + "\n"@,
        None => Seq::<char>::empty(),
    }) + (match participants {
        Some(p) => "**Participants:** "@ + p + "\n"@,
        None => Seq::<char>::empty(),
    }) + "\n---\n\n"@ + (if sums.len() > 0 {
        "## AI Summaries\n\n"@ + summaries_md(sums) + "---\n\n"@
    } else {
        Seq::<char>::empty()
    }) + (if segs.len() > 0 {
        "## Transcript\n\n"@ + transcripts_md(segs)
    } else {
        Seq::<char>::empty()
    }) + "\n---\n\n*Generato da NetNote*\n"@
}

/// The header of the export: title, date, and the optional duration,
/// description and participants lines.
fn export_header(
    title: &str,
    description: Option<&str>,
    participants: Option<&str>,
    started_at: &str,
    ended_at: Option<&str>,
) -> (r: String)
    ensures
        r@ =~= "# "@ + title@ + "\n\n**Date:** "@ + rfc3339_display_of(started_at@) + "\n"@ + (
        match ended_at {
            Some(e) => "**Duration:** "@ + duration_label_spec(started_at@, e@) + "\n"@,
            None => Seq::<char>::empty(),
        }) + (match description {
            Some(d) => "\n**Description:** "@ + d@ + "\n"@,
            None => Seq::<char>::empty(),
        }) + (match participants {
            Some(p) => "**Participants:** "@ + p@ + "\n"@,
            None => Seq::<char>::empty(),
        }) + "\n---\n\n"@,
{
    let mut md = "# ".to_owned();
    md.append(title);
    md.append("\n\n**Date:** ");
    let date = format_datetime(started_at);
    md.append(date.as_str());
    md.append("\n");
    match ended_at {
        Some(e) => {
            md.append("**Duration:** ");
            let dur = calculate_duration(started_at, e);
            md.append(dur.as_str());
            md.append("\n");
        },
        None => (),
    }
    match description {
        Some(d) => {
            md.append("\n**Description:** ");
            md.append(d);
            md.append("\n");
        },
        None => (),
    }
    match participants {
        Some(p) => {
            md.append("**Participants:** ");
            md.append(p);
            md.append("\n");
        },
        None => (),
    }
    md.append("\n---\n\n");
    md
}

/// The summaries section of the export, empty where there are none.
fn summaries_section(summaries: &Vec<Summary>) -> (r: String)
    ensures
        r@ =~= (if summaries@.len() > 0 {
            "## AI Summaries\n\n"@ + summaries_md(summaries@) + "---\n\n"@
        } else {
            Seq::<char>::empty()
        }),
{
    if summaries.len() == 0 {
        return String::new();
    }
    let mut md = "## AI Summaries\n\n".to_owned();
    let ghost before = md@;
    let mut i: usize = 0;
    let n = summaries.len();
    while i < n
        invariant
            n == summaries@.len(),
            i <= n,
            md@ =~= before + summaries_md(summaries@.take(i as int)),
        decreases n - i,
    {
        proof {
            assert(summaries@.take(i + 1).drop_last() =~= summaries@.take(i as int));
            assert(summaries@.take(i + 1).last() == summaries@[i as int]);
        }
        md.append("### ");
        let label: &str = match summaries[i].summary_type {
            SummaryType::Overview => "Overview",
            SummaryType::ActionItems => "Action Items",
            SummaryType::KeyDecisions => "Key Decisions",
            SummaryType::Custom => "Custom Summary",
        };
        md.append(label);
        md.append("\n\n");
        md.append(summaries[i].content.as_str());
        md.append("\n\n");
        i = i + 1;
    }
    proof {
        assert(summaries@.take(n as int) =~= summaries@);
    }
    md.append("---\n\n");
    md
}

/// The transcript section of the export, empty where there is none.
fn transcript_section(transcripts: &Vec<TranscriptionSegment>) -> (r: String)
    ensures
        r@ =~= (if transcripts@.len() > 0 {
            "## Transcript\n\n"@ + transcripts_md(crate::transcriber::seg_views(transcripts@))
        } else {
            Seq::<char>::empty()
        }),
{
    if transcripts.len() == 0 {
        return String::new();
    }
    let mut md = "## Transcript\n\n".to_owned();
    let ghost before = md@;
    let ghost segs = crate::transcriber::seg_views(transcripts@);
    let mut k: usize = 0;
    let m = transcripts.len();
    while k < m
        invariant
            m == transcripts@.len(),
            segs =~= crate::transcriber::seg_views(transcripts@),
            k <= m,
            md@ =~= before + transcripts_md(segs.take(k as int)),
        decreases m - k,
    {
        proof {
            assert(segs.take(k + 1).drop_last() =~= segs.take(k as int));
            assert(segs.take(k + 1).last() == transcripts@[k as int]@);
        }
        md.append("**[");
        let secs: u64 = if transcripts[k].start_cs < 0 {
            0
        } else {
            (transcripts[k].start_cs / 100) as u64
        };
        let ts = format_timestamp(secs);
        md.append(ts.as_str());
        md.append("]** ");
        let text = crate::transcriber::trim_str(transcripts[k].text.as_str());
        md.append(text.as_str());
        md.append("\n\n");
        k = k + 1;
    }
    proof {
        assert(segs.take(m as int) =~= segs);
    }
    md
}

/// The export's file name, from its title.
fn safe_filename(title: &str) -> (r: String)
    ensures
        r@ =~= safe_filename_spec(title@),
{
    let tn = title.unicode_len();
    let mut name = String::new();
    let mut p: usize = 0;
    while p < tn
        invariant
            tn == title@.len(),
            p <= tn,
            name@ =~= safe_chars(title@, p as int),
        decreases tn - p,
    {
        let c = title.get_char(p);
        if c == ' ' {
            crate::ai::push_char(&mut name, '_');
        } else if crate::ai::char_is_alphanumeric(c) || c == '-' || c == '_' {
            crate::ai::push_char(&mut name, c);
        }
        p = p + 1;
    }
    name.append(".md");
    name
}

/// Build a note's markdown export and its file name.
pub fn export_note_markdown(
    title: &str,
    description: Option<&str>,
    participants: Option<&str>,
    started_at: &str,
    ended_at: Option<&str>,
    summaries: &Vec<Summary>,
    transcripts: &Vec<TranscriptionSegment>,
) -> (r: ExportData)
    ensures
        r.markdown@ =~= export_md_spec(
            title@,
            (match description {
                Some(d) => Some(d@),
                None => None,
            }),
            (match participants {
                Some(p) => Some(p@),
                None => None,
            }),
            started_at@,
            (match ended_at {
                Some(e) => Some(e@),
                None => None,
            }),
            summaries@,
            crate::transcriber::seg_views(transcripts@),
        ),
        r.filename@ =~= safe_filename_spec(title@),
{
    let mut md = export_header(title, description, participants, started_at, ended_at);
    let sums = summaries_section(summaries);
    md.append(sums.as_str());
    let trans = transcript_section(transcripts);
    md.append(trans.as_str());
    md.append("\n---\n\n*Generato da NetNote*\n");
    let filename = safe_filename(title);
    ExportData { markdown: md, filename }
}

} // verus!
