//! The live scheduler: skip tokens, the voice gate, echo suppression and
//! whole ticks.

use netnote::live::{
    final_event, is_echo_of_system, process_tick, rows_for_result, stop_live_transcription,
    AudioSource, LiveTranscriptionState,
};
use netnote::text::should_skip_segment;
use netnote::transcriber::{assemble_result, inference_threads, TranscribeGate, TranscriptionSegment};
use netnote::recorder::mean_square_ppm_exec;
use netnote::transcripts::TranscriptStore;
use netnote::vad::{has_voice_activity, prepare_mic_chunk};

fn seg(start_cs: i64, end_cs: i64, text: &str) -> TranscriptionSegment {
    TranscriptionSegment { start_cs, end_cs, text: String::from(text) }
}

#[test]
fn skip_tokens_are_refused_case_insensitively() {
    assert!(should_skip_segment("[BLANK_AUDIO]"));
    assert!(should_skip_segment("well [blank_audio] then"));
    assert!(should_skip_segment("[Inaudible]"));
    assert!(should_skip_segment("[ INAUDIBLE ]"));
    assert!(should_skip_segment("[silence]"));
    assert!(should_skip_segment("[MUSIC]"));
    assert!(should_skip_segment("[Applause]"));
    assert!(should_skip_segment("[laughter]"));
    assert!(should_skip_segment("   \t\n"));
    assert!(should_skip_segment(""));
    // non-breaking and typographic spaces are whitespace too
    assert!(should_skip_segment("\u{a0}\u{2003}\u{3000}"));
    assert!(!should_skip_segment("hello world"));
    assert!(!should_skip_segment("music and applause"));
}

#[test]
fn voice_gate_is_strict_at_the_threshold() {
    // 1024 samples of value 1024 among 10000: sum of squares is 2^30,
    // so 10000 * sum == len * 32768^2 exactly — right at the threshold,
    // which is not enough.
    let mut at_threshold: Vec<i16> = vec![1024i16; 1024];
    at_threshold.extend(std::iter::repeat(0i16).take(10000 - 1024));
    assert!(!has_voice_activity(&at_threshold));
    // one sample louder crosses it
    let mut above = at_threshold.clone();
    above[1024] = 2;
    assert!(has_voice_activity(&above));
    // and an empty chunk never passes
    assert!(!has_voice_activity(&Vec::new()));
}

#[test]
fn prepare_mic_chunk_gates_silence_and_resamples() {
    // silence is rejected
    assert!(prepare_mic_chunk(&vec![0i16; 3200], 16000, 1).is_none());
    // a loud mono 16 kHz chunk passes unchanged
    let loud = vec![8000i16; 1600];
    assert_eq!(prepare_mic_chunk(&loud, 16000, 1).unwrap(), loud);
    // a stereo 32 kHz chunk is downmixed and halved in length
    let stereo: Vec<i16> = vec![8000i16; 6400];
    let out = prepare_mic_chunk(&stereo, 32000, 2).unwrap();
    assert_eq!(out.len(), 1600);
    assert_eq!(out[0], 8000);
    // an unknown device format yields nothing
    assert!(prepare_mic_chunk(&loud, 0, 1).is_none());
}

#[test]
fn echo_needs_three_matches_or_two_for_short_segments() {
    let history = vec![seg(0, 500, "the quick brown fox jumps")];
    // 2 matching words in a 4-word segment: no echo
    assert!(!is_echo_of_system("the quick red dog", 0, 400, &history));
    // 3 matching words: echo
    assert!(is_echo_of_system("the quick brown dog", 0, 400, &history));
    // 2 matching words in a 3-word segment: echo
    assert!(is_echo_of_system("the quick dog", 0, 400, &history));
    // matches count regardless of order
    assert!(is_echo_of_system("brown quick the dog", 0, 400, &history));
}

#[test]
fn echo_requires_a_second_of_overlap() {
    let history = vec![seg(0, 500, "the quick brown fox")];
    // full word match but the intervals overlap by less than a second
    assert!(!is_echo_of_system("the quick brown fox", 450, 900, &history));
    // the same words with enough overlap are an echo
    assert!(is_echo_of_system("the quick brown fox", 300, 900, &history));
    // an empty history convicts nothing
    assert!(!is_echo_of_system("the quick brown fox", 0, 400, &Vec::new()));
}

#[test]
fn tick_suppresses_mic_echo_of_system_audio() {
    let mut live = LiveTranscriptionState::new();
    live.begin().unwrap();
    let note = String::from("n1");
    let sys = vec![seg(0, 300, "the quick brown fox")];
    let mic = vec![seg(10, 310, "the quick brown fox"), seg(320, 400, "something different")];
    let outcome = process_tick(&mut live, &note, Some(&mic), Some(&sys));
    // the echo is gone; the real mic line and the system line are kept
    assert_eq!(outcome.db_rows.len(), 2);
    assert_eq!(outcome.db_rows[0].text, "something different");
    assert_eq!(outcome.db_rows[0].speaker.as_deref(), Some("self"));
    assert_eq!(outcome.db_rows[1].text, "the quick brown fox");
    assert_eq!(outcome.db_rows[1].speaker.as_deref(), Some("others"));
    assert_eq!(outcome.events.len(), 2);
    assert_eq!(outcome.events[0].audio_source, AudioSource::Mic);
    assert_eq!(outcome.events[1].audio_source, AudioSource::System);
    assert!(!outcome.events[0].is_final);
    // offsets advanced to the last raw end of each source
    assert_eq!(live.mic_time_offset_cs, 400);
    assert_eq!(live.system_time_offset_cs, 300);
}

#[test]
fn tick_advances_offset_even_when_all_segments_are_filtered() {
    let mut live = LiveTranscriptionState::new();
    live.begin().unwrap();
    let note = String::from("n1");
    let mic = vec![seg(0, 250, "[BLANK_AUDIO]")];
    let outcome = process_tick(&mut live, &note, Some(&mic), None);
    assert_eq!(outcome.db_rows.len(), 0);
    assert_eq!(outcome.events.len(), 0);
    // stream time stays aligned with wall time
    assert_eq!(live.mic_time_offset_cs, 250);
    assert_eq!(live.system_time_offset_cs, 0);
}

#[test]
fn tick_evicts_history_older_than_thirty_seconds() {
    let mut live = LiveTranscriptionState::new();
    live.begin().unwrap();
    let note = String::from("n1");
    // first tick: a system segment ending at 2 s
    let sys1 = vec![seg(0, 200, "old words here now")];
    process_tick(&mut live, &note, None, Some(&sys1));
    // second tick: a system segment far in the future; the cutoff is
    // the pre-tick offset minus 30 s, so the old entry is evicted
    let sys2 = vec![seg(4000, 4200, "newer words arrive now")];
    process_tick(&mut live, &note, None, Some(&sys2));
    let sys3 = vec![seg(4300, 4500, "third batch of words")];
    process_tick(&mut live, &note, None, Some(&sys3));
    assert!(live.recent_system_segments.iter().all(|s| s.text != "old words here now"));
    assert!(live.recent_system_segments.iter().any(|s| s.text == "newer words arrive now"));
}

#[test]
fn tick_keeps_committed_rows_well_formed() {
    let mut live = LiveTranscriptionState::new();
    live.begin().unwrap();
    let note = String::from("n1");
    let mic = vec![seg(0, 100, "  hello  "), seg(110, 130, "[MUSIC]"), seg(140, 200, "world")];
    let outcome = process_tick(&mut live, &note, Some(&mic), None);
    assert_eq!(outcome.db_rows.len(), 2);
    for row in &outcome.db_rows {
        assert!(row.start_cs >= 0);
        assert!(row.start_cs <= row.end_cs);
        assert!(!row.text.trim().is_empty());
        assert!(!should_skip_segment(&row.text));
    }
}

#[test]
fn stop_joins_the_session_transcript() {
    let mut live = LiveTranscriptionState::new();
    live.begin().unwrap();
    let note = String::from("n1");
    let mic1 = vec![seg(0, 100, "first part")];
    process_tick(&mut live, &note, Some(&mic1), None);
    let mic2 = vec![seg(120, 200, "second part")];
    process_tick(&mut live, &note, Some(&mic2), None);
    let result = stop_live_transcription(&mut live);
    assert!(!live.is_live_transcribing());
    assert_eq!(result.segments.len(), 2);
    assert_eq!(result.full_text, "first part second part");
    assert_eq!(result.language.as_deref(), Some("en"));
}

#[test]
fn begin_twice_is_rejected() {
    let mut live = LiveTranscriptionState::new();
    live.begin().unwrap();
    assert!(live.begin().is_err());
}

#[test]
fn assemble_trims_drops_empty_and_shifts_times() {
    let raw = vec![seg(0, 100, "  hello  "), seg(120, 150, "   "), seg(160, 200, "world")];
    let result = assemble_result(&raw, 500, Some(String::from("en")));
    assert_eq!(result.segments.len(), 2);
    assert_eq!(result.segments[0].text, "hello");
    assert_eq!(result.segments[0].start_cs, 500);
    assert_eq!(result.segments[0].end_cs, 600);
    assert_eq!(result.segments[1].start_cs, 660);
    assert_eq!(result.full_text, "hello world");
    assert_eq!(result.language.as_deref(), Some("en"));
}

#[test]
fn mean_square_level_reads_zero_for_silence() {
    assert_eq!(mean_square_ppm_exec(&vec![0i16; 100]), 0);
    // a full-scale signal reads one million parts per million
    assert_eq!(mean_square_ppm_exec(&vec![-32768i16; 4]), 1000000);
}

#[test]
fn offline_rows_filter_skip_tokens() {
    let segments = vec![
        seg(0, 100, "kept words"),
        seg(110, 130, "[SILENCE]"),
    ];
    let rows = rows_for_result(&segments, &String::from("n9"), "others");
    assert_eq!(rows.len(), 1);
    assert_eq!(rows[0].note_id, "n9");
    assert_eq!(rows[0].text, "kept words");
    assert_eq!(rows[0].speaker.as_deref(), Some("others"));
}

#[test]
fn the_terminal_event_is_final_and_empty() {
    let ev = final_event(&String::from("n1"));
    assert!(ev.is_final);
    assert!(ev.segments.is_empty());
    assert_eq!(ev.note_id, "n1");
    assert_eq!(ev.audio_source, AudioSource::Mic);
}

#[test]
fn transcriber_rejects_reentry() {
    let mut gate = TranscribeGate::new();
    assert!(!gate.is_transcribing());
    gate.begin().unwrap();
    assert!(gate.begin().is_err());
    gate.finish();
    assert!(gate.begin().is_ok());
    assert_eq!(inference_threads(4), 4);
    assert_eq!(inference_threads(32), 8);
}

#[test]
fn history_keeps_an_entry_ending_exactly_at_the_cutoff() {
    let mut live = LiveTranscriptionState::new();
    live.begin().unwrap();
    let note = String::from("n1");
    // an entry ending at 500 enters the history
    process_tick(&mut live, &note, None, Some(&vec![seg(0, 500, "boundary words here")]));
    // this tick's cutoff is the stored offset 3500 minus the 30 s
    // window: exactly 500 — eviction takes only what ended before it
    process_tick(&mut live, &note, None, Some(&vec![seg(3000, 3500, "middle words here")]));
    process_tick(&mut live, &note, None, Some(&vec![seg(3600, 3700, "late words here")]));
    assert!(live.recent_system_segments.iter().any(|s| s.text == "boundary words here"));
}

#[test]
fn batch_commit_appends_all_rows_with_fresh_ids() {
    let mut live = LiveTranscriptionState::new();
    live.begin().unwrap();
    let note = String::from("n1");
    let mic = vec![seg(0, 100, "first line"), seg(120, 200, "second line")];
    let outcome = process_tick(&mut live, &note, Some(&mic), None);
    let mut store = TranscriptStore::new();
    let count = store.add_transcript_segments_batch(&outcome.db_rows);
    assert_eq!(count, 2);
    let rows = store.get_transcript_segments(&note);
    assert_eq!(rows.len(), 2);
    assert_eq!(rows[0].id, 1);
    assert_eq!(rows[1].id, 2);
    assert_eq!(rows[0].text, "first line");
    assert_eq!(rows[0].speaker.as_deref(), Some("self"));
}

#[test]
fn transcript_reads_come_back_ordered_by_start_time() {
    let mut store = TranscriptStore::new();
    let row = |note: &str, start: i64, text: &str| netnote::live::TranscriptRow {
        note_id: String::from(note),
        start_cs: start,
        end_cs: start + 50,
        text: String::from(text),
        speaker: Some(String::from("others")),
    };
    store.add_transcript_segment(&row("n", 300, "third"));
    store.add_transcript_segment(&row("n", 100, "first"));
    store.add_transcript_segment(&row("other", 0, "elsewhere"));
    store.add_transcript_segment(&row("n", 200, "second"));
    let rows = store.get_transcript_segments(&String::from("n"));
    let texts: Vec<&str> = rows.iter().map(|r| r.text.as_str()).collect();
    assert_eq!(texts, vec!["first", "second", "third"]);
    store.delete_transcript_segments(&String::from("n"));
    assert_eq!(store.get_transcript_segments(&String::from("n")).len(), 0);
    assert_eq!(store.get_transcript_segments(&String::from("other")).len(), 1);
}
