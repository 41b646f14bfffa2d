//! Assistant-side text processing: tag stripping, title handling,
//! chunking, prompts, records and the export.

use netnote::ai::{clean_title_response, is_valid_title, split_into_chunks, strip_thinking_tags};
use netnote::export::{calculate_duration, export_note_markdown, format_timestamp};
use netnote::meeting::{detect_meeting_in_title, meeting_key, MeetingDetectionState};
use netnote::prompts::{PromptTemplate, SummaryPrompts, MAX_CONTENT_LENGTH};
use netnote::records::{join_transcript, OllamaError, Summary, SummaryType};
use netnote::transcriber::TranscriptionSegment;

#[test]
fn thinking_tags_are_stripped() {
    assert_eq!(strip_thinking_tags("<think>reasoning</think>answer"), "answer");
    assert_eq!(strip_thinking_tags("<THINK>loud</THINK> answer"), "answer");
    assert_eq!(strip_thinking_tags("<thinking>a</thinking>b<thinking>c</thinking>d"), "bd");
    // a closing tag without an opening one cuts everything before it
    assert_eq!(strip_thinking_tags("preamble</think>answer"), "answer");
    // an opening tag without a closing one cuts everything after it
    assert_eq!(strip_thinking_tags("answer<think>unfinished"), "answer");
    assert_eq!(strip_thinking_tags("plain"), "plain");
}

#[test]
fn titles_are_cleaned_of_labels_and_quoting() {
    assert_eq!(clean_title_response("Title: \"Budget Review Q3\""), "Budget Review Q3");
    assert_eq!(clean_title_response("  #Launch Plan#  "), "Launch Plan");
    assert_eq!(clean_title_response("<think>hmm</think>Title: Final Roadmap"), "Final Roadmap");
    // only the first visible line counts
    assert_eq!(clean_title_response("\n\nRelease Notes\nexplanation follows"), "Release Notes");
}

#[test]
fn refusals_and_questions_fall_back() {
    assert_eq!(clean_title_response("Could you give me more details?"), "Meeting Notes");
    assert_eq!(clean_title_response("unknown"), "Meeting Notes");
    assert_eq!(clean_title_response("What should I call it?"), "Meeting Notes");
    assert_eq!(clean_title_response(""), "Meeting Notes");
}

#[test]
fn overlong_titles_are_cut_to_a_hundred_characters() {
    let long = "word ".repeat(40);
    let cleaned = clean_title_response(&long);
    assert_eq!(cleaned.chars().count(), 99);
    assert!(!cleaned.ends_with(' '));
}

#[test]
fn title_validity_rejects_degenerate_text() {
    assert!(is_valid_title("Budget Review Q3"));
    assert!(!is_valid_title("ab"));
    assert!(!is_valid_title("aaaaaa"));
    assert!(!is_valid_title("ababab"));
    assert!(!is_valid_title("bcdfghjkl plan"));
    assert!(!is_valid_title("!!!!!!!a b"));
    assert!(!is_valid_title("Meeting"));
    assert!(!is_valid_title("weekly team meeting"));
    assert!(!is_valid_title("Here is a possible title for you"));
    assert!(is_valid_title("rhythm section rehearsal"));
}

#[test]
fn short_texts_stay_one_chunk() {
    let chunks = split_into_chunks("One sentence. Another one.", 100);
    assert_eq!(chunks, vec![String::from("One sentence. Another one.")]);
}

#[test]
fn long_texts_split_on_sentence_boundaries() {
    let text = "Alpha alpha alpha. Beta beta beta. Gamma gamma gamma.";
    let chunks = split_into_chunks(text, 25);
    assert_eq!(chunks.len(), 3);
    assert_eq!(chunks[0], "Alpha alpha alpha.");
    assert_eq!(chunks[1], "Beta beta beta.");
    assert_eq!(chunks[2], "Gamma gamma gamma.");
}

#[test]
fn oversized_sentences_split_on_words() {
    let text = "one two three four five six seven eight nine ten eleven twelve";
    let chunks = split_into_chunks(text, 20);
    assert!(chunks.len() > 1);
    for c in &chunks {
        assert!(c.len() <= 20);
        assert!(!c.is_empty());
    }
    assert_eq!(chunks.join(" "), text);
}

#[test]
fn prompts_embed_their_inputs() {
    let p = SummaryPrompts::overview("we talked about budgets", Some("remember the deadline"));
    assert!(p.contains("we talked about budgets"));
    assert!(p.contains("USER NOTES:\nremember the deadline"));
    assert!(p.ends_with("Summary:"));
    let q = SummaryPrompts::overview("short text", None);
    assert!(!q.contains("USER NOTES"));
    let t = SummaryPrompts::title("some transcript");
    assert!(t.contains("some transcript"));
    assert!(t.ends_with("Title:"));
    let a = SummaryPrompts::action_items("the transcript", Some("notes"));
    assert!(a.contains(" and user notes"));
    assert!(a.contains("TRANSCRIPT:\nthe transcript"));
    let n = SummaryPrompts::action_items_notes_only("only notes");
    assert!(n.contains("only notes"));
    assert_eq!(MAX_CONTENT_LENGTH, 10000);
}

#[test]
fn chunk_and_merge_prompts_are_enumerated() {
    let c = SummaryPrompts::chunk_overview("chunk text", 2, 5);
    assert!(c.contains("part 2 of 5"));
    assert!(c.contains("chunk text"));
    let sums = vec![String::from("first summary"), String::from("second summary")];
    let m = SummaryPrompts::merge_overview(&sums, None);
    assert!(m.contains("--- Part 1 ---\nfirst summary"));
    assert!(m.contains("--- Part 2 ---\nsecond summary"));
    let mc = SummaryPrompts::merge_custom(&sums, "list the risks", None);
    assert!(mc.contains("list the risks"));
}

#[test]
fn template_render_replaces_every_placeholder() {
    let t = PromptTemplate {
        name: String::from("echo"),
        description: String::from("repeat it"),
        template: String::from("A {transcript} B {transcript}"),
    };
    assert_eq!(t.render("X"), "A X B X");
}

#[test]
fn transcript_joining_drops_blank_audio_rows() {
    let texts = vec![
        String::from("hello"),
        String::from("[BLANK_AUDIO]"),
        String::from("world"),
    ];
    assert_eq!(join_transcript(&texts), "hello world");
}

#[test]
fn summary_type_names_round_trip() {
    assert_eq!(SummaryType::ActionItems.as_str(), "action_items");
    assert_eq!(SummaryType::from_str("overview"), SummaryType::Overview);
    assert_eq!(SummaryType::from_str("key_decisions"), SummaryType::KeyDecisions);
    assert_eq!(SummaryType::from_str("whatever"), SummaryType::Custom);
    assert_eq!(OllamaError::NotRunning.label(), "not running");
}

#[test]
fn timestamps_format_with_padding() {
    assert_eq!(format_timestamp(0), "00:00");
    assert_eq!(format_timestamp(65), "01:05");
    assert_eq!(format_timestamp(3600), "01:00:00");
    assert_eq!(format_timestamp(3725), "01:02:05");
}

#[test]
fn durations_read_from_stored_timestamps() {
    let d = calculate_duration("2024-01-02T10:00:00+00:00", "2024-01-02T11:32:00+00:00");
    assert_eq!(d, "1 hour 32 minutes");
    let m = calculate_duration("2024-01-02T10:00:00+00:00", "2024-01-02T10:01:00+00:00");
    assert_eq!(m, "1 minute");
    let u = calculate_duration("not a date", "2024-01-02T10:01:00+00:00");
    assert_eq!(u, "Unknown");
}

#[test]
fn export_holds_header_summaries_and_transcript() {
    let summaries = vec![Summary {
        id: 1,
        note_id: String::from("n"),
        summary_type: SummaryType::Overview,
        content: String::from("all went well"),
        created_at: String::from("2024-01-02T12:00:00+00:00"),
    }];
    let transcripts = vec![TranscriptionSegment {
        start_cs: 6500,
        end_cs: 6700,
        text: String::from(" hello there "),
    }];
    let data = export_note_markdown(
        "Planning Session",
        Some("short sync"),
        Some("Ada, Grace"),
        "2024-01-02T10:00:00+00:00",
        Some("2024-01-02T10:30:00+00:00"),
        &summaries,
        &transcripts,
    );
    assert!(data.markdown.starts_with("# Planning Session\n"));
    assert!(data.markdown.contains("**Date:** January 02, 2024 at 10:00\n"));
    assert!(data.markdown.contains("**Duration:** 30 minutes\n"));
    assert!(data.markdown.contains("**Description:** short sync"));
    assert!(data.markdown.contains("**Participants:** Ada, Grace"));
    assert!(data.markdown.contains("### Overview\n\nall went well"));
    assert!(data.markdown.contains("**[01:05]** hello there"));
    assert!(data.markdown.ends_with("*Generato da NetNote*\n"));
    assert_eq!(data.filename, "Planning_Session.md");
}

#[test]
fn meeting_titles_are_classified() {
    assert_eq!(detect_meeting_in_title("Meet - abc-defg-hij"), Some("Google Meet"));
    assert_eq!(detect_meeting_in_title("Weekly sync - Zoom Meeting"), Some("Zoom"));
    assert_eq!(detect_meeting_in_title("Huddle: #general"), Some("Slack Huddle"));
    assert_eq!(detect_meeting_in_title("Join a meeting | Zoom Meeting"), None);
    assert_eq!(detect_meeting_in_title("Editing notes"), None);
    assert_eq!(detect_meeting_in_title("\u{1f50a} Call | Microsoft Teams"), Some("Microsoft Teams"));
}

#[test]
fn meeting_keys_drop_the_audio_markers() {
    assert_eq!(meeting_key("Huddle: #x \u{2013} W \u{2013} Slack \u{1f50a}"), "Huddle: #x \u{2013} W \u{2013} Slack");
    let mut state = MeetingDetectionState::new();
    let key = meeting_key("Huddle: #x \u{1f50a}");
    assert!(state.mark_detected(&key));
    assert!(!state.mark_detected(&key));
    state.clear_all_detected();
    assert!(state.mark_detected(&key));
    state.retain_active(&Vec::new());
    assert!(state.mark_detected(&key));
}
