//! Text utilities, path building and the model catalogue.

use netnote::aec::{apply_aec, AecState};
use netnote::buffer::SystemAudioBuffer;
use netnote::errors::{AudioError, TranscriptionError};
use netnote::model::{
    download_progress_percent, eq_str, parse_model_size, DownloadPlan, DownloadState,
    ModelManager, ModelSize,
};
use netnote::paths::{join_path, note_wav_path, seg_file_path, u32_to_string};
use netnote::platform::{is_macos_13_or_later, is_system_audio_available, parse_os_version, parse_u32_field, split_on_char};
use netnote::text::{contains_str, is_blank_str, split_words, take_first_n};
use netnote::transcriber::trim_str;

#[test]
fn decimal_rendering_is_exact() {
    assert_eq!(u32_to_string(0), "0");
    assert_eq!(u32_to_string(7), "7");
    assert_eq!(u32_to_string(42), "42");
    assert_eq!(u32_to_string(4294967295), "4294967295");
}

#[test]
fn segment_paths_follow_the_layout() {
    let dir = String::from("/data/recordings");
    let note = String::from("abc");
    assert_eq!(seg_file_path(&dir, &note, "_mic_seg", 3), "/data/recordings/abc_mic_seg3.wav");
    assert_eq!(
        seg_file_path(&dir, &note, "_system_seg", 12),
        "/data/recordings/abc_system_seg12.wav"
    );
    assert_eq!(note_wav_path(&dir, &note), "/data/recordings/abc.wav");
    assert_eq!(join_path(&dir, "x.db"), "/data/recordings/x.db");
}

#[test]
fn trim_and_blank_checks() {
    assert_eq!(trim_str("  hello \t"), "hello");
    assert_eq!(trim_str("\r\n"), "");
    assert_eq!(trim_str("x"), "x");
    assert!(is_blank_str(" \t "));
    assert!(!is_blank_str(" a "));
}

#[test]
fn substring_search_by_characters() {
    assert!(contains_str("hello world", "lo wo"));
    assert!(contains_str("abc", ""));
    assert!(!contains_str("abc", "abcd"));
    assert!(!contains_str("abc", "ac"));
}

#[test]
fn word_splitting_and_prefixes() {
    let ws = split_words("  the quick\tbrown\n fox ");
    let texts: Vec<&str> = ws.iter().map(|w| w.as_str()).collect();
    assert_eq!(texts, vec!["the", "quick", "brown", "fox"]);
    let first2 = take_first_n(&ws, 2);
    assert_eq!(first2.len(), 2);
    assert_eq!(first2[0], "the");
    assert!(split_words("   ").is_empty());
}

#[test]
fn string_equality_by_characters() {
    assert!(eq_str("abc", "abc"));
    assert!(!eq_str("abc", "abd"));
    assert!(!eq_str("abc", "ab"));
}

#[test]
fn model_sizes_have_their_catalogue_entries() {
    assert_eq!(ModelSize::Tiny.as_str(), "tiny");
    assert_eq!(ModelSize::Large.filename(), "ggml-large-v3.bin");
    assert_eq!(ModelSize::Small.size_mb(), 466);
    assert!(ModelSize::Base.download_url().ends_with("ggml-base.bin"));
    assert_eq!(ModelSize::all().len(), 5);
}

#[test]
fn model_size_parsing_is_case_insensitive() {
    assert_eq!(parse_model_size("tiny").unwrap(), ModelSize::Tiny);
    assert_eq!(parse_model_size("MEDIUM").unwrap(), ModelSize::Medium);
    assert_eq!(parse_model_size("Large").unwrap(), ModelSize::Large);
    let err = parse_model_size("huge").unwrap_err();
    assert_eq!(err, "Invalid model size: huge");
}

#[test]
fn manager_paths_and_listing() {
    let manager = ModelManager::new(&String::from("/appdata"));
    assert_eq!(manager.models_dir(), "/appdata/models");
    assert_eq!(manager.model_path(ModelSize::Tiny), "/appdata/models/ggml-tiny.bin");
    let files = vec![String::from("ggml-tiny.bin"), String::from("junk.txt")];
    assert!(manager.is_downloaded(ModelSize::Tiny, &files));
    assert!(!manager.is_downloaded(ModelSize::Small, &files));
    let list = manager.list_models(&files);
    assert_eq!(list.len(), 5);
    assert!(list[0].downloaded);
    assert_eq!(list[0].path.as_deref(), Some("/appdata/models/ggml-tiny.bin"));
    assert_eq!(list[0].name, "tiny");
    assert!(!list[2].downloaded);
    assert!(list[2].path.is_none());
    assert_eq!(list[4].size_mb, 3100);
}

#[test]
fn repeated_download_is_a_no_op_returning_the_existing_path() {
    let manager = ModelManager::new(&String::from("/appdata"));
    let have = vec![String::from("ggml-small.bin")];
    match manager.plan_download(ModelSize::Small, &have) {
        DownloadPlan::AlreadyDownloaded(p) => {
            assert_eq!(p, "/appdata/models/ggml-small.bin");
        },
        _ => panic!("expected the existing path"),
    }
    // without the file, the plan fetches into a temporary sibling and
    // renames only on completion
    match manager.plan_download(ModelSize::Small, &Vec::new()) {
        DownloadPlan::Fetch { url, temp_path, final_path } => {
            assert!(url.ends_with("ggml-small.bin"));
            assert_eq!(temp_path, "/appdata/models/ggml-small.bin.tmp");
            assert_eq!(final_path, "/appdata/models/ggml-small.bin");
        },
        _ => panic!("expected a fetch plan"),
    }
}

#[test]
fn progress_percent_is_bounded() {
    assert_eq!(download_progress_percent(0, 0), 0);
    assert_eq!(download_progress_percent(50, 200), 25);
    assert_eq!(download_progress_percent(200, 200), 100);
    assert_eq!(download_progress_percent(900, 200), 100);
}

#[test]
fn system_buffer_drains_atomically() {
    let mut buf = SystemAudioBuffer::new();
    buf.push_samples(&vec![1i16, 2, 3]);
    buf.push_samples(&vec![4i16]);
    assert_eq!(buf.len(), 4);
    let taken = buf.take_system_audio_samples();
    assert_eq!(taken, vec![1, 2, 3, 4]);
    assert_eq!(buf.len(), 0);
    buf.push_samples(&vec![9i16]);
    buf.clear_system_audio_buffer();
    assert_eq!(buf.len(), 0);
}

#[test]
fn aec_is_a_switch_and_a_pass_through() {
    let mut aec = AecState::new();
    assert!(!aec.is_aec_enabled());
    aec.set_aec_enabled(true);
    assert!(aec.is_aec_enabled());
    aec.init_aec(48000);
    aec.reset_aec();
    assert!(aec.is_aec_enabled());
    let mic = vec![3i16, -3, 7];
    assert_eq!(apply_aec(&mic, &vec![100i16; 3]), mic);
}

#[test]
fn error_labels_are_stable() {
    assert_eq!(AudioError::AlreadyRecording.label(), "already recording");
    assert_eq!(AudioError::PermissionDenied(String::from("no grant")).label(), "permission denied");
    assert_eq!(TranscriptionError::AlreadyTranscribing.label(), "already transcribing");
    assert_eq!(TranscriptionError::ModelNotFound(String::from("x")).label(), "model not found");
}

#[test]
fn version_strings_parse_into_triples() {
    assert_eq!(parse_os_version("14.2.1"), (14, 2, 1));
    assert_eq!(parse_os_version(" 13.0 \n"), (13, 0, 0));
    assert_eq!(parse_os_version("12"), (12, 0, 0));
    // non-numeric pieces are dropped, missing ones default
    assert_eq!(parse_os_version("14.x.2"), (14, 2, 0));
    assert_eq!(parse_os_version("garbage"), (10, 0, 0));
    assert!(is_macos_13_or_later("13.1"));
    assert!(!is_macos_13_or_later("12.7.6"));
}

#[test]
fn numeric_fields_parse_exactly() {
    assert_eq!(parse_u32_field("0"), Some(0));
    assert_eq!(parse_u32_field("4294967295"), Some(4294967295));
    assert_eq!(parse_u32_field("4294967296"), None);
    assert_eq!(parse_u32_field(""), None);
    assert_eq!(parse_u32_field("12a"), None);
    let pieces = split_on_char("a.b..c", '.');
    let texts: Vec<&str> = pieces.iter().map(|p| p.as_str()).collect();
    assert_eq!(texts, vec!["a", "b", "", "c"]);
}

#[test]
fn system_audio_availability_by_platform() {
    assert!(is_system_audio_available("macos", "13.0"));
    assert!(!is_system_audio_available("macos", "12.6"));
    assert!(is_system_audio_available("Windows", ""));
    assert!(!is_system_audio_available("linux", "6.1"));
}

#[test]
fn only_one_download_runs_at_a_time() {
    let mut dl = DownloadState::new();
    assert!(!dl.is_downloading());
    assert!(!dl.begin());
    assert!(dl.begin());
    dl.set_progress(50, 200);
    assert_eq!(dl.get_download_progress(), 25);
    dl.set_progress(10, 0);
    assert_eq!(dl.get_download_progress(), 25);
    dl.finish();
    assert!(!dl.is_downloading());
    assert!(!dl.begin());
    assert_eq!(dl.get_download_progress(), 0);
}
