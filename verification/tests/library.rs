use chronicle::activity_capture::{
    app_name_from_executable_path, foreground_window_event, normalize_excluded_applications, normalize_excluded_paths,
    running_on_windows, unique_trimmed_entries, CaptureSettings, ForegroundChange, ForegroundTracker, KeyboardMode,
};
use chronicle::application_commands::{
    clamp_event_limit, event_processing_statuses, health_check, model_provider_status, processing_queue_limits,
    CaptureStatus, ProcessingQueueStatus,
};
use chronicle::asynchronous_processing_queue::{
    after_claim, claimed_task, embedding_follow_up_task, event_context, processing_plan, retry_backoff_seconds,
    retry_delay_ms, settle_task, stale_cutoff_modifier, task_type_from_name, task_type_name, ClaimAction,
    ProcessingPlan, QueueStatus, QueueTask, SettleAction, TaskType, IMAGE_TASKS_UNSUPPORTED,
};
use chronicle::base64::{base64_encode, image_data_url};
use chronicle::data_directory::{check_relocation_target, pointer_target};
use chronicle::filesystem_activity_capture::{
    file_change_event, filesystem_changes, normalize_file_change, FileChange, FileChangeKind, FileSnapshot,
};
use chronicle::input_capture::{
    is_key_press, mouse_button, mouse_event_type_name, mouse_message_kind, next_gesture, records_mouse_event,
    MouseEventType, MouseGestureTracker, MouseMessageKind, recent_click,
};
use chronicle::local_ai_setup::{
    content_length, extracted_path, parse_u64, progress_due, select_windows_cpu_asset, GithubAsset, GithubRelease,
    LlamaSetupStatus,
};
use chronicle::local_model_provider::{
    batch_analysis_body, batch_max_tokens, batch_prompt, embeddings_body, first_choice_content, image_analysis_body,
    inference_threads_for, order_batch_results, order_embedding_results, parse_u16, text_analysis_body,
    LlamaCppProvider,
};
use chronicle::local_semantic_processing::validate_model_text;
use chronicle::png::{adler32, crc32, encode_png_rgba};
use chronicle::raw_event::{needs_ready_event, stamp_from, stamp_now, system_ready_event, EventStamp};
use chronicle::text::{i64_to_decimal, trim, truncate_chars, u128_to_decimal, u64_to_decimal};
use chronicle::transient_screenshot_capture::{TransientScreenshotAsset, TransientScreenshotStore};
use chronicle::windows_active_window_screenshot::{
    bgra_to_opaque_rgba, capture_dimensions_valid, initialize, png_from_bgra_capture,
};
use chronicle::windows_ui_automation_capture::FocusedElementSnapshot;
use std::time::Duration;

fn stamp() -> EventStamp {
    EventStamp { id: "id-1".into(), timestamp_ns: 42, created_at: "2026-01-01T00:00:00Z".into() }
}

fn snapshot_of(entries: &[(&str, u128)]) -> FileSnapshot {
    let mut s = FileSnapshot::new();
    for (path, modified) in entries {
        s.insert(path.to_string(), *modified);
    }
    s
}

fn change_list(changes: &[FileChange]) -> Vec<(FileChangeKind, String, u128)> {
    changes.iter().map(|c| (c.kind, c.path.clone(), c.modified)).collect()
}

fn strings(items: &[&str]) -> Vec<String> {
    items.iter().map(|s| s.to_string()).collect()
}

// --- checksums and encodings -------------------------------------------------

#[test]
fn crc32_matches_the_png_reference_value() {
    assert_eq!(crc32(b"IEND"), 0xAE42_6082);
    assert_eq!(crc32(b""), 0);
}

#[test]
fn adler32_matches_the_zlib_reference_value() {
    assert_eq!(adler32(b"Wikipedia"), 0x11E6_0398);
    assert_eq!(adler32(b""), 1);
}

#[test]
fn png_encoder_rejects_a_mismatched_buffer() {
    assert_eq!(encode_png_rgba(2, 1, &[0, 0, 0, 0]).unwrap_err(), "pixel buffer dimensions do not match");
}

#[test]
fn png_encoder_ends_with_the_end_chunk() {
    let png = encode_png_rgba(1, 1, &[1, 2, 3, 4]).unwrap();
    let n = png.len();
    assert_eq!(&png[n - 12..n - 4], &[0, 0, 0, 0, b'I', b'E', b'N', b'D']);
    assert_eq!(&png[n - 4..], &[0xAE, 0x42, 0x60, 0x82]);
}

#[test]
fn png_file_reads_back_as_written() {
    let rgba: Vec<u8> = (1u8..=16).collect();
    let png = encode_png_rgba(2, 2, &rgba).unwrap();
    assert_eq!(&png[..8], &[137, 80, 78, 71, 13, 10, 26, 10]);
    assert_eq!(&png[8..16], &[0, 0, 0, 13, b'I', b'H', b'D', b'R']);
    assert_eq!(&png[16..29], &[0, 0, 0, 2, 0, 0, 0, 2, 8, 6, 0, 0, 0]);
    let idat_len = u32::from_be_bytes([png[33], png[34], png[35], png[36]]) as usize;
    assert_eq!(&png[37..41], b"IDAT");
    let z = &png[41..41 + idat_len];
    assert_eq!(&z[..2], &[0x78, 0x01]);
    assert_eq!(z[2], 1);
    let stored = u16::from_le_bytes([z[3], z[4]]);
    let complement = u16::from_le_bytes([z[5], z[6]]);
    assert_eq!(stored, 18);
    assert_eq!(complement, !stored);
    let scan = &z[7..7 + stored as usize];
    let mut pixels = Vec::new();
    for row in scan.chunks(9) {
        assert_eq!(row[0], 0);
        pixels.extend_from_slice(&row[1..]);
    }
    assert_eq!(pixels, rgba);
    assert_eq!(&z[z.len() - 4..], &adler32(scan).to_be_bytes());
    assert_eq!(png.len(), 41 + idat_len + 4 + 12);
}

#[test]
fn base64_length_and_padding_follow_the_byte_count() {
    for n in 0..10usize {
        let bytes: Vec<u8> = (0..n as u8).map(|b| b.wrapping_mul(37).wrapping_add(250)).collect();
        let encoded = base64_encode(&bytes);
        assert_eq!(encoded.len(), 4 * ((n + 2) / 3));
        let padding = if n % 3 == 0 { 0 } else { 3 - n % 3 };
        assert!(encoded.ends_with(&"=".repeat(padding)));
        let body = &encoded[..encoded.len() - padding];
        assert!(body.chars().all(|c| c.is_ascii_alphanumeric() || c == '+' || c == '/'));
    }
}

fn decode_base64(text: &str) -> Vec<u8> {
    let value = |c: u8| -> u32 {
        match c {
            b'A'..=b'Z' => (c - b'A') as u32,
            b'a'..=b'z' => (c - b'a') as u32 + 26,
            b'0'..=b'9' => (c - b'0') as u32 + 52,
            b'+' => 62,
            _ => 63,
        }
    };
    let mut out = Vec::new();
    for group in text.as_bytes().chunks(4) {
        let pad = group.iter().filter(|&&c| c == b'=').count();
        let mut v = 0u32;
        for &c in group {
            v = (v << 6) | if c == b'=' { 0 } else { value(c) };
        }
        let bytes = [(v >> 16) as u8, (v >> 8) as u8, v as u8];
        out.extend_from_slice(&bytes[..3 - pad]);
    }
    out
}

#[test]
fn base64_output_decodes_back() {
    for n in 0..12usize {
        let bytes: Vec<u8> = (0..n as u8).map(|b| b.wrapping_mul(91).wrapping_add(7)).collect();
        assert_eq!(decode_base64(&base64_encode(&bytes)), bytes);
    }
    assert_eq!(decode_base64(&base64_encode(&[0xFF, 0xFE, 0xFD, 0x00])), vec![0xFF, 0xFE, 0xFD, 0x00]);
}

#[test]
fn base64_pads_partial_groups() {
    assert_eq!(base64_encode(b"Man"), "TWFu");
    assert_eq!(base64_encode(b"Ma"), "TWE=");
    assert_eq!(base64_encode(b"M"), "TQ==");
    assert_eq!(base64_encode(b""), "");
    assert_eq!(image_data_url(b"Man"), "data:image/png;base64,TWFu");
}

#[test]
fn decimal_rendering_is_exact() {
    assert_eq!(u64_to_decimal(0), "0");
    assert_eq!(u64_to_decimal(1234), "1234");
    assert_eq!(i64_to_decimal(-5), "-5");
    assert_eq!(i64_to_decimal(i64::MIN), "-9223372036854775808");
    assert_eq!(u128_to_decimal(u128::MAX), "340282366920938463463374607431768211455");
}

#[test]
fn trimming_and_truncation_work_on_characters() {
    assert_eq!(trim("  a b \n"), "a b");
    assert_eq!(truncate_chars("héllo", 2), "hé");
    assert_eq!(truncate_chars("hi", 5), "hi");
}

// --- configuration text -------------------------------------------------------

#[test]
fn port_parsing_follows_str_parse() {
    assert_eq!(parse_u16("8090"), Some(8090));
    assert_eq!(parse_u16("+1"), Some(1));
    assert_eq!(parse_u16("65535"), Some(65535));
    assert_eq!(parse_u16("65536"), None);
    assert_eq!(parse_u16(""), None);
    assert_eq!(parse_u16("-1"), None);
    assert_eq!(parse_u16(" 1"), None);
}

#[test]
fn provider_overrides_fall_back_on_invalid_ports() {
    let p = LlamaCppProvider::with_overrides(Some("10.0.0.2".into()), Some("9000".into()), Some("port".into()));
    assert_eq!(p.host, "10.0.0.2");
    assert_eq!(p.chat_port, 9000);
    assert_eq!(p.embed_port, 8091);
    assert_eq!(p.chat_url(), "http://10.0.0.2:9000/v1/chat/completions");
    assert_eq!(p.embed_url(), "http://10.0.0.2:8091/v1/embeddings");
    let status = p.status(true, false);
    assert_eq!(status.chat_endpoint, "http://10.0.0.2:9000");
    assert_eq!(status.embedding_endpoint, "http://10.0.0.2:8091");
    assert!(status.chat_available);
    assert!(!status.embedding_available);
}

#[test]
fn thread_count_keeps_one_core_free() {
    assert_eq!(inference_threads_for(Some(8)), 7);
    assert_eq!(inference_threads_for(Some(1)), 1);
    assert_eq!(inference_threads_for(None), 4);
}

#[test]
fn content_length_parses_u64_headers() {
    assert_eq!(parse_u64("18446744073709551615"), Some(u64::MAX));
    assert_eq!(parse_u64("18446744073709551616"), None);
    assert_eq!(content_length(Some("1024")), Some(1024));
    assert_eq!(content_length(Some("abc")), None);
    assert_eq!(content_length(None), None);
}

// --- prompts and request bodies -------------------------------------------------

#[test]
fn batch_prompt_numbers_items_from_zero() {
    let prompt = batch_prompt(&strings(&["first input", "second input"]));
    assert!(prompt.ends_with("preserving its index.\nITEM 0:\nfirst input\n\nITEM 1:\nsecond input"));
    assert_eq!(batch_max_tokens(2), 2048);
    assert_eq!(batch_max_tokens(usize::MAX), u32::MAX);
}

#[test]
fn text_request_body_escapes_the_prompt() {
    let body = text_analysis_body("say \"hi\"");
    assert_eq!(
        body,
        "{\"max_tokens\":1024,\"messages\":[{\"content\":\"Return JSON only with category, summary, entities, relationships, confidence (0..1). Interpret:\\nsay \\\"hi\\\"\",\"role\":\"user\"}],\"response_format\":{\"type\":\"json_object\"},\"temperature\":0.2}"
    );
    let value: serde_json::Value = serde_json::from_str(&body).unwrap();
    assert_eq!(value["max_tokens"], 1024);
}

#[test]
fn batch_request_body_scales_the_token_budget() {
    let body = batch_analysis_body(&strings(&["a", "b", "c"]));
    let value: serde_json::Value = serde_json::from_str(&body).unwrap();
    assert_eq!(value["max_tokens"], 3072);
    assert!(value["messages"][0]["content"].as_str().unwrap().ends_with("ITEM 2:\nc"));
}

#[test]
fn image_request_body_embeds_the_screenshot() {
    let body = image_analysis_body(b"Man");
    let value: serde_json::Value = serde_json::from_str(&body).unwrap();
    assert_eq!(value["messages"][0]["content"][0]["image_url"]["url"], "data:image/png;base64,TWFu");
    assert_eq!(value["messages"][0]["content"][1]["type"], "text");
}

#[test]
fn embeddings_body_lists_inputs_in_order() {
    assert_eq!(embeddings_body(&strings(&["a", "b\"c"])), "{\"input\":[\"a\",\"b\\\"c\"]}");
    assert_eq!(embeddings_body(&Vec::new()), "{\"input\":[]}");
}

#[test]
fn first_choice_is_the_answer() {
    assert_eq!(first_choice_content(strings(&["one", "two"])), Ok("one".to_string()));
    assert_eq!(first_choice_content(Vec::new()), Err("chat engine returned no choices".to_string()));
}

// --- batched answers ---------------------------------------------------------------

#[test]
fn batch_results_are_reordered_by_index() {
    assert_eq!(order_batch_results(&vec![1, 0], 2), Ok(vec![1, 0]));
    assert_eq!(order_batch_results(&vec![0], 2), Err("batch semantic response count mismatch".to_string()));
    assert_eq!(order_batch_results(&vec![0, 0], 2), Err("batch semantic response index mismatch".to_string()));
    assert_eq!(order_batch_results(&vec![0, 2], 2), Err("batch semantic response index mismatch".to_string()));
}

#[test]
fn embedding_results_keep_the_last_duplicate_and_name_the_missing_item() {
    assert_eq!(order_embedding_results(&vec![1, 0], 2), Ok(vec![1, 0]));
    assert_eq!(
        order_embedding_results(&vec![0, 0], 2),
        Err("embedding engine response missing item 1".to_string())
    );
    assert_eq!(
        order_embedding_results(&vec![0, 5], 2),
        Err("embedding engine returned an out-of-range index".to_string())
    );
    assert_eq!(order_embedding_results(&vec![0], 2), Err("embedding engine returned an incomplete batch".to_string()));
}

#[test]
fn model_text_must_not_be_blank() {
    assert_eq!(validate_model_text("work", "Edited a file"), Ok(()));
    assert_eq!(validate_model_text("  ", "summary"), Err("semantic category is empty".to_string()));
    assert_eq!(validate_model_text("work", "\t"), Err("semantic summary is empty".to_string()));
}

// --- queue -----------------------------------------------------------------------------

#[test]
fn retry_delay_doubles_until_the_cap() {
    assert_eq!(retry_delay_ms(0), 250);
    assert_eq!(retry_delay_ms(1), 500);
    assert_eq!(retry_delay_ms(8), 64_000);
    assert_eq!(retry_delay_ms(u32::MAX), 64_000);
    assert_eq!(retry_backoff_seconds(0), 1);
    assert_eq!(retry_backoff_seconds(3), 2);
    assert_eq!(retry_backoff_seconds(20), 64);
}

#[test]
fn task_names_round_trip() {
    for t in [TaskType::SemanticTextAnalysis, TaskType::SemanticImageAnalysis, TaskType::EmbeddingGeneration] {
        assert_eq!(task_type_from_name(task_type_name(t)), t);
    }
    assert_eq!(task_type_from_name("SemanticTextAnalysis"), TaskType::SemanticTextAnalysis);
    assert_eq!(task_type_from_name("anything"), TaskType::EmbeddingGeneration);
}

#[test]
fn claiming_counts_an_attempt() {
    let t = claimed_task("task-1".into(), "event-1".into(), "semantic_image_analysis", 2, 5);
    assert_eq!(t.id, "task-1");
    assert_eq!(t.task_type, TaskType::SemanticImageAnalysis);
    assert_eq!(t.status, QueueStatus::Processing);
    assert_eq!(t.attempts, 3);
    assert_eq!(t.priority, 5);
}

#[test]
fn worker_decisions_follow_the_retry_policy() {
    let task = QueueTask {
        id: "t".into(),
        raw_event_id: "e".into(),
        task_type: TaskType::SemanticTextAnalysis,
        status: QueueStatus::Processing,
        attempts: 1,
        priority: 0,
    };
    assert!(matches!(after_claim(None, false), ClaimAction::WaitForWork));
    assert!(matches!(after_claim(Some(task.clone()), true), ClaimAction::RequeueAndStop));
    assert!(matches!(after_claim(Some(task.clone()), false), ClaimAction::Process(_)));
    match settle_task(&task, Err("boom".into())) {
        SettleAction::Fail { task_id, error, retry, attempt, backoff_ms } => {
            assert_eq!(task_id, "t");
            assert_eq!(error, "boom");
            assert!(retry);
            assert_eq!(attempt, 1);
            assert_eq!(backoff_ms, Some(500));
        },
        _ => panic!("a failure must not finish the task"),
    }
    let exhausted = QueueTask { attempts: 3, ..task.clone() };
    assert!(matches!(settle_task(&exhausted, Err("boom".into())), SettleAction::Fail { retry: false, backoff_ms: None, .. }));
    assert!(matches!(settle_task(&task, Ok(())), SettleAction::Finish { .. }));
    assert_eq!(stale_cutoff_modifier(10), "-10 minutes");
}

#[test]
fn follow_up_embedding_task_is_pending_and_low_priority() {
    let t = embedding_follow_up_task("event-9".into());
    assert_eq!(t.id.len(), 36);
    assert_eq!(t.raw_event_id, "event-9");
    assert_eq!(t.task_type, TaskType::EmbeddingGeneration);
    assert_eq!(t.status, QueueStatus::Pending);
    assert_eq!(t.attempts, 0);
    assert_eq!(t.priority, -1);
    assert_ne!(embedding_follow_up_task("event-9".into()).id, t.id);
}

#[test]
fn event_context_prints_optional_values_in_debug_form() {
    let c = event_context(&Some("Editor".into()), &None, "window_focused", &Some("say \"hi\"".into()));
    assert_eq!(c, "application: Some(\"Editor\")\nwindow: None\nevent: window_focused\ntext: Some(\"say \\\"hi\\\"\")");
}

#[test]
fn image_tasks_have_no_provider() {
    assert_eq!(processing_plan(TaskType::SemanticTextAnalysis), Ok(ProcessingPlan::AnalyzeText));
    assert_eq!(processing_plan(TaskType::EmbeddingGeneration), Ok(ProcessingPlan::Embed));
    assert_eq!(processing_plan(TaskType::SemanticImageAnalysis), Err(IMAGE_TASKS_UNSUPPORTED.to_string()));
}

// --- commands --------------------------------------------------------------------------

#[test]
fn listing_limits_are_clamped() {
    assert_eq!(clamp_event_limit(0), 1);
    assert_eq!(clamp_event_limit(7), 7);
    assert_eq!(clamp_event_limit(10_000), 500);
    assert_eq!(health_check(), "ok");
}

#[test]
fn queue_status_counts_missing_states_as_zero() {
    let rows = vec![("pending".to_string(), 4), ("complete".to_string(), 2), ("pending".to_string(), 5)];
    let s = ProcessingQueueStatus::from_counts(&rows);
    assert_eq!((s.pending, s.processing, s.complete, s.failed, s.cancelled), (5, 0, 2, 0, 0));
}

#[test]
fn processing_statuses_keep_row_order() {
    let rows = vec![
        ("semantic_text_analysis".to_string(), "complete".to_string(), 1, None),
        ("embedding_generation".to_string(), "failed".to_string(), 3, Some("engine down".to_string())),
    ];
    let s = event_processing_statuses(rows);
    assert_eq!(s.len(), 2);
    assert_eq!(s[1].task_type, "embedding_generation");
    assert_eq!(s[1].status, "failed");
    assert_eq!(s[1].attempts, 3);
    assert_eq!(s[1].error.as_deref(), Some("engine down"));
    assert_eq!(s[0].error, None);
}

#[test]
fn provider_status_and_limits_are_fixed() {
    let s = model_provider_status();
    assert_eq!(s.semantic_provider, "local-contract");
    assert_eq!(s.embedding_provider, "sqlite-fallback");
    assert!(!s.semantic_available);
    assert!(s.embedding_available);
    let l = processing_queue_limits();
    assert_eq!((l.max_retry_attempts, l.max_pending_tasks), (3, 10_000));
}

#[test]
fn capture_status_reports_the_platform() {
    let s = CaptureStatus::new(true, false, 12);
    assert!(s.enabled);
    assert!(!s.active);
    assert_eq!(s.persisted_event_count, 12);
    assert_eq!(s.foreground_provider_available, std::path::MAIN_SEPARATOR == '\\');
    assert_eq!(running_on_windows(), std::path::MAIN_SEPARATOR == '\\');
}

// --- settings ---------------------------------------------------------------------------

#[test]
fn input_permissions_accept_only_keyboard_and_mouse() {
    let mut s = CaptureSettings::default();
    assert!(s.set_input_permission("keyboard", true).is_ok());
    assert!(s.keyboard_enabled);
    assert!(s.set_input_permission("mouse", true).is_ok());
    assert!(s.mouse_enabled);
    assert_eq!(s.set_input_permission("camera", true), Err("input must be keyboard or mouse".to_string()));
}

#[test]
fn exclusion_lists_are_normalized() {
    assert_eq!(
        normalize_excluded_applications(&strings(&[" Code.EXE ", "code.exe", "", "Notepad"])),
        strings(&["code.exe", "notepad"])
    );
    assert_eq!(normalize_excluded_paths(&strings(&[" C:\\Secret ", "  ", "C:\\Secret"])), strings(&["C:\\Secret", "C:\\Secret"]));
    assert_eq!(unique_trimmed_entries(&strings(&[" a ", "a", "b", ""])), strings(&["a", "b"]));
}

#[test]
fn application_exclusions_ignore_case() {
    let s = CaptureSettings { excluded_applications: strings(&["code.exe"]), ..Default::default() };
    assert!(s.excludes_application("C:\\Tools\\CODE.EXE", "Visual Studio Code"));
    assert!(!s.excludes_application("C:\\Tools\\notepad.exe", "Notepad"));
    let by_name = CaptureSettings { excluded_applications: strings(&["Notepad"]), ..Default::default() };
    assert!(by_name.excludes_application("C:\\x.exe", "NOTEPAD"));
}

#[test]
fn application_exclusions_match_whole_names_or_stems() {
    let s = CaptureSettings { excluded_applications: strings(&["code"]), ..Default::default() };
    assert!(s.excludes_application("C:\\Program Files\\Code.exe", "Code.exe"));
    assert!(!s.excludes_application("C:\\Tools\\decode.exe", "decode.exe"));
    let dotted = CaptureSettings { excluded_applications: strings(&[".profile"]), ..Default::default() };
    assert!(dotted.excludes_application("/home/u/.profile", "shell"));
}

#[test]
fn path_exclusions_match_whole_components() {
    let s = CaptureSettings { excluded_paths: strings(&["secrets"]), ..Default::default() };
    assert!(!s.excludes_path("C:\\Projects\\Secretariat\\notes.txt"));
    assert!(s.excludes_path("D:/archive/SECRETS/"));
    let nested = CaptureSettings { excluded_paths: strings(&["C:\\Projects\\Private"]), ..Default::default() };
    assert!(nested.excludes_path("c:\\projects\\private\\a.txt"));
    assert!(!nested.excludes_path("C:\\Other\\Projects\\Public\\Private2"));
}

#[test]
fn keyboard_text_needs_allowlisted_mode() {
    let mut s = CaptureSettings { keyboard_text_allowlist: strings(&["Notes"]), ..Default::default() };
    assert!(!s.allows_keyboard_text("notes"));
    s.keyboard_mode = KeyboardMode::AllowlistedText;
    assert!(s.allows_keyboard_text("NOTES"));
    assert!(!s.allows_keyboard_text("Mail"));
}

// --- foreground window --------------------------------------------------------------

#[test]
fn app_name_is_the_last_path_segment() {
    assert_eq!(app_name_from_executable_path("C:\\Windows\\notepad.exe"), "notepad.exe");
    assert_eq!(app_name_from_executable_path("/usr/bin/code"), "code");
    assert_eq!(app_name_from_executable_path("plain"), "plain");
}

#[test]
fn foreground_tracker_reports_focus_and_title_changes() {
    let mut t = ForegroundTracker::new();
    assert_eq!(t.observe(1, "a", false), Some(ForegroundChange::Focused));
    assert_eq!(t.observe(1, "a", false), None);
    assert_eq!(t.observe(1, "b", false), Some(ForegroundChange::TitleChanged));
    assert_eq!(t.observe(2, "b", true), None);
    assert_eq!(t.observe(2, "b", false), Some(ForegroundChange::Focused));
}

#[test]
fn foreground_event_records_the_window_handle() {
    let e = foreground_window_event(stamp(), ForegroundChange::TitleChanged, "Editor".into(), "main.rs".into(), "C:\\e.exe".into(), 7, -3);
    assert_eq!(e.event_type, "window_title_changed");
    assert_eq!(e.metadata_json, "{\"window_handle\":-3}");
    assert_eq!(e.id, "id-1");
    assert_eq!(e.timestamp_ns, 42);
}

#[test]
fn seeding_happens_only_on_an_empty_database() {
    assert!(needs_ready_event(0));
    assert!(!needs_ready_event(1));
    let e = system_ready_event(stamp());
    assert_eq!(e.event_type, "system_ready");
    assert_eq!(e.window_title.as_deref(), Some("Desktop shell initialized"));
}

// --- filesystem ----------------------------------------------------------------------

#[test]
fn snapshot_insert_replaces_earlier_times() {
    let mut s = snapshot_of(&[("a", 1), ("b", 2)]);
    s.insert("a".into(), 5);
    assert_eq!(s.len(), 2);
    assert_eq!(s.get("a"), Some(5));
    assert_eq!(s.get("c"), None);
}

#[test]
fn unchanged_snapshot_records_nothing() {
    let s = snapshot_of(&[("a", 1), ("b", 2)]);
    let same = snapshot_of(&[("a", 1), ("b", 2)]);
    assert!(filesystem_changes(&s, &same).is_empty());
}

#[test]
fn created_modified_and_deleted_files_are_reported_in_order() {
    let previous = snapshot_of(&[("keep", 1), ("edit", 2), ("gone", 3)]);
    let current = snapshot_of(&[("keep", 1), ("edit", 9), ("new", 4)]);
    assert_eq!(
        change_list(&filesystem_changes(&previous, &current)),
        vec![
            (FileChangeKind::Modified, "edit".to_string(), 9),
            (FileChangeKind::Created, "new".to_string(), 4),
            (FileChangeKind::Deleted, "gone".to_string(), 0),
        ]
    );
}

#[test]
fn a_move_with_the_same_time_is_a_rename() {
    let previous = snapshot_of(&[("old", 7)]);
    let current = snapshot_of(&[("moved", 7)]);
    assert_eq!(change_list(&filesystem_changes(&previous, &current)), vec![(FileChangeKind::Renamed, "moved".to_string(), 7)]);
}

#[test]
fn a_move_with_an_unknown_time_is_recorded_as_nothing() {
    let previous = snapshot_of(&[("old", 0)]);
    let current = snapshot_of(&[("moved", 0)]);
    assert!(filesystem_changes(&previous, &current).is_empty());
}

#[test]
fn file_events_carry_the_modification_time() {
    let e = file_change_event(stamp(), FileChange { kind: FileChangeKind::Created, path: "C:\\a.txt".into(), modified: 123 });
    assert_eq!(e.event_type, "file_created");
    assert_eq!(e.source, "filesystem_polling");
    assert_eq!(e.file_path.as_deref(), Some("C:\\a.txt"));
    assert_eq!(e.metadata_json, "{\"modified_ns\":123}");
    assert_eq!(e.privacy_class, "filesystem_metadata");
    let fresh = normalize_file_change(FileChange { kind: FileChangeKind::Deleted, path: "x".into(), modified: 0 });
    assert_eq!(fresh.event_type, "file_deleted");
    assert_eq!(fresh.id.len(), 36);
    assert!(!fresh.created_at.is_empty());
}

// --- mouse and keyboard -------------------------------------------------------------

#[test]
fn mouse_messages_are_classified() {
    assert_eq!(mouse_message_kind(0x0201), MouseMessageKind::LeftDown);
    assert_eq!(mouse_message_kind(0x020A), MouseMessageKind::Wheel);
    assert_eq!(mouse_message_kind(0x1234), MouseMessageKind::Other);
    assert_eq!(mouse_button(MouseMessageKind::MiddleDown), Some("middle"));
    assert_eq!(mouse_button(MouseMessageKind::Move), None);
    assert!(is_key_press(0x0100));
    assert!(is_key_press(0x0104));
    assert!(!is_key_press(0x0101));
}

#[test]
fn gestures_follow_position_and_pending_press() {
    assert_eq!(next_gesture(None, Some((10, 10)), MouseMessageKind::LeftDown, 12, 9), (MouseEventType::DoubleClick, Some((12, 9))));
    assert_eq!(next_gesture(None, Some((10, 10)), MouseMessageKind::LeftDown, 15, 10), (MouseEventType::Click, Some((15, 10))));
    assert_eq!(next_gesture(Some((0, 0)), None, MouseMessageKind::Move, 5, 0), (MouseEventType::DragStarted, Some((0, 0))));
    assert_eq!(next_gesture(Some((0, 0)), None, MouseMessageKind::Move, 4, -4), (MouseEventType::Move, Some((0, 0))));
    assert_eq!(next_gesture(Some((0, 0)), None, MouseMessageKind::LeftUp, 9, 9), (MouseEventType::DragEnded, None));
    assert_eq!(next_gesture(None, None, MouseMessageKind::LeftUp, 9, 9), (MouseEventType::LeftUp, None));
    assert_eq!(next_gesture(Some((1, 1)), None, MouseMessageKind::Wheel, 0, 0), (MouseEventType::Scroll, Some((1, 1))));
}

#[test]
fn tracker_recognises_a_quick_double_click() {
    let mut t = MouseGestureTracker::new();
    assert_eq!(t.observe(MouseMessageKind::LeftDown, 100, 100), MouseEventType::Click);
    assert_eq!(t.observe(MouseMessageKind::LeftDown, 101, 99), MouseEventType::DoubleClick);
    assert_eq!(t.observe(MouseMessageKind::LeftUp, 101, 99), MouseEventType::DragEnded);
    assert_eq!(t.observe(MouseMessageKind::LeftUp, 101, 99), MouseEventType::LeftUp);
}

#[test]
fn movement_is_never_recorded() {
    assert!(!records_mouse_event(MouseEventType::Move));
    assert!(!records_mouse_event(MouseEventType::DragStarted));
    assert!(records_mouse_event(MouseEventType::DoubleClick));
    assert!(records_mouse_event(MouseEventType::Scroll));
    assert_eq!(mouse_event_type_name(MouseEventType::RightClick), "mouse_right_click");
}

// --- local AI setup ------------------------------------------------------------------

#[test]
fn the_first_windows_cpu_zip_is_chosen() {
    let asset = |name: &str| GithubAsset { name: name.into(), browser_download_url: format!("https://x/{name}") };
    let release = GithubRelease {
        tag_name: "b1".into(),
        assets: vec![
            asset("llama-b1-bin-win-cuda-x64.zip"),
            asset("llama-b1-bin-win-cpu-x64.tar"),
            asset("llama-b1-bin-win-cpu-x64.zip"),
            asset("other-bin-win-cpu-x64.zip"),
        ],
    };
    let chosen = select_windows_cpu_asset(release).unwrap();
    assert_eq!(chosen.name, "llama-b1-bin-win-cpu-x64.zip");
    assert_eq!(chosen.browser_download_url, "https://x/llama-b1-bin-win-cpu-x64.zip");
    let none = GithubRelease { tag_name: "b2".into(), assets: vec![asset("a.zip")] };
    assert_eq!(select_windows_cpu_asset(none).unwrap_err(), "no Windows CPU build found in llama.cpp release b2");
}

#[test]
fn archive_entries_lose_one_wrapping_folder() {
    assert_eq!(extracted_path(strings(&["build", "bin", "llama-server.exe"])), Some(strings(&["bin", "llama-server.exe"])));
    assert_eq!(extracted_path(strings(&["llama-server.exe"])), Some(strings(&["llama-server.exe"])));
    assert_eq!(extracted_path(Vec::new()), None);
}

#[test]
fn progress_reports_are_throttled() {
    assert!(progress_due(true, Duration::ZERO));
    assert!(!progress_due(false, Duration::from_millis(199)));
    assert!(progress_due(false, Duration::from_millis(200)));
    let s = LlamaSetupStatus::default();
    assert!(!s.runtime_installed && !s.chat_running);
    assert!(s.chat_model_name.is_empty());
}

// --- data directory -----------------------------------------------------------------

#[test]
fn pointer_contents_are_trimmed() {
    assert_eq!(pointer_target("  D:\\Chronicle \r\n"), Some("D:\\Chronicle".to_string()));
    assert_eq!(pointer_target(" \n"), None);
    assert_eq!(check_relocation_target(""), Err("no destination directory was provided".to_string()));
    assert_eq!(check_relocation_target("E:\\Data"), Ok(()));
}

// --- screenshots ------------------------------------------------------------------------

#[test]
fn capture_sizes_are_bounded() {
    assert!(capture_dimensions_valid(4000, 4000));
    assert!(!capture_dimensions_valid(4001, 4000));
    assert!(!capture_dimensions_valid(0, 10));
    assert!(!capture_dimensions_valid(i32::MAX, i32::MAX));
    assert!(initialize(0).is_err());
}

#[test]
fn bgra_pixels_become_opaque_rgba() {
    let mut pixels = vec![1, 2, 3, 4, 5, 6, 7, 8, 9];
    bgra_to_opaque_rgba(&mut pixels);
    assert_eq!(pixels, vec![3, 2, 1, 255, 7, 6, 5, 255, 9]);
    assert!(png_from_bgra_capture(1, 1, vec![0, 0, 255, 0]).is_ok());
    assert_eq!(png_from_bgra_capture(0, 1, vec![]).unwrap_err(), "window dimensions are invalid or exceed screenshot limit");
    assert_eq!(png_from_bgra_capture(1, 1, vec![0]).unwrap_err(), "pixel buffer dimensions do not match");
}

#[test]
fn taking_an_inserted_screenshot_returns_it() {
    let mut store = TransientScreenshotStore::default();
    assert!(store.insert(TransientScreenshotAsset::new("e".into(), vec![1, 2], "image/png")));
    assert!(store.insert(TransientScreenshotAsset::new("e".into(), vec![3], "image/png")));
    assert_eq!(store.len(), 1);
    assert_eq!(store.take("e").unwrap().bytes, vec![3]);
    assert!(store.take("e").is_none());
    store.insert(TransientScreenshotAsset::new("f".into(), vec![1], "image/png"));
    store.purge_default_retention();
    assert_eq!(store.len(), 1);
}

#[test]
fn sanitizing_twice_changes_nothing_more() {
    let raw = FocusedElementSnapshot {
        control_type: Some("Edit".into()),
        element_value: Some("v".repeat(5000)),
        element_name: Some("n".repeat(600)),
        ..Default::default()
    };
    let once = raw.sanitize();
    let twice = once.clone().sanitize();
    assert_eq!(once.element_value, twice.element_value);
    assert_eq!(once.element_name, twice.element_name);
    assert_eq!(once.element_name.unwrap().chars().count(), 512);
}

#[test]
fn expiry_compares_the_elapsed_time_with_the_retention() {
    let a = TransientScreenshotAsset::new("e".into(), vec![1], "image/png");
    assert!(a.expired_after(Duration::from_secs(30), Duration::from_secs(30)));
    assert!(!a.expired_after(Duration::from_millis(29_999), Duration::from_secs(30)));
    assert!(a.expired_after(Duration::ZERO, Duration::ZERO));
}

#[test]
fn removal_drops_exactly_the_aged_screenshots() {
    let mut store = TransientScreenshotStore::default();
    store.insert(TransientScreenshotAsset::new("old".into(), vec![1], "image/png"));
    store.insert(TransientScreenshotAsset::new("fresh".into(), vec![2], "image/png"));
    store.insert(TransientScreenshotAsset::new("unlisted".into(), vec![3], "image/png"));
    let ages = vec![("old".to_string(), Duration::from_secs(31)), ("fresh".to_string(), Duration::from_secs(2))];
    store.remove_expired(&ages, Duration::from_secs(30));
    assert_eq!(store.len(), 2);
    assert!(store.take("old").is_none());
    assert_eq!(store.take("fresh").unwrap().bytes, vec![2]);
    assert!(store.take("unlisted").is_some());
}

#[test]
fn a_click_counts_for_a_double_click_only_within_half_a_second() {
    assert_eq!(recent_click(Some((3, 4)), Duration::from_millis(500)), Some((3, 4)));
    assert_eq!(recent_click(Some((3, 4)), Duration::from_millis(501)), None);
    assert_eq!(recent_click(None, Duration::ZERO), None);
}

#[test]
fn a_fresh_screenshot_is_not_expired_after_a_second() {
    let a = TransientScreenshotAsset::new("event".into(), vec![1, 2, 3], "image/png");
    assert!(!a.expired(Duration::from_secs(1)));
    assert!(a.expired(Duration::ZERO));
}

#[test]
fn json_strings_escape_quotes_and_controls() {
    assert_eq!(embeddings_body(&strings(&["tab\tq\"\u{1f}é\\"])), "{\"input\":[\"tab\\tq\\\"\\u001fé\\\\\"]}");
}

#[test]
fn stamp_from_a_clock_reading_after_the_epoch() {
    let s = stamp_from("id-1".into(), Some(std::time::Duration::new(1_700_000_000, 5)));
    assert_eq!(s.id, "id-1");
    assert_eq!(s.timestamp_ns, 1_700_000_000_000_000_005);
    assert_eq!(s.created_at, "2023-11-14T22:13:20.000000005+00:00");
}

#[test]
fn stamp_from_the_last_representable_nanosecond() {
    let s = stamp_from("id-2".into(), Some(std::time::Duration::new(9_223_372_036, 854_775_807)));
    assert_eq!(s.timestamp_ns, i64::MAX);
    assert_eq!(s.created_at, "2262-04-11T23:47:16.854775807+00:00");
    let later = stamp_from("id-3".into(), Some(std::time::Duration::new(9_223_372_036, 854_775_808)));
    assert_eq!(later.timestamp_ns, 0);
    assert_eq!(later.created_at, "2262-04-11T23:47:16.854775808+00:00");
}

#[test]
fn stamp_from_a_reading_before_the_epoch_or_beyond_the_calendar() {
    let before = stamp_from("id-4".into(), None);
    assert_eq!((before.timestamp_ns, before.created_at.as_str()), (0, ""));
    let far = stamp_from("id-5".into(), Some(std::time::Duration::from_secs(u64::MAX)));
    assert_eq!((far.timestamp_ns, far.created_at.as_str()), (0, ""));
}

#[test]
fn stamp_now_reads_the_clock() {
    let s = stamp_now();
    assert_eq!(s.id.len(), 36);
    assert!(s.timestamp_ns > 1_600_000_000_000_000_000);
    assert!(s.created_at.ends_with("+00:00"));
}

#[test]
fn excluded_files_never_enter_a_snapshot() {
    let excluded = vec!["Secrets".to_string()];
    let mut s = FileSnapshot::new();
    assert!(s.insert_unless_excluded(&excluded, "/home/u/notes/a.txt".into(), 5));
    assert!(!s.insert_unless_excluded(&excluded, "/home/u/secrets/b.txt".into(), 6));
    assert!(!s.insert_unless_excluded(&excluded, "/home/u/notes/secrets".into(), 7));
    assert_eq!(s.len(), 1);
    assert_eq!(s.get("/home/u/notes/a.txt"), Some(5));
    assert_eq!(s.get("/home/u/secrets/b.txt"), None);
}

#[test]
fn latency_is_counted_only_while_the_counters_have_room() {
    let mut m = chronicle::asynchronous_processing_queue::ProcessingMetrics::default();
    assert!(m.try_record_completed_with_latency(std::time::Duration::from_millis(40)));
    assert_eq!((m.completed, m.total_latency_ms), (1, 40));
    m.total_latency_ms = u128::MAX - 10;
    assert!(!m.try_record_completed_with_latency(std::time::Duration::from_millis(11)));
    assert_eq!((m.completed, m.total_latency_ms), (1, u128::MAX - 10));
    m.completed = u64::MAX;
    m.total_latency_ms = 0;
    assert!(!m.try_record_completed_with_latency(std::time::Duration::from_millis(1)));
    assert_eq!(m.completed, u64::MAX);
}

#[test]
fn a_server_starts_only_when_absent_and_installed() {
    assert!(chronicle::local_model_provider::needs_server_start(false, true, true));
    assert!(!chronicle::local_model_provider::needs_server_start(true, true, true));
    assert!(!chronicle::local_model_provider::needs_server_start(false, false, true));
    assert!(!chronicle::local_model_provider::needs_server_start(false, true, false));
}
