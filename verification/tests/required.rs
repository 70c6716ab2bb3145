use chronicle::activity_capture::{normalize_window_event, CaptureSettings, KeyboardMode};
use chronicle::asynchronous_processing_queue::{retry_delay, ProcessingMetrics, MAX_RETRY_ATTEMPTS};
use chronicle::local_model_provider::{
    chat_server_args, embed_server_args, inference_threads_for, LlamaCppProvider, SERVER_CONTEXT_SIZE,
};
use chronicle::transient_screenshot_capture::{
    default_screenshot_retention, ScreenshotTrigger, TransientScreenshotAsset, TransientScreenshotStore,
};
use chronicle::png::encode_png_rgba;
use chronicle::windows_active_window_screenshot::capture_window_png;
use chronicle::windows_ui_automation_capture::{
    normalize_focused_element, FocusedElementSnapshot, UiAutomationProvider, WindowsUiAutomationProvider,
};
use std::time::Duration;

#[test]
fn shared_normalized_event_has_evidence() {
    let e = normalize_window_event("Editor".into(), "main.rs".into(), None, Some(7));
    assert_eq!(e.event_type, "window_focused");
    assert_eq!(e.process_id, Some(7));
    assert!(!e.id.is_empty());
}

#[test]
fn shared_defaults_are_privacy_safe() {
    let s = CaptureSettings::default();
    assert!(!s.enabled);
    assert!(matches!(s.keyboard_mode, KeyboardMode::MetadataOnly));
    assert!(!s.screenshots_enabled);
}

#[test]
fn path_exclusions_match_case_insensitive_fragments() {
    let settings = CaptureSettings { excluded_paths: vec!["secrets".into()], ..Default::default() };
    assert!(settings.excludes_path("C:\\Projects\\Secrets\\notes.txt"));
    assert!(!settings.excludes_path("C:\\Projects\\Public\\notes.txt"));
}

#[test]
fn retries_back_off() {
    assert_eq!(MAX_RETRY_ATTEMPTS, 3);
    assert!(retry_delay(2) > retry_delay(1));
    assert_eq!(retry_delay(0), Duration::from_millis(250));
}

#[test]
fn processing_metrics_start_empty() {
    let mut metrics = ProcessingMetrics::default();
    metrics.record_completed_with_latency(Duration::from_millis(25));
    metrics.record_failed();
    metrics.record_panicked();
    metrics.record_model("test-model", "1");
    assert_eq!(
        metrics.snapshot(),
        ProcessingMetrics {
            completed: 1,
            failed: 1,
            panicked: 1,
            total_latency_ms: 25,
            last_model_name: Some("test-model".into()),
            last_model_version: Some("1".into()),
        }
    );
    metrics.reset();
    assert_eq!(metrics, ProcessingMetrics::default());
}

#[test]
fn capture_normalized_event_has_evidence() {
    let e = normalize_window_event("Editor".into(), "main.rs".into(), None, Some(7));
    assert_eq!(e.event_type, "window_focused");
    assert_eq!(e.process_id, Some(7));
    assert!(!e.id.is_empty());
}

#[test]
fn capture_defaults_are_privacy_safe() {
    let s = CaptureSettings::default();
    assert!(!s.enabled);
    assert!(matches!(s.keyboard_mode, KeyboardMode::MetadataOnly));
    assert!(!s.screenshots_enabled);
}

#[test]
fn windows_activity_capture_normalized_event_has_evidence() {
    let e = normalize_window_event("Editor".into(), "main.rs".into(), None, Some(7));
    assert_eq!(e.event_type, "window_focused");
    assert_eq!(e.process_id, Some(7));
    assert!(!e.id.is_empty());
}

#[test]
fn windows_activity_capture_defaults_are_privacy_safe() {
    let s = CaptureSettings::default();
    assert!(!s.enabled);
    assert!(matches!(s.keyboard_mode, KeyboardMode::MetadataOnly));
    assert!(!s.screenshots_enabled);
}

#[test]
fn defaults_use_local_engine_ports() {
    let p = LlamaCppProvider::with_overrides(None, None, None);
    assert_eq!(p.host, "127.0.0.1");
    assert!(p.chat_port > 0);
    assert!(p.embed_port > 0);
    assert_ne!(p.chat_port, p.embed_port);
    assert!(!p.chat_model.is_empty());
    assert!(!p.embedding_model.is_empty());
}

#[test]
fn chat_server_args_enable_jinja_and_wide_context() {
    let args = chat_server_args("model.gguf", "mmproj.gguf", "127.0.0.1", 8090, inference_threads_for(Some(8)));
    assert!(
        args.contains(&"--jinja".to_string()),
        "chat server must run with --jinja so Gemma 3's chat template is applied: {args:?}"
    );
    let ctx_index = args.iter().position(|a| a == "-c").expect("-c flag present");
    assert_eq!(args[ctx_index + 1], SERVER_CONTEXT_SIZE.to_string());
}

#[test]
fn embed_server_args_include_wide_context() {
    let args = embed_server_args("embed.gguf", "127.0.0.1", 8091, inference_threads_for(Some(8)));
    assert!(args.contains(&"--embeddings".to_string()));
    assert!(args.contains(&"--jinja".to_string()));
    let ctx_index = args.iter().position(|a| a == "-c").expect("-c flag present");
    assert_eq!(args[ctx_index + 1], SERVER_CONTEXT_SIZE.to_string());
}

#[test]
fn server_args_pin_an_explicit_thread_count() {
    let threads = inference_threads_for(Some(8));
    let expected = threads.to_string();
    let chat_args = chat_server_args("m.gguf", "mm.gguf", "127.0.0.1", 8090, threads);
    let chat_index = chat_args.iter().position(|a| a == "-t").expect("-t flag present");
    assert_eq!(chat_args[chat_index + 1], expected);

    let embed_args = embed_server_args("e.gguf", "127.0.0.1", 8091, threads);
    let embed_index = embed_args.iter().position(|a| a == "-t").expect("-t flag present");
    assert_eq!(embed_args[embed_index + 1], expected);
}

#[test]
fn assets_are_in_memory_and_expire() {
    let asset = TransientScreenshotAsset::new("event".into(), vec![1, 2, 3], "image/png");
    assert_eq!(asset.bytes.len(), 3);
    assert!(!asset.expired(Duration::from_secs(1)));
}

#[test]
fn meaningful_triggers_are_explicit() {
    assert!(ScreenshotTrigger::DoubleClick.meaningful());
    assert!(ScreenshotTrigger::ElementFocused.meaningful());
}

#[test]
fn store_releases_assets_after_processing() {
    let mut store = TransientScreenshotStore::default();
    assert!(store.insert(TransientScreenshotAsset::new("event".into(), vec![1], "image/png")));
    assert_eq!(store.len(), 1);
    assert!(store.take("event").is_some());
    assert_eq!(store.len(), 0);
}

#[test]
fn store_associates_asset_with_queue_task() {
    let mut store = TransientScreenshotStore::default();
    store.insert(TransientScreenshotAsset::new("event".into(), vec![1], "image/png"));
    assert!(store.associate_queue_task("event", "task".into()));
    assert_eq!(store.take("event").unwrap().queue_task_id.as_deref(), Some("task"));
}

#[test]
fn store_purges_expired_assets() {
    let mut store = TransientScreenshotStore::default();
    store.insert(TransientScreenshotAsset::new("expired".into(), vec![1], "image/png"));
    store.purge_expired(Duration::ZERO);
    assert_eq!(store.len(), 0);
}

#[test]
fn store_rejects_empty_and_non_image_assets() {
    let mut store = TransientScreenshotStore::default();
    assert!(!store.insert(TransientScreenshotAsset::new("empty".into(), vec![], "image/png")));
    assert!(!store.insert(TransientScreenshotAsset::new("text".into(), vec![1], "text/plain")));
    assert_eq!(store.len(), 0);
}

#[test]
fn default_retention_is_short_and_explicit() {
    assert_eq!(default_screenshot_retention(), Duration::from_secs(30));
}

#[test]
fn png_encoder_emits_valid_signature() {
    let png = encode_png_rgba(1, 1, &[255, 0, 0, 255]).unwrap();
    assert_eq!(&png[..8], &[137, 80, 78, 71, 13, 10, 26, 10]);
    assert!(png.windows(4).any(|chunk| chunk == b"IHDR"));
}

#[test]
fn invalid_window_handle_is_reported_without_panicking() {
    assert!(capture_window_png(0).is_err());
}

#[test]
fn normalizes_element_metadata_without_screenshot() {
    let event = normalize_focused_element(FocusedElementSnapshot {
        element_name: Some("Save".into()),
        control_type: Some("Button".into()),
        ..Default::default()
    });
    assert_eq!(event.event_type, "element_focused");
    assert_eq!(event.source, "windows_ui_automation");
    assert!(event.metadata_json.contains("Button"));
}

#[test]
fn bounds_selected_text_and_control_values() {
    let snapshot = FocusedElementSnapshot {
        selected_text: Some("x".repeat(5000)),
        element_value: Some("y".repeat(5000)),
        ..Default::default()
    }
    .sanitize();
    assert_eq!(snapshot.selected_text.unwrap().len(), 4096);
    assert_eq!(snapshot.element_value.unwrap().len(), 4096);
}

#[test]
fn password_controls_never_retain_values() {
    let event = normalize_focused_element(FocusedElementSnapshot {
        control_type: Some("PasswordBox".into()),
        element_value: Some("secret".into()),
        selected_text: Some("secret".into()),
        ..Default::default()
    });
    assert_eq!(event.privacy_class, "protected_field");
    assert!(event.text.is_none());
    assert!(!event.metadata_json.contains("secret"));
}

#[test]
fn unavailable_or_inaccessible_focus_returns_empty_result() {
    let provider = WindowsUiAutomationProvider;
    assert!(provider.focused_element().is_ok());
}
