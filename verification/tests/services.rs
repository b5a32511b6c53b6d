use voicett::audio::RecorderConfig;
use voicett::config::AppConfig;
use voicett::engines::TranscriptionOutput;
use voicett::error::AppError;
use voicett::services::{
    after_recognition, after_summary, after_translation, effective_config, media_complete, media_progress, plan_media_job, record_summary,
    record_summary_at, record_transcription, record_transcription_at, record_translation,
    record_translation_at, recorder_config, summary_request, transcript, RecordingContext,
    RecordingMode, ServiceEvent, SessionMetadata, TranscriptionService, TranslationRequest,
};
use voicett::state::ServiceStatus;
use voicett::store::{ConversationStore, EntryKind, NewEntry};

fn session(mode: RecordingMode, translate: bool) -> SessionMetadata {
    SessionMetadata {
        conversation_id: "conv".to_string(),
        mode,
        translate,
        translate_language: "French".to_string(),
        override_recognition_engine: None,
        override_transcribe_language: None,
    }
}

fn output(text: &str) -> TranscriptionOutput {
    TranscriptionOutput {
        segment_id: "seg-1".to_string(),
        text: text.to_string(),
        language: Some("en".to_string()),
        confidence: Some(0.75f32.to_bits()),
        duration_ms: 640,
    }
}

fn request(text: &str) -> TranslationRequest {
    TranslationRequest {
        segment_id: "seg-1".to_string(),
        text: text.to_string(),
        target_language: "French".to_string(),
        context: "default".to_string(),
    }
}

fn store_with_conversation() -> ConversationStore {
    let mut store = ConversationStore::new();
    store.create_conversation_at("conv".to_string(), None, 100).unwrap();
    store
}

#[test]
fn recording_mode_names() {
    assert_eq!(RecordingMode::Default.as_str(), "default");
    assert_eq!(RecordingMode::VoiceInput.as_str(), "voice_input");
}

#[test]
fn recording_context_default_asks_nothing() {
    let context = RecordingContext::default();
    assert_eq!(context.mode, RecordingMode::Default);
    assert_eq!(context.translate, None);
    assert_eq!(context.translate_language, None);
    assert_eq!(context.override_recognition_engine, None);
    assert_eq!(context.override_transcribe_language, None);
}

#[test]
fn service_status_default_is_idle() {
    let status = ServiceStatus::default();
    assert!(status.running);
    assert!(status.ready);
    assert!(!status.is_recording);
    assert_eq!(status.mode, None);
}

#[test]
fn recorder_config_follows_settings() {
    let mut config = AppConfig::default();
    config.silence_rms_threshold = 0.02f32.to_bits();
    config.min_silence_ms = 750;
    assert_eq!(
        recorder_config(&config),
        RecorderConfig {
            silence_threshold: 0.02f32.to_bits(),
            min_silence_ms: 750,
            max_segment_ms: 12_000,
            preferred_sample_rate: None,
        }
    );
}

#[test]
fn new_service_is_idle() {
    let service = TranscriptionService::new();
    assert!(!service.is_recording());
    let status = service.status();
    assert!(status.running && status.ready && !status.is_recording);
    assert_eq!(status.mode, None);
}

#[test]
fn stop_without_session_fails() {
    let mut service = TranscriptionService::new();
    assert!(matches!(service.stop(), Err(AppError::RecordingNotRunning)));
    assert!(!service.is_recording());
    assert_eq!(service.status().mode, None);
}

#[test]
fn start_and_stop_walk_the_state_machine() {
    let config = AppConfig::default();
    let mut store = ConversationStore::new();
    let mut service = TranscriptionService::new();

    let plan = service
        .start_at(RecordingContext::default(), &config, &mut store, "c-1".to_string(), 900)
        .unwrap();
    assert_eq!(plan.metadata.conversation_id, "c-1");
    assert_eq!(plan.metadata.mode, RecordingMode::Default);
    assert!(plan.metadata.translate);
    assert_eq!(plan.metadata.translate_language, "Chinese");
    assert_eq!(plan.metadata.override_recognition_engine, None);
    assert_eq!(plan.metadata.override_transcribe_language, None);
    assert_eq!(plan.recorder.max_segment_ms, 12_000);
    assert_eq!(plan.recorder.min_silence_ms, 1_000);
    assert_eq!(plan.recorder.silence_threshold, 0.01f32.to_bits());
    assert_eq!(plan.conversation.id, "c-1");
    assert_eq!(plan.conversation.title, "New Conversation");
    assert_eq!(plan.conversation.created_at, 900);
    // Admitted, but not recording until the input is acquired.
    assert!(!service.is_recording());
    assert_eq!(store.conversation("c-1").unwrap().title, "New Conversation");

    let id = service.activate(plan, Ok(())).unwrap();
    assert_eq!(id, "c-1");
    assert!(service.is_recording());
    let status = service.status();
    assert!(status.running && status.ready && status.is_recording);
    assert_eq!(status.mode.as_deref(), Some("default"));

    let stopped = service.stop().unwrap();
    assert_eq!(stopped.conversation_id, "c-1");
    assert_eq!(stopped.mode, RecordingMode::Default);
    assert!(!service.is_recording());
    let status = service.status();
    assert!(status.running && status.ready && !status.is_recording);
    assert_eq!(status.mode, None);
    assert!(matches!(service.stop(), Err(AppError::RecordingNotRunning)));
}

#[test]
fn start_while_recording_fails_and_changes_nothing() {
    let config = AppConfig::default();
    let mut store = ConversationStore::new();
    let mut service = TranscriptionService::new();
    let plan = service
        .start_at(
            RecordingContext { mode: RecordingMode::VoiceInput, ..RecordingContext::default() },
            &config,
            &mut store,
            "c-1".to_string(),
            1,
        )
        .unwrap();
    service.activate(plan, Ok(())).unwrap();

    let again =
        service.start_at(RecordingContext::default(), &config, &mut store, "c-2".to_string(), 2);
    assert!(matches!(again, Err(AppError::RecordingAlreadyRunning)));
    let again = service.start(RecordingContext::default(), &config, &mut store);
    assert!(matches!(again, Err(AppError::RecordingAlreadyRunning)));
    assert_eq!(store.conversation_count(), 1);
    assert!(service.is_recording());
    assert_eq!(service.status().mode.as_deref(), Some("voice_input"));
    assert_eq!(service.stop().unwrap().conversation_id, "c-1");
}

#[test]
fn start_draws_identifier_and_time() {
    let config = AppConfig::default();
    let mut store = ConversationStore::new();
    let mut service = TranscriptionService::new();
    let plan = service.start(RecordingContext::default(), &config, &mut store).unwrap();
    assert_eq!(plan.conversation.id.len(), 36);
    assert_eq!(plan.metadata.conversation_id, plan.conversation.id);
    assert!(store.contains_conversation(&plan.conversation.id));
    assert!(!service.is_recording());
}

#[test]
fn context_overrides_the_configured_choices() {
    let mut config = AppConfig::default();
    config.enable_translation = true;
    config.translate_language = "Chinese".to_string();
    let mut store = ConversationStore::new();
    let mut service = TranscriptionService::new();
    let context = RecordingContext {
        mode: RecordingMode::VoiceInput,
        translate: Some(false),
        translate_language: Some("Spanish".to_string()),
        override_recognition_engine: Some("soniox".to_string()),
        override_transcribe_language: Some("de".to_string()),
    };
    let plan = service.start_at(context, &config, &mut store, "c".to_string(), 1).unwrap();
    assert_eq!(plan.metadata.mode, RecordingMode::VoiceInput);
    assert!(!plan.metadata.translate);
    assert_eq!(plan.metadata.translate_language, "Spanish");
    assert_eq!(plan.metadata.override_recognition_engine.as_deref(), Some("soniox"));
    assert_eq!(plan.metadata.override_transcribe_language.as_deref(), Some("de"));

    config.enable_translation = false;
    let plan = service
        .start_at(RecordingContext::default(), &config, &mut store, "d".to_string(), 2)
        .unwrap();
    assert!(!plan.metadata.translate);
    assert_eq!(plan.metadata.translate_language, "Chinese");
}

#[test]
fn failed_acquisition_leaves_the_slot_empty() {
    let config = AppConfig::default();
    let mut store = ConversationStore::new();
    let mut service = TranscriptionService::new();
    let plan = service
        .start_at(RecordingContext::default(), &config, &mut store, "c".to_string(), 1)
        .unwrap();
    let failed = service.activate(plan, Err(AppError::NoAudioInputDevice));
    assert!(matches!(failed, Err(AppError::NoAudioInputDevice)));
    assert!(!service.is_recording());
    assert_eq!(service.status().mode, None);
    // The conversation of the failed start stays behind.
    assert!(store.contains_conversation("c"));
    assert!(matches!(service.stop(), Err(AppError::RecordingNotRunning)));

    let plan = service
        .start_at(RecordingContext::default(), &config, &mut store, "d".to_string(), 2)
        .unwrap();
    let failed = service.activate(plan, Err(AppError::Other("stream refused".to_string())));
    match failed {
        Err(AppError::Other(why)) => assert_eq!(why, "stream refused"),
        other => panic!("unexpected {other:?}"),
    }
}

#[test]
fn activate_refuses_a_second_session() {
    let config = AppConfig::default();
    let mut store = ConversationStore::new();
    let mut service = TranscriptionService::new();
    let first = service
        .start_at(RecordingContext::default(), &config, &mut store, "a".to_string(), 1)
        .unwrap();
    let second = service
        .start_at(RecordingContext::default(), &config, &mut store, "b".to_string(), 2)
        .unwrap();
    assert_eq!(service.activate(first, Ok(())).unwrap(), "a");
    assert!(matches!(service.activate(second, Ok(())), Err(AppError::RecordingAlreadyRunning)));
    assert_eq!(service.stop().unwrap().conversation_id, "a");
}

#[test]
fn start_hands_on_a_store_refusal() {
    let config = AppConfig::default();
    let mut store = ConversationStore::new();
    store.create_conversation_at("taken".to_string(), None, 1).unwrap();
    let mut service = TranscriptionService::new();
    let refused = service.start_at(
        RecordingContext::default(),
        &config,
        &mut store,
        "taken".to_string(),
        2,
    );
    assert!(matches!(refused, Err(AppError::Database(_))));
    assert!(!service.is_recording());
    assert_eq!(store.conversation_count(), 1);
}

#[test]
fn effective_config_overlays_overrides() {
    let mut base = AppConfig::default();
    base.recognition_engine = "openai".to_string();
    base.transcribe_language = "auto".to_string();
    base.openai_api_key = "k".to_string();
    let mut overriding = session(RecordingMode::Default, false);
    overriding.override_recognition_engine = Some("qwen".to_string());
    overriding.override_transcribe_language = Some("ja".to_string());
    let config = effective_config(&base, &overriding);
    assert_eq!(config.recognition_engine, "qwen");
    assert_eq!(config.transcribe_language, "ja");
    assert_eq!(config.openai_api_key, "k");
    assert_eq!(config.translate_language, "Chinese");

    let plain = effective_config(&base, &session(RecordingMode::Default, false));
    assert_eq!(plain.recognition_engine, "openai");
    assert_eq!(plain.transcribe_language, "auto");
}

#[test]
fn recognition_without_translation_in_default_mode() {
    let mut store = store_with_conversation();
    let step = record_transcription_at(
        &mut store,
        &session(RecordingMode::Default, false),
        &output("hello there"),
        "entry-1".to_string(),
        250,
    )
    .unwrap();
    assert_eq!(step.entry.id, "entry-1");
    assert_eq!(step.entry.kind, EntryKind::Transcription);
    assert_eq!(step.entry.text, "hello there");
    assert_eq!(step.entry.language.as_deref(), Some("en"));
    assert_eq!(step.entry.translated_text, None);
    assert_eq!(step.entry.created_at, 250);
    assert!(step.translation.is_none());
    assert_eq!(step.events.len(), 1);
    match &step.events[0] {
        ServiceEvent::Segment {
            conversation_id,
            segment_id,
            entry_id,
            text,
            language,
            confidence,
            duration_ms,
            mode,
        } => {
            assert_eq!(conversation_id, "conv");
            assert_eq!(segment_id, "seg-1");
            assert_eq!(entry_id, "entry-1");
            assert_eq!(text, "hello there");
            assert_eq!(language.as_deref(), Some("en"));
            assert_eq!(confidence.map(f32::from_bits), Some(0.75));
            assert_eq!(*duration_ms, 640);
            assert_eq!(*mode, RecordingMode::Default);
        }
        other => panic!("unexpected {other:?}"),
    }
    assert_eq!(store.entries_for_conversation("conv", None).len(), 1);
    assert_eq!(store.conversation("conv").unwrap().updated_at, 250);
}

#[test]
fn recognition_in_voice_input_mode_tells_the_text() {
    let mut store = store_with_conversation();
    let step = record_transcription_at(
        &mut store,
        &session(RecordingMode::VoiceInput, false),
        &output("dictated"),
        "entry-1".to_string(),
        250,
    )
    .unwrap();
    assert!(step.translation.is_none());
    assert_eq!(step.events.len(), 2);
    assert!(matches!(&step.events[0], ServiceEvent::Segment { mode: RecordingMode::VoiceInput, .. }));
    match &step.events[1] {
        ServiceEvent::VoiceInput {
            conversation_id,
            segment_id,
            transcription,
            translation,
            language,
        } => {
            assert_eq!(conversation_id, "conv");
            assert_eq!(segment_id, "seg-1");
            assert_eq!(transcription, "dictated");
            assert_eq!(*translation, None);
            assert_eq!(language.as_deref(), Some("en"));
        }
        other => panic!("unexpected {other:?}"),
    }
}

#[test]
fn recognition_with_translation_asks_for_it() {
    for mode in [RecordingMode::Default, RecordingMode::VoiceInput] {
        let mut store = store_with_conversation();
        let step = record_transcription_at(
            &mut store,
            &session(mode, true),
            &output("good morning"),
            "entry-1".to_string(),
            250,
        )
        .unwrap();
        // The voice input event waits for the translation.
        assert_eq!(step.events.len(), 1);
        assert!(matches!(&step.events[0], ServiceEvent::Segment { .. }));
        let request = step.translation.expect("translation requested");
        assert_eq!(request.segment_id, "seg-1");
        assert_eq!(request.text, "good morning");
        assert_eq!(request.target_language, "French");
        assert_eq!(request.context, mode.as_str());
    }
}

#[test]
fn translation_is_stored_and_told() {
    let mut store = store_with_conversation();
    let told = output("good morning");
    let translating = session(RecordingMode::Default, true);
    let asked = record_transcription_at(&mut store, &translating, &told, "entry-1".to_string(), 250)
        .unwrap()
        .translation
        .expect("translation requested");
    let step =
        record_translation_at(&mut store, &translating, &asked, "bonjour", "entry-2".to_string(), 300)
            .unwrap();
    assert_eq!(step.entry.id, "entry-2");
    assert_eq!(step.entry.kind, EntryKind::Translation);
    assert_eq!(step.entry.text, "good morning");
    assert_eq!(step.entry.translated_text.as_deref(), Some("bonjour"));
    assert_eq!(step.entry.language.as_deref(), Some("French"));
    assert_eq!(step.entry.created_at, 300);
    assert_eq!(step.events.len(), 1);
    match &step.events[0] {
        ServiceEvent::Translation {
            conversation_id,
            segment_id,
            entry_id,
            translation,
            target_language,
            mode,
        } => {
            assert_eq!(conversation_id, "conv");
            assert_eq!(segment_id, "seg-1");
            assert_eq!(entry_id, "entry-2");
            assert_eq!(translation, "bonjour");
            assert_eq!(target_language, "French");
            assert_eq!(*mode, RecordingMode::Default);
        }
        other => panic!("unexpected {other:?}"),
    }
    let held = store.entries_for_conversation("conv", None);
    assert_eq!(held.len(), 2);
    assert_eq!(held[0].kind, EntryKind::Transcription);
    assert_eq!(held[1].kind, EntryKind::Translation);
    assert_eq!(store.conversation("conv").unwrap().updated_at, 300);
}

#[test]
fn translation_in_voice_input_mode_tells_both_texts() {
    let mut store = store_with_conversation();
    let step = record_translation_at(
        &mut store,
        &session(RecordingMode::VoiceInput, true),
        &request("good morning"),
        "bonjour",
        "entry-2".to_string(),
        300,
    )
    .unwrap();
    assert_eq!(step.events.len(), 2);
    assert!(matches!(&step.events[0], ServiceEvent::Translation { mode: RecordingMode::VoiceInput, .. }));
    match &step.events[1] {
        ServiceEvent::VoiceInput {
            conversation_id,
            segment_id,
            transcription,
            translation,
            language,
        } => {
            assert_eq!(conversation_id, "conv");
            assert_eq!(segment_id, "seg-1");
            assert_eq!(transcription, "good morning");
            assert_eq!(translation.as_deref(), Some("bonjour"));
            assert_eq!(language.as_deref(), Some("French"));
        }
        other => panic!("unexpected {other:?}"),
    }
}

#[test]
fn failed_translation_keeps_the_transcription() {
    let mut store = store_with_conversation();
    let told = output("good morning");
    let translating = session(RecordingMode::Default, true);
    let asked = record_transcription_at(&mut store, &translating, &told, "entry-1".to_string(), 250)
        .unwrap()
        .translation
        .expect("translation requested");
    // The provider failed: nothing more is recorded. A refused translation
    // entry changes nothing either.
    let refused =
        record_translation_at(&mut store, &translating, &asked, "bonjour", "entry-1".to_string(), 300);
    assert!(matches!(refused, Err(AppError::Database(_))));
    let held = store.entries_for_conversation("conv", None);
    assert_eq!(held.len(), 1);
    assert_eq!(held[0].kind, EntryKind::Transcription);
    assert_eq!(held[0].text, "good morning");
    assert_eq!(store.conversation("conv").unwrap().updated_at, 250);
}

#[test]
fn pipelines_of_a_deleted_conversation_fail_alone() {
    let mut store = store_with_conversation();
    store.create_conversation_at("other".to_string(), None, 5).unwrap();
    store.delete_conversation("conv");
    let lost = record_transcription(&mut store, &session(RecordingMode::Default, true), &output("x"));
    assert!(matches!(lost, Err(AppError::Database(_))));
    let lost =
        record_translation(&mut store, &session(RecordingMode::Default, true), &request("x"), "y");
    assert!(matches!(lost, Err(AppError::Database(_))));
    assert_eq!(store.entry_count(), 0);
    assert!(store.contains_conversation("other"));
}

#[test]
fn segments_are_recorded_in_order_of_completion() {
    // A was captured first, B second; B's recognition resolves first.
    let mut store = store_with_conversation();
    let recording = session(RecordingMode::Default, false);
    let mut a = output("first captured");
    a.segment_id = "seg-a".to_string();
    let mut b = output("second captured");
    b.segment_id = "seg-b".to_string();
    let step_b = record_transcription(&mut store, &recording, &b).unwrap();
    let step_a = record_transcription(&mut store, &recording, &a).unwrap();
    assert_eq!(step_a.entry.id.len(), 36);
    assert_ne!(step_a.entry.id, step_b.entry.id);
    let held = store.entries_for_conversation("conv", None);
    assert_eq!(held.len(), 2);
    assert!(held[0].created_at <= held[1].created_at);
    if step_b.entry.created_at <= step_a.entry.created_at {
        assert_eq!(held[0].text, "second captured");
        assert_eq!(held[1].text, "first captured");
    }
}

#[test]
fn transcript_joins_transcriptions_only() {
    let mut store = store_with_conversation();
    store.append_entry_at("1".into(), NewEntry::transcription("conv", "one", None), 1).unwrap();
    store.append_entry_at("2".into(), NewEntry::translation("conv", "one", "un", "French"), 2).unwrap();
    store.append_entry_at("3".into(), NewEntry::transcription("conv", "two", None), 3).unwrap();
    store.append_entry_at("4".into(), NewEntry::summary("conv", "old summary", "en"), 4).unwrap();
    let entries = store.entries_for_conversation("conv", None);
    assert_eq!(transcript(&entries), "one\ntwo\n");
    assert_eq!(transcript(&Vec::new()), "");
}

#[test]
fn summary_is_requested_for_default_sessions_with_text() {
    let mut config = AppConfig::default();
    config.translate_language = "German".to_string();
    let mut store = store_with_conversation();

    // Nothing was said.
    assert!(summary_request(&session(RecordingMode::Default, true), &config, &store).is_none());

    store.append_entry_at("1".into(), NewEntry::transcription("conv", "   ", None), 1).unwrap();
    store.append_entry_at("2".into(), NewEntry::translation("conv", "a", "b", "French"), 2).unwrap();
    // Only whitespace was said.
    assert!(summary_request(&session(RecordingMode::Default, true), &config, &store).is_none());

    store.append_entry_at("3".into(), NewEntry::transcription("conv", "we agreed", None), 3).unwrap();
    let request =
        summary_request(&session(RecordingMode::Default, true), &config, &store).expect("summary");
    assert_eq!(request.conversation_id, "conv");
    assert_eq!(request.transcript, "   \nwe agreed\n");
    assert_eq!(request.language, "German");

    // Voice input is never summarised.
    assert!(summary_request(&session(RecordingMode::VoiceInput, true), &config, &store).is_none());
}

#[test]
fn summary_is_stored_and_told() {
    let mut config = AppConfig::default();
    config.translate_language = "German".to_string();
    let mut store = store_with_conversation();
    store.append_entry_at("1".into(), NewEntry::transcription("conv", "we agreed", None), 1).unwrap();
    let request = summary_request(&session(RecordingMode::Default, false), &config, &store).unwrap();
    let step = record_summary_at(&mut store, &request, "Agreement.", "s-1".to_string(), 777).unwrap();
    assert_eq!(step.entry.id, "s-1");
    assert_eq!(step.entry.kind, EntryKind::Summary);
    assert_eq!(step.entry.created_at, 777);
    match step.event {
        ServiceEvent::Summary { conversation_id, summary } => {
            assert_eq!(conversation_id, "conv");
            assert_eq!(summary, "Agreement.");
        }
        other => panic!("unexpected {other:?}"),
    }
    let held = store.entries_for_conversation("conv", None);
    assert_eq!(held.len(), 2);
    assert_eq!(held[1].id, "s-1");
    assert_eq!(held[1].kind, EntryKind::Summary);
    assert_eq!(held[1].text, "Agreement.");
    assert_eq!(held[1].language.as_deref(), Some("German"));
    assert_eq!(held[1].translated_text, None);
    assert_eq!(held[1].created_at, 777);
    assert_eq!(store.conversation("conv").unwrap().updated_at, 777);

    let again = record_summary(&mut store, &request, "Once more.").unwrap();
    assert!(matches!(again.event, ServiceEvent::Summary { .. }));
    assert_eq!(again.entry.id.len(), 36);
    assert_eq!(again.entry.text, "Once more.");
    assert_eq!(store.entries_for_conversation("conv", None).len(), 3);

    store.delete_conversation("conv");
    assert!(matches!(
        record_summary(&mut store, &request, "Too late."),
        Err(AppError::Database(_))
    ));
}

#[test]
fn media_job_cuts_the_recording() {
    let mut config = AppConfig::default();
    config.translate_language = "Chinese".to_string();
    let mut store = ConversationStore::new();
    let mut samples = vec![0.5f32.to_bits(); 9_600];
    samples.extend(vec![0.0001f32.to_bits(); 19_200]);
    samples.extend(vec![0.5f32.to_bits(); 9_600]);

    let job = plan_media_job(&samples, 16_000, true, Some("Korean".to_string()), &config, &mut store)
        .unwrap();
    assert_eq!(job.conversation.title, "Media Transcription");
    assert_eq!(job.session.conversation_id, job.conversation.id);
    assert_eq!(job.session.mode, RecordingMode::Default);
    assert!(job.session.translate);
    assert_eq!(job.session.translate_language, "Korean");
    assert_eq!(job.session.override_recognition_engine, None);
    assert_eq!(job.session.override_transcribe_language, None);
    assert_eq!(job.segments.len(), 2);
    assert_eq!(job.total, 2);
    assert_eq!(job.segments[0].samples.len(), 9_600);
    assert_eq!(job.segments[1].samples.len(), 3_200 + 9_600);
    assert!(store.contains_conversation(&job.conversation.id));

    match media_progress(&job, 0) {
        ServiceEvent::MediaProgress { conversation_id, current, total } => {
            assert_eq!(conversation_id, job.conversation.id);
            assert_eq!(current, 1);
            assert_eq!(total, 2);
        }
        other => panic!("unexpected {other:?}"),
    }
    assert!(matches!(media_progress(&job, 1), ServiceEvent::MediaProgress { current: 2, total: 2, .. }));
    match media_complete(&job) {
        ServiceEvent::MediaComplete { conversation_id } => {
            assert_eq!(conversation_id, job.conversation.id)
        }
        other => panic!("unexpected {other:?}"),
    }
}

#[test]
fn media_job_uses_the_configured_language_and_counts_at_least_one() {
    let mut config = AppConfig::default();
    config.translate_language = "Italian".to_string();
    let mut store = ConversationStore::new();
    let job =
        plan_media_job(&vec![0u32; 4_000], 16_000, false, None, &config, &mut store).unwrap();
    assert!(!job.session.translate);
    assert_eq!(job.session.translate_language, "Italian");
    assert!(job.segments.is_empty());
    assert_eq!(job.total, 1);
    assert!(matches!(media_progress(&job, 0), ServiceEvent::MediaProgress { current: 1, total: 1, .. }));
}

#[test]
fn media_job_refuses_an_empty_recording() {
    let config = AppConfig::default();
    let mut store = ConversationStore::new();
    match plan_media_job(&[], 16_000, true, None, &config, &mut store) {
        Err(AppError::Other(why)) => assert_eq!(why, "Media file contains no audio"),
        other => panic!("unexpected {other:?}"),
    }
    assert_eq!(store.conversation_count(), 0);
}

#[test]
fn failed_recognition_ends_the_pipeline() {
    let mut store = store_with_conversation();
    let recording = session(RecordingMode::VoiceInput, true);
    let failed = after_recognition(
        &mut store,
        &recording,
        Err(AppError::RecognitionEngineMissing("soniox".to_string())),
    );
    match failed {
        Err(AppError::RecognitionEngineMissing(engine)) => assert_eq!(engine, "soniox"),
        other => panic!("unexpected {other:?}"),
    }
    let failed = after_recognition(&mut store, &recording, Err(AppError::Http("502".to_string())));
    assert!(matches!(failed, Err(AppError::Http(_))));
    assert_eq!(store.entry_count(), 0);
    assert_eq!(store.conversation("conv").unwrap().updated_at, 100);

    // The next segment is not affected.
    let step = after_recognition(&mut store, &recording, Ok(output("still here"))).unwrap();
    assert_eq!(step.entry.text, "still here");
    assert_eq!(step.events.len(), 1);
    assert!(step.translation.is_some());
    assert_eq!(store.entry_count(), 1);
}

#[test]
fn failed_translation_leaves_the_transcription() {
    let mut store = store_with_conversation();
    let recording = session(RecordingMode::Default, true);
    let step = after_recognition(&mut store, &recording, Ok(output("good morning"))).unwrap();
    let asked = step.translation.expect("translation requested");
    let failed = after_translation(
        &mut store,
        &recording,
        &asked,
        Err(AppError::TranslationEngineMissing("gemini".to_string())),
    );
    match failed {
        Err(AppError::TranslationEngineMissing(engine)) => assert_eq!(engine, "gemini"),
        other => panic!("unexpected {other:?}"),
    }
    let held = store.entries_for_conversation("conv", None);
    assert_eq!(held.len(), 1);
    assert_eq!(held[0].id, step.entry.id);
    assert_eq!(held[0].kind, EntryKind::Transcription);

    let done = after_translation(&mut store, &recording, &asked, Ok("bonjour".to_string())).unwrap();
    assert_eq!(done.entry.translated_text.as_deref(), Some("bonjour"));
    assert_eq!(done.entry.text, "good morning");
    assert_eq!(done.events.len(), 1);
    assert_eq!(store.entries_for_conversation("conv", None).len(), 2);
}

#[test]
fn failed_summary_stores_nothing() {
    let config = AppConfig::default();
    let mut store = store_with_conversation();
    store.append_entry_at("1".into(), NewEntry::transcription("conv", "we agreed", None), 1).unwrap();
    let request = summary_request(&session(RecordingMode::Default, false), &config, &store).unwrap();
    let failed = after_summary(
        &mut store,
        &request,
        Err(AppError::SummaryEngineMissing("openai".to_string())),
    );
    match failed {
        Err(AppError::SummaryEngineMissing(engine)) => assert_eq!(engine, "openai"),
        other => panic!("unexpected {other:?}"),
    }
    assert_eq!(store.entry_count(), 1);
    let step = after_summary(&mut store, &request, Ok("Agreement.".to_string())).unwrap();
    assert_eq!(step.entry.kind, EntryKind::Summary);
    assert_eq!(step.entry.text, "Agreement.");
    assert_eq!(step.entry.language.as_deref(), Some("Chinese"));
    assert!(matches!(step.event, ServiceEvent::Summary { .. }));
    assert_eq!(store.entry_count(), 2);
}

#[test]
fn recorder_settings_make_the_segmenter() {
    let recorder = RecorderConfig {
        silence_threshold: 0.02f32.to_bits(),
        min_silence_ms: 50,
        max_segment_ms: 500,
        preferred_sample_rate: Some(8_000),
    };
    let rule = recorder.segmenter(8_000).cut_rule();
    assert_eq!(rule.sample_rate, 8_000);
    assert_eq!(rule.silence_threshold, 0.02f32.to_bits());
    // Both durations are raised to their floors: 100 ms and 1 s.
    assert_eq!(rule.min_silence_samples, 800);
    assert_eq!(rule.max_segment_samples, 8_000);
}
