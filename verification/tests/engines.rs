use voicett::config::AppConfig;
use voicett::engines::{
    gemini_chat, gemini_instructions, language_to_tell, language_unless_auto, openai_chat,
    openai_url, plan_optimization, plan_summary, plan_transcription, plan_translation, ChatPlan,
    LanguageEngine, RecognitionEngine, TranscriptionPlan,
};
use voicett::error::AppError;

fn config() -> AppConfig {
    let mut config = AppConfig::default();
    config.openai_api_key = " sk-open ".to_string();
    config.gemini_api_key = "g-key".to_string();
    config.soniox_api_key = "s-key\n".to_string();
    config.dashscope_api_key = "d-key".to_string();
    config
}

#[test]
fn recognition_engine_selection_ignores_case_and_space() {
    assert_eq!(RecognitionEngine::select("soniox"), RecognitionEngine::Soniox);
    assert_eq!(RecognitionEngine::select("  SoNioX\t"), RecognitionEngine::Soniox);
    assert_eq!(RecognitionEngine::select("qwen"), RecognitionEngine::Qwen);
    assert_eq!(RecognitionEngine::select(" DashScope "), RecognitionEngine::Qwen);
    assert_eq!(RecognitionEngine::select("openai"), RecognitionEngine::OpenAi);
    assert_eq!(RecognitionEngine::select(""), RecognitionEngine::OpenAi);
    assert_eq!(RecognitionEngine::select("whisper"), RecognitionEngine::OpenAi);
    assert_eq!(RecognitionEngine::select("son iox"), RecognitionEngine::OpenAi);
    assert_eq!(RecognitionEngine::from_normalized("soniox"), RecognitionEngine::Soniox);
    assert_eq!(RecognitionEngine::from_normalized("Soniox"), RecognitionEngine::OpenAi);
    assert_eq!(RecognitionEngine::from_normalized(" qwen"), RecognitionEngine::OpenAi);
}

#[test]
fn language_engine_selection_ignores_case_and_space() {
    assert_eq!(LanguageEngine::select("gemini"), LanguageEngine::Gemini);
    assert_eq!(LanguageEngine::select(" GEMINI "), LanguageEngine::Gemini);
    assert_eq!(LanguageEngine::select("openai"), LanguageEngine::OpenAi);
    assert_eq!(LanguageEngine::select(""), LanguageEngine::OpenAi);
    assert_eq!(LanguageEngine::select("mistral"), LanguageEngine::OpenAi);
    assert_eq!(LanguageEngine::from_normalized("Gemini"), LanguageEngine::OpenAi);
}

#[test]
fn spoken_language_is_told_unless_auto() {
    assert_eq!(language_to_tell(&"auto".to_string()), None);
    assert_eq!(language_to_tell(&" AUTO ".to_string()), None);
    assert_eq!(language_to_tell(&"en".to_string()).as_deref(), Some("en"));
    assert_eq!(language_to_tell(&" De ".to_string()).as_deref(), Some(" De "));
    assert_eq!(language_to_tell(&"".to_string()).as_deref(), Some(""));
}

#[test]
fn transcription_by_openai() {
    let mut config = config();
    config.recognition_engine = " OpenAI ".to_string();
    config.transcribe_language = "en".to_string();
    match plan_transcription(&config).unwrap() {
        TranscriptionPlan::OpenAi { url, api_key, model, language } => {
            assert_eq!(url, "https://api.openai.com/v1/audio/transcriptions");
            assert_eq!(api_key, "sk-open");
            assert_eq!(model, "gpt-4o-transcribe");
            assert_eq!(language.as_deref(), Some("en"));
        }
        other => panic!("unexpected {other:?}"),
    }
    config.openai_base_url = "https://proxy.example/api///".to_string();
    config.transcribe_language = "Auto".to_string();
    match plan_transcription(&config).unwrap() {
        TranscriptionPlan::OpenAi { url, language, .. } => {
            assert_eq!(url, "https://proxy.example/api/v1/audio/transcriptions");
            assert_eq!(language, None);
        }
        other => panic!("unexpected {other:?}"),
    }
    config.openai_base_url = "   ".to_string();
    match plan_transcription(&config).unwrap() {
        TranscriptionPlan::OpenAi { url, .. } => {
            assert_eq!(url, "https://api.openai.com/v1/audio/transcriptions")
        }
        other => panic!("unexpected {other:?}"),
    }
}

#[test]
fn transcription_by_soniox_and_qwen() {
    let mut config = config();
    config.recognition_engine = "Soniox".to_string();
    config.theater_mode = true;
    match plan_transcription(&config).unwrap() {
        TranscriptionPlan::Soniox { url, api_key, language, speed_boost } => {
            assert_eq!(url, "https://api.soniox.com/v1/audio:transcribe");
            assert_eq!(api_key, "s-key");
            assert_eq!(language, None);
            assert!(speed_boost);
        }
        other => panic!("unexpected {other:?}"),
    }
    config.recognition_engine = "dashscope".to_string();
    config.transcribe_language = "zh".to_string();
    match plan_transcription(&config).unwrap() {
        TranscriptionPlan::Qwen { url, api_key, model, language } => {
            assert_eq!(
                url,
                "https://dashscope.aliyuncs.com/api/v1/services/speech_recognition/recognize"
            );
            assert_eq!(api_key, "d-key");
            assert_eq!(model, "qwen3-asr-flash");
            assert_eq!(language.as_deref(), Some("zh"));
        }
        other => panic!("unexpected {other:?}"),
    }
}

#[test]
fn transcription_without_credential_names_the_engine() {
    for (engine, name) in
        [("openai", "openai"), ("unknown", "openai"), ("soniox", "soniox"), ("qwen", "dashscope")]
    {
        let mut config = AppConfig::default();
        config.recognition_engine = engine.to_string();
        config.openai_api_key = "  ".to_string();
        match plan_transcription(&config) {
            Err(AppError::RecognitionEngineMissing(missing)) => assert_eq!(missing, name),
            other => panic!("unexpected {other:?}"),
        }
    }
    // Only the key of the selected engine counts.
    let mut config = AppConfig::default();
    config.recognition_engine = "soniox".to_string();
    config.soniox_api_key = "k".to_string();
    assert!(plan_transcription(&config).is_ok());
}

#[test]
fn translation_by_openai() {
    let mut config = config();
    config.openai_base_url = " https://proxy.example/ ".to_string();
    match plan_translation(&config, "French", Some("default")).unwrap() {
        ChatPlan::OpenAi { url, api_key, model, system_prompt } => {
            assert_eq!(url, "https://proxy.example/v1/chat/completions");
            assert_eq!(api_key, "sk-open");
            assert_eq!(model, "gpt-4o-mini");
            assert_eq!(
                system_prompt.as_deref(),
                Some(
                    "You are a professional translator. Translate the user message into French. Respond with translation only."
                )
            );
        }
        other => panic!("unexpected {other:?}"),
    }
    config.openai_base_url = String::new();
    match plan_translation(&config, "French", None).unwrap() {
        ChatPlan::OpenAi { url, .. } => assert_eq!(url, "https://api.openai.com/v1/chat/completions"),
        other => panic!("unexpected {other:?}"),
    }
}

#[test]
fn translation_by_gemini() {
    let mut config = config();
    config.translation_engine = "Gemini".to_string();
    config.gemini_translate_system_prompt = "  Translate well. \n".to_string();
    match plan_translation(&config, "French", Some("manual")).unwrap() {
        ChatPlan::Gemini { url, instructions } => {
            assert_eq!(
                url,
                "https://generativelanguage.googleapis.com/v1beta/models/gemini-2.0-flash:generateContent?key=g-key"
            );
            assert_eq!(
                instructions,
                vec!["Translate well.", "Respond in French.", "Context: manual"]
            );
        }
        other => panic!("unexpected {other:?}"),
    }
    config.gemini_translate_system_prompt = "   ".to_string();
    match plan_translation(&config, "French", None).unwrap() {
        ChatPlan::Gemini { instructions, .. } => {
            assert_eq!(instructions, vec!["Respond in French."])
        }
        other => panic!("unexpected {other:?}"),
    }
}

#[test]
fn gemini_instruction_parts() {
    assert_eq!(gemini_instructions("", None, None), Vec::<String>::new());
    assert_eq!(gemini_instructions("p", None, None), vec!["p"]);
    assert_eq!(gemini_instructions("", Some("Thai"), None), vec!["Respond in Thai."]);
    assert_eq!(gemini_instructions("", None, Some("c")), vec!["Context: c"]);
    assert_eq!(
        gemini_instructions("p", Some("Thai"), Some("c")),
        vec!["p", "Respond in Thai.", "Context: c"]
    );
}

#[test]
fn translation_without_credential_names_the_engine() {
    let mut config = AppConfig::default();
    match plan_translation(&config, "French", None) {
        Err(AppError::TranslationEngineMissing(missing)) => assert_eq!(missing, "openai"),
        other => panic!("unexpected {other:?}"),
    }
    config.translation_engine = "gemini".to_string();
    config.openai_api_key = "k".to_string();
    config.gemini_api_key = " \t".to_string();
    match plan_translation(&config, "French", None) {
        Err(AppError::TranslationEngineMissing(missing)) => assert_eq!(missing, "gemini"),
        other => panic!("unexpected {other:?}"),
    }
}

#[test]
fn summary_puts_the_language_into_the_instruction() {
    let mut config = config();
    config.summary_system_prompt =
        "Summarise in {{TARGET_LANGUAGE}}; yes, {{TARGET_LANGUAGE}}.".to_string();
    match plan_summary(&config, "Dutch").unwrap() {
        ChatPlan::OpenAi { url, model, system_prompt, .. } => {
            assert_eq!(url, "https://api.openai.com/v1/chat/completions");
            assert_eq!(model, "gpt-4o-mini");
            assert_eq!(system_prompt.as_deref(), Some("Summarise in Dutch; yes, Dutch."));
        }
        other => panic!("unexpected {other:?}"),
    }
    config.summary_engine = "gemini".to_string();
    config.summary_system_prompt = "  In {{TARGET_LANGUAGE}}  ".to_string();
    match plan_summary(&config, "Dutch").unwrap() {
        ChatPlan::Gemini { url, instructions } => {
            assert!(url.ends_with("/models/gemini-2.0-flash:generateContent?key=g-key"));
            assert_eq!(instructions, vec!["In Dutch"]);
        }
        other => panic!("unexpected {other:?}"),
    }
    config.summary_system_prompt = String::new();
    match plan_summary(&config, "Dutch").unwrap() {
        ChatPlan::Gemini { instructions, .. } => assert!(instructions.is_empty()),
        other => panic!("unexpected {other:?}"),
    }
    config.summary_engine = "openai".to_string();
    match plan_summary(&config, "Dutch").unwrap() {
        ChatPlan::OpenAi { system_prompt, .. } => assert_eq!(system_prompt.as_deref(), Some("")),
        other => panic!("unexpected {other:?}"),
    }
}

#[test]
fn summary_without_credential_names_the_engine() {
    let mut config = AppConfig::default();
    match plan_summary(&config, "Dutch") {
        Err(AppError::SummaryEngineMissing(missing)) => assert_eq!(missing, "openai"),
        other => panic!("unexpected {other:?}"),
    }
    config.summary_engine = " GEMINI".to_string();
    match plan_summary(&config, "Dutch") {
        Err(AppError::SummaryEngineMissing(missing)) => assert_eq!(missing, "gemini"),
        other => panic!("unexpected {other:?}"),
    }
}

#[test]
fn optimization_plans() {
    let mut config = config();
    config.optimize_system_prompt = " Polish it. ".to_string();
    match plan_optimization(&config).unwrap() {
        ChatPlan::OpenAi { model, system_prompt, api_key, .. } => {
            assert_eq!(model, "gpt-4o-mini");
            assert_eq!(api_key, "sk-open");
            assert_eq!(system_prompt.as_deref(), Some(" Polish it. "));
        }
        other => panic!("unexpected {other:?}"),
    }
    config.optimize_engine = "gemini".to_string();
    config.gemini_optimize_model = "gemini-pro".to_string();
    match plan_optimization(&config).unwrap() {
        ChatPlan::Gemini { url, instructions } => {
            assert!(url.contains("/models/gemini-pro:generateContent"));
            assert_eq!(instructions, vec!["Polish it."]);
        }
        other => panic!("unexpected {other:?}"),
    }
    config.gemini_api_key = String::new();
    match plan_optimization(&config) {
        Err(AppError::SummaryEngineMissing(missing)) => assert_eq!(missing, "gemini"),
        other => panic!("unexpected {other:?}"),
    }
}

#[test]
fn chat_plans_from_their_parts() {
    let mut config = config();
    config.openai_base_url = "https://proxy.example//".to_string();
    match openai_chat(&config, &"model-a".to_string(), None) {
        ChatPlan::OpenAi { url, api_key, model, system_prompt } => {
            assert_eq!(url, "https://proxy.example/v1/chat/completions");
            assert_eq!(api_key, "sk-open");
            assert_eq!(model, "model-a");
            assert_eq!(system_prompt, None);
        }
        other => panic!("unexpected {other:?}"),
    }
    match gemini_chat(&config, &"model-b".to_string(), "Do it.", Some("Greek"), Some("why")) {
        ChatPlan::Gemini { url, instructions } => {
            assert_eq!(
                url,
                "https://generativelanguage.googleapis.com/v1beta/models/model-b:generateContent?key=g-key"
            );
            assert_eq!(instructions, vec!["Do it.", "Respond in Greek.", "Context: why"]);
        }
        other => panic!("unexpected {other:?}"),
    }
    assert_eq!(openai_url("", "/p"), "https://api.openai.com/p");
    assert_eq!(openai_url("http://h/", "/p"), "http://h/p");
    assert_eq!(openai_url("http://h/ ", "/p"), "http://h/ /p");
    assert_eq!(openai_url("///", "/p"), "/p");
    assert_eq!(language_unless_auto("auto", &"x".to_string()), None);
    assert_eq!(language_unless_auto("Auto", &"x".to_string()).as_deref(), Some("x"));
}
