//! Choice of the provider for each task, and what a call to it needs.
//!
//! Nothing here talks to a provider. A plan names the address, the
//! credential and the parameters of one call; making the call is left to
//! the caller.

use vstd::prelude::*;
use crate::config::AppConfig;
use crate::error::{AppError, AppResult};
use crate::store::{clone_text, str_view, text_view};
use crate::text::{
    blank, enclose, is_blank, join, lowercased, normalized, replace_all, replaced, strip_trailing,
    trim_trailing, trimmed,
};

verus! {

/// Address of the public OpenAI API.
pub const OPENAI_API: &'static str = "https://api.openai.com";

/// Path of the OpenAI recognition call.
pub const OPENAI_TRANSCRIPTIONS: &'static str = "/v1/audio/transcriptions";

/// Path of the OpenAI chat call.
pub const OPENAI_CHAT: &'static str = "/v1/chat/completions";

/// Address of the Soniox recognition call.
pub const SONIOX_TRANSCRIBE: &'static str = "https://api.soniox.com/v1/audio:transcribe";

/// Address of the DashScope recognition call.
pub const DASHSCOPE_RECOGNIZE: &'static str =
    "https://dashscope.aliyuncs.com/api/v1/services/speech_recognition/recognize";

/// Start of the address of a Gemini call; the model follows.
pub const GEMINI_MODELS: &'static str =
    "https://generativelanguage.googleapis.com/v1beta/models/";

/// Middle of the address of a Gemini call, between model and key.
pub const GEMINI_GENERATE: &'static str = ":generateContent?key=";

/// Placeholder for the target language in an instruction.
pub const TARGET_LANGUAGE_MARK: &'static str = "{{TARGET_LANGUAGE}}";

/// What recognition made of one segment.
#[derive(Debug)]
pub struct TranscriptionOutput {
    /// Identifier of the segment.
    pub segment_id: String,
    /// The recognised text.
    pub text: String,
    /// The language that was detected, if the provider tells.
    pub language: Option<String>,
    /// The provider's confidence, as a binary32 pattern, if it tells.
    pub confidence: Option<u32>,
    /// Duration of the segment in milliseconds.
    pub duration_ms: u64,
}

impl Clone for TranscriptionOutput {
    fn clone(&self) -> (copy: Self)
        ensures
            copy == *self,
    {
        TranscriptionOutput {
            segment_id: self.segment_id.clone(),
            text: self.text.clone(),
            language: clone_text(&self.language),
            confidence: self.confidence,
            duration_ms: self.duration_ms,
        }
    }
}

/// The providers of speech recognition.
#[derive(Clone, Copy, Debug, PartialEq, Eq, Structural)]
pub enum RecognitionEngine {
    OpenAi,
    Soniox,
    Qwen,
}

impl RecognitionEngine {
    /// The engine that a trimmed, lower-case name stands for; any name but
    /// `soniox`, `qwen` and `dashscope` stands for OpenAI.
    pub open spec fn named(name: Seq<char>) -> RecognitionEngine {
        if name == "soniox"@ {
            RecognitionEngine::Soniox
        } else if name == "qwen"@ || name == "dashscope"@ {
            RecognitionEngine::Qwen
        } else {
            RecognitionEngine::OpenAi
        }
    }

    /// The engine that a setting selects, whatever its case and the
    /// whitespace around it.
    pub open spec fn selected(configured: Seq<char>) -> RecognitionEngine {
        RecognitionEngine::named(lowercased(trimmed(configured)))
    }

    /// The name under which a missing credential is reported.
    pub open spec fn credential(self) -> Seq<char> {
        match self {
            RecognitionEngine::OpenAi => "openai"@,
            RecognitionEngine::Soniox => "soniox"@,
            RecognitionEngine::Qwen => "dashscope"@,
        }
    }

    /// The engine that a trimmed, lower-case name stands for.
    pub fn from_normalized(name: &str) -> (engine: RecognitionEngine)
        ensures
            engine == RecognitionEngine::named(name@),
    {
        if *name == *"soniox" {
            RecognitionEngine::Soniox
        } else if *name == *"qwen" || *name == *"dashscope" {
            RecognitionEngine::Qwen
        } else {
            RecognitionEngine::OpenAi
        }
    }

    /// The engine that a setting selects.
    pub fn select(configured: &str) -> (engine: RecognitionEngine)
        ensures
            engine == RecognitionEngine::selected(configured@),
    {
        let name = normalized(configured);
        RecognitionEngine::from_normalized(name.as_str())
    }
}

/// The providers of translation, summaries and rewriting.
#[derive(Clone, Copy, Debug, PartialEq, Eq, Structural)]
pub enum LanguageEngine {
    OpenAi,
    Gemini,
}

impl LanguageEngine {
    /// The engine that a trimmed, lower-case name stands for; any name but
    /// `gemini` stands for OpenAI.
    pub open spec fn named(name: Seq<char>) -> LanguageEngine {
        if name == "gemini"@ {
            LanguageEngine::Gemini
        } else {
            LanguageEngine::OpenAi
        }
    }

    /// The engine that a setting selects, whatever its case and the
    /// whitespace around it.
    pub open spec fn selected(configured: Seq<char>) -> LanguageEngine {
        LanguageEngine::named(lowercased(trimmed(configured)))
    }

    /// The name under which a missing credential is reported.
    pub open spec fn credential(self) -> Seq<char> {
        match self {
            LanguageEngine::OpenAi => "openai"@,
            LanguageEngine::Gemini => "gemini"@,
        }
    }

    /// The engine that a trimmed, lower-case name stands for.
    pub fn from_normalized(name: &str) -> (engine: LanguageEngine)
        ensures
            engine == LanguageEngine::named(name@),
    {
        if *name == *"gemini" {
            LanguageEngine::Gemini
        } else {
            LanguageEngine::OpenAi
        }
    }

    /// The engine that a setting selects.
    pub fn select(configured: &str) -> (engine: LanguageEngine)
        ensures
            engine == LanguageEngine::selected(configured@),
    {
        let name = normalized(configured);
        LanguageEngine::from_normalized(name.as_str())
    }
}

/// The language to tell a recognition provider: the configured one, unless
/// that is `auto` in any case and with any whitespace around it.
pub open spec fn spoken_language(configured: Seq<char>) -> Option<Seq<char>> {
    if lowercased(trimmed(configured)) == "auto"@ {
        None
    } else {
        Some(configured)
    }
}

/// The address of an OpenAI call for a configured base address: the public
/// API where the base is blank, else the base without trailing slashes; the
/// path follows.
pub open spec fn openai_address(base_url: Seq<char>, path: Seq<char>) -> Seq<char> {
    if is_blank(base_url) {
        OPENAI_API@ + path
    } else {
        strip_trailing(base_url, '/') + path
    }
}

/// The address of a Gemini call.
pub open spec fn gemini_address(model: Seq<char>, api_key: Seq<char>) -> Seq<char> {
    GEMINI_MODELS@ + model + GEMINI_GENERATE@ + api_key
}

/// The instruction that makes an OpenAI model translate into `target`.
pub open spec fn translator_prompt(target: Seq<char>) -> Seq<char> {
    "You are a professional translator. Translate the user message into "@ + target
        + ". Respond with translation only."@
}

/// The parts of the instruction of a Gemini call: the configured
/// instruction unless it is empty, then the language to answer in, then the
/// context, each only if there is one.
pub open spec fn gemini_parts(
    prompt: Seq<char>,
    target: Option<Seq<char>>,
    context: Option<Seq<char>>,
) -> Seq<Seq<char>> {
    let first = if prompt.len() > 0 {
        seq![prompt]
    } else {
        Seq::<Seq<char>>::empty()
    };
    let second = match target {
        Some(language) => first.push("Respond in "@ + language + "."@),
        None => first,
    };
    match context {
        Some(about) => second.push("Context: "@ + about),
        None => second,
    }
}

/// The views of `texts`, in order.
pub open spec fn text_views(texts: Seq<String>) -> Seq<Seq<char>> {
    Seq::new(texts.len(), |i: int| texts[i]@)
}

/// What a recognition call needs.
#[derive(Debug)]
pub enum TranscriptionPlan {
    /// A multipart upload to OpenAI.
    OpenAi { url: String, api_key: String, model: String, language: Option<String> },
    /// A JSON request to Soniox.
    Soniox { url: String, api_key: String, language: Option<String>, speed_boost: bool },
    /// A JSON request to DashScope.
    Qwen { url: String, api_key: String, model: String, language: Option<String> },
}

/// What a call to a language model needs.
#[derive(Debug)]
pub enum ChatPlan {
    /// A chat completion by OpenAI, with one system message if there is an
    /// instruction.
    OpenAi { url: String, api_key: String, model: String, system_prompt: Option<String> },
    /// A content generation by Gemini, with the parts of its instruction.
    Gemini { url: String, instructions: Vec<String> },
}

impl TranscriptionPlan {
    /// Whether the plan is the one that `config` asks for.
    pub open spec fn follows(&self, config: &AppConfig) -> bool {
        let language = spoken_language(config.transcribe_language@);
        match self {
            TranscriptionPlan::OpenAi { url, api_key, model, language: told } => {
                &&& RecognitionEngine::selected(config.recognition_engine@)
                    == RecognitionEngine::OpenAi
                &&& url@ == openai_address(config.openai_base_url@, OPENAI_TRANSCRIPTIONS@)
                &&& api_key@ == trimmed(config.openai_api_key@)
                &&& model@ == config.openai_transcribe_model@
                &&& text_view(*told) == language
            },
            TranscriptionPlan::Soniox { url, api_key, language: told, speed_boost } => {
                &&& RecognitionEngine::selected(config.recognition_engine@)
                    == RecognitionEngine::Soniox
                &&& url@ == SONIOX_TRANSCRIBE@
                &&& api_key@ == trimmed(config.soniox_api_key@)
                &&& text_view(*told) == language
                &&& *speed_boost == config.theater_mode
            },
            TranscriptionPlan::Qwen { url, api_key, model, language: told } => {
                &&& RecognitionEngine::selected(config.recognition_engine@)
                    == RecognitionEngine::Qwen
                &&& url@ == DASHSCOPE_RECOGNIZE@
                &&& api_key@ == trimmed(config.dashscope_api_key@)
                &&& model@ == config.qwen3_asr_model@
                &&& text_view(*told) == language
            },
        }
    }
}

/// The credential that the selected recognition engine needs.
pub open spec fn recognition_key(config: &AppConfig) -> Seq<char> {
    match RecognitionEngine::selected(config.recognition_engine@) {
        RecognitionEngine::OpenAi => config.openai_api_key@,
        RecognitionEngine::Soniox => config.soniox_api_key@,
        RecognitionEngine::Qwen => config.dashscope_api_key@,
    }
}

impl ChatPlan {
    /// Whether the plan calls OpenAI with `model` and `system_prompt`, at
    /// the address and with the key that `config` gives.
    pub open spec fn calls_openai(
        &self,
        config: &AppConfig,
        model: Seq<char>,
        system_prompt: Option<Seq<char>>,
    ) -> bool {
        &&& self matches ChatPlan::OpenAi { url, api_key, model: asked, system_prompt: told }
        &&& url@ == openai_address(trimmed(config.openai_base_url@), OPENAI_CHAT@)
        &&& api_key@ == trimmed(config.openai_api_key@)
        &&& asked@ == model
        &&& text_view(*told) == system_prompt
    }

    /// Whether the plan calls Gemini with `model` and the instruction parts
    /// `parts`, with the key that `config` gives.
    pub open spec fn calls_gemini(
        &self,
        config: &AppConfig,
        model: Seq<char>,
        parts: Seq<Seq<char>>,
    ) -> bool {
        &&& self matches ChatPlan::Gemini { url, instructions }
        &&& url@ == gemini_address(model, config.gemini_api_key@)
        &&& text_views(instructions@) == parts
    }
}

/// The language to tell a recognition provider, given the trimmed,
/// lower-case form of the configured one: none if that form is `auto`.
pub fn language_unless_auto(name: &str, configured: &String) -> (told: Option<String>)
    ensures
        text_view(told) == if name@ == "auto"@ {
            None
        } else {
            Some(configured@)
        },
{
    if *name == *"auto" {
        None
    } else {
        Some(configured.clone())
    }
}

/// The language to tell a recognition provider.
pub fn language_to_tell(configured: &String) -> (told: Option<String>)
    ensures
        text_view(told) == spoken_language(configured@),
{
    let name = normalized(configured.as_str());
    language_unless_auto(name.as_str(), configured)
}

/// Computes [`openai_address`].
pub fn openai_url(base_url: &str, path: &str) -> (url: String)
    ensures
        url@ == openai_address(base_url@, path@),
{
    if blank(base_url) {
        join(OPENAI_API, path)
    } else {
        join(trim_trailing(base_url, '/'), path)
    }
}

/// The parts of the instruction of a Gemini call.
pub fn gemini_instructions(prompt: &str, target: Option<&str>, context: Option<&str>)
    -> (parts: Vec<String>)
    ensures
        text_views(parts@) == gemini_parts(
            prompt@,
            str_view(target),
            str_view(context),
        ),
{
    let mut parts: Vec<String> = Vec::new();
    if !prompt.is_empty() {
        parts.push(prompt.to_string());
        assert(text_views(parts@) =~= seq![prompt@]);
    } else {
        assert(text_views(parts@) =~= Seq::<Seq<char>>::empty());
    }
    let ghost first = text_views(parts@);
    match target {
        Some(language) => {
            let part = enclose("Respond in ", language, ".");
            parts.push(part);
            assert(text_views(parts@) =~= first.push("Respond in "@ + language@ + "."@));
        },
        None => {},
    }
    let ghost second = text_views(parts@);
    match context {
        Some(about) => {
            let part = join("Context: ", about);
            parts.push(part);
            assert(text_views(parts@) =~= second.push("Context: "@ + about@));
        },
        None => {},
    }
    parts
}

/// Plans the recognition call that `config` asks for.
///
/// The engine is the one that `recognition_engine` selects. Planning fails
/// with `RecognitionEngineMissing`, naming the engine, exactly if the key
/// of that engine is blank.
pub fn plan_transcription(config: &AppConfig) -> (plan: AppResult<TranscriptionPlan>)
    ensures
        match plan {
            Ok(p) => !is_blank(recognition_key(config)) && p.follows(config),
            Err(e) => {
                &&& is_blank(recognition_key(config))
                &&& e matches AppError::RecognitionEngineMissing(name)
                &&& name@ == RecognitionEngine::selected(config.recognition_engine@).credential()
            },
        },
{
    match RecognitionEngine::select(config.recognition_engine.as_str()) {
        RecognitionEngine::OpenAi => {
            if blank(config.openai_api_key.as_str()) {
                return Err(AppError::RecognitionEngineMissing("openai".to_string()));
            }
            Ok(
                TranscriptionPlan::OpenAi {
                    url: openai_url(config.openai_base_url.as_str(), OPENAI_TRANSCRIPTIONS),
                    api_key: config.openai_api_key.as_str().trim().to_string(),
                    model: config.openai_transcribe_model.clone(),
                    language: language_to_tell(&config.transcribe_language),
                },
            )
        },
        RecognitionEngine::Soniox => {
            if blank(config.soniox_api_key.as_str()) {
                return Err(AppError::RecognitionEngineMissing("soniox".to_string()));
            }
            Ok(
                TranscriptionPlan::Soniox {
                    url: SONIOX_TRANSCRIBE.to_string(),
                    api_key: config.soniox_api_key.as_str().trim().to_string(),
                    language: language_to_tell(&config.transcribe_language),
                    speed_boost: config.theater_mode,
                },
            )
        },
        RecognitionEngine::Qwen => {
            if blank(config.dashscope_api_key.as_str()) {
                return Err(AppError::RecognitionEngineMissing("dashscope".to_string()));
            }
            Ok(
                TranscriptionPlan::Qwen {
                    url: DASHSCOPE_RECOGNIZE.to_string(),
                    api_key: config.dashscope_api_key.as_str().trim().to_string(),
                    model: config.qwen3_asr_model.clone(),
                    language: language_to_tell(&config.transcribe_language),
                },
            )
        },
    }
}

/// Plans an OpenAI chat call with `model` and `system_prompt`.
pub fn openai_chat(config: &AppConfig, model: &String, system_prompt: Option<String>) -> (plan:
    ChatPlan)
    ensures
        plan.calls_openai(config, model@, text_view(system_prompt)),
{
    ChatPlan::OpenAi {
        url: openai_url(config.openai_base_url.as_str().trim(), OPENAI_CHAT),
        api_key: config.openai_api_key.as_str().trim().to_string(),
        model: model.clone(),
        system_prompt,
    }
}

/// Plans a Gemini call with `model`, whose instruction is `prompt`, as far
/// as it is not empty, followed by the language to answer in and the
/// context, where given.
pub fn gemini_chat(
    config: &AppConfig,
    model: &String,
    prompt: &str,
    target: Option<&str>,
    context: Option<&str>,
) -> (plan: ChatPlan)
    ensures
        plan.calls_gemini(
            config,
            model@,
            gemini_parts(prompt@, str_view(target), str_view(context)),
        ),
{
    let head = enclose(GEMINI_MODELS, model.as_str(), GEMINI_GENERATE);
    ChatPlan::Gemini {
        url: join(head.as_str(), config.gemini_api_key.as_str()),
        instructions: gemini_instructions(prompt, target, context),
    }
}

/// The key that a language engine needs.
pub open spec fn language_key(config: &AppConfig, engine: LanguageEngine) -> Seq<char> {
    match engine {
        LanguageEngine::OpenAi => config.openai_api_key@,
        LanguageEngine::Gemini => config.gemini_api_key@,
    }
}

/// Tells whether the key of `engine` is blank.
fn key_missing(config: &AppConfig, engine: LanguageEngine) -> (missing: bool)
    ensures
        missing == is_blank(language_key(config, engine)),
{
    match engine {
        LanguageEngine::OpenAi => blank(config.openai_api_key.as_str()),
        LanguageEngine::Gemini => blank(config.gemini_api_key.as_str()),
    }
}

/// The name under which a missing credential of `engine` is reported.
fn credential_name(engine: LanguageEngine) -> (name: String)
    ensures
        name@ == engine.credential(),
{
    match engine {
        LanguageEngine::OpenAi => "openai".to_string(),
        LanguageEngine::Gemini => "gemini".to_string(),
    }
}

/// Plans the call that translates into `target_language`.
///
/// The engine is the one that `translation_engine` selects. Planning fails
/// with `TranslationEngineMissing`, naming the engine, exactly if the key
/// of that engine is blank. `context` says what the translation is for; only
/// Gemini is told.
pub fn plan_translation(config: &AppConfig, target_language: &str, context: Option<&str>) -> (plan:
    AppResult<ChatPlan>)
    ensures
        match plan {
            Ok(p) => match LanguageEngine::selected(config.translation_engine@) {
                LanguageEngine::OpenAi => {
                    &&& !is_blank(config.openai_api_key@)
                    &&& p.calls_openai(
                        config,
                        config.openai_translate_model@,
                        Some(translator_prompt(target_language@)),
                    )
                },
                LanguageEngine::Gemini => {
                    &&& !is_blank(config.gemini_api_key@)
                    &&& p.calls_gemini(
                        config,
                        config.gemini_translate_model@,
                        gemini_parts(
                            trimmed(config.gemini_translate_system_prompt@),
                            Some(target_language@),
                            str_view(context),
                        ),
                    )
                },
            },
            Err(e) => {
                &&& is_blank(
                    language_key(config, LanguageEngine::selected(config.translation_engine@)),
                )
                &&& e matches AppError::TranslationEngineMissing(name)
                &&& name@ == LanguageEngine::selected(config.translation_engine@).credential()
            },
        },
{
    let engine = LanguageEngine::select(config.translation_engine.as_str());
    if key_missing(config, engine) {
        return Err(AppError::TranslationEngineMissing(credential_name(engine)));
    }
    match engine {
        LanguageEngine::Gemini => Ok(
            gemini_chat(
                config,
                &config.gemini_translate_model,
                config.gemini_translate_system_prompt.as_str().trim(),
                Some(target_language),
                context,
            ),
        ),
        LanguageEngine::OpenAi => {
            let prompt = enclose(
                "You are a professional translator. Translate the user message into ",
                target_language,
                ". Respond with translation only.",
            );
            Ok(openai_chat(config, &config.openai_translate_model, Some(prompt)))
        },
    }
}

/// The instruction for a summary in `target_language`: the configured one
/// with the language put in place of its mark.
pub open spec fn summary_prompt(config: &AppConfig, target_language: Seq<char>) -> Seq<char> {
    replaced(config.summary_system_prompt@, TARGET_LANGUAGE_MARK@, target_language)
}

/// Plans the call that summarises in `target_language`.
///
/// The engine is the one that `summary_engine` selects. Planning fails with
/// `SummaryEngineMissing`, naming the engine, exactly if the key of that
/// engine is blank.
pub fn plan_summary(config: &AppConfig, target_language: &str) -> (plan: AppResult<ChatPlan>)
    ensures
        match plan {
            Ok(p) => match LanguageEngine::selected(config.summary_engine@) {
                LanguageEngine::OpenAi => {
                    &&& !is_blank(config.openai_api_key@)
                    &&& p.calls_openai(
                        config,
                        config.openai_summary_model@,
                        Some(summary_prompt(config, target_language@)),
                    )
                },
                LanguageEngine::Gemini => {
                    &&& !is_blank(config.gemini_api_key@)
                    &&& p.calls_gemini(
                        config,
                        config.gemini_summary_model@,
                        gemini_parts(
                            trimmed(summary_prompt(config, target_language@)),
                            None,
                            None,
                        ),
                    )
                },
            },
            Err(e) => {
                &&& is_blank(language_key(config, LanguageEngine::selected(config.summary_engine@)))
                &&& e matches AppError::SummaryEngineMissing(name)
                &&& name@ == LanguageEngine::selected(config.summary_engine@).credential()
            },
        },
{
    let engine = LanguageEngine::select(config.summary_engine.as_str());
    if key_missing(config, engine) {
        return Err(AppError::SummaryEngineMissing(credential_name(engine)));
    }
    let prompt = replace_all(
        config.summary_system_prompt.as_str(),
        TARGET_LANGUAGE_MARK,
        target_language,
    );
    match engine {
        LanguageEngine::Gemini => Ok(
            gemini_chat(config, &config.gemini_summary_model, prompt.as_str().trim(), None, None),
        ),
        LanguageEngine::OpenAi => Ok(
            openai_chat(config, &config.openai_summary_model, Some(prompt)),
        ),
    }
}

/// Plans the call that rewrites a text.
///
/// The engine is the one that `optimize_engine` selects. Planning fails with
/// `SummaryEngineMissing`, naming the engine, exactly if the key of that
/// engine is blank.
pub fn plan_optimization(config: &AppConfig) -> (plan: AppResult<ChatPlan>)
    ensures
        match plan {
            Ok(p) => match LanguageEngine::selected(config.optimize_engine@) {
                LanguageEngine::OpenAi => {
                    &&& !is_blank(config.openai_api_key@)
                    &&& p.calls_openai(
                        config,
                        config.openai_optimize_model@,
                        Some(config.optimize_system_prompt@),
                    )
                },
                LanguageEngine::Gemini => {
                    &&& !is_blank(config.gemini_api_key@)
                    &&& p.calls_gemini(
                        config,
                        config.gemini_optimize_model@,
                        gemini_parts(trimmed(config.optimize_system_prompt@), None, None),
                    )
                },
            },
            Err(e) => {
                &&& is_blank(
                    language_key(config, LanguageEngine::selected(config.optimize_engine@)),
                )
                &&& e matches AppError::SummaryEngineMissing(name)
                &&& name@ == LanguageEngine::selected(config.optimize_engine@).credential()
            },
        },
{
    let engine = LanguageEngine::select(config.optimize_engine.as_str());
    if key_missing(config, engine) {
        return Err(AppError::SummaryEngineMissing(credential_name(engine)));
    }
    match engine {
        LanguageEngine::Gemini => Ok(
            gemini_chat(
                config,
                &config.gemini_optimize_model,
                config.optimize_system_prompt.as_str().trim(),
                None,
                None,
            ),
        ),
        LanguageEngine::OpenAi => Ok(
            openai_chat(
                config,
                &config.openai_optimize_model,
                Some(config.optimize_system_prompt.clone()),
            ),
        ),
    }
}

} // verus!
