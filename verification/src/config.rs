//! The settings of the service.

use vstd::prelude::*;
use crate::audio::DEFAULT_SILENCE_THRESHOLD;
use crate::store::clone_text;
use crate::text::{blank, is_blank};

verus! {

/// Instruction given to Gemini when translating, unless another is set.
pub const DEFAULT_GEMINI_TRANSLATE_PROMPT: &'static str =
    "You are a professional translation assistant.\nTranslate user text into {{TARGET_LANGUAGE}}.\nRequirements:\n1) Preserve the tone and intent of the original text.\n2) Provide natural and fluent translations.\n3) If the input is already in {{TARGET_LANGUAGE}}, return it unchanged.\n4) Respond with the translation only without additional commentary.";

/// Instruction for writing conversation titles, unless another is set.
pub const DEFAULT_CONVERSATION_TITLE_PROMPT: &'static str =
    "You are a helpful assistant who writes concise conversation titles in {{TARGET_LANGUAGE}}.\nSummarize the provided conversation transcript into one short, descriptive sentence.\nOnly return the title without extra commentary.";

/// Instruction for summarising, unless another is set.
pub const DEFAULT_SUMMARY_PROMPT: &'static str =
    "You are a helpful assistant who summarizes conversations in {{TARGET_LANGUAGE}}.\nReview the provided transcript segments and produce a concise paragraph covering the important points.\nDo not include system messages or safety policies; respond with summary text only.";

/// Instruction for rewriting, unless another is set.
pub const DEFAULT_OPTIMIZE_PROMPT: &'static str =
    "You are a friendly conversation coach.\nRewrite the provided text so it sounds natural, fluent, and conversational while keeping the original meaning.\nPreserve key information, remain concise, and respond in the same language as the input.\nReturn only the rewritten text without commentary.";

/// The settings of the service.
#[derive(Debug)]
pub struct AppConfig {
    /// Key for the OpenAI API.
    pub openai_api_key: String,
    /// Base address of the OpenAI API; empty for the public one.
    pub openai_base_url: String,
    /// OpenAI model used for recognition.
    pub openai_transcribe_model: String,
    /// OpenAI model used for translation.
    pub openai_translate_model: String,
    /// Key for the Gemini API.
    pub gemini_api_key: String,
    /// Gemini model used for translation.
    pub gemini_translate_model: String,
    /// Instruction given to Gemini when translating.
    pub gemini_translate_system_prompt: String,
    /// Instruction for writing conversation titles.
    pub conversation_title_system_prompt: String,
    /// Name of the engine that summarises.
    pub summary_engine: String,
    /// OpenAI model used for summaries.
    pub openai_summary_model: String,
    /// Gemini model used for summaries.
    pub gemini_summary_model: String,
    /// Instruction for summarising; names the language as `{{TARGET_LANGUAGE}}`.
    pub summary_system_prompt: String,
    /// Name of the engine that rewrites text.
    pub optimize_engine: String,
    /// OpenAI model used for rewriting.
    pub openai_optimize_model: String,
    /// Gemini model used for rewriting.
    pub gemini_optimize_model: String,
    /// Instruction for rewriting.
    pub optimize_system_prompt: String,
    /// Name of the engine that recognises speech.
    pub recognition_engine: String,
    /// Name of the engine that translates.
    pub translation_engine: String,
    /// Older name of `recognition_engine`.
    pub transcribe_source: String,
    /// Key for the Soniox API.
    pub soniox_api_key: String,
    /// Key for the DashScope API.
    pub dashscope_api_key: String,
    /// DashScope model used for recognition.
    pub qwen3_asr_model: String,
    /// Whether sessions translate unless told otherwise.
    pub enable_translation: bool,
    /// Language that sessions translate into unless told otherwise.
    pub translate_language: String,
    /// How the target language is chosen.
    pub translation_mode: String,
    /// First language of the smart translation mode.
    pub smart_language1: String,
    /// Second language of the smart translation mode.
    pub smart_language2: String,
    /// Language of the speech, or `auto`.
    pub transcribe_language: String,
    /// Amplitude below which a sample counts as silence, as a binary32 pattern.
    pub silence_rms_threshold: u32,
    /// Silence, in milliseconds, that ends a segment.
    pub min_silence_ms: u32,
    /// Whether recognition trades accuracy for speed.
    pub theater_mode: bool,
    /// Language of the user interface.
    pub app_language: String,
    /// Whether voice input is switched on.
    pub voice_input_enabled: bool,
    /// Key that starts and stops voice input.
    pub voice_input_hotkey: String,
    /// Name of the engine that recognises voice input.
    pub voice_input_engine: String,
    /// Language of voice input, or `auto`.
    pub voice_input_language: String,
    /// Whether voice input is translated.
    pub voice_input_translate: bool,
    /// Language that voice input is translated into.
    pub voice_input_translate_language: String,
    /// Interpreter of the helper process, if one is configured.
    pub python_path: Option<String>,
}

/// `value`, or `fallback` where `value` is blank.
pub open spec fn filled(value: Seq<char>, fallback: Seq<char>) -> Seq<char> {
    if is_blank(value) {
        fallback
    } else {
        value
    }
}

impl AppConfig {
    /// Whether these are the settings that a fresh installation starts with.
    pub open spec fn is_default(&self) -> bool {
        &&& self.openai_api_key@.len() == 0
        &&& self.openai_base_url@.len() == 0
        &&& self.openai_transcribe_model@ == "gpt-4o-transcribe"@
        &&& self.openai_translate_model@ == "gpt-4o-mini"@
        &&& self.gemini_api_key@.len() == 0
        &&& self.gemini_translate_model@ == "gemini-2.0-flash"@
        &&& self.gemini_translate_system_prompt@ == DEFAULT_GEMINI_TRANSLATE_PROMPT@
        &&& self.conversation_title_system_prompt@ == DEFAULT_CONVERSATION_TITLE_PROMPT@
        &&& self.summary_engine@ == "openai"@
        &&& self.openai_summary_model@ == "gpt-4o-mini"@
        &&& self.gemini_summary_model@ == "gemini-2.0-flash"@
        &&& self.summary_system_prompt@ == DEFAULT_SUMMARY_PROMPT@
        &&& self.optimize_engine@ == "openai"@
        &&& self.openai_optimize_model@ == "gpt-4o-mini"@
        &&& self.gemini_optimize_model@ == "gemini-2.0-flash"@
        &&& self.optimize_system_prompt@ == DEFAULT_OPTIMIZE_PROMPT@
        &&& self.recognition_engine@ == "openai"@
        &&& self.translation_engine@ == "openai"@
        &&& self.transcribe_source@ == "openai"@
        &&& self.soniox_api_key@.len() == 0
        &&& self.dashscope_api_key@.len() == 0
        &&& self.qwen3_asr_model@ == "qwen3-asr-flash"@
        &&& self.enable_translation
        &&& self.translate_language@ == "Chinese"@
        &&& self.translation_mode@ == "fixed"@
        &&& self.smart_language1@ == "Chinese"@
        &&& self.smart_language2@ == "English"@
        &&& self.transcribe_language@ == "auto"@
        &&& self.silence_rms_threshold == DEFAULT_SILENCE_THRESHOLD
        &&& self.min_silence_ms == 1000
        &&& !self.theater_mode
        &&& self.app_language@ == "en"@
        &&& !self.voice_input_enabled
        &&& self.voice_input_hotkey@ == "F3"@
        &&& self.voice_input_engine@ == "openai"@
        &&& self.voice_input_language@ == "auto"@
        &&& !self.voice_input_translate
        &&& self.voice_input_translate_language@ == "Chinese"@
        &&& self.python_path is None
    }
}

impl Default for AppConfig {
    fn default() -> (config: Self)
        ensures
            config.is_default(),
    {
        AppConfig {
            openai_api_key: String::new(),
            openai_base_url: String::new(),
            openai_transcribe_model: "gpt-4o-transcribe".to_string(),
            openai_translate_model: "gpt-4o-mini".to_string(),
            gemini_api_key: String::new(),
            gemini_translate_model: "gemini-2.0-flash".to_string(),
            gemini_translate_system_prompt: DEFAULT_GEMINI_TRANSLATE_PROMPT.to_string(),
            conversation_title_system_prompt: DEFAULT_CONVERSATION_TITLE_PROMPT.to_string(),
            summary_engine: "openai".to_string(),
            openai_summary_model: "gpt-4o-mini".to_string(),
            gemini_summary_model: "gemini-2.0-flash".to_string(),
            summary_system_prompt: DEFAULT_SUMMARY_PROMPT.to_string(),
            optimize_engine: "openai".to_string(),
            openai_optimize_model: "gpt-4o-mini".to_string(),
            gemini_optimize_model: "gemini-2.0-flash".to_string(),
            optimize_system_prompt: DEFAULT_OPTIMIZE_PROMPT.to_string(),
            recognition_engine: "openai".to_string(),
            translation_engine: "openai".to_string(),
            transcribe_source: "openai".to_string(),
            soniox_api_key: String::new(),
            dashscope_api_key: String::new(),
            qwen3_asr_model: "qwen3-asr-flash".to_string(),
            enable_translation: true,
            translate_language: "Chinese".to_string(),
            translation_mode: "fixed".to_string(),
            smart_language1: "Chinese".to_string(),
            smart_language2: "English".to_string(),
            transcribe_language: "auto".to_string(),
            silence_rms_threshold: DEFAULT_SILENCE_THRESHOLD,
            min_silence_ms: 1000,
            theater_mode: false,
            app_language: "en".to_string(),
            voice_input_enabled: false,
            voice_input_hotkey: "F3".to_string(),
            voice_input_engine: "openai".to_string(),
            voice_input_language: "auto".to_string(),
            voice_input_translate: false,
            voice_input_translate_language: "Chinese".to_string(),
            python_path: None,
        }
    }
}

impl Clone for AppConfig {
    fn clone(&self) -> (copy: Self)
        ensures
            copy == *self,
    {
        AppConfig {
            openai_api_key: self.openai_api_key.clone(),
            openai_base_url: self.openai_base_url.clone(),
            openai_transcribe_model: self.openai_transcribe_model.clone(),
            openai_translate_model: self.openai_translate_model.clone(),
            gemini_api_key: self.gemini_api_key.clone(),
            gemini_translate_model: self.gemini_translate_model.clone(),
            gemini_translate_system_prompt: self.gemini_translate_system_prompt.clone(),
            conversation_title_system_prompt: self.conversation_title_system_prompt.clone(),
            summary_engine: self.summary_engine.clone(),
            openai_summary_model: self.openai_summary_model.clone(),
            gemini_summary_model: self.gemini_summary_model.clone(),
            summary_system_prompt: self.summary_system_prompt.clone(),
            optimize_engine: self.optimize_engine.clone(),
            openai_optimize_model: self.openai_optimize_model.clone(),
            gemini_optimize_model: self.gemini_optimize_model.clone(),
            optimize_system_prompt: self.optimize_system_prompt.clone(),
            recognition_engine: self.recognition_engine.clone(),
            translation_engine: self.translation_engine.clone(),
            transcribe_source: self.transcribe_source.clone(),
            soniox_api_key: self.soniox_api_key.clone(),
            dashscope_api_key: self.dashscope_api_key.clone(),
            qwen3_asr_model: self.qwen3_asr_model.clone(),
            enable_translation: self.enable_translation,
            translate_language: self.translate_language.clone(),
            translation_mode: self.translation_mode.clone(),
            smart_language1: self.smart_language1.clone(),
            smart_language2: self.smart_language2.clone(),
            transcribe_language: self.transcribe_language.clone(),
            silence_rms_threshold: self.silence_rms_threshold,
            min_silence_ms: self.min_silence_ms,
            theater_mode: self.theater_mode,
            app_language: self.app_language.clone(),
            voice_input_enabled: self.voice_input_enabled,
            voice_input_hotkey: self.voice_input_hotkey.clone(),
            voice_input_engine: self.voice_input_engine.clone(),
            voice_input_language: self.voice_input_language.clone(),
            voice_input_translate: self.voice_input_translate,
            voice_input_translate_language: self.voice_input_translate_language.clone(),
            python_path: clone_text(&self.python_path),
        }
    }
}

impl AppConfig {
    /// Fills in every setting that was left blank.
    ///
    /// A blank setting takes the value of the setting it is derived from, if
    /// that is not blank, and its default otherwise. Settings are filled in
    /// in the order of the clauses below, so a setting that derives from an
    /// earlier one sees that one filled in. Settings that are not named stay
    /// as they are.
    pub fn hydrate_defaults(&mut self)
        ensures
            final(self).gemini_translate_model@ == filled(
                old(self).gemini_translate_model@,
                "gemini-2.0-flash"@,
            ),
            final(self).gemini_translate_system_prompt@ == filled(
                old(self).gemini_translate_system_prompt@,
                DEFAULT_GEMINI_TRANSLATE_PROMPT@,
            ),
            final(self).conversation_title_system_prompt@ == filled(
                old(self).conversation_title_system_prompt@,
                DEFAULT_CONVERSATION_TITLE_PROMPT@,
            ),
            final(self).summary_engine@ == filled(
                old(self).summary_engine@,
                filled(old(self).translation_engine@, "openai"@),
            ),
            final(self).openai_summary_model@ == filled(
                old(self).openai_summary_model@,
                filled(old(self).openai_translate_model@, "gpt-4o-mini"@),
            ),
            final(self).gemini_summary_model@ == filled(
                old(self).gemini_summary_model@,
                filled(final(self).gemini_translate_model@, "gemini-2.0-flash"@),
            ),
            final(self).summary_system_prompt@ == filled(
                old(self).summary_system_prompt@,
                DEFAULT_SUMMARY_PROMPT@,
            ),
            final(self).optimize_engine@ == filled(
                old(self).optimize_engine@,
                filled(
                    final(self).summary_engine@,
                    filled(old(self).translation_engine@, "openai"@),
                ),
            ),
            final(self).openai_optimize_model@ == filled(
                old(self).openai_optimize_model@,
                filled(final(self).openai_summary_model@, "gpt-4o-mini"@),
            ),
            final(self).gemini_optimize_model@ == filled(
                old(self).gemini_optimize_model@,
                filled(final(self).gemini_summary_model@, "gemini-2.0-flash"@),
            ),
            final(self).optimize_system_prompt@ == filled(
                old(self).optimize_system_prompt@,
                DEFAULT_OPTIMIZE_PROMPT@,
            ),
            final(self).app_language@ == filled(old(self).app_language@, "en"@),
            final(self).recognition_engine@ == if is_blank(old(self).recognition_engine@)
                && !is_blank(old(self).transcribe_source@) {
                old(self).transcribe_source@
            } else {
                old(self).recognition_engine@
            },
            final(self).transcribe_source@ == if is_blank(old(self).transcribe_source@)
                && !is_blank(final(self).recognition_engine@) {
                final(self).recognition_engine@
            } else {
                old(self).transcribe_source@
            },
            final(self).voice_input_hotkey@ == filled(old(self).voice_input_hotkey@, "F3"@),
            final(self).voice_input_engine@ == filled(
                old(self).voice_input_engine@,
                filled(final(self).recognition_engine@, "openai"@),
            ),
            final(self).voice_input_language@ == filled(old(self).voice_input_language@, "auto"@),
            final(self).voice_input_translate_language@ == filled(
                old(self).voice_input_translate_language@,
                filled(old(self).translate_language@, "Chinese"@),
            ),
            final(self).openai_api_key == old(self).openai_api_key,
            final(self).openai_base_url == old(self).openai_base_url,
            final(self).openai_transcribe_model == old(self).openai_transcribe_model,
            final(self).openai_translate_model == old(self).openai_translate_model,
            final(self).gemini_api_key == old(self).gemini_api_key,
            final(self).translation_engine == old(self).translation_engine,
            final(self).soniox_api_key == old(self).soniox_api_key,
            final(self).dashscope_api_key == old(self).dashscope_api_key,
            final(self).qwen3_asr_model == old(self).qwen3_asr_model,
            final(self).enable_translation == old(self).enable_translation,
            final(self).translate_language == old(self).translate_language,
            final(self).translation_mode == old(self).translation_mode,
            final(self).smart_language1 == old(self).smart_language1,
            final(self).smart_language2 == old(self).smart_language2,
            final(self).transcribe_language == old(self).transcribe_language,
            final(self).silence_rms_threshold == old(self).silence_rms_threshold,
            final(self).min_silence_ms == old(self).min_silence_ms,
            final(self).theater_mode == old(self).theater_mode,
            final(self).voice_input_enabled == old(self).voice_input_enabled,
            final(self).voice_input_translate == old(self).voice_input_translate,
            final(self).python_path == old(self).python_path,
    {
        fill(&mut self.gemini_translate_model, "gemini-2.0-flash");
        fill(&mut self.gemini_translate_system_prompt, DEFAULT_GEMINI_TRANSLATE_PROMPT);
        fill(&mut self.conversation_title_system_prompt, DEFAULT_CONVERSATION_TITLE_PROMPT);
        fill_from(&mut self.summary_engine, &self.translation_engine, "openai");
        fill_from(&mut self.openai_summary_model, &self.openai_translate_model, "gpt-4o-mini");
        fill_from(&mut self.gemini_summary_model, &self.gemini_translate_model, "gemini-2.0-flash");
        fill(&mut self.summary_system_prompt, DEFAULT_SUMMARY_PROMPT);
        let engine = value_or(&self.translation_engine, "openai");
        fill_from(&mut self.optimize_engine, &self.summary_engine, engine.as_str());
        fill_from(&mut self.openai_optimize_model, &self.openai_summary_model, "gpt-4o-mini");
        fill_from(&mut self.gemini_optimize_model, &self.gemini_summary_model, "gemini-2.0-flash");
        fill(&mut self.optimize_system_prompt, DEFAULT_OPTIMIZE_PROMPT);
        fill(&mut self.app_language, "en");
        adopt(&mut self.recognition_engine, &self.transcribe_source);
        adopt(&mut self.transcribe_source, &self.recognition_engine);
        fill(&mut self.voice_input_hotkey, "F3");
        fill_from(&mut self.voice_input_engine, &self.recognition_engine, "openai");
        fill(&mut self.voice_input_language, "auto");
        fill_from(&mut self.voice_input_translate_language, &self.translate_language, "Chinese");
    }
}

/// `value`, or `fallback` where `value` is blank.
pub fn value_or(value: &String, fallback: &str) -> (chosen: String)
    ensures
        chosen@ == filled(value@, fallback@),
{
    if blank(value.as_str()) {
        fallback.to_string()
    } else {
        value.clone()
    }
}

/// Replaces a blank `value` by `fallback`.
pub fn fill(value: &mut String, fallback: &str)
    ensures
        final(value)@ == filled(old(value)@, fallback@),
{
    if blank(value.as_str()) {
        *value = fallback.to_string();
    }
}

/// Replaces a blank `value` by `source`, or by `fallback` where `source` is
/// blank too.
pub fn fill_from(value: &mut String, source: &String, fallback: &str)
    ensures
        final(value)@ == filled(old(value)@, filled(source@, fallback@)),
{
    if blank(value.as_str()) {
        *value = value_or(source, fallback);
    }
}

/// Replaces a blank `value` by `source`, unless `source` is blank too.
pub fn adopt(value: &mut String, source: &String)
    ensures
        final(value)@ == if is_blank(old(value)@) && !is_blank(source@) {
            source@
        } else {
            old(value)@
        },
{
    if blank(value.as_str()) && !blank(source.as_str()) {
        *value = source.clone();
    }
}

} // verus!
