//! The session state machine and the steps of the segment pipeline.
//!
//! At most one session runs at a time. The service decides; whoever drives
//! it acquires the audio input, calls the providers and delivers the
//! events, and tells the service how each of these went.

use vstd::prelude::*;
use crate::audio::{
    cut_rule, samples_of, segment_audio, segments_of, AudioSegment, RecorderConfig,
};
use crate::clock::{fresh_id, now_millis, ID_LEN};
use crate::config::AppConfig;
use crate::engines::TranscriptionOutput;
use crate::error::{AppError, AppResult};
use crate::state::ServiceStatus;
use crate::store::{
    borrow_text, clone_text, entries_of, entry_views, has_conversation, has_entry,
    may_hold_fresh_conversation, may_hold_fresh_entry, new_conversation, text_view, Conversation,
    ConversationEntry, ConversationStore, EntryKind, EntryView, NewEntry, StoreView,
};
use crate::text::{blank, is_blank};
use vstd::string::StringExecFns;

verus! {

/// Longest segment of a live session, in milliseconds.
pub const SESSION_MAX_SEGMENT_MS: u32 = 12_000;

/// Title of the conversation that a media file is transcribed into.
pub const MEDIA_TITLE: &'static str = "Media Transcription";

/// What a session is for.
#[derive(Debug, Clone, Copy, PartialEq, Eq, Structural)]
pub enum RecordingMode {
    /// A conversation is recorded, and summarised when it ends.
    Default,
    /// Speech is turned into text for another program.
    VoiceInput,
}

impl RecordingMode {
    /// The name under which the mode is reported.
    pub open spec fn name(self) -> Seq<char> {
        match self {
            RecordingMode::Default => "default"@,
            RecordingMode::VoiceInput => "voice_input"@,
        }
    }

    /// The name under which the mode is reported.
    pub fn as_str(&self) -> (name: &'static str)
        ensures
            name@ == self.name(),
    {
        match self {
            RecordingMode::Default => "default",
            RecordingMode::VoiceInput => "voice_input",
        }
    }
}

/// What the caller asks of a new session.
#[derive(Debug)]
pub struct RecordingContext {
    /// What the session is for.
    pub mode: RecordingMode,
    /// Whether to translate; the configured choice where this is `None`.
    pub translate: Option<bool>,
    /// Language to translate into; the configured one where this is `None`.
    pub translate_language: Option<String>,
    /// Recognition engine to use in place of the configured one.
    pub override_recognition_engine: Option<String>,
    /// Language of the speech to assume in place of the configured one.
    pub override_transcribe_language: Option<String>,
}

impl Default for RecordingContext {
    fn default() -> (context: Self)
        ensures
            context.mode == RecordingMode::Default,
            context.translate is None,
            context.translate_language is None,
            context.override_recognition_engine is None,
            context.override_transcribe_language is None,
    {
        RecordingContext {
            mode: RecordingMode::Default,
            translate: None,
            translate_language: None,
            override_recognition_engine: None,
            override_transcribe_language: None,
        }
    }
}

impl Clone for RecordingContext {
    fn clone(&self) -> (copy: Self)
        ensures
            copy == *self,
    {
        RecordingContext {
            mode: self.mode,
            translate: self.translate,
            translate_language: clone_text(&self.translate_language),
            override_recognition_engine: clone_text(&self.override_recognition_engine),
            override_transcribe_language: clone_text(&self.override_transcribe_language),
        }
    }
}

/// What every segment pipeline of a session needs to know about it.
#[derive(Debug)]
pub struct SessionMetadata {
    /// The conversation that the session writes to.
    pub conversation_id: String,
    /// What the session is for.
    pub mode: RecordingMode,
    /// Whether recognised text is translated.
    pub translate: bool,
    /// Language to translate into.
    pub translate_language: String,
    /// Recognition engine to use in place of the configured one.
    pub override_recognition_engine: Option<String>,
    /// Language of the speech to assume in place of the configured one.
    pub override_transcribe_language: Option<String>,
}

impl Clone for SessionMetadata {
    fn clone(&self) -> (copy: Self)
        ensures
            copy == *self,
    {
        SessionMetadata {
            conversation_id: self.conversation_id.clone(),
            mode: self.mode,
            translate: self.translate,
            translate_language: self.translate_language.clone(),
            override_recognition_engine: clone_text(&self.override_recognition_engine),
            override_transcribe_language: clone_text(&self.override_transcribe_language),
        }
    }
}

impl SessionMetadata {
    /// Whether this is what a session for `context` under `config`, writing
    /// to the conversation named `conversation_id`, has to know: what the
    /// context asks for, and the configured choice where it asks nothing.
    pub open spec fn describes(
        &self,
        context: RecordingContext,
        config: &AppConfig,
        conversation_id: Seq<char>,
    ) -> bool {
        &&& self.conversation_id@ == conversation_id
        &&& self.mode == context.mode
        &&& self.translate == match context.translate {
            Some(asked) => asked,
            None => config.enable_translation,
        }
        &&& self.translate_language@ == match context.translate_language {
            Some(asked) => asked@,
            None => config.translate_language@,
        }
        &&& text_view(self.override_recognition_engine) == text_view(
            context.override_recognition_engine,
        )
        &&& text_view(self.override_transcribe_language) == text_view(
            context.override_transcribe_language,
        )
    }
}

/// The capture settings of a live session under `config`.
pub open spec fn recorder_for(config: &AppConfig) -> RecorderConfig {
    RecorderConfig {
        silence_threshold: config.silence_rms_threshold,
        min_silence_ms: config.min_silence_ms,
        max_segment_ms: SESSION_MAX_SEGMENT_MS,
        preferred_sample_rate: None,
    }
}

/// Computes [`recorder_for`].
pub fn recorder_config(config: &AppConfig) -> (recorder: RecorderConfig)
    ensures
        recorder == recorder_for(config),
{
    RecorderConfig {
        silence_threshold: config.silence_rms_threshold,
        min_silence_ms: config.min_silence_ms,
        max_segment_ms: SESSION_MAX_SEGMENT_MS,
        preferred_sample_rate: None,
    }
}

/// A session that was admitted and has its conversation, but whose audio
/// input is not acquired yet.
#[derive(Debug)]
pub struct SessionPlan {
    /// What the session's pipelines will know.
    pub metadata: SessionMetadata,
    /// The conversation that was created for the session.
    pub conversation: Conversation,
    /// How to capture.
    pub recorder: RecorderConfig,
}

/// Whether `status` tells of `session`: recording exactly if there is one,
/// and in its mode.
pub open spec fn status_mirrors(status: ServiceStatus, session: Option<SessionMetadata>) -> bool {
    match session {
        Some(s) => status.is_recording_in(s.mode.name()),
        None => status.is_idle(),
    }
}

/// The session slot and the status that mirrors it.
pub struct TranscriptionService {
    status: ServiceStatus,
    active: Option<SessionMetadata>,
}

impl TranscriptionService {
    /// The session that occupies the slot.
    pub closed spec fn session(&self) -> Option<SessionMetadata> {
        self.active
    }

    /// The status that observers are told.
    pub closed spec fn reported(&self) -> ServiceStatus {
        self.status
    }

    /// What holds of every service: its status mirrors its slot.
    pub open spec fn wf(&self) -> bool {
        status_mirrors(self.reported(), self.session())
    }

    /// A service without a session.
    pub fn new() -> (service: Self)
        ensures
            service.wf(),
            service.session() is None,
    {
        TranscriptionService { status: ServiceStatus::default(), active: None }
    }

    /// Tells whether a session occupies the slot.
    pub fn is_recording(&self) -> (recording: bool)
        ensures
            recording == (self.session() is Some),
    {
        self.active.is_some()
    }

    /// The status that observers are told.
    pub fn status(&self) -> (status: ServiceStatus)
        ensures
            status == self.reported(),
    {
        self.status.clone()
    }

    /// Admits a session and creates its conversation, named `id`, at time
    /// `now`.
    ///
    /// While a session occupies the slot this fails with
    /// `RecordingAlreadyRunning` and changes nothing. Otherwise the
    /// conversation is created, untitled, and the plan tells what the
    /// session will know and how to capture. The slot stays empty until
    /// [`TranscriptionService::activate`] is told that the audio input was
    /// acquired.
    pub fn start_at(
        &mut self,
        context: RecordingContext,
        config: &AppConfig,
        store: &mut ConversationStore,
        id: String,
        now: i64,
    ) -> (plan: AppResult<SessionPlan>)
        requires
            old(self).wf(),
            old(store).wf(),
        ensures
            final(self).wf(),
            final(store).wf(),
            final(self).session() == old(self).session(),
            final(self).reported() == old(self).reported(),
            match plan {
                Ok(p) => {
                    &&& old(self).session() is None
                    &&& !has_conversation(old(store)@.conversations, id@)
                    &&& p.metadata.describes(context, config, id@)
                    &&& p.recorder == recorder_for(config)
                    &&& p.conversation@ == new_conversation(id@, None, now)
                    &&& final(store)@ == old(store)@.with_conversation(p.conversation@)
                },
                Err(e) => {
                    &&& final(store)@ == old(store)@
                    &&& if old(self).session() is Some {
                        e is RecordingAlreadyRunning
                    } else {
                        e is Database && has_conversation(old(store)@.conversations, id@)
                    }
                },
            },
    {
        if self.active.is_some() {
            return Err(AppError::RecordingAlreadyRunning);
        }
        let recorder = recorder_config(config);
        let translate = match context.translate {
            Some(asked) => asked,
            None => config.enable_translation,
        };
        let translate_language = match &context.translate_language {
            Some(asked) => asked.clone(),
            None => config.translate_language.clone(),
        };
        let conversation = match store.create_conversation_at(id, None, now) {
            Ok(c) => c,
            Err(e) => {
                return Err(e);
            },
        };
        let metadata = SessionMetadata {
            conversation_id: conversation.id.clone(),
            mode: context.mode,
            translate,
            translate_language,
            override_recognition_engine: clone_text(&context.override_recognition_engine),
            override_transcribe_language: clone_text(&context.override_transcribe_language),
        };
        Ok(SessionPlan { metadata, conversation, recorder })
    }

    /// Admits a session and creates its conversation under a fresh
    /// identifier, at the time the clock shows.
    ///
    /// While a session occupies the slot this fails with
    /// `RecordingAlreadyRunning` and changes nothing. Otherwise it fails
    /// only if the store already holds the fresh identifier. The plan tells
    /// the identifier and the time that were used.
    pub fn start(
        &mut self,
        context: RecordingContext,
        config: &AppConfig,
        store: &mut ConversationStore,
    ) -> (plan: AppResult<SessionPlan>)
        requires
            old(self).wf(),
            old(store).wf(),
        ensures
            final(self).wf(),
            final(store).wf(),
            final(self).session() == old(self).session(),
            final(self).reported() == old(self).reported(),
            old(self).session() is Some ==> plan matches Err(AppError::RecordingAlreadyRunning),
            match plan {
                Ok(p) => {
                    &&& old(self).session() is None
                    &&& p.conversation@.id.len() == ID_LEN
                    &&& !has_conversation(old(store)@.conversations, p.conversation@.id)
                    &&& p.metadata.describes(context, config, p.conversation@.id)
                    &&& p.recorder == recorder_for(config)
                    &&& p.conversation@ == new_conversation(
                        p.conversation@.id,
                        None,
                        p.conversation.created_at,
                    )
                    &&& final(store)@ == old(store)@.with_conversation(p.conversation@)
                },
                Err(e) => {
                    &&& final(store)@ == old(store)@
                    &&& old(self).session() is None ==> e is Database
                        && may_hold_fresh_conversation(old(store)@.conversations)
                },
            },
    {
        if self.active.is_some() {
            return Err(AppError::RecordingAlreadyRunning);
        }
        let id = fresh_id();
        let now = now_millis();
        let ghost name = id@;
        let plan = self.start_at(context, config, store, id, now);
        proof {
            if plan is Err {
                assert(has_conversation(old(store)@.conversations, name));
            }
        }
        plan
    }

    /// Puts an admitted session into the slot, once it is known how the
    /// acquisition of the audio input went.
    ///
    /// Where the acquisition failed, its error is handed on and the slot
    /// stays as it is. Where it succeeded, the session occupies the slot and
    /// the status tells of it; the identifier of the session's conversation
    /// is returned. Should another session occupy the slot by now, this
    /// fails with `RecordingAlreadyRunning` and changes nothing.
    pub fn activate(&mut self, plan: SessionPlan, capture: AppResult<()>) -> (started: AppResult<
        String,
    >)
        requires
            old(self).wf(),
        ensures
            final(self).wf(),
            match capture {
                Err(e) => {
                    &&& started == Err::<String, AppError>(e)
                    &&& final(self).session() == old(self).session()
                    &&& final(self).reported() == old(self).reported()
                },
                Ok(_) => if old(self).session() is Some {
                    &&& started matches Err(AppError::RecordingAlreadyRunning)
                    &&& final(self).session() == old(self).session()
                    &&& final(self).reported() == old(self).reported()
                } else {
                    &&& started matches Ok(id)
                    &&& id@ == plan.metadata.conversation_id@
                    &&& final(self).session() == Some(plan.metadata)
                },
            },
    {
        match capture {
            Err(e) => Err(e),
            Ok(_) => {
                if self.active.is_some() {
                    return Err(AppError::RecordingAlreadyRunning);
                }
                let id = plan.metadata.conversation_id.clone();
                self.status = ServiceStatus {
                    running: true,
                    ready: true,
                    is_recording: true,
                    mode: Some(plan.metadata.mode.as_str().to_string()),
                };
                self.active = Some(plan.metadata);
                Ok(id)
            },
        }
    }

    /// Ends the session.
    ///
    /// With an empty slot this fails with `RecordingNotRunning` and changes
    /// nothing. Otherwise the slot is emptied, the status tells that nothing
    /// is recorded, and what the session knew is returned.
    pub fn stop(&mut self) -> (stopped: AppResult<SessionMetadata>)
        requires
            old(self).wf(),
        ensures
            final(self).wf(),
            final(self).session() is None,
            match old(self).session() {
                Some(session) => stopped == Ok::<SessionMetadata, AppError>(session),
                None => stopped matches Err(AppError::RecordingNotRunning),
            },
    {
        match self.active.take() {
            Some(session) => {
                self.status = ServiceStatus {
                    running: true,
                    ready: true,
                    is_recording: false,
                    mode: None,
                };
                Ok(session)
            },
            None => Err(AppError::RecordingNotRunning),
        }
    }
}

/// What the service has to tell its observers. Delivery is left to the
/// caller.
#[derive(Debug)]
#[allow(inconsistent_fields)]
pub enum ServiceEvent {
    /// A segment was recognised and stored.
    Segment {
        conversation_id: String,
        segment_id: String,
        entry_id: String,
        text: String,
        language: Option<String>,
        confidence: Option<u32>,
        duration_ms: u64,
        mode: RecordingMode,
    },
    /// The text of a segment was translated and the translation stored.
    Translation {
        conversation_id: String,
        segment_id: String,
        entry_id: String,
        translation: String,
        target_language: String,
        mode: RecordingMode,
    },
    /// Voice input is ready: the recognised text, with its translation where
    /// one was asked for.
    VoiceInput {
        conversation_id: String,
        segment_id: String,
        transcription: String,
        translation: Option<String>,
        language: Option<String>,
    },
    /// The conversation of the ended session was summarised.
    Summary { conversation_id: String, summary: String },
    /// Segment `current` of `total` of a media file is about to be processed.
    MediaProgress { conversation_id: String, current: usize, total: usize },
    /// All segments of a media file were processed.
    MediaComplete { conversation_id: String },
}

/// An event as contracts see it.
#[allow(inconsistent_fields)]
pub enum EventView {
    Segment {
        conversation_id: Seq<char>,
        segment_id: Seq<char>,
        entry_id: Seq<char>,
        text: Seq<char>,
        language: Option<Seq<char>>,
        confidence: Option<u32>,
        duration_ms: u64,
        mode: RecordingMode,
    },
    Translation {
        conversation_id: Seq<char>,
        segment_id: Seq<char>,
        entry_id: Seq<char>,
        translation: Seq<char>,
        target_language: Seq<char>,
        mode: RecordingMode,
    },
    VoiceInput {
        conversation_id: Seq<char>,
        segment_id: Seq<char>,
        transcription: Seq<char>,
        translation: Option<Seq<char>>,
        language: Option<Seq<char>>,
    },
    Summary { conversation_id: Seq<char>, summary: Seq<char> },
    MediaProgress { conversation_id: Seq<char>, current: usize, total: usize },
    MediaComplete { conversation_id: Seq<char> },
}

impl View for ServiceEvent {
    type V = EventView;

    open spec fn view(&self) -> EventView {
        match self {
            ServiceEvent::Segment {
                conversation_id,
                segment_id,
                entry_id,
                text,
                language,
                confidence,
                duration_ms,
                mode,
            } => EventView::Segment {
                conversation_id: conversation_id@,
                segment_id: segment_id@,
                entry_id: entry_id@,
                text: text@,
                language: text_view(*language),
                confidence: *confidence,
                duration_ms: *duration_ms,
                mode: *mode,
            },
            ServiceEvent::Translation {
                conversation_id,
                segment_id,
                entry_id,
                translation,
                target_language,
                mode,
            } => EventView::Translation {
                conversation_id: conversation_id@,
                segment_id: segment_id@,
                entry_id: entry_id@,
                translation: translation@,
                target_language: target_language@,
                mode: *mode,
            },
            ServiceEvent::VoiceInput {
                conversation_id,
                segment_id,
                transcription,
                translation,
                language,
            } => EventView::VoiceInput {
                conversation_id: conversation_id@,
                segment_id: segment_id@,
                transcription: transcription@,
                translation: text_view(*translation),
                language: text_view(*language),
            },
            ServiceEvent::Summary { conversation_id, summary } => EventView::Summary {
                conversation_id: conversation_id@,
                summary: summary@,
            },
            ServiceEvent::MediaProgress { conversation_id, current, total } => {
                EventView::MediaProgress {
                    conversation_id: conversation_id@,
                    current: *current,
                    total: *total,
                }
            },
            ServiceEvent::MediaComplete { conversation_id } => EventView::MediaComplete {
                conversation_id: conversation_id@,
            },
        }
    }
}

/// The views of `events`, in order.
pub open spec fn event_views(events: Seq<ServiceEvent>) -> Seq<EventView> {
    Seq::new(events.len(), |i: int| events[i]@)
}

/// The settings that the pipelines of `session` work with: `base`, with
/// the recognition engine and the language of the speech replaced where the
/// session overrides them.
pub fn effective_config(base: &AppConfig, session: &SessionMetadata) -> (config: AppConfig)
    ensures
        config.recognition_engine@ == match session.override_recognition_engine {
            Some(engine) => engine@,
            None => base.recognition_engine@,
        },
        config.transcribe_language@ == match session.override_transcribe_language {
            Some(language) => language@,
            None => base.transcribe_language@,
        },
        config == (AppConfig {
            recognition_engine: config.recognition_engine,
            transcribe_language: config.transcribe_language,
            ..*base
        }),
{
    let mut config = base.clone();
    match &session.override_recognition_engine {
        Some(engine) => {
            config.recognition_engine = engine.clone();
        },
        None => {},
    }
    match &session.override_transcribe_language {
        Some(language) => {
            config.transcribe_language = language.clone();
        },
        None => {},
    }
    config
}

/// The entry that holds what was recognised of a segment.
pub open spec fn transcription_entry(
    session: &SessionMetadata,
    output: &TranscriptionOutput,
    id: Seq<char>,
    now: i64,
) -> EntryView {
    EntryView {
        id,
        conversation_id: session.conversation_id@,
        kind: EntryKind::Transcription,
        text: output.text@,
        translated_text: None,
        language: text_view(output.language),
        created_at: now,
        metadata: None,
    }
}

/// The entry that holds the translation that `request` asked for.
pub open spec fn translation_entry(
    session: &SessionMetadata,
    request: &TranslationRequest,
    translation: Seq<char>,
    id: Seq<char>,
    now: i64,
) -> EntryView {
    EntryView {
        id,
        conversation_id: session.conversation_id@,
        kind: EntryKind::Translation,
        text: request.text@,
        translated_text: Some(translation),
        language: Some(request.target_language@),
        created_at: now,
        metadata: None,
    }
}

/// The events that follow the recognition of a segment: the segment event,
/// and in a voice input session that does not translate, the voice input
/// event with the recognised text alone.
pub open spec fn transcription_events(
    session: &SessionMetadata,
    output: &TranscriptionOutput,
    entry_id: Seq<char>,
) -> Seq<EventView> {
    let recognised = EventView::Segment {
        conversation_id: session.conversation_id@,
        segment_id: output.segment_id@,
        entry_id,
        text: output.text@,
        language: text_view(output.language),
        confidence: output.confidence,
        duration_ms: output.duration_ms,
        mode: session.mode,
    };
    if !session.translate && session.mode == RecordingMode::VoiceInput {
        seq![
            recognised,
            EventView::VoiceInput {
                conversation_id: session.conversation_id@,
                segment_id: output.segment_id@,
                transcription: output.text@,
                translation: None,
                language: text_view(output.language),
            },
        ]
    } else {
        seq![recognised]
    }
}

/// The events that follow the translation that `request` asked for: the
/// translation event, and in a voice input session the voice input event
/// with both texts.
pub open spec fn translation_events(
    session: &SessionMetadata,
    request: &TranslationRequest,
    translation: Seq<char>,
    entry_id: Seq<char>,
) -> Seq<EventView> {
    let translated = EventView::Translation {
        conversation_id: session.conversation_id@,
        segment_id: request.segment_id@,
        entry_id,
        translation,
        target_language: request.target_language@,
        mode: session.mode,
    };
    if session.mode == RecordingMode::VoiceInput {
        seq![
            translated,
            EventView::VoiceInput {
                conversation_id: session.conversation_id@,
                segment_id: request.segment_id@,
                transcription: request.text@,
                translation: Some(translation),
                language: Some(request.target_language@),
            },
        ]
    } else {
        seq![translated]
    }
}

/// What to ask of the translation provider for one segment. A request is
/// made when the recognised text of the segment has been stored, and is
/// what the translation is recorded against.
#[derive(Debug)]
pub struct TranslationRequest {
    /// Identifier of the segment.
    pub segment_id: String,
    /// The text to translate.
    pub text: String,
    /// The language to translate into.
    pub target_language: String,
    /// What the translation is for: the name of the session's mode.
    pub context: String,
}

/// What became of a recognised segment.
#[derive(Debug)]
pub struct TranscriptionStep {
    /// The entry that was stored.
    pub entry: ConversationEntry,
    /// What to tell the observers, in this order.
    pub events: Vec<ServiceEvent>,
    /// What to ask of the translation provider next, if the session
    /// translates.
    pub translation: Option<TranslationRequest>,
}

impl TranscriptionStep {
    /// Whether the step asks for the translation that `session` wants of
    /// `output`: none if the session does not translate, else that of the
    /// recognised text into the session's language.
    pub open spec fn asks_translation(
        &self,
        session: &SessionMetadata,
        output: &TranscriptionOutput,
    ) -> bool {
        match self.translation {
            Some(request) => {
                &&& session.translate
                &&& request.segment_id@ == output.segment_id@
                &&& request.text@ == output.text@
                &&& request.target_language@ == session.translate_language@
                &&& request.context@ == session.mode.name()
            },
            None => !session.translate,
        }
    }
}

/// What became of a translated segment.
#[derive(Debug)]
pub struct TranslationStep {
    /// The entry that was stored.
    pub entry: ConversationEntry,
    /// What to tell the observers, in this order.
    pub events: Vec<ServiceEvent>,
}

/// Stores what was recognised of a segment under the identifier `id` at
/// time `now`, and says what follows.
///
/// The store takes the entry and touches the conversation, or refuses
/// both. After a refusal nothing follows: no event, no translation. After a
/// success the segment event follows; then, if the session translates, the
/// request for the translation; if it does not and is a voice input
/// session, the voice input event.
pub fn record_transcription_at(
    store: &mut ConversationStore,
    session: &SessionMetadata,
    output: &TranscriptionOutput,
    id: String,
    now: i64,
) -> (step: AppResult<TranscriptionStep>)
    requires
        old(store).wf(),
    ensures
        final(store).wf(),
        match step {
            Ok(s) => {
                &&& !has_entry(old(store)@.entries, id@)
                &&& has_conversation(old(store)@.conversations, session.conversation_id@)
                &&& s.entry@ == transcription_entry(session, output, id@, now)
                &&& final(store)@ == old(store)@.appended(s.entry@)
                &&& event_views(s.events@) == transcription_events(session, output, id@)
                &&& s.asks_translation(session, output)
            },
            Err(e) => {
                &&& has_entry(old(store)@.entries, id@) || !has_conversation(
                    old(store)@.conversations,
                    session.conversation_id@,
                )
                &&& e is Database
                &&& final(store)@ == old(store)@
            },
        },
{
    let added = store.append_entry_at(
        id,
        NewEntry::transcription(
            session.conversation_id.as_str(),
            output.text.as_str(),
            borrow_text(&output.language),
        ),
        now,
    );
    let entry = match added {
        Ok(entry) => entry,
        Err(e) => {
            return Err(e);
        },
    };
    let mut events: Vec<ServiceEvent> = Vec::new();
    events.push(
        ServiceEvent::Segment {
            conversation_id: session.conversation_id.clone(),
            segment_id: output.segment_id.clone(),
            entry_id: entry.id.clone(),
            text: output.text.clone(),
            language: clone_text(&output.language),
            confidence: output.confidence,
            duration_ms: output.duration_ms,
            mode: session.mode,
        },
    );
    let translation = if session.translate {
        Some(
            TranslationRequest {
                segment_id: output.segment_id.clone(),
                text: output.text.clone(),
                target_language: session.translate_language.clone(),
                context: session.mode.as_str().to_string(),
            },
        )
    } else {
        match session.mode {
            RecordingMode::VoiceInput => {
                events.push(
                    ServiceEvent::VoiceInput {
                        conversation_id: session.conversation_id.clone(),
                        segment_id: output.segment_id.clone(),
                        transcription: output.text.clone(),
                        translation: None,
                        language: clone_text(&output.language),
                    },
                );
            },
            RecordingMode::Default => {},
        }
        None
    };
    assert(event_views(events@) =~= transcription_events(session, output, entry.id@));
    Ok(TranscriptionStep { entry, events, translation })
}

/// Whether `step` is what recording `output` for `session` under a fresh
/// identifier comes to, in a store that held `before` and now holds `after`.
///
/// The store took the entry, touched the conversation, and the step tells
/// the entry, the events and the translation to ask for; or the store
/// refused, which it does only where it does not hold the conversation or
/// already holds the identifier, and nothing has changed.
pub open spec fn transcription_recorded(
    before: StoreView,
    after: StoreView,
    session: &SessionMetadata,
    output: &TranscriptionOutput,
    step: AppResult<TranscriptionStep>,
) -> bool {
    match step {
        Ok(s) => {
            &&& s.entry@.id.len() == ID_LEN
            &&& !has_entry(before.entries, s.entry@.id)
            &&& has_conversation(before.conversations, session.conversation_id@)
            &&& s.entry@ == transcription_entry(session, output, s.entry@.id, s.entry.created_at)
            &&& after == before.appended(s.entry@)
            &&& event_views(s.events@) == transcription_events(session, output, s.entry@.id)
            &&& s.asks_translation(session, output)
        },
        Err(e) => {
            &&& e is Database
            &&& after == before
            &&& !has_conversation(before.conversations, session.conversation_id@)
                || may_hold_fresh_entry(before.entries)
        },
    }
}

/// Stores what was recognised of a segment under a fresh identifier, at the
/// time the clock shows, and says what follows; the entry that is returned
/// tells the identifier and the time. A session whose conversation the
/// store does not hold gets an error.
pub fn record_transcription(
    store: &mut ConversationStore,
    session: &SessionMetadata,
    output: &TranscriptionOutput,
) -> (step: AppResult<TranscriptionStep>)
    requires
        old(store).wf(),
    ensures
        final(store).wf(),
        transcription_recorded(old(store)@, final(store)@, session, output, step),
{
    let id = fresh_id();
    let now = now_millis();
    let ghost name = id@;
    let step = record_transcription_at(store, session, output, id, now);
    proof {
        if step is Err && has_conversation(old(store)@.conversations, session.conversation_id@) {
            assert(has_entry(old(store)@.entries, name));
        }
    }
    step
}

/// Takes the outcome of the recognition of a segment.
///
/// A failed recognition ends the pipeline of the segment: its error is
/// handed on, nothing is stored and nothing is told. What was recognised is
/// recorded as [`record_transcription`] does.
pub fn after_recognition(
    store: &mut ConversationStore,
    session: &SessionMetadata,
    recognition: AppResult<TranscriptionOutput>,
) -> (step: AppResult<TranscriptionStep>)
    requires
        old(store).wf(),
    ensures
        final(store).wf(),
        match recognition {
            Ok(output) => transcription_recorded(
                old(store)@,
                final(store)@,
                session,
                &output,
                step,
            ),
            Err(e) => step == Err::<TranscriptionStep, AppError>(e) && final(store)@ == old(
                store,
            )@,
        },
{
    match recognition {
        Ok(output) => record_transcription(store, session, &output),
        Err(e) => Err(e),
    }
}

/// Stores the translation that `request` asked for under the identifier
/// `id` at time `now`, and says what follows.
///
/// The store takes the entry and touches the conversation, or refuses
/// both; the entry of the recognised text is not touched either way. After
/// a success the translation event follows, and in a voice input session
/// the voice input event with both texts.
pub fn record_translation_at(
    store: &mut ConversationStore,
    session: &SessionMetadata,
    request: &TranslationRequest,
    translation: &str,
    id: String,
    now: i64,
) -> (step: AppResult<TranslationStep>)
    requires
        old(store).wf(),
    ensures
        final(store).wf(),
        match step {
            Ok(s) => {
                &&& !has_entry(old(store)@.entries, id@)
                &&& has_conversation(old(store)@.conversations, session.conversation_id@)
                &&& s.entry@ == translation_entry(session, request, translation@, id@, now)
                &&& final(store)@ == old(store)@.appended(s.entry@)
                &&& event_views(s.events@) == translation_events(
                    session,
                    request,
                    translation@,
                    id@,
                )
            },
            Err(e) => {
                &&& has_entry(old(store)@.entries, id@) || !has_conversation(
                    old(store)@.conversations,
                    session.conversation_id@,
                )
                &&& e is Database
                &&& final(store)@ == old(store)@
            },
        },
{
    let added = store.append_entry_at(
        id,
        NewEntry::translation(
            session.conversation_id.as_str(),
            request.text.as_str(),
            translation,
            request.target_language.as_str(),
        ),
        now,
    );
    let entry = match added {
        Ok(entry) => entry,
        Err(e) => {
            return Err(e);
        },
    };
    let mut events: Vec<ServiceEvent> = Vec::new();
    events.push(
        ServiceEvent::Translation {
            conversation_id: session.conversation_id.clone(),
            segment_id: request.segment_id.clone(),
            entry_id: entry.id.clone(),
            translation: translation.to_string(),
            target_language: request.target_language.clone(),
            mode: session.mode,
        },
    );
    match session.mode {
        RecordingMode::VoiceInput => {
            events.push(
                ServiceEvent::VoiceInput {
                    conversation_id: session.conversation_id.clone(),
                    segment_id: request.segment_id.clone(),
                    transcription: request.text.clone(),
                    translation: Some(translation.to_string()),
                    language: Some(request.target_language.clone()),
                },
            );
        },
        RecordingMode::Default => {},
    }
    assert(event_views(events@) =~= translation_events(session, request, translation@, entry.id@));
    Ok(TranslationStep { entry, events })
}

/// Whether `step` is what recording `translation` for `request` under a
/// fresh identifier comes to, in a store that held `before` and now holds
/// `after`.
pub open spec fn translation_recorded(
    before: StoreView,
    after: StoreView,
    session: &SessionMetadata,
    request: &TranslationRequest,
    translation: Seq<char>,
    step: AppResult<TranslationStep>,
) -> bool {
    match step {
        Ok(s) => {
            &&& s.entry@.id.len() == ID_LEN
            &&& !has_entry(before.entries, s.entry@.id)
            &&& has_conversation(before.conversations, session.conversation_id@)
            &&& s.entry@ == translation_entry(
                session,
                request,
                translation,
                s.entry@.id,
                s.entry.created_at,
            )
            &&& after == before.appended(s.entry@)
            &&& event_views(s.events@) == translation_events(
                session,
                request,
                translation,
                s.entry@.id,
            )
        },
        Err(e) => {
            &&& e is Database
            &&& after == before
            &&& !has_conversation(before.conversations, session.conversation_id@)
                || may_hold_fresh_entry(before.entries)
        },
    }
}

/// Stores the translation that `request` asked for under a fresh
/// identifier, at the time the clock shows, and says what follows; the
/// entry that is returned tells the identifier and the time.
pub fn record_translation(
    store: &mut ConversationStore,
    session: &SessionMetadata,
    request: &TranslationRequest,
    translation: &str,
) -> (step: AppResult<TranslationStep>)
    requires
        old(store).wf(),
    ensures
        final(store).wf(),
        translation_recorded(old(store)@, final(store)@, session, request, translation@, step),
{
    let id = fresh_id();
    let now = now_millis();
    let ghost name = id@;
    let step = record_translation_at(store, session, request, translation, id, now);
    proof {
        if step is Err && has_conversation(old(store)@.conversations, session.conversation_id@) {
            assert(has_entry(old(store)@.entries, name));
        }
    }
    step
}

/// Takes the outcome of the translation that `request` asked for.
///
/// A failed translation ends the pipeline of the segment: its error is
/// handed on, nothing more is stored or told, and what was stored of the
/// recognised text stays. A translation is recorded as
/// [`record_translation`] does.
pub fn after_translation(
    store: &mut ConversationStore,
    session: &SessionMetadata,
    request: &TranslationRequest,
    translation: AppResult<String>,
) -> (step: AppResult<TranslationStep>)
    requires
        old(store).wf(),
    ensures
        final(store).wf(),
        match translation {
            Ok(text) => translation_recorded(
                old(store)@,
                final(store)@,
                session,
                request,
                text@,
                step,
            ),
            Err(e) => step == Err::<TranslationStep, AppError>(e) && final(store)@ == old(
                store,
            )@,
        },
{
    match translation {
        Ok(text) => record_translation(store, session, request, text.as_str()),
        Err(e) => Err(e),
    }
}

/// The transcript of `entries`: the text of each transcription among them,
/// in order, each followed by a line break.
pub open spec fn transcript_of(entries: Seq<EntryView>) -> Seq<char>
    decreases entries.len(),
{
    if entries.len() == 0 {
        Seq::empty()
    } else if entries.last().kind == EntryKind::Transcription {
        transcript_of(entries.drop_last()) + entries.last().text + "\n"@
    } else {
        transcript_of(entries.drop_last())
    }
}

/// Computes [`transcript_of`].
pub fn transcript(entries: &Vec<ConversationEntry>) -> (text: String)
    ensures
        text@ == transcript_of(entry_views(entries@)),
{
    let ghost views = entry_views(entries@);
    let mut text = String::new();
    let mut k: usize = 0;
    while k < entries.len()
        invariant
            k <= entries.len(),
            views == entry_views(entries@),
            text@ == transcript_of(views.take(k as int)),
        decreases entries.len() - k,
    {
        proof {
            let upto = views.take(k as int + 1);
            assert(upto.drop_last() == views.take(k as int));
            assert(upto.last() == entries[k as int]@);
        }
        match entries[k].kind {
            EntryKind::Transcription => {
                text.append(entries[k].text.as_str());
                text.append("\n");
            },
            _ => {},
        }
        k = k + 1;
    }
    assert(views.take(k as int) == views);
    text
}

/// What to ask of the summary provider when a session has ended.
#[derive(Debug)]
pub struct SummaryRequest {
    /// The conversation to summarise.
    pub conversation_id: String,
    /// Its transcript.
    pub transcript: String,
    /// The language to summarise in.
    pub language: String,
}

/// Says whether the ended `session` is to be summarised, and of what.
///
/// Only a session in default mode is summarised, and only if the transcript
/// of its conversation is not blank. The summary is asked for in the
/// configured translation language.
pub fn summary_request(session: &SessionMetadata, config: &AppConfig, store: &ConversationStore)
    -> (request: Option<SummaryRequest>)
    ensures
        match request {
            Some(r) => {
                &&& session.mode == RecordingMode::Default
                &&& r.conversation_id@ == session.conversation_id@
                &&& r.transcript@ == transcript_of(
                    entries_of(store@.entries, session.conversation_id@),
                )
                &&& !is_blank(r.transcript@)
                &&& r.language@ == config.translate_language@
            },
            None => session.mode != RecordingMode::Default || is_blank(
                transcript_of(entries_of(store@.entries, session.conversation_id@)),
            ),
        },
{
    match session.mode {
        RecordingMode::VoiceInput => None,
        RecordingMode::Default => {
            let entries = store.entries_for_conversation(session.conversation_id.as_str(), None);
            let text = transcript(&entries);
            if blank(text.as_str()) {
                None
            } else {
                Some(
                    SummaryRequest {
                        conversation_id: session.conversation_id.clone(),
                        transcript: text,
                        language: config.translate_language.clone(),
                    },
                )
            }
        },
    }
}

/// The entry that holds the summary that was asked for by `request`.
pub open spec fn summary_entry(
    request: &SummaryRequest,
    summary: Seq<char>,
    id: Seq<char>,
    now: i64,
) -> EntryView {
    EntryView {
        id,
        conversation_id: request.conversation_id@,
        kind: EntryKind::Summary,
        text: summary,
        translated_text: None,
        language: Some(request.language@),
        created_at: now,
        metadata: None,
    }
}

/// What became of a summary.
#[derive(Debug)]
pub struct SummaryStep {
    /// The entry that was stored.
    pub entry: ConversationEntry,
    /// What to tell the observers.
    pub event: ServiceEvent,
}

/// Stores the summary of a conversation under the identifier `id` at time
/// `now`, and says what to tell of it.
///
/// The store takes the entry and touches the conversation, or refuses
/// both.
pub fn record_summary_at(
    store: &mut ConversationStore,
    request: &SummaryRequest,
    summary: &str,
    id: String,
    now: i64,
) -> (step: AppResult<SummaryStep>)
    requires
        old(store).wf(),
    ensures
        final(store).wf(),
        match step {
            Ok(s) => {
                &&& !has_entry(old(store)@.entries, id@)
                &&& has_conversation(old(store)@.conversations, request.conversation_id@)
                &&& s.entry@ == summary_entry(request, summary@, id@, now)
                &&& final(store)@ == old(store)@.appended(s.entry@)
                &&& s.event@ == (EventView::Summary {
                    conversation_id: request.conversation_id@,
                    summary: summary@,
                })
            },
            Err(e) => {
                &&& has_entry(old(store)@.entries, id@) || !has_conversation(
                    old(store)@.conversations,
                    request.conversation_id@,
                )
                &&& e is Database
                &&& final(store)@ == old(store)@
            },
        },
{
    let added = store.append_entry_at(
        id,
        NewEntry::summary(request.conversation_id.as_str(), summary, request.language.as_str()),
        now,
    );
    match added {
        Ok(entry) => Ok(
            SummaryStep {
                entry,
                event: ServiceEvent::Summary {
                    conversation_id: request.conversation_id.clone(),
                    summary: summary.to_string(),
                },
            },
        ),
        Err(e) => Err(e),
    }
}

/// Whether `step` is what recording `summary` for `request` under a fresh
/// identifier comes to, in a store that held `before` and now holds
/// `after`.
pub open spec fn summary_recorded(
    before: StoreView,
    after: StoreView,
    request: &SummaryRequest,
    summary: Seq<char>,
    step: AppResult<SummaryStep>,
) -> bool {
    match step {
        Ok(s) => {
            &&& s.entry@.id.len() == ID_LEN
            &&& !has_entry(before.entries, s.entry@.id)
            &&& has_conversation(before.conversations, request.conversation_id@)
            &&& s.entry@ == summary_entry(request, summary, s.entry@.id, s.entry.created_at)
            &&& after == before.appended(s.entry@)
            &&& s.event@ == (EventView::Summary {
                conversation_id: request.conversation_id@,
                summary,
            })
        },
        Err(e) => {
            &&& e is Database
            &&& after == before
            &&& !has_conversation(before.conversations, request.conversation_id@)
                || may_hold_fresh_entry(before.entries)
        },
    }
}

/// Stores the summary of a conversation under a fresh identifier, at the
/// time the clock shows, and says what to tell of it; the entry that is
/// returned tells the identifier and the time.
pub fn record_summary(
    store: &mut ConversationStore,
    request: &SummaryRequest,
    summary: &str,
) -> (step: AppResult<SummaryStep>)
    requires
        old(store).wf(),
    ensures
        final(store).wf(),
        summary_recorded(old(store)@, final(store)@, request, summary@, step),
{
    let id = fresh_id();
    let now = now_millis();
    let ghost name = id@;
    let step = record_summary_at(store, request, summary, id, now);
    proof {
        if step is Err && has_conversation(old(store)@.conversations, request.conversation_id@) {
            assert(has_entry(old(store)@.entries, name));
        }
    }
    step
}

/// Takes the outcome of the summary that `request` asked for.
///
/// A failed summary is handed on as it is, and nothing is stored or told.
/// A summary is recorded as [`record_summary`] does.
pub fn after_summary(
    store: &mut ConversationStore,
    request: &SummaryRequest,
    summary: AppResult<String>,
) -> (step: AppResult<SummaryStep>)
    requires
        old(store).wf(),
    ensures
        final(store).wf(),
        match summary {
            Ok(text) => summary_recorded(old(store)@, final(store)@, request, text@, step),
            Err(e) => step == Err::<SummaryStep, AppError>(e) && final(store)@ == old(store)@,
        },
{
    match summary {
        Ok(text) => record_summary(store, request, text.as_str()),
        Err(e) => Err(e),
    }
}

/// A media file that was cut into segments and has its conversation.
#[derive(Debug)]
pub struct MediaJob {
    /// What the pipelines of the segments will know.
    pub session: SessionMetadata,
    /// The conversation that was created for the file.
    pub conversation: Conversation,
    /// The segments, in the order of the recording.
    pub segments: Vec<AudioSegment>,
    /// The number that progress is counted against: the number of segments,
    /// but at least one.
    pub total: usize,
}

/// Prepares the transcription of a decoded media file: creates its
/// conversation and cuts the recording into segments.
///
/// A recording without samples is refused with an error, before anything is
/// created. The session of the job is in default mode, translates if
/// `translate` says so, into `target_language` or else the configured
/// language, and overrides nothing. The segments are those of the whole
/// recording under the capture settings of `config`.
pub fn plan_media_job(
    samples: &[u32],
    sample_rate: u32,
    translate: bool,
    target_language: Option<String>,
    config: &AppConfig,
    store: &mut ConversationStore,
) -> (job: AppResult<MediaJob>)
    requires
        old(store).wf(),
    ensures
        final(store).wf(),
        match job {
            Ok(j) => {
                &&& samples@.len() > 0
                &&& !has_conversation(old(store)@.conversations, j.conversation@.id)
                &&& j.conversation@ == new_conversation(
                    j.conversation@.id,
                    Some(MEDIA_TITLE@),
                    j.conversation.created_at,
                )
                &&& final(store)@ == old(store)@.with_conversation(j.conversation@)
                &&& j.session.conversation_id@ == j.conversation@.id
                &&& j.session.mode == RecordingMode::Default
                &&& j.session.translate == translate
                &&& j.session.translate_language@ == match target_language {
                    Some(asked) => asked@,
                    None => config.translate_language@,
                }
                &&& j.session.override_recognition_engine is None
                &&& j.session.override_transcribe_language is None
                &&& samples_of(j.segments@) == segments_of(
                    cut_rule(
                        sample_rate,
                        config.silence_rms_threshold,
                        config.min_silence_ms,
                        SESSION_MAX_SEGMENT_MS,
                    ),
                    samples@,
                )
                &&& forall|i: int|
                    0 <= i < j.segments.len() ==> {
                        &&& (#[trigger] j.segments[i]).samples@.len() > 0
                        &&& j.segments[i].carries(j.segments[i].samples@, sample_rate)
                        &&& j.segments[i].id@.len() == ID_LEN
                    }
                &&& j.total == if j.segments.len() == 0 {
                    1
                } else {
                    j.segments.len()
                }
            },
            Err(e) => {
                &&& final(store)@ == old(store)@
                &&& if samples@.len() == 0 {
                    e matches AppError::Other(why) && why@ == "Media file contains no audio"@
                } else {
                    e is Database && may_hold_fresh_conversation(old(store)@.conversations)
                }
            },
        },
{
    if samples.len() == 0 {
        return Err(AppError::Other("Media file contains no audio".to_string()));
    }
    let recorder = recorder_config(config);
    let conversation = match store.create_conversation(Some(MEDIA_TITLE)) {
        Ok(c) => c,
        Err(e) => {
            return Err(e);
        },
    };
    let translate_language = match target_language {
        Some(asked) => asked,
        None => config.translate_language.clone(),
    };
    let session = SessionMetadata {
        conversation_id: conversation.id.clone(),
        mode: RecordingMode::Default,
        translate,
        translate_language,
        override_recognition_engine: None,
        override_transcribe_language: None,
    };
    let segments = segment_audio(samples, sample_rate, &recorder);
    let total = if segments.len() == 0 {
        1
    } else {
        segments.len()
    };
    Ok(MediaJob { session, conversation, segments, total })
}

/// The event that tells that segment `index`, counted from zero, of a media
/// job is about to be processed.
pub fn media_progress(job: &MediaJob, index: usize) -> (event: ServiceEvent)
    requires
        index < usize::MAX,
    ensures
        event@ == (EventView::MediaProgress {
            conversation_id: job.conversation.id@,
            current: (index + 1) as usize,
            total: job.total,
        }),
{
    ServiceEvent::MediaProgress {
        conversation_id: job.conversation.id.clone(),
        current: index + 1,
        total: job.total,
    }
}

/// The event that tells that all segments of a media job were processed.
pub fn media_complete(job: &MediaJob) -> (event: ServiceEvent)
    ensures
        event@ == (EventView::MediaComplete { conversation_id: job.conversation.id@ }),
{
    ServiceEvent::MediaComplete { conversation_id: job.conversation.id.clone() }
}

} // verus!
