//! The conversation store: conversations and the entries appended to them.
//!
//! The store keeps what a database table would: identifiers are unique,
//! every entry belongs to a conversation that exists, and deleting a
//! conversation deletes its entries. Times are milliseconds since the Unix
//! epoch.

use vstd::prelude::*;
use crate::clock::{fresh_id, now_millis, ID_LEN};
use crate::error::{AppError, AppResult};
use crate::rank::{millis_rank, rank_of_millis};
use crate::text::trimmed;

verus! {

/// Title given to a conversation that was created without one.
pub const DEFAULT_TITLE: &'static str = "New Conversation";

/// What an entry holds.
#[derive(Clone, Copy, Debug, PartialEq, Eq, Structural)]
pub enum EntryKind {
    /// Recognised speech.
    Transcription,
    /// A translation of recognised speech.
    Translation,
    /// A summary of a conversation.
    Summary,
    /// A rewritten text.
    Optimization,
}

impl EntryKind {
    /// The name under which the kind is stored.
    pub open spec fn name(self) -> Seq<char> {
        match self {
            EntryKind::Transcription => "transcription"@,
            EntryKind::Translation => "translation"@,
            EntryKind::Summary => "summary"@,
            EntryKind::Optimization => "optimization"@,
        }
    }

    /// The kind stored under `name`; any name that is not one of the other
    /// three stands for a transcription.
    pub open spec fn named(name: Seq<char>) -> EntryKind {
        if name == "translation"@ {
            EntryKind::Translation
        } else if name == "summary"@ {
            EntryKind::Summary
        } else if name == "optimization"@ {
            EntryKind::Optimization
        } else {
            EntryKind::Transcription
        }
    }

    /// The name under which the kind is stored.
    pub fn as_str(&self) -> (name: &'static str)
        ensures
            name@ == self.name(),
    {
        match self {
            EntryKind::Transcription => "transcription",
            EntryKind::Translation => "translation",
            EntryKind::Summary => "summary",
            EntryKind::Optimization => "optimization",
        }
    }

    /// Reading back a stored name gives the kind that wrote it.
    pub proof fn lemma_name_round_trip(kind: EntryKind)
        ensures
            EntryKind::named(kind.name()) == kind,
    {
        reveal_strlit("transcription");
        reveal_strlit("translation");
        reveal_strlit("summary");
        reveal_strlit("optimization");
        assert("transcription"@.len() == 13);
        assert("translation"@.len() == 11);
        assert("summary"@.len() == 7);
        assert("optimization"@.len() == 12);
    }
}

impl<'a> From<&'a str> for EntryKind {
    fn from(value: &'a str) -> (kind: EntryKind) {
        if *value == *"translation" {
            EntryKind::Translation
        } else if *value == *"summary" {
            EntryKind::Summary
        } else if *value == *"optimization" {
            EntryKind::Optimization
        } else {
            EntryKind::Transcription
        }
    }
}

impl<'a> vstd::std_specs::convert::FromSpecImpl<&'a str> for EntryKind {
    open spec fn obeys_from_spec() -> bool {
        true
    }

    open spec fn from_spec(value: &'a str) -> EntryKind {
        EntryKind::named(value@)
    }
}

/// A conversation: a titled, ordered log of entries.
#[derive(Debug)]
pub struct Conversation {
    /// Identifier, unique in the store.
    pub id: String,
    /// Title shown for the conversation; never blank when the store made it.
    pub title: String,
    /// Time of creation.
    pub created_at: i64,
    /// Time of the latest change; never before `created_at`.
    pub updated_at: i64,
    /// Whether the conversation is listed before all unpinned ones.
    pub pinned: bool,
    /// Rank within the pinned or the unpinned group, as the order key of a
    /// binary64 number (see [`crate::rank`]); higher ranks come first.
    pub order_rank: i64,
}

/// A conversation as contracts see it.
pub struct ConversationView {
    pub id: Seq<char>,
    pub title: Seq<char>,
    pub created_at: i64,
    pub updated_at: i64,
    pub pinned: bool,
    pub order_rank: i64,
}

impl View for Conversation {
    type V = ConversationView;

    open spec fn view(&self) -> ConversationView {
        ConversationView {
            id: self.id@,
            title: self.title@,
            created_at: self.created_at,
            updated_at: self.updated_at,
            pinned: self.pinned,
            order_rank: self.order_rank,
        }
    }
}

impl Clone for Conversation {
    fn clone(&self) -> (copy: Self)
        ensures
            copy == *self,
    {
        Conversation {
            id: self.id.clone(),
            title: self.title.clone(),
            created_at: self.created_at,
            updated_at: self.updated_at,
            pinned: self.pinned,
            order_rank: self.order_rank,
        }
    }
}

/// One unit of transcript content within a conversation.
#[derive(Debug)]
pub struct ConversationEntry {
    /// Identifier, unique in the store.
    pub id: String,
    /// The conversation the entry belongs to.
    pub conversation_id: String,
    /// What the entry holds.
    pub kind: EntryKind,
    /// The text: recognised speech, or the source of a translation.
    pub text: String,
    /// The translation, for entries that hold one.
    pub translated_text: Option<String>,
    /// Language of the text, or the target language of the translation.
    pub language: Option<String>,
    /// Time at which the entry was stored.
    pub created_at: i64,
    /// Further data about the entry, as JSON text.
    pub metadata: Option<String>,
}

/// The view of an optional text.
pub open spec fn text_view(text: Option<String>) -> Option<Seq<char>> {
    match text {
        Some(t) => Some(t@),
        None => None,
    }
}

/// The view of an optional borrowed text.
pub open spec fn str_view(text: Option<&str>) -> Option<Seq<char>> {
    match text {
        Some(t) => Some(t@),
        None => None,
    }
}

/// An entry as contracts see it.
pub struct EntryView {
    pub id: Seq<char>,
    pub conversation_id: Seq<char>,
    pub kind: EntryKind,
    pub text: Seq<char>,
    pub translated_text: Option<Seq<char>>,
    pub language: Option<Seq<char>>,
    pub created_at: i64,
    pub metadata: Option<Seq<char>>,
}

impl View for ConversationEntry {
    type V = EntryView;

    open spec fn view(&self) -> EntryView {
        EntryView {
            id: self.id@,
            conversation_id: self.conversation_id@,
            kind: self.kind,
            text: self.text@,
            translated_text: text_view(self.translated_text),
            language: text_view(self.language),
            created_at: self.created_at,
            metadata: text_view(self.metadata),
        }
    }
}

/// Copies an optional text.
pub fn clone_text(text: &Option<String>) -> (copy: Option<String>)
    ensures
        copy == *text,
{
    match text {
        Some(t) => Some(t.clone()),
        None => None,
    }
}

/// Makes an owned copy of an optional borrowed text.
pub fn own_text(text: Option<&str>) -> (copy: Option<String>)
    ensures
        text_view(copy) == str_view(text),
{
    match text {
        Some(t) => Some(t.to_string()),
        None => None,
    }
}

impl Clone for ConversationEntry {
    fn clone(&self) -> (copy: Self)
        ensures
            copy == *self,
    {
        ConversationEntry {
            id: self.id.clone(),
            conversation_id: self.conversation_id.clone(),
            kind: self.kind,
            text: self.text.clone(),
            translated_text: clone_text(&self.translated_text),
            language: clone_text(&self.language),
            created_at: self.created_at,
            metadata: clone_text(&self.metadata),
        }
    }
}

/// What is to be appended to a conversation.
#[derive(Debug)]
pub struct NewEntry<'a> {
    /// The conversation to append to.
    pub conversation_id: &'a str,
    /// What the entry holds.
    pub kind: EntryKind,
    /// The text.
    pub text: &'a str,
    /// The translation, if the entry holds one.
    pub translated_text: Option<&'a str>,
    /// Language of the text or of the translation.
    pub language: Option<&'a str>,
    /// Further data, as JSON text.
    pub metadata: Option<String>,
}

impl<'a> NewEntry<'a> {
    /// The entry that results when this is stored under `id` at time `now`.
    pub open spec fn stored(&self, id: Seq<char>, now: i64) -> EntryView {
        EntryView {
            id,
            conversation_id: self.conversation_id@,
            kind: self.kind,
            text: self.text@,
            translated_text: str_view(self.translated_text),
            language: str_view(self.language),
            created_at: now,
            metadata: text_view(self.metadata),
        }
    }

    /// Recognised speech, in `language` if that is known.
    pub fn transcription(
        conversation_id: &'a str,
        text: &'a str,
        language: Option<&'a str>,
    ) -> (entry: NewEntry<'a>)
        ensures
            entry.conversation_id@ == conversation_id@,
            entry.kind == EntryKind::Transcription,
            entry.text@ == text@,
            entry.translated_text is None,
            str_view(entry.language) == str_view(language),
            entry.metadata is None,
    {
        NewEntry {
            conversation_id,
            kind: EntryKind::Transcription,
            text,
            translated_text: None,
            language,
            metadata: None,
        }
    }

    /// The translation of `text` into `language`.
    pub fn translation(
        conversation_id: &'a str,
        text: &'a str,
        translation: &'a str,
        language: &'a str,
    ) -> (entry: NewEntry<'a>)
        ensures
            entry.conversation_id@ == conversation_id@,
            entry.kind == EntryKind::Translation,
            entry.text@ == text@,
            str_view(entry.translated_text) == Some(translation@),
            str_view(entry.language) == Some(language@),
            entry.metadata is None,
    {
        NewEntry {
            conversation_id,
            kind: EntryKind::Translation,
            text,
            translated_text: Some(translation),
            language: Some(language),
            metadata: None,
        }
    }

    /// A summary of the conversation, written in `language`.
    pub fn summary(conversation_id: &'a str, text: &'a str, language: &'a str) -> (entry: NewEntry<
        'a,
    >)
        ensures
            entry.conversation_id@ == conversation_id@,
            entry.kind == EntryKind::Summary,
            entry.text@ == text@,
            entry.translated_text is None,
            str_view(entry.language) == Some(language@),
            entry.metadata is None,
    {
        NewEntry {
            conversation_id,
            kind: EntryKind::Summary,
            text,
            translated_text: None,
            language: Some(language),
            metadata: None,
        }
    }
}

/// Lends an optional text.
pub fn borrow_text(text: &Option<String>) -> (lent: Option<&str>)
    ensures
        str_view(lent) == text_view(*text),
{
    match text {
        Some(t) => Some(t.as_str()),
        None => None,
    }
}

/// The later of two times.
pub open spec fn later(a: i64, b: i64) -> i64 {
    if a >= b {
        a
    } else {
        b
    }
}

impl ConversationView {
    /// The conversation after a change at time `now`: `updated_at` moves
    /// forward to `now`, and never back.
    pub open spec fn touched(self, now: i64) -> ConversationView {
        ConversationView { updated_at: later(self.updated_at, now), ..self }
    }

    /// Whether the conversation is listed no later than `other`: pinned
    /// before unpinned, and within each group the higher rank first.
    pub open spec fn precedes(self, other: ConversationView) -> bool {
        (self.pinned && !other.pinned) || (self.pinned == other.pinned && self.order_rank
            >= other.order_rank)
    }
}

/// The views of `items`, in order.
pub open spec fn conversation_views(items: Seq<Conversation>) -> Seq<ConversationView> {
    Seq::new(items.len(), |i: int| items[i]@)
}

/// The views of `items`, in order.
pub open spec fn entry_views(items: Seq<ConversationEntry>) -> Seq<EntryView> {
    Seq::new(items.len(), |i: int| items[i]@)
}

/// Whether a conversation with identifier `id` is among `conversations`.
pub open spec fn has_conversation(conversations: Seq<ConversationView>, id: Seq<char>) -> bool {
    exists|i: int| 0 <= i < conversations.len() && (#[trigger] conversations[i]).id == id
}

/// Whether an entry with identifier `id` is among `entries`.
pub open spec fn has_entry(entries: Seq<EntryView>, id: Seq<char>) -> bool {
    exists|i: int| 0 <= i < entries.len() && (#[trigger] entries[i]).id == id
}

/// Whether some conversation among `conversations` has an identifier of
/// the length of a fresh one: without such a conversation, no fresh
/// identifier can be taken already.
pub open spec fn may_hold_fresh_conversation(conversations: Seq<ConversationView>) -> bool {
    exists|id: Seq<char>| id.len() == ID_LEN && #[trigger] has_conversation(conversations, id)
}

/// Whether some entry among `entries` has an identifier of the length of a
/// fresh one.
pub open spec fn may_hold_fresh_entry(entries: Seq<EntryView>) -> bool {
    exists|id: Seq<char>| id.len() == ID_LEN && #[trigger] has_entry(entries, id)
}

/// Whether `entries` are in the order of their times of storage.
pub open spec fn time_ordered(entries: Seq<EntryView>) -> bool {
    forall|i: int, j: int|
        0 <= i < j < entries.len() ==> (#[trigger] entries[i]).created_at <= (
        #[trigger] entries[j]).created_at
}

/// `entries` with `entry` put behind every entry that was stored no later.
pub open spec fn insert_by_time(entries: Seq<EntryView>, entry: EntryView) -> Seq<EntryView>
    decreases entries.len(),
{
    if entries.len() == 0 || entries.last().created_at <= entry.created_at {
        entries.push(entry)
    } else {
        insert_by_time(entries.drop_last(), entry).push(entries.last())
    }
}

/// `conversations` with the one named `id`, if any, touched at `now`.
pub open spec fn touch(conversations: Seq<ConversationView>, id: Seq<char>, now: i64) -> Seq<
    ConversationView,
> {
    Seq::new(
        conversations.len(),
        |i: int|
            if conversations[i].id == id {
                conversations[i].touched(now)
            } else {
                conversations[i]
            },
    )
}

/// `conversations` with the one named `id`, if any, given `title`.
pub open spec fn retitle(
    conversations: Seq<ConversationView>,
    id: Seq<char>,
    title: Seq<char>,
    now: i64,
) -> Seq<ConversationView> {
    Seq::new(
        conversations.len(),
        |i: int|
            if conversations[i].id == id {
                ConversationView { title, ..conversations[i].touched(now) }
            } else {
                conversations[i]
            },
    )
}

/// `conversations` with the one named `id`, if any, pinned or unpinned.
pub open spec fn pin(conversations: Seq<ConversationView>, id: Seq<char>, pinned: bool, now: i64)
    -> Seq<ConversationView> {
    Seq::new(
        conversations.len(),
        |i: int|
            if conversations[i].id == id {
                ConversationView { pinned, ..conversations[i].touched(now) }
            } else {
                conversations[i]
            },
    )
}

/// `conversations` with the one named `id`, if any, given the rank of key
/// `order_rank`.
pub open spec fn rerank(
    conversations: Seq<ConversationView>,
    id: Seq<char>,
    order_rank: i64,
    now: i64,
) -> Seq<ConversationView> {
    Seq::new(
        conversations.len(),
        |i: int|
            if conversations[i].id == id {
                ConversationView { order_rank, ..conversations[i].touched(now) }
            } else {
                conversations[i]
            },
    )
}

/// `conversations` without the one named `id`.
pub open spec fn without_conversation(conversations: Seq<ConversationView>, id: Seq<char>) -> Seq<
    ConversationView,
>
    decreases conversations.len(),
{
    if conversations.len() == 0 {
        conversations
    } else if conversations.last().id == id {
        without_conversation(conversations.drop_last(), id)
    } else {
        without_conversation(conversations.drop_last(), id).push(conversations.last())
    }
}

/// `entries` without those of the conversation named `id`.
pub open spec fn without_entries_of(entries: Seq<EntryView>, id: Seq<char>) -> Seq<EntryView>
    decreases entries.len(),
{
    if entries.len() == 0 {
        entries
    } else if entries.last().conversation_id == id {
        without_entries_of(entries.drop_last(), id)
    } else {
        without_entries_of(entries.drop_last(), id).push(entries.last())
    }
}

/// The entries of the conversation named `id`, in the order of `entries`.
pub open spec fn entries_of(entries: Seq<EntryView>, id: Seq<char>) -> Seq<EntryView>
    decreases entries.len(),
{
    if entries.len() == 0 {
        entries
    } else if entries.last().conversation_id == id {
        entries_of(entries.drop_last(), id).push(entries.last())
    } else {
        entries_of(entries.drop_last(), id)
    }
}

/// The first `limit` of `entries`, or all of them where there is no limit
/// or there are fewer.
pub open spec fn limited(entries: Seq<EntryView>, limit: Option<usize>) -> Seq<EntryView> {
    match limit {
        Some(n) => if n < entries.len() {
            entries.take(n as int)
        } else {
            entries
        },
        None => entries,
    }
}

/// `listed` with `conversation` put behind every conversation that precedes
/// it.
pub open spec fn insert_ranked(listed: Seq<ConversationView>, conversation: ConversationView)
    -> Seq<ConversationView>
    decreases listed.len(),
{
    if listed.len() == 0 || listed.last().precedes(conversation) {
        listed.push(conversation)
    } else {
        insert_ranked(listed.drop_last(), conversation).push(listed.last())
    }
}

/// `conversations` in the order in which they are listed: pinned before
/// unpinned, each group by descending rank, and conversations of one group
/// and rank in the order of `conversations`.
pub open spec fn ranked(conversations: Seq<ConversationView>) -> Seq<ConversationView>
    decreases conversations.len(),
{
    if conversations.len() == 0 {
        conversations
    } else {
        insert_ranked(ranked(conversations.drop_last()), conversations.last())
    }
}

/// Whether `listed` is in listing order.
pub open spec fn in_listing_order(listed: Seq<ConversationView>) -> bool {
    forall|i: int, j: int|
        0 <= i < j < listed.len() ==> (#[trigger] listed[i]).precedes(#[trigger] listed[j])
}

/// The title a new conversation gets: the given one, trimmed, or the
/// default where none is given or the given one is blank.
pub open spec fn resolved_title(title: Option<Seq<char>>) -> Seq<char> {
    match title {
        Some(t) => if trimmed(t).len() > 0 {
            trimmed(t)
        } else {
            DEFAULT_TITLE@
        },
        None => DEFAULT_TITLE@,
    }
}

/// What the store holds, as contracts see it.
pub struct StoreView {
    /// The conversations, in the order of their creation.
    pub conversations: Seq<ConversationView>,
    /// The entries of all conversations, in the order of their storage.
    pub entries: Seq<EntryView>,
}

impl StoreView {
    /// What holds of every store: identifiers are unique, every entry
    /// belongs to a conversation of the store, entries are in the order of
    /// their times, and no conversation was updated before it was created.
    pub open spec fn wf(self) -> bool {
        &&& forall|i: int, j: int|
            0 <= i < j < self.conversations.len() ==> (#[trigger] self.conversations[i]).id != (
            #[trigger] self.conversations[j]).id
        &&& forall|i: int, j: int|
            0 <= i < j < self.entries.len() ==> (#[trigger] self.entries[i]).id != (
            #[trigger] self.entries[j]).id
        &&& forall|i: int|
            0 <= i < self.entries.len() ==> has_conversation(
                self.conversations,
                (#[trigger] self.entries[i]).conversation_id,
            )
        &&& time_ordered(self.entries)
        &&& forall|i: int|
            0 <= i < self.conversations.len() ==> (#[trigger] self.conversations[i]).created_at
                <= self.conversations[i].updated_at
    }

    /// The store with `conversation` added.
    pub open spec fn with_conversation(self, conversation: ConversationView) -> StoreView {
        StoreView { conversations: self.conversations.push(conversation), ..self }
    }

    /// The store with `entry` added, its conversation untouched.
    pub open spec fn with_entry(self, entry: EntryView) -> StoreView {
        StoreView { entries: insert_by_time(self.entries, entry), ..self }
    }

    /// The store after `entry` was appended: the entry is added and its
    /// conversation touched at the entry's time.
    pub open spec fn appended(self, entry: EntryView) -> StoreView {
        StoreView {
            conversations: touch(self.conversations, entry.conversation_id, entry.created_at),
            entries: insert_by_time(self.entries, entry),
        }
    }

    /// The store without the conversation named `id` and without its
    /// entries.
    pub open spec fn without(self, id: Seq<char>) -> StoreView {
        StoreView {
            conversations: without_conversation(self.conversations, id),
            entries: without_entries_of(self.entries, id),
        }
    }
}

/// A new conversation with identifier `id`, created at `now`: both times
/// are `now`, the rank is the number `now`, and it is not pinned.
pub open spec fn new_conversation(id: Seq<char>, title: Option<Seq<char>>, now: i64)
    -> ConversationView {
    ConversationView {
        id,
        title: resolved_title(title),
        created_at: now,
        updated_at: now,
        pinned: false,
        order_rank: millis_rank(now),
    }
}

/// Chooses between a title that was already trimmed and the default.
pub fn title_or_default(trimmed_title: Option<&str>) -> (title: String)
    ensures
        title@ == match trimmed_title {
            Some(t) => if t@.len() > 0 {
                t@
            } else {
                DEFAULT_TITLE@
            },
            None => DEFAULT_TITLE@,
        },
{
    match trimmed_title {
        Some(t) => if t.is_empty() {
            DEFAULT_TITLE.to_string()
        } else {
            t.to_string()
        },
        None => DEFAULT_TITLE.to_string(),
    }
}

/// The title a new conversation gets for the title that was asked for.
pub fn resolve_title(title: Option<&str>) -> (resolved: String)
    ensures
        resolved@ == resolved_title(str_view(title)),
        resolved@.len() > 0,
{
    proof {
        reveal_strlit("New Conversation");
    }
    match title {
        Some(t) => title_or_default(Some(t.trim())),
        None => title_or_default(None),
    }
}

/// The later of two times.
pub fn later_of(a: i64, b: i64) -> (t: i64)
    ensures
        t == later(a, b),
{
    if a >= b {
        a
    } else {
        b
    }
}

/// Conversations and their entries.
pub struct ConversationStore {
    conversations: Vec<Conversation>,
    entries: Vec<ConversationEntry>,
}

impl View for ConversationStore {
    type V = StoreView;

    closed spec fn view(&self) -> StoreView {
        StoreView {
            conversations: conversation_views(self.conversations@),
            entries: entry_views(self.entries@),
        }
    }
}

impl ConversationStore {
    /// What holds of every store; see [`StoreView::wf`].
    pub open spec fn wf(&self) -> bool {
        self@.wf()
    }

    /// A store that holds nothing.
    pub fn new() -> (store: Self)
        ensures
            store.wf(),
            store@.conversations == Seq::<ConversationView>::empty(),
            store@.entries == Seq::<EntryView>::empty(),
    {
        ConversationStore { conversations: Vec::new(), entries: Vec::new() }
    }

    /// Position of the conversation named `id`.
    fn find_conversation(&self, id: &str) -> (at: Option<usize>)
        ensures
            match at {
                Some(i) => i < self.conversations.len() && self.conversations[i as int].id@ == id@,
                None => !has_conversation(self@.conversations, id@),
            },
    {
        let mut i: usize = 0;
        while i < self.conversations.len()
            invariant
                i <= self.conversations.len(),
                forall|j: int| 0 <= j < i ==> (#[trigger] self.conversations[j]).id@ != id@,
            decreases self.conversations.len() - i,
        {
            if *self.conversations[i].id.as_str() == *id {
                return Some(i);
            }
            i = i + 1;
        }
        None
    }

    /// Position of the entry named `id`.
    fn find_entry(&self, id: &str) -> (at: Option<usize>)
        ensures
            match at {
                Some(i) => i < self.entries.len() && self.entries[i as int].id@ == id@,
                None => !has_entry(self@.entries, id@),
            },
    {
        let mut i: usize = 0;
        while i < self.entries.len()
            invariant
                i <= self.entries.len(),
                forall|j: int| 0 <= j < i ==> (#[trigger] self.entries[j]).id@ != id@,
            decreases self.entries.len() - i,
        {
            if *self.entries[i].id.as_str() == *id {
                return Some(i);
            }
            i = i + 1;
        }
        None
    }

    /// Tells whether the store holds a conversation named `id`.
    pub fn contains_conversation(&self, id: &str) -> (held: bool)
        ensures
            held == has_conversation(self@.conversations, id@),
    {
        match self.find_conversation(id) {
            Some(i) => {
                assert(self@.conversations[i as int].id == id@);
                true
            },
            None => false,
        }
    }

    /// Number of conversations in the store.
    pub fn conversation_count(&self) -> (count: usize)
        ensures
            count == self@.conversations.len(),
    {
        self.conversations.len()
    }

    /// Number of entries in the store, over all conversations.
    pub fn entry_count(&self) -> (count: usize)
        ensures
            count == self@.entries.len(),
    {
        self.entries.len()
    }

    /// Adds a conversation as it is.
    ///
    /// The store refuses it, and stays as it was, if it already holds a
    /// conversation of that identifier or if the conversation claims to have
    /// been updated before it was created.
    pub fn insert_conversation(&mut self, conversation: Conversation) -> (done: AppResult<()>)
        requires
            old(self).wf(),
        ensures
            final(self).wf(),
            match done {
                Ok(_) => {
                    &&& !has_conversation(old(self)@.conversations, conversation.id@)
                    &&& conversation.created_at <= conversation.updated_at
                    &&& final(self)@ == old(self)@.with_conversation(conversation@)
                },
                Err(e) => {
                    &&& has_conversation(old(self)@.conversations, conversation.id@)
                        || conversation.updated_at < conversation.created_at
                    &&& e is Database
                    &&& final(self)@ == old(self)@
                },
            },
    {
        if conversation.updated_at < conversation.created_at {
            return Err(
                AppError::Database(
                    "CHECK constraint failed: conversations.updated_at".to_string(),
                ),
            );
        }
        match self.find_conversation(conversation.id.as_str()) {
            Some(i) => {
                assert(self@.conversations[i as int].id == conversation.id@);
                Err(AppError::Database("UNIQUE constraint failed: conversations.id".to_string()))
            },
            None => {
                let ghost before = self@;
                self.conversations.push(conversation);
                proof {
                    assert(self@.conversations == before.conversations.push(conversation@));
                    lemma_with_conversation_wf(before, conversation@);
                }
                Ok(())
            },
        }
    }

    /// Creates a conversation named `id` at time `now`.
    ///
    /// The title is `title` without surrounding whitespace, or the default
    /// where that is empty or no title is given. The store refuses an
    /// identifier that it already holds.
    pub fn create_conversation_at(&mut self, id: String, title: Option<&str>, now: i64) -> (created:
        AppResult<Conversation>)
        requires
            old(self).wf(),
        ensures
            final(self).wf(),
            match created {
                Ok(c) => {
                    &&& !has_conversation(old(self)@.conversations, id@)
                    &&& c@ == new_conversation(id@, str_view(title), now)
                    &&& c@.title.len() > 0
                    &&& final(self)@ == old(self)@.with_conversation(c@)
                },
                Err(e) => {
                    &&& has_conversation(old(self)@.conversations, id@)
                    &&& e is Database
                    &&& final(self)@ == old(self)@
                },
            },
    {
        let conversation = Conversation {
            id,
            title: resolve_title(title),
            created_at: now,
            updated_at: now,
            pinned: false,
            order_rank: rank_of_millis(now),
        };
        let copy = conversation.clone();
        match self.insert_conversation(conversation) {
            Ok(_) => Ok(copy),
            Err(e) => Err(e),
        }
    }

    /// Creates a conversation under a fresh identifier, at the time the
    /// clock shows.
    ///
    /// Which identifier and which time is not known beforehand; the
    /// conversation that is returned tells them. The store refuses only an
    /// identifier that it already holds.
    pub fn create_conversation(&mut self, title: Option<&str>) -> (created: AppResult<
        Conversation,
    >)
        requires
            old(self).wf(),
        ensures
            final(self).wf(),
            match created {
                Ok(c) => {
                    &&& c@.id.len() == ID_LEN
                    &&& !has_conversation(old(self)@.conversations, c@.id)
                    &&& c@ == new_conversation(c@.id, str_view(title), c.created_at)
                    &&& c@.title.len() > 0
                    &&& final(self)@ == old(self)@.with_conversation(c@)
                },
                Err(e) => {
                    &&& e is Database
                    &&& final(self)@ == old(self)@
                    &&& may_hold_fresh_conversation(old(self)@.conversations)
                },
            },
    {
        let id = fresh_id();
        let now = now_millis();
        let ghost name = id@;
        let created = self.create_conversation_at(id, title, now);
        proof {
            if created is Err {
                assert(has_conversation(old(self)@.conversations, name));
            }
        }
        created
    }

    /// Gives the conversation named `id` the title `title`, as it stands, at
    /// time `now`. A store without such a conversation stays as it is.
    pub fn update_conversation_title_at(&mut self, id: &str, title: &str, now: i64)
        requires
            old(self).wf(),
        ensures
            final(self).wf(),
            final(self)@ == (StoreView {
                conversations: retitle(old(self)@.conversations, id@, title@, now),
                ..old(self)@
            }),
    {
        let ghost before = self@;
        let found = self.find_conversation(id);
        match found {
            Some(i) => {
                self.conversations[i].updated_at = later_of(self.conversations[i].updated_at, now);
                self.conversations[i].title = title.to_string();
            },
            None => {},
        }
        proof {
            lemma_changed_in_place(
                before,
                id@,
                match found {
                    Some(i) => Some(i as int),
                    None => None,
                },
                self@.conversations,
                retitle(before.conversations, id@, title@, now),
            );
        }
    }

    /// Gives the conversation named `id` a new title, at the time the clock
    /// shows.
    pub fn update_conversation_title(&mut self, id: &str, title: &str)
        requires
            old(self).wf(),
        ensures
            final(self).wf(),
            exists|now: i64|
                final(self)@ == (StoreView {
                    conversations: #[trigger] retitle(old(self)@.conversations, id@, title@, now),
                    ..old(self)@
                }),
    {
        let now = now_millis();
        self.update_conversation_title_at(id, title, now);
    }

    /// Pins or unpins the conversation named `id` at time `now`. A store
    /// without such a conversation stays as it is.
    pub fn set_pinned_at(&mut self, id: &str, pinned: bool, now: i64)
        requires
            old(self).wf(),
        ensures
            final(self).wf(),
            final(self)@ == (StoreView {
                conversations: pin(old(self)@.conversations, id@, pinned, now),
                ..old(self)@
            }),
    {
        let ghost before = self@;
        let found = self.find_conversation(id);
        match found {
            Some(i) => {
                self.conversations[i].updated_at = later_of(self.conversations[i].updated_at, now);
                self.conversations[i].pinned = pinned;
            },
            None => {},
        }
        proof {
            lemma_changed_in_place(
                before,
                id@,
                match found {
                    Some(i) => Some(i as int),
                    None => None,
                },
                self@.conversations,
                pin(before.conversations, id@, pinned, now),
            );
        }
    }

    /// Pins or unpins the conversation named `id`, at the time the clock
    /// shows.
    pub fn set_pinned(&mut self, id: &str, pinned: bool)
        requires
            old(self).wf(),
        ensures
            final(self).wf(),
            exists|now: i64|
                final(self)@ == (StoreView {
                    conversations: #[trigger] pin(old(self)@.conversations, id@, pinned, now),
                    ..old(self)@
                }),
    {
        let now = now_millis();
        self.set_pinned_at(id, pinned, now);
    }

    /// Gives the conversation named `id` the rank of key `order_rank` at
    /// time `now`. A store without such a conversation stays as it is.
    pub fn update_order_rank_at(&mut self, id: &str, order_rank: i64, now: i64)
        requires
            old(self).wf(),
        ensures
            final(self).wf(),
            final(self)@ == (StoreView {
                conversations: rerank(old(self)@.conversations, id@, order_rank, now),
                ..old(self)@
            }),
    {
        let ghost before = self@;
        let found = self.find_conversation(id);
        match found {
            Some(i) => {
                self.conversations[i].updated_at = later_of(self.conversations[i].updated_at, now);
                self.conversations[i].order_rank = order_rank;
            },
            None => {},
        }
        proof {
            lemma_changed_in_place(
                before,
                id@,
                match found {
                    Some(i) => Some(i as int),
                    None => None,
                },
                self@.conversations,
                rerank(before.conversations, id@, order_rank, now),
            );
        }
    }

    /// Gives the conversation named `id` a new rank, at the time the clock
    /// shows.
    pub fn update_order_rank(&mut self, id: &str, order_rank: i64)
        requires
            old(self).wf(),
        ensures
            final(self).wf(),
            exists|now: i64|
                final(self)@ == (StoreView {
                    conversations: #[trigger] rerank(
                        old(self)@.conversations,
                        id@,
                        order_rank,
                        now,
                    ),
                    ..old(self)@
                }),
    {
        let now = now_millis();
        self.update_order_rank_at(id, order_rank, now);
    }

    /// Moves `updated_at` of the conversation named `id` forward to `now`.
    fn touch_conversation(&mut self, id: &str, now: i64)
        requires
            old(self).wf(),
        ensures
            final(self).wf(),
            final(self)@ == (StoreView {
                conversations: touch(old(self)@.conversations, id@, now),
                ..old(self)@
            }),
    {
        let ghost before = self@;
        let found = self.find_conversation(id);
        match found {
            Some(i) => {
                self.conversations[i].updated_at = later_of(self.conversations[i].updated_at, now);
            },
            None => {},
        }
        proof {
            lemma_changed_in_place(
                before,
                id@,
                match found {
                    Some(i) => Some(i as int),
                    None => None,
                },
                self@.conversations,
                touch(before.conversations, id@, now),
            );
        }
    }

    /// Adds an entry as it is, without touching its conversation.
    ///
    /// The entry goes behind every entry that was stored no later. The
    /// store refuses it, and stays as it was, if it already holds an entry
    /// of that identifier or holds no conversation for it.
    pub fn insert_entry(&mut self, entry: ConversationEntry) -> (done: AppResult<()>)
        requires
            old(self).wf(),
        ensures
            final(self).wf(),
            match done {
                Ok(_) => {
                    &&& !has_entry(old(self)@.entries, entry.id@)
                    &&& has_conversation(old(self)@.conversations, entry.conversation_id@)
                    &&& final(self)@ == old(self)@.with_entry(entry@)
                },
                Err(e) => {
                    &&& has_entry(old(self)@.entries, entry.id@) || !has_conversation(
                        old(self)@.conversations,
                        entry.conversation_id@,
                    )
                    &&& e is Database
                    &&& final(self)@ == old(self)@
                },
            },
    {
        match self.find_entry(entry.id.as_str()) {
            Some(i) => {
                assert(self@.entries[i as int].id == entry.id@);
                return Err(
                    AppError::Database(
                        "UNIQUE constraint failed: conversation_entries.id".to_string(),
                    ),
                );
            },
            None => {},
        }
        match self.find_conversation(entry.conversation_id.as_str()) {
            Some(i) => {
                assert(self@.conversations[i as int].id == entry.conversation_id@);
            },
            None => {
                return Err(AppError::Database("FOREIGN KEY constraint failed".to_string()));
            },
        }
        let ghost before = self@;
        let mut at: usize = self.entries.len();
        while at > 0 && self.entries[at - 1].created_at > entry.created_at
            invariant
                at <= self.entries.len(),
                self@ == before,
                forall|j: int|
                    at <= j < self.entries.len() ==> (#[trigger] self.entries[j]).created_at
                        > entry.created_at,
            decreases at,
        {
            at = at - 1;
        }
        self.entries.insert(at, entry);
        proof {
            assert(self@.entries =~= before.entries.insert(at as int, entry@));
            assert forall|j: int| at <= j < before.entries.len() implies (
            #[trigger] before.entries[j]).created_at > entry@.created_at by {
                assert(before.entries[j] == old(self).entries[j]@);
            }
            if at > 0 {
                assert(before.entries[at - 1] == old(self).entries[at - 1]@);
            }
            lemma_insert_by_time_at(before.entries, entry@, at as int);
            lemma_with_entry_wf(before, entry@);
        }
        Ok(())
    }

    /// Appends an entry under the identifier `id` at time `now`, and moves
    /// `updated_at` of its conversation forward to `now`.
    ///
    /// Both happen or neither: the store refuses the entry, and stays as it
    /// was, if it already holds an entry named `id` or holds no conversation
    /// for it. After a success the conversation was updated no earlier than
    /// the entry was created.
    pub fn append_entry_at(&mut self, id: String, entry: NewEntry<'_>, now: i64) -> (appended:
        AppResult<ConversationEntry>)
        requires
            old(self).wf(),
        ensures
            final(self).wf(),
            match appended {
                Ok(e) => {
                    &&& !has_entry(old(self)@.entries, id@)
                    &&& has_conversation(old(self)@.conversations, entry.conversation_id@)
                    &&& e@ == entry.stored(id@, now)
                    &&& final(self)@ == old(self)@.appended(e@)
                    &&& forall|i: int|
                        0 <= i < final(self)@.conversations.len() && (
                        #[trigger] final(self)@.conversations[i]).id == e@.conversation_id
                            ==> final(self)@.conversations[i].updated_at >= e.created_at
                },
                Err(err) => {
                    &&& has_entry(old(self)@.entries, id@) || !has_conversation(
                        old(self)@.conversations,
                        entry.conversation_id@,
                    )
                    &&& err is Database
                    &&& final(self)@ == old(self)@
                },
            },
    {
        let stored = ConversationEntry {
            id,
            conversation_id: entry.conversation_id.to_string(),
            kind: entry.kind,
            text: entry.text.to_string(),
            translated_text: own_text(entry.translated_text),
            language: own_text(entry.language),
            created_at: now,
            metadata: entry.metadata,
        };
        let copy = stored.clone();
        match self.insert_entry(stored) {
            Ok(_) => {
                self.touch_conversation(entry.conversation_id, now);
                Ok(copy)
            },
            Err(e) => Err(e),
        }
    }

    /// Appends an entry under a fresh identifier, at the time the clock
    /// shows, and moves `updated_at` of its conversation forward to that
    /// time. Both happen or neither.
    ///
    /// Which identifier and which time is not known beforehand; the entry
    /// that is returned tells them. The store refuses only an entry for a
    /// conversation that it does not hold, or an identifier that it already
    /// holds.
    pub fn append_entry(&mut self, entry: NewEntry<'_>) -> (appended: AppResult<ConversationEntry>)
        requires
            old(self).wf(),
        ensures
            final(self).wf(),
            !has_conversation(old(self)@.conversations, entry.conversation_id@)
                ==> appended is Err,
            match appended {
                Ok(e) => {
                    &&& e@.id.len() == ID_LEN
                    &&& !has_entry(old(self)@.entries, e@.id)
                    &&& has_conversation(old(self)@.conversations, entry.conversation_id@)
                    &&& e@ == entry.stored(e@.id, e.created_at)
                    &&& final(self)@ == old(self)@.appended(e@)
                    &&& forall|i: int|
                        0 <= i < final(self)@.conversations.len() && (
                        #[trigger] final(self)@.conversations[i]).id == e@.conversation_id
                            ==> final(self)@.conversations[i].updated_at >= e.created_at
                },
                Err(err) => {
                    &&& err is Database
                    &&& final(self)@ == old(self)@
                    &&& !has_conversation(old(self)@.conversations, entry.conversation_id@)
                        || may_hold_fresh_entry(old(self)@.entries)
                },
            },
    {
        let id = fresh_id();
        let now = now_millis();
        let ghost name = id@;
        let appended = self.append_entry_at(id, entry, now);
        proof {
            if appended is Err && has_conversation(
                old(self)@.conversations,
                entry.conversation_id@,
            ) {
                assert(has_entry(old(self)@.entries, name));
            }
        }
        appended
    }

    /// Deletes the conversation named `id`, and with it all its entries. A
    /// store without such a conversation stays as it is.
    pub fn delete_conversation(&mut self, id: &str)
        requires
            old(self).wf(),
        ensures
            final(self).wf(),
            final(self)@ == old(self)@.without(id@),
    {
        let ghost before = self@;
        let ghost mut seen: int = 0;
        let mut kept: usize = 0;
        while kept < self.conversations.len()
            invariant
                0 <= seen <= before.conversations.len(),
                kept <= self.conversations.len(),
                self@.entries == before.entries,
                self@.conversations == without_conversation(before.conversations.take(seen), id@)
                    + before.conversations.skip(seen),
                kept == without_conversation(before.conversations.take(seen), id@).len(),
            decreases self.conversations.len() - kept,
        {
            proof {
                let upto = before.conversations.take(seen + 1);
                assert(upto.drop_last() == before.conversations.take(seen));
                assert(self@.conversations[kept as int] == before.conversations.skip(seen)[0]);
            }
            let ghost held = self@.conversations;
            if *self.conversations[kept].id.as_str() == *id {
                self.conversations.remove(kept);
                proof {
                    assert(self@.conversations =~= held.remove(kept as int));
                    assert(self@.conversations =~= without_conversation(
                        before.conversations.take(seen + 1),
                        id@,
                    ) + before.conversations.skip(seen + 1));
                }
            } else {
                kept = kept + 1;
                proof {
                    assert(self@.conversations =~= without_conversation(
                        before.conversations.take(seen + 1),
                        id@,
                    ) + before.conversations.skip(seen + 1));
                }
            }
            proof {
                seen = seen + 1;
            }
        }
        proof {
            assert(before.conversations.take(seen) == before.conversations);
            assert(self@.conversations =~= without_conversation(before.conversations, id@));
        }
        let ghost mut seen: int = 0;
        let mut kept: usize = 0;
        while kept < self.entries.len()
            invariant
                0 <= seen <= before.entries.len(),
                kept <= self.entries.len(),
                self@.conversations == without_conversation(before.conversations, id@),
                self@.entries == without_entries_of(before.entries.take(seen), id@)
                    + before.entries.skip(seen),
                kept == without_entries_of(before.entries.take(seen), id@).len(),
            decreases self.entries.len() - kept,
        {
            proof {
                let upto = before.entries.take(seen + 1);
                assert(upto.drop_last() == before.entries.take(seen));
                assert(self@.entries[kept as int] == before.entries.skip(seen)[0]);
            }
            let ghost held = self@.entries;
            if *self.entries[kept].conversation_id.as_str() == *id {
                self.entries.remove(kept);
                proof {
                    assert(self@.entries =~= held.remove(kept as int));
                    assert(self@.entries =~= without_entries_of(
                        before.entries.take(seen + 1),
                        id@,
                    ) + before.entries.skip(seen + 1));
                }
            } else {
                kept = kept + 1;
                proof {
                    assert(self@.entries =~= without_entries_of(
                        before.entries.take(seen + 1),
                        id@,
                    ) + before.entries.skip(seen + 1));
                }
            }
            proof {
                seen = seen + 1;
            }
        }
        proof {
            assert(before.entries.take(seen) == before.entries);
            assert(self@.entries =~= without_entries_of(before.entries, id@));
            lemma_without_wf(before, id@);
        }
    }

    /// The conversations in listing order: all pinned ones before all
    /// unpinned ones, each group by descending rank. Conversations of one
    /// group and rank are listed in the order of their creation.
    pub fn list_conversations(&self) -> (listed: Vec<Conversation>)
        ensures
            conversation_views(listed@) == ranked(self@.conversations),
            in_listing_order(conversation_views(listed@)),
            forall|i: int, j: int|
                0 <= i < j < listed.len() ==> {
                    &&& (#[trigger] listed[j]).pinned ==> (#[trigger] listed[i]).pinned
                    &&& listed[i].pinned == listed[j].pinned ==> listed[i].order_rank
                        >= listed[j].order_rank
                },
            conversation_views(listed@).to_multiset() == self@.conversations.to_multiset(),
    {
        let mut listed: Vec<Conversation> = Vec::new();
        let mut k: usize = 0;
        while k < self.conversations.len()
            invariant
                k <= self.conversations.len(),
                conversation_views(listed@) == ranked(self@.conversations.take(k as int)),
            decreases self.conversations.len() - k,
        {
            let next = self.conversations[k].clone();
            let ghost before = conversation_views(listed@);
            let mut at: usize = listed.len();
            while at > 0 && !listed_before(&listed[at - 1], &next)
                invariant
                    at <= listed.len(),
                    conversation_views(listed@) == before,
                    forall|j: int|
                        at <= j < listed.len() ==> !(#[trigger] listed[j])@.precedes(next@),
                decreases at,
            {
                at = at - 1;
            }
            proof {
                assert forall|j: int| at <= j < before.len() implies !(
                #[trigger] before[j]).precedes(next@) by {
                    assert(before[j] == listed[j]@);
                }
                if at > 0 {
                    assert(before[at - 1] == listed[at - 1]@);
                }
                lemma_insert_ranked_at(before, next@, at as int);
                let upto = self@.conversations.take(k as int + 1);
                assert(upto.drop_last() == self@.conversations.take(k as int));
                assert(upto.last() == next@);
            }
            listed.insert(at, next);
            assert(conversation_views(listed@) =~= before.insert(at as int, next@));
            k = k + 1;
        }
        proof {
            assert(self@.conversations.take(k as int) == self@.conversations);
            lemma_ranked_in_order(self@.conversations);
            lemma_ranked_permutes(self@.conversations);
            let views = conversation_views(listed@);
            assert forall|i: int, j: int| 0 <= i < j < listed.len() implies {
                &&& (#[trigger] listed[j]).pinned ==> (#[trigger] listed[i]).pinned
                &&& listed[i].pinned == listed[j].pinned ==> listed[i].order_rank
                    >= listed[j].order_rank
            } by {
                assert(views[i].precedes(views[j]));
            }
        }
        listed
    }

    /// The conversation named `id`, if the store holds one.
    pub fn conversation(&self, id: &str) -> (found: Option<Conversation>)
        ensures
            match found {
                Some(c) => c@.id == id@ && exists|i: int|
                    0 <= i < self@.conversations.len() && #[trigger] self@.conversations[i]
                        == c@,
                None => !has_conversation(self@.conversations, id@),
            },
    {
        match self.find_conversation(id) {
            Some(i) => {
                let copy = self.conversations[i].clone();
                assert(self@.conversations[i as int] == copy@);
                Some(copy)
            },
            None => None,
        }
    }

    /// The entries of the conversation named `conversation_id`, in the
    /// order in which they were stored, and no more than `limit` of them
    /// where a limit is given.
    pub fn entries_for_conversation(&self, conversation_id: &str, limit: Option<usize>) -> (found:
        Vec<ConversationEntry>)
        ensures
            entry_views(found@) == limited(
                entries_of(self@.entries, conversation_id@),
                limit,
            ),
            self.wf() ==> time_ordered(entry_views(found@)),
    {
        let mut found: Vec<ConversationEntry> = Vec::new();
        let mut k: usize = 0;
        let ghost all = entries_of(self@.entries, conversation_id@);
        proof {
            lemma_entries_of_sub(self@.entries, conversation_id@);
        }
        while k < self.entries.len()
            invariant
                k <= self.entries.len(),
                all == entries_of(self@.entries, conversation_id@),
                entry_views(found@) == entries_of(
                    self@.entries.take(k as int),
                    conversation_id@,
                ),
                limit matches Some(n) ==> found.len() <= n,
                self.wf() ==> time_ordered(all),
            decreases self.entries.len() - k,
        {
            proof {
                lemma_entries_of_prefix(self@.entries, conversation_id@, k as int);
                let upto = self@.entries.take(k as int + 1);
                assert(upto.drop_last() == self@.entries.take(k as int));
                assert(upto.last() == self.entries[k as int]@);
            }
            match limit {
                Some(n) => {
                    if found.len() >= n {
                        return found;
                    }
                },
                None => {},
            }
            if *self.entries[k].conversation_id.as_str() == *conversation_id {
                let ghost before = entry_views(found@);
                let copy = self.entries[k].clone();
                found.push(copy);
                assert(entry_views(found@) =~= before.push(copy@));
            }
            k = k + 1;
        }
        assert(self@.entries.take(k as int) == self@.entries);
        found
    }
}

/// Adding a conversation under an unused identifier keeps the store well
/// formed.
pub proof fn lemma_with_conversation_wf(store: StoreView, conversation: ConversationView)
    requires
        store.wf(),
        !has_conversation(store.conversations, conversation.id),
        conversation.created_at <= conversation.updated_at,
    ensures
        store.with_conversation(conversation).wf(),
{
    let grown = store.with_conversation(conversation);
    assert forall|i: int| 0 <= i < grown.entries.len() implies has_conversation(
        grown.conversations,
        (#[trigger] grown.entries[i]).conversation_id,
    ) by {
        let owner = store.entries[i].conversation_id;
        let at = choose|k: int|
            0 <= k < store.conversations.len() && (#[trigger] store.conversations[k]).id == owner;
        assert(grown.conversations[at].id == owner);
    }
}

/// Changing the conversation named `id` in place, and no other, gives the
/// conversations that were wanted, and keeps the store well formed: `held`
/// is what the store holds after the change at position `at`, `wanted` what
/// it is to hold.
pub proof fn lemma_changed_in_place(
    store: StoreView,
    id: Seq<char>,
    at: Option<int>,
    held: Seq<ConversationView>,
    wanted: Seq<ConversationView>,
)
    requires
        store.wf(),
        held.len() == store.conversations.len(),
        wanted.len() == store.conversations.len(),
        match at {
            Some(i) => 0 <= i < store.conversations.len() && store.conversations[i].id == id
                && held[i] == wanted[i],
            None => !has_conversation(store.conversations, id),
        },
        forall|j: int|
            0 <= j < held.len() && at != Some(j) ==> #[trigger] held[j] == store.conversations[j],
        forall|j: int|
            0 <= j < wanted.len() ==> {
                &&& (#[trigger] wanted[j]).id == store.conversations[j].id
                &&& wanted[j].created_at <= wanted[j].updated_at
                &&& store.conversations[j].id != id ==> wanted[j] == store.conversations[j]
            },
    ensures
        held == wanted,
        (StoreView { conversations: wanted, ..store }).wf(),
{
    assert forall|j: int| 0 <= j < wanted.len() implies held[j] == wanted[j] by {
        match at {
            Some(i) => {
                if j != i {
                    assert(store.conversations[j].id != store.conversations[i].id);
                }
            },
            None => {
                assert(store.conversations[j].id != id);
            },
        }
    }
    assert(held =~= wanted);
    lemma_same_identifiers_wf(store, wanted);
}

/// Changing conversations in place, identifiers kept and no update time
/// before the creation time, keeps the store well formed.
pub proof fn lemma_same_identifiers_wf(store: StoreView, changed: Seq<ConversationView>)
    requires
        store.wf(),
        changed.len() == store.conversations.len(),
        forall|i: int|
            0 <= i < changed.len() ==> (#[trigger] changed[i]).id == store.conversations[i].id
                && changed[i].created_at <= changed[i].updated_at,
    ensures
        (StoreView { conversations: changed, ..store }).wf(),
{
    let after = StoreView { conversations: changed, ..store };
    assert forall|i: int, j: int| 0 <= i < j < changed.len() implies (#[trigger] changed[i]).id
        != (#[trigger] changed[j]).id by {
        assert(store.conversations[i].id != store.conversations[j].id);
    }
    assert forall|i: int| 0 <= i < after.entries.len() implies has_conversation(
        changed,
        (#[trigger] after.entries[i]).conversation_id,
    ) by {
        let owner = store.entries[i].conversation_id;
        let at = choose|k: int|
            0 <= k < store.conversations.len() && (#[trigger] store.conversations[k]).id == owner;
        assert(changed[at].id == owner);
    }
}

/// Where the entries from `at` on were all stored later than `entry`, and
/// the one before `at` was not, `insert_by_time` puts `entry` at `at`.
pub proof fn lemma_insert_by_time_at(entries: Seq<EntryView>, entry: EntryView, at: int)
    requires
        0 <= at <= entries.len(),
        forall|j: int| at <= j < entries.len() ==> (#[trigger] entries[j]).created_at
            > entry.created_at,
        at > 0 ==> entries[at - 1].created_at <= entry.created_at,
    ensures
        insert_by_time(entries, entry) == entries.insert(at, entry),
    decreases entries.len(),
{
    if at == entries.len() {
        assert(entries.insert(at, entry) =~= entries.push(entry));
    } else {
        assert(entries.last() == entries[entries.len() - 1]);
        lemma_insert_by_time_at(entries.drop_last(), entry, at);
        assert(entries.insert(at, entry) =~= entries.drop_last().insert(at, entry).push(
            entries.last(),
        ));
    }
}

/// `insert_by_time` puts the entry somewhere and moves nothing else: there
/// is a position at which the new sequence holds the entry, before which it
/// is the old one, and after which it is the old one shifted by one.
pub proof fn lemma_insert_by_time_position(entries: Seq<EntryView>, entry: EntryView) -> (at: int)
    ensures
        0 <= at <= entries.len(),
        insert_by_time(entries, entry) == entries.insert(at, entry),
        forall|j: int| at <= j < entries.len() ==> (#[trigger] entries[j]).created_at
            > entry.created_at,
        at > 0 ==> entries[at - 1].created_at <= entry.created_at,
    decreases entries.len(),
{
    if entries.len() == 0 || entries.last().created_at <= entry.created_at {
        assert(entries.insert(entries.len() as int, entry) =~= entries.push(entry));
        entries.len() as int
    } else {
        let shorter = entries.drop_last();
        let at = lemma_insert_by_time_position(shorter, entry);
        assert(entries.insert(at, entry) =~= shorter.insert(at, entry).push(entries.last()));
        assert forall|j: int| at <= j < entries.len() implies (#[trigger] entries[j]).created_at
            > entry.created_at by {
            if j < shorter.len() {
                assert(shorter[j] == entries[j]);
            }
        }
        if at > 0 {
            assert(shorter[at - 1] == entries[at - 1]);
        }
        at
    }
}

/// Adding an entry under an unused identifier, for a conversation of the
/// store, keeps the store well formed.
pub proof fn lemma_with_entry_wf(store: StoreView, entry: EntryView)
    requires
        store.wf(),
        !has_entry(store.entries, entry.id),
        has_conversation(store.conversations, entry.conversation_id),
    ensures
        store.with_entry(entry).wf(),
{
    let at = lemma_insert_by_time_position(store.entries, entry);
    let grown = store.entries.insert(at, entry);
    assert forall|i: int, j: int| 0 <= i < j < grown.len() implies (#[trigger] grown[i]).id != (
    #[trigger] grown[j]).id by {
        let a = if i < at { i } else { i - 1 };
        let b = if j < at { j } else { j - 1 };
        if i != at && j != at {
            assert(store.entries[a].id != store.entries[b].id);
        } else if i == at {
            assert(store.entries[b].id != entry.id);
        } else {
            assert(store.entries[a].id != entry.id);
        }
    }
    assert forall|i: int| 0 <= i < grown.len() implies has_conversation(
        store.conversations,
        (#[trigger] grown[i]).conversation_id,
    ) by {
        if i != at {
            let a = if i < at { i } else { i - 1 };
            assert(grown[i] == store.entries[a]);
        }
    }
    assert forall|i: int, j: int| 0 <= i < j < grown.len() implies (#[trigger] grown[i]).created_at
        <= (#[trigger] grown[j]).created_at by {
        let a = if i < at { i } else { i - 1 };
        let b = if j < at { j } else { j - 1 };
        if i != at && j != at {
            assert(store.entries[a].created_at <= store.entries[b].created_at);
        } else if i == at {
            assert(store.entries[b].created_at > entry.created_at);
        } else {
            if at > 0 {
                assert(store.entries[a].created_at <= store.entries[at - 1].created_at);
            }
        }
    }
}

/// After an entry was appended, its conversation was updated no earlier than
/// the entry was created.
pub proof fn lemma_append_updates_parent(store: StoreView, entry: EntryView, i: int)
    requires
        0 <= i < store.conversations.len(),
        store.conversations[i].id == entry.conversation_id,
    ensures
        store.appended(entry).conversations.len() == store.conversations.len(),
        store.appended(entry).conversations[i].id == entry.conversation_id,
        store.appended(entry).conversations[i].updated_at >= entry.created_at,
        store.appended(entry).conversations[i].updated_at >= store.conversations[i].updated_at,
{
}

/// Decides [`ConversationView::precedes`].
pub fn listed_before(a: &Conversation, b: &Conversation) -> (before: bool)
    ensures
        before == a@.precedes(b@),
{
    (a.pinned && !b.pinned) || (a.pinned == b.pinned && a.order_rank >= b.order_rank)
}

/// Where no conversation from `at` on precedes `conversation`, and the one
/// before `at` does, `insert_ranked` puts `conversation` at `at`.
pub proof fn lemma_insert_ranked_at(
    listed: Seq<ConversationView>,
    conversation: ConversationView,
    at: int,
)
    requires
        0 <= at <= listed.len(),
        forall|j: int| at <= j < listed.len() ==> !(#[trigger] listed[j]).precedes(conversation),
        at > 0 ==> listed[at - 1].precedes(conversation),
    ensures
        insert_ranked(listed, conversation) == listed.insert(at, conversation),
    decreases listed.len(),
{
    if at == listed.len() {
        assert(listed.insert(at, conversation) =~= listed.push(conversation));
    } else {
        assert(listed.last() == listed[listed.len() - 1]);
        lemma_insert_ranked_at(listed.drop_last(), conversation, at);
        assert(listed.insert(at, conversation) =~= listed.drop_last().insert(
            at,
            conversation,
        ).push(listed.last()));
    }
}

/// `insert_ranked` puts the conversation at one position and moves nothing
/// else.
pub proof fn lemma_insert_ranked_position(
    listed: Seq<ConversationView>,
    conversation: ConversationView,
) -> (at: int)
    ensures
        0 <= at <= listed.len(),
        insert_ranked(listed, conversation) == listed.insert(at, conversation),
        forall|j: int| at <= j < listed.len() ==> !(#[trigger] listed[j]).precedes(conversation),
        at > 0 ==> listed[at - 1].precedes(conversation),
    decreases listed.len(),
{
    if listed.len() == 0 || listed.last().precedes(conversation) {
        assert(listed.insert(listed.len() as int, conversation) =~= listed.push(conversation));
        listed.len() as int
    } else {
        let shorter = listed.drop_last();
        let at = lemma_insert_ranked_position(shorter, conversation);
        assert(listed.insert(at, conversation) =~= shorter.insert(at, conversation).push(
            listed.last(),
        ));
        assert forall|j: int| at <= j < listed.len() implies !(#[trigger] listed[j]).precedes(
            conversation,
        ) by {
            if j < shorter.len() {
                assert(shorter[j] == listed[j]);
            }
        }
        if at > 0 {
            assert(shorter[at - 1] == listed[at - 1]);
        }
        at
    }
}

/// Listing puts all pinned conversations before all unpinned ones, and
/// orders each group by descending rank.
pub proof fn lemma_ranked_in_order(conversations: Seq<ConversationView>)
    ensures
        in_listing_order(ranked(conversations)),
        ranked(conversations).len() == conversations.len(),
    decreases conversations.len(),
{
    if conversations.len() > 0 {
        let shorter = ranked(conversations.drop_last());
        let next = conversations.last();
        lemma_ranked_in_order(conversations.drop_last());
        let at = lemma_insert_ranked_position(shorter, next);
        let all = shorter.insert(at, next);
        assert forall|i: int, j: int| 0 <= i < j < all.len() implies (#[trigger] all[i]).precedes(
            #[trigger] all[j],
        ) by {
            let a = if i < at { i } else { i - 1 };
            let b = if j < at { j } else { j - 1 };
            if i != at && j != at {
                assert(shorter[a].precedes(shorter[b]));
            } else if i == at {
                assert(!shorter[b].precedes(next));
            } else {
                if a < at - 1 {
                    assert(shorter[a].precedes(shorter[at - 1]));
                }
            }
        }
    }
}

/// Listing neither drops nor invents nor repeats a conversation.
pub proof fn lemma_ranked_permutes(conversations: Seq<ConversationView>)
    ensures
        ranked(conversations).to_multiset() == conversations.to_multiset(),
    decreases conversations.len(),
{
    broadcast use vstd::seq_lib::group_to_multiset_ensures;

    if conversations.len() > 0 {
        let shorter = conversations.drop_last();
        let next = conversations.last();
        lemma_ranked_permutes(shorter);
        let at = lemma_insert_ranked_position(ranked(shorter), next);
        lemma_ranked_in_order(shorter);
        vstd::seq_lib::to_multiset_insert(ranked(shorter), at, next);
        assert(conversations == shorter.push(next));
        vstd::seq_lib::to_multiset_build(shorter, next);
    }
}

/// What `without_conversation` keeps are conversations of the given ones, none
/// of them named `id`; and it keeps every conversation not named `id`.
pub proof fn lemma_without_conversation_sub(conversations: Seq<ConversationView>, id: Seq<char>)
    ensures
        forall|k: int|
            0 <= k < without_conversation(conversations, id).len() ==> (
            #[trigger] without_conversation(conversations, id)[k]).id != id
                && conversations.contains(without_conversation(conversations, id)[k]),
        forall|m: int|
            0 <= m < conversations.len() && (#[trigger] conversations[m]).id != id
                ==> without_conversation(conversations, id).contains(conversations[m]),
    decreases conversations.len(),
{
    let kept = without_conversation(conversations, id);
    if conversations.len() > 0 {
        let shorter = conversations.drop_last();
        let inner = without_conversation(shorter, id);
        lemma_without_conversation_sub(shorter, id);
        assert forall|k: int| 0 <= k < kept.len() implies (#[trigger] kept[k]).id != id
            && conversations.contains(kept[k]) by {
            if k < inner.len() {
                assert(kept[k] == inner[k]);
                let m = choose|m: int| 0 <= m < shorter.len() && shorter[m] == inner[k];
                assert(conversations[m] == kept[k]);
            } else {
                assert(kept[k] == conversations[conversations.len() - 1]);
            }
        }
        assert forall|m: int|
            0 <= m < conversations.len() && (#[trigger] conversations[m]).id
                != id implies kept.contains(conversations[m]) by {
            if m < shorter.len() {
                assert(shorter[m] == conversations[m]);
                let k = choose|k: int| 0 <= k < inner.len() && inner[k] == shorter[m];
                assert(kept[k] == conversations[m]);
            } else {
                assert(kept[kept.len() - 1] == conversations[m]);
            }
        }
    }
}

/// Identifiers that were unique stay unique in what `without_conversation`
/// keeps.
pub proof fn lemma_without_conversation_unique(conversations: Seq<ConversationView>, id: Seq<char>)
    requires
        forall|i: int, j: int|
            0 <= i < j < conversations.len() ==> (#[trigger] conversations[i]).id != (
            #[trigger] conversations[j]).id,
    ensures
        forall|i: int, j: int|
            0 <= i < j < without_conversation(conversations, id).len() ==> (
            #[trigger] without_conversation(conversations, id)[i]).id != (
            #[trigger] without_conversation(conversations, id)[j]).id,
    decreases conversations.len(),
{
    let kept = without_conversation(conversations, id);
    if conversations.len() > 0 {
        let shorter = conversations.drop_last();
        let inner = without_conversation(shorter, id);
        assert forall|i: int, j: int| 0 <= i < j < shorter.len() implies (#[trigger] shorter[i]).id
            != (#[trigger] shorter[j]).id by {
            assert(conversations[i].id != conversations[j].id);
        }
        lemma_without_conversation_unique(shorter, id);
        lemma_without_conversation_sub(shorter, id);
        assert forall|i: int, j: int| 0 <= i < j < kept.len() implies (#[trigger] kept[i]).id != (
        #[trigger] kept[j]).id by {
            if j < inner.len() {
                assert(inner[i].id != inner[j].id);
            } else {
                assert(kept[i] == inner[i]);
                let m = choose|m: int| 0 <= m < shorter.len() && shorter[m] == inner[i];
                assert(conversations[m].id != conversations[conversations.len() - 1].id);
            }
        }
    }
}

/// What `without_entries_of` keeps are entries of the given ones, none of
/// them of the conversation named `id`.
pub proof fn lemma_without_entries_sub(entries: Seq<EntryView>, id: Seq<char>)
    ensures
        forall|k: int|
            0 <= k < without_entries_of(entries, id).len() ==> (#[trigger] without_entries_of(
                entries,
                id,
            )[k]).conversation_id != id && entries.contains(without_entries_of(entries, id)[k]),
    decreases entries.len(),
{
    let kept = without_entries_of(entries, id);
    if entries.len() > 0 {
        let shorter = entries.drop_last();
        let inner = without_entries_of(shorter, id);
        lemma_without_entries_sub(shorter, id);
        assert forall|k: int| 0 <= k < kept.len() implies (#[trigger] kept[k]).conversation_id
            != id && entries.contains(kept[k]) by {
            if k < inner.len() {
                assert(kept[k] == inner[k]);
                let m = choose|m: int| 0 <= m < shorter.len() && shorter[m] == inner[k];
                assert(entries[m] == kept[k]);
            } else {
                assert(kept[k] == entries[entries.len() - 1]);
            }
        }
    }
}

/// Unique identifiers and the order of times survive `without_entries_of`.
pub proof fn lemma_without_entries_ordered(entries: Seq<EntryView>, id: Seq<char>)
    requires
        forall|i: int, j: int|
            0 <= i < j < entries.len() ==> (#[trigger] entries[i]).id != (#[trigger] entries[j]).id,
        time_ordered(entries),
    ensures
        forall|i: int, j: int|
            0 <= i < j < without_entries_of(entries, id).len() ==> (#[trigger] without_entries_of(
                entries,
                id,
            )[i]).id != (#[trigger] without_entries_of(entries, id)[j]).id,
        time_ordered(without_entries_of(entries, id)),
    decreases entries.len(),
{
    let kept = without_entries_of(entries, id);
    if entries.len() > 0 {
        let shorter = entries.drop_last();
        let inner = without_entries_of(shorter, id);
        assert forall|i: int, j: int| 0 <= i < j < shorter.len() implies (#[trigger] shorter[i]).id
            != (#[trigger] shorter[j]).id by {
            assert(entries[i].id != entries[j].id);
        }
        assert forall|i: int, j: int| 0 <= i < j < shorter.len() implies (
        #[trigger] shorter[i]).created_at <= (#[trigger] shorter[j]).created_at by {
            assert(entries[i].created_at <= entries[j].created_at);
        }
        lemma_without_entries_ordered(shorter, id);
        lemma_without_entries_sub(shorter, id);
        assert forall|i: int, j: int| 0 <= i < j < kept.len() implies (#[trigger] kept[i]).id != (
        #[trigger] kept[j]).id && kept[i].created_at <= kept[j].created_at by {
            if j < inner.len() {
                assert(inner[i].id != inner[j].id);
                assert(inner[i].created_at <= inner[j].created_at);
            } else {
                assert(kept[i] == inner[i]);
                let m = choose|m: int| 0 <= m < shorter.len() && shorter[m] == inner[i];
                assert(entries[m].id != entries[entries.len() - 1].id);
                assert(entries[m].created_at <= entries[entries.len() - 1].created_at);
            }
        }
    }
}

/// Deleting a conversation and its entries keeps the store well formed.
pub proof fn lemma_without_wf(store: StoreView, id: Seq<char>)
    requires
        store.wf(),
    ensures
        store.without(id).wf(),
{
    let after = store.without(id);
    lemma_without_conversation_sub(store.conversations, id);
    lemma_without_conversation_unique(store.conversations, id);
    lemma_without_entries_sub(store.entries, id);
    lemma_without_entries_ordered(store.entries, id);
    assert forall|i: int| 0 <= i < after.entries.len() implies has_conversation(
        after.conversations,
        (#[trigger] after.entries[i]).conversation_id,
    ) by {
        let entry = after.entries[i];
        let e = choose|e: int| 0 <= e < store.entries.len() && store.entries[e] == entry;
        let owner = store.entries[e].conversation_id;
        let m = choose|m: int|
            0 <= m < store.conversations.len() && (#[trigger] store.conversations[m]).id == owner;
        assert(after.conversations.contains(store.conversations[m]));
        let k = choose|k: int|
            0 <= k < after.conversations.len() && after.conversations[k]
                == store.conversations[m];
        assert(after.conversations[k].id == owner);
    }
    assert forall|i: int| 0 <= i < after.conversations.len() implies (
    #[trigger] after.conversations[i]).created_at <= after.conversations[i].updated_at by {
        let kept = after.conversations[i];
        let m = choose|m: int| 0 <= m < store.conversations.len() && store.conversations[m] == kept;
        assert(store.conversations[m].created_at <= store.conversations[m].updated_at);
    }
}

/// The entries of a conversation are among the given entries, in their
/// order; where the given entries are in the order of times, so are they.
pub proof fn lemma_entries_of_sub(entries: Seq<EntryView>, id: Seq<char>)
    ensures
        forall|k: int|
            0 <= k < entries_of(entries, id).len() ==> (#[trigger] entries_of(
                entries,
                id,
            )[k]).conversation_id == id && entries.contains(entries_of(entries, id)[k]),
        time_ordered(entries) ==> time_ordered(entries_of(entries, id)),
    decreases entries.len(),
{
    let kept = entries_of(entries, id);
    if entries.len() > 0 {
        let shorter = entries.drop_last();
        let inner = entries_of(shorter, id);
        lemma_entries_of_sub(shorter, id);
        assert forall|k: int| 0 <= k < kept.len() implies (#[trigger] kept[k]).conversation_id
            == id && entries.contains(kept[k]) by {
            if k < inner.len() {
                assert(kept[k] == inner[k]);
                let m = choose|m: int| 0 <= m < shorter.len() && shorter[m] == inner[k];
                assert(entries[m] == kept[k]);
            } else {
                assert(kept[k] == entries[entries.len() - 1]);
            }
        }
        if time_ordered(entries) {
            assert forall|i: int, j: int| 0 <= i < j < shorter.len() implies (
            #[trigger] shorter[i]).created_at <= (#[trigger] shorter[j]).created_at by {
                assert(entries[i].created_at <= entries[j].created_at);
            }
            assert forall|i: int, j: int| 0 <= i < j < kept.len() implies (
            #[trigger] kept[i]).created_at <= (#[trigger] kept[j]).created_at by {
                if j < inner.len() {
                    assert(inner[i].created_at <= inner[j].created_at);
                } else {
                    assert(kept[i] == inner[i]);
                    let m = choose|m: int| 0 <= m < shorter.len() && shorter[m] == inner[i];
                    assert(entries[m].created_at <= entries[entries.len() - 1].created_at);
                }
            }
        }
    }
}

/// The entries of a conversation among the first `k` entries are the first
/// of its entries among all.
pub proof fn lemma_entries_of_prefix(entries: Seq<EntryView>, id: Seq<char>, k: int)
    requires
        0 <= k <= entries.len(),
    ensures
        entries_of(entries.take(k), id).len() <= entries_of(entries, id).len(),
        entries_of(entries.take(k), id) == entries_of(entries, id).take(
            entries_of(entries.take(k), id).len() as int,
        ),
    decreases entries.len(),
{
    if k == entries.len() {
        assert(entries.take(k) == entries);
        assert(entries_of(entries, id).take(entries_of(entries, id).len() as int) == entries_of(
            entries,
            id,
        ));
    } else {
        let shorter = entries.drop_last();
        lemma_entries_of_prefix(shorter, id, k);
        assert(shorter.take(k) == entries.take(k));
        let part = entries_of(entries.take(k), id);
        assert(entries_of(entries, id).take(part.len() as int) =~= entries_of(shorter, id).take(
            part.len() as int,
        ));
    }
}

/// A deleted conversation is gone, and so are all its entries.
pub proof fn lemma_without_forgets(store: StoreView, id: Seq<char>)
    ensures
        !has_conversation(store.without(id).conversations, id),
        entries_of(store.without(id).entries, id) == Seq::<EntryView>::empty(),
{
    lemma_without_conversation_sub(store.conversations, id);
    lemma_without_entries_sub(store.entries, id);
    let left = store.without(id).entries;
    lemma_entries_of_sub(left, id);
    if entries_of(left, id).len() > 0 {
        let entry = entries_of(left, id)[0];
        let at = choose|at: int| 0 <= at < left.len() && left[at] == entry;
        assert(left[at].conversation_id != id);
    }
}

/// Deleting a conversation leaves the entries of every other conversation
/// as they are.
pub proof fn lemma_without_keeps_others(entries: Seq<EntryView>, id: Seq<char>, other: Seq<char>)
    requires
        other != id,
    ensures
        entries_of(without_entries_of(entries, id), other) == entries_of(entries, other),
    decreases entries.len(),
{
    if entries.len() > 0 {
        lemma_without_keeps_others(entries.drop_last(), id, other);
        let shorter = without_entries_of(entries.drop_last(), id);
        if entries.last().conversation_id != id {
            assert(shorter.push(entries.last()).drop_last() == shorter);
        }
    }
}

/// An entry that is stored no earlier than every entry before it goes last,
/// also among the entries of its conversation: with a clock that does not
/// run backwards, entries come back in the order in which they were stored.
pub proof fn lemma_latest_entry_goes_last(entries: Seq<EntryView>, entry: EntryView)
    requires
        forall|i: int| 0 <= i < entries.len() ==> (#[trigger] entries[i]).created_at
            <= entry.created_at,
    ensures
        insert_by_time(entries, entry) == entries.push(entry),
        entries_of(insert_by_time(entries, entry), entry.conversation_id) == entries_of(
            entries,
            entry.conversation_id,
        ).push(entry),
{
    if entries.len() > 0 {
        assert(entries.last() == entries[entries.len() - 1]);
    }
    assert(entries.push(entry).drop_last() == entries);
}

/// Storing an entry leaves the entries of every other conversation as they
/// are.
pub proof fn lemma_insert_keeps_others(entries: Seq<EntryView>, entry: EntryView, other: Seq<char>)
    requires
        other != entry.conversation_id,
    ensures
        entries_of(insert_by_time(entries, entry), other) == entries_of(entries, other),
    decreases entries.len(),
{
    if entries.len() == 0 || entries.last().created_at <= entry.created_at {
        assert(entries.push(entry).drop_last() == entries);
    } else {
        lemma_insert_keeps_others(entries.drop_last(), entry, other);
        let moved = insert_by_time(entries.drop_last(), entry);
        assert(moved.push(entries.last()).drop_last() == moved);
    }
}

} // verus!
