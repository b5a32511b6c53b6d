//! The helper interpreter: how it is named, when it is ready, and what is
//! held back until it is.

use vstd::prelude::*;
use crate::store::str_view;
use crate::text::{contains_text, enclose, has_substring, join};

verus! {

/// Name of the interpreter to run where none is configured: `python.exe` on
/// Windows, `python3` elsewhere.
pub fn default_python_binary(windows: bool) -> (name: String)
    ensures
        name@ == if windows {
            "python.exe"@
        } else {
            "python3"@
        },
{
    if windows {
        "python.exe".to_string()
    } else {
        "python3".to_string()
    }
}

/// Whether a message of the helper, of which `kind` and `message` are the
/// texts of its type and its message, says that the helper is ready: a log
/// message that tells that the service has started or is waiting for
/// commands.
pub open spec fn ready_signal(kind: Option<Seq<char>>, message: Option<Seq<char>>) -> bool {
    &&& kind == Some("log"@)
    &&& message matches Some(text)
    &&& (has_substring(text, "Service started"@) || has_substring(
        text,
        "waiting for commands"@,
    ))
}

/// Decides [`ready_signal`].
pub fn is_ready_signal(kind: Option<&str>, message: Option<&str>) -> (ready: bool)
    ensures
        ready == ready_signal(str_view(kind), str_view(message)),
{
    match (kind, message) {
        (Some(kind), Some(text)) => {
            *kind == *"log" && (contains_text(text, "Service started") || contains_text(
                text,
                "waiting for commands",
            ))
        },
        _ => false,
    }
}

/// Whether answers of the type named `kind` are passed on under a name of
/// their own.
pub open spec fn is_special_response(kind: Seq<char>) -> bool {
    kind == "conversation_summary"@ || kind == "summary_result"@ || kind
        == "optimization_result"@
}

/// The name under which an answer of the helper is passed on to whoever
/// waits for it, if it is one of the answers that are: its type and the
/// identifier of the request, behind a common prefix.
pub fn response_event_name(kind: &str, request_id: Option<&str>) -> (name: Option<String>)
    ensures
        match name {
            Some(n) => {
                &&& is_special_response(kind@)
                &&& request_id matches Some(id)
                &&& n@ == "python-response::"@ + kind@ + "::"@ + id@
            },
            None => !is_special_response(kind@) || request_id is None,
        },
{
    if *kind == *"conversation_summary" || *kind == *"summary_result" || *kind
        == *"optimization_result" {
        match request_id {
            Some(id) => {
                let head = enclose("python-response::", kind, "::");
                Some(join(head.as_str(), id))
            },
            None => None,
        }
    } else {
        None
    }
}

/// The messages for a helper that may not be ready yet.
///
/// Until the helper is ready, messages are held back in order; when it
/// becomes ready they are all released, and from then on every message goes
/// out at once.
pub struct MessageGate {
    ready: bool,
    pending: Vec<String>,
}

/// The views of `texts`, in order.
pub open spec fn message_views(texts: Seq<String>) -> Seq<Seq<char>> {
    Seq::new(texts.len(), |i: int| texts[i]@)
}

impl MessageGate {
    /// Whether the helper is ready.
    pub closed spec fn is_open(&self) -> bool {
        self.ready
    }

    /// The messages that are held back, oldest first.
    pub closed spec fn held(&self) -> Seq<Seq<char>> {
        message_views(self.pending@)
    }

    /// A gate for a helper that is not ready, with nothing held back.
    pub fn new() -> (gate: Self)
        ensures
            !gate.is_open(),
            gate.held() == Seq::<Seq<char>>::empty(),
    {
        MessageGate { ready: false, pending: Vec::new() }
    }

    /// Tells whether the helper is ready.
    pub fn is_ready(&self) -> (ready: bool)
        ensures
            ready == self.is_open(),
    {
        self.ready
    }

    /// Number of messages held back.
    pub fn held_count(&self) -> (count: usize)
        ensures
            count == self.held().len(),
    {
        self.pending.len()
    }

    /// Takes a message for the helper. It is handed back to be written at
    /// once if the helper is ready, and held back otherwise.
    pub fn send(&mut self, message: String) -> (now: Option<String>)
        ensures
            final(self).is_open() == old(self).is_open(),
            if old(self).is_open() {
                now == Some(message) && final(self).held() == old(self).held()
            } else {
                now is None && final(self).held() == old(self).held().push(message@)
            },
    {
        if self.ready {
            Some(message)
        } else {
            let ghost before = message_views(self.pending@);
            self.pending.push(message);
            assert(message_views(self.pending@) =~= before.push(message@));
            None
        }
    }

    /// Notes that the helper is ready, and hands out what was held back,
    /// oldest first, to be written now. A gate that was open already has
    /// nothing to hand out and keeps what it holds.
    pub fn mark_ready(&mut self) -> (released: Vec<String>)
        ensures
            final(self).is_open(),
            if old(self).is_open() {
                released@.len() == 0 && final(self).held() == old(self).held()
            } else {
                message_views(released@) == old(self).held() && final(self).held() == Seq::<
                    Seq<char>,
                >::empty()
            },
    {
        let was_ready = self.ready;
        self.ready = true;
        let mut released: Vec<String> = Vec::new();
        if !was_ready {
            std::mem::swap(&mut released, &mut self.pending);
        }
        released
    }

    /// Forgets everything: the helper counts as not ready, and nothing is
    /// held back.
    pub fn reset(&mut self)
        ensures
            !final(self).is_open(),
            final(self).held() == Seq::<Seq<char>>::empty(),
    {
        self.ready = false;
        self.pending = Vec::new();
    }
}

} // verus!
