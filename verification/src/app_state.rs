//! Names under which requests wait for their answers.

use vstd::prelude::*;
use crate::text::enclose;

verus! {

/// The name under which a request waits: the type of the answer and the
/// identifier of the request, with a colon between them.
pub open spec fn pending_name(response_type: Seq<char>, request_id: Seq<char>) -> Seq<char> {
    response_type + ":"@ + request_id
}

/// Computes [`pending_name`].
pub fn pending_key(response_type: &str, request_id: &str) -> (key: String)
    ensures
        key@ == pending_name(response_type@, request_id@),
{
    enclose(response_type, ":", request_id)
}

/// The name of the request that a message answers, if the message tells
/// both its type and the identifier of a request.
pub fn dispatch_key(kind: Option<&str>, request_id: Option<&str>) -> (key: Option<String>)
    ensures
        match key {
            Some(k) => {
                &&& kind matches Some(t)
                &&& request_id matches Some(id)
                &&& k@ == pending_name(t@, id@)
            },
            None => kind is None || request_id is None,
        },
{
    match (kind, request_id) {
        (Some(t), Some(id)) => Some(pending_key(t, id)),
        _ => None,
    }
}

} // verus!
