use mcai_worker_sdk::message_exchange::message::OrderMessage;
use vstd::prelude::*;

use crate::order::same_key;

verus! {

#[verifier::external_type_specification]
#[verifier::external_body]
pub struct ExJsonError(serde_json::Error);

/// Which workers a status request is meant for.
pub enum RequestTarget {
    /// Every live worker.
    Broadcast,
    /// Only the named worker instances (never empty when built by `from_worker_ids`).
    Workers(Vec<String>),
}

/// The targeting attribute that one request message carries.
#[derive(Debug)]
pub enum RequestHeader {
    /// `broadcast = true`
    Broadcast,
    /// `worker_name = <identity>`
    WorkerName(String),
}

/// `None` for the broadcast marker, the targeted identity otherwise.
pub open spec fn header_target(h: RequestHeader) -> Option<Seq<char>> {
    match h {
        RequestHeader::Broadcast => None,
        RequestHeader::WorkerName(id) => Some(id@),
    }
}

impl RequestTarget {
    /// Whether a reply from worker `id` belongs to a request with this target.
    pub open spec fn admits(&self, id: Seq<char>) -> bool {
        match self {
            RequestTarget::Broadcast => true,
            RequestTarget::Workers(ids) => exists|i: int| 0 <= i < ids@.len() && ids@[i]@ == id,
        }
    }

    /// A request for the given identities; with none, a broadcast.
    pub fn from_worker_ids(ids: Vec<String>) -> (r: RequestTarget)
        ensures
            ids@.len() == 0 ==> r is Broadcast,
            ids@.len() > 0 ==> (r matches RequestTarget::Workers(w) && w@ == ids@),
    {
        if ids.len() == 0 {
            RequestTarget::Broadcast
        } else {
            RequestTarget::Workers(ids)
        }
    }

    /// Whether a reply from worker `id` is taken for this request.
    pub fn accepts(&self, id: &str) -> (r: bool)
        ensures
            r == self.admits(id@),
    {
        match self {
            RequestTarget::Broadcast => true,
            RequestTarget::Workers(ids) => {
                let mut i: usize = 0;
                while i < ids.len()
                    invariant
                        i <= ids@.len(),
                        self.admits(id@) == (exists|j: int| 0 <= j < ids@.len() && ids@[j]@ == id@),
                        forall|j: int| 0 <= j < i ==> ids@[j]@ != id@,
                    decreases ids@.len() - i,
                {
                    if same_key(ids[i].as_str(), id) {
                        assert(ids@[i as int]@ == id@);
                        return true;
                    }
                    i = i + 1;
                }
                false
            },
        }
    }

    /// The request messages to publish: one broadcast message, or one message
    /// per targeted identity, in the order given.
    pub fn headers(&self) -> (r: Vec<RequestHeader>)
        ensures
            self is Broadcast ==> r@.len() == 1 && header_target(r@[0]) is None,
            self matches RequestTarget::Workers(ids) ==> {
                &&& r@.len() == ids@.len()
                &&& forall|i: int| 0 <= i < ids@.len() ==> header_target(#[trigger] r@[i]) == Some(ids@[i]@)
            },
    {
        let mut r: Vec<RequestHeader> = Vec::new();
        match self {
            RequestTarget::Broadcast => {
                r.push(RequestHeader::Broadcast);
            },
            RequestTarget::Workers(ids) => {
                let mut i: usize = 0;
                while i < ids.len()
                    invariant
                        i <= ids@.len(),
                        r@.len() == i,
                        *self matches RequestTarget::Workers(w) && w@ == ids@,
                        forall|j: int| 0 <= j < i ==> header_target(#[trigger] r@[j]) == Some(ids@[j]@),
                    decreases ids@.len() - i,
                {
                    r.push(RequestHeader::WorkerName(ids[i].clone()));
                    i = i + 1;
                }
            },
        }
        r
    }
}

/// The targeting attribute of a request for one worker, or of a broadcast.
pub fn get_request_headers(worker_id: Option<&str>) -> (r: RequestHeader)
    ensures
        header_target(r) == (match worker_id {
            Some(w) => Some(w@),
            None => None::<Seq<char>>,
        }),
{
    match worker_id {
        Some(w) => RequestHeader::WorkerName(w.to_string()),
        None => RequestHeader::Broadcast,
    }
}

/// JSON text of the status order that workers answer.
pub open spec fn status_order_json() -> Seq<char> {
    "{\"type\":\"status\"}"@
}

/// Relies on serde_json::to_string on the SDK's `OrderMessage::Status`. The enum is
/// tagged internally under "type" with snake_case variant names, so a unit variant
/// is written as an object holding only that tag. `to_string` fails only when a
/// `Serialize` impl fails or a map has non-string keys; the derived impl of this
/// unit variant writes one string field, so it succeeds.
#[verifier::external_body]
fn order_status_json() -> (r: Result<String, serde_json::Error>)
    ensures
        r is Ok,
        r matches Ok(s) ==> s@ == status_order_json(),
{
    serde_json::to_string(&OrderMessage::Status)
}

/// Payload of every status request: the status order.
pub fn status_request_payload() -> (r: String)
    ensures
        r@ == status_order_json(),
{
    match order_status_json() {
        Ok(s) => s,
        Err(_) => {
            proof {
                assert(false);
            }
            String::new()
        },
    }
}

} // verus!
