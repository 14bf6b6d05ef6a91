//! Send orchestration: the single cancellation slot, the send-time
//! snapshot resolution, and how a delivered outcome lands in a tab.
//!
//! Each send gets a fresh token number; starting a new send replaces the
//! slot's token, so an outcome is applied only when it still carries the
//! current token — a late result of a superseded send is discarded by
//! identity, never by looking at its content.

use vstd::prelude::*;

use crate::appstate::RequestStatus;
use crate::error::AppError;
use crate::request::{KeyValuePair, RequestState};
use crate::resolver::EnvResolver;
use crate::response::ResponseState;
use crate::workspace::RequestTab;

verus! {

/// The application-wide cancellation slot: at most one send is current.
pub struct SendSlot {
    pub active: Option<u64>,
    pub next_id: u64,
}

impl SendSlot {
    /// Starting a send: the previous token (if any) is superseded, the
    /// fresh token becomes current.
    pub open spec fn begin_spec(self) -> (SendSlot, u64)
        recommends
            self.next_id < u64::MAX,
    {
        (SendSlot { active: Some(self.next_id), next_id: (self.next_id + 1) as u64 }, self.next_id)
    }

    /// Is an outcome carrying this token still current?
    pub open spec fn accepts_spec(self, id: u64) -> bool {
        self.active == Some(id)
    }

    /// A slot with no send outstanding.
    pub fn new() -> (r: SendSlot)
        ensures
            r.active is None,
            r.next_id == 0,
    {
        SendSlot { active: None, next_id: 0 }
    }

    /// Start a send: supersede any current token and issue a fresh one.
    pub fn begin(&mut self) -> (id: u64)
        requires
            old(self).next_id < u64::MAX,
        ensures
            *final(self) == old(self).begin_spec().0,
            id == old(self).begin_spec().1,
    {
        let id = self.next_id;
        self.active = Some(id);
        self.next_id = id + 1;
        id
    }

    /// Abandon the current send, if any.
    pub fn clear(&mut self)
        ensures
            final(self).active is None,
            final(self).next_id == old(self).next_id,
    {
        self.active = None;
    }

    /// Does an outcome carrying this token still count?
    pub fn accepts(&self, id: u64) -> (r: bool)
        ensures
            r == self.accepts_spec(id),
    {
        match self.active {
            Some(a) => a == id,
            None => false,
        }
    }
}

/// Issuing a second send right after a first supersedes the first: the
/// tokens differ, and the slot then accepts only the second send's token,
/// so only the second's result is ever observed.
pub proof fn lemma_second_send_supersedes(s0: SendSlot)
    requires
        s0.next_id + 1 < u64::MAX,
    ensures
        ({
            let (s1, id1) = s0.begin_spec();
            let (s2, id2) = s1.begin_spec();
            id1 != id2 && !s2.accepts_spec(id1) && s2.accepts_spec(id2)
        }),
{
}

/// A send happens only for a non-empty URL.
pub fn should_send(request: &RequestState) -> (r: bool)
    ensures
        r == (request.url@.len() > 0),
{
    request.url.as_str().unicode_len() > 0
}

/// Resolve the send-time snapshot of a request: the URL, and the key and
/// value of every enabled header, go through send-mode resolution;
/// disabled headers and every other field are carried unchanged.
pub fn prepare_send(resolver: &EnvResolver, request: RequestState) -> (r: RequestState)
    ensures
        r.url@ == resolver.out_value(request.url@, true),
        r.headers@.len() == request.headers@.len(),
        forall|k: int|
            0 <= k < request.headers@.len() ==> {
                let h0 = request.headers@[k];
                let h = #[trigger] r.headers@[k];
                &&& h.enabled == h0.enabled
                &&& h.description == h0.description
                &&& if h0.enabled {
                    h.key@ == resolver.out_value(h0.key@, true) && h.value@ == resolver.out_value(
                        h0.value@,
                        true,
                    )
                } else {
                    h.key == h0.key && h.value == h0.value
                }
            },
        r.id == request.id,
        r.name == request.name,
        r.method == request.method,
        r.url_cursor == request.url_cursor,
        r.params == request.params,
        r.body == request.body,
        r.auth == request.auth,
        r.scripts == request.scripts,
        r.body_cursor == request.body_cursor,
        r.body_scroll_offset == request.body_scroll_offset,
{
    let mut request = request;
    let url = resolver.resolve_for_send(request.url.as_str());
    request.url = url;
    let ghost old_headers = request.headers@;
    let mut headers: Vec<KeyValuePair> = Vec::new();
    let n = request.headers.len();
    let mut k: usize = 0;
    while k < n
        invariant
            n == old_headers.len(),
            request.headers@ == old_headers,
            k <= n,
            headers@.len() == k,
            forall|j: int|
                0 <= j < k ==> {
                    let h0 = old_headers[j];
                    let h = #[trigger] headers@[j];
                    &&& h.enabled == h0.enabled
                    &&& h.description == h0.description
                    &&& if h0.enabled {
                        h.key@ == resolver.out_value(h0.key@, true) && h.value@
                            == resolver.out_value(h0.value@, true)
                    } else {
                        h.key == h0.key && h.value == h0.value
                    }
                },
        decreases n - k,
    {
        let h = &request.headers[k];
        let pair = if h.enabled {
            KeyValuePair {
                key: resolver.resolve_for_send(h.key.as_str()),
                value: resolver.resolve_for_send(h.value.as_str()),
                enabled: h.enabled,
                description: h.description.clone(),
            }
        } else {
            KeyValuePair {
                key: h.key.clone(),
                value: h.value.clone(),
                enabled: h.enabled,
                description: h.description.clone(),
            }
        };
        headers.push(pair);
        k = k + 1;
    }
    request.headers = headers;
    request
}

/// Put a tab into the loading state for a fresh send: the spinner starts
/// over and any previous response is dropped.
pub fn mark_loading(tab: &mut RequestTab)
    ensures
        final(tab).request_status matches RequestStatus::Loading { spinner_tick } && spinner_tick
            == 0,
        final(tab).response is None,
        final(tab).request == old(tab).request,
        final(tab).active_tab == old(tab).active_tab,
        final(tab).response_tab == old(tab).response_tab,
        final(tab).is_dirty == old(tab).is_dirty,
        final(tab).collection_id == old(tab).collection_id,
{
    tab.request_status = RequestStatus::Loading { spinner_tick: 0 };
    tab.response = None;
}

/// How a tab changes when an outcome lands in it: a response is stored
/// and loading ends; cancellation just ends loading; any other error
/// records its message. Everything else about the tab stays.
pub open spec fn outcome_applied(
    t0: RequestTab,
    t1: RequestTab,
    outcome: Result<ResponseState, AppError>,
) -> bool {
    &&& match outcome {
        Ok(resp) => t1.response == Some(resp) && t1.request_status is Idle,
        Err(e) => t1.response == t0.response && if e is Cancelled {
            t1.request_status is Idle
        } else {
            t1.request_status matches RequestStatus::Error(m) && m@ == e.message_spec()
        },
    }
    &&& t1.request == t0.request
    &&& t1.active_tab == t0.active_tab
    &&& t1.response_tab == t0.response_tab
    &&& t1.is_dirty == t0.is_dirty
    &&& t1.collection_id == t0.collection_id
}

/// Apply a delivered outcome to its tab; see `outcome_applied`.
pub fn apply_outcome(tab: &mut RequestTab, outcome: Result<ResponseState, AppError>)
    ensures
        outcome_applied(*old(tab), *final(tab), outcome),
{
    match outcome {
        Ok(resp) => {
            tab.response = Some(resp);
            tab.request_status = RequestStatus::Idle;
        },
        Err(e) => {
            match e {
                AppError::Cancelled => {
                    tab.request_status = RequestStatus::Idle;
                },
                other => {
                    tab.request_status = RequestStatus::Error(other.message());
                },
            }
        },
    }
}

/// Deliver an outcome carrying its send token. A stale token — one of a
/// superseded send — is discarded with nothing touched; the current
/// send's outcome empties the slot (that send is over either way) and
/// lands in the tab as `outcome_applied` says.
pub fn deliver_outcome(
    slot: &mut SendSlot,
    tab: &mut RequestTab,
    id: u64,
    outcome: Result<ResponseState, AppError>,
) -> (applied: bool)
    ensures
        applied == old(slot).accepts_spec(id),
        !applied ==> *final(slot) == *old(slot) && *final(tab) == *old(tab),
        applied ==> final(slot).active is None && final(slot).next_id == old(slot).next_id
            && outcome_applied(*old(tab), *final(tab), outcome),
{
    if slot.accepts(id) {
        slot.clear();
        apply_outcome(tab, outcome);
        true
    } else {
        false
    }
}

/// Advance the loading spinner by one tick, wrapping around; a tab that
/// is not loading is left alone.
pub fn advance_spinner(tab: &mut RequestTab)
    ensures
        match old(tab).request_status {
            RequestStatus::Loading { spinner_tick } => final(tab).request_status matches
                RequestStatus::Loading { spinner_tick: t2 } && t2 == ((spinner_tick + 1) % 256) as u8,
            _ => final(tab).request_status == old(tab).request_status,
        },
        final(tab).response == old(tab).response,
        final(tab).request == old(tab).request,
        final(tab).active_tab == old(tab).active_tab,
        final(tab).response_tab == old(tab).response_tab,
        final(tab).is_dirty == old(tab).is_dirty,
        final(tab).collection_id == old(tab).collection_id,
{
    match &tab.request_status {
        RequestStatus::Loading { spinner_tick } => {
            let t = *spinner_tick;
            let t2 = if t == 255 {
                0
            } else {
                t + 1
            };
            tab.request_status = RequestStatus::Loading { spinner_tick: t2 };
        },
        _ => {},
    }
}

/// Cancel the current send, if any: the slot is emptied and the tab goes
/// back to idle.
pub fn cancel_current(slot: &mut SendSlot, tab: &mut RequestTab)
    ensures
        final(slot).active is None,
        final(slot).next_id == old(slot).next_id,
        final(tab).request_status is Idle,
        final(tab).response == old(tab).response,
        final(tab).request == old(tab).request,
        final(tab).active_tab == old(tab).active_tab,
        final(tab).response_tab == old(tab).response_tab,
        final(tab).is_dirty == old(tab).is_dirty,
        final(tab).collection_id == old(tab).collection_id,
{
    slot.clear();
    tab.request_status = RequestStatus::Idle;
}

} // verus!
