//! Calls: what to do about what happens in a dialog, and about commands.
//!
//! Nothing here talks to the network. What happened comes in as a value, what
//! is to be done goes out as one, and where the outcome matters it comes back
//! in as a reply.

use std::collections::HashMap;
use vstd::prelude::*;

use crate::net::{IpAddress, PeerAddress};
use crate::random::{random_key, random_u64};
use crate::signaling::config::{payload_types_of, AccountView, DtmfMode, SipAccountConfig};
use crate::signaling::events::{
    state_changed, CallId, CallState, CallStateView, CommandView, CoreCommand, CoreEvent, EventView,
    LocalMediaInfo, RemoteMediaInfo, RemoteView,
};
use crate::signaling::sdp::{
    base64_text, describe, offer_in_body, offer_with_key, read_offer, select_payload_type, selected,
    session_of, session_text, MediaOffer, OfferView, TELEPHONE_EVENT_PT,
};
use crate::signaling::transport::{check_uri, uri_error, uri_message};
use crate::text::{
    begins, copy_opt_text, copy_text, hexadecimal, opt_text, push_all, push_hex,
    same_text, starts_with,
};

verus! {

/// How many lines there are for calls.
pub const MAX_LINES: u8 = 5;

// ---------------------------------------------------------------------------
// Requests that come in

/// What to do with a request.
#[derive(Debug, Clone, Copy, PartialEq, Eq, Structural)]
pub enum Route {
    /// It belongs to a dialog that is there.
    InDialog,
    /// It starts a dialog. Where that fails it is answered with 500.
    NewInvite,
    /// It is answered with the code.
    Refuse(u16),
}

/// What to do with a request: only an INVITE can start a dialog.
pub fn route_request(in_dialog: bool, is_invite: bool) -> (r: Route)
    ensures
        r == (if in_dialog {
            Route::InDialog
        } else if is_invite {
            Route::NewInvite
        } else {
            Route::Refuse(405)
        }),
{
    if in_dialog {
        Route::InDialog
    } else if is_invite {
        Route::NewInvite
    } else {
        Route::Refuse(405)
    }
}

// ---------------------------------------------------------------------------
// Calls

/// What identifies a dialog. The tag of the other side is empty before it has
/// answered.
#[derive(Debug)]
pub struct DialogKey {
    pub call_id: String,
    pub local_tag: String,
    pub remote_tag: String,
}

/// What identifies a dialog, as a plain value.
pub struct KeyView {
    pub call_id: Seq<char>,
    pub local_tag: Seq<char>,
    pub remote_tag: Seq<char>,
}

impl View for DialogKey {
    type V = KeyView;

    open spec fn view(&self) -> KeyView {
        KeyView {
            call_id: self.call_id@,
            local_tag: self.local_tag@,
            remote_tag: self.remote_tag@,
        }
    }
}

impl DialogKey {
    /// A copy of it.
    pub fn copy(&self) -> (r: Self)
        ensures
            r@ == self@,
    {
        DialogKey {
            call_id: copy_text(self.call_id.as_str()),
            local_tag: copy_text(self.local_tag.as_str()),
            remote_tag: copy_text(self.remote_tag.as_str()),
        }
    }
}

/// Which side started a call.
#[derive(Debug, Clone, Copy, PartialEq, Eq, Structural)]
pub enum Direction {
    Inbound,
    Outbound,
}

/// A call.
#[derive(Debug)]
pub struct CurrentCall {
    pub call_id: CallId,
    pub line: u8,
    pub dialog_id: DialogKey,
    pub direction: Direction,
    pub remote: Option<RemoteMediaInfo>,
    pub local_crypto_key: Option<String>,
    /// Needed to offer the same socket again when the call is put on hold.
    pub local_rtp_port: Option<u16>,
    /// Whether digits of this call are already being sent one by one.
    pub dtmf_worker: bool,
    /// What the caller offered, in the caller's order.
    pub remote_payload_types: Vec<u8>,
    pub remote_telephone_event_pt: Option<u8>,
}

/// A call as a plain value.
pub struct CallView {
    pub call_id: Seq<char>,
    pub line: u8,
    pub dialog_id: KeyView,
    pub direction: Direction,
    pub remote: Option<RemoteView>,
    pub local_crypto_key: Option<Seq<char>>,
    pub local_rtp_port: Option<u16>,
    pub dtmf_worker: bool,
    pub remote_payload_types: Seq<u8>,
    pub remote_telephone_event_pt: Option<u8>,
}

/// Where the other side receives, if that is known.
pub open spec fn opt_remote(o: Option<RemoteMediaInfo>) -> Option<RemoteView> {
    match o {
        Some(r) => Some(r@),
        None => None,
    }
}

impl View for CurrentCall {
    type V = CallView;

    open spec fn view(&self) -> CallView {
        CallView {
            call_id: self.call_id@,
            line: self.line,
            dialog_id: self.dialog_id@,
            direction: self.direction,
            remote: opt_remote(self.remote),
            local_crypto_key: opt_text(self.local_crypto_key),
            local_rtp_port: self.local_rtp_port,
            dtmf_worker: self.dtmf_worker,
            remote_payload_types: self.remote_payload_types@,
            remote_telephone_event_pt: self.remote_telephone_event_pt,
        }
    }
}

/// The calls, by their lines.
#[derive(Debug)]
pub struct DialogTracker {
    pub lines: HashMap<u8, CurrentCall>,
}

impl View for DialogTracker {
    type V = Map<u8, CallView>;

    open spec fn view(&self) -> Map<u8, CallView> {
        self.lines@.map_values(|c: CurrentCall| c@)
    }
}

/// Whether a call occupies a line.
pub open spec fn in_use(calls: Map<u8, CallView>, line: u8) -> bool {
    calls.contains_key(line)
}

/// Whether every call knows the line that it is on.
pub open spec fn lines_fit(calls: Map<u8, CallView>) -> bool {
    forall|line: u8| #[trigger] calls.contains_key(line) ==> calls[line].line == line
}

/// The first line from `i` on with a call that has the given identifier.
pub open spec fn found(calls: Map<u8, CallView>, id: Seq<char>, i: int) -> Option<u8>
    decreases 256 - i,
{
    if i < 0 || i > 255 {
        None
    } else if calls.contains_key(i as u8) && calls[i as u8].call_id == id {
        Some(i as u8)
    } else {
        found(calls, id, i + 1)
    }
}

/// The first line from `i` on with a call that has the given identifier and that
/// we started.
pub open spec fn found_outbound(calls: Map<u8, CallView>, id: Seq<char>, i: int) -> Option<u8>
    decreases 256 - i,
{
    if i < 0 || i > 255 {
        None
    } else if calls.contains_key(i as u8) && calls[i as u8].call_id == id && calls[i as u8].direction
        == Direction::Outbound {
        Some(i as u8)
    } else {
        found_outbound(calls, id, i + 1)
    }
}

/// The first line from `line` on that no call occupies.
pub open spec fn free_line(calls: Map<u8, CallView>, line: u8) -> Option<u8>
    decreases MAX_LINES + 1 - line,
{
    if line > MAX_LINES {
        None
    } else if !in_use(calls, line) {
        Some(line)
    } else {
        free_line(calls, (line + 1) as u8)
    }
}

/// The calls but for those with the given identifier.
pub open spec fn without(calls: Map<u8, CallView>, id: Seq<char>) -> Map<u8, CallView> {
    Map::new(
        |line: u8| calls.contains_key(line) && calls[line].call_id != id,
        |line: u8| calls[line],
    )
}

/// What `found` gives is the line of a call with that identifier.
pub proof fn found_is_there(calls: Map<u8, CallView>, id: Seq<char>, i: int)
    requires
        0 <= i,
    ensures
        found(calls, id, i) matches Some(k) ==> i <= k && calls.contains_key(k) && calls[k].call_id
            == id,
        found(calls, id, i) is None ==> forall|k: u8|
            i <= k && #[trigger] calls.contains_key(k) ==> calls[k].call_id != id,
    decreases 256 - i,
{
    if i <= 255 && !(calls.contains_key(i as u8) && calls[i as u8].call_id == id) {
        found_is_there(calls, id, i + 1);
    }
}

proof fn found_outbound_is_there(calls: Map<u8, CallView>, id: Seq<char>, i: int)
    requires
        0 <= i,
    ensures
        found_outbound(calls, id, i) matches Some(k) ==> i <= k && calls.contains_key(k)
            && calls[k].call_id == id,
    decreases 256 - i,
{
    if i <= 255 {
        found_outbound_is_there(calls, id, i + 1);
    }
}

proof fn change_keeps_found(
    calls: Map<u8, CallView>,
    k: u8,
    call: CallView,
    id: Seq<char>,
    i: int,
)
    requires
        0 <= i,
        calls.contains_key(k),
        call.call_id == calls[k].call_id,
    ensures
        found(calls.insert(k, call), id, i) == found(calls, id, i),
    decreases 256 - i,
{
    if i <= 255 {
        change_keeps_found(calls, k, call, id, i + 1);
    }
}

impl DialogTracker {
    /// Every call knows the line that it is on.
    pub open spec fn wf(self) -> bool {
        lines_fit(self@)
    }

    /// No calls.
    pub fn new() -> (r: Self)
        ensures
            r.wf(),
            r@ == Map::<u8, CallView>::empty(),
    {
        let r = DialogTracker { lines: HashMap::new() };
        assert(r@ =~= Map::<u8, CallView>::empty());
        r
    }

    fn on_line(&self, line: u8) -> (r: Option<&CurrentCall>)
        ensures
            match r {
                Some(c) => self@.contains_key(line) && self@[line] == c@,
                None => !self@.contains_key(line),
            },
    {
        broadcast use vstd::std_specs::hash::group_hash_axioms;

        self.lines.get(&line)
    }

    fn put(&mut self, line: u8, call: CurrentCall)
        ensures
            final(self)@ == old(self)@.insert(line, call@),
    {
        broadcast use vstd::std_specs::hash::group_hash_axioms;

        let ghost cv = call@;
        self.lines.insert(line, call);
        assert(self@ =~= old(self)@.insert(line, cv));
    }

    fn take(&mut self, line: u8) -> (r: Option<CurrentCall>)
        ensures
            final(self)@ == old(self)@.remove(line),
            match r {
                Some(c) => old(self)@.contains_key(line) && old(self)@[line] == c@,
                None => !old(self)@.contains_key(line),
            },
    {
        broadcast use vstd::std_specs::hash::group_hash_axioms;

        let r = self.lines.remove(&line);
        assert(self@ =~= old(self)@.remove(line));
        r
    }

    /// Whether a call occupies a line.
    pub fn line_in_use(&self, line: u8) -> (r: bool)
        ensures
            r == in_use(self@, line),
    {
        self.on_line(line).is_some()
    }

    /// The first line that no call occupies.
    pub fn first_free_line(&self) -> (r: Option<u8>)
        ensures
            r == free_line(self@, 1),
    {
        let mut line: u8 = 1;
        while line <= MAX_LINES
            invariant
                1 <= line <= MAX_LINES + 1,
                free_line(self@, 1) == free_line(self@, line),
            decreases MAX_LINES + 1 - line,
        {
            if !self.line_in_use(line) {
                return Some(line);
            }
            line = line + 1;
        }
        None
    }

    /// The first line with a call that has the given identifier.
    pub fn find_line(&self, id: &str) -> (r: Option<u8>)
        ensures
            r == found(self@, id@, 0),
    {
        let mut i: u16 = 0;
        while i < 256
            invariant
                i <= 256,
                found(self@, id@, 0) == found(self@, id@, i as int),
            decreases 256 - i,
        {
            let line: u8 = i as u8;
            if let Some(call) = self.on_line(line) {
                if same_text(call.call_id.as_str(), id) {
                    return Some(line);
                }
            }
            i = i + 1;
        }
        None
    }

    /// The call with the given identifier, the one on the first line if there
    /// are several.
    pub fn find(&self, id: &str) -> (r: Option<&CurrentCall>)
        ensures
            match r {
                Some(call) => found(self@, id@, 0) matches Some(k) && self@[k] == call@,
                None => found(self@, id@, 0) is None,
            },
    {
        proof {
            found_is_there(self@, id@, 0);
        }
        match self.find_line(id) {
            Some(line) => self.on_line(line),
            None => None,
        }
    }

    /// The first line with a call that has the given identifier and that we
    /// started.
    pub fn find_outbound_line(&self, id: &str) -> (r: Option<u8>)
        ensures
            r == found_outbound(self@, id@, 0),
    {
        let mut i: u16 = 0;
        while i < 256
            invariant
                i <= 256,
                found_outbound(self@, id@, 0) == found_outbound(self@, id@, i as int),
            decreases 256 - i,
        {
            let line: u8 = i as u8;
            if let Some(call) = self.on_line(line) {
                if same_text(call.call_id.as_str(), id) && call.direction == Direction::Outbound {
                    return Some(line);
                }
            }
            i = i + 1;
        }
        None
    }

    fn remove_id(&mut self, id: &str)
        ensures
            final(self)@ == without(old(self)@, id@),
    {
        let ghost all = self@;
        let mut i: u16 = 0;
        while i < 256
            invariant
                i <= 256,
                all == old(self)@,
                forall|line: u8|
                    #[trigger] self@.contains_key(line) <==> all.contains_key(line) && (line >= i
                        || all[line].call_id != id@),
                forall|line: u8|
                    #[trigger] self@.contains_key(line) ==> self@[line] == all[line],
            decreases 256 - i,
        {
            let line: u8 = i as u8;
            let ended = match self.on_line(line) {
                Some(call) => same_text(call.call_id.as_str(), id),
                None => false,
            };
            if ended {
                self.take(line);
            }
            i = i + 1;
        }
        assert(self@ =~= without(all, id@));
    }
}

// ---------------------------------------------------------------------------
// What happens in a dialog

/// The code of an answer, and the code with its reason as a text.
#[derive(Debug)]
pub struct Status {
    pub code: u16,
    pub text: String,
}

/// Why a dialog ended.
#[derive(Debug)]
pub enum EndReason {
    Timeout,
    UacCancel,
    UacBye,
    UasBye,
    UacBusy,
    UasBusy,
    UasDecline,
    ProxyError(Status),
    ProxyAuthRequired,
    UacOther(Status),
    UasOther(Status),
}

/// What a code that ends a call says: the common ones in plain words, the
/// others as they are.
pub open spec fn status_label(code: u16, text: Seq<char>) -> Seq<char> {
    if code == 486 {
        "busy"@
    } else if code == 404 {
        "number not found"@
    } else if code == 480 {
        "unavailable"@
    } else if code == 403 {
        "forbidden"@
    } else if 500 <= code <= 599 {
        "server error"@
    } else {
        text
    }
}

/// Why a call is over, in plain words.
pub open spec fn end_label(reason: EndReason) -> Seq<char> {
    match reason {
        EndReason::UacBye | EndReason::UasBye => "hung up"@,
        EndReason::UacCancel => "call canceled"@,
        EndReason::UacBusy | EndReason::UasBusy => "busy"@,
        EndReason::UasDecline => "declined"@,
        EndReason::Timeout => "timed out"@,
        EndReason::ProxyAuthRequired => "authentication failed"@,
        EndReason::ProxyError(status) => "server error ("@ + status.text@ + ")"@,
        EndReason::UacOther(status) | EndReason::UasOther(status) => status_label(
            status.code,
            status.text@,
        ),
    }
}

fn status_words(status: &Status) -> (s: String)
    ensures
        s@ == status_label(status.code, status.text@),
{
    if status.code == 486 {
        copy_text("busy")
    } else if status.code == 404 {
        copy_text("number not found")
    } else if status.code == 480 {
        copy_text("unavailable")
    } else if status.code == 403 {
        copy_text("forbidden")
    } else if 500 <= status.code && status.code <= 599 {
        copy_text("server error")
    } else {
        copy_text(status.text.as_str())
    }
}

/// Why a call is over, in plain words.
pub fn terminated_reason_label(reason: &EndReason) -> (s: String)
    ensures
        s@ == end_label(*reason),
{
    match reason {
        EndReason::UacBye | EndReason::UasBye => copy_text("hung up"),
        EndReason::UacCancel => copy_text("call canceled"),
        EndReason::UacBusy | EndReason::UasBusy => copy_text("busy"),
        EndReason::UasDecline => copy_text("declined"),
        EndReason::Timeout => copy_text("timed out"),
        EndReason::ProxyAuthRequired => copy_text("authentication failed"),
        EndReason::ProxyError(status) => {
            let mut s = String::new();
            push_all(&mut s, "server error (");
            push_all(&mut s, status.text.as_str());
            push_all(&mut s, ")");
            assert(s@ =~= "server error ("@ + status.text@ + ")"@);
            s
        },
        EndReason::UacOther(status) | EndReason::UasOther(status) => status_words(status),
    }
}

/// An invitation to a call: its body, and who it is from.
#[derive(Debug)]
pub struct Invitation {
    pub body: Vec<u8>,
    pub from: String,
}

/// What happened in a dialog.
#[derive(Debug)]
pub enum DialogEvent {
    /// A call comes in. Without an invitation it is none that we can answer.
    Calling { id: DialogKey, invite: Option<Invitation> },
    /// A call of ours was answered provisionally.
    Early { id: DialogKey, code: u16, body: Vec<u8> },
    /// A call was answered.
    Confirmed { id: DialogKey, body: Vec<u8> },
    Terminated { id: DialogKey, reason: EndReason },
    /// Anything else.
    Other,
}

/// What is to be done.
#[derive(Debug)]
pub enum DialogAction {
    /// Refuse the call.
    Reject { dialog: DialogKey, code: u16, reason: Option<String> },
    /// Let the caller know that it rings.
    Ring { dialog: DialogKey },
    /// End the call.
    HangUp { dialog: DialogKey },
    /// The dialog is over.
    Forget { dialog: DialogKey },
    /// Tell the user interface.
    Emit(CoreEvent),
}

/// What is to be done, as a plain value.
pub enum ActionView {
    Reject { dialog: KeyView, code: u16, reason: Option<Seq<char>> },
    Ring { dialog: KeyView },
    HangUp { dialog: KeyView },
    Forget { dialog: KeyView },
    Emit(EventView),
}

impl View for DialogAction {
    type V = ActionView;

    open spec fn view(&self) -> ActionView {
        match self {
            DialogAction::Reject { dialog, code, reason } => ActionView::Reject {
                dialog: dialog@,
                code: *code,
                reason: opt_text(*reason),
            },
            DialogAction::Ring { dialog } => ActionView::Ring { dialog: dialog@ },
            DialogAction::HangUp { dialog } => ActionView::HangUp { dialog: dialog@ },
            DialogAction::Forget { dialog } => ActionView::Forget { dialog: dialog@ },
            DialogAction::Emit(event) => ActionView::Emit(event@),
        }
    }
}

/// What is to be done, as plain values.
pub open spec fn action_views(v: Seq<DialogAction>) -> Seq<ActionView> {
    v.map_values(|a: DialogAction| a@)
}

/// Where and how the other side receives, by what it offered: the first codec
/// that it lists.
pub open spec fn remote_info(offer: OfferView, addr: (Seq<char>, u16)) -> RemoteView {
    RemoteView {
        remote_addr: addr,
        payload_type: if offer.payload_types.len() > 0 {
            offer.payload_types[0]
        } else {
            0
        },
        telephone_event_pt: offer.telephone_event_pt,
        crypto_key: offer.crypto_key,
    }
}

/// What an offer in a body says of the other side, if it can be used.
pub open spec fn offered(body: Seq<u8>) -> Option<(OfferView, RemoteView)> {
    match offer_in_body(body) {
        Ok(o) => match o.remote_addr {
            Some(addr) => Some((o, remote_info(o, addr))),
            None => None,
        },
        Err(_) => None,
    }
}

/// What happens when a call comes in: it gets the first free line, or is
/// refused as busy; one without usable audio is refused as not acceptable.
pub open spec fn calling_step(
    calls: Map<u8, CallView>,
    id: KeyView,
    invite: Option<(Seq<u8>, Seq<char>)>,
) -> (Map<u8, CallView>, Seq<ActionView>) {
    match (free_line(calls, 1), invite) {
        (_, None) => (calls, Seq::empty()),
        (None, Some(_)) => (
            calls,
            seq![ActionView::Reject { dialog: id, code: 486, reason: Some("Busy here"@) }],
        ),
        (Some(line), Some((body, from))) => match offered(body) {
            None => (calls, seq![ActionView::Reject { dialog: id, code: 488, reason: None }]),
            Some((offer, remote)) => (
                calls.insert(
                    line,
                    CallView {
                        call_id: id.call_id,
                        line,
                        dialog_id: id,
                        direction: Direction::Inbound,
                        remote: Some(remote),
                        local_crypto_key: None,
                        local_rtp_port: None,
                        dtmf_worker: false,
                        remote_payload_types: offer.payload_types,
                        remote_telephone_event_pt: offer.telephone_event_pt,
                    },
                ),
                seq![
                    ActionView::Emit(
                        EventView::IncomingCall {
                            id: id.call_id,
                            line,
                            remote: from,
                            offer: remote,
                        },
                    ),
                    ActionView::Ring { dialog: id },
                ],
            ),
        },
    }
}

/// What happens when a call of ours is answered provisionally: it rings, or
/// there is audio already.
pub open spec fn early_step(calls: Map<u8, CallView>, id: KeyView, code: u16, body: Seq<u8>) -> Seq<
    ActionView,
> {
    if found_outbound(calls, id.call_id, 0) is None {
        Seq::empty()
    } else if code == 180 {
        seq![
            ActionView::Emit(
                EventView::CallStateChanged { id: id.call_id, state: CallStateView::Ringing },
            ),
        ]
    } else if code == 183 && body.len() > 0 {
        match offered(body) {
            Some((_, remote)) => seq![
                ActionView::Emit(
                    EventView::CallStateChanged {
                        id: id.call_id,
                        state: CallStateView::EarlyMedia { remote },
                    },
                ),
            ],
            None => Seq::empty(),
        }
    } else {
        Seq::empty()
    }
}

/// What happens when a call of ours is answered. An answer that cannot be read
/// changes nothing.
pub open spec fn confirmed_step(calls: Map<u8, CallView>, id: KeyView, body: Seq<u8>) -> (
    Map<u8, CallView>,
    Seq<ActionView>,
) {
    match (found_outbound(calls, id.call_id, 0), offered(body)) {
        (Some(i), Some((_, remote))) => (
            calls.insert(i, CallView { dialog_id: id, remote: Some(remote), ..calls[i] }),
            seq![
                ActionView::Emit(
                    EventView::CallStateChanged {
                        id: id.call_id,
                        state: CallStateView::Answered {
                            crypto_key: calls[i].local_crypto_key,
                            remote,
                        },
                    },
                ),
            ],
        ),
        _ => (calls, Seq::empty()),
    }
}

/// What happens when a dialog ends: its call is gone.
pub open spec fn terminated_step(calls: Map<u8, CallView>, id: KeyView, why: Seq<char>) -> (
    Map<u8, CallView>,
    Seq<ActionView>,
) {
    (
        without(calls, id.call_id),
        seq![
            ActionView::Forget { dialog: id },
            ActionView::Emit(
                EventView::CallStateChanged {
                    id: id.call_id,
                    state: CallStateView::Terminated(why),
                },
            ),
        ],
    )
}

/// What happens in a dialog does to the calls, and what is to be done.
pub open spec fn dialog_step(calls: Map<u8, CallView>, event: DialogEvent) -> (
    Map<u8, CallView>,
    Seq<ActionView>,
) {
    match event {
        DialogEvent::Calling { id, invite } => calling_step(
            calls,
            id@,
            match invite {
                Some(i) => Some((i.body@, i.from@)),
                None => None,
            },
        ),
        DialogEvent::Early { id, code, body } => (calls, early_step(calls, id@, code, body@)),
        DialogEvent::Confirmed { id, body } => confirmed_step(calls, id@, body@),
        DialogEvent::Terminated { id, reason } => terminated_step(calls, id@, end_label(reason)),
        DialogEvent::Other => (calls, Seq::empty()),
    }
}

fn usable_offer(body: &Vec<u8>) -> (r: Option<(MediaOffer, RemoteMediaInfo)>)
    ensures
        match r {
            Some((o, remote)) => offered(body@) == Some((o@, remote@)),
            None => offered(body@) is None,
        },
{
    match read_offer(body) {
        Ok(o) => {
            let addr: Option<PeerAddress> = match &o.remote_addr {
                Some(a) => Some(a.copy()),
                None => None,
            };
            match addr {
                Some(remote_addr) => {
                    let payload_type: u8 = if o.payload_types.len() > 0 {
                        o.payload_types[0]
                    } else {
                        0
                    };
                    let remote = RemoteMediaInfo {
                        remote_addr,
                        payload_type,
                        telephone_event_pt: o.telephone_event_pt,
                        crypto_key: copy_opt_text(&o.crypto_key),
                    };
                    Some((o, remote))
                },
                None => None,
            }
        },
        Err(_) => None,
    }
}

proof fn free_line_is_free(calls: Map<u8, CallView>, line: u8)
    requires
        1 <= line,
    ensures
        free_line(calls, line) matches Some(l) ==> line <= l <= MAX_LINES && !in_use(calls, l),
        free_line(calls, line) is None ==> forall|l: u8|
            line <= l <= MAX_LINES ==> #[trigger] in_use(calls, l),
    decreases MAX_LINES + 1 - line,
{
    if line <= MAX_LINES && in_use(calls, line) {
        free_line_is_free(calls, (line + 1) as u8);
    }
}

impl DialogTracker {
    fn on_calling(&mut self, id: DialogKey, invite: Option<Invitation>) -> (r: Vec<DialogAction>)
        requires
            old(self).wf(),
        ensures
            final(self).wf(),
            final(self)@ == calling_step(
                old(self)@,
                id@,
                match invite {
                    Some(i) => Some((i.body@, i.from@)),
                    None => None,
                },
            ).0,
            action_views(r@) == calling_step(
                old(self)@,
                id@,
                match invite {
                    Some(i) => Some((i.body@, i.from@)),
                    None => None,
                },
            ).1,
    {
        let invitation = match invite {
            Some(i) => i,
            None => {
                let r: Vec<DialogAction> = Vec::new();
                assert(action_views(r@) =~= Seq::empty());
                return r;
            },
        };
        let line: u8 = match self.first_free_line() {
            Some(line) => line,
            None => {
                let r: Vec<DialogAction> = vec![
                    DialogAction::Reject {
                        dialog: id,
                        code: 486,
                        reason: Some(copy_text("Busy here")),
                    },
                ];
                assert(action_views(r@) =~= seq![
                    ActionView::Reject { dialog: id@, code: 486, reason: Some("Busy here"@) },
                ]);
                return r;
            },
        };
        match usable_offer(&invitation.body) {
            None => {
                let r: Vec<DialogAction> = vec![
                    DialogAction::Reject { dialog: id, code: 488, reason: None },
                ];
                assert(action_views(r@) =~= seq![
                    ActionView::Reject { dialog: id@, code: 488, reason: None },
                ]);
                r
            },
            Some((offer, remote)) => {
                let call = CurrentCall {
                    call_id: copy_text(id.call_id.as_str()),
                    line,
                    dialog_id: id.copy(),
                    direction: Direction::Inbound,
                    remote: Some(remote.copy()),
                    local_crypto_key: None,
                    local_rtp_port: None,
                    dtmf_worker: false,
                    remote_payload_types: offer.payload_types,
                    remote_telephone_event_pt: offer.telephone_event_pt,
                };
                self.put(line, call);
                let ghost idv = id@;
                let ghost remote_view = remote@;
                let event = CoreEvent::IncomingCall {
                    id: copy_text(id.call_id.as_str()),
                    line,
                    remote: invitation.from,
                    offer: remote,
                };
                let r: Vec<DialogAction> = vec![
                    DialogAction::Emit(event),
                    DialogAction::Ring { dialog: id },
                ];
                assert(action_views(r@) =~= seq![
                    ActionView::Emit(
                        EventView::IncomingCall {
                            id: idv.call_id,
                            line,
                            remote: invitation.from@,
                            offer: remote_view,
                        },
                    ),
                    ActionView::Ring { dialog: idv },
                ]);
                r
            },
        }
    }

    fn on_early(&self, id: &DialogKey, code: u16, body: &Vec<u8>) -> (r: Vec<DialogAction>)
        ensures
            action_views(r@) == early_step(self@, id@, code, body@),
    {
        let none: Vec<DialogAction> = Vec::new();
        assert(action_views(none@) =~= Seq::empty());
        if self.find_outbound_line(id.call_id.as_str()).is_none() {
            return none;
        }
        if code == 180 {
            let r: Vec<DialogAction> = vec![
                DialogAction::Emit(state_changed(id.call_id.as_str(), CallState::Ringing)),
            ];
            assert(action_views(r@) =~= early_step(self@, id@, code, body@));
            return r;
        }
        if code == 183 && body.len() > 0 {
            match usable_offer(body) {
                Some((_, remote)) => {
                    let r: Vec<DialogAction> = vec![
                        DialogAction::Emit(
                            state_changed(id.call_id.as_str(), CallState::EarlyMedia { remote }),
                        ),
                    ];
                    assert(action_views(r@) =~= early_step(self@, id@, code, body@));
                    return r;
                },
                None => {},
            }
        }
        none
    }

    fn on_confirmed(&mut self, id: DialogKey, body: &Vec<u8>) -> (r: Vec<DialogAction>)
        requires
            old(self).wf(),
        ensures
            final(self).wf(),
            final(self)@ == confirmed_step(old(self)@, id@, body@).0,
            action_views(r@) == confirmed_step(old(self)@, id@, body@).1,
    {
        let none: Vec<DialogAction> = Vec::new();
        assert(action_views(none@) =~= Seq::empty());
        proof {
            found_outbound_is_there(self@, id.call_id@, 0);
        }
        let line: u8 = match self.find_outbound_line(id.call_id.as_str()) {
            Some(line) => line,
            None => {
                return none;
            },
        };
        match usable_offer(body) {
            None => none,
            Some((_, remote)) => {
                let ghost before = self@;
                let call_id = copy_text(id.call_id.as_str());
                let crypto_key = self.change_answered(line, id, remote.copy());
                let r: Vec<DialogAction> = vec![
                    DialogAction::Emit(
                        CoreEvent::CallStateChanged {
                            id: call_id,
                            state: CallState::Answered {
                                local: LocalMediaInfo { crypto_key },
                                remote,
                            },
                        },
                    ),
                ];
                assert(action_views(r@) =~= confirmed_step(before, id@, body@).1);
                r
            },
        }
    }

    fn change_answered(&mut self, line: u8, id: DialogKey, remote: RemoteMediaInfo) -> (key: Option<
        String,
    >)
        requires
            old(self).wf(),
            old(self)@.contains_key(line),
        ensures
            final(self).wf(),
            final(self)@ == old(self)@.insert(
                line,
                CallView { dialog_id: id@, remote: Some(remote@), ..old(self)@[line] },
            ),
            opt_text(key) == old(self)@[line].local_crypto_key,
    {
        let ghost before = self@;
        match self.take(line) {
            Some(mut call) => {
                let key = copy_opt_text(&call.local_crypto_key);
                call.dialog_id = id;
                call.remote = Some(remote);
                let ghost w = call@;
                self.put(line, call);
                assert(self@ =~= before.insert(line, w));
                key
            },
            None => None,
        }
    }

    fn on_terminated(&mut self, id: DialogKey, reason: &EndReason) -> (r: Vec<DialogAction>)
        requires
            old(self).wf(),
        ensures
            final(self).wf(),
            final(self)@ == terminated_step(old(self)@, id@, end_label(*reason)).0,
            action_views(r@) == terminated_step(old(self)@, id@, end_label(*reason)).1,
    {
        self.remove_id(id.call_id.as_str());
        let event = state_changed(
            id.call_id.as_str(),
            CallState::Terminated(terminated_reason_label(reason)),
        );
        let ghost idv = id@;
        let r: Vec<DialogAction> = vec![
            DialogAction::Forget { dialog: id },
            DialogAction::Emit(event),
        ];
        assert(action_views(r@) =~= terminated_step(old(self)@, idv, end_label(*reason)).1);
        r
    }

    /// Takes note of what happened in a dialog, and says what is to be done.
    pub fn handle_dialog_state(&mut self, event: DialogEvent) -> (r: Vec<DialogAction>)
        requires
            old(self).wf(),
        ensures
            final(self).wf(),
            final(self)@ == dialog_step(old(self)@, event).0,
            action_views(r@) == dialog_step(old(self)@, event).1,
    {
        match event {
            DialogEvent::Calling { id, invite } => self.on_calling(id, invite),
            DialogEvent::Early { id, code, body } => self.on_early(&id, code, &body),
            DialogEvent::Confirmed { id, body } => self.on_confirmed(id, &body),
            DialogEvent::Terminated { id, reason } => self.on_terminated(id, &reason),
            DialogEvent::Other => {
                let r: Vec<DialogAction> = Vec::new();
                assert(action_views(r@) =~= Seq::empty());
                r
            },
        }
    }
}

// ---------------------------------------------------------------------------
// Commands

/// What a command takes from chance: a key, the number of a description, and
/// the number of a call.
#[derive(Debug, Clone, Copy)]
pub struct Fresh {
    pub key: [u8; 30],
    pub session_id: u32,
    pub call_number: u64,
}

impl Fresh {
    /// Fresh random values. Nothing can be said of them.
    pub fn draw() -> Self {
        let session: u64 = random_u64();
        Fresh {
            key: random_key(),
            session_id: (session % 0x1_0000_0000) as u32,
            call_number: random_u64(),
        }
    }
}

/// A call to be placed.
#[derive(Debug)]
pub struct InvitePlan {
    pub line: u8,
    pub caller: String,
    pub callee: String,
    pub call_id: CallId,
    /// The offer, as SDP.
    pub offer: String,
    pub crypto_key: Option<String>,
    pub local_rtp_port: u16,
}

/// A call to be answered.
#[derive(Debug)]
pub struct AnswerPlan {
    pub id: CallId,
    pub dialog: DialogKey,
    /// The answer, as SDP.
    pub answer: String,
    pub crypto_key: Option<String>,
    pub local_rtp_port: u16,
    pub remote: RemoteMediaInfo,
}

/// A call to be put on hold or taken back.
#[derive(Debug)]
pub struct HoldPlan {
    pub id: CallId,
    pub dialog: DialogKey,
    pub hold: bool,
    /// The offer, as SDP.
    pub offer: String,
    pub crypto_key: Option<String>,
    pub remote: RemoteMediaInfo,
}

/// What a command asks of the network.
#[derive(Debug)]
pub enum Request {
    Nothing,
    /// Nothing but to tell the user interface.
    Emit(CoreEvent),
    Invite(InvitePlan),
    Accept(AnswerPlan),
    Reinvite(HoldPlan),
    /// Refer the other side to the target; to none if that is no address,
    /// which fails at once.
    Refer { id: CallId, dialog: DialogKey, target: Option<String> },
    /// Refuse the call as busy, if it is one that came in.
    Reject { id: CallId, dialog: DialogKey },
    HangUp { dialog: DialogKey },
    /// Send a digit, behind those that are being sent. Where none are, begin
    /// to.
    SendInfo { id: CallId, dialog: DialogKey, digit: char, start_worker: bool },
}

/// What a command asks of the network, as a plain value.
pub enum RequestView {
    Nothing,
    Emit(EventView),
    Invite {
        line: u8,
        caller: Seq<char>,
        callee: Seq<char>,
        call_id: Seq<char>,
        offer: Seq<char>,
        crypto_key: Option<Seq<char>>,
        local_rtp_port: u16,
    },
    Accept {
        id: Seq<char>,
        dialog: KeyView,
        answer: Seq<char>,
        crypto_key: Option<Seq<char>>,
        local_rtp_port: u16,
        remote: RemoteView,
    },
    Reinvite {
        id: Seq<char>,
        dialog: KeyView,
        hold: bool,
        offer: Seq<char>,
        crypto_key: Option<Seq<char>>,
        remote: RemoteView,
    },
    Refer { id: Seq<char>, dialog: KeyView, target: Option<Seq<char>> },
    Reject { id: Seq<char>, dialog: KeyView },
    HangUp { dialog: KeyView },
    SendInfo { id: Seq<char>, dialog: KeyView, digit: char, start_worker: bool },
}

impl View for Request {
    type V = RequestView;

    open spec fn view(&self) -> RequestView {
        match self {
            Request::Nothing => RequestView::Nothing,
            Request::Emit(e) => RequestView::Emit(e@),
            Request::Invite(p) => RequestView::Invite {
                line: p.line,
                caller: p.caller@,
                callee: p.callee@,
                call_id: p.call_id@,
                offer: p.offer@,
                crypto_key: opt_text(p.crypto_key),
                local_rtp_port: p.local_rtp_port,
            },
            Request::Accept(p) => RequestView::Accept {
                id: p.id@,
                dialog: p.dialog@,
                answer: p.answer@,
                crypto_key: opt_text(p.crypto_key),
                local_rtp_port: p.local_rtp_port,
                remote: p.remote@,
            },
            Request::Reinvite(p) => RequestView::Reinvite {
                id: p.id@,
                dialog: p.dialog@,
                hold: p.hold,
                offer: p.offer@,
                crypto_key: opt_text(p.crypto_key),
                remote: p.remote@,
            },
            Request::Refer { id, dialog, target } => RequestView::Refer {
                id: id@,
                dialog: dialog@,
                target: opt_text(*target),
            },
            Request::Reject { id, dialog } => RequestView::Reject { id: id@, dialog: dialog@ },
            Request::HangUp { dialog } => RequestView::HangUp { dialog: dialog@ },
            Request::SendInfo { id, dialog, digit, start_worker } => RequestView::SendInfo {
                id: id@,
                dialog: dialog@,
                digit: *digit,
                start_worker: *start_worker,
            },
        }
    }
}

/// The address that was dialed: a SIP address as it is, anything else as an
/// extension of the account's server.
pub open spec fn callee_text(callee: Seq<char>, account: AccountView) -> Seq<char> {
    if begins(callee, "sip:"@) || begins(callee, "sips:"@) {
        callee
    } else {
        "sip:"@ + callee + "@"@ + account.sip_server_host + ";transport="@
            + account.transport.parameter()
    }
}

/// The account's own address.
pub open spec fn caller_text(account: AccountView) -> Seq<char> {
    "sip:"@ + account.username + "@"@ + account.sip_server_host
}

/// An offer of our own.
pub open spec fn own_offer(
    port: u16,
    srtp: bool,
    fresh: Fresh,
    hold: bool,
    payload_types: Seq<u8>,
    telephone_event: bool,
) -> OfferView {
    OfferView {
        port,
        payload_types,
        telephone_event_pt: if telephone_event {
            Some(TELEPHONE_EVENT_PT)
        } else {
            None
        },
        crypto_key: if srtp {
            Some(base64_text(fresh.key@))
        } else {
            None
        },
        remote_addr: None,
        hold,
    }
}

/// The text of an offer of our own.
pub open spec fn own_text(addr: IpAddress, fresh: Fresh, offer: OfferView) -> Seq<char> {
    session_text(session_of(addr, fresh.session_id, offer))
}

/// The identifier of a call of our own.
pub open spec fn own_call_id(n: u64) -> Seq<char> {
    hexadecimal(n as nat) + "-oxidesip"@
}

/// What placing a call asks for.
pub open spec fn place_request(
    calls: Map<u8, CallView>,
    account: AccountView,
    addr: IpAddress,
    fresh: Fresh,
    line: u8,
    callee: Seq<char>,
    port: u16,
) -> RequestView {
    let offer = own_offer(
        port,
        account.srtp,
        fresh,
        false,
        payload_types_of(account.preferred_codecs),
        account.dtmf_mode != DtmfMode::InfoOnly,
    );
    if in_use(calls, line) {
        RequestView::Emit(EventView::PlaceCallFailed { line, reason: "line already in a call"@ })
    } else if uri_error(callee_text(callee, account)) is Some {
        RequestView::Emit(
            EventView::PlaceCallFailed {
                line,
                reason: uri_message(uri_error(callee_text(callee, account))->0),
            },
        )
    } else if uri_error(caller_text(account)) is Some {
        RequestView::Emit(
            EventView::PlaceCallFailed { line, reason: uri_error(caller_text(account))->0 },
        )
    } else {
        RequestView::Invite {
            line,
            caller: caller_text(account),
            callee: callee_text(callee, account),
            call_id: own_call_id(fresh.call_number),
            offer: own_text(addr, fresh, offer),
            crypto_key: offer.crypto_key,
            local_rtp_port: port,
        }
    }
}

/// What answering a call asks for. The codec is the one that we like best of
/// those that were offered, and the audio runs with it; telephone events are only answered with if they
/// were offered and the account allows them.
pub open spec fn answer_request(
    calls: Map<u8, CallView>,
    account: AccountView,
    addr: IpAddress,
    fresh: Fresh,
    id: Seq<char>,
    port: u16,
) -> RequestView {
    match found(calls, id, 0) {
        None => RequestView::Nothing,
        Some(i) => {
            let call = calls[i];
            if call.direction != Direction::Inbound || call.remote is None {
                RequestView::Nothing
            } else {
                let remote = call.remote->0;
                let payload_type = match selected(
                    call.remote_payload_types,
                    payload_types_of(account.preferred_codecs),
                ) {
                    Some(pt) => pt,
                    None => remote.payload_type,
                };
                let events = call.remote_telephone_event_pt is Some && account.dtmf_mode
                    != DtmfMode::InfoOnly;
                let offer = own_offer(
                    port,
                    account.srtp,
                    fresh,
                    false,
                    seq![payload_type],
                    events,
                );
                RequestView::Accept {
                    id,
                    dialog: call.dialog_id,
                    answer: own_text(addr, fresh, offer),
                    crypto_key: offer.crypto_key,
                    local_rtp_port: port,
                    remote: RemoteView {
                        payload_type,
                        telephone_event_pt: if events {
                            call.remote_telephone_event_pt
                        } else {
                            None
                        },
                        ..remote
                    },
                }
            }
        },
    }
}

/// What putting a call on hold, or taking it back, asks for: the same audio
/// as was agreed on, with no new choice of codec.
pub open spec fn hold_request(
    calls: Map<u8, CallView>,
    account: AccountView,
    addr: IpAddress,
    fresh: Fresh,
    id: Seq<char>,
    hold: bool,
) -> RequestView {
    match found(calls, id, 0) {
        None => RequestView::Nothing,
        Some(i) => {
            let call = calls[i];
            if call.local_rtp_port is None || call.remote is None {
                RequestView::Nothing
            } else {
                let remote = call.remote->0;
                let offer = own_offer(
                    call.local_rtp_port->0,
                    account.srtp,
                    fresh,
                    hold,
                    seq![remote.payload_type],
                    remote.telephone_event_pt is Some,
                );
                RequestView::Reinvite {
                    id,
                    dialog: call.dialog_id,
                    hold,
                    offer: own_text(addr, fresh, offer),
                    crypto_key: offer.crypto_key,
                    remote,
                }
            }
        },
    }
}

/// What a command asks of the network. A digit goes by SIP INFO, unless the
/// account wants digits sent as RTP events alone.
pub open spec fn request_for(
    calls: Map<u8, CallView>,
    account: AccountView,
    addr: IpAddress,
    fresh: Fresh,
    command: CommandView,
) -> RequestView {
    match command {
        CommandView::PlaceCall { line, callee, local_rtp_port } => place_request(
            calls,
            account,
            addr,
            fresh,
            line,
            callee,
            local_rtp_port,
        ),
        CommandView::AnswerCall { id, local_rtp_port } => answer_request(
            calls,
            account,
            addr,
            fresh,
            id,
            local_rtp_port,
        ),
        CommandView::HoldCall(id) => hold_request(calls, account, addr, fresh, id, true),
        CommandView::ResumeCall(id) => hold_request(calls, account, addr, fresh, id, false),
        CommandView::BlindTransfer { id, target } => match found(calls, id, 0) {
            None => RequestView::Nothing,
            Some(i) => RequestView::Refer {
                id,
                dialog: calls[i].dialog_id,
                target: if uri_error(callee_text(target, account)) is None {
                    Some(callee_text(target, account))
                } else {
                    None
                },
            },
        },
        CommandView::RejectCall(id) => match found(calls, id, 0) {
            None => RequestView::Nothing,
            Some(i) => RequestView::Reject { id, dialog: calls[i].dialog_id },
        },
        CommandView::HangUp(id) => match found(calls, id, 0) {
            None => RequestView::Nothing,
            Some(i) => RequestView::HangUp { dialog: calls[i].dialog_id },
        },
        CommandView::SendDtmf { id, digit } => match found(calls, id, 0) {
            Some(i) if account.dtmf_mode != DtmfMode::RtpOnly => RequestView::SendInfo {
                id,
                dialog: calls[i].dialog_id,
                digit,
                start_worker: !calls[i].dtmf_worker,
            },
            _ => RequestView::Nothing,
        },
        CommandView::Shutdown => RequestView::Nothing,
    }
}

fn callee_address(callee: &str, config: &SipAccountConfig) -> (s: String)
    ensures
        s@ == callee_text(callee@, config@),
{
    let mut s = String::new();
    if starts_with(callee, "sip:") || starts_with(callee, "sips:") {
        push_all(&mut s, callee);
        assert(s@ =~= callee@);
    } else {
        push_all(&mut s, "sip:");
        push_all(&mut s, callee);
        push_all(&mut s, "@");
        push_all(&mut s, config.sip_server_host.as_str());
        push_all(&mut s, ";transport=");
        push_all(&mut s, config.transport.as_parameter());
        assert(s@ =~= callee_text(callee@, config@));
    }
    s
}

/// The address that was dialed, or why it is none.
pub fn build_callee_uri(callee: &str, config: &SipAccountConfig) -> (r: Result<
    crate::signaling::transport::SipUri,
    crate::signaling::error::CoreError,
>)
    ensures
        match uri_error(callee_text(callee@, config@)) {
            None => r matches Ok(u) && u.text@ == callee_text(callee@, config@),
            Some(why) => r matches Err(e) && e@ == crate::signaling::error::ErrorView::Sip(
                uri_message(why),
            ),
        },
{
    crate::signaling::transport::parse_uri(callee_address(callee, config))
}

fn write_offer(
    addr: IpAddress,
    fresh: &Fresh,
    port: u16,
    srtp: bool,
    hold: bool,
    payload_types: &Vec<u8>,
    telephone_event: bool,
) -> (r: (String, Option<String>))
    ensures
        r.0@ == own_text(
            addr,
            *fresh,
            own_offer(port, srtp, *fresh, hold, payload_types@, telephone_event),
        ),
        opt_text(r.1) == own_offer(
            port,
            srtp,
            *fresh,
            hold,
            payload_types@,
            telephone_event,
        ).crypto_key,
{
    let key: Option<[u8; 30]> = if srtp {
        Some(fresh.key)
    } else {
        None
    };
    let offer = offer_with_key(port, key, hold, payload_types.as_slice(), telephone_event);
    assert(offer@ == own_offer(port, srtp, *fresh, hold, payload_types@, telephone_event));
    let text = describe(addr, fresh.session_id, &offer).to_string();
    (text, offer.crypto_key)
}

fn failed(line: u8, reason: String) -> (r: Request)
    ensures
        r@ == RequestView::Emit(EventView::PlaceCallFailed { line, reason: reason@ }),
{
    Request::Emit(CoreEvent::PlaceCallFailed { line, reason })
}

impl DialogTracker {
    fn place_call(
        &self,
        config: &SipAccountConfig,
        addr: IpAddress,
        fresh: &Fresh,
        line: u8,
        callee: &str,
        port: u16,
    ) -> (r: Request)
        ensures
            r@ == place_request(self@, config@, addr, *fresh, line, callee@, port),
    {
        if self.line_in_use(line) {
            return failed(line, copy_text("line already in a call"));
        }
        let callee_uri = match build_callee_uri(callee, config) {
            Ok(uri) => uri,
            Err(e) => {
                return failed(line, e.to_string());
            },
        };
        let mut caller = String::new();
        push_all(&mut caller, "sip:");
        push_all(&mut caller, config.username.as_str());
        push_all(&mut caller, "@");
        push_all(&mut caller, config.sip_server_host.as_str());
        assert(caller@ =~= caller_text(config@));
        match check_uri(caller.as_str()) {
            Some(why) => {
                return failed(line, why);
            },
            None => {},
        }
        let payload_types = config.preferred_payload_types();
        let (offer, crypto_key) = write_offer(
            addr,
            fresh,
            port,
            config.srtp,
            false,
            &payload_types,
            config.dtmf_mode != DtmfMode::InfoOnly,
        );
        let mut call_id = String::new();
        push_hex(&mut call_id, fresh.call_number);
        push_all(&mut call_id, "-oxidesip");
        assert(call_id@ =~= own_call_id(fresh.call_number));
        Request::Invite(
            InvitePlan {
                line,
                caller,
                callee: callee_uri.text,
                call_id,
                offer,
                crypto_key,
                local_rtp_port: port,
            },
        )
    }

    fn answer_call(
        &self,
        config: &SipAccountConfig,
        addr: IpAddress,
        fresh: &Fresh,
        id: CallId,
        port: u16,
    ) -> (r: Request)
        ensures
            r@ == answer_request(self@, config@, addr, *fresh, id@, port),
    {
        let call = match self.find(id.as_str()) {
            Some(call) => call,
            None => {
                return Request::Nothing;
            },
        };
        if call.direction != Direction::Inbound {
            return Request::Nothing;
        }
        let mut remote = match &call.remote {
            Some(remote) => remote.copy(),
            None => {
                return Request::Nothing;
            },
        };
        let preferred = config.preferred_payload_types();
        let payload_type: u8 = match select_payload_type(
            call.remote_payload_types.as_slice(),
            preferred.as_slice(),
        ) {
            Some(pt) => pt,
            None => remote.payload_type,
        };
        let events = call.remote_telephone_event_pt.is_some() && config.dtmf_mode
            != DtmfMode::InfoOnly;
        let types: Vec<u8> = vec![payload_type];
        assert(types@ =~= seq![payload_type]);
        let (answer, crypto_key) = write_offer(
            addr,
            fresh,
            port,
            config.srtp,
            false,
            &types,
            events,
        );
        remote.payload_type = payload_type;
        remote.telephone_event_pt = if events {
            call.remote_telephone_event_pt
        } else {
            None
        };
        Request::Accept(
            AnswerPlan {
                id,
                dialog: call.dialog_id.copy(),
                answer,
                crypto_key,
                local_rtp_port: port,
                remote,
            },
        )
    }

    fn handle_hold_resume(
        &self,
        config: &SipAccountConfig,
        addr: IpAddress,
        fresh: &Fresh,
        id: CallId,
        hold: bool,
    ) -> (r: Request)
        ensures
            r@ == hold_request(self@, config@, addr, *fresh, id@, hold),
    {
        let call = match self.find(id.as_str()) {
            Some(call) => call,
            None => {
                return Request::Nothing;
            },
        };
        let port: u16 = match call.local_rtp_port {
            Some(port) => port,
            None => {
                return Request::Nothing;
            },
        };
        let remote = match &call.remote {
            Some(remote) => remote.copy(),
            None => {
                return Request::Nothing;
            },
        };
        let types: Vec<u8> = vec![remote.payload_type];
        assert(types@ =~= seq![remote.payload_type]);
        let (offer, crypto_key) = write_offer(
            addr,
            fresh,
            port,
            config.srtp,
            hold,
            &types,
            remote.telephone_event_pt.is_some(),
        );
        Request::Reinvite(
            HoldPlan { id, dialog: call.dialog_id.copy(), hold, offer, crypto_key, remote },
        )
    }

    /// What a command asks of the network.
    pub fn handle_command(
        &self,
        config: &SipAccountConfig,
        addr: IpAddress,
        fresh: &Fresh,
        command: CoreCommand,
    ) -> (r: Request)
        ensures
            r@ == request_for(self@, config@, addr, *fresh, command@),
    {
        match command {
            CoreCommand::PlaceCall { line, callee, local_rtp_port } => self.place_call(
                config,
                addr,
                fresh,
                line,
                callee.as_str(),
                local_rtp_port,
            ),
            CoreCommand::AnswerCall { id, local_rtp_port } => self.answer_call(
                config,
                addr,
                fresh,
                id,
                local_rtp_port,
            ),
            CoreCommand::HoldCall(id) => self.handle_hold_resume(config, addr, fresh, id, true),
            CoreCommand::ResumeCall(id) => self.handle_hold_resume(config, addr, fresh, id, false),
            CoreCommand::BlindTransfer { id, target } => match self.find(id.as_str()) {
                None => Request::Nothing,
                Some(call) => {
                    let dialog = call.dialog_id.copy();
                    let target: Option<String> = match build_callee_uri(target.as_str(), config) {
                        Ok(uri) => Some(uri.text),
                        Err(_) => None,
                    };
                    Request::Refer { id, dialog, target }
                },
            },
            CoreCommand::RejectCall(id) => match self.find(id.as_str()) {
                None => Request::Nothing,
                Some(call) => Request::Reject { id, dialog: call.dialog_id.copy() },
            },
            CoreCommand::HangUp(id) => match self.find(id.as_str()) {
                None => Request::Nothing,
                Some(call) => Request::HangUp { dialog: call.dialog_id.copy() },
            },
            CoreCommand::SendDtmf { id, digit } => match self.find(id.as_str()) {
                None => Request::Nothing,
                Some(call) => {
                    if config.dtmf_mode == DtmfMode::RtpOnly {
                        return Request::Nothing;
                    }
                    Request::SendInfo {
                        id,
                        dialog: call.dialog_id.copy(),
                        digit,
                        start_worker: !call.dtmf_worker,
                    }
                },
            },
            CoreCommand::Shutdown => Request::Nothing,
        }
    }
}

/// The body of a message that carries a digit.
pub open spec fn digit_body(digit: char) -> Seq<char> {
    "Signal="@ + seq![digit] + "\r\nDuration=250\r\n"@
}

/// The body of a message that carries a digit.
pub fn dtmf_body(digit: char) -> (s: String)
    ensures
        s@ == digit_body(digit),
{
    let mut s = String::new();
    push_all(&mut s, "Signal=");
    s.push(digit);
    push_all(&mut s, "\r\nDuration=250\r\n");
    assert(s@ =~= digit_body(digit));
    s
}

// ---------------------------------------------------------------------------
// Replies

/// What came of a request.
#[allow(inconsistent_fields)]
#[derive(Debug)]
pub enum Reply {
    /// The invitation is on its way.
    InviteStarted { plan: InvitePlan, dialog: DialogKey },
    /// The invitation could not be sent.
    InviteRefused { line: u8, reason: String },
    /// The invitation failed later on, in a way that ends no dialog.
    InviteFailed { id: CallId, error: String },
    /// Whoever waited for the invitation broke down.
    InviteTaskFailed { id: CallId, error: String },
    /// The call was accepted.
    Accepted(AnswerPlan),
    /// The offer to put a call on hold, or to take it back, is being sent.
    ReinviteSent { id: CallId, crypto_key: Option<String> },
    /// The other side answered it, or it failed.
    ReinviteDone { plan: HoldPlan, error: Option<String> },
    ReferDone { id: CallId, dialog: DialogKey, ok: bool },
    Rejected { id: CallId },
    /// Digits of the call are now being sent one by one.
    WorkerStarted { id: CallId },
    InfoDone { id: CallId, digit: char, ok: bool },
}

/// What came of a request, as done to the calls: a call that was started gets
/// its line; one that was accepted remembers what was agreed on, its key and its
/// port, and one that was put on hold its key.
pub open spec fn reply_calls(calls: Map<u8, CallView>, reply: Reply) -> Map<u8, CallView> {
    match reply {
        Reply::InviteStarted { plan, dialog } => calls.insert(
            plan.line,
            CallView {
                call_id: plan.call_id@,
                line: plan.line,
                dialog_id: dialog@,
                direction: Direction::Outbound,
                remote: None,
                local_crypto_key: opt_text(plan.crypto_key),
                local_rtp_port: Some(plan.local_rtp_port),
                dtmf_worker: false,
                remote_payload_types: Seq::empty(),
                remote_telephone_event_pt: None,
            },
        ),
        Reply::Accepted(plan) => match found(calls, plan.id@, 0) {
            Some(i) => calls.insert(
                i,
                CallView {
                    remote: Some(plan.remote@),
                    local_crypto_key: opt_text(plan.crypto_key),
                    local_rtp_port: Some(plan.local_rtp_port),
                    ..calls[i]
                },
            ),
            None => calls,
        },
        Reply::ReinviteSent { id, crypto_key } => match found(calls, id@, 0) {
            Some(i) => calls.insert(
                i,
                CallView { local_crypto_key: opt_text(crypto_key), ..calls[i] },
            ),
            None => calls,
        },
        Reply::WorkerStarted { id } => match found(calls, id@, 0) {
            Some(i) => calls.insert(i, CallView { dtmf_worker: true, ..calls[i] }),
            None => calls,
        },
        _ => calls,
    }
}

/// What is to be done about what came of a request.
pub open spec fn reply_actions(reply: Reply) -> Seq<ActionView> {
    match reply {
        Reply::InviteStarted { plan, dialog } => seq![
            ActionView::Emit(
                EventView::OutgoingCallStarted { id: plan.call_id@, line: plan.line },
            ),
        ],
        Reply::InviteRefused { line, reason } => seq![
            ActionView::Emit(EventView::PlaceCallFailed { line, reason: reason@ }),
        ],
        Reply::InviteFailed { id, error } => seq![
            ActionView::Emit(
                EventView::CallStateChanged {
                    id: id@,
                    state: CallStateView::Terminated("invite error: "@ + error@),
                },
            ),
        ],
        Reply::InviteTaskFailed { id, error } => seq![
            ActionView::Emit(
                EventView::CallStateChanged {
                    id: id@,
                    state: CallStateView::Terminated("invite task error: "@ + error@),
                },
            ),
        ],
        Reply::Accepted(plan) => seq![
            ActionView::Emit(
                EventView::CallStateChanged {
                    id: plan.id@,
                    state: CallStateView::Answered {
                        crypto_key: opt_text(plan.crypto_key),
                        remote: plan.remote@,
                    },
                },
            ),
        ],
        Reply::ReinviteSent { id, crypto_key } => Seq::empty(),
        Reply::ReinviteDone { plan, error } => match error {
            Some(reason) => seq![
                ActionView::Emit(
                    EventView::HoldResumeFailed { id: plan.id@, hold: plan.hold, reason: reason@ },
                ),
            ],
            None => seq![
                ActionView::Emit(
                    EventView::CallStateChanged {
                        id: plan.id@,
                        state: if plan.hold {
                            CallStateView::Held
                        } else {
                            CallStateView::Answered {
                                crypto_key: opt_text(plan.crypto_key),
                                remote: plan.remote@,
                            }
                        },
                    },
                ),
            ],
        },
        Reply::ReferDone { id, dialog, ok } => if ok {
            seq![
                ActionView::HangUp { dialog: dialog@ },
                ActionView::Emit(EventView::TransferResult { id: id@, ok }),
            ]
        } else {
            seq![ActionView::Emit(EventView::TransferResult { id: id@, ok })]
        },
        Reply::Rejected { id } => seq![
            ActionView::Emit(
                EventView::CallStateChanged { id: id@, state: CallStateView::Rejected },
            ),
        ],
        Reply::WorkerStarted { id } => Seq::empty(),
        Reply::InfoDone { id, digit, ok } => seq![
            ActionView::Emit(EventView::DtmfResult { id: id@, digit, ok }),
        ],
    }
}

fn emit(event: CoreEvent) -> (r: Vec<DialogAction>)
    ensures
        action_views(r@) == seq![ActionView::Emit(event@)],
{
    let r: Vec<DialogAction> = vec![DialogAction::Emit(event)];
    assert(action_views(r@) =~= seq![ActionView::Emit(event@)]);
    r
}

fn no_actions() -> (r: Vec<DialogAction>)
    ensures
        action_views(r@) == Seq::<ActionView>::empty(),
{
    let r: Vec<DialogAction> = Vec::new();
    assert(action_views(r@) =~= Seq::<ActionView>::empty());
    r
}

fn prefixed(prefix: &str, rest: &str) -> (s: String)
    ensures
        s@ == prefix@ + rest@,
{
    let mut s = String::new();
    push_all(&mut s, prefix);
    push_all(&mut s, rest);
    assert(s@ =~= prefix@ + rest@);
    s
}

impl DialogTracker {
    fn keep(
        &mut self,
        id: &str,
        crypto_key: Option<String>,
        agreed: Option<(u16, RemoteMediaInfo)>,
    )
        requires
            old(self).wf(),
        ensures
            final(self).wf(),
            final(self)@ == (match found(old(self)@, id@, 0) {
                Some(i) => old(self)@.insert(
                    i,
                    CallView {
                        local_crypto_key: opt_text(crypto_key),
                        local_rtp_port: match agreed {
                            Some((port, _)) => Some(port),
                            None => old(self)@[i].local_rtp_port,
                        },
                        remote: match agreed {
                            Some((_, remote)) => Some(remote@),
                            None => old(self)@[i].remote,
                        },
                        ..old(self)@[i]
                    },
                ),
                None => old(self)@,
            }),
    {
        let ghost before = self@;
        proof {
            found_is_there(before, id@, 0);
        }
        if let Some(line) = self.find_line(id) {
            if let Some(mut call) = self.take(line) {
                call.local_crypto_key = crypto_key;
                match agreed {
                    Some((port, remote)) => {
                        call.local_rtp_port = Some(port);
                        call.remote = Some(remote);
                    },
                    None => {},
                }
                let ghost w = call@;
                self.put(line, call);
                assert(self@ =~= before.insert(line, w));
            }
        }
    }

    fn start_worker(&mut self, id: &str)
        requires
            old(self).wf(),
        ensures
            final(self).wf(),
            final(self)@ == (match found(old(self)@, id@, 0) {
                Some(i) => old(self)@.insert(i, CallView { dtmf_worker: true, ..old(self)@[i] }),
                None => old(self)@,
            }),
    {
        let ghost before = self@;
        proof {
            found_is_there(before, id@, 0);
        }
        if let Some(line) = self.find_line(id) {
            if let Some(mut call) = self.take(line) {
                call.dtmf_worker = true;
                let ghost w = call@;
                self.put(line, call);
                assert(self@ =~= before.insert(line, w));
            }
        }
    }

    fn start_call(&mut self, plan: InvitePlan, dialog: DialogKey) -> (r: CoreEvent)
        requires
            old(self).wf(),
        ensures
            final(self).wf(),
            final(self)@ == reply_calls(old(self)@, Reply::InviteStarted { plan, dialog }),
            r@ == (EventView::OutgoingCallStarted { id: plan.call_id@, line: plan.line }),
    {
        let id = copy_text(plan.call_id.as_str());
        let line: u8 = plan.line;
        let call = CurrentCall {
            call_id: plan.call_id,
            line,
            dialog_id: dialog,
            direction: Direction::Outbound,
            remote: None,
            local_crypto_key: plan.crypto_key,
            local_rtp_port: Some(plan.local_rtp_port),
            dtmf_worker: false,
            remote_payload_types: Vec::new(),
            remote_telephone_event_pt: None,
        };
        assert(call@.remote_payload_types =~= Seq::empty());
        self.put(line, call);
        CoreEvent::OutgoingCallStarted { id, line }
    }

    /// Takes note of what came of a request, and says what is to be done.
    pub fn handle_reply(&mut self, reply: Reply) -> (r: Vec<DialogAction>)
        requires
            old(self).wf(),
        ensures
            final(self).wf(),
            final(self)@ == reply_calls(old(self)@, reply),
            action_views(r@) == reply_actions(reply),
    {
        match reply {
            Reply::InviteStarted { plan, dialog } => {
                let event = self.start_call(plan, dialog);
                emit(event)
            },
            Reply::InviteRefused { line, reason } => emit(
                CoreEvent::PlaceCallFailed { line, reason },
            ),
            Reply::InviteFailed { id, error } => emit(
                CoreEvent::CallStateChanged {
                    id,
                    state: CallState::Terminated(prefixed("invite error: ", error.as_str())),
                },
            ),
            Reply::InviteTaskFailed { id, error } => emit(
                CoreEvent::CallStateChanged {
                    id,
                    state: CallState::Terminated(prefixed("invite task error: ", error.as_str())),
                },
            ),
            Reply::Accepted(plan) => {
                self.keep(
                    plan.id.as_str(),
                    copy_opt_text(&plan.crypto_key),
                    Some((plan.local_rtp_port, plan.remote.copy())),
                );
                emit(
                    CoreEvent::CallStateChanged {
                        id: plan.id,
                        state: CallState::Answered {
                            local: LocalMediaInfo { crypto_key: plan.crypto_key },
                            remote: plan.remote,
                        },
                    },
                )
            },
            Reply::ReinviteSent { id, crypto_key } => {
                self.keep(id.as_str(), crypto_key, None);
                no_actions()
            },
            Reply::ReinviteDone { plan, error } => match error {
                Some(reason) => emit(
                    CoreEvent::HoldResumeFailed { id: plan.id, hold: plan.hold, reason },
                ),
                None => {
                    let state = if plan.hold {
                        CallState::Held
                    } else {
                        CallState::Answered {
                            local: LocalMediaInfo { crypto_key: plan.crypto_key },
                            remote: plan.remote,
                        }
                    };
                    emit(CoreEvent::CallStateChanged { id: plan.id, state })
                },
            },
            Reply::ReferDone { id, dialog, ok } => {
                let event = CoreEvent::TransferResult { id, ok };
                if ok {
                    let ghost dv = dialog@;
                    let ghost ev = event@;
                    let r: Vec<DialogAction> = vec![
                        DialogAction::HangUp { dialog },
                        DialogAction::Emit(event),
                    ];
                    assert(action_views(r@) =~= seq![
                        ActionView::HangUp { dialog: dv },
                        ActionView::Emit(ev),
                    ]);
                    r
                } else {
                    emit(event)
                }
            },
            Reply::Rejected { id } => emit(
                CoreEvent::CallStateChanged { id, state: CallState::Rejected },
            ),
            Reply::WorkerStarted { id } => {
                self.start_worker(id.as_str());
                no_actions()
            },
            Reply::InfoDone { id, digit, ok } => emit(CoreEvent::DtmfResult { id, digit, ok }),
        }
    }
}

// ---------------------------------------------------------------------------
// Laws

/// A call that comes in while all lines are taken is refused as busy, and
/// changes nothing; while a line is free, one with usable audio gets a line
/// that no other call is on, and no other call is touched.
pub proof fn incoming_calls_get_a_line(
    calls: Map<u8, CallView>,
    id: KeyView,
    body: Seq<u8>,
    from: Seq<char>,
)
    requires
        lines_fit(calls),
    ensures
        (forall|l: u8| 1 <= l <= MAX_LINES ==> #[trigger] in_use(calls, l)) ==> calling_step(
            calls,
            id,
            Some((body, from)),
        ) == (
            calls,
            seq![ActionView::Reject { dialog: id, code: 486, reason: Some("Busy here"@) }],
        ),
        offered(body) is Some && (exists|l: u8|
            1 <= l <= MAX_LINES && !#[trigger] in_use(calls, l)) ==> ({
            let after = calling_step(calls, id, Some((body, from))).0;
            &&& lines_fit(after)
            &&& exists|line: u8|
                1 <= line <= MAX_LINES && !#[trigger] in_use(calls, line) && after == calls.insert(
                    line,
                    after[line],
                ) && after[line].call_id == id.call_id
        }),
{
    free_line_is_free(calls, 1);
    if let Some(line) = free_line(calls, 1) {
        if offered(body) is Some {
            let after = calling_step(calls, id, Some((body, from))).0;
            assert(!in_use(calls, line) && after == calls.insert(line, after[line]));
        }
    }
}

/// A call whose dialog has ended is gone, and every other call is still there,
/// as it was.
pub proof fn ended_calls_are_gone(calls: Map<u8, CallView>, id: KeyView, why: Seq<char>)
    ensures
        ({
            let after = terminated_step(calls, id, why).0;
            &&& found(after, id.call_id, 0) is None
            &&& forall|line: u8|
                #[trigger] calls.contains_key(line) && calls[line].call_id != id.call_id
                    ==> after.contains_key(line) && after[line] == calls[line]
            &&& forall|line: u8| #[trigger]
                after.contains_key(line) ==> calls.contains_key(line)
        }),
{
    found_is_there(without(calls, id.call_id), id.call_id, 0);
}

/// Putting a call that we answered on hold, and taking it back later, offers
/// the port, the codec and the telephone events of the answer again, and
/// differs from it in the direction alone; and it is the codec that the answer
/// was reported with.
pub proof fn hold_keeps_the_codec(
    calls: Map<u8, CallView>,
    account: AccountView,
    addr: IpAddress,
    fresh: Fresh,
    id: Seq<char>,
    port: u16,
    plan: AnswerPlan,
    later: Fresh,
    sent: CallId,
    key: Option<String>,
    hold: bool,
)
    requires
        answer_request(calls, account, addr, fresh, id, port) == Request::Accept(plan)@,
    ensures
        ({
            let answered = reply_calls(calls, Reply::Accepted(plan));
            let held = reply_calls(answered, Reply::ReinviteSent { id: sent, crypto_key: key });
            let events = plan.remote@.telephone_event_pt is Some;
            let types = seq![plan.remote@.payload_type];
            let again = own_text(
                addr,
                later,
                own_offer(port, account.srtp, later, hold, types, events),
            );
            &&& plan.answer@ == own_text(
                addr,
                fresh,
                own_offer(port, account.srtp, fresh, false, types, events),
            )
            &&& reply_actions(Reply::Accepted(plan)) == seq![
                ActionView::Emit(
                    EventView::CallStateChanged {
                        id,
                        state: CallStateView::Answered {
                            crypto_key: opt_text(plan.crypto_key),
                            remote: plan.remote@,
                        },
                    },
                ),
            ]
            &&& hold_request(answered, account, addr, later, id, hold)
                matches RequestView::Reinvite { offer, .. } && offer == again
            &&& hold_request(held, account, addr, later, id, hold)
                matches RequestView::Reinvite { offer, .. } && offer == again
        }),
{
    found_is_there(calls, id, 0);
    let answered = reply_calls(calls, Reply::Accepted(plan));
    let i = found(calls, id, 0)->0;
    change_keeps_found(calls, i, answered[i], id, 0);
    found_is_there(answered, sent@, 0);
    if let Some(k) = found(answered, sent@, 0) {
        let held = CallView { local_crypto_key: opt_text(key), ..answered[k] };
        change_keeps_found(answered, k, held, id, 0);
    }
}

/// An answer keeps to what was offered: its one codec is one that the caller
/// offered, if the caller offered any; and telephone events are agreed on only
/// if the caller offered them and the account does not want digits sent by SIP
/// INFO alone.
pub proof fn answers_keep_to_the_offer(
    calls: Map<u8, CallView>,
    account: AccountView,
    addr: IpAddress,
    fresh: Fresh,
    id: Seq<char>,
    port: u16,
)
    ensures
        answer_request(calls, account, addr, fresh, id, port) matches RequestView::Accept {
            answer,
            remote,
            ..
        } ==> exists|i: u8| #[trigger]
            calls.contains_key(i) && calls[i].call_id == id && (calls[i].remote_payload_types.len() > 0 ==> calls[i].remote_payload_types.contains(
                remote.payload_type,
            )) && answer == own_text(
                addr,
                fresh,
                own_offer(
                    port,
                    account.srtp,
                    fresh,
                    false,
                    seq![remote.payload_type],
                    remote.telephone_event_pt is Some,
                ),
            ) && (remote.telephone_event_pt is Some ==> calls[i].remote_telephone_event_pt
                == remote.telephone_event_pt && account.dtmf_mode != DtmfMode::InfoOnly),
{
    found_is_there(calls, id, 0);
    if let Some(i) = found(calls, id, 0) {
        let offered = calls[i].remote_payload_types;
        let preference = payload_types_of(account.preferred_codecs);
        if preference.len() > 0 {
            crate::signaling::sdp::best_codec_is_chosen(offered, preference, 0);
        } else if offered.len() > 0 {
            assert(crate::signaling::sdp::first_offered(offered, preference, 0) is None);
            assert(offered.contains(offered[0]));
        }
    }
}

/// A line with a call on it takes no second one.
pub proof fn busy_lines_place_no_call(
    calls: Map<u8, CallView>,
    account: AccountView,
    addr: IpAddress,
    fresh: Fresh,
    line: u8,
    callee: Seq<char>,
    port: u16,
)
    requires
        in_use(calls, line),
    ensures
        place_request(calls, account, addr, fresh, line, callee, port) == RequestView::Emit(
            EventView::PlaceCallFailed { line, reason: "line already in a call"@ },
        ),
{
}

} // verus!
