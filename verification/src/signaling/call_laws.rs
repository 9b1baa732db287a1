//! What holds of the calls of an account, with events and requests written out.

use vstd::prelude::*;

use crate::net::IpAddress;
use crate::signaling::config::{AccountView, DtmfMode, PreferredCodec, SipTransport};
use crate::signaling::dialog::{
    answer_request, callee_text, caller_text, calling_step, dialog_step, digit_body, found,
    found_outbound, in_use, own_call_id, own_offer, place_request, reply_actions, reply_calls,
    request_for, ActionView, CallView, DialogEvent, DialogKey, Direction, EndReason, Fresh,
    InvitePlan, KeyView, Reply, RequestView,
};
use crate::signaling::events::{CallStateView, CommandView, EventView, RemoteView};
use crate::signaling::sdp::{base64_text, offer_in_body, session_of, session_text, OfferView};
use crate::signaling::transport::uri_error;
use crate::text::{hexadecimal, opt_text};

verus! {

/// What an offer says of where and how to send: its address, the first codec
/// that it lists, its type of telephone events and its key.
pub open spec fn says(o: OfferView, remote: RemoteView) -> bool {
    &&& o.remote_addr == Some(remote.remote_addr)
    &&& o.payload_types.len() > 0 ==> remote.payload_type == o.payload_types[0]
    &&& o.payload_types.len() == 0 ==> remote.payload_type == 0
    &&& remote.telephone_event_pt == o.telephone_event_pt
    &&& remote.crypto_key == o.crypto_key
}

/// The calls with one that was started, and nobody else having its identifier.
pub open spec fn only_started(calls: Map<u8, CallView>, plan: InvitePlan) -> bool {
    forall|line: u8| #[trigger]
        calls.contains_key(line) && line != plan.line ==> calls[line].call_id != plan.call_id@
}

proof fn started_call_is_found(calls: Map<u8, CallView>, line: u8, id: Seq<char>, i: int)
    requires
        0 <= i <= line,
        calls.contains_key(line),
        calls[line].call_id == id,
        calls[line].direction == Direction::Outbound,
        forall|l: u8| #[trigger]
            calls.contains_key(l) && l != line ==> calls[l].call_id != id,
    ensures
        found_outbound(calls, id, i) == Some(line),
        found(calls, id, i) == Some(line),
    decreases line - i,
{
    if i < line {
        started_call_is_found(calls, line, id, i + 1);
    }
}

/// A call that was started is on its line, with its key and its port, and is
/// reported as started; no other line changes.
pub proof fn started_calls_get_their_line(
    calls: Map<u8, CallView>,
    plan: InvitePlan,
    dialog: DialogKey,
    line: u8,
)
    ensures
        ({
            let reply = Reply::InviteStarted { plan, dialog };
            let after = reply_calls(calls, reply);
            &&& after.contains_key(plan.line)
            &&& after[plan.line].call_id == plan.call_id@
            &&& after[plan.line].line == plan.line
            &&& after[plan.line].dialog_id == dialog@
            &&& after[plan.line].direction == Direction::Outbound
            &&& after[plan.line].remote is None
            &&& after[plan.line].local_crypto_key == opt_text(plan.crypto_key)
            &&& after[plan.line].local_rtp_port == Some(plan.local_rtp_port)
            &&& !after[plan.line].dtmf_worker
            &&& line != plan.line ==> after.contains_key(line) == calls.contains_key(line)
            &&& line != plan.line && calls.contains_key(line) ==> after[line] == calls[line]
            &&& reply_actions(reply) == seq![
                ActionView::Emit(
                    EventView::OutgoingCallStarted { id: plan.call_id@, line: plan.line },
                ),
            ]
        }),
{
}

/// When the other side answers a call that we started, with audio that can be
/// used, exactly one thing is reported: that this call was answered, with what
/// the answer says of the other side, and with the key that the call was offered
/// with. Its line remembers the other side, and no other line changes. An answer
/// that cannot be used changes nothing, and nothing is reported.
pub proof fn answers_to_our_calls_are_reported(
    calls: Map<u8, CallView>,
    plan: InvitePlan,
    dialog: DialogKey,
    id: DialogKey,
    body: Vec<u8>,
    remote: RemoteView,
    line: u8,
)
    requires
        only_started(calls, plan),
        id.call_id@ == plan.call_id@,
    ensures
        ({
            let started = reply_calls(calls, Reply::InviteStarted { plan, dialog });
            let (after, actions) = dialog_step(started, DialogEvent::Confirmed { id, body });
            &&& (offer_in_body(body@) matches Ok(o) && says(o, remote)) ==> {
                &&& actions == seq![
                    ActionView::Emit(
                        EventView::CallStateChanged {
                            id: plan.call_id@,
                            state: CallStateView::Answered {
                                crypto_key: opt_text(plan.crypto_key),
                                remote,
                            },
                        },
                    ),
                ]
                &&& after.contains_key(plan.line)
                &&& after[plan.line] == (CallView {
                    dialog_id: id@,
                    remote: Some(remote),
                    ..started[plan.line]
                })
            }
            &&& offer_in_body(body@) is Err ==> actions.len() == 0 && after == started
            &&& line != plan.line && calls.contains_key(line) ==> after.contains_key(line)
                && after[line] == calls[line]
        }),
{
    let started = reply_calls(calls, Reply::InviteStarted { plan, dialog });
    assert forall|l: u8| #[trigger]
        started.contains_key(l) && l != plan.line implies started[l].call_id != plan.call_id@ by {
        assert(calls.contains_key(l));
    }
    started_call_is_found(started, plan.line, plan.call_id@, 0);
}

/// While a call that we started is not answered yet, 180 is reported as ringing,
/// 183 with usable audio as audio that comes before the answer, and nothing else
/// is reported; the calls stay as they are.
pub proof fn progress_of_our_calls_is_reported(
    calls: Map<u8, CallView>,
    plan: InvitePlan,
    dialog: DialogKey,
    id: DialogKey,
    code: u16,
    body: Vec<u8>,
    remote: RemoteView,
)
    requires
        only_started(calls, plan),
        id.call_id@ == plan.call_id@,
    ensures
        ({
            let started = reply_calls(calls, Reply::InviteStarted { plan, dialog });
            let (after, actions) = dialog_step(started, DialogEvent::Early { id, code, body });
            &&& after == started
            &&& code == 180 ==> actions == seq![
                ActionView::Emit(
                    EventView::CallStateChanged {
                        id: plan.call_id@,
                        state: CallStateView::Ringing,
                    },
                ),
            ]
            &&& code == 183 && body@.len() > 0 && (offer_in_body(body@) matches Ok(o) && says(
                o,
                remote,
            )) ==> actions == seq![
                ActionView::Emit(
                    EventView::CallStateChanged {
                        id: plan.call_id@,
                        state: CallStateView::EarlyMedia { remote },
                    },
                ),
            ]
            &&& code != 180 && code != 183 ==> actions.len() == 0
            &&& code == 183 && body@.len() == 0 ==> actions.len() == 0
            &&& code == 183 && offer_in_body(body@) is Err ==> actions.len() == 0
        }),
{
    let started = reply_calls(calls, Reply::InviteStarted { plan, dialog });
    assert forall|l: u8| #[trigger]
        started.contains_key(l) && l != plan.line implies started[l].call_id != plan.call_id@ by {
        assert(calls.contains_key(l));
    }
    started_call_is_found(started, plan.line, plan.call_id@, 0);
}

/// A call that comes in on a free line, with usable audio, is reported with its
/// line, who it is from and what was offered, and the caller is told that it
/// rings. Its line remembers what was offered, in the caller's order. One whose
/// audio cannot be used is refused with 488, and changes nothing.
pub proof fn incoming_calls_are_reported(
    calls: Map<u8, CallView>,
    id: KeyView,
    body: Seq<u8>,
    from: Seq<char>,
    line: u8,
    o: OfferView,
    remote: RemoteView,
)
    requires
        1 <= line <= 5,
        !in_use(calls, line),
        forall|l: u8| 1 <= l < line ==> #[trigger] in_use(calls, l),
    ensures
        ({
            let (after, actions) = calling_step(calls, id, Some((body, from)));
            &&& offer_in_body(body) == Ok::<OfferView, Seq<char>>(o) && says(o, remote) ==> {
                &&& actions == seq![
                    ActionView::Emit(
                        EventView::IncomingCall { id: id.call_id, line, remote: from, offer: remote },
                    ),
                    ActionView::Ring { dialog: id },
                ]
                &&& after == calls.insert(
                    line,
                    CallView {
                        call_id: id.call_id,
                        line,
                        dialog_id: id,
                        direction: Direction::Inbound,
                        remote: Some(remote),
                        local_crypto_key: None,
                        local_rtp_port: None,
                        dtmf_worker: false,
                        remote_payload_types: o.payload_types,
                        remote_telephone_event_pt: o.telephone_event_pt,
                    },
                )
            }
            &&& offer_in_body(body) is Err ==> after == calls && actions == seq![
                ActionView::Reject { dialog: id, code: 488, reason: None },
            ]
            &&& calling_step(calls, id, None).0 == calls
            &&& calling_step(calls, id, None).1.len() == 0
        }),
{
    lowest_free_line(calls, line, 1);
}

proof fn lowest_free_line(calls: Map<u8, CallView>, line: u8, from: u8)
    requires
        1 <= from <= line <= 5,
        !in_use(calls, line),
        forall|l: u8| 1 <= l < line ==> #[trigger] in_use(calls, l),
    ensures
        crate::signaling::dialog::free_line(calls, from) == Some(line),
    decreases line - from,
{
    if from < line {
        assert(in_use(calls, from));
        lowest_free_line(calls, line, (from + 1) as u8);
    }
}

/// A dialog that has ended is forgotten, and it is reported why, in words.
pub proof fn ends_are_reported(calls: Map<u8, CallView>, id: DialogKey, reason: EndReason)
    ensures
        ({
            let (after, actions) = dialog_step(calls, DialogEvent::Terminated { id, reason });
            &&& actions.len() == 2
            &&& actions[0] == (ActionView::Forget { dialog: id@ })
            &&& actions[1] matches ActionView::Emit(EventView::CallStateChanged {
                id: ended,
                state: CallStateView::Terminated(why),
            }) && ended == id.call_id@ && why == (match reason {
                EndReason::UacBye => "hung up"@,
                EndReason::UasBye => "hung up"@,
                EndReason::UacCancel => "call canceled"@,
                EndReason::UacBusy => "busy"@,
                EndReason::UasBusy => "busy"@,
                EndReason::UasDecline => "declined"@,
                EndReason::Timeout => "timed out"@,
                EndReason::ProxyAuthRequired => "authentication failed"@,
                EndReason::ProxyError(status) => "server error ("@ + status.text@ + ")"@,
                EndReason::UacOther(status) => in_words(status.code, status.text@),
                EndReason::UasOther(status) => in_words(status.code, status.text@),
            })
            &&& forall|line: u8| #[trigger]
                after.contains_key(line) ==> after[line].call_id != id.call_id@
        }),
{
}

/// The words for a code that ends a call: busy, not found, unavailable and
/// forbidden have their own, all failures of a server share one, and any other
/// code is told as it came.
pub open spec fn in_words(code: u16, text: Seq<char>) -> Seq<char> {
    match code {
        403 => "forbidden"@,
        404 => "number not found"@,
        480 => "unavailable"@,
        486 => "busy"@,
        _ => if code / 100 == 5 {
            "server error"@
        } else {
            text
        },
    }
}

/// After a transfer the call is hung up if and only if the transfer was
/// accepted; either way its outcome is reported once, as it is.
pub proof fn only_accepted_transfers_hang_up(
    calls: Map<u8, CallView>,
    id: String,
    dialog: DialogKey,
    ok: bool,
)
    ensures
        ({
            let reply = Reply::ReferDone { id, dialog, ok };
            let actions = reply_actions(reply);
            &&& ok ==> actions == seq![
                ActionView::HangUp { dialog: dialog@ },
                ActionView::Emit(EventView::TransferResult { id: id@, ok: true }),
            ]
            &&& !ok ==> actions == seq![
                ActionView::Emit(EventView::TransferResult { id: id@, ok: false }),
            ]
            &&& reply_calls(calls, reply) == calls
        }),
{
}

/// What came of other requests is reported as it is: a call that could not be
/// placed, by its line; one that failed later, as ended; a call that was
/// rejected; a digit that was sent or not; and a hold or its end, as done or as
/// failed. None of that changes the calls.
pub proof fn outcomes_are_reported(calls: Map<u8, CallView>, reply: Reply)
    ensures
        match reply {
            Reply::InviteRefused { line, reason } => reply_actions(reply) == seq![
                ActionView::Emit(EventView::PlaceCallFailed { line, reason: reason@ }),
            ] && reply_calls(calls, reply) == calls,
            Reply::InviteFailed { id, error } => reply_actions(reply) == seq![
                ActionView::Emit(
                    EventView::CallStateChanged {
                        id: id@,
                        state: CallStateView::Terminated("invite error: "@ + error@),
                    },
                ),
            ] && reply_calls(calls, reply) == calls,
            Reply::InviteTaskFailed { id, error } => reply_actions(reply) == seq![
                ActionView::Emit(
                    EventView::CallStateChanged {
                        id: id@,
                        state: CallStateView::Terminated("invite task error: "@ + error@),
                    },
                ),
            ] && reply_calls(calls, reply) == calls,
            Reply::ReinviteDone { plan, error: Some(reason) } => reply_actions(reply) == seq![
                ActionView::Emit(
                    EventView::HoldResumeFailed { id: plan.id@, hold: plan.hold, reason: reason@ },
                ),
            ] && reply_calls(calls, reply) == calls,
            Reply::ReinviteDone { plan, error: None } => {
                &&& plan.hold ==> reply_actions(reply) == seq![
                    ActionView::Emit(
                        EventView::CallStateChanged { id: plan.id@, state: CallStateView::Held },
                    ),
                ]
                &&& !plan.hold ==> reply_actions(reply) == seq![
                    ActionView::Emit(
                        EventView::CallStateChanged {
                            id: plan.id@,
                            state: CallStateView::Answered {
                                crypto_key: opt_text(plan.crypto_key),
                                remote: plan.remote@,
                            },
                        },
                    ),
                ]
                &&& reply_calls(calls, reply) == calls
            },
            Reply::Rejected { id } => reply_actions(reply) == seq![
                ActionView::Emit(
                    EventView::CallStateChanged { id: id@, state: CallStateView::Rejected },
                ),
            ] && reply_calls(calls, reply) == calls,
            Reply::InfoDone { id, digit, ok } => reply_actions(reply) == seq![
                ActionView::Emit(EventView::DtmfResult { id: id@, digit, ok }),
            ] && reply_calls(calls, reply) == calls,
            _ => true,
        },
{
}

/// A number is called at the account's server over the account's transport; an
/// address is called as it is. The caller is the account at its server.
pub proof fn numbers_are_called_at_the_server(callee: Seq<char>, account: AccountView)
    ensures
        callee.len() >= 4 && callee.take(4) == seq!['s', 'i', 'p', ':'] ==> callee_text(
            callee,
            account,
        ) == callee,
        callee.len() >= 5 && callee.take(5) == seq!['s', 'i', 'p', 's', ':'] ==> callee_text(
            callee,
            account,
        ) == callee,
        !(callee.len() >= 4 && callee.take(4) == seq!['s', 'i', 'p', ':']) && !(callee.len() >= 5
            && callee.take(5) == seq!['s', 'i', 'p', 's', ':']) ==> callee_text(callee, account)
            == seq!['s', 'i', 'p', ':'] + callee + seq!['@'] + account.sip_server_host
            + ";transport="@ + (match account.transport {
            SipTransport::Udp => "udp"@,
            SipTransport::Tcp => "tcp"@,
            SipTransport::Tls => "tls"@,
        }),
        caller_text(account) == seq!['s', 'i', 'p', ':'] + account.username + seq!['@']
            + account.sip_server_host,
{
    reveal_strlit("sip:");
    reveal_strlit("sips:");
    reveal_strlit("@");
    assert("sip:"@ =~= seq!['s', 'i', 'p', ':']);
    assert("sips:"@ =~= seq!['s', 'i', 'p', 's', ':']);
    assert("@"@ =~= seq!['@']);
    if callee.len() >= 4 {
        assert(callee.subrange(0, 4) =~= callee.take(4));
    }
    if callee.len() >= 5 {
        assert(callee.subrange(0, 5) =~= callee.take(5));
    }
}

/// An offer of our own: at the given port, the codecs as they are given,
/// telephone events as type 101 if they are wanted, the fresh key if audio is to
/// be encrypted, and on hold or not as it is asked.
pub proof fn own_offers_hold_what_is_asked(
    port: u16,
    srtp: bool,
    fresh: Fresh,
    hold: bool,
    payload_types: Seq<u8>,
    events: bool,
)
    ensures
        ({
            let o = own_offer(port, srtp, fresh, hold, payload_types, events);
            &&& o.port == port
            &&& o.payload_types == payload_types
            &&& events ==> o.telephone_event_pt == Some(101u8)
            &&& !events ==> o.telephone_event_pt is None
            &&& srtp ==> o.crypto_key == Some(base64_text(fresh.key@))
            &&& !srtp ==> o.crypto_key is None
            &&& o.remote_addr is None
            &&& o.hold == hold
        }),
{
}

/// Placing a call on a free line, to an address that is one, invites that
/// address, as the account, under a fresh identifier, with an offer of the
/// account's codecs in its order; telephone events are offered unless the
/// account wants SIP INFO alone. On a line that is taken, or to what is no
/// address, it fails, and it is said why.
pub proof fn calls_are_placed_as_asked(
    calls: Map<u8, CallView>,
    account: AccountView,
    addr: IpAddress,
    fresh: Fresh,
    line: u8,
    callee: Seq<char>,
    port: u16,
    types: Seq<u8>,
)
    requires
        types.len() == account.preferred_codecs.len(),
        forall|i: int|
            0 <= i < types.len() ==> #[trigger] types[i] == if account.preferred_codecs[i]
                == PreferredCodec::Alaw {
                8u8
            } else {
                0
            },
    ensures
        ({
            let r = place_request(calls, account, addr, fresh, line, callee, port);
            let to = callee_text(callee, account);
            let from = caller_text(account);
            &&& calls.contains_key(line) ==> r == RequestView::Emit(
                EventView::PlaceCallFailed { line, reason: "line already in a call"@ },
            )
            &&& !calls.contains_key(line) && (uri_error(to) matches Some(why)) ==> r
                == RequestView::Emit(
                EventView::PlaceCallFailed { line, reason: "SIP message error: "@ + uri_error(to)->0 },
            )
            &&& !calls.contains_key(line) && uri_error(to) is None && uri_error(from) is Some ==> r
                == RequestView::Emit(
                EventView::PlaceCallFailed { line, reason: uri_error(from)->0 },
            )
            &&& !calls.contains_key(line) && uri_error(to) is None && uri_error(from) is None
                ==> r == (RequestView::Invite {
                line,
                caller: from,
                callee: to,
                call_id: own_call_id(fresh.call_number),
                offer: session_text(
                    session_of(
                        addr,
                        fresh.session_id,
                        own_offer(
                            port,
                            account.srtp,
                            fresh,
                            false,
                            types,
                            account.dtmf_mode != DtmfMode::InfoOnly,
                        ),
                    ),
                ),
                crypto_key: if account.srtp {
                    Some(base64_text(fresh.key@))
                } else {
                    None
                },
                local_rtp_port: port,
            })
        }),
{
    let own = crate::signaling::config::payload_types_of(account.preferred_codecs);
    assert(own =~= types) by {
        assert forall|i: int| 0 <= i < types.len() implies own[i] == types[i] by {
            assert(own[i] == account.preferred_codecs[i].number());
        }
    }
}

/// Answering a call that came in: it is accepted in its own dialog, at the port
/// that was reserved, encrypted if the account is, not on hold, with one codec.
/// That is the first one that the account names among those that were offered,
/// or the first that was offered if it names none of them; and the audio runs
/// with it towards where the caller receives.
pub proof fn calls_are_answered_as_asked(
    calls: Map<u8, CallView>,
    account: AccountView,
    addr: IpAddress,
    fresh: Fresh,
    id: Seq<char>,
    port: u16,
    line: u8,
    k: int,
)
    requires
        found(calls, id, 0) == Some(line),
        calls[line].direction == Direction::Inbound,
        calls[line].remote is Some,
        0 <= k < account.preferred_codecs.len(),
        calls[line].remote_payload_types.contains(account.preferred_codecs[k].number()),
        forall|j: int|
            0 <= j < k ==> !calls[line].remote_payload_types.contains(
                (#[trigger] account.preferred_codecs[j]).number(),
            ),
    ensures
        answer_request(calls, account, addr, fresh, id, port) matches RequestView::Accept {
            id: answered,
            dialog,
            answer,
            crypto_key,
            local_rtp_port,
            remote,
        } && {
            &&& answered == id
            &&& dialog == calls[line].dialog_id
            &&& local_rtp_port == port
            &&& crypto_key == if account.srtp {
                Some(base64_text(fresh.key@))
            } else {
                None
            }
            &&& remote.payload_type == account.preferred_codecs[k].number()
            &&& remote.remote_addr == calls[line].remote->0.remote_addr
            &&& remote.crypto_key == calls[line].remote->0.crypto_key
            &&& remote.telephone_event_pt == if account.dtmf_mode == DtmfMode::InfoOnly {
                None
            } else {
                calls[line].remote_telephone_event_pt
            }
            &&& answer == session_text(
                session_of(
                    addr,
                    fresh.session_id,
                    own_offer(
                        port,
                        account.srtp,
                        fresh,
                        false,
                        seq![remote.payload_type],
                        remote.telephone_event_pt is Some,
                    ),
                ),
            )
        },
{
    let types = crate::signaling::config::payload_types_of(account.preferred_codecs);
    assert forall|j: int| 0 <= j < k implies !calls[line].remote_payload_types.contains(
        #[trigger] types[j],
    ) by {
        assert(types[j] == account.preferred_codecs[j].number());
    }
    assert(types[k] == account.preferred_codecs[k].number());
    crate::signaling::sdp::best_codec_is_chosen(calls[line].remote_payload_types, types, k);
}

/// What is asked for about a call that is there goes to that call's dialog: to
/// end it, to reject it, to transfer it, to send a digit by SIP INFO. The first
/// digit starts what sends them one by one. Nothing is asked for about a call
/// that is not there.
pub proof fn commands_reach_their_call(
    calls: Map<u8, CallView>,
    account: AccountView,
    addr: IpAddress,
    fresh: Fresh,
    id: Seq<char>,
    target: Seq<char>,
    digit: char,
    port: u16,
    line: u8,
)
    ensures
        found(calls, id, 0) == Some(line) ==> {
            &&& request_for(calls, account, addr, fresh, CommandView::HangUp(id)) == (
            RequestView::HangUp { dialog: calls[line].dialog_id })
            &&& request_for(calls, account, addr, fresh, CommandView::RejectCall(id)) == (
            RequestView::Reject { id, dialog: calls[line].dialog_id })
            &&& request_for(
                calls,
                account,
                addr,
                fresh,
                CommandView::BlindTransfer { id, target },
            ) == (RequestView::Refer {
                id,
                dialog: calls[line].dialog_id,
                target: if uri_error(callee_text(target, account)) is Some {
                    None
                } else {
                    Some(callee_text(target, account))
                },
            })
            &&& account.dtmf_mode == DtmfMode::RtpOnly ==> request_for(
                calls,
                account,
                addr,
                fresh,
                CommandView::SendDtmf { id, digit },
            ) == RequestView::Nothing
            &&& account.dtmf_mode != DtmfMode::RtpOnly ==> request_for(
                calls,
                account,
                addr,
                fresh,
                CommandView::SendDtmf { id, digit },
            ) == (RequestView::SendInfo {
                id,
                dialog: calls[line].dialog_id,
                digit,
                start_worker: !calls[line].dtmf_worker,
            })
        },
        found(calls, id, 0) is None ==> {
            &&& request_for(calls, account, addr, fresh, CommandView::HangUp(id))
                == RequestView::Nothing
            &&& request_for(calls, account, addr, fresh, CommandView::RejectCall(id))
                == RequestView::Nothing
            &&& request_for(calls, account, addr, fresh, CommandView::HoldCall(id))
                == RequestView::Nothing
            &&& request_for(calls, account, addr, fresh, CommandView::ResumeCall(id))
                == RequestView::Nothing
            &&& request_for(calls, account, addr, fresh, CommandView::SendDtmf { id, digit })
                == RequestView::Nothing
            &&& request_for(
                calls,
                account,
                addr,
                fresh,
                CommandView::BlindTransfer { id, target },
            ) == RequestView::Nothing
            &&& request_for(
                calls,
                account,
                addr,
                fresh,
                CommandView::AnswerCall { id, local_rtp_port: port },
            ) == RequestView::Nothing
        },
        request_for(calls, account, addr, fresh, CommandView::Shutdown) == RequestView::Nothing,
        request_for(
            calls,
            account,
            addr,
            fresh,
            CommandView::AnswerCall { id, local_rtp_port: port },
        ) == answer_request(calls, account, addr, fresh, id, port),
        request_for(
            calls,
            account,
            addr,
            fresh,
            CommandView::PlaceCall { line, callee: target, local_rtp_port: port },
        ) == place_request(calls, account, addr, fresh, line, target, port),
{
}

/// Holding a call and taking it back offer, in the call's own dialog, the port
/// and the codec that it runs with, and telephone events if those were agreed
/// on; the one offer says that we only send, the other does not. A call whose
/// audio is not agreed on yet can be neither.
pub proof fn holding_offers_the_same_audio(
    calls: Map<u8, CallView>,
    account: AccountView,
    addr: IpAddress,
    fresh: Fresh,
    id: Seq<char>,
    line: u8,
    port: u16,
    remote: RemoteView,
)
    requires
        found(calls, id, 0) == Some(line),
    ensures
        calls[line].local_rtp_port == Some(port) && calls[line].remote == Some(remote) ==> {
            &&& request_for(calls, account, addr, fresh, CommandView::HoldCall(id)) == reinvite(
                calls[line].dialog_id,
                account,
                addr,
                fresh,
                id,
                port,
                remote,
                true,
            )
            &&& request_for(calls, account, addr, fresh, CommandView::ResumeCall(id)) == reinvite(
                calls[line].dialog_id,
                account,
                addr,
                fresh,
                id,
                port,
                remote,
                false,
            )
        },
        calls[line].local_rtp_port is None || calls[line].remote is None ==> request_for(
            calls,
            account,
            addr,
            fresh,
            CommandView::HoldCall(id),
        ) == RequestView::Nothing && request_for(
            calls,
            account,
            addr,
            fresh,
            CommandView::ResumeCall(id),
        ) == RequestView::Nothing,
{
}

/// An offer within a call: the audio that it runs with, on hold or not.
pub open spec fn reinvite(
    dialog: KeyView,
    account: AccountView,
    addr: IpAddress,
    fresh: Fresh,
    id: Seq<char>,
    port: u16,
    remote: RemoteView,
    hold: bool,
) -> RequestView {
    RequestView::Reinvite {
        id,
        dialog,
        hold,
        offer: session_text(
            session_of(
                addr,
                fresh.session_id,
                own_offer(
                    port,
                    account.srtp,
                    fresh,
                    hold,
                    seq![remote.payload_type],
                    remote.telephone_event_pt is Some,
                ),
            ),
        ),
        crypto_key: if account.srtp {
            Some(base64_text(fresh.key@))
        } else {
            None
        },
        remote,
    }
}

/// A digit that goes by SIP INFO is told by itself, with a quarter of a second.
pub proof fn digits_are_told_by_themselves(digit: char)
    ensures
        digit_body(digit).len() == 7 + 1 + 16,
        digit_body(digit).take(7) == "Signal="@,
        digit_body(digit)[7] == digit,
        digit_body(digit).skip(8) == "\r\nDuration=250\r\n"@,
{
    reveal_strlit("Signal=");
    reveal_strlit("\r\nDuration=250\r\n");
    assert(digit_body(digit).take(7) =~= "Signal="@);
    assert(digit_body(digit).skip(8) =~= "\r\nDuration=250\r\n"@);
}

/// Accepting a call keeps its key, its port and what was agreed on; starting to
/// send its digits is remembered; and neither touches another call.
pub proof fn calls_remember_what_was_agreed_on(
    calls: Map<u8, CallView>,
    reply: Reply,
    id: Seq<char>,
    line: u8,
    other: u8,
)
    requires
        found(calls, id, 0) == Some(line),
        other != line,
    ensures
        (reply matches Reply::Accepted(plan) && plan.id@ == id) ==> ({
            let plan = reply->Accepted_0;
            let after = reply_calls(calls, reply);
            &&& after[line] == (CallView {
                remote: Some(plan.remote@),
                local_crypto_key: opt_text(plan.crypto_key),
                local_rtp_port: Some(plan.local_rtp_port),
                ..calls[line]
            })
            &&& after.contains_key(other) == calls.contains_key(other)
            &&& calls.contains_key(other) ==> after[other] == calls[other]
        }),
        (reply matches Reply::WorkerStarted { id: started } && started@ == id) ==> ({
            let after = reply_calls(calls, reply);
            &&& after[line] == (CallView { dtmf_worker: true, ..calls[line] })
            &&& calls.contains_key(other) ==> after[other] == calls[other]
            &&& reply_actions(reply).len() == 0
        }),
        (reply matches Reply::ReinviteSent { id: sent, crypto_key } && sent@ == id) ==> ({
            let after = reply_calls(calls, reply);
            &&& after[line] == (CallView {
                local_crypto_key: opt_text(reply->ReinviteSent_crypto_key),
                ..calls[line]
            })
            &&& calls.contains_key(other) ==> after[other] == calls[other]
            &&& reply_actions(reply).len() == 0
        }),
{
}

/// A call that we accepted is reported as answered, once, with the key that we
/// answered with and where the other side receives.
pub proof fn accepted_calls_are_reported(reply: Reply)
    requires
        reply is Accepted,
    ensures
        ({
            let plan = reply->Accepted_0;
            reply_actions(reply) == seq![
                ActionView::Emit(
                    EventView::CallStateChanged {
                        id: plan.id@,
                        state: CallStateView::Answered {
                            crypto_key: opt_text(plan.crypto_key),
                            remote: plan.remote@,
                        },
                    },
                ),
            ]
        }),
{
}

/// An offer that is understood says where to send to, at the port of its audio, and
/// lists a codec at least; it is not our own to put on hold.
pub proof fn offers_have_an_address(body: Seq<u8>)
    ensures
        offer_in_body(body) matches Ok(o) ==> {
            &&& o.remote_addr matches Some((host, port)) && port == o.port
            &&& o.payload_types.len() > 0
            &&& !o.hold
        },
{
}

/// With five calls there is no line left: another call is refused with 486, as
/// busy, whatever it offers, and changes nothing.
pub proof fn sixth_calls_are_refused(
    calls: Map<u8, CallView>,
    id: KeyView,
    body: Seq<u8>,
    from: Seq<char>,
)
    requires
        calls.contains_key(1),
        calls.contains_key(2),
        calls.contains_key(3),
        calls.contains_key(4),
        calls.contains_key(5),
    ensures
        calling_step(calls, id, Some((body, from))) == (
            calls,
            seq![ActionView::Reject { dialog: id, code: 486, reason: Some("Busy here"@) }],
        ),
{
    reveal_with_fuel(crate::signaling::dialog::free_line, 7);
}

/// Progress and answers are about calls of ours: of a call that came in, or that
/// is not there, they change nothing, and nothing is reported. Nor is anything
/// else that goes on in a dialog.
pub proof fn only_our_calls_are_answered(
    calls: Map<u8, CallView>,
    id: DialogKey,
    code: u16,
    body: Vec<u8>,
)
    requires
        forall|line: u8| #[trigger]
            calls.contains_key(line) && calls[line].call_id == id.call_id@ ==> calls[line].direction
                == Direction::Inbound,
    ensures
        dialog_step(calls, DialogEvent::Confirmed { id, body }).0 == calls,
        dialog_step(calls, DialogEvent::Confirmed { id, body }).1.len() == 0,
        dialog_step(calls, DialogEvent::Early { id, code, body }).0 == calls,
        dialog_step(calls, DialogEvent::Early { id, code, body }).1.len() == 0,
        dialog_step(calls, DialogEvent::Other).0 == calls,
        dialog_step(calls, DialogEvent::Other).1.len() == 0,
{
    none_of_ours(calls, id.call_id@, 0);
}

proof fn none_of_ours(calls: Map<u8, CallView>, id: Seq<char>, i: int)
    requires
        forall|line: u8| #[trigger]
            calls.contains_key(line) && calls[line].call_id == id ==> calls[line].direction
                == Direction::Inbound,
    ensures
        found_outbound(calls, id, i) is None,
    decreases 256 - i,
{
    if 0 <= i <= 255 {
        none_of_ours(calls, id, i + 1);
    }
}

/// When a dialog ends, the calls with other identifiers stay as they are.
pub proof fn ends_spare_other_calls(
    calls: Map<u8, CallView>,
    id: DialogKey,
    reason: EndReason,
    line: u8,
)
    ensures
        ({
            let after = dialog_step(calls, DialogEvent::Terminated { id, reason }).0;
            &&& after.contains_key(line) <==> calls.contains_key(line) && calls[line].call_id
                != id.call_id@
            &&& after.contains_key(line) ==> after[line] == calls[line]
        }),
{
}

/// A call is found by its identifier, on the lowest line that has it; one that no
/// line has is not found.
pub proof fn calls_are_found_by_their_name(
    calls: Map<u8, CallView>,
    id: Seq<char>,
    line: u8,
    from: int,
)
    requires
        0 <= from <= line,
        forall|l: u8|
            from <= l < line ==> !(#[trigger] calls.contains_key(l) && calls[l].call_id == id),
    ensures
        calls.contains_key(line) && calls[line].call_id == id ==> found(calls, id, from) == Some(
            line,
        ),
        line == 255 && !(calls.contains_key(line) && calls[line].call_id == id) ==> found(
            calls,
            id,
            from,
        ) is None,
    decreases line - from,
{
    if from < line {
        assert(!(calls.contains_key(from as u8) && calls[from as u8].call_id == id));
        calls_are_found_by_their_name(calls, id, line, from + 1);
    } else {
        assert(found(calls, id, 256) is None);
    }
}

/// Only a call that came in, and that says where it receives, can be answered;
/// where the account names none of the codecs that were offered, the first one
/// that was offered is taken.
pub proof fn answers_fall_back_to_the_offer(
    calls: Map<u8, CallView>,
    account: AccountView,
    addr: IpAddress,
    fresh: Fresh,
    id: Seq<char>,
    port: u16,
    line: u8,
)
    requires
        found(calls, id, 0) == Some(line),
    ensures
        calls[line].direction == Direction::Outbound || calls[line].remote is None
            ==> answer_request(calls, account, addr, fresh, id, port) == RequestView::Nothing,
        ({
            &&& calls[line].direction == Direction::Inbound
            &&& calls[line].remote is Some
            &&& calls[line].remote_payload_types.len() == 0
        }) ==> (answer_request(calls, account, addr, fresh, id, port) matches RequestView::Accept {
            remote,
            dialog,
            local_rtp_port,
            ..
        } && remote.payload_type == calls[line].remote->0.payload_type && remote.remote_addr
            == calls[line].remote->0.remote_addr && dialog == calls[line].dialog_id
            && local_rtp_port == port),
        ({
            &&& calls[line].direction == Direction::Inbound
            &&& calls[line].remote is Some
            &&& calls[line].remote_payload_types.len() > 0
            &&& forall|j: int|
                0 <= j < account.preferred_codecs.len()
                    ==> !calls[line].remote_payload_types.contains(
                    (#[trigger] account.preferred_codecs[j]).number(),
                )
        }) ==> (answer_request(calls, account, addr, fresh, id, port) matches RequestView::Accept {
            remote,
            ..
        } && remote.payload_type == calls[line].remote_payload_types[0]),
{
    let types = crate::signaling::config::payload_types_of(account.preferred_codecs);
    let offered = calls[line].remote_payload_types;
    if offered.len() == 0 {
        nothing_to_choose(offered, types, 0);
    }
    if forall|j: int|
        0 <= j < account.preferred_codecs.len() ==> !offered.contains(
            (#[trigger] account.preferred_codecs[j]).number(),
        ) {
        assert forall|j: int| 0 <= j < types.len() implies !offered.contains(
            #[trigger] types[j],
        ) by {
            assert(types[j] == account.preferred_codecs[j].number());
        }
        nothing_to_choose(offered, types, 0);
    }
}

proof fn nothing_to_choose(offered: Seq<u8>, preference: Seq<u8>, i: int)
    requires
        forall|j: int| 0 <= j < preference.len() ==> !offered.contains(#[trigger] preference[j]),
    ensures
        crate::signaling::sdp::first_offered(offered, preference, i) is None,
    decreases preference.len() - i,
{
    if 0 <= i < preference.len() {
        nothing_to_choose(offered, preference, i + 1);
    }
}

/// A call of our own goes by a fresh number in hexadecimal and by this program's
/// name.
pub proof fn own_calls_are_named(n: u64)
    ensures
        own_call_id(n) == hexadecimal(n as nat) + seq![
            '-',
            'o',
            'x',
            'i',
            'd',
            'e',
            's',
            'i',
            'p',
        ],
{
    reveal_strlit("-oxidesip");
    assert("-oxidesip"@ =~= seq!['-', 'o', 'x', 'i', 'd', 'e', 's', 'i', 'p']);
}

} // verus!
