use vstd::prelude::*;
use crate::control::{
    ClientSetupView, FetchErrorView, FetchOkView, FetchView, MoqtAnnounce, MoqtAnnounceCancel,
    MoqtAnnounceError, MoqtAnnounceOk, MoqtClientSetup, MoqtFetch, MoqtFetchCancel, MoqtFetchError,
    MoqtFetchOk, MoqtGoAway, MoqtMaxSubscribeId, MoqtObjectAck, MoqtServerSetup, MoqtSubscribe,
    MoqtSubscribeAnnounces, MoqtSubscribeAnnouncesError, MoqtSubscribeAnnouncesOk,
    MoqtSubscribeDone, MoqtSubscribeError, MoqtSubscribeOk, MoqtSubscribeUpdate, MoqtTrackStatus,
    MoqtTrackStatusRequest, MoqtUnannounce, MoqtUnsubscribe, MoqtUnsubscribeAnnounces,
    NamespaceErrorView, NamespaceParamsView, SubscribeDoneView, SubscribeErrorView, SubscribeOkView,
    SubscribeUpdateView, SubscribeView, TrackStatusView,
};
use crate::decode::{
    process_announce, process_announce_cancel, process_announce_error, process_client_setup,
    process_fetch, process_fetch_error, process_fetch_ok, process_namespace, process_object_ack,
    process_server_setup, process_subscribe, process_subscribe_announces,
    process_subscribe_announces_error, process_subscribe_done, process_subscribe_error,
    process_subscribe_ok, process_subscribe_update, process_track_name, process_track_status,
    spec_announce, spec_announce_error, spec_client_setup, spec_fetch, spec_fetch_error,
    spec_fetch_ok, spec_namespace_params, spec_object_ack, spec_server_setup, spec_subscribe,
    spec_subscribe_announces_error, spec_subscribe_done, spec_subscribe_error, spec_subscribe_ok,
    spec_subscribe_update, spec_track_status,
};
use crate::fields::{after, read_str, read_vi, sp_str, sp_track_name, sp_tuple, sp_vi, Step};
use crate::messages::{kMaxMessageHeaderSize, MoqtError, MoqtMessageType};
use crate::reader::DataReader;
use crate::varint::decode_varint;

verus! {

/// What the control parser reports, in stream order.
#[derive(Debug, PartialEq, Eq)]
pub enum MoqtControlParserEvent {
    OnClientSetupMessage(MoqtClientSetup),
    OnServerSetupMessage(MoqtServerSetup),
    OnSubscribeMessage(MoqtSubscribe),
    OnSubscribeOkMessage(MoqtSubscribeOk),
    OnSubscribeErrorMessage(MoqtSubscribeError),
    OnUnsubscribeMessage(MoqtUnsubscribe),
    OnSubscribeDoneMessage(MoqtSubscribeDone),
    OnSubscribeUpdateMessage(MoqtSubscribeUpdate),
    OnAnnounceMessage(MoqtAnnounce),
    OnAnnounceOkMessage(MoqtAnnounceOk),
    OnAnnounceErrorMessage(MoqtAnnounceError),
    OnAnnounceCancelMessage(MoqtAnnounceCancel),
    OnTrackStatusRequestMessage(MoqtTrackStatusRequest),
    OnUnannounceMessage(MoqtUnannounce),
    OnTrackStatusMessage(MoqtTrackStatus),
    OnGoAwayMessage(MoqtGoAway),
    OnSubscribeAnnouncesMessage(MoqtSubscribeAnnounces),
    OnSubscribeAnnouncesOkMessage(MoqtSubscribeAnnouncesOk),
    OnSubscribeAnnouncesErrorMessage(MoqtSubscribeAnnouncesError),
    OnUnsubscribeAnnouncesMessage(MoqtUnsubscribeAnnounces),
    OnMaxSubscribeIdMessage(MoqtMaxSubscribeId),
    OnFetchMessage(MoqtFetch),
    OnFetchCancelMessage(MoqtFetchCancel),
    OnFetchOkMessage(MoqtFetchOk),
    OnFetchErrorMessage(MoqtFetchError),
    OnObjectAckMessage(MoqtObjectAck),
    /// The error and a reason for people.
    OnParsingError(MoqtError, &'static str),
}

pub enum EventView {
    ClientSetup(ClientSetupView),
    ServerSetup(MoqtServerSetup),
    Subscribe(SubscribeView),
    SubscribeOk(SubscribeOkView),
    SubscribeError(SubscribeErrorView),
    Unsubscribe(MoqtUnsubscribe),
    SubscribeDone(SubscribeDoneView),
    SubscribeUpdate(SubscribeUpdateView),
    Announce(NamespaceParamsView),
    AnnounceOk(Seq<Seq<u8>>),
    AnnounceError(NamespaceErrorView<crate::messages::MoqtAnnounceErrorCode>),
    AnnounceCancel(NamespaceErrorView<crate::messages::MoqtAnnounceErrorCode>),
    TrackStatusRequest(Seq<Seq<u8>>),
    Unannounce(Seq<Seq<u8>>),
    TrackStatus(TrackStatusView),
    GoAway(Seq<u8>),
    SubscribeAnnounces(NamespaceParamsView),
    SubscribeAnnouncesOk(Seq<Seq<u8>>),
    SubscribeAnnouncesError(NamespaceErrorView<crate::messages::SubscribeErrorCode>),
    UnsubscribeAnnounces(Seq<Seq<u8>>),
    MaxSubscribeId(MoqtMaxSubscribeId),
    Fetch(FetchView),
    FetchCancel(MoqtFetchCancel),
    FetchOk(FetchOkView),
    FetchError(FetchErrorView),
    ObjectAck(MoqtObjectAck),
    ParsingError(MoqtError),
}

impl View for MoqtControlParserEvent {
    type V = EventView;

    open spec fn view(&self) -> EventView {
        match self {
            MoqtControlParserEvent::OnClientSetupMessage(m) => EventView::ClientSetup(m@),
            MoqtControlParserEvent::OnServerSetupMessage(m) => EventView::ServerSetup(*m),
            MoqtControlParserEvent::OnSubscribeMessage(m) => EventView::Subscribe(m@),
            MoqtControlParserEvent::OnSubscribeOkMessage(m) => EventView::SubscribeOk(m@),
            MoqtControlParserEvent::OnSubscribeErrorMessage(m) => EventView::SubscribeError(m@),
            MoqtControlParserEvent::OnUnsubscribeMessage(m) => EventView::Unsubscribe(*m),
            MoqtControlParserEvent::OnSubscribeDoneMessage(m) => EventView::SubscribeDone(m@),
            MoqtControlParserEvent::OnSubscribeUpdateMessage(m) => EventView::SubscribeUpdate(m@),
            MoqtControlParserEvent::OnAnnounceMessage(m) => EventView::Announce(m@),
            MoqtControlParserEvent::OnAnnounceOkMessage(m) => EventView::AnnounceOk(
                m.track_namespace@,
            ),
            MoqtControlParserEvent::OnAnnounceErrorMessage(m) => EventView::AnnounceError(m@),
            MoqtControlParserEvent::OnAnnounceCancelMessage(m) => EventView::AnnounceCancel(m@),
            MoqtControlParserEvent::OnTrackStatusRequestMessage(m) => EventView::TrackStatusRequest(
                m.full_track_name@,
            ),
            MoqtControlParserEvent::OnUnannounceMessage(m) => EventView::Unannounce(
                m.track_namespace@,
            ),
            MoqtControlParserEvent::OnTrackStatusMessage(m) => EventView::TrackStatus(m@),
            MoqtControlParserEvent::OnGoAwayMessage(m) => EventView::GoAway(m.new_session_uri@),
            MoqtControlParserEvent::OnSubscribeAnnouncesMessage(m) => EventView::SubscribeAnnounces(
                m@,
            ),
            MoqtControlParserEvent::OnSubscribeAnnouncesOkMessage(m) =>
                EventView::SubscribeAnnouncesOk(m.track_namespace@),
            MoqtControlParserEvent::OnSubscribeAnnouncesErrorMessage(m) =>
                EventView::SubscribeAnnouncesError(m@),
            MoqtControlParserEvent::OnUnsubscribeAnnouncesMessage(m) =>
                EventView::UnsubscribeAnnounces(m.track_namespace@),
            MoqtControlParserEvent::OnMaxSubscribeIdMessage(m) => EventView::MaxSubscribeId(*m),
            MoqtControlParserEvent::OnFetchMessage(m) => EventView::Fetch(m@),
            MoqtControlParserEvent::OnFetchCancelMessage(m) => EventView::FetchCancel(*m),
            MoqtControlParserEvent::OnFetchOkMessage(m) => EventView::FetchOk(m@),
            MoqtControlParserEvent::OnFetchErrorMessage(m) => EventView::FetchError(m@),
            MoqtControlParserEvent::OnObjectAckMessage(m) => EventView::ObjectAck(*m),
            MoqtControlParserEvent::OnParsingError(e, _) => EventView::ParsingError(*e),
        }
    }
}

/// A payload decoder's result, which must use the whole payload.
pub open spec fn whole<T>(s: Step<T>) -> Result<T, MoqtError> {
    match s {
        Ok((v, t)) => if t.len() == 0 {
            Ok(v)
        } else {
            Err(MoqtError::kProtocolViolation)
        },
        Err(e) => Err(e),
    }
}

/// The event that a control message of a known type with this payload
/// gives: a payload that ends early or goes on after the message, or that
/// breaks a rule of the message, gives a parsing error.
pub open spec fn typed_event(t: MoqtMessageType, p: Seq<u8>, webtrans: bool) -> EventView {
    match t {
        MoqtMessageType::kClientSetup => match whole(spec_client_setup(p, webtrans)) {
                Ok(v) => EventView::ClientSetup(v),
                Err(e) => EventView::ParsingError(e),
            },
        MoqtMessageType::kServerSetup => match whole(spec_server_setup(p)) {
                Ok(v) => EventView::ServerSetup(v),
                Err(e) => EventView::ParsingError(e),
            },
        MoqtMessageType::kSubscribe => match whole(spec_subscribe(p)) {
                Ok(v) => EventView::Subscribe(v),
                Err(e) => EventView::ParsingError(e),
            },
        MoqtMessageType::kSubscribeOk => match whole(spec_subscribe_ok(p)) {
                Ok(v) => EventView::SubscribeOk(v),
                Err(e) => EventView::ParsingError(e),
            },
        MoqtMessageType::kSubscribeError => match whole(spec_subscribe_error(p)) {
                Ok(v) => EventView::SubscribeError(v),
                Err(e) => EventView::ParsingError(e),
            },
        MoqtMessageType::kUnsubscribe => match whole(sp_vi(p)) {
                Ok(v) => EventView::Unsubscribe(MoqtUnsubscribe { subscribe_id: v }),
                Err(e) => EventView::ParsingError(e),
            },
        MoqtMessageType::kSubscribeDone => match whole(spec_subscribe_done(p)) {
                Ok(v) => EventView::SubscribeDone(v),
                Err(e) => EventView::ParsingError(e),
            },
        MoqtMessageType::kSubscribeUpdate => match whole(spec_subscribe_update(p)) {
                Ok(v) => EventView::SubscribeUpdate(v),
                Err(e) => EventView::ParsingError(e),
            },
        MoqtMessageType::kAnnounce => match whole(spec_announce(p)) {
                Ok(v) => EventView::Announce(v),
                Err(e) => EventView::ParsingError(e),
            },
        MoqtMessageType::kAnnounceOk => match whole(sp_tuple(p)) {
                Ok(v) => EventView::AnnounceOk(v),
                Err(e) => EventView::ParsingError(e),
            },
        MoqtMessageType::kAnnounceError => match whole(spec_announce_error(p)) {
                Ok(v) => EventView::AnnounceError(v),
                Err(e) => EventView::ParsingError(e),
            },
        MoqtMessageType::kAnnounceCancel => match whole(spec_announce_error(p)) {
                Ok(v) => EventView::AnnounceCancel(v),
                Err(e) => EventView::ParsingError(e),
            },
        MoqtMessageType::kTrackStatusRequest => match whole(sp_track_name(p)) {
                Ok(v) => EventView::TrackStatusRequest(v),
                Err(e) => EventView::ParsingError(e),
            },
        MoqtMessageType::kUnannounce => match whole(sp_tuple(p)) {
                Ok(v) => EventView::Unannounce(v),
                Err(e) => EventView::ParsingError(e),
            },
        MoqtMessageType::kTrackStatus => match whole(spec_track_status(p)) {
                Ok(v) => EventView::TrackStatus(v),
                Err(e) => EventView::ParsingError(e),
            },
        MoqtMessageType::kGoAway => match whole(sp_str(p)) {
                Ok(v) => EventView::GoAway(v),
                Err(e) => EventView::ParsingError(e),
            },
        MoqtMessageType::kSubscribeAnnounces => match whole(spec_namespace_params(p)) {
                Ok(v) => EventView::SubscribeAnnounces(v),
                Err(e) => EventView::ParsingError(e),
            },
        MoqtMessageType::kSubscribeAnnouncesOk => match whole(sp_tuple(p)) {
                Ok(v) => EventView::SubscribeAnnouncesOk(v),
                Err(e) => EventView::ParsingError(e),
            },
        MoqtMessageType::kSubscribeAnnouncesError => match whole(spec_subscribe_announces_error(p)) {
                Ok(v) => EventView::SubscribeAnnouncesError(v),
                Err(e) => EventView::ParsingError(e),
            },
        MoqtMessageType::kUnsubscribeAnnounces => match whole(sp_tuple(p)) {
                Ok(v) => EventView::UnsubscribeAnnounces(v),
                Err(e) => EventView::ParsingError(e),
            },
        MoqtMessageType::kMaxSubscribeId => match whole(sp_vi(p)) {
                Ok(v) => EventView::MaxSubscribeId(MoqtMaxSubscribeId { max_subscribe_id: v }),
                Err(e) => EventView::ParsingError(e),
            },
        MoqtMessageType::kFetch => match whole(spec_fetch(p)) {
                Ok(v) => EventView::Fetch(v),
                Err(e) => EventView::ParsingError(e),
            },
        MoqtMessageType::kFetchCancel => match whole(sp_vi(p)) {
                Ok(v) => EventView::FetchCancel(MoqtFetchCancel { subscribe_id: v }),
                Err(e) => EventView::ParsingError(e),
            },
        MoqtMessageType::kFetchOk => match whole(spec_fetch_ok(p)) {
                Ok(v) => EventView::FetchOk(v),
                Err(e) => EventView::ParsingError(e),
            },
        MoqtMessageType::kFetchError => match whole(spec_fetch_error(p)) {
                Ok(v) => EventView::FetchError(v),
                Err(e) => EventView::ParsingError(e),
            },
        MoqtMessageType::kObjectAck => match whole(spec_object_ack(p)) {
                Ok(v) => EventView::ObjectAck(v),
                Err(e) => EventView::ParsingError(e),
            },
    }
}

/// The event that a control message of type `tag` with this payload gives;
/// an unknown type is a protocol violation.
#[verifier::opaque]
pub open spec fn decode_message(tag: u64, p: Seq<u8>, webtrans: bool) -> EventView {
    match MoqtMessageType::spec_from_value(tag) {
        Some(t) => typed_event(t, p, webtrans),
        None => EventView::ParsingError(MoqtError::kProtocolViolation),
    }
}

/// What the head of a buffer holds: not yet a whole message, or the event
/// of the first message and the number of bytes it takes.
pub enum Head {
    Incomplete,
    Done(EventView, nat),
}

pub open spec fn spec_head(buf: Seq<u8>, webtrans: bool) -> Head {
    match decode_varint(buf) {
        None => Head::Incomplete,
        Some((tag, n1)) => match decode_varint(after(buf, n1)) {
            None => Head::Incomplete,
            Some((len, n2)) => if n1 + n2 + len > buf.len() {
                Head::Incomplete
            } else {
                Head::Done(
                    decode_message(tag, buf.subrange((n1 + n2) as int, n1 + n2 + len), webtrans),
                    (n1 + n2 + len) as nat,
                )
            },
        },
    }
}

fn length_mismatch() -> (r: MoqtControlParserEvent)
    ensures
        r@ == EventView::ParsingError(MoqtError::kProtocolViolation),
{
    MoqtControlParserEvent::OnParsingError(
        MoqtError::kProtocolViolation,
        "Message length does not match payload length",
    )
}

fn error_event(e: MoqtError, reason: &'static str) -> (r: MoqtControlParserEvent)
    ensures
        r@ == EventView::ParsingError(e),
{
    MoqtControlParserEvent::OnParsingError(e, reason)
}

/// Decodes one control message from its payload.
#[verifier::rlimit(100)]
fn process_payload(tag: u64, payload: &[u8], webtrans: bool) -> (r: MoqtControlParserEvent)
    ensures
        r@ == decode_message(tag, payload@, webtrans),
{
    reveal(decode_message);
    let mut rd = DataReader::new(payload);
    let t = match MoqtMessageType::try_from_value(tag) {
        Some(t) => t,
        None => {
            return error_event(MoqtError::kProtocolViolation, "Unknown message type");
        },
    };
    match t {
        MoqtMessageType::kClientSetup => match process_client_setup(&mut rd, webtrans) {
            Ok(m) => if rd.remaining() == 0 {
                MoqtControlParserEvent::OnClientSetupMessage(m)
            } else {
                length_mismatch()
            },
            Err(e) => error_event(e, "Invalid CLIENT_SETUP"),
        },
        MoqtMessageType::kServerSetup => match process_server_setup(&mut rd) {
            Ok(m) => if rd.remaining() == 0 {
                MoqtControlParserEvent::OnServerSetupMessage(m)
            } else {
                length_mismatch()
            },
            Err(e) => error_event(e, "Invalid SERVER_SETUP"),
        },
        MoqtMessageType::kSubscribe => match process_subscribe(&mut rd) {
            Ok(m) => if rd.remaining() == 0 {
                MoqtControlParserEvent::OnSubscribeMessage(m)
            } else {
                length_mismatch()
            },
            Err(e) => error_event(e, "Invalid SUBSCRIBE"),
        },
        MoqtMessageType::kSubscribeOk => match process_subscribe_ok(&mut rd) {
            Ok(m) => if rd.remaining() == 0 {
                MoqtControlParserEvent::OnSubscribeOkMessage(m)
            } else {
                length_mismatch()
            },
            Err(e) => error_event(e, "Invalid SUBSCRIBE_OK"),
        },
        MoqtMessageType::kSubscribeError => match process_subscribe_error(&mut rd) {
            Ok(m) => if rd.remaining() == 0 {
                MoqtControlParserEvent::OnSubscribeErrorMessage(m)
            } else {
                length_mismatch()
            },
            Err(e) => error_event(e, "Invalid SUBSCRIBE_ERROR"),
        },
        MoqtMessageType::kUnsubscribe => match read_vi(&mut rd) {
            Ok(v) => if rd.remaining() == 0 {
                MoqtControlParserEvent::OnUnsubscribeMessage(MoqtUnsubscribe { subscribe_id: v },)
            } else {
                length_mismatch()
            },
            Err(e) => error_event(e, "Invalid UNSUBSCRIBE"),
        },
        MoqtMessageType::kSubscribeDone => match process_subscribe_done(&mut rd) {
            Ok(m) => if rd.remaining() == 0 {
                MoqtControlParserEvent::OnSubscribeDoneMessage(m)
            } else {
                length_mismatch()
            },
            Err(e) => error_event(e, "Invalid SUBSCRIBE_DONE"),
        },
        MoqtMessageType::kSubscribeUpdate => match process_subscribe_update(&mut rd) {
            Ok(m) => if rd.remaining() == 0 {
                MoqtControlParserEvent::OnSubscribeUpdateMessage(m)
            } else {
                length_mismatch()
            },
            Err(e) => error_event(e, "Invalid SUBSCRIBE_UPDATE"),
        },
        MoqtMessageType::kAnnounce => match process_announce(&mut rd) {
            Ok(m) => if rd.remaining() == 0 {
                MoqtControlParserEvent::OnAnnounceMessage(m)
            } else {
                length_mismatch()
            },
            Err(e) => error_event(e, "Invalid ANNOUNCE"),
        },
        MoqtMessageType::kAnnounceOk => match process_namespace(&mut rd) {
            Ok(ns) => if rd.remaining() == 0 {
                MoqtControlParserEvent::OnAnnounceOkMessage(MoqtAnnounceOk { track_namespace: ns },)
            } else {
                length_mismatch()
            },
            Err(e) => error_event(e, "Invalid ANNOUNCE_OK"),
        },
        MoqtMessageType::kAnnounceError => match process_announce_error(&mut rd) {
            Ok(m) => if rd.remaining() == 0 {
                MoqtControlParserEvent::OnAnnounceErrorMessage(m)
            } else {
                length_mismatch()
            },
            Err(e) => error_event(e, "Invalid ANNOUNCE_ERROR"),
        },
        MoqtMessageType::kAnnounceCancel => match process_announce_cancel(&mut rd) {
            Ok(m) => if rd.remaining() == 0 {
                MoqtControlParserEvent::OnAnnounceCancelMessage(m)
            } else {
                length_mismatch()
            },
            Err(e) => error_event(e, "Invalid ANNOUNCE_CANCEL"),
        },
        MoqtMessageType::kTrackStatusRequest => match process_track_name(&mut rd) {
            Ok(n) => if rd.remaining() == 0 {
                MoqtControlParserEvent::OnTrackStatusRequestMessage(MoqtTrackStatusRequest { full_track_name: n },)
            } else {
                length_mismatch()
            },
            Err(e) => error_event(e, "Invalid TRACK_STATUS_REQUEST"),
        },
        MoqtMessageType::kUnannounce => match process_namespace(&mut rd) {
            Ok(ns) => if rd.remaining() == 0 {
                MoqtControlParserEvent::OnUnannounceMessage(MoqtUnannounce { track_namespace: ns },)
            } else {
                length_mismatch()
            },
            Err(e) => error_event(e, "Invalid UNANNOUNCE"),
        },
        MoqtMessageType::kTrackStatus => match process_track_status(&mut rd) {
            Ok(m) => if rd.remaining() == 0 {
                MoqtControlParserEvent::OnTrackStatusMessage(m)
            } else {
                length_mismatch()
            },
            Err(e) => error_event(e, "Invalid TRACK_STATUS"),
        },
        MoqtMessageType::kGoAway => match read_str(&mut rd) {
            Ok(uri) => if rd.remaining() == 0 {
                MoqtControlParserEvent::OnGoAwayMessage(MoqtGoAway { new_session_uri: uri },)
            } else {
                length_mismatch()
            },
            Err(e) => error_event(e, "Invalid GOAWAY"),
        },
        MoqtMessageType::kSubscribeAnnounces => match process_subscribe_announces(&mut rd) {
            Ok(m) => if rd.remaining() == 0 {
                MoqtControlParserEvent::OnSubscribeAnnouncesMessage(m)
            } else {
                length_mismatch()
            },
            Err(e) => error_event(e, "Invalid SUBSCRIBE_ANNOUNCES"),
        },
        MoqtMessageType::kSubscribeAnnouncesOk => match process_namespace(&mut rd) {
            Ok(ns) => if rd.remaining() == 0 {
                MoqtControlParserEvent::OnSubscribeAnnouncesOkMessage(MoqtSubscribeAnnouncesOk { track_namespace: ns },)
            } else {
                length_mismatch()
            },
            Err(e) => error_event(e, "Invalid SUBSCRIBE_ANNOUNCES_OK"),
        },
        MoqtMessageType::kSubscribeAnnouncesError => match process_subscribe_announces_error(
            &mut rd,
        ) {
            Ok(m) => if rd.remaining() == 0 {
                MoqtControlParserEvent::OnSubscribeAnnouncesErrorMessage(m)
            } else {
                length_mismatch()
            },
            Err(e) => error_event(e, "Invalid SUBSCRIBE_ANNOUNCES_ERROR"),
        },
        MoqtMessageType::kUnsubscribeAnnounces => match process_namespace(&mut rd) {
            Ok(ns) => if rd.remaining() == 0 {
                MoqtControlParserEvent::OnUnsubscribeAnnouncesMessage(MoqtUnsubscribeAnnounces { track_namespace: ns },)
            } else {
                length_mismatch()
            },
            Err(e) => error_event(e, "Invalid UNSUBSCRIBE_ANNOUNCES"),
        },
        MoqtMessageType::kMaxSubscribeId => match read_vi(&mut rd) {
            Ok(v) => if rd.remaining() == 0 {
                MoqtControlParserEvent::OnMaxSubscribeIdMessage(MoqtMaxSubscribeId { max_subscribe_id: v },)
            } else {
                length_mismatch()
            },
            Err(e) => error_event(e, "Invalid MAX_SUBSCRIBE_ID"),
        },
        MoqtMessageType::kFetch => match process_fetch(&mut rd) {
            Ok(m) => if rd.remaining() == 0 {
                MoqtControlParserEvent::OnFetchMessage(m)
            } else {
                length_mismatch()
            },
            Err(e) => error_event(e, "Invalid FETCH"),
        },
        MoqtMessageType::kFetchCancel => match read_vi(&mut rd) {
            Ok(v) => if rd.remaining() == 0 {
                MoqtControlParserEvent::OnFetchCancelMessage(MoqtFetchCancel { subscribe_id: v })
            } else {
                length_mismatch()
            },
            Err(e) => error_event(e, "Invalid FETCH_CANCEL"),
        },
        MoqtMessageType::kFetchOk => match process_fetch_ok(&mut rd) {
            Ok(m) => if rd.remaining() == 0 {
                MoqtControlParserEvent::OnFetchOkMessage(m)
            } else {
                length_mismatch()
            },
            Err(e) => error_event(e, "Invalid FETCH_OK"),
        },
        MoqtMessageType::kFetchError => match process_fetch_error(&mut rd) {
            Ok(m) => if rd.remaining() == 0 {
                MoqtControlParserEvent::OnFetchErrorMessage(m)
            } else {
                length_mismatch()
            },
            Err(e) => error_event(e, "Invalid FETCH_ERROR"),
        },
        MoqtMessageType::kObjectAck => match process_object_ack(&mut rd) {
            Ok(m) => if rd.remaining() == 0 {
                MoqtControlParserEvent::OnObjectAckMessage(m)
            } else {
                length_mismatch()
            },
            Err(e) => error_event(e, "Invalid OBJECT_ACK"),
        },
    }
}

/// Parses the control message at the head of `buf`: `None` while it is not
/// all there, else its event and the number of bytes it takes.
pub fn process_message(buf: &[u8], webtrans: bool) -> (r: Option<(MoqtControlParserEvent, usize)>)
    ensures
        match spec_head(buf@, webtrans) {
            Head::Incomplete => r is None,
            Head::Done(ev, n) => match r {
                Some((e, k)) => e@ == ev && k == n,
                None => false,
            },
        },
{
    let mut rd = DataReader::new(buf);
    let tag = match rd.read_var_int62() {
        Some(t) => t,
        None => return None,
    };
    let ghost n1 = rd.pos();
    let len = match rd.read_var_int62() {
        Some(l) => l,
        None => return None,
    };
    let start = rd.bytes_read();
    let avail = rd.remaining();
    let total = buf.len();
    assert(start + avail == total);
    if len > avail as u64 {
        return None;
    }
    let end = start + len as usize;
    let payload = vstd::slice::slice_subrange(buf, start, end);
    let ev = process_payload(tag, payload, webtrans);
    Some((ev, end))
}


pub open spec fn is_error(e: EventView) -> bool {
    e is ParsingError
}

/// Events and leftover of parsing a buffer from its head.
pub struct RunResult {
    pub events: Seq<EventView>,
    pub rest: Seq<u8>,
    pub failed: bool,
}

/// Parses whole messages from the head of `buf` until one is incomplete or
/// one fails; after a failure nothing is kept.
pub open spec fn run(buf: Seq<u8>, webtrans: bool) -> RunResult
    decreases buf.len(),
{
    if buf.len() == 0 {
        RunResult { events: Seq::empty(), rest: buf, failed: false }
    } else {
        match spec_head(buf, webtrans) {
            Head::Incomplete => RunResult { events: Seq::empty(), rest: buf, failed: false },
            Head::Done(ev, n) => if is_error(ev) {
                RunResult { events: seq![ev], rest: Seq::empty(), failed: true }
            } else if n == 0 || n > buf.len() {
                RunResult { events: Seq::empty(), rest: buf, failed: false }
            } else {
                let r = run(after(buf, n), webtrans);
                RunResult { events: seq![ev] + r.events, rest: r.rest, failed: r.failed }
            },
        }
    }
}

/// The state of a control parser.
pub struct ParserView {
    pub events: Seq<EventView>,
    pub buffered: Seq<u8>,
    pub uses_web_transport: bool,
    pub no_more_data: bool,
    pub parsing_error: bool,
    pub processing: bool,
}

/// Reports `e` unless an error was reported before; either way the parser
/// takes no more data.
pub open spec fn latch(p: ParserView, e: MoqtError) -> ParserView {
    if p.parsing_error {
        p
    } else {
        ParserView {
            events: p.events.push(EventView::ParsingError(e)),
            buffered: Seq::empty(),
            uses_web_transport: p.uses_web_transport,
            no_more_data: true,
            parsing_error: true,
            processing: p.processing,
        }
    }
}

/// The state after `data` arrives, with `fin` set when it ends the stream.
pub open spec fn data_step(p: ParserView, data: Seq<u8>, fin: bool) -> ParserView {
    if p.processing {
        p
    } else if p.no_more_data {
        latch(p, MoqtError::kProtocolViolation)
    } else {
        let r = run(p.buffered + data, p.uses_web_transport);
        let q = ParserView {
            events: p.events + r.events,
            buffered: r.rest,
            uses_web_transport: p.uses_web_transport,
            no_more_data: fin || r.failed,
            parsing_error: r.failed,
            processing: false,
        };
        if r.failed {
            q
        } else if r.rest.len() > kMaxMessageHeaderSize {
            latch(q, MoqtError::kInternalError)
        } else if r.rest.len() > 0 && fin {
            latch(q, MoqtError::kProtocolViolation)
        } else {
            q
        }
    }
}

pub open spec fn events_view(v: Seq<MoqtControlParserEvent>) -> Seq<EventView> {
    v.map_values(|e: MoqtControlParserEvent| e@)
}

/// Parser of the control stream: bytes go in, events come out in stream
/// order. After the first error it reports nothing more.
pub struct MoqtControlParser {
    events: Vec<MoqtControlParserEvent>,
    uses_web_transport: bool,
    no_more_data: bool,
    parsing_error: bool,
    buffered_message: Vec<u8>,
    processing: bool,
}

impl View for MoqtControlParser {
    type V = ParserView;

    closed spec fn view(&self) -> ParserView {
        ParserView {
            events: events_view(self.events@),
            buffered: self.buffered_message@,
            uses_web_transport: self.uses_web_transport,
            no_more_data: self.no_more_data,
            parsing_error: self.parsing_error,
            processing: self.processing,
        }
    }
}

impl MoqtControlParser {
    /// An error is reported only once the parser takes no more data.
    pub closed spec fn wf(&self) -> bool {
        self.parsing_error ==> self.no_more_data
    }

    pub fn new(uses_web_transport: bool) -> (r: Self)
        ensures
            r@ == (ParserView {
                events: Seq::empty(),
                buffered: Seq::empty(),
                uses_web_transport,
                no_more_data: false,
                parsing_error: false,
                processing: false,
            }),
            r.wf(),
    {
        let r = MoqtControlParser {
            events: Vec::new(),
            uses_web_transport,
            no_more_data: false,
            parsing_error: false,
            buffered_message: Vec::new(),
            processing: false,
        };
        assert(events_view(r.events@) =~= Seq::empty());
        r
    }

    /// The events reported so far.
    pub fn events(&self) -> (r: &Vec<MoqtControlParserEvent>)
        ensures
            events_view(r@) == self@.events,
    {
        &self.events
    }

    /// Hands out the events reported so far and forgets them.
    pub fn take_events(&mut self) -> (r: Vec<MoqtControlParserEvent>)
        requires
            old(self).wf(),
        ensures
            final(self).wf(),
            events_view(r@) == old(self)@.events,
            final(self)@ == (ParserView { events: Seq::empty(), ..old(self)@ }),
    {
        let r = self.events.split_off(0);
        assert(events_view(self.events@) =~= Seq::empty());
        r
    }

    fn push_event(&mut self, e: MoqtControlParserEvent)
        ensures
            final(self)@ == (ParserView { events: old(self)@.events.push(e@), ..old(self)@ }),
    {
        let ghost before = self.events@;
        self.events.push(e);
        assert(events_view(self.events@) =~= events_view(before).push(e@));
    }

    /// Reports an error, unless one was reported before.
    fn parse_error(&mut self, error: MoqtError, reason: &'static str)
        requires
            old(self).wf(),
        ensures
            final(self).wf(),
            final(self)@ == latch(old(self)@, error),
    {
        if !self.parsing_error {
            self.no_more_data = true;
            self.parsing_error = true;
            self.buffered_message = Vec::new();
            self.push_event(MoqtControlParserEvent::OnParsingError(error, reason));
        }
    }

    /// Takes bytes of the control stream; `fin` says that no more follow.
    /// Every message that is now whole is reported in order; the rest waits
    /// for more bytes. Bytes after the end of the stream, an end of stream
    /// inside a message, and more than 2048 buffered bytes without a whole
    /// message are errors. A call made while another is running does
    /// nothing.
    pub fn process_data(&mut self, data: &[u8], fin: bool)
        requires
            old(self).wf(),
        ensures
            final(self).wf(),
            final(self)@ == data_step(old(self)@, data@, fin),
    {
        if self.processing {
            return;
        }
        if self.no_more_data {
            self.parse_error(MoqtError::kProtocolViolation, "Data after end of stream");
            return;
        }
        let webtrans = self.uses_web_transport;
        let mut w = crate::writer::DataWriter::new();
        w.write_bytes(self.buffered_message.as_slice());
        w.write_bytes(data);
        let buf = w.into_bytes();
        let ghost full = buf@;
        let ghost old_events = self@.events;
        self.processing = true;
        assert(after(full, 0) =~= full);
        assert(Seq::<EventView>::empty() + run(full, webtrans).events =~= run(full, webtrans).events);
        let mut pos: usize = 0;
        let mut failed = false;
        let ghost mut added: Seq<EventView> = Seq::empty();
        while pos < buf.len() && !failed
            invariant
                buf@ == full,
                pos <= buf.len(),
                webtrans == self.uses_web_transport,
                self@.events == old_events + added,
                self.processing,
                !self.parsing_error,
                !self.no_more_data,
                self.uses_web_transport == old(self).uses_web_transport,
                !failed ==> run(full, webtrans).events == added + run(after(full, pos as nat), webtrans).events
                    && run(full, webtrans).rest == run(after(full, pos as nat), webtrans).rest
                    && run(full, webtrans).failed == run(after(full, pos as nat), webtrans).failed,
                failed ==> run(full, webtrans).events == added && run(full, webtrans).failed
                    && run(full, webtrans).rest == Seq::<u8>::empty(),
            ensures
                !failed ==> run(after(full, pos as nat), webtrans) == (RunResult {
                    events: Seq::empty(),
                    rest: after(full, pos as nat),
                    failed: false,
                }),
            decreases buf.len() - pos, if failed { 0int } else { 1int },
        {
            let rest = vstd::slice::slice_subrange(buf.as_slice(), pos, buf.len());
            assert(rest@ == after(full, pos as nat));
            match process_message(rest, webtrans) {
                None => {
                    assert(after(full, pos as nat).len() > 0);
                    break;
                },
                Some((ev, n)) => {
                    let ghost evv = ev@;
                    let err = matches!(ev, MoqtControlParserEvent::OnParsingError(_, _));
                    assert(err == is_error(evv));
                    self.push_event(ev);
                    proof {
                        added = added.push(evv);
                    }
                    if err {
                        failed = true;
                        assert(after(full, pos as nat).len() > 0);
                        assert(run(after(full, pos as nat), webtrans).events =~= seq![evv]);
                        assert(old_events + added =~= self@.events);
                    } else {
                        proof {
                            let s = after(full, pos as nat);
                            assert(after(s, n as nat) =~= after(full, (pos + n) as nat));
                            assert(seq![evv] + run(after(s, n as nat), webtrans).events
                                == run(s, webtrans).events);
                            assert(added + run(after(full, (pos + n) as nat), webtrans).events
                                =~= (added.drop_last()) + run(s, webtrans).events);
                        }
                        pos = pos + n;
                    }
                },
            }
        }
        if failed {
            self.no_more_data = true;
            self.parsing_error = true;
            self.buffered_message = Vec::new();
        } else {
            assert(pos == buf.len() ==> after(full, pos as nat) =~= Seq::<u8>::empty());
            let rest = vstd::slice::slice_subrange(buf.as_slice(), pos, buf.len());
            self.buffered_message = vstd::slice::slice_to_vec(rest);
            self.no_more_data = fin;
            if self.buffered_message.len() > kMaxMessageHeaderSize {
                self.processing = false;
                self.parse_error(MoqtError::kInternalError, "Cannot parse non-OBJECT messages > 2KB");
            } else if self.buffered_message.len() > 0 && fin {
                self.processing = false;
                self.parse_error(MoqtError::kProtocolViolation, "FIN after incomplete message");
            }
        }
        self.processing = false;
    }
}

} // verus!
