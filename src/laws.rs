use vstd::prelude::*;
use crate::fields::after;
use crate::parser::{
    data_step, decode_message, is_error, run, spec_head, EventView, Head, ParserView, RunResult,
};
use crate::varint::{
    decode_varint, encode_varint, encode_varint_width, is_varint_width, lemma_decode_encode,
    lemma_decode_encode_width, varint_len, VARINT62_MAX,
};
use crate::wire::control_frame;
use crate::control::{
    ClientSetupView, MoqtServerSetup, FetchOkView, FetchView, NamespaceParamsView, SubscribeOkView,
    SubscribeUpdateView, SubscribeView, FetchErrorView, MoqtFetchCancel, MoqtMaxSubscribeId,
    MoqtObjectAck, MoqtUnsubscribe, NamespaceErrorView, SubscribeDoneView, SubscribeErrorView,
    TrackStatusView,
};
use crate::decode::{
    client_setup_seen, lemma_decode_client_setup, lemma_decode_server_setup, lemma_decode_announce,
    lemma_decode_fetch, lemma_decode_fetch_ok, lemma_decode_namespace_params,
    lemma_decode_subscribe, lemma_decode_subscribe_ok, lemma_decode_subscribe_update,
    update_range_ordered, lemma_decode_announce_error, lemma_decode_fetch_error,
    lemma_decode_object_ack, lemma_decode_subscribe_announces_error, lemma_decode_subscribe_done,
    lemma_decode_subscribe_error, lemma_decode_track_status,
};
use crate::fields::{lemma_sp_str, lemma_sp_track_name, lemma_sp_tuple, lemma_sp_vi};
use crate::framer::{
    client_setup_ok, client_setup_payload, server_setup_ok, server_setup_payload, fetch_ok,
    fetch_ok_ok, fetch_ok_payload, fetch_payload, namespace_params_ok, namespace_params_payload,
    subscribe_ok, subscribe_ok_ok, subscribe_ok_payload, subscribe_payload, subscribe_update_ok,
    subscribe_update_payload, fetch_error_ok, fetch_error_payload, frame_ok, namespace_error_ok,
    namespace_error_payload, namespace_ok, namespace_payload, object_ack_ok, object_ack_payload,
    subscribe_done_ok, subscribe_done_payload, subscribe_error_ok, subscribe_error_payload,
    track_name_ok, track_name_payload, track_status_ok, track_status_payload,
};
use crate::messages::{MoqtAnnounceErrorCode, SubscribeErrorCode};
use crate::wire::{str_ok, vi_ok};
use crate::writer::encode_string;

verus! {

/// Every value of the 62-bit range survives encoding and decoding, and its
/// shortest encoding takes 1, 2, 4 or 8 bytes: the length the encoder
/// announces.
pub proof fn law_varint_round_trip(v: u64)
    requires
        v <= VARINT62_MAX,
    ensures
        decode_varint(encode_varint(v)) == Some((v, varint_len(v))),
        is_varint_width(encode_varint(v).len()),
        encode_varint(v).len() == varint_len(v),
{
    lemma_decode_encode(v, Seq::empty());
    assert(encode_varint(v) + Seq::<u8>::empty() =~= encode_varint(v));
}

/// An encoding of a value at any legal width at least its shortest one
/// decodes back to the value.
pub proof fn law_varint_forced_length(v: u64, width: nat)
    requires
        v <= VARINT62_MAX,
        is_varint_width(width),
        width >= varint_len(v),
    ensures
        decode_varint(encode_varint_width(v, width)) == Some((v, width)),
{
    lemma_decode_encode_width(v, width);
}

/// What a decoding reads of a sequence is its first bytes: a prefix that
/// holds them decodes alike, a shorter one not at all.
pub proof fn lemma_decode_of_prefix(e: Seq<u8>, k: nat)
    requires
        decode_varint(e) is Some,
        k <= e.len(),
    ensures
        k >= (decode_varint(e)->0).1 ==> decode_varint(e.subrange(0, k as int)) == decode_varint(e),
        k < (decode_varint(e)->0).1 ==> decode_varint(e.subrange(0, k as int)) is None,
{
    let s = e.subrange(0, k as int);
    if k > 0 {
        assert(s[0] == e[0]);
        let n = (decode_varint(e)->0).1;
        if k >= n {
            assert(forall|i: int| 0 <= i < n ==> s[i] == e[i]);
        }
    }
}

/// A control frame at the head of a buffer is read whole, whatever follows.
pub proof fn lemma_head_of_frame(tag: u64, p: Seq<u8>, tail: Seq<u8>, webtrans: bool)
    requires
        tag <= VARINT62_MAX,
        p.len() <= VARINT62_MAX,
    ensures
        spec_head(control_frame(tag, p) + tail, webtrans) == Head::Done(
            decode_message(tag, p, webtrans),
            control_frame(tag, p).len(),
        ),
        control_frame(tag, p).len() == varint_len(tag) + varint_len(p.len() as u64) + p.len(),
{
    let et = encode_varint(tag);
    let el = encode_varint(p.len() as u64);
    let s = control_frame(tag, p) + tail;
    lemma_decode_encode(tag, el + p + tail);
    assert(s =~= et + (el + p + tail));
    let n1 = varint_len(tag);
    lemma_decode_encode(p.len() as u64, p + tail);
    assert(after(s, n1) =~= el + (p + tail));
    let n2 = varint_len(p.len() as u64);
    assert(s.subrange((n1 + n2) as int, (n1 + n2 + p.len()) as int) =~= p);
}

/// Two control messages sent back to back give exactly their two events,
/// in order, and leave nothing behind.
pub proof fn law_two_messages(
    tag1: u64,
    first_payload: Seq<u8>,
    tag2: u64,
    second_payload: Seq<u8>,
    webtrans: bool,
)
    requires
        tag1 <= VARINT62_MAX,
        tag2 <= VARINT62_MAX,
        first_payload.len() <= VARINT62_MAX,
        second_payload.len() <= VARINT62_MAX,
        !is_error(decode_message(tag1, first_payload, webtrans)),
        !is_error(decode_message(tag2, second_payload, webtrans)),
    ensures
        run(control_frame(tag1, first_payload) + control_frame(tag2, second_payload), webtrans) == (RunResult {
            events: seq![decode_message(tag1, first_payload, webtrans), decode_message(tag2, second_payload, webtrans)],
            rest: Seq::empty(),
            failed: false,
        }),
{
    let f1 = control_frame(tag1, first_payload);
    let f2 = control_frame(tag2, second_payload);
    let s = f1 + f2;
    lemma_head_of_frame(tag1, first_payload, f2, webtrans);
    lemma_head_of_frame(tag2, second_payload, Seq::empty(), webtrans);
    assert(f2 + Seq::<u8>::empty() =~= f2);
    assert(after(s, f1.len()) =~= f2);
    assert(after(f2, f2.len()) =~= Seq::<u8>::empty());
    let e1 = decode_message(tag1, first_payload, webtrans);
    let e2 = decode_message(tag2, second_payload, webtrans);
    assert(run(after(f2, f2.len()), webtrans).events =~= Seq::<EventView>::empty());
    assert(run(f2, webtrans).events =~= seq![e2]);
    assert(run(s, webtrans).events =~= seq![e1, e2]);
}

/// A strict prefix of a control frame is never a whole message.
pub proof fn lemma_prefix_incomplete(tag: u64, p: Seq<u8>, k: nat, webtrans: bool)
    requires
        tag <= VARINT62_MAX,
        p.len() <= VARINT62_MAX,
        0 < k < control_frame(tag, p).len(),
    ensures
        spec_head(control_frame(tag, p).subrange(0, k as int), webtrans) is Incomplete,
{
    let f = control_frame(tag, p);
    let a = f.subrange(0, k as int);
    lemma_head_of_frame(tag, p, Seq::empty(), webtrans);
    assert(f + Seq::<u8>::empty() =~= f);
    lemma_decode_of_prefix(f, k);
    let n1 = varint_len(tag);
    if k >= n1 {
        let rest_f = after(f, n1);
        lemma_decode_encode(p.len() as u64, p);
        assert(rest_f =~= encode_varint(p.len() as u64) + p);
        assert(after(a, n1) =~= rest_f.subrange(0, k - n1));
        lemma_decode_of_prefix(rest_f, (k - n1) as nat);
    }
}

/// The state of a parser that has seen nothing yet.
pub open spec fn fresh_parser(webtrans: bool) -> ParserView {
    ParserView {
        events: Seq::empty(),
        buffered: Seq::empty(),
        uses_web_transport: webtrans,
        no_more_data: false,
        parsing_error: false,
        processing: false,
    }
}

/// A control message delivered in two parts gives exactly one event, the
/// same as delivered whole, as long as the first part stays within the
/// buffering bound.
pub proof fn law_split_delivery(tag: u64, p: Seq<u8>, a: Seq<u8>, b: Seq<u8>, webtrans: bool)
    requires
        tag <= VARINT62_MAX,
        p.len() <= VARINT62_MAX,
        a + b == control_frame(tag, p),
        a.len() <= crate::messages::kMaxMessageHeaderSize,
        !is_error(decode_message(tag, p, webtrans)),
    ensures
        data_step(data_step(fresh_parser(webtrans), a, false), b, false) == (ParserView {
            events: seq![decode_message(tag, p, webtrans)],
            buffered: Seq::empty(),
            uses_web_transport: webtrans,
            no_more_data: false,
            parsing_error: false,
            processing: false,
        }),
{
    let f = control_frame(tag, p);
    let e = decode_message(tag, p, webtrans);
    let start = fresh_parser(webtrans);
    let empty = Seq::<u8>::empty();
    lemma_head_of_frame(tag, p, empty, webtrans);
    assert(f + empty =~= f);
    assert(after(f, f.len()) =~= empty);
    let whole_run = RunResult { events: seq![e], rest: empty, failed: false };
    assert(run(after(f, f.len()), webtrans).events =~= Seq::<EventView>::empty());
    assert(seq![e] + Seq::<EventView>::empty() =~= seq![e]);
    assert(run(f, webtrans) == whole_run);
    let waiting = ParserView {
        events: Seq::empty(),
        buffered: a,
        uses_web_transport: webtrans,
        no_more_data: false,
        parsing_error: false,
        processing: false,
    };
    let done = ParserView {
        events: seq![e],
        buffered: empty,
        uses_web_transport: webtrans,
        no_more_data: false,
        parsing_error: false,
        processing: false,
    };
    assert(empty + a =~= a);
    if a.len() == f.len() {
        assert(a =~= f);
        assert(b =~= empty);
        assert(Seq::<EventView>::empty() + seq![e] =~= seq![e]);
        assert(data_step(start, a, false) == done);
        assert(empty + b =~= empty);
        assert(seq![e] + Seq::<EventView>::empty() =~= seq![e]);
        assert(data_step(done, b, false) == done);
    } else {
        if a.len() > 0 {
            assert(a =~= f.subrange(0, a.len() as int));
            lemma_prefix_incomplete(tag, p, a.len(), webtrans);
        }
        assert(run(a, webtrans) == (RunResult { events: Seq::empty(), rest: a, failed: false }));
        assert(Seq::<EventView>::empty() + Seq::<EventView>::empty() =~= Seq::<EventView>::empty());
        assert(data_step(start, a, false) == waiting);
        assert(a + b == f);
        assert(Seq::<EventView>::empty() + seq![e] =~= seq![e]);
        assert(data_step(waiting, b, false) == done);
    }
}

/// A call of `process_data` made while another is running changes nothing.
pub proof fn law_reentrant_call_is_noop(p: ParserView, data: Seq<u8>, fin: bool)
    requires
        p.processing,
    ensures
        data_step(p, data, fin) == p,
{
}


proof fn lemma_frame_event(tag: u64, p: Seq<u8>, ev: EventView, webtrans: bool)
    requires
        tag <= VARINT62_MAX,
        p.len() <= VARINT62_MAX,
        decode_message(tag, p, webtrans) == ev,
    ensures
        spec_head(control_frame(tag, p), webtrans) == Head::Done(ev, control_frame(tag, p).len()),
{
    lemma_head_of_frame(tag, p, Seq::empty(), webtrans);
    assert(control_frame(tag, p) + Seq::<u8>::empty() =~= control_frame(tag, p));
}

/// UNSUBSCRIBE framed and parsed back gives the same message.
pub proof fn law_round_trip_unsubscribe(m: MoqtUnsubscribe, webtrans: bool)
    requires
        vi_ok(m.subscribe_id),
    ensures
        spec_head(control_frame(0x0a, encode_varint(m.subscribe_id)), webtrans) == Head::Done(
            EventView::Unsubscribe(m),
            control_frame(0x0a, encode_varint(m.subscribe_id)).len(),
        ),
{
    reveal(decode_message);
    lemma_sp_vi(m.subscribe_id, Seq::<u8>::empty());
    assert(encode_varint(m.subscribe_id) + Seq::<u8>::empty() =~= encode_varint(m.subscribe_id));
    lemma_frame_event(0x0a, encode_varint(m.subscribe_id), EventView::Unsubscribe(m), webtrans);
}

/// MAX_SUBSCRIBE_ID framed and parsed back gives the same message.
pub proof fn law_round_trip_max_subscribe_id(m: MoqtMaxSubscribeId, webtrans: bool)
    requires
        vi_ok(m.max_subscribe_id),
    ensures
        spec_head(control_frame(0x15, encode_varint(m.max_subscribe_id)), webtrans) == Head::Done(
            EventView::MaxSubscribeId(m),
            control_frame(0x15, encode_varint(m.max_subscribe_id)).len(),
        ),
{
    reveal(decode_message);
    lemma_sp_vi(m.max_subscribe_id, Seq::<u8>::empty());
    assert(encode_varint(m.max_subscribe_id) + Seq::<u8>::empty() =~= encode_varint(m.max_subscribe_id));
    lemma_frame_event(0x15, encode_varint(m.max_subscribe_id), EventView::MaxSubscribeId(m), webtrans);
}

/// FETCH_CANCEL framed and parsed back gives the same message.
pub proof fn law_round_trip_fetch_cancel(m: MoqtFetchCancel, webtrans: bool)
    requires
        vi_ok(m.subscribe_id),
    ensures
        spec_head(control_frame(0x17, encode_varint(m.subscribe_id)), webtrans) == Head::Done(
            EventView::FetchCancel(m),
            control_frame(0x17, encode_varint(m.subscribe_id)).len(),
        ),
{
    reveal(decode_message);
    lemma_sp_vi(m.subscribe_id, Seq::<u8>::empty());
    assert(encode_varint(m.subscribe_id) + Seq::<u8>::empty() =~= encode_varint(m.subscribe_id));
    lemma_frame_event(0x17, encode_varint(m.subscribe_id), EventView::FetchCancel(m), webtrans);
}

/// GOAWAY framed and parsed back gives the same URI.
pub proof fn law_round_trip_go_away(uri: Seq<u8>, webtrans: bool)
    requires
        str_ok(uri),
        frame_ok(encode_string(uri)),
    ensures
        spec_head(control_frame(0x10, encode_string(uri)), webtrans) == Head::Done(
            EventView::GoAway(uri),
            control_frame(0x10, encode_string(uri)).len(),
        ),
{
    reveal(decode_message);
    lemma_sp_str(uri, Seq::<u8>::empty());
    assert(encode_string(uri) + Seq::<u8>::empty() =~= encode_string(uri));
    lemma_frame_event(0x10, encode_string(uri), EventView::GoAway(uri), webtrans);
}

/// ANNOUNCE_OK framed and parsed back gives the same namespace.
pub proof fn law_round_trip_announce_ok(ns: Seq<Seq<u8>>, webtrans: bool)
    requires
        namespace_ok(ns),
    ensures
        spec_head(control_frame(0x07, namespace_payload(ns)), webtrans) == Head::Done(
            EventView::AnnounceOk(ns),
            control_frame(0x07, namespace_payload(ns)).len(),
        ),
{
    reveal(decode_message);
    lemma_sp_tuple(ns, Seq::<u8>::empty());
    assert(namespace_payload(ns) + Seq::<u8>::empty() =~= namespace_payload(ns));
    lemma_frame_event(0x07, namespace_payload(ns), EventView::AnnounceOk(ns), webtrans);
}

/// UNANNOUNCE framed and parsed back gives the same namespace.
pub proof fn law_round_trip_unannounce(ns: Seq<Seq<u8>>, webtrans: bool)
    requires
        namespace_ok(ns),
    ensures
        spec_head(control_frame(0x09, namespace_payload(ns)), webtrans) == Head::Done(
            EventView::Unannounce(ns),
            control_frame(0x09, namespace_payload(ns)).len(),
        ),
{
    reveal(decode_message);
    lemma_sp_tuple(ns, Seq::<u8>::empty());
    assert(namespace_payload(ns) + Seq::<u8>::empty() =~= namespace_payload(ns));
    lemma_frame_event(0x09, namespace_payload(ns), EventView::Unannounce(ns), webtrans);
}

/// SUBSCRIBE_ANNOUNCES_OK framed and parsed back gives the same namespace.
pub proof fn law_round_trip_subscribe_announces_ok(ns: Seq<Seq<u8>>, webtrans: bool)
    requires
        namespace_ok(ns),
    ensures
        spec_head(control_frame(0x12, namespace_payload(ns)), webtrans) == Head::Done(
            EventView::SubscribeAnnouncesOk(ns),
            control_frame(0x12, namespace_payload(ns)).len(),
        ),
{
    reveal(decode_message);
    lemma_sp_tuple(ns, Seq::<u8>::empty());
    assert(namespace_payload(ns) + Seq::<u8>::empty() =~= namespace_payload(ns));
    lemma_frame_event(0x12, namespace_payload(ns), EventView::SubscribeAnnouncesOk(ns), webtrans);
}

/// UNSUBSCRIBE_ANNOUNCES framed and parsed back gives the same namespace.
pub proof fn law_round_trip_unsubscribe_announces(ns: Seq<Seq<u8>>, webtrans: bool)
    requires
        namespace_ok(ns),
    ensures
        spec_head(control_frame(0x14, namespace_payload(ns)), webtrans) == Head::Done(
            EventView::UnsubscribeAnnounces(ns),
            control_frame(0x14, namespace_payload(ns)).len(),
        ),
{
    reveal(decode_message);
    lemma_sp_tuple(ns, Seq::<u8>::empty());
    assert(namespace_payload(ns) + Seq::<u8>::empty() =~= namespace_payload(ns));
    lemma_frame_event(0x14, namespace_payload(ns), EventView::UnsubscribeAnnounces(ns), webtrans);
}

/// TRACK_STATUS_REQUEST framed and parsed back gives the same full track name.
pub proof fn law_round_trip_track_status_request(t: Seq<Seq<u8>>, webtrans: bool)
    requires
        track_name_ok(t),
        frame_ok(track_name_payload(t)),
    ensures
        spec_head(control_frame(0x0d, track_name_payload(t)), webtrans) == Head::Done(
            EventView::TrackStatusRequest(t),
            control_frame(0x0d, track_name_payload(t)).len(),
        ),
{
    reveal(decode_message);
    lemma_sp_track_name(t, Seq::<u8>::empty());
    assert(track_name_payload(t) + Seq::<u8>::empty() =~= track_name_payload(t));
    lemma_frame_event(0x0d, track_name_payload(t), EventView::TrackStatusRequest(t), webtrans);
}

/// SUBSCRIBE_ERROR framed and parsed back gives the same message.
pub proof fn law_round_trip_subscribe_error(m: SubscribeErrorView, webtrans: bool)
    requires
        subscribe_error_ok(m),
    ensures
        spec_head(control_frame(0x05, subscribe_error_payload(m)), webtrans) == Head::Done(
            EventView::SubscribeError(m),
            control_frame(0x05, subscribe_error_payload(m)).len(),
        ),
{
    reveal(decode_message);
    lemma_decode_subscribe_error(m, Seq::<u8>::empty());
    assert(subscribe_error_payload(m) + Seq::<u8>::empty() =~= subscribe_error_payload(m));
    lemma_frame_event(0x05, subscribe_error_payload(m), EventView::SubscribeError(m), webtrans);
}

/// SUBSCRIBE_DONE framed and parsed back gives the same message.
pub proof fn law_round_trip_subscribe_done(m: SubscribeDoneView, webtrans: bool)
    requires
        subscribe_done_ok(m),
    ensures
        spec_head(control_frame(0x0b, subscribe_done_payload(m)), webtrans) == Head::Done(
            EventView::SubscribeDone(m),
            control_frame(0x0b, subscribe_done_payload(m)).len(),
        ),
{
    reveal(decode_message);
    lemma_decode_subscribe_done(m, Seq::<u8>::empty());
    assert(subscribe_done_payload(m) + Seq::<u8>::empty() =~= subscribe_done_payload(m));
    lemma_frame_event(0x0b, subscribe_done_payload(m), EventView::SubscribeDone(m), webtrans);
}

/// FETCH_ERROR framed and parsed back gives the same message.
pub proof fn law_round_trip_fetch_error(m: FetchErrorView, webtrans: bool)
    requires
        fetch_error_ok(m),
    ensures
        spec_head(control_frame(0x19, fetch_error_payload(m)), webtrans) == Head::Done(
            EventView::FetchError(m),
            control_frame(0x19, fetch_error_payload(m)).len(),
        ),
{
    reveal(decode_message);
    lemma_decode_fetch_error(m, Seq::<u8>::empty());
    assert(fetch_error_payload(m) + Seq::<u8>::empty() =~= fetch_error_payload(m));
    lemma_frame_event(0x19, fetch_error_payload(m), EventView::FetchError(m), webtrans);
}

/// TRACK_STATUS framed and parsed back gives the same message.
pub proof fn law_round_trip_track_status(m: TrackStatusView, webtrans: bool)
    requires
        track_status_ok(m),
    ensures
        spec_head(control_frame(0x0e, track_status_payload(m)), webtrans) == Head::Done(
            EventView::TrackStatus(m),
            control_frame(0x0e, track_status_payload(m)).len(),
        ),
{
    reveal(decode_message);
    lemma_decode_track_status(m, Seq::<u8>::empty());
    assert(track_status_payload(m) + Seq::<u8>::empty() =~= track_status_payload(m));
    lemma_frame_event(0x0e, track_status_payload(m), EventView::TrackStatus(m), webtrans);
}

/// OBJECT_ACK framed and parsed back gives the same message, the signed delta included.
pub proof fn law_round_trip_object_ack(m: MoqtObjectAck, webtrans: bool)
    requires
        object_ack_ok(m),
    ensures
        spec_head(control_frame(0x3184, object_ack_payload(m)), webtrans) == Head::Done(
            EventView::ObjectAck(m),
            control_frame(0x3184, object_ack_payload(m)).len(),
        ),
{
    reveal(decode_message);
    lemma_decode_object_ack(m, Seq::<u8>::empty());
    assert(object_ack_payload(m) + Seq::<u8>::empty() =~= object_ack_payload(m));
    lemma_frame_event(0x3184, object_ack_payload(m), EventView::ObjectAck(m), webtrans);
}

/// ANNOUNCE_ERROR framed and parsed back gives the same message.
pub proof fn law_round_trip_announce_error(m: NamespaceErrorView<MoqtAnnounceErrorCode>, webtrans: bool)
    requires
        namespace_error_ok(m.track_namespace, m.error_code.spec_value(), m.reason_phrase),
    ensures
        spec_head(control_frame(0x08, namespace_error_payload(m.track_namespace, m.error_code.spec_value(), m.reason_phrase)), webtrans) == Head::Done(
            EventView::AnnounceError(m),
            control_frame(0x08, namespace_error_payload(m.track_namespace, m.error_code.spec_value(), m.reason_phrase)).len(),
        ),
{
    reveal(decode_message);
    lemma_decode_announce_error(m, Seq::<u8>::empty());
    assert(namespace_error_payload(m.track_namespace, m.error_code.spec_value(), m.reason_phrase) + Seq::<u8>::empty() =~= namespace_error_payload(m.track_namespace, m.error_code.spec_value(), m.reason_phrase));
    lemma_frame_event(0x08, namespace_error_payload(m.track_namespace, m.error_code.spec_value(), m.reason_phrase), EventView::AnnounceError(m), webtrans);
}

/// ANNOUNCE_CANCEL framed and parsed back gives the same message.
pub proof fn law_round_trip_announce_cancel(m: NamespaceErrorView<MoqtAnnounceErrorCode>, webtrans: bool)
    requires
        namespace_error_ok(m.track_namespace, m.error_code.spec_value(), m.reason_phrase),
    ensures
        spec_head(control_frame(0x0c, namespace_error_payload(m.track_namespace, m.error_code.spec_value(), m.reason_phrase)), webtrans) == Head::Done(
            EventView::AnnounceCancel(m),
            control_frame(0x0c, namespace_error_payload(m.track_namespace, m.error_code.spec_value(), m.reason_phrase)).len(),
        ),
{
    reveal(decode_message);
    lemma_decode_announce_error(m, Seq::<u8>::empty());
    assert(namespace_error_payload(m.track_namespace, m.error_code.spec_value(), m.reason_phrase) + Seq::<u8>::empty() =~= namespace_error_payload(m.track_namespace, m.error_code.spec_value(), m.reason_phrase));
    lemma_frame_event(0x0c, namespace_error_payload(m.track_namespace, m.error_code.spec_value(), m.reason_phrase), EventView::AnnounceCancel(m), webtrans);
}

/// SUBSCRIBE_ANNOUNCES_ERROR framed and parsed back gives the same message.
pub proof fn law_round_trip_subscribe_announces_error(m: NamespaceErrorView<SubscribeErrorCode>, webtrans: bool)
    requires
        namespace_error_ok(m.track_namespace, m.error_code.spec_value(), m.reason_phrase),
    ensures
        spec_head(control_frame(0x13, namespace_error_payload(m.track_namespace, m.error_code.spec_value(), m.reason_phrase)), webtrans) == Head::Done(
            EventView::SubscribeAnnouncesError(m),
            control_frame(0x13, namespace_error_payload(m.track_namespace, m.error_code.spec_value(), m.reason_phrase)).len(),
        ),
{
    reveal(decode_message);
    lemma_decode_subscribe_announces_error(m, Seq::<u8>::empty());
    assert(namespace_error_payload(m.track_namespace, m.error_code.spec_value(), m.reason_phrase) + Seq::<u8>::empty() =~= namespace_error_payload(m.track_namespace, m.error_code.spec_value(), m.reason_phrase));
    lemma_frame_event(0x13, namespace_error_payload(m.track_namespace, m.error_code.spec_value(), m.reason_phrase), EventView::SubscribeAnnouncesError(m), webtrans);
}


/// A SUBSCRIBE message framed and parsed back gives the same message.
#[verifier::spinoff_prover]
pub proof fn law_round_trip_subscribe(m: SubscribeView, webtrans: bool)
    requires
        subscribe_ok(m),
    ensures
        spec_head(control_frame(0x03, subscribe_payload(m)), webtrans) == Head::Done(
            EventView::Subscribe(m),
            control_frame(0x03, subscribe_payload(m)).len(),
        ),
{
    reveal(decode_message);
    lemma_decode_subscribe(m, Seq::<u8>::empty());
    assert(subscribe_payload(m) + Seq::<u8>::empty() =~= subscribe_payload(m));
    lemma_frame_event(0x03, subscribe_payload(m), EventView::Subscribe(m), webtrans);
}

/// A SUBSCRIBE_OK message framed and parsed back gives the same message.
#[verifier::spinoff_prover]
pub proof fn law_round_trip_subscribe_ok(m: SubscribeOkView, webtrans: bool)
    requires
        subscribe_ok_ok(m),
    ensures
        spec_head(control_frame(0x04, subscribe_ok_payload(m)), webtrans) == Head::Done(
            EventView::SubscribeOk(m),
            control_frame(0x04, subscribe_ok_payload(m)).len(),
        ),
{
    reveal(decode_message);
    lemma_decode_subscribe_ok(m, Seq::<u8>::empty());
    assert(subscribe_ok_payload(m) + Seq::<u8>::empty() =~= subscribe_ok_payload(m));
    lemma_frame_event(0x04, subscribe_ok_payload(m), EventView::SubscribeOk(m), webtrans);
}

/// A SUBSCRIBE_UPDATE whose end does not precede its start message framed and parsed back gives the same message.
#[verifier::spinoff_prover]
pub proof fn law_round_trip_subscribe_update(m: SubscribeUpdateView, webtrans: bool)
    requires
        subscribe_update_ok(m),
        update_range_ordered(m),
    ensures
        spec_head(control_frame(0x02, subscribe_update_payload(m)), webtrans) == Head::Done(
            EventView::SubscribeUpdate(m),
            control_frame(0x02, subscribe_update_payload(m)).len(),
        ),
{
    reveal(decode_message);
    lemma_decode_subscribe_update(m, Seq::<u8>::empty());
    assert(subscribe_update_payload(m) + Seq::<u8>::empty() =~= subscribe_update_payload(m));
    lemma_frame_event(0x02, subscribe_update_payload(m), EventView::SubscribeUpdate(m), webtrans);
}

/// A ANNOUNCE message framed and parsed back gives the same message.
#[verifier::spinoff_prover]
pub proof fn law_round_trip_announce(m: NamespaceParamsView, webtrans: bool)
    requires
        namespace_params_ok(m),
        m.parameters.delivery_timeout is None,
    ensures
        spec_head(control_frame(0x06, namespace_params_payload(m)), webtrans) == Head::Done(
            EventView::Announce(m),
            control_frame(0x06, namespace_params_payload(m)).len(),
        ),
{
    reveal(decode_message);
    lemma_decode_announce(m, Seq::<u8>::empty());
    assert(namespace_params_payload(m) + Seq::<u8>::empty() =~= namespace_params_payload(m));
    lemma_frame_event(0x06, namespace_params_payload(m), EventView::Announce(m), webtrans);
}

/// A SUBSCRIBE_ANNOUNCES message framed and parsed back gives the same message.
#[verifier::spinoff_prover]
pub proof fn law_round_trip_subscribe_announces(m: NamespaceParamsView, webtrans: bool)
    requires
        namespace_params_ok(m),
    ensures
        spec_head(control_frame(0x11, namespace_params_payload(m)), webtrans) == Head::Done(
            EventView::SubscribeAnnounces(m),
            control_frame(0x11, namespace_params_payload(m)).len(),
        ),
{
    reveal(decode_message);
    lemma_decode_namespace_params(m, Seq::<u8>::empty());
    assert(namespace_params_payload(m) + Seq::<u8>::empty() =~= namespace_params_payload(m));
    lemma_frame_event(0x11, namespace_params_payload(m), EventView::SubscribeAnnounces(m), webtrans);
}

/// A FETCH message framed and parsed back gives the same message.
#[verifier::spinoff_prover]
pub proof fn law_round_trip_fetch(m: FetchView, webtrans: bool)
    requires
        fetch_ok(m),
    ensures
        spec_head(control_frame(0x16, fetch_payload(m)), webtrans) == Head::Done(
            EventView::Fetch(m),
            control_frame(0x16, fetch_payload(m)).len(),
        ),
{
    reveal(decode_message);
    lemma_decode_fetch(m, Seq::<u8>::empty());
    assert(fetch_payload(m) + Seq::<u8>::empty() =~= fetch_payload(m));
    lemma_frame_event(0x16, fetch_payload(m), EventView::Fetch(m), webtrans);
}

/// A FETCH_OK message framed and parsed back gives the same message.
#[verifier::spinoff_prover]
pub proof fn law_round_trip_fetch_ok(m: FetchOkView, webtrans: bool)
    requires
        fetch_ok_ok(m),
    ensures
        spec_head(control_frame(0x18, fetch_ok_payload(m)), webtrans) == Head::Done(
            EventView::FetchOk(m),
            control_frame(0x18, fetch_ok_payload(m)).len(),
        ),
{
    reveal(decode_message);
    lemma_decode_fetch_ok(m, Seq::<u8>::empty());
    assert(fetch_ok_payload(m) + Seq::<u8>::empty() =~= fetch_ok_payload(m));
    lemma_frame_event(0x18, fetch_ok_payload(m), EventView::FetchOk(m), webtrans);
}


/// A SERVER_SETUP with a role, framed and parsed back, gives the same message.
#[verifier::spinoff_prover]
pub proof fn law_round_trip_server_setup(m: MoqtServerSetup, webtrans: bool)
    requires
        server_setup_ok(m),
        frame_ok(server_setup_payload(m)),
        m.role is Some,
    ensures
        spec_head(control_frame(0x41, server_setup_payload(m)), webtrans) == Head::Done(
            EventView::ServerSetup(m),
            control_frame(0x41, server_setup_payload(m)).len(),
        ),
{
    reveal(decode_message);
    lemma_decode_server_setup(m, Seq::<u8>::empty());
    assert(server_setup_payload(m) + Seq::<u8>::empty() =~= server_setup_payload(m));
    lemma_frame_event(0x41, server_setup_payload(m), EventView::ServerSetup(m), webtrans);
}

/// A CLIENT_SETUP with a role, and with a path unless the session runs over
/// WebTransport, framed and parsed back on a session of the same kind, gives
/// the same message; over WebTransport the path is not carried.
#[verifier::spinoff_prover]
pub proof fn law_round_trip_client_setup(m: ClientSetupView, webtrans: bool)
    requires
        client_setup_ok(m, webtrans),
        m.role is Some,
        !webtrans ==> m.path is Some,
    ensures
        spec_head(control_frame(0x40, client_setup_payload(m, webtrans)), webtrans) == Head::Done(
            EventView::ClientSetup(client_setup_seen(m, webtrans)),
            control_frame(0x40, client_setup_payload(m, webtrans)).len(),
        ),
{
    reveal(decode_message);
    lemma_decode_client_setup(m, webtrans, Seq::<u8>::empty());
    assert(client_setup_payload(m, webtrans) + Seq::<u8>::empty() =~= client_setup_payload(
        m,
        webtrans,
    ));
    lemma_frame_event(
        0x40,
        client_setup_payload(m, webtrans),
        EventView::ClientSetup(client_setup_seen(m, webtrans)),
        webtrans,
    );
}


/// The parts one after the other.
pub open spec fn concat_parts(parts: Seq<Seq<u8>>) -> Seq<u8>
    decreases parts.len(),
{
    if parts.len() == 0 {
        Seq::empty()
    } else {
        concat_parts(parts.drop_last()) + parts.last()
    }
}

/// The parser state after the parts arrive one call each, none ending the
/// stream.
pub open spec fn feed_parts(p: ParserView, parts: Seq<Seq<u8>>) -> ParserView
    decreases parts.len(),
{
    if parts.len() == 0 {
        p
    } else {
        data_step(feed_parts(p, parts.drop_last()), parts.last(), false)
    }
}

proof fn lemma_concat_prefix(parts: Seq<Seq<u8>>, k: int)
    requires
        0 <= k <= parts.len(),
    ensures
        concat_parts(parts.subrange(0, k)).len() <= concat_parts(parts).len(),
        concat_parts(parts) .subrange(0, concat_parts(parts.subrange(0, k)).len() as int)
            == concat_parts(parts.subrange(0, k)),
    decreases parts.len(),
{
    if k == parts.len() {
        assert(parts.subrange(0, k) =~= parts);
        assert(concat_parts(parts).subrange(0, concat_parts(parts).len() as int) =~= concat_parts(
            parts,
        ));
    } else {
        let init = parts.drop_last();
        assert(init.subrange(0, k) =~= parts.subrange(0, k));
        lemma_concat_prefix(init, k);
        let c = concat_parts(parts.subrange(0, k));
        assert(concat_parts(parts).subrange(0, c.len() as int) =~= concat_parts(init).subrange(
            0,
            c.len() as int,
        ));
    }
}

/// Feeding the parts of one control frame, whatever their sizes, gives
/// nothing until the last byte is in, and then exactly the message's event.
#[verifier::spinoff_prover]
#[verifier::rlimit(100)]
pub proof fn law_delivery_in_parts(
    tag: u64,
    p: Seq<u8>,
    parts: Seq<Seq<u8>>,
    k: int,
    webtrans: bool,
)
    requires
        tag <= VARINT62_MAX,
        p.len() <= VARINT62_MAX,
        concat_parts(parts) == control_frame(tag, p),
        control_frame(tag, p).len() <= crate::messages::kMaxMessageHeaderSize,
        !is_error(decode_message(tag, p, webtrans)),
        0 <= k <= parts.len(),
    ensures
        concat_parts(parts.subrange(0, k)).len() < control_frame(tag, p).len() ==> feed_parts(
            fresh_parser(webtrans),
            parts.subrange(0, k),
        ) == (ParserView {
            events: Seq::empty(),
            buffered: concat_parts(parts.subrange(0, k)),
            uses_web_transport: webtrans,
            no_more_data: false,
            parsing_error: false,
            processing: false,
        }),
        concat_parts(parts.subrange(0, k)).len() == control_frame(tag, p).len() ==> feed_parts(
            fresh_parser(webtrans),
            parts.subrange(0, k),
        ) == (ParserView {
            events: seq![decode_message(tag, p, webtrans)],
            buffered: Seq::empty(),
            uses_web_transport: webtrans,
            no_more_data: false,
            parsing_error: false,
            processing: false,
        }),
    decreases k,
{
    let f = control_frame(tag, p);
    let e = decode_message(tag, p, webtrans);
    let empty = Seq::<u8>::empty();
    lemma_concat_prefix(parts, k);
    lemma_head_of_frame(tag, p, empty, webtrans);
    assert(f + empty =~= f);
    if k == 0 {
        assert(parts.subrange(0, 0) =~= Seq::<Seq<u8>>::empty());
        assert(concat_parts(parts.subrange(0, 0)) =~= empty);
        if f.len() == 0 {
            assert(false);
        }
    } else {
        let pk = parts.subrange(0, k);
        let prev = parts.subrange(0, k - 1);
        assert(pk.drop_last() =~= prev);
        assert(pk.last() == parts[k - 1]);
        law_delivery_in_parts(tag, p, parts, k - 1, webtrans);
        lemma_concat_prefix(parts, k - 1);
        let c0 = concat_parts(prev);
        let c1 = concat_parts(pk);
        let part = parts[k - 1];
        assert(c1 == c0 + part);
        assert(c0.len() <= c1.len());
        let s0 = feed_parts(fresh_parser(webtrans), prev);
        assert(feed_parts(fresh_parser(webtrans), pk) == data_step(s0, part, false));
        assert(after(f, f.len()) =~= empty);
        assert(run(after(f, f.len()), webtrans).events =~= Seq::<EventView>::empty());
        assert(seq![e] + Seq::<EventView>::empty() =~= seq![e]);
        assert(run(f, webtrans) == (RunResult { events: seq![e], rest: empty, failed: false }));
        if c0.len() < f.len() {
            assert(c0 + part == c1);
            if c1.len() < f.len() {
                if c1.len() > 0 {
                    assert(c1 =~= f.subrange(0, c1.len() as int));
                    lemma_prefix_incomplete(tag, p, c1.len(), webtrans);
                }
                assert(run(c1, webtrans) == (RunResult {
                    events: Seq::empty(),
                    rest: c1,
                    failed: false,
                }));
                assert(Seq::<EventView>::empty() + Seq::<EventView>::empty()
                    =~= Seq::<EventView>::empty());
            } else {
                assert(c1 =~= f);
                assert(Seq::<EventView>::empty() + seq![e] =~= seq![e]);
            }
        } else {
            assert(c0 =~= f);
            assert(part =~= empty);
            assert(empty + part =~= empty);
            assert(run(empty, webtrans).events =~= Seq::<EventView>::empty());
        }
    }
}

} // verus!
