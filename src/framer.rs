use vstd::prelude::*;
use crate::control::{
    FullTrackName, MoqtAnnounce, MoqtAnnounceCancel, MoqtAnnounceError, MoqtAnnounceOk,
    MoqtClientSetup, MoqtFetch, MoqtFetchCancel, MoqtFetchError, MoqtFetchOk, MoqtGoAway,
    MoqtMaxSubscribeId, MoqtObjectAck, MoqtServerSetup, MoqtSubscribe, MoqtSubscribeAnnounces,
    MoqtSubscribeAnnouncesError, MoqtSubscribeAnnouncesOk, MoqtSubscribeDone, MoqtSubscribeError,
    MoqtSubscribeOk, MoqtSubscribeParameters, MoqtSubscribeUpdate, MoqtTrackStatus,
    MoqtTrackStatusRequest, MoqtUnannounce, MoqtUnsubscribe, MoqtUnsubscribeAnnounces, ParamsView,
    SubscribeView,
};
use crate::messages::{
    MoqtDataStreamType, MoqtFilterType, MoqtMessageType, MoqtObject, MoqtObjectStatus, MoqtRole,
};
use crate::priority::MoqtDeliveryOrder;
use crate::varint::{encode_varint, VARINT62_MAX};
use crate::wire::{
    control_frame, delivery_order_byte, encode_int_param, encode_opt_int_param, encode_string_param,
    encode_strings, encode_tuple, opt_count, opt_vi_ok, shifted, shifted_ok, signed_form, str_ok,
    strings_ok, vi_ok,
};
use crate::wire_types::{WireBytes, WireType, WireVarInt62};
use crate::writer::{encode_string, DataWriter};

verus! {

/// Why a message could not be framed.
#[allow(non_camel_case_types)]
#[derive(Clone, Copy, Debug, PartialEq, Eq, Structural)]
pub enum FramerError {
    /// The message cannot be legally encoded.
    InvalidInput,
}

// ---------------------------------------------------------------------------
// Parameters and names
// ---------------------------------------------------------------------------

/// Number of parameters that `p` puts on the wire.
pub open spec fn params_count(p: ParamsView) -> nat {
    opt_count(p.authorization_info) + opt_count(p.delivery_timeout) + opt_count(
        p.max_cache_duration,
    ) + opt_count(p.object_ack_window)
}

/// Parameters on the wire: their count, the byte-string parameter, then the
/// integer parameters in key order.
#[verifier::opaque]
pub open spec fn encode_params(p: ParamsView) -> Seq<u8> {
    encode_varint(params_count(p) as u64) + match p.authorization_info {
        Some(b) => encode_string_param(2, b),
        None => Seq::empty(),
    } + encode_opt_int_param(3, p.delivery_timeout) + encode_opt_int_param(
        4,
        p.max_cache_duration,
    ) + encode_opt_int_param(0xbbf1439, p.object_ack_window)
}

pub open spec fn params_ok(p: ParamsView) -> bool {
    &&& match p.authorization_info {
        Some(b) => str_ok(b),
        None => true,
    }
    &&& opt_vi_ok(p.delivery_timeout)
    &&& opt_vi_ok(p.max_cache_duration)
    &&& opt_vi_ok(p.object_ack_window)
}

fn write_int_param(w: &mut DataWriter, key: u64, v: u64) -> (r: bool)
    requires
        vi_ok(key),
    ensures
        r == vi_ok(v),
        r ==> final(w)@ == old(w)@ + encode_int_param(key, v),
{
    let ghost start = w@;
    w.put_var_int62(key);
    let width = crate::varint::get_var_int62_len(v);
    if width == 0 {
        return false;
    }
    w.put_var_int62(width as u64);
    w.put_var_int62(v);
    assert(w@ =~= start + encode_int_param(key, v));
    true
}

fn write_opt_int_param(w: &mut DataWriter, key: u64, v: Option<u64>) -> (r: bool)
    requires
        vi_ok(key),
    ensures
        r == opt_vi_ok(v),
        r ==> final(w)@ == old(w)@ + encode_opt_int_param(key, v),
{
    match v {
        Some(x) => write_int_param(w, key, x),
        None => {
            assert(w@ =~= w@ + Seq::<u8>::empty());
            true
        },
    }
}

fn write_params(w: &mut DataWriter, p: &MoqtSubscribeParameters) -> (r: bool)
    ensures
        r == params_ok(p@),
        r ==> final(w)@ == old(w)@ + encode_params(p@),
{
    let ghost start = w@;
    let mut count: u64 = 0;
    if p.authorization_info.is_some() {
        count = count + 1;
    }
    if p.delivery_timeout.is_some() {
        count = count + 1;
    }
    if p.max_cache_duration.is_some() {
        count = count + 1;
    }
    if p.object_ack_window.is_some() {
        count = count + 1;
    }
    w.put_var_int62(count);
    let ghost w1 = w@;
    match &p.authorization_info {
        Some(b) => {
            w.put_var_int62(2);
            if !w.write_string_piece_var_int62(b.as_slice()) {
                return false;
            }
        },
        None => {},
    }
    let ghost w2 = w@;
    assert(w2 =~= w1 + match p@.authorization_info {
        Some(b) => encode_string_param(2, b),
        None => Seq::empty(),
    });
    if !write_opt_int_param(w, 3, p.delivery_timeout) {
        return false;
    }
    if !write_opt_int_param(w, 4, p.max_cache_duration) {
        return false;
    }
    if !write_opt_int_param(w, 0xbbf1439, p.object_ack_window) {
        return false;
    }
    assert(w@ =~= start + encode_params(p@)) by {
        reveal(encode_params);
    }
    true
}

pub open spec fn tuple_ok(t: Seq<Seq<u8>>) -> bool {
    t.len() <= VARINT62_MAX && strings_ok(t)
}

/// Writes every element of `name` after the count `count`.
fn write_tuple(w: &mut DataWriter, name: &FullTrackName, count: u64) -> (r: bool)
    requires
        count <= name@.len(),
    ensures
        r == tuple_ok(name@),
        r ==> final(w)@ == old(w)@ + encode_tuple(name@, count as nat),
{
    let ghost start = w@;
    if !w.write_var_int62(count) {
        return false;
    }
    let ghost w1 = w@;
    let n = name.tuple.len();
    if n as u64 > VARINT62_MAX {
        return false;
    }
    let mut i: usize = 0;
    while i < n
        invariant
            n == name@.len(),
            i <= n,
            forall|j: int| 0 <= j < i ==> str_ok(#[trigger] name@[j]),
            w@ == w1 + encode_strings(name@.subrange(0, i as int)),
        decreases n - i,
    {
        assert(name@[i as int] == name.tuple@[i as int]@);
        if !w.write_string_piece_var_int62(name.tuple[i].as_slice()) {
            return false;
        }
        proof {
            let s = name@.subrange(0, i + 1);
            assert(s.drop_last() =~= name@.subrange(0, i as int));
            assert(s.last() == name@[i as int]);
        }
        i = i + 1;
        assert(w@ =~= w1 + encode_strings(name@.subrange(0, i as int)));
    }
    assert(name@.subrange(0, n as int) =~= name@);
    assert(w@ =~= start + encode_tuple(name@, count as nat));
    true
}

/// The element count that a name puts before its elements: the namespace
/// count when the last element is the track name.
pub open spec fn name_count(t: Seq<Seq<u8>>, includes_name: bool) -> nat {
    if includes_name {
        (t.len() - 1) as nat
    } else {
        t.len()
    }
}

fn write_name(w: &mut DataWriter, name: &FullTrackName, includes_name: bool) -> (r: bool)
    ensures
        r == (tuple_ok(name@) && (includes_name ==> name@.len() > 0)),
        r ==> final(w)@ == old(w)@ + encode_tuple(name@, name_count(name@, includes_name)),
{
    let n = name.tuple.len();
    if includes_name {
        if n == 0 {
            return false;
        }
        write_tuple(w, name, (n - 1) as u64)
    } else {
        write_tuple(w, name, n as u64)
    }
}

fn write_order(w: &mut DataWriter, o: Option<MoqtDeliveryOrder>)
    ensures
        final(w)@ == old(w)@.push(delivery_order_byte(o)),
{
    let b: u8 = match o {
        None => 0,
        Some(MoqtDeliveryOrder::kAscending) => 1,
        Some(MoqtDeliveryOrder::kDescending) => 2,
    };
    w.write_uint8(b);
}

/// Frames `payload` as a control message of type `tag`, in two passes: the
/// length of the frame first, a buffer of that size next, then the bytes.
fn finish_control(tag: u64, payload: DataWriter) -> (r: Result<Vec<u8>, FramerError>)
    requires
        vi_ok(tag),
    ensures
        r is Ok == (payload@.len() <= VARINT62_MAX),
        r matches Ok(b) ==> b@ == control_frame(tag, payload@),
{
    let body = payload.into_bytes();
    if body.len() as u64 > VARINT62_MAX {
        return Err(FramerError::InvalidInput);
    }
    let tag_field = WireVarInt62(tag);
    let length_field = WireVarInt62(body.len() as u64);
    let body_field = WireBytes(body.as_slice());
    let size = tag_field.get_length_on_wire() + length_field.get_length_on_wire()
        + body_field.get_length_on_wire();
    let mut w = DataWriter::with_capacity(size as usize);
    tag_field.serialize_into_writer(&mut w);
    length_field.serialize_into_writer(&mut w);
    body_field.serialize_into_writer(&mut w);
    let out = w.into_bytes();
    assert(out@ =~= control_frame(tag, body@));
    assert(out@.len() == size);
    Ok(out)
}

/// Whether a control message with this payload can be framed.
pub open spec fn frame_ok(payload: Seq<u8>) -> bool {
    payload.len() <= VARINT62_MAX
}

// ---------------------------------------------------------------------------
// Filter of a SUBSCRIBE
// ---------------------------------------------------------------------------

/// The filter that the present start and end fields of a SUBSCRIBE select,
/// or `kNone` when they form no legal filter (an end object without end
/// group, an end before the start, a lone start object other than 0).
pub open spec fn filter_type_spec(m: SubscribeView) -> MoqtFilterType {
    if m.end_group is None && m.end_object is Some {
        MoqtFilterType::kNone
    } else if m.start_group is Some && m.start_object is Some {
        match m.end_group {
            Some(eg) => if eg < m.start_group->0 {
                MoqtFilterType::kNone
            } else if eg == m.start_group->0 && m.end_object is Some && m.end_object->0
                < m.start_object->0 {
                MoqtFilterType::kNone
            } else {
                MoqtFilterType::kAbsoluteRange
            },
            None => MoqtFilterType::kAbsoluteStart,
        }
    } else if m.start_group is None && m.end_group is None {
        match m.start_object {
            None => MoqtFilterType::kLatestObject,
            Some(so) => if so == 0 {
                MoqtFilterType::kLatestGroup
            } else {
                MoqtFilterType::kNone
            },
        }
    } else {
        MoqtFilterType::kNone
    }
}

/// Deduces the filter type from which start and end fields are present.
pub fn get_filter_type(message: &MoqtSubscribe) -> (r: MoqtFilterType)
    ensures
        r == filter_type_spec(message@),
{
    if message.end_group.is_none() && message.end_object.is_some() {
        return MoqtFilterType::kNone;
    }
    match (message.start_group, message.start_object) {
        (Some(sg), Some(so)) => match message.end_group {
            Some(eg) => {
                if eg < sg {
                    MoqtFilterType::kNone
                } else if eg == sg && message.end_object.is_some() && message.end_object.unwrap()
                    < so {
                    MoqtFilterType::kNone
                } else {
                    MoqtFilterType::kAbsoluteRange
                }
            },
            None => MoqtFilterType::kAbsoluteStart,
        },
        _ => {
            if message.start_group.is_none() && message.end_group.is_none() {
                match message.start_object {
                    None => MoqtFilterType::kLatestObject,
                    Some(so) => if so == 0 {
                        MoqtFilterType::kLatestGroup
                    } else {
                        MoqtFilterType::kNone
                    },
                }
            } else {
                MoqtFilterType::kNone
            }
        },
    }
}

// ---------------------------------------------------------------------------
// Payloads of the control messages
// ---------------------------------------------------------------------------

/// The range fields that a filter carries.
pub open spec fn subscribe_range(m: SubscribeView, f: MoqtFilterType) -> Seq<u8> {
    if f == MoqtFilterType::kAbsoluteStart {
        encode_varint(m.start_group->0) + encode_varint(m.start_object->0)
    } else if f == MoqtFilterType::kAbsoluteRange {
        encode_varint(m.start_group->0) + encode_varint(m.start_object->0) + encode_varint(
            m.end_group->0,
        ) + encode_varint(shifted(m.end_object))
    } else {
        Seq::empty()
    }
}

pub open spec fn subscribe_payload(m: SubscribeView) -> Seq<u8> {
    let f = filter_type_spec(m);
    encode_varint(m.subscribe_id) + encode_varint(m.track_alias) + encode_tuple(
        m.full_track_name,
        name_count(m.full_track_name, true),
    ) + seq![m.subscriber_priority, delivery_order_byte(m.group_order)] + encode_varint(
        f.spec_value(),
    ) + subscribe_range(m, f) + encode_params(m.parameters)
}

/// Whether a SUBSCRIBE can be framed: a legal filter, a named track, and
/// every field in range.
pub open spec fn subscribe_ok(m: SubscribeView) -> bool {
    let f = filter_type_spec(m);
    &&& f != MoqtFilterType::kNone
    &&& vi_ok(m.subscribe_id) && vi_ok(m.track_alias)
    &&& tuple_ok(m.full_track_name) && m.full_track_name.len() > 0
    &&& (f == MoqtFilterType::kAbsoluteStart || f == MoqtFilterType::kAbsoluteRange) ==> vi_ok(
        m.start_group->0,
    ) && vi_ok(m.start_object->0)
    &&& f == MoqtFilterType::kAbsoluteRange ==> vi_ok(m.end_group->0) && shifted_ok(m.end_object)
    &&& params_ok(m.parameters)
    &&& frame_ok(subscribe_payload(m))
}

pub open spec fn subscribe_ok_payload(m: crate::control::SubscribeOkView) -> Seq<u8> {
    encode_varint(m.subscribe_id) + encode_varint(m.expires) + seq![
        delivery_order_byte(Some(m.group_order)),
        if m.largest_id is Some {
            1u8
        } else {
            0u8
        },
    ] + match m.largest_id {
        Some((g, o)) => encode_varint(g) + encode_varint(o),
        None => Seq::empty(),
    } + encode_params(m.parameters)
}

pub open spec fn subscribe_ok_ok(m: crate::control::SubscribeOkView) -> bool {
    &&& m.parameters.authorization_info is None
    &&& vi_ok(m.subscribe_id) && vi_ok(m.expires)
    &&& match m.largest_id {
        Some((g, o)) => vi_ok(g) && vi_ok(o),
        None => true,
    }
    &&& params_ok(m.parameters)
    &&& frame_ok(subscribe_ok_payload(m))
}

pub open spec fn subscribe_error_payload(m: crate::control::SubscribeErrorView) -> Seq<u8> {
    encode_varint(m.subscribe_id) + encode_varint(m.error_code.spec_value()) + encode_string(
        m.reason_phrase,
    ) + encode_varint(m.track_alias)
}

pub open spec fn subscribe_error_ok(m: crate::control::SubscribeErrorView) -> bool {
    vi_ok(m.subscribe_id) && str_ok(m.reason_phrase) && vi_ok(m.track_alias) && frame_ok(
        subscribe_error_payload(m),
    )
}

pub open spec fn subscribe_done_payload(m: crate::control::SubscribeDoneView) -> Seq<u8> {
    encode_varint(m.subscribe_id) + encode_varint(m.status_code.spec_value()) + encode_string(
        m.reason_phrase,
    ) + seq![
        if m.final_id is Some {
            1u8
        } else {
            0u8
        },
    ] + match m.final_id {
        Some((g, o)) => encode_varint(g) + encode_varint(o),
        None => Seq::empty(),
    }
}

pub open spec fn subscribe_done_ok(m: crate::control::SubscribeDoneView) -> bool {
    &&& vi_ok(m.subscribe_id) && str_ok(m.reason_phrase)
    &&& match m.final_id {
        Some((g, o)) => vi_ok(g) && vi_ok(o),
        None => true,
    }
    &&& frame_ok(subscribe_done_payload(m))
}

pub open spec fn subscribe_update_payload(m: crate::control::SubscribeUpdateView) -> Seq<u8> {
    encode_varint(m.subscribe_id) + encode_varint(m.start_group) + encode_varint(m.start_object)
        + encode_varint(shifted(m.end_group)) + encode_varint(shifted(m.end_object)) + seq![
        m.subscriber_priority,
    ] + encode_params(m.parameters)
}

pub open spec fn subscribe_update_ok(m: crate::control::SubscribeUpdateView) -> bool {
    &&& m.parameters.authorization_info is None
    &&& !(m.end_group is None && m.end_object is Some)
    &&& vi_ok(m.subscribe_id) && vi_ok(m.start_group) && vi_ok(m.start_object)
    &&& shifted_ok(m.end_group) && shifted_ok(m.end_object)
    &&& params_ok(m.parameters)
    &&& frame_ok(subscribe_update_payload(m))
}

pub open spec fn namespace_params_payload(m: crate::control::NamespaceParamsView) -> Seq<u8> {
    encode_tuple(m.track_namespace, m.track_namespace.len()) + encode_params(m.parameters)
}

pub open spec fn namespace_params_ok(m: crate::control::NamespaceParamsView) -> bool {
    tuple_ok(m.track_namespace) && params_ok(m.parameters) && frame_ok(
        namespace_params_payload(m),
    )
}

pub open spec fn namespace_payload(ns: Seq<Seq<u8>>) -> Seq<u8> {
    encode_tuple(ns, ns.len())
}

pub open spec fn namespace_ok(ns: Seq<Seq<u8>>) -> bool {
    tuple_ok(ns) && frame_ok(namespace_payload(ns))
}

pub open spec fn namespace_error_payload(ns: Seq<Seq<u8>>, code: u64, reason: Seq<u8>) -> Seq<u8> {
    encode_tuple(ns, ns.len()) + encode_varint(code) + encode_string(reason)
}

pub open spec fn namespace_error_ok(ns: Seq<Seq<u8>>, code: u64, reason: Seq<u8>) -> bool {
    tuple_ok(ns) && str_ok(reason) && frame_ok(namespace_error_payload(ns, code, reason))
}

pub open spec fn track_name_payload(t: Seq<Seq<u8>>) -> Seq<u8> {
    encode_tuple(t, name_count(t, true))
}

pub open spec fn track_name_ok(t: Seq<Seq<u8>>) -> bool {
    tuple_ok(t) && t.len() > 0
}

pub open spec fn track_status_payload(m: crate::control::TrackStatusView) -> Seq<u8> {
    track_name_payload(m.full_track_name) + encode_varint(m.status_code.spec_value())
        + encode_varint(m.last_group) + encode_varint(m.last_object)
}

pub open spec fn track_status_ok(m: crate::control::TrackStatusView) -> bool {
    track_name_ok(m.full_track_name) && vi_ok(m.last_group) && vi_ok(m.last_object) && frame_ok(
        track_status_payload(m),
    )
}

pub open spec fn fetch_payload(m: crate::control::FetchView) -> Seq<u8> {
    encode_varint(m.subscribe_id) + track_name_payload(m.full_track_name) + seq![
        m.subscriber_priority,
        delivery_order_byte(m.group_order),
    ] + encode_varint(m.start_group) + encode_varint(m.start_object) + encode_varint(m.end_group)
        + encode_varint(shifted(m.end_object)) + encode_params(m.parameters)
}

/// Whether the end of a FETCH range comes before its start.
pub open spec fn fetch_range_inverted(m: crate::control::FetchView) -> bool {
    m.end_group < m.start_group || (m.end_group == m.start_group && m.end_object is Some
        && m.end_object->0 < m.start_object)
}

pub open spec fn fetch_ok(m: crate::control::FetchView) -> bool {
    &&& !fetch_range_inverted(m)
    &&& vi_ok(m.subscribe_id) && track_name_ok(m.full_track_name)
    &&& vi_ok(m.start_group) && vi_ok(m.start_object) && vi_ok(m.end_group)
    &&& shifted_ok(m.end_object)
    &&& params_ok(m.parameters)
    &&& frame_ok(fetch_payload(m))
}

pub open spec fn fetch_ok_payload(m: crate::control::FetchOkView) -> Seq<u8> {
    encode_varint(m.subscribe_id) + seq![delivery_order_byte(Some(m.group_order))]
        + encode_varint(m.largest_group) + encode_varint(m.largest_object) + encode_params(
        m.parameters,
    )
}

pub open spec fn fetch_ok_ok(m: crate::control::FetchOkView) -> bool {
    vi_ok(m.subscribe_id) && vi_ok(m.largest_group) && vi_ok(m.largest_object) && params_ok(
        m.parameters,
    ) && frame_ok(fetch_ok_payload(m))
}

pub open spec fn fetch_error_payload(m: crate::control::FetchErrorView) -> Seq<u8> {
    encode_varint(m.subscribe_id) + encode_varint(m.error_code.spec_value()) + encode_string(
        m.reason_phrase,
    )
}

pub open spec fn fetch_error_ok(m: crate::control::FetchErrorView) -> bool {
    vi_ok(m.subscribe_id) && str_ok(m.reason_phrase) && frame_ok(fetch_error_payload(m))
}

pub open spec fn object_ack_payload(m: MoqtObjectAck) -> Seq<u8> {
    encode_varint(m.subscribe_id) + encode_varint(m.group_id) + encode_varint(m.object_id)
        + encode_varint(signed_form(m.delta_from_deadline) as u64)
}

pub open spec fn object_ack_ok(m: MoqtObjectAck) -> bool {
    vi_ok(m.subscribe_id) && vi_ok(m.group_id) && vi_ok(m.object_id) && signed_form(
        m.delta_from_deadline,
    ) <= VARINT62_MAX
}

/// A list of varints, one after the other.
pub open spec fn encode_varints(s: Seq<u64>) -> Seq<u8>
    decreases s.len(),
{
    if s.len() == 0 {
        Seq::empty()
    } else {
        encode_varints(s.drop_last()) + encode_varint(s.last())
    }
}

/// The integer setup parameters in the order they are written: role,
/// MAX_SUBSCRIBE_ID, support for object acks.
pub open spec fn setup_int_params(
    role: Option<MoqtRole>,
    max_subscribe_id: Option<u64>,
    supports_object_ack: bool,
) -> Seq<u8> {
    (match role {
        Some(r) => encode_int_param(0, r.spec_value()),
        None => Seq::empty(),
    }) + encode_opt_int_param(2, max_subscribe_id) + (if supports_object_ack {
        encode_int_param(0xbbf1439, 1)
    } else {
        Seq::empty()
    })
}

pub open spec fn setup_int_count(
    role: Option<MoqtRole>,
    max_subscribe_id: Option<u64>,
    supports_object_ack: bool,
) -> nat {
    opt_count(role) + opt_count(max_subscribe_id) + if supports_object_ack {
        1nat
    } else {
        0nat
    }
}

/// The path that CLIENT_SETUP carries: none over WebTransport.
pub open spec fn client_path(m: crate::control::ClientSetupView, using_webtrans: bool) -> Option<
    Seq<u8>,
> {
    if using_webtrans {
        None
    } else {
        m.path
    }
}

pub open spec fn client_setup_payload(m: crate::control::ClientSetupView, using_webtrans: bool) -> Seq<
    u8,
> {
    let path = client_path(m, using_webtrans);
    encode_varint(m.supported_versions.len() as u64) + encode_varints(m.supported_versions)
        + encode_varint(
        (setup_int_count(m.role, m.max_subscribe_id, m.supports_object_ack) + opt_count(path)) as u64,
    ) + setup_int_params(m.role, m.max_subscribe_id, m.supports_object_ack) + match path {
        Some(p) => encode_string_param(1, p),
        None => Seq::empty(),
    }
}

pub open spec fn client_setup_ok(m: crate::control::ClientSetupView, using_webtrans: bool) -> bool {
    &&& m.supported_versions.len() <= VARINT62_MAX
    &&& forall|i: int|
        0 <= i < m.supported_versions.len() ==> vi_ok(#[trigger] m.supported_versions[i])
    &&& opt_vi_ok(m.max_subscribe_id)
    &&& match client_path(m, using_webtrans) {
        Some(p) => str_ok(p),
        None => true,
    }
    &&& frame_ok(client_setup_payload(m, using_webtrans))
}

pub open spec fn server_setup_payload(m: MoqtServerSetup) -> Seq<u8> {
    encode_varint(m.selected_version) + encode_varint(
        setup_int_count(m.role, m.max_subscribe_id, m.supports_object_ack) as u64,
    ) + setup_int_params(m.role, m.max_subscribe_id, m.supports_object_ack)
}

pub open spec fn server_setup_ok(m: MoqtServerSetup) -> bool {
    vi_ok(m.selected_version) && opt_vi_ok(m.max_subscribe_id)
}

// ---------------------------------------------------------------------------
// Objects
// ---------------------------------------------------------------------------

/// An object's metadata is consistent: a status other than normal comes
/// with an empty payload, and the subgroup id is present exactly on
/// subgroup and fetch streams.
pub open spec fn object_metadata_valid(o: MoqtObject, t: MoqtDataStreamType) -> bool {
    &&& !(o.object_status != MoqtObjectStatus::kNormal && o.payload_length > 0)
    &&& (t == MoqtDataStreamType::kStreamHeaderSubgroup || t
        == MoqtDataStreamType::kStreamHeaderFetch) == (o.subgroup_id is Some)
}

/// Payload length, and the status when the payload is empty.
pub open spec fn object_tail(o: MoqtObject) -> Seq<u8> {
    encode_varint(o.payload_length) + if o.payload_length == 0 {
        encode_varint(o.object_status.spec_value())
    } else {
        Seq::empty()
    }
}

/// The header of an object on a stream of type `t`, with the stream header
/// when it is the first object on the stream.
pub open spec fn object_header_bytes(o: MoqtObject, t: MoqtDataStreamType, first: bool) -> Seq<
    u8,
> {
    let sub = o.subgroup_id->0;
    if t == MoqtDataStreamType::kStreamHeaderSubgroup {
        if first {
            encode_varint(t.spec_value()) + encode_varint(o.track_alias) + encode_varint(o.group_id)
                + encode_varint(sub) + seq![o.publisher_priority] + encode_varint(o.object_id)
                + object_tail(o)
        } else {
            encode_varint(o.object_id) + object_tail(o)
        }
    } else {
        if first {
            encode_varint(t.spec_value()) + encode_varint(o.track_alias) + encode_varint(o.group_id)
                + encode_varint(sub) + encode_varint(o.object_id) + seq![o.publisher_priority]
                + object_tail(o)
        } else {
            encode_varint(o.group_id) + encode_varint(sub) + encode_varint(o.object_id) + seq![
                o.publisher_priority,
            ] + object_tail(o)
        }
    }
}

pub open spec fn object_fields_ok(o: MoqtObject) -> bool {
    &&& vi_ok(o.track_alias) && vi_ok(o.group_id) && vi_ok(o.object_id)
    &&& vi_ok(o.payload_length)
    &&& opt_vi_ok(o.subgroup_id)
}

pub open spec fn object_datagram_bytes(o: MoqtObject, payload: Seq<u8>) -> Seq<u8> {
    encode_varint(1) + encode_varint(o.track_alias) + encode_varint(o.group_id) + encode_varint(
        o.object_id,
    ) + seq![o.publisher_priority] + encode_varint(o.payload_length) + if o.payload_length == 0 {
        encode_varint(o.object_status.spec_value())
    } else {
        payload
    }
}

/// Turns a signed value into its varint form: the magnitude shifted up by
/// one, the sign in the lowest bit.
pub fn signed_var_int_serialized_form(value: i64) -> (r: u64)
    requires
        signed_form(value) <= u64::MAX,
    ensures
        r as int == signed_form(value),
{
    if value < 0 {
        let mag: u64 = (0 - (value as i128)) as u64;
        mag * 2 + 1
    } else {
        (value as u64) * 2
    }
}

/// Turns message values into their wire images. The framer checks that each
/// message can be encoded, not that messages come in a sensible order.
#[derive(Clone, Copy, Debug, PartialEq, Eq, Structural)]
pub struct MoqtFramer {
    pub using_webtrans: bool,
}

impl MoqtFramer {
    pub fn new(using_webtrans: bool) -> (r: Self)
        ensures
            r.using_webtrans == using_webtrans,
    {
        MoqtFramer { using_webtrans }
    }

    /// Whether an object's metadata suits a stream of type `message_type`.
    pub fn validate_object_metadata(object: &MoqtObject, message_type: MoqtDataStreamType) -> (r:
        bool)
        ensures
            r == object_metadata_valid(*object, message_type),
    {
        if object.object_status != MoqtObjectStatus::kNormal && object.payload_length > 0 {
            return false;
        }
        let on_stream = message_type == MoqtDataStreamType::kStreamHeaderSubgroup || message_type
            == MoqtDataStreamType::kStreamHeaderFetch;
        on_stream == object.subgroup_id.is_some()
    }

    fn write_object_tail(w: &mut DataWriter, o: &MoqtObject)
        requires
            vi_ok(o.payload_length),
        ensures
            final(w)@ == old(w)@ + object_tail(*o),
    {
        let ghost start = w@;
        w.put_var_int62(o.payload_length);
        if o.payload_length == 0 {
            w.put_var_int62(o.object_status.value());
        }
        assert(w@ =~= start + object_tail(*o));
    }

    /// The header of an object on a subgroup or fetch stream, preceded by
    /// the stream header when the object is the first on its stream.
    pub fn serialize_object_header(
        &self,
        message: &MoqtObject,
        message_type: MoqtDataStreamType,
        is_first_in_stream: bool,
    ) -> (r: Result<Vec<u8>, FramerError>)
        ensures
            r is Ok == (object_metadata_valid(*message, message_type) && (message_type
                == MoqtDataStreamType::kStreamHeaderSubgroup || message_type
                == MoqtDataStreamType::kStreamHeaderFetch) && object_fields_ok(*message)),
            r matches Ok(b) ==> b@ == object_header_bytes(
                *message,
                message_type,
                is_first_in_stream,
            ),
    {
        if !Self::validate_object_metadata(message, message_type) {
            return Err(FramerError::InvalidInput);
        }
        if !(message_type == MoqtDataStreamType::kStreamHeaderSubgroup || message_type
            == MoqtDataStreamType::kStreamHeaderFetch) {
            return Err(FramerError::InvalidInput);
        }
        if message.track_alias > VARINT62_MAX || message.group_id > VARINT62_MAX
            || message.object_id > VARINT62_MAX || message.payload_length > VARINT62_MAX {
            return Err(FramerError::InvalidInput);
        }
        let sub = match message.subgroup_id {
            Some(s) => s,
            None => return Err(FramerError::InvalidInput),
        };
        if sub > VARINT62_MAX {
            return Err(FramerError::InvalidInput);
        }
        let mut w = DataWriter::new();
        let ghost start = w@;
        if message_type == MoqtDataStreamType::kStreamHeaderSubgroup {
            if is_first_in_stream {
                w.put_var_int62(message_type.value());
                w.put_var_int62(message.track_alias);
                w.put_var_int62(message.group_id);
                w.put_var_int62(sub);
                w.write_uint8(message.publisher_priority);
            }
            w.put_var_int62(message.object_id);
            Self::write_object_tail(&mut w, message);
        } else {
            if is_first_in_stream {
                w.put_var_int62(message_type.value());
                w.put_var_int62(message.track_alias);
            }
            w.put_var_int62(message.group_id);
            w.put_var_int62(sub);
            w.put_var_int62(message.object_id);
            w.write_uint8(message.publisher_priority);
            Self::write_object_tail(&mut w, message);
        }
        let out = w.into_bytes();
        assert(out@ =~= object_header_bytes(*message, message_type, is_first_in_stream));
        Ok(out)
    }

    /// A whole object in one datagram: header, then payload.
    pub fn serialize_object_datagram(&self, message: &MoqtObject, payload: &[u8]) -> (r: Result<
        Vec<u8>,
        FramerError,
    >)
        ensures
            r is Ok == (object_metadata_valid(*message, MoqtDataStreamType::kObjectDatagram)
                && message.payload_length == payload@.len() && vi_ok(message.track_alias) && vi_ok(
                message.group_id,
            ) && vi_ok(message.object_id) && vi_ok(message.payload_length)),
            r matches Ok(b) ==> b@ == object_datagram_bytes(*message, payload@),
    {
        if !Self::validate_object_metadata(message, MoqtDataStreamType::kObjectDatagram) {
            return Err(FramerError::InvalidInput);
        }
        if message.payload_length != payload.len() as u64 {
            return Err(FramerError::InvalidInput);
        }
        if message.track_alias > VARINT62_MAX || message.group_id > VARINT62_MAX
            || message.object_id > VARINT62_MAX || message.payload_length > VARINT62_MAX {
            return Err(FramerError::InvalidInput);
        }
        let mut w = DataWriter::new();
        let ghost start = w@;
        w.put_var_int62(1);
        w.put_var_int62(message.track_alias);
        w.put_var_int62(message.group_id);
        w.put_var_int62(message.object_id);
        w.write_uint8(message.publisher_priority);
        w.put_var_int62(message.payload_length);
        if message.payload_length == 0 {
            w.put_var_int62(message.object_status.value());
        } else {
            w.write_bytes(payload);
        }
        let out = w.into_bytes();
        assert(out@ =~= object_datagram_bytes(*message, payload@));
        Ok(out)
    }

    pub fn serialize_unsubscribe(&self, message: &MoqtUnsubscribe) -> (r: Result<
        Vec<u8>,
        FramerError,
    >)
        ensures
            r is Ok == vi_ok(message.subscribe_id),
            r matches Ok(b) ==> b@ == control_frame(0x0a, encode_varint(message.subscribe_id)),
    {
        let mut w = DataWriter::new();
        if !w.write_var_int62(message.subscribe_id) {
            return Err(FramerError::InvalidInput);
        }
        assert(w@ =~= encode_varint(message.subscribe_id));
        finish_control(MoqtMessageType::kUnsubscribe.value(), w)
    }

    pub fn serialize_fetch_cancel(&self, message: &MoqtFetchCancel) -> (r: Result<
        Vec<u8>,
        FramerError,
    >)
        ensures
            r is Ok == vi_ok(message.subscribe_id),
            r matches Ok(b) ==> b@ == control_frame(0x17, encode_varint(message.subscribe_id)),
    {
        let mut w = DataWriter::new();
        if !w.write_var_int62(message.subscribe_id) {
            return Err(FramerError::InvalidInput);
        }
        assert(w@ =~= encode_varint(message.subscribe_id));
        finish_control(MoqtMessageType::kFetchCancel.value(), w)
    }

    pub fn serialize_max_subscribe_id(&self, message: &MoqtMaxSubscribeId) -> (r: Result<
        Vec<u8>,
        FramerError,
    >)
        ensures
            r is Ok == vi_ok(message.max_subscribe_id),
            r matches Ok(b) ==> b@ == control_frame(0x15, encode_varint(message.max_subscribe_id)),
    {
        let mut w = DataWriter::new();
        if !w.write_var_int62(message.max_subscribe_id) {
            return Err(FramerError::InvalidInput);
        }
        assert(w@ =~= encode_varint(message.max_subscribe_id));
        finish_control(MoqtMessageType::kMaxSubscribeId.value(), w)
    }

    pub fn serialize_go_away(&self, message: &MoqtGoAway) -> (r: Result<Vec<u8>, FramerError>)
        ensures
            r is Ok == (str_ok(message.new_session_uri@) && frame_ok(
                encode_string(message.new_session_uri@),
            )),
            r matches Ok(b) ==> b@ == control_frame(0x10, encode_string(message.new_session_uri@)),
    {
        let mut w = DataWriter::new();
        if !w.write_string_piece_var_int62(message.new_session_uri.as_slice()) {
            return Err(FramerError::InvalidInput);
        }
        assert(w@ =~= encode_string(message.new_session_uri@));
        finish_control(MoqtMessageType::kGoAway.value(), w)
    }

    pub fn serialize_object_ack(&self, message: &MoqtObjectAck) -> (r: Result<
        Vec<u8>,
        FramerError,
    >)
        ensures
            r is Ok == object_ack_ok(*message),
            r matches Ok(b) ==> b@ == control_frame(0x3184, object_ack_payload(*message)),
    {
        if message.delta_from_deadline < -0x1fff_ffff_ffff_ffff || message.delta_from_deadline
            > 0x1fff_ffff_ffff_ffff {
            return Err(FramerError::InvalidInput);
        }
        let mut w = DataWriter::new();
        if !w.write_var_int62(message.subscribe_id) {
            return Err(FramerError::InvalidInput);
        }
        if !w.write_var_int62(message.group_id) {
            return Err(FramerError::InvalidInput);
        }
        if !w.write_var_int62(message.object_id) {
            return Err(FramerError::InvalidInput);
        }
        w.put_var_int62(signed_var_int_serialized_form(message.delta_from_deadline));
        assert(w@ =~= object_ack_payload(*message));
        finish_control(MoqtMessageType::kObjectAck.value(), w)
    }

    pub fn serialize_subscribe_error(&self, message: &MoqtSubscribeError) -> (r: Result<
        Vec<u8>,
        FramerError,
    >)
        ensures
            r is Ok == subscribe_error_ok(message@),
            r matches Ok(b) ==> b@ == control_frame(0x05, subscribe_error_payload(message@)),
    {
        let mut w = DataWriter::new();
        if !w.write_var_int62(message.subscribe_id) {
            return Err(FramerError::InvalidInput);
        }
        w.put_var_int62(message.error_code.value());
        if !w.write_string_piece_var_int62(message.reason_phrase.as_slice()) {
            return Err(FramerError::InvalidInput);
        }
        if !w.write_var_int62(message.track_alias) {
            return Err(FramerError::InvalidInput);
        }
        assert(w@ =~= subscribe_error_payload(message@));
        finish_control(MoqtMessageType::kSubscribeError.value(), w)
    }

    pub fn serialize_fetch_error(&self, message: &MoqtFetchError) -> (r: Result<
        Vec<u8>,
        FramerError,
    >)
        ensures
            r is Ok == fetch_error_ok(message@),
            r matches Ok(b) ==> b@ == control_frame(0x19, fetch_error_payload(message@)),
    {
        let mut w = DataWriter::new();
        if !w.write_var_int62(message.subscribe_id) {
            return Err(FramerError::InvalidInput);
        }
        w.put_var_int62(message.error_code.value());
        if !w.write_string_piece_var_int62(message.reason_phrase.as_slice()) {
            return Err(FramerError::InvalidInput);
        }
        assert(w@ =~= fetch_error_payload(message@));
        finish_control(MoqtMessageType::kFetchError.value(), w)
    }

    pub fn serialize_subscribe_done(&self, message: &MoqtSubscribeDone) -> (r: Result<
        Vec<u8>,
        FramerError,
    >)
        ensures
            r is Ok == subscribe_done_ok(message@),
            r matches Ok(b) ==> b@ == control_frame(0x0b, subscribe_done_payload(message@)),
    {
        let mut w = DataWriter::new();
        if !w.write_var_int62(message.subscribe_id) {
            return Err(FramerError::InvalidInput);
        }
        w.put_var_int62(message.status_code.value());
        if !w.write_string_piece_var_int62(message.reason_phrase.as_slice()) {
            return Err(FramerError::InvalidInput);
        }
        match message.final_id {
            Some(f) => {
                w.write_uint8(1);
                if !w.write_var_int62(f.group) {
                    return Err(FramerError::InvalidInput);
                }
                if !w.write_var_int62(f.object) {
                    return Err(FramerError::InvalidInput);
                }
            },
            None => {
                w.write_uint8(0);
            },
        }
        assert(w@ =~= subscribe_done_payload(message@));
        finish_control(MoqtMessageType::kSubscribeDone.value(), w)
    }

    pub fn serialize_subscribe_ok(&self, message: &MoqtSubscribeOk) -> (r: Result<
        Vec<u8>,
        FramerError,
    >)
        ensures
            r is Ok == subscribe_ok_ok(message@),
            r matches Ok(b) ==> b@ == control_frame(0x04, subscribe_ok_payload(message@)),
    {
        if message.parameters.authorization_info.is_some() {
            return Err(FramerError::InvalidInput);
        }
        let mut w = DataWriter::new();
        if !w.write_var_int62(message.subscribe_id) {
            return Err(FramerError::InvalidInput);
        }
        if !w.write_var_int62(message.expires) {
            return Err(FramerError::InvalidInput);
        }
        write_order(&mut w, Some(message.group_order));
        match message.largest_id {
            Some(f) => {
                w.write_uint8(1);
                if !w.write_var_int62(f.group) {
                    return Err(FramerError::InvalidInput);
                }
                if !w.write_var_int62(f.object) {
                    return Err(FramerError::InvalidInput);
                }
            },
            None => {
                w.write_uint8(0);
            },
        }
        if !write_params(&mut w, &message.parameters) {
            return Err(FramerError::InvalidInput);
        }
        assert(w@ =~= subscribe_ok_payload(message@));
        finish_control(MoqtMessageType::kSubscribeOk.value(), w)
    }

    pub fn serialize_subscribe_update(&self, message: &MoqtSubscribeUpdate) -> (r: Result<
        Vec<u8>,
        FramerError,
    >)
        ensures
            r is Ok == subscribe_update_ok(message@),
            r matches Ok(b) ==> b@ == control_frame(0x02, subscribe_update_payload(message@)),
    {
        if message.parameters.authorization_info.is_some() {
            return Err(FramerError::InvalidInput);
        }
        if message.end_group.is_none() && message.end_object.is_some() {
            return Err(FramerError::InvalidInput);
        }
        let end_group = match message.end_group {
            Some(g) => {
                if g >= VARINT62_MAX {
                    return Err(FramerError::InvalidInput);
                }
                g + 1
            },
            None => 0,
        };
        let end_object = match message.end_object {
            Some(o) => {
                if o >= VARINT62_MAX {
                    return Err(FramerError::InvalidInput);
                }
                o + 1
            },
            None => 0,
        };
        let mut w = DataWriter::new();
        if !w.write_var_int62(message.subscribe_id) {
            return Err(FramerError::InvalidInput);
        }
        if !w.write_var_int62(message.start_group) {
            return Err(FramerError::InvalidInput);
        }
        if !w.write_var_int62(message.start_object) {
            return Err(FramerError::InvalidInput);
        }
        w.put_var_int62(end_group);
        w.put_var_int62(end_object);
        w.write_uint8(message.subscriber_priority);
        if !write_params(&mut w, &message.parameters) {
            return Err(FramerError::InvalidInput);
        }
        assert(w@ =~= subscribe_update_payload(message@));
        finish_control(MoqtMessageType::kSubscribeUpdate.value(), w)
    }

    pub fn serialize_subscribe(&self, message: &MoqtSubscribe) -> (r: Result<
        Vec<u8>,
        FramerError,
    >)
        ensures
            r is Ok == subscribe_ok(message@),
            r matches Ok(b) ==> b@ == control_frame(0x03, subscribe_payload(message@)),
    {
        let filter_type = get_filter_type(message);
        if filter_type == MoqtFilterType::kNone {
            return Err(FramerError::InvalidInput);
        }
        let mut w = DataWriter::new();
        if !w.write_var_int62(message.subscribe_id) {
            return Err(FramerError::InvalidInput);
        }
        if !w.write_var_int62(message.track_alias) {
            return Err(FramerError::InvalidInput);
        }
        if !write_name(&mut w, &message.full_track_name, true) {
            return Err(FramerError::InvalidInput);
        }
        w.write_uint8(message.subscriber_priority);
        write_order(&mut w, message.group_order);
        w.put_var_int62(filter_type.value());
        let ghost before_range = w@;
        if filter_type == MoqtFilterType::kAbsoluteStart || filter_type
            == MoqtFilterType::kAbsoluteRange {
            if !w.write_var_int62(message.start_group.unwrap()) {
                return Err(FramerError::InvalidInput);
            }
            if !w.write_var_int62(message.start_object.unwrap()) {
                return Err(FramerError::InvalidInput);
            }
            if filter_type == MoqtFilterType::kAbsoluteRange {
                if !w.write_var_int62(message.end_group.unwrap()) {
                    return Err(FramerError::InvalidInput);
                }
                let end_object = match message.end_object {
                    Some(o) => {
                        if o >= VARINT62_MAX {
                            return Err(FramerError::InvalidInput);
                        }
                        o + 1
                    },
                    None => 0,
                };
                w.put_var_int62(end_object);
            }
        }
        assert(w@ =~= before_range + subscribe_range(message@, filter_type));
        if !write_params(&mut w, &message.parameters) {
            return Err(FramerError::InvalidInput);
        }
        assert(w@ =~= subscribe_payload(message@));
        finish_control(MoqtMessageType::kSubscribe.value(), w)
    }

    pub fn serialize_announce(&self, message: &MoqtAnnounce) -> (r: Result<Vec<u8>, FramerError>)
        ensures
            r is Ok == (message.parameters.delivery_timeout is None && namespace_params_ok(
                message@,
            )),
            r matches Ok(b) ==> b@ == control_frame(0x06, namespace_params_payload(message@)),
    {
        if message.parameters.delivery_timeout.is_some() {
            return Err(FramerError::InvalidInput);
        }
        let mut w = DataWriter::new();
        if !write_name(&mut w, &message.track_namespace, false) {
            return Err(FramerError::InvalidInput);
        }
        if !write_params(&mut w, &message.parameters) {
            return Err(FramerError::InvalidInput);
        }
        assert(w@ =~= namespace_params_payload(message@));
        finish_control(MoqtMessageType::kAnnounce.value(), w)
    }

    pub fn serialize_subscribe_announces(&self, message: &MoqtSubscribeAnnounces) -> (r: Result<
        Vec<u8>,
        FramerError,
    >)
        ensures
            r is Ok == namespace_params_ok(message@),
            r matches Ok(b) ==> b@ == control_frame(0x11, namespace_params_payload(message@)),
    {
        let mut w = DataWriter::new();
        if !write_name(&mut w, &message.track_namespace, false) {
            return Err(FramerError::InvalidInput);
        }
        if !write_params(&mut w, &message.parameters) {
            return Err(FramerError::InvalidInput);
        }
        assert(w@ =~= namespace_params_payload(message@));
        finish_control(MoqtMessageType::kSubscribeAnnounces.value(), w)
    }

    fn serialize_namespace(tag: MoqtMessageType, ns: &FullTrackName) -> (r: Result<
        Vec<u8>,
        FramerError,
    >)
        ensures
            r is Ok == namespace_ok(ns@),
            r matches Ok(b) ==> b@ == control_frame(tag.spec_value(), namespace_payload(ns@)),
    {
        let mut w = DataWriter::new();
        if !write_name(&mut w, ns, false) {
            return Err(FramerError::InvalidInput);
        }
        assert(w@ =~= namespace_payload(ns@));
        finish_control(tag.value(), w)
    }

    pub fn serialize_announce_ok(&self, message: &MoqtAnnounceOk) -> (r: Result<
        Vec<u8>,
        FramerError,
    >)
        ensures
            r is Ok == namespace_ok(message.track_namespace@),
            r matches Ok(b) ==> b@ == control_frame(
                0x07,
                namespace_payload(message.track_namespace@),
            ),
    {
        Self::serialize_namespace(MoqtMessageType::kAnnounceOk, &message.track_namespace)
    }

    pub fn serialize_unannounce(&self, message: &MoqtUnannounce) -> (r: Result<
        Vec<u8>,
        FramerError,
    >)
        ensures
            r is Ok == namespace_ok(message.track_namespace@),
            r matches Ok(b) ==> b@ == control_frame(
                0x09,
                namespace_payload(message.track_namespace@),
            ),
    {
        Self::serialize_namespace(MoqtMessageType::kUnannounce, &message.track_namespace)
    }

    pub fn serialize_subscribe_announces_ok(&self, message: &MoqtSubscribeAnnouncesOk) -> (r:
        Result<Vec<u8>, FramerError>)
        ensures
            r is Ok == namespace_ok(message.track_namespace@),
            r matches Ok(b) ==> b@ == control_frame(
                0x12,
                namespace_payload(message.track_namespace@),
            ),
    {
        Self::serialize_namespace(MoqtMessageType::kSubscribeAnnouncesOk, &message.track_namespace)
    }

    pub fn serialize_unsubscribe_announces(&self, message: &MoqtUnsubscribeAnnounces) -> (r:
        Result<Vec<u8>, FramerError>)
        ensures
            r is Ok == namespace_ok(message.track_namespace@),
            r matches Ok(b) ==> b@ == control_frame(
                0x14,
                namespace_payload(message.track_namespace@),
            ),
    {
        Self::serialize_namespace(MoqtMessageType::kUnsubscribeAnnounces, &message.track_namespace)
    }

    fn serialize_namespace_error(
        tag: MoqtMessageType,
        ns: &FullTrackName,
        code: u64,
        reason: &Vec<u8>,
    ) -> (r: Result<Vec<u8>, FramerError>)
        requires
            vi_ok(code),
        ensures
            r is Ok == namespace_error_ok(ns@, code, reason@),
            r matches Ok(b) ==> b@ == control_frame(
                tag.spec_value(),
                namespace_error_payload(ns@, code, reason@),
            ),
    {
        let mut w = DataWriter::new();
        if !write_name(&mut w, ns, false) {
            return Err(FramerError::InvalidInput);
        }
        w.put_var_int62(code);
        if !w.write_string_piece_var_int62(reason.as_slice()) {
            return Err(FramerError::InvalidInput);
        }
        assert(w@ =~= namespace_error_payload(ns@, code, reason@));
        finish_control(tag.value(), w)
    }

    pub fn serialize_announce_error(&self, message: &MoqtAnnounceError) -> (r: Result<
        Vec<u8>,
        FramerError,
    >)
        ensures
            r is Ok == namespace_error_ok(
                message.track_namespace@,
                message.error_code.spec_value(),
                message.reason_phrase@,
            ),
            r matches Ok(b) ==> b@ == control_frame(
                0x08,
                namespace_error_payload(
                    message.track_namespace@,
                    message.error_code.spec_value(),
                    message.reason_phrase@,
                ),
            ),
    {
        Self::serialize_namespace_error(
            MoqtMessageType::kAnnounceError,
            &message.track_namespace,
            message.error_code.value(),
            &message.reason_phrase,
        )
    }

    pub fn serialize_announce_cancel(&self, message: &MoqtAnnounceCancel) -> (r: Result<
        Vec<u8>,
        FramerError,
    >)
        ensures
            r is Ok == namespace_error_ok(
                message.track_namespace@,
                message.error_code.spec_value(),
                message.reason_phrase@,
            ),
            r matches Ok(b) ==> b@ == control_frame(
                0x0c,
                namespace_error_payload(
                    message.track_namespace@,
                    message.error_code.spec_value(),
                    message.reason_phrase@,
                ),
            ),
    {
        Self::serialize_namespace_error(
            MoqtMessageType::kAnnounceCancel,
            &message.track_namespace,
            message.error_code.value(),
            &message.reason_phrase,
        )
    }

    pub fn serialize_subscribe_announces_error(
        &self,
        message: &MoqtSubscribeAnnouncesError,
    ) -> (r: Result<Vec<u8>, FramerError>)
        ensures
            r is Ok == namespace_error_ok(
                message.track_namespace@,
                message.error_code.spec_value(),
                message.reason_phrase@,
            ),
            r matches Ok(b) ==> b@ == control_frame(
                0x13,
                namespace_error_payload(
                    message.track_namespace@,
                    message.error_code.spec_value(),
                    message.reason_phrase@,
                ),
            ),
    {
        Self::serialize_namespace_error(
            MoqtMessageType::kSubscribeAnnouncesError,
            &message.track_namespace,
            message.error_code.value(),
            &message.reason_phrase,
        )
    }

    pub fn serialize_track_status_request(&self, message: &MoqtTrackStatusRequest) -> (r: Result<
        Vec<u8>,
        FramerError,
    >)
        ensures
            r is Ok == (track_name_ok(message.full_track_name@) && frame_ok(
                track_name_payload(message.full_track_name@),
            )),
            r matches Ok(b) ==> b@ == control_frame(
                0x0d,
                track_name_payload(message.full_track_name@),
            ),
    {
        let mut w = DataWriter::new();
        if !write_name(&mut w, &message.full_track_name, true) {
            return Err(FramerError::InvalidInput);
        }
        finish_control(MoqtMessageType::kTrackStatusRequest.value(), w)
    }

    pub fn serialize_track_status(&self, message: &MoqtTrackStatus) -> (r: Result<
        Vec<u8>,
        FramerError,
    >)
        ensures
            r is Ok == track_status_ok(message@),
            r matches Ok(b) ==> b@ == control_frame(0x0e, track_status_payload(message@)),
    {
        let mut w = DataWriter::new();
        if !write_name(&mut w, &message.full_track_name, true) {
            return Err(FramerError::InvalidInput);
        }
        w.put_var_int62(message.status_code.value());
        if !w.write_var_int62(message.last_group) {
            return Err(FramerError::InvalidInput);
        }
        if !w.write_var_int62(message.last_object) {
            return Err(FramerError::InvalidInput);
        }
        assert(w@ =~= track_status_payload(message@));
        finish_control(MoqtMessageType::kTrackStatus.value(), w)
    }

    pub fn serialize_fetch(&self, message: &MoqtFetch) -> (r: Result<Vec<u8>, FramerError>)
        ensures
            r is Ok == fetch_ok(message@),
            r matches Ok(b) ==> b@ == control_frame(0x16, fetch_payload(message@)),
    {
        let start = message.start_object;
        if message.end_group < start.group || (message.end_group == start.group
            && message.end_object.is_some() && message.end_object.unwrap() < start.object) {
            return Err(FramerError::InvalidInput);
        }
        let end_object = match message.end_object {
            Some(o) => {
                if o >= VARINT62_MAX {
                    return Err(FramerError::InvalidInput);
                }
                o + 1
            },
            None => 0,
        };
        let mut w = DataWriter::new();
        if !w.write_var_int62(message.subscribe_id) {
            return Err(FramerError::InvalidInput);
        }
        if !write_name(&mut w, &message.full_track_name, true) {
            return Err(FramerError::InvalidInput);
        }
        w.write_uint8(message.subscriber_priority);
        write_order(&mut w, message.group_order);
        if !w.write_var_int62(start.group) {
            return Err(FramerError::InvalidInput);
        }
        if !w.write_var_int62(start.object) {
            return Err(FramerError::InvalidInput);
        }
        if !w.write_var_int62(message.end_group) {
            return Err(FramerError::InvalidInput);
        }
        w.put_var_int62(end_object);
        if !write_params(&mut w, &message.parameters) {
            return Err(FramerError::InvalidInput);
        }
        assert(w@ =~= fetch_payload(message@));
        finish_control(MoqtMessageType::kFetch.value(), w)
    }

    pub fn serialize_fetch_ok(&self, message: &MoqtFetchOk) -> (r: Result<Vec<u8>, FramerError>)
        ensures
            r is Ok == fetch_ok_ok(message@),
            r matches Ok(b) ==> b@ == control_frame(0x18, fetch_ok_payload(message@)),
    {
        let mut w = DataWriter::new();
        if !w.write_var_int62(message.subscribe_id) {
            return Err(FramerError::InvalidInput);
        }
        write_order(&mut w, Some(message.group_order));
        if !w.write_var_int62(message.largest_id.group) {
            return Err(FramerError::InvalidInput);
        }
        if !w.write_var_int62(message.largest_id.object) {
            return Err(FramerError::InvalidInput);
        }
        if !write_params(&mut w, &message.parameters) {
            return Err(FramerError::InvalidInput);
        }
        assert(w@ =~= fetch_ok_payload(message@));
        finish_control(MoqtMessageType::kFetchOk.value(), w)
    }

    fn write_setup_int_params(
        w: &mut DataWriter,
        role: Option<MoqtRole>,
        max_subscribe_id: Option<u64>,
        supports_object_ack: bool,
    ) -> (r: bool)
        ensures
            r == opt_vi_ok(max_subscribe_id),
            r ==> final(w)@ == old(w)@ + setup_int_params(
                role,
                max_subscribe_id,
                supports_object_ack,
            ),
    {
        let ghost start = w@;
        match role {
            Some(ro) => {
                let _ = write_int_param(w, 0, ro.value());
            },
            None => {},
        }
        let ghost w1 = w@;
        assert(w1 =~= start + match role {
            Some(r) => encode_int_param(0, r.spec_value()),
            None => Seq::empty(),
        });
        if !write_opt_int_param(w, 2, max_subscribe_id) {
            return false;
        }
        let ghost w2 = w@;
        if supports_object_ack {
            let _ = write_int_param(w, 0xbbf1439, 1);
        }
        assert(w@ =~= w2 + if supports_object_ack {
            encode_int_param(0xbbf1439, 1)
        } else {
            Seq::empty()
        });
        assert(w@ =~= start + setup_int_params(role, max_subscribe_id, supports_object_ack));
        true
    }

    pub fn serialize_server_setup(&self, message: &MoqtServerSetup) -> (r: Result<
        Vec<u8>,
        FramerError,
    >)
        ensures
            r is Ok == (server_setup_ok(*message) && frame_ok(server_setup_payload(*message))),
            r matches Ok(b) ==> b@ == control_frame(0x41, server_setup_payload(*message)),
    {
        let mut w = DataWriter::new();
        if !w.write_var_int62(message.selected_version) {
            return Err(FramerError::InvalidInput);
        }
        let mut count: u64 = 0;
        if message.role.is_some() {
            count = count + 1;
        }
        if message.max_subscribe_id.is_some() {
            count = count + 1;
        }
        if message.supports_object_ack {
            count = count + 1;
        }
        w.put_var_int62(count);
        if !Self::write_setup_int_params(
            &mut w,
            message.role,
            message.max_subscribe_id,
            message.supports_object_ack,
        ) {
            return Err(FramerError::InvalidInput);
        }
        assert(w@ =~= server_setup_payload(*message));
        finish_control(MoqtMessageType::kServerSetup.value(), w)
    }

    /// CLIENT_SETUP; the path goes on the wire only over native QUIC.
    pub fn serialize_client_setup(&self, message: &MoqtClientSetup) -> (r: Result<
        Vec<u8>,
        FramerError,
    >)
        ensures
            r is Ok == client_setup_ok(message@, self.using_webtrans),
            r matches Ok(b) ==> b@ == control_frame(
                0x40,
                client_setup_payload(message@, self.using_webtrans),
            ),
    {
        let ghost m = message@;
        let mut w = DataWriter::new();
        let n = message.supported_versions.len();
        if !w.write_var_int62(n as u64) {
            return Err(FramerError::InvalidInput);
        }
        let ghost w1 = w@;
        let mut i: usize = 0;
        while i < n
            invariant
                n == m.supported_versions.len(),
                m == message@,
                i <= n,
                forall|j: int| 0 <= j < i ==> vi_ok(#[trigger] m.supported_versions[j]),
                w@ == w1 + encode_varints(m.supported_versions.subrange(0, i as int)),
            decreases n - i,
        {
            if !w.write_var_int62(message.supported_versions[i]) {
                return Err(FramerError::InvalidInput);
            }
            proof {
                let s = m.supported_versions.subrange(0, i + 1);
                assert(s.drop_last() =~= m.supported_versions.subrange(0, i as int));
            }
            i = i + 1;
            assert(w@ =~= w1 + encode_varints(m.supported_versions.subrange(0, i as int)));
        }
        assert(m.supported_versions.subrange(0, n as int) =~= m.supported_versions);
        let ghost w2 = w@;
        let include_path = !self.using_webtrans && message.path.is_some();
        let mut count: u64 = 0;
        if message.role.is_some() {
            count = count + 1;
        }
        if message.max_subscribe_id.is_some() {
            count = count + 1;
        }
        if message.supports_object_ack {
            count = count + 1;
        }
        if include_path {
            count = count + 1;
        }
        w.put_var_int62(count);
        if !Self::write_setup_int_params(
            &mut w,
            message.role,
            message.max_subscribe_id,
            message.supports_object_ack,
        ) {
            return Err(FramerError::InvalidInput);
        }
        let ghost w3 = w@;
        if include_path {
            match &message.path {
                Some(p) => {
                    w.put_var_int62(1);
                    if !w.write_string_piece_var_int62(p.as_slice()) {
                        return Err(FramerError::InvalidInput);
                    }
                },
                None => {},
            }
        }
        assert(w@ =~= w3 + match client_path(m, self.using_webtrans) {
            Some(p) => encode_string_param(1, p),
            None => Seq::empty(),
        });
        assert(w@ =~= client_setup_payload(m, self.using_webtrans));
        finish_control(MoqtMessageType::kClientSetup.value(), w)
    }
}

} // verus!
