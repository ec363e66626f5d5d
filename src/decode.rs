use vstd::prelude::*;
use crate::control::{
    ClientSetupView, FetchErrorView, FetchOkView, FetchView, FullTrackName, MoqtAnnounce,
    MoqtAnnounceCancel, MoqtAnnounceError, MoqtClientSetup, MoqtFetch, MoqtFetchError, MoqtFetchOk,
    MoqtObjectAck, MoqtServerSetup, MoqtSubscribe, MoqtSubscribeAnnounces,
    MoqtSubscribeAnnouncesError, MoqtSubscribeDone, MoqtSubscribeError, MoqtSubscribeOk,
    MoqtSubscribeUpdate, MoqtTrackStatus, NamespaceErrorView, NamespaceParamsView,
    SubscribeDoneView, SubscribeErrorView, SubscribeOkView, SubscribeUpdateView, SubscribeView,
    TrackStatusView,
};
use crate::fields::{
    encode_entries, encode_entry, entries_ok, fold_params, lemma_int_value, lemma_sp_params_from,
    no_params, lemma_sp_str, lemma_sp_track_name, lemma_sp_tuple, lemma_sp_u8, lemma_sp_vi,
    int_value, read_params, read_str, read_track_name, read_tuple, read_u8, read_vi, sp_params,
    sp_str, sp_track_name, sp_tuple, sp_u8, sp_vi, Step,
};
use crate::messages::{
    MoqtFilterType, FullSequence, MoqtAnnounceErrorCode, MoqtError, MoqtRole, MoqtTrackStatusCode,
    SubscribeDoneCode, SubscribeErrorCode,
};
use crate::priority::MoqtDeliveryOrder;
use crate::reader::DataReader;
use crate::framer::{
    client_path, client_setup_ok, client_setup_payload, encode_varints, server_setup_ok,
    server_setup_payload, setup_int_count, setup_int_params, encode_params,
    fetch_ok as fetch_ok_valid, fetch_ok_ok, fetch_ok_payload, fetch_payload, namespace_params_ok,
    namespace_params_payload, params_count, params_ok, subscribe_ok, subscribe_ok_ok,
    subscribe_ok_payload, subscribe_payload, subscribe_range, subscribe_update_ok,
    subscribe_update_payload, filter_type_spec, track_name_payload, fetch_error_payload,
    fetch_error_ok, namespace_error_ok, namespace_error_payload, object_ack_ok, object_ack_payload,
    subscribe_done_ok, subscribe_done_payload, subscribe_error_ok, subscribe_error_payload,
    track_status_ok, track_status_payload,
};
use crate::varint::encode_varint;
use crate::wire::{delivery_order_byte, encode_tuple, shifted, shifted_ok, signed_form};
use crate::writer::encode_string;

verus! {

/// The group order of a request: 0 leaves it to the publisher.
pub open spec fn request_order_of(b: u8) -> Option<Option<MoqtDeliveryOrder>> {
    if b == 0 {
        Some(None)
    } else if b == 1 {
        Some(Some(MoqtDeliveryOrder::kAscending))
    } else if b == 2 {
        Some(Some(MoqtDeliveryOrder::kDescending))
    } else {
        None
    }
}

/// The group order of a reply, which must be stated.
pub open spec fn reply_order_of(b: u8) -> Option<MoqtDeliveryOrder> {
    if b == 1 {
        Some(MoqtDeliveryOrder::kAscending)
    } else if b == 2 {
        Some(MoqtDeliveryOrder::kDescending)
    } else {
        None
    }
}

/// Inverse of the shift by one of optional end values.
pub open spec fn unshift(v: u64) -> Option<u64> {
    if v == 0 {
        None
    } else {
        Some((v - 1) as u64)
    }
}

fn parse_delivery_order(b: u8) -> (r: Result<Option<MoqtDeliveryOrder>, MoqtError>)
    ensures
        match request_order_of(b) {
            Some(o) => r == Ok::<Option<MoqtDeliveryOrder>, MoqtError>(o),
            None => r == Err::<Option<MoqtDeliveryOrder>, MoqtError>(
                MoqtError::kProtocolViolation,
            ),
        },
{
    if b == 0 {
        Ok(None)
    } else if b == 1 {
        Ok(Some(MoqtDeliveryOrder::kAscending))
    } else if b == 2 {
        Ok(Some(MoqtDeliveryOrder::kDescending))
    } else {
        Err(MoqtError::kProtocolViolation)
    }
}

fn parse_reply_order(b: u8) -> (r: Result<MoqtDeliveryOrder, MoqtError>)
    ensures
        match reply_order_of(b) {
            Some(o) => r == Ok::<MoqtDeliveryOrder, MoqtError>(o),
            None => r == Err::<MoqtDeliveryOrder, MoqtError>(MoqtError::kProtocolViolation),
        },
{
    if b == 1 {
        Ok(MoqtDeliveryOrder::kAscending)
    } else if b == 2 {
        Ok(MoqtDeliveryOrder::kDescending)
    } else {
        Err(MoqtError::kProtocolViolation)
    }
}

fn unshift_exec(v: u64) -> (r: Option<u64>)
    ensures
        r == unshift(v),
{
    if v == 0 {
        None
    } else {
        Some(v - 1)
    }
}

// ---------------------------------------------------------------------------
// SETUP parameters
// ---------------------------------------------------------------------------

pub struct SetupState {
    pub role: Option<MoqtRole>,
    pub path: Option<Seq<u8>>,
    pub max_subscribe_id: Option<u64>,
    pub supports_object_ack: bool,
}

pub open spec fn no_setup() -> SetupState {
    SetupState { role: None, path: None, max_subscribe_id: None, supports_object_ack: false }
}

/// Adds one SETUP parameter. A repeated role, path or MAX_SUBSCRIBE_ID, an
/// unknown role, a path in SERVER_SETUP or over WebTransport, and an
/// object-ack flag other than 0 or 1 are protocol violations.
pub open spec fn apply_setup_param(
    st: SetupState,
    key: u64,
    val: Seq<u8>,
    is_client: bool,
    webtrans: bool,
) -> Result<SetupState, MoqtError> {
    if key == 0 {
        if st.role is Some {
            Err(MoqtError::kProtocolViolation)
        } else {
            match int_value(val) {
                Ok(v) => match MoqtRole::spec_from_value(v) {
                    Some(role) => Ok(
                        SetupState {
                            role: Some(role),
                            path: st.path,
                            max_subscribe_id: st.max_subscribe_id,
                            supports_object_ack: st.supports_object_ack,
                        },
                    ),
                    None => Err(MoqtError::kProtocolViolation),
                },
                Err(e) => Err(e),
            }
        }
    } else if key == 1 {
        if !is_client || webtrans || st.path is Some {
            Err(MoqtError::kProtocolViolation)
        } else {
            Ok(
                SetupState {
                    role: st.role,
                    path: Some(val),
                    max_subscribe_id: st.max_subscribe_id,
                    supports_object_ack: st.supports_object_ack,
                },
            )
        }
    } else if key == 2 {
        if st.max_subscribe_id is Some {
            Err(MoqtError::kProtocolViolation)
        } else {
            match int_value(val) {
                Ok(v) => Ok(
                    SetupState {
                        role: st.role,
                        path: st.path,
                        max_subscribe_id: Some(v),
                        supports_object_ack: st.supports_object_ack,
                    },
                ),
                Err(e) => Err(e),
            }
        }
    } else if key == 0xbbf1439 {
        match int_value(val) {
            Ok(v) => if v > 1 {
                Err(MoqtError::kProtocolViolation)
            } else {
                Ok(
                    SetupState {
                        role: st.role,
                        path: st.path,
                        max_subscribe_id: st.max_subscribe_id,
                        supports_object_ack: v == 1,
                    },
                )
            },
            Err(e) => Err(e),
        }
    } else {
        Ok(st)
    }
}

pub open spec fn sp_setup_from(s: Seq<u8>, count: nat, is_client: bool, webtrans: bool) -> Step<
    SetupState,
>
    decreases count,
{
    if count == 0 {
        Ok((no_setup(), s))
    } else {
        match sp_setup_from(s, (count - 1) as nat, is_client, webtrans) {
            Ok((st, r)) => match sp_vi(r) {
                Ok((key, r2)) => match sp_str(r2) {
                    Ok((val, r3)) => match apply_setup_param(st, key, val, is_client, webtrans) {
                        Ok(st2) => Ok((st2, r3)),
                        Err(e) => Err(e),
                    },
                    Err(e) => Err(e),
                },
                Err(e) => Err(e),
            },
            Err(e) => Err(e),
        }
    }
}

/// SETUP parameters: their count, then each key and value.
pub open spec fn sp_setup_params(s: Seq<u8>, is_client: bool, webtrans: bool) -> Step<SetupState> {
    match sp_vi(s) {
        Ok((n, r)) => sp_setup_from(r, n as nat, is_client, webtrans),
        Err(e) => Err(e),
    }
}

proof fn lemma_setup_err(s: Seq<u8>, i: nat, j: nat, is_client: bool, webtrans: bool)
    requires
        sp_setup_from(s, i, is_client, webtrans) is Err,
        i <= j,
    ensures
        sp_setup_from(s, j, is_client, webtrans) == sp_setup_from(s, i, is_client, webtrans),
    decreases j - i,
{
    if i < j {
        lemma_setup_err(s, i, (j - 1) as nat, is_client, webtrans);
    }
}

/// What the parser keeps of SETUP parameters while reading them.
struct SetupAcc {
    role: Option<MoqtRole>,
    path: Option<Vec<u8>>,
    max_subscribe_id: Option<u64>,
    supports_object_ack: bool,
}

impl SetupAcc {
    spec fn view(&self) -> SetupState {
        SetupState {
            role: self.role,
            path: crate::control::opt_bytes_view(self.path),
            max_subscribe_id: self.max_subscribe_id,
            supports_object_ack: self.supports_object_ack,
        }
    }
}

fn int_param_value(b: &Vec<u8>) -> (res: Result<u64, MoqtError>)
    ensures
        res == int_value(b@),
{
    let mut rd = DataReader::new(b.as_slice());
    match rd.read_var_int62() {
        Some(v) => {
            if rd.remaining() == 0 {
                Ok(v)
            } else {
                Err(MoqtError::kParameterLengthMismatch)
            }
        },
        None => Err(MoqtError::kParameterLengthMismatch),
    }
}

fn read_setup_param(r: &mut DataReader, st: &mut SetupAcc, is_client: bool, webtrans: bool) -> (res:
    Result<(), MoqtError>)
    requires
        old(r).wf(),
    ensures
        final(r).wf(),
        final(r).data() == old(r).data(),
        match sp_vi(old(r).rest()) {
            Ok((key, r2)) => match sp_str(r2) {
                Ok((val, r3)) => match apply_setup_param(old(st).view(), key, val, is_client, webtrans) {
                    Ok(st2) => res is Ok && final(st).view() == st2 && final(r).rest() == r3,
                    Err(e) => res == Err::<(), MoqtError>(e),
                },
                Err(e) => res == Err::<(), MoqtError>(e),
            },
            Err(e) => res == Err::<(), MoqtError>(e),
        },
{
    let key = read_vi(r)?;
    let val = read_str(r)?;
    if key == 0 {
        if st.role.is_some() {
            return Err(MoqtError::kProtocolViolation);
        }
        let v = int_param_value(&val)?;
        match MoqtRole::try_from_value(v) {
            Some(role) => {
                st.role = Some(role);
            },
            None => {
                return Err(MoqtError::kProtocolViolation);
            },
        }
    } else if key == 1 {
        if !is_client || webtrans || st.path.is_some() {
            return Err(MoqtError::kProtocolViolation);
        }
        st.path = Some(val);
    } else if key == 2 {
        if st.max_subscribe_id.is_some() {
            return Err(MoqtError::kProtocolViolation);
        }
        st.max_subscribe_id = Some(int_param_value(&val)?);
    } else if key == 0xbbf1439 {
        let v = int_param_value(&val)?;
        if v > 1 {
            return Err(MoqtError::kProtocolViolation);
        }
        st.supports_object_ack = v == 1;
    }
    Ok(())
}

fn read_setup_params(r: &mut DataReader, is_client: bool, webtrans: bool) -> (res: Result<
    SetupAcc,
    MoqtError,
>)
    requires
        old(r).wf(),
    ensures
        final(r).wf(),
        final(r).data() == old(r).data(),
        match sp_setup_params(old(r).rest(), is_client, webtrans) {
            Ok((v, t)) => res is Ok && res->Ok_0.view() == v && final(r).rest() == t,
            Err(e) => res is Err && res->Err_0 == e,
        },
{
    let count = read_vi(r)?;
    let ghost s0 = r.rest();
    let mut st = SetupAcc { role: None, path: None, max_subscribe_id: None, supports_object_ack: false };
    let mut i: u64 = 0;
    while i < count
        invariant
            r.wf(),
            r.data() == old(r).data(),
            i <= count,
            sp_setup_params(old(r).rest(), is_client, webtrans) == sp_setup_from(
                s0,
                count as nat,
                is_client,
                webtrans,
            ),
            sp_setup_from(s0, i as nat, is_client, webtrans) matches Ok((sv, rest)) && st.view()
                == sv && r.rest() == rest,
        decreases count - i,
    {
        let step = read_setup_param(r, &mut st, is_client, webtrans);
        if let Err(err) = step {
            proof {
                assert(sp_setup_from(s0, (i + 1) as nat, is_client, webtrans) == Err::<
                    (SetupState, Seq<u8>),
                    MoqtError,
                >(err));
                lemma_setup_err(s0, (i + 1) as nat, count as nat, is_client, webtrans);
            }
            return Err(err);
        }
        i = i + 1;
    }
    Ok(st)
}

/// A list of `count` varints.
pub open spec fn sp_varints(s: Seq<u8>, count: nat) -> Step<Seq<u64>>
    decreases count,
{
    if count == 0 {
        Ok((Seq::empty(), s))
    } else {
        match sp_varints(s, (count - 1) as nat) {
            Ok((t, r)) => match sp_vi(r) {
                Ok((v, r2)) => Ok((t.push(v), r2)),
                Err(e) => Err(e),
            },
            Err(e) => Err(e),
        }
    }
}

proof fn lemma_varints_err(s: Seq<u8>, i: nat, j: nat)
    requires
        sp_varints(s, i) is Err,
        i <= j,
    ensures
        sp_varints(s, j) == sp_varints(s, i),
    decreases j - i,
{
    if i < j {
        lemma_varints_err(s, i, (j - 1) as nat);
    }
}

/// CLIENT_SETUP: the offered versions, then the parameters; a role is
/// required, and over native QUIC a path as well.
pub closed spec fn spec_client_setup(s: Seq<u8>, webtrans: bool) -> Step<ClientSetupView> {
    match sp_vi(s) {
        Ok((n, r1)) => match sp_varints(r1, n as nat) {
            Ok((versions, r2)) => match sp_setup_params(r2, true, webtrans) {
                Ok((st, r3)) => if st.role is None {
                    Err(MoqtError::kProtocolViolation)
                } else if !webtrans && st.path is None {
                    Err(MoqtError::kProtocolViolation)
                } else {
                    Ok(
                        (
                            ClientSetupView {
                                supported_versions: versions,
                                role: st.role,
                                path: st.path,
                                max_subscribe_id: st.max_subscribe_id,
                                supports_object_ack: st.supports_object_ack,
                            },
                            r3,
                        ),
                    )
                },
                Err(e) => Err(e),
            },
            Err(e) => Err(e),
        },
        Err(e) => Err(e),
    }
}

pub fn process_client_setup(r: &mut DataReader, webtrans: bool) -> (res: Result<
    MoqtClientSetup,
    MoqtError,
>)
    requires
        old(r).wf(),
    ensures
        final(r).wf(),
        final(r).data() == old(r).data(),
        match spec_client_setup(old(r).rest(), webtrans) {
            Ok((v, t)) => res is Ok && res->Ok_0@ == v && final(r).rest() == t,
            Err(e) => res is Err && res->Err_0 == e,
        },
{
    let count = read_vi(r)?;
    let ghost s0 = r.rest();
    let mut versions: Vec<u64> = Vec::new();
    let mut i: u64 = 0;
    while i < count
        invariant
            r.wf(),
            r.data() == old(r).data(),
            i <= count,
            sp_vi(old(r).rest()) == Ok::<(u64, Seq<u8>), MoqtError>((count, s0)),
            sp_varints(s0, i as nat) matches Ok((vs, rest)) && versions@ == vs && r.rest() == rest,
        decreases count - i,
    {
        let v = match read_vi(r) {
            Ok(v) => v,
            Err(err) => {
                proof {
                    assert(sp_varints(s0, (i + 1) as nat) == Err::<(Seq<u64>, Seq<u8>), MoqtError>(
                        err,
                    ));
                    lemma_varints_err(s0, (i + 1) as nat, count as nat);
                }
                return Err(err);
            },
        };
        versions.push(v);
        i = i + 1;
    }
    let st = read_setup_params(r, true, webtrans)?;
    if st.role.is_none() {
        return Err(MoqtError::kProtocolViolation);
    }
    if !webtrans && st.path.is_none() {
        return Err(MoqtError::kProtocolViolation);
    }
    Ok(
        MoqtClientSetup {
            supported_versions: versions,
            role: st.role,
            path: st.path,
            max_subscribe_id: st.max_subscribe_id,
            supports_object_ack: st.supports_object_ack,
        },
    )
}

/// SERVER_SETUP: the selected version, then the parameters; a role is
/// required and a path is refused.
pub closed spec fn spec_server_setup(s: Seq<u8>) -> Step<MoqtServerSetup> {
    match sp_vi(s) {
        Ok((version, r1)) => match sp_setup_params(r1, false, false) {
            Ok((st, r2)) => if st.role is None {
                Err(MoqtError::kProtocolViolation)
            } else {
                Ok(
                    (
                        MoqtServerSetup {
                            selected_version: version,
                            role: st.role,
                            max_subscribe_id: st.max_subscribe_id,
                            supports_object_ack: st.supports_object_ack,
                        },
                        r2,
                    ),
                )
            },
            Err(e) => Err(e),
        },
        Err(e) => Err(e),
    }
}

pub fn process_server_setup(r: &mut DataReader) -> (res: Result<MoqtServerSetup, MoqtError>)
    requires
        old(r).wf(),
    ensures
        final(r).wf(),
        final(r).data() == old(r).data(),
        match spec_server_setup(old(r).rest()) {
            Ok((v, t)) => res is Ok && res->Ok_0 == v && final(r).rest() == t,
            Err(e) => res is Err && res->Err_0 == e,
        },
{
    let version = read_vi(r)?;
    let st = read_setup_params(r, false, false)?;
    if st.role.is_none() {
        return Err(MoqtError::kProtocolViolation);
    }
    Ok(
        MoqtServerSetup {
            selected_version: version,
            role: st.role,
            max_subscribe_id: st.max_subscribe_id,
            supports_object_ack: st.supports_object_ack,
        },
    )
}


/// The range fields that follow a filter type, as (start group, start
/// object, end group, end object). LatestGroup implies start object 0; an
/// AbsoluteRange whose end precedes its start is a protocol violation.
pub open spec fn sp_subscribe_range(s: Seq<u8>, filter: u64) -> Step<
    (Option<u64>, Option<u64>, Option<u64>, Option<u64>),
> {
    if filter == 1 {
        Ok(((None, Some(0u64), None, None), s))
    } else if filter == 2 {
        Ok(((None, None, None, None), s))
    } else if filter == 3 || filter == 4 {
        match sp_vi(s) {
            Ok((sg, r1)) => match sp_vi(r1) {
                Ok((so, r2)) => if filter == 3 {
                    Ok(((Some(sg), Some(so), None, None), r2))
                } else {
                    match sp_vi(r2) {
                        Ok((eg, r3)) => match sp_vi(r3) {
                            Ok((eo_raw, r4)) => {
                                let eo = unshift(eo_raw);
                                if eg < sg {
                                    Err(MoqtError::kProtocolViolation)
                                } else if eg == sg && eo is Some && eo->0 < so {
                                    Err(MoqtError::kProtocolViolation)
                                } else {
                                    Ok(((Some(sg), Some(so), Some(eg), eo), r4))
                                }
                            },
                            Err(e) => Err(e),
                        },
                        Err(e) => Err(e),
                    }
                },
                Err(e) => Err(e),
            },
            Err(e) => Err(e),
        }
    } else {
        Err(MoqtError::kProtocolViolation)
    }
}

fn read_subscribe_range(r: &mut DataReader, filter: u64) -> (res: Result<
    (Option<u64>, Option<u64>, Option<u64>, Option<u64>),
    MoqtError,
>)
    requires
        old(r).wf(),
    ensures
        final(r).wf(),
        final(r).data() == old(r).data(),
        match sp_subscribe_range(old(r).rest(), filter) {
            Ok((v, t)) => res is Ok && res->Ok_0 == v && final(r).rest() == t,
            Err(e) => res is Err && res->Err_0 == e,
        },
{
    if filter == 1 {
        Ok((None, Some(0), None, None))
    } else if filter == 2 {
        Ok((None, None, None, None))
    } else if filter == 3 || filter == 4 {
        let sg = read_vi(r)?;
        let so = read_vi(r)?;
        if filter == 3 {
            return Ok((Some(sg), Some(so), None, None));
        }
        let eg = read_vi(r)?;
        let eo_raw = read_vi(r)?;
        let eo = unshift_exec(eo_raw);
        if eg < sg {
            return Err(MoqtError::kProtocolViolation);
        }
        if eg == sg && eo.is_some() && eo.unwrap() < so {
            return Err(MoqtError::kProtocolViolation);
        }
        Ok((Some(sg), Some(so), Some(eg), eo))
    } else {
        Err(MoqtError::kProtocolViolation)
    }
}

pub closed spec fn spec_subscribe(s: Seq<u8>) -> Step<SubscribeView> {
    match sp_vi(s) {
        Ok((id, r1)) => match sp_vi(r1) {
            Ok((alias, r2)) => match sp_track_name(r2) {
                Ok((name, r3)) => match sp_u8(r3) {
                    Ok((prio, r4)) => match sp_u8(r4) {
                        Ok((ob, r5)) => match request_order_of(ob) {
                            Some(order) => match sp_vi(r5) {
                                Ok((filter, r6)) => match sp_subscribe_range(r6, filter) {
                                    Ok(((sg, so, eg, eo), r7)) => match sp_params(r7) {
                                        Ok((params, r8)) => Ok(
                                            (
                                                SubscribeView {
                                                    subscribe_id: id,
                                                    track_alias: alias,
                                                    full_track_name: name,
                                                    subscriber_priority: prio,
                                                    group_order: order,
                                                    start_group: sg,
                                                    start_object: so,
                                                    end_group: eg,
                                                    end_object: eo,
                                                    parameters: params,
                                                },
                                                r8,
                                            ),
                                        ),
                                        Err(e) => Err(e),
                                    },
                                    Err(e) => Err(e),
                                },
                                Err(e) => Err(e),
                            },
                            None => Err(MoqtError::kProtocolViolation),
                        },
                        Err(e) => Err(e),
                    },
                    Err(e) => Err(e),
                },
                Err(e) => Err(e),
            },
            Err(e) => Err(e),
        },
        Err(e) => Err(e),
    }
}

pub fn process_subscribe(r: &mut DataReader) -> (res: Result<MoqtSubscribe, MoqtError>)
    requires
        old(r).wf(),
    ensures
        final(r).wf(),
        final(r).data() == old(r).data(),
        match spec_subscribe(old(r).rest()) {
            Ok((v, t)) => res is Ok && res->Ok_0@ == v && final(r).rest() == t,
            Err(e) => res is Err && res->Err_0 == e,
        },
{
    let subscribe_id = read_vi(r)?;
    let track_alias = read_vi(r)?;
    let full_track_name = read_track_name(r)?;
    let subscriber_priority = read_u8(r)?;
    let ob = read_u8(r)?;
    let group_order = parse_delivery_order(ob)?;
    let filter = read_vi(r)?;
    let (start_group, start_object, end_group, end_object) = read_subscribe_range(r, filter)?;
    let parameters = read_params(r)?;
    Ok(
        MoqtSubscribe {
            subscribe_id,
            track_alias,
            full_track_name,
            subscriber_priority,
            group_order,
            start_group,
            start_object,
            end_group,
            end_object,
            parameters,
        },
    )
}

/// A content-exists byte and the (group, object) it gates.
pub open spec fn sp_gated_id(s: Seq<u8>) -> Step<Option<(u64, u64)>> {
    match sp_u8(s) {
        Ok((ce, r1)) => if ce > 1 {
            Err(MoqtError::kProtocolViolation)
        } else if ce == 0 {
            Ok((None, r1))
        } else {
            match sp_vi(r1) {
                Ok((g, r2)) => match sp_vi(r2) {
                    Ok((o, r3)) => Ok((Some((g, o)), r3)),
                    Err(e) => Err(e),
                },
                Err(e) => Err(e),
            }
        },
        Err(e) => Err(e),
    }
}

fn read_gated_id(r: &mut DataReader) -> (res: Result<Option<FullSequence>, MoqtError>)
    requires
        old(r).wf(),
    ensures
        final(r).wf(),
        final(r).data() == old(r).data(),
        match sp_gated_id(old(r).rest()) {
            Ok((v, t)) => res is Ok && crate::control::opt_seq_view(res->Ok_0) == v && final(r).rest()
                == t,
            Err(e) => res is Err && res->Err_0 == e,
        },
{
    let ce = read_u8(r)?;
    if ce > 1 {
        return Err(MoqtError::kProtocolViolation);
    }
    if ce == 0 {
        return Ok(None);
    }
    let g = read_vi(r)?;
    let o = read_vi(r)?;
    Ok(Some(FullSequence { group: g, subgroup: 0, object: o }))
}

/// SUBSCRIBE_OK; authorization info is refused in it.
pub closed spec fn spec_subscribe_ok(s: Seq<u8>) -> Step<SubscribeOkView> {
    match sp_vi(s) {
        Ok((id, r1)) => match sp_vi(r1) {
            Ok((expires, r2)) => match sp_u8(r2) {
                Ok((ob, r3)) => match reply_order_of(ob) {
                    Some(order) => match sp_gated_id(r3) {
                        Ok((largest, r4)) => match sp_params(r4) {
                            Ok((params, r5)) => if params.authorization_info is Some {
                                Err(MoqtError::kProtocolViolation)
                            } else {
                                Ok(
                                    (
                                        SubscribeOkView {
                                            subscribe_id: id,
                                            expires,
                                            group_order: order,
                                            largest_id: largest,
                                            parameters: params,
                                        },
                                        r5,
                                    ),
                                )
                            },
                            Err(e) => Err(e),
                        },
                        Err(e) => Err(e),
                    },
                    None => Err(MoqtError::kProtocolViolation),
                },
                Err(e) => Err(e),
            },
            Err(e) => Err(e),
        },
        Err(e) => Err(e),
    }
}

pub fn process_subscribe_ok(r: &mut DataReader) -> (res: Result<MoqtSubscribeOk, MoqtError>)
    requires
        old(r).wf(),
    ensures
        final(r).wf(),
        final(r).data() == old(r).data(),
        match spec_subscribe_ok(old(r).rest()) {
            Ok((v, t)) => res is Ok && res->Ok_0@ == v && final(r).rest() == t,
            Err(e) => res is Err && res->Err_0 == e,
        },
{
    let subscribe_id = read_vi(r)?;
    let expires = read_vi(r)?;
    let ob = read_u8(r)?;
    let group_order = parse_reply_order(ob)?;
    let largest_id = read_gated_id(r)?;
    let parameters = read_params(r)?;
    if parameters.authorization_info.is_some() {
        return Err(MoqtError::kProtocolViolation);
    }
    Ok(MoqtSubscribeOk { subscribe_id, expires, group_order, largest_id, parameters })
}

pub closed spec fn spec_subscribe_error(s: Seq<u8>) -> Step<SubscribeErrorView> {
    match sp_vi(s) {
        Ok((id, r1)) => match sp_vi(r1) {
            Ok((code, r2)) => match sp_str(r2) {
                Ok((reason, r3)) => match sp_vi(r3) {
                    Ok((alias, r4)) => match SubscribeErrorCode::spec_from_value(code) {
                        Some(c) => Ok(
                            (
                                SubscribeErrorView {
                                    subscribe_id: id,
                                    error_code: c,
                                    reason_phrase: reason,
                                    track_alias: alias,
                                },
                                r4,
                            ),
                        ),
                        None => Err(MoqtError::kProtocolViolation),
                    },
                    Err(e) => Err(e),
                },
                Err(e) => Err(e),
            },
            Err(e) => Err(e),
        },
        Err(e) => Err(e),
    }
}

pub fn process_subscribe_error(r: &mut DataReader) -> (res: Result<MoqtSubscribeError, MoqtError>)
    requires
        old(r).wf(),
    ensures
        final(r).wf(),
        final(r).data() == old(r).data(),
        match spec_subscribe_error(old(r).rest()) {
            Ok((v, t)) => res is Ok && res->Ok_0@ == v && final(r).rest() == t,
            Err(e) => res is Err && res->Err_0 == e,
        },
{
    let subscribe_id = read_vi(r)?;
    let code = read_vi(r)?;
    let reason_phrase = read_str(r)?;
    let track_alias = read_vi(r)?;
    match SubscribeErrorCode::try_from_value(code) {
        Some(error_code) => Ok(
            MoqtSubscribeError { subscribe_id, error_code, reason_phrase, track_alias },
        ),
        None => Err(MoqtError::kProtocolViolation),
    }
}

pub closed spec fn spec_subscribe_done(s: Seq<u8>) -> Step<SubscribeDoneView> {
    match sp_vi(s) {
        Ok((id, r1)) => match sp_vi(r1) {
            Ok((code, r2)) => match sp_str(r2) {
                Ok((reason, r3)) => match sp_gated_id(r3) {
                    Ok((final_id, r4)) => match SubscribeDoneCode::spec_from_value(code) {
                        Some(c) => Ok(
                            (
                                SubscribeDoneView {
                                    subscribe_id: id,
                                    status_code: c,
                                    reason_phrase: reason,
                                    final_id,
                                },
                                r4,
                            ),
                        ),
                        None => Err(MoqtError::kProtocolViolation),
                    },
                    Err(e) => Err(e),
                },
                Err(e) => Err(e),
            },
            Err(e) => Err(e),
        },
        Err(e) => Err(e),
    }
}

pub fn process_subscribe_done(r: &mut DataReader) -> (res: Result<MoqtSubscribeDone, MoqtError>)
    requires
        old(r).wf(),
    ensures
        final(r).wf(),
        final(r).data() == old(r).data(),
        match spec_subscribe_done(old(r).rest()) {
            Ok((v, t)) => res is Ok && res->Ok_0@ == v && final(r).rest() == t,
            Err(e) => res is Err && res->Err_0 == e,
        },
{
    let subscribe_id = read_vi(r)?;
    let code = read_vi(r)?;
    let reason_phrase = read_str(r)?;
    let final_id = read_gated_id(r)?;
    match SubscribeDoneCode::try_from_value(code) {
        Some(status_code) => Ok(
            MoqtSubscribeDone { subscribe_id, status_code, reason_phrase, final_id },
        ),
        None => Err(MoqtError::kProtocolViolation),
    }
}

/// SUBSCRIBE_UPDATE: end values are shifted by one, 0 meaning open; an end
/// object without end group, an end before the start, and authorization
/// info are protocol violations.
pub closed spec fn spec_subscribe_update(s: Seq<u8>) -> Step<SubscribeUpdateView> {
    match sp_vi(s) {
        Ok((id, r1)) => match sp_vi(r1) {
            Ok((sg, r2)) => match sp_vi(r2) {
                Ok((so, r3)) => match sp_vi(r3) {
                    Ok((eg_raw, r4)) => match sp_vi(r4) {
                        Ok((eo_raw, r5)) => match sp_u8(r5) {
                            Ok((prio, r6)) => match sp_params(r6) {
                                Ok((params, r7)) => {
                                    let eg = unshift(eg_raw);
                                    let eo = unshift(eo_raw);
                                    if eg is None && eo is Some {
                                        Err(MoqtError::kProtocolViolation)
                                    } else if eg is Some && eg->0 < sg {
                                        Err(MoqtError::kProtocolViolation)
                                    } else if eg is Some && eg->0 == sg && eo is Some && eo->0 < so {
                                        Err(MoqtError::kProtocolViolation)
                                    } else if params.authorization_info is Some {
                                        Err(MoqtError::kProtocolViolation)
                                    } else {
                                        Ok(
                                            (
                                                SubscribeUpdateView {
                                                    subscribe_id: id,
                                                    start_group: sg,
                                                    start_object: so,
                                                    end_group: eg,
                                                    end_object: eo,
                                                    subscriber_priority: prio,
                                                    parameters: params,
                                                },
                                                r7,
                                            ),
                                        )
                                    }
                                },
                                Err(e) => Err(e),
                            },
                            Err(e) => Err(e),
                        },
                        Err(e) => Err(e),
                    },
                    Err(e) => Err(e),
                },
                Err(e) => Err(e),
            },
            Err(e) => Err(e),
        },
        Err(e) => Err(e),
    }
}

pub fn process_subscribe_update(r: &mut DataReader) -> (res: Result<MoqtSubscribeUpdate, MoqtError>)
    requires
        old(r).wf(),
    ensures
        final(r).wf(),
        final(r).data() == old(r).data(),
        match spec_subscribe_update(old(r).rest()) {
            Ok((v, t)) => res is Ok && res->Ok_0@ == v && final(r).rest() == t,
            Err(e) => res is Err && res->Err_0 == e,
        },
{
    let subscribe_id = read_vi(r)?;
    let start_group = read_vi(r)?;
    let start_object = read_vi(r)?;
    let eg_raw = read_vi(r)?;
    let eo_raw = read_vi(r)?;
    let subscriber_priority = read_u8(r)?;
    let parameters = read_params(r)?;
    let end_group = unshift_exec(eg_raw);
    let end_object = unshift_exec(eo_raw);
    if end_group.is_none() && end_object.is_some() {
        return Err(MoqtError::kProtocolViolation);
    }
    if end_group.is_some() && end_group.unwrap() < start_group {
        return Err(MoqtError::kProtocolViolation);
    }
    if end_group.is_some() && end_group.unwrap() == start_group && end_object.is_some()
        && end_object.unwrap() < start_object {
        return Err(MoqtError::kProtocolViolation);
    }
    if parameters.authorization_info.is_some() {
        return Err(MoqtError::kProtocolViolation);
    }
    Ok(
        MoqtSubscribeUpdate {
            subscribe_id,
            start_group,
            start_object,
            end_group,
            end_object,
            subscriber_priority,
            parameters,
        },
    )
}

/// A namespace and parameters (ANNOUNCE, SUBSCRIBE_ANNOUNCES).
pub closed spec fn spec_namespace_params(s: Seq<u8>) -> Step<NamespaceParamsView> {
    match sp_tuple(s) {
        Ok((ns, r1)) => match sp_params(r1) {
            Ok((params, r2)) => Ok(
                (NamespaceParamsView { track_namespace: ns, parameters: params }, r2),
            ),
            Err(e) => Err(e),
        },
        Err(e) => Err(e),
    }
}

/// ANNOUNCE; a delivery timeout is refused in it.
pub closed spec fn spec_announce(s: Seq<u8>) -> Step<NamespaceParamsView> {
    match spec_namespace_params(s) {
        Ok((v, t)) => if v.parameters.delivery_timeout is Some {
            Err(MoqtError::kProtocolViolation)
        } else {
            Ok((v, t))
        },
        Err(e) => Err(e),
    }
}

pub fn process_announce(r: &mut DataReader) -> (res: Result<MoqtAnnounce, MoqtError>)
    requires
        old(r).wf(),
    ensures
        final(r).wf(),
        final(r).data() == old(r).data(),
        match spec_announce(old(r).rest()) {
            Ok((v, t)) => res is Ok && res->Ok_0@ == v && final(r).rest() == t,
            Err(e) => res is Err && res->Err_0 == e,
        },
{
    let track_namespace = read_tuple(r)?;
    let parameters = read_params(r)?;
    if parameters.delivery_timeout.is_some() {
        return Err(MoqtError::kProtocolViolation);
    }
    Ok(MoqtAnnounce { track_namespace, parameters })
}

pub fn process_subscribe_announces(r: &mut DataReader) -> (res: Result<
    MoqtSubscribeAnnounces,
    MoqtError,
>)
    requires
        old(r).wf(),
    ensures
        final(r).wf(),
        final(r).data() == old(r).data(),
        match spec_namespace_params(old(r).rest()) {
            Ok((v, t)) => res is Ok && res->Ok_0@ == v && final(r).rest() == t,
            Err(e) => res is Err && res->Err_0 == e,
        },
{
    let track_namespace = read_tuple(r)?;
    let parameters = read_params(r)?;
    Ok(MoqtSubscribeAnnounces { track_namespace, parameters })
}

/// A namespace alone (ANNOUNCE_OK, UNANNOUNCE, SUBSCRIBE_ANNOUNCES_OK,
/// UNSUBSCRIBE_ANNOUNCES).
pub fn process_namespace(r: &mut DataReader) -> (res: Result<FullTrackName, MoqtError>)
    requires
        old(r).wf(),
    ensures
        final(r).wf(),
        final(r).data() == old(r).data(),
        match sp_tuple(old(r).rest()) {
            Ok((v, t)) => res is Ok && res->Ok_0@ == v && final(r).rest() == t,
            Err(e) => res is Err && res->Err_0 == e,
        },
{
    read_tuple(r)
}

/// A namespace, an error code and a reason (ANNOUNCE_ERROR,
/// ANNOUNCE_CANCEL, SUBSCRIBE_ANNOUNCES_ERROR): the raw code.
pub closed spec fn spec_namespace_error(s: Seq<u8>) -> Step<(Seq<Seq<u8>>, u64, Seq<u8>)> {
    match sp_tuple(s) {
        Ok((ns, r1)) => match sp_vi(r1) {
            Ok((code, r2)) => match sp_str(r2) {
                Ok((reason, r3)) => Ok(((ns, code, reason), r3)),
                Err(e) => Err(e),
            },
            Err(e) => Err(e),
        },
        Err(e) => Err(e),
    }
}

fn read_namespace_error(r: &mut DataReader) -> (res: Result<(FullTrackName, u64, Vec<u8>), MoqtError>)
    requires
        old(r).wf(),
    ensures
        final(r).wf(),
        final(r).data() == old(r).data(),
        match spec_namespace_error(old(r).rest()) {
            Ok((v, t)) => res is Ok && (res->Ok_0.0@, res->Ok_0.1, res->Ok_0.2@) == v
                && final(r).rest() == t,
            Err(e) => res is Err && res->Err_0 == e,
        },
{
    let ns = read_tuple(r)?;
    let code = read_vi(r)?;
    let reason = read_str(r)?;
    Ok((ns, code, reason))
}

pub closed spec fn spec_announce_error(s: Seq<u8>) -> Step<NamespaceErrorView<MoqtAnnounceErrorCode>> {
    match spec_namespace_error(s) {
        Ok(((ns, code, reason), t)) => match MoqtAnnounceErrorCode::spec_from_value(code) {
            Some(c) => Ok(
                (NamespaceErrorView { track_namespace: ns, error_code: c, reason_phrase: reason }, t),
            ),
            None => Err(MoqtError::kProtocolViolation),
        },
        Err(e) => Err(e),
    }
}

pub fn process_announce_error(r: &mut DataReader) -> (res: Result<MoqtAnnounceError, MoqtError>)
    requires
        old(r).wf(),
    ensures
        final(r).wf(),
        final(r).data() == old(r).data(),
        match spec_announce_error(old(r).rest()) {
            Ok((v, t)) => res is Ok && res->Ok_0@ == v && final(r).rest() == t,
            Err(e) => res is Err && res->Err_0 == e,
        },
{
    let (track_namespace, code, reason_phrase) = read_namespace_error(r)?;
    match MoqtAnnounceErrorCode::try_from_value(code) {
        Some(error_code) => Ok(MoqtAnnounceError { track_namespace, error_code, reason_phrase }),
        None => Err(MoqtError::kProtocolViolation),
    }
}

pub fn process_announce_cancel(r: &mut DataReader) -> (res: Result<MoqtAnnounceCancel, MoqtError>)
    requires
        old(r).wf(),
    ensures
        final(r).wf(),
        final(r).data() == old(r).data(),
        match spec_announce_error(old(r).rest()) {
            Ok((v, t)) => res is Ok && res->Ok_0@ == v && final(r).rest() == t,
            Err(e) => res is Err && res->Err_0 == e,
        },
{
    let (track_namespace, code, reason_phrase) = read_namespace_error(r)?;
    match MoqtAnnounceErrorCode::try_from_value(code) {
        Some(error_code) => Ok(MoqtAnnounceCancel { track_namespace, error_code, reason_phrase }),
        None => Err(MoqtError::kProtocolViolation),
    }
}

pub closed spec fn spec_subscribe_announces_error(s: Seq<u8>) -> Step<
    NamespaceErrorView<SubscribeErrorCode>,
> {
    match spec_namespace_error(s) {
        Ok(((ns, code, reason), t)) => match SubscribeErrorCode::spec_from_value(code) {
            Some(c) => Ok(
                (NamespaceErrorView { track_namespace: ns, error_code: c, reason_phrase: reason }, t),
            ),
            None => Err(MoqtError::kProtocolViolation),
        },
        Err(e) => Err(e),
    }
}

pub fn process_subscribe_announces_error(r: &mut DataReader) -> (res: Result<
    MoqtSubscribeAnnouncesError,
    MoqtError,
>)
    requires
        old(r).wf(),
    ensures
        final(r).wf(),
        final(r).data() == old(r).data(),
        match spec_subscribe_announces_error(old(r).rest()) {
            Ok((v, t)) => res is Ok && res->Ok_0@ == v && final(r).rest() == t,
            Err(e) => res is Err && res->Err_0 == e,
        },
{
    let (track_namespace, code, reason_phrase) = read_namespace_error(r)?;
    match SubscribeErrorCode::try_from_value(code) {
        Some(error_code) => Ok(
            MoqtSubscribeAnnouncesError { track_namespace, error_code, reason_phrase },
        ),
        None => Err(MoqtError::kProtocolViolation),
    }
}

/// A full track name alone (TRACK_STATUS_REQUEST).
pub fn process_track_name(r: &mut DataReader) -> (res: Result<FullTrackName, MoqtError>)
    requires
        old(r).wf(),
    ensures
        final(r).wf(),
        final(r).data() == old(r).data(),
        match sp_track_name(old(r).rest()) {
            Ok((v, t)) => res is Ok && res->Ok_0@ == v && final(r).rest() == t,
            Err(e) => res is Err && res->Err_0 == e,
        },
{
    read_track_name(r)
}

pub closed spec fn spec_track_status(s: Seq<u8>) -> Step<TrackStatusView> {
    match sp_track_name(s) {
        Ok((name, r1)) => match sp_vi(r1) {
            Ok((code, r2)) => match sp_vi(r2) {
                Ok((lg, r3)) => match sp_vi(r3) {
                    Ok((lo, r4)) => match MoqtTrackStatusCode::spec_from_value(code) {
                        Some(c) => Ok(
                            (
                                TrackStatusView {
                                    full_track_name: name,
                                    status_code: c,
                                    last_group: lg,
                                    last_object: lo,
                                },
                                r4,
                            ),
                        ),
                        None => Err(MoqtError::kProtocolViolation),
                    },
                    Err(e) => Err(e),
                },
                Err(e) => Err(e),
            },
            Err(e) => Err(e),
        },
        Err(e) => Err(e),
    }
}

pub fn process_track_status(r: &mut DataReader) -> (res: Result<MoqtTrackStatus, MoqtError>)
    requires
        old(r).wf(),
    ensures
        final(r).wf(),
        final(r).data() == old(r).data(),
        match spec_track_status(old(r).rest()) {
            Ok((v, t)) => res is Ok && res->Ok_0@ == v && final(r).rest() == t,
            Err(e) => res is Err && res->Err_0 == e,
        },
{
    let full_track_name = read_track_name(r)?;
    let code = read_vi(r)?;
    let last_group = read_vi(r)?;
    let last_object = read_vi(r)?;
    match MoqtTrackStatusCode::try_from_value(code) {
        Some(status_code) => Ok(
            MoqtTrackStatus { full_track_name, status_code, last_group, last_object },
        ),
        None => Err(MoqtError::kProtocolViolation),
    }
}

/// FETCH: the end object is shifted by one, 0 meaning the whole end group;
/// an end before the start is a protocol violation.
pub closed spec fn spec_fetch(s: Seq<u8>) -> Step<FetchView> {
    match sp_vi(s) {
        Ok((id, r1)) => match sp_track_name(r1) {
            Ok((name, r2)) => match sp_u8(r2) {
                Ok((prio, r3)) => match sp_u8(r3) {
                    Ok((ob, r4)) => match request_order_of(ob) {
                        Some(order) => match sp_vi(r4) {
                            Ok((sg, r5)) => match sp_vi(r5) {
                                Ok((so, r6)) => match sp_vi(r6) {
                                    Ok((eg, r7)) => match sp_vi(r7) {
                                        Ok((eo_raw, r8)) => match sp_params(r8) {
                                            Ok((params, r9)) => {
                                                let eo = unshift(eo_raw);
                                                if eg < sg || (eg == sg && eo is Some && eo->0 < so) {
                                                    Err(MoqtError::kProtocolViolation)
                                                } else {
                                                    Ok(
                                                        (
                                                            FetchView {
                                                                subscribe_id: id,
                                                                full_track_name: name,
                                                                subscriber_priority: prio,
                                                                group_order: order,
                                                                start_group: sg,
                                                                start_object: so,
                                                                end_group: eg,
                                                                end_object: eo,
                                                                parameters: params,
                                                            },
                                                            r9,
                                                        ),
                                                    )
                                                }
                                            },
                                            Err(e) => Err(e),
                                        },
                                        Err(e) => Err(e),
                                    },
                                    Err(e) => Err(e),
                                },
                                Err(e) => Err(e),
                            },
                            Err(e) => Err(e),
                        },
                        None => Err(MoqtError::kProtocolViolation),
                    },
                    Err(e) => Err(e),
                },
                Err(e) => Err(e),
            },
            Err(e) => Err(e),
        },
        Err(e) => Err(e),
    }
}

pub fn process_fetch(r: &mut DataReader) -> (res: Result<MoqtFetch, MoqtError>)
    requires
        old(r).wf(),
    ensures
        final(r).wf(),
        final(r).data() == old(r).data(),
        match spec_fetch(old(r).rest()) {
            Ok((v, t)) => res is Ok && res->Ok_0@ == v && final(r).rest() == t,
            Err(e) => res is Err && res->Err_0 == e,
        },
{
    let subscribe_id = read_vi(r)?;
    let full_track_name = read_track_name(r)?;
    let subscriber_priority = read_u8(r)?;
    let ob = read_u8(r)?;
    let group_order = parse_delivery_order(ob)?;
    let sg = read_vi(r)?;
    let so = read_vi(r)?;
    let end_group = read_vi(r)?;
    let eo_raw = read_vi(r)?;
    let parameters = read_params(r)?;
    let end_object = unshift_exec(eo_raw);
    if end_group < sg || (end_group == sg && end_object.is_some() && end_object.unwrap() < so) {
        return Err(MoqtError::kProtocolViolation);
    }
    Ok(
        MoqtFetch {
            subscribe_id,
            full_track_name,
            subscriber_priority,
            group_order,
            start_object: FullSequence { group: sg, subgroup: 0, object: so },
            end_group,
            end_object,
            parameters,
        },
    )
}

pub closed spec fn spec_fetch_ok(s: Seq<u8>) -> Step<FetchOkView> {
    match sp_vi(s) {
        Ok((id, r1)) => match sp_u8(r1) {
            Ok((ob, r2)) => match reply_order_of(ob) {
                Some(order) => match sp_vi(r2) {
                    Ok((g, r3)) => match sp_vi(r3) {
                        Ok((o, r4)) => match sp_params(r4) {
                            Ok((params, r5)) => Ok(
                                (
                                    FetchOkView {
                                        subscribe_id: id,
                                        group_order: order,
                                        largest_group: g,
                                        largest_object: o,
                                        parameters: params,
                                    },
                                    r5,
                                ),
                            ),
                            Err(e) => Err(e),
                        },
                        Err(e) => Err(e),
                    },
                    Err(e) => Err(e),
                },
                None => Err(MoqtError::kProtocolViolation),
            },
            Err(e) => Err(e),
        },
        Err(e) => Err(e),
    }
}

pub fn process_fetch_ok(r: &mut DataReader) -> (res: Result<MoqtFetchOk, MoqtError>)
    requires
        old(r).wf(),
    ensures
        final(r).wf(),
        final(r).data() == old(r).data(),
        match spec_fetch_ok(old(r).rest()) {
            Ok((v, t)) => res is Ok && res->Ok_0@ == v && final(r).rest() == t,
            Err(e) => res is Err && res->Err_0 == e,
        },
{
    let subscribe_id = read_vi(r)?;
    let ob = read_u8(r)?;
    let group_order = parse_reply_order(ob)?;
    let g = read_vi(r)?;
    let o = read_vi(r)?;
    let parameters = read_params(r)?;
    Ok(
        MoqtFetchOk {
            subscribe_id,
            group_order,
            largest_id: FullSequence { group: g, subgroup: 0, object: o },
            parameters,
        },
    )
}

pub closed spec fn spec_fetch_error(s: Seq<u8>) -> Step<FetchErrorView> {
    match sp_vi(s) {
        Ok((id, r1)) => match sp_vi(r1) {
            Ok((code, r2)) => match sp_str(r2) {
                Ok((reason, r3)) => match SubscribeErrorCode::spec_from_value(code) {
                    Some(c) => Ok(
                        (FetchErrorView { subscribe_id: id, error_code: c, reason_phrase: reason }, r3),
                    ),
                    None => Err(MoqtError::kProtocolViolation),
                },
                Err(e) => Err(e),
            },
            Err(e) => Err(e),
        },
        Err(e) => Err(e),
    }
}

pub fn process_fetch_error(r: &mut DataReader) -> (res: Result<MoqtFetchError, MoqtError>)
    requires
        old(r).wf(),
    ensures
        final(r).wf(),
        final(r).data() == old(r).data(),
        match spec_fetch_error(old(r).rest()) {
            Ok((v, t)) => res is Ok && res->Ok_0@ == v && final(r).rest() == t,
            Err(e) => res is Err && res->Err_0 == e,
        },
{
    let subscribe_id = read_vi(r)?;
    let code = read_vi(r)?;
    let reason_phrase = read_str(r)?;
    match SubscribeErrorCode::try_from_value(code) {
        Some(error_code) => Ok(MoqtFetchError { subscribe_id, error_code, reason_phrase }),
        None => Err(MoqtError::kProtocolViolation),
    }
}

/// The signed value of a signed-varint form: the low bit is the sign.
pub open spec fn signed_value(v: u64) -> int {
    if v % 2 == 1 {
        -((v / 2) as int)
    } else {
        (v / 2) as int
    }
}

/// Turns the signed-varint form of a value back into the value.
pub fn signed_varint_unserialized_form(v: u64) -> (r: i64)
    requires
        v <= crate::varint::VARINT62_MAX,
    ensures
        r as int == signed_value(v),
{
    let mag = (v / 2) as i64;
    if v % 2 == 1 {
        -mag
    } else {
        mag
    }
}

pub closed spec fn spec_object_ack(s: Seq<u8>) -> Step<MoqtObjectAck> {
    match sp_vi(s) {
        Ok((id, r1)) => match sp_vi(r1) {
            Ok((g, r2)) => match sp_vi(r2) {
                Ok((o, r3)) => match sp_vi(r3) {
                    Ok((raw, r4)) => Ok(
                        (
                            MoqtObjectAck {
                                subscribe_id: id,
                                group_id: g,
                                object_id: o,
                                delta_from_deadline: signed_value(raw) as i64,
                            },
                            r4,
                        ),
                    ),
                    Err(e) => Err(e),
                },
                Err(e) => Err(e),
            },
            Err(e) => Err(e),
        },
        Err(e) => Err(e),
    }
}

pub fn process_object_ack(r: &mut DataReader) -> (res: Result<MoqtObjectAck, MoqtError>)
    requires
        old(r).wf(),
    ensures
        final(r).wf(),
        final(r).data() == old(r).data(),
        match spec_object_ack(old(r).rest()) {
            Ok((v, t)) => res is Ok && res->Ok_0 == v && final(r).rest() == t,
            Err(e) => res is Err && res->Err_0 == e,
        },
{
    let subscribe_id = read_vi(r)?;
    let group_id = read_vi(r)?;
    let object_id = read_vi(r)?;
    let ghost s3 = r.rest();
    let raw = read_vi(r)?;
    proof {
        crate::varint::lemma_decode_bound(s3);
    }
    let delta_from_deadline = signed_varint_unserialized_form(raw);
    Ok(MoqtObjectAck { subscribe_id, group_id, object_id, delta_from_deadline })
}


#[verifier::spinoff_prover]
#[verifier::rlimit(100)]
pub proof fn lemma_decode_subscribe_error(v: SubscribeErrorView, tail: Seq<u8>)
    requires
        subscribe_error_ok(v),
    ensures
        spec_subscribe_error(subscribe_error_payload(v) + tail) == Ok::<
            (SubscribeErrorView, Seq<u8>),
            MoqtError,
        >((v, tail)),
{
    let code = v.error_code.spec_value();
    let t3 = encode_varint(v.track_alias) + tail;
    let t2 = encode_string(v.reason_phrase) + t3;
    let t1 = encode_varint(code) + t2;
    assert(subscribe_error_payload(v) + tail =~= encode_varint(v.subscribe_id) + t1);
    lemma_sp_vi(v.subscribe_id, t1);
    lemma_sp_vi(code, t2);
    lemma_sp_str(v.reason_phrase, t3);
    lemma_sp_vi(v.track_alias, tail);
}

/// The gated position as the framer writes it.
pub open spec fn gated_bytes(f: Option<(u64, u64)>) -> Seq<u8> {
    seq![
        if f is Some {
            1u8
        } else {
            0u8
        },
    ] + match f {
        Some((g, o)) => encode_varint(g) + encode_varint(o),
        None => Seq::empty(),
    }
}

#[verifier::spinoff_prover]
#[verifier::rlimit(100)]
proof fn lemma_sp_gated(f: Option<(u64, u64)>, tail: Seq<u8>)
    requires
        match f {
            Some((g, o)) => g <= crate::varint::VARINT62_MAX && o <= crate::varint::VARINT62_MAX,
            None => true,
        },
    ensures
        sp_gated_id(gated_bytes(f) + tail) == Ok::<(Option<(u64, u64)>, Seq<u8>), MoqtError>(
            (f, tail),
        ),
{
    match f {
        Some((g, o)) => {
            let t1 = encode_varint(o) + tail;
            let t0 = encode_varint(g) + t1;
            assert(gated_bytes(f) + tail =~= seq![1u8] + t0);
            lemma_sp_u8(1u8, t0);
            lemma_sp_vi(g, t1);
            lemma_sp_vi(o, tail);
        },
        None => {
            assert(gated_bytes(f) + tail =~= seq![0u8] + tail);
            lemma_sp_u8(0u8, tail);
        },
    }
}

#[verifier::spinoff_prover]
#[verifier::rlimit(100)]
pub proof fn lemma_decode_subscribe_done(v: SubscribeDoneView, tail: Seq<u8>)
    requires
        subscribe_done_ok(v),
    ensures
        spec_subscribe_done(subscribe_done_payload(v) + tail) == Ok::<
            (SubscribeDoneView, Seq<u8>),
            MoqtError,
        >((v, tail)),
{
    let code = v.status_code.spec_value();
    assert(SubscribeDoneCode::spec_from_value(code) == Some(v.status_code));
    let t3 = gated_bytes(v.final_id) + tail;
    let t2 = encode_string(v.reason_phrase) + t3;
    let t1 = encode_varint(code) + t2;
    assert(subscribe_done_payload(v) =~= encode_varint(v.subscribe_id) + encode_varint(code)
        + encode_string(v.reason_phrase) + gated_bytes(v.final_id));
    assert(subscribe_done_payload(v) + tail =~= encode_varint(v.subscribe_id) + t1);
    let s = subscribe_done_payload(v) + tail;
    lemma_sp_vi(v.subscribe_id, t1);
    lemma_sp_vi(code, t2);
    lemma_sp_str(v.reason_phrase, t3);
    lemma_sp_gated(v.final_id, tail);
    assert(sp_vi(s) == Ok::<(u64, Seq<u8>), MoqtError>((v.subscribe_id, t1)));
    assert(sp_vi(t1) == Ok::<(u64, Seq<u8>), MoqtError>((code, t2)));
    assert(sp_str(t2) == Ok::<(Seq<u8>, Seq<u8>), MoqtError>((v.reason_phrase, t3)));
    assert(sp_gated_id(t3) == Ok::<(Option<(u64, u64)>, Seq<u8>), MoqtError>((v.final_id, tail)));
}

#[verifier::spinoff_prover]
#[verifier::rlimit(100)]
pub proof fn lemma_decode_fetch_error(v: FetchErrorView, tail: Seq<u8>)
    requires
        fetch_error_ok(v),
    ensures
        spec_fetch_error(fetch_error_payload(v) + tail) == Ok::<(FetchErrorView, Seq<u8>), MoqtError>(
            (v, tail),
        ),
{
    let code = v.error_code.spec_value();
    let t2 = encode_string(v.reason_phrase) + tail;
    let t1 = encode_varint(code) + t2;
    assert(fetch_error_payload(v) + tail =~= encode_varint(v.subscribe_id) + t1);
    lemma_sp_vi(v.subscribe_id, t1);
    lemma_sp_vi(code, t2);
    lemma_sp_str(v.reason_phrase, tail);
}

#[verifier::spinoff_prover]
#[verifier::rlimit(100)]
proof fn lemma_decode_namespace_error(ns: Seq<Seq<u8>>, code: u64, reason: Seq<u8>, tail: Seq<u8>)
    requires
        namespace_error_ok(ns, code, reason),
        code <= crate::varint::VARINT62_MAX,
    ensures
        spec_namespace_error(namespace_error_payload(ns, code, reason) + tail) == Ok::<
            ((Seq<Seq<u8>>, u64, Seq<u8>), Seq<u8>),
            MoqtError,
        >(((ns, code, reason), tail)),
{
    let t2 = encode_string(reason) + tail;
    let t1 = encode_varint(code) + t2;
    assert(namespace_error_payload(ns, code, reason) + tail =~= crate::wire::encode_tuple(
        ns,
        ns.len(),
    ) + t1);
    lemma_sp_tuple(ns, t1);
    lemma_sp_vi(code, t2);
    lemma_sp_str(reason, tail);
}

#[verifier::spinoff_prover]
#[verifier::rlimit(100)]
pub proof fn lemma_decode_announce_error(
    v: NamespaceErrorView<MoqtAnnounceErrorCode>,
    tail: Seq<u8>,
)
    requires
        namespace_error_ok(v.track_namespace, v.error_code.spec_value(), v.reason_phrase),
    ensures
        spec_announce_error(
            namespace_error_payload(v.track_namespace, v.error_code.spec_value(), v.reason_phrase)
                + tail,
        ) == Ok::<(NamespaceErrorView<MoqtAnnounceErrorCode>, Seq<u8>), MoqtError>((v, tail)),
{
    lemma_decode_namespace_error(
        v.track_namespace,
        v.error_code.spec_value(),
        v.reason_phrase,
        tail,
    );
}

#[verifier::spinoff_prover]
#[verifier::rlimit(100)]
pub proof fn lemma_decode_subscribe_announces_error(
    v: NamespaceErrorView<SubscribeErrorCode>,
    tail: Seq<u8>,
)
    requires
        namespace_error_ok(v.track_namespace, v.error_code.spec_value(), v.reason_phrase),
    ensures
        spec_subscribe_announces_error(
            namespace_error_payload(v.track_namespace, v.error_code.spec_value(), v.reason_phrase)
                + tail,
        ) == Ok::<(NamespaceErrorView<SubscribeErrorCode>, Seq<u8>), MoqtError>((v, tail)),
{
    lemma_decode_namespace_error(
        v.track_namespace,
        v.error_code.spec_value(),
        v.reason_phrase,
        tail,
    );
}

#[verifier::spinoff_prover]
#[verifier::rlimit(100)]
pub proof fn lemma_decode_track_status(v: TrackStatusView, tail: Seq<u8>)
    requires
        track_status_ok(v),
    ensures
        spec_track_status(track_status_payload(v) + tail) == Ok::<(TrackStatusView, Seq<u8>), MoqtError>(
            (v, tail),
        ),
{
    let code = v.status_code.spec_value();
    let t3 = encode_varint(v.last_object) + tail;
    let t2 = encode_varint(v.last_group) + t3;
    let t1 = encode_varint(code) + t2;
    assert(track_status_payload(v) + tail =~= crate::framer::track_name_payload(v.full_track_name)
        + t1);
    lemma_sp_track_name(v.full_track_name, t1);
    lemma_sp_vi(code, t2);
    lemma_sp_vi(v.last_group, t3);
    lemma_sp_vi(v.last_object, tail);
}

#[verifier::spinoff_prover]
#[verifier::rlimit(100)]
proof fn lemma_signed(d: i64)
    requires
        signed_form(d) <= crate::varint::VARINT62_MAX,
    ensures
        signed_value(signed_form(d) as u64) == d as int,
{
    let raw = signed_form(d) as u64;
    if d < 0 {
        assert(raw as int == -2 * d + 1);
        assert(raw % 2 == 1 && raw / 2 == -d) by (nonlinear_arith)
            requires
                raw as int == -2 * d + 1,
                d < 0,
        ;
    } else {
        assert(raw % 2 == 0 && raw / 2 == d) by (nonlinear_arith)
            requires
                raw as int == 2 * d,
                d >= 0,
        ;
    }
}

#[verifier::spinoff_prover]
#[verifier::rlimit(100)]
pub proof fn lemma_decode_object_ack(v: MoqtObjectAck, tail: Seq<u8>)
    requires
        object_ack_ok(v),
    ensures
        spec_object_ack(object_ack_payload(v) + tail) == Ok::<(MoqtObjectAck, Seq<u8>), MoqtError>(
            (v, tail),
        ),
{
    let raw = signed_form(v.delta_from_deadline) as u64;
    let t3 = encode_varint(raw) + tail;
    let t2 = encode_varint(v.object_id) + t3;
    let t1 = encode_varint(v.group_id) + t2;
    assert(object_ack_payload(v) + tail =~= encode_varint(v.subscribe_id) + t1);
    lemma_sp_vi(v.subscribe_id, t1);
    lemma_sp_vi(v.group_id, t2);
    lemma_sp_vi(v.object_id, t3);
    lemma_sp_vi(raw, tail);
    lemma_signed(v.delta_from_deadline);
}


pub open spec fn auth_entries(p: crate::control::ParamsView) -> Seq<(u64, Seq<u8>)> {
    match p.authorization_info {
        Some(a) => seq![(2u64, a)],
        None => Seq::empty(),
    }
}

/// Appends an integer parameter when it is present.
pub open spec fn push_int_entry(l: Seq<(u64, Seq<u8>)>, key: u64, v: Option<u64>) -> Seq<
    (u64, Seq<u8>),
> {
    match v {
        Some(x) => l.push((key, encode_varint(x))),
        None => l,
    }
}

pub open spec fn entries2(p: crate::control::ParamsView) -> Seq<(u64, Seq<u8>)> {
    push_int_entry(auth_entries(p), 3, p.delivery_timeout)
}

pub open spec fn entries3(p: crate::control::ParamsView) -> Seq<(u64, Seq<u8>)> {
    push_int_entry(entries2(p), 4, p.max_cache_duration)
}

/// The parameters of `p` as the framer writes them, as (key, value) pairs.
pub open spec fn param_entries(p: crate::control::ParamsView) -> Seq<(u64, Seq<u8>)> {
    push_int_entry(entries3(p), 0xbbf1439, p.object_ack_window)
}

pub open spec fn auth_bytes(p: crate::control::ParamsView) -> Seq<u8> {
    match p.authorization_info {
        Some(b) => crate::wire::encode_string_param(2, b),
        None => Seq::empty(),
    }
}

proof fn lemma_push_entry(l: Seq<(u64, Seq<u8>)>, e: (u64, Seq<u8>))
    ensures
        encode_entries(l.push(e)) == encode_entries(l) + encode_entry(e),
        fold_params(l.push(e)) == match fold_params(l) {
            Ok(p) => crate::fields::apply_param(p, e.0, e.1),
            Err(err) => Err(err),
        },
{
    assert(l.push(e).drop_last() =~= l);
}

/// Pushing an integer parameter adds its encoding and applies it.
proof fn lemma_push_int(l: Seq<(u64, Seq<u8>)>, key: u64, v: Option<u64>)
    requires
        match v {
            Some(x) => x <= crate::varint::VARINT62_MAX,
            None => true,
        },
    ensures
        encode_entries(push_int_entry(l, key, v)) == encode_entries(l)
            + crate::wire::encode_opt_int_param(key, v),
        v matches Some(x) ==> fold_params(push_int_entry(l, key, v)) == match fold_params(l) {
            Ok(p) => crate::fields::apply_param(p, key, encode_varint(x)),
            Err(err) => Err(err),
        },
        v is None ==> fold_params(push_int_entry(l, key, v)) == fold_params(l),
{
    match v {
        Some(x) => {
            lemma_push_entry(l, (key, encode_varint(x)));
            lemma_int_value(x);
        },
        None => {
            assert(encode_entries(l) + Seq::<u8>::empty() =~= encode_entries(l));
        },
    }
}

#[verifier::spinoff_prover]
#[verifier::rlimit(100)]
proof fn lemma_entries_ok_push(l: Seq<(u64, Seq<u8>)>, e: (u64, Seq<u8>))
    requires
        entries_ok(l),
        e.0 <= crate::varint::VARINT62_MAX,
        crate::wire::str_ok(e.1),
    ensures
        entries_ok(l.push(e)),
{
    assert forall|i: int| 0 <= i < l.push(e).len() implies (#[trigger] l.push(e)[i]).0
        <= crate::varint::VARINT62_MAX && crate::wire::str_ok(l.push(e)[i].1) by {
        if i < l.len() {
            assert(l.push(e)[i] == l[i]);
        }
    }
}

proof fn lemma_int_entries_ok(l: Seq<(u64, Seq<u8>)>, key: u64, v: Option<u64>)
    requires
        entries_ok(l),
        key <= crate::varint::VARINT62_MAX,
        match v {
            Some(x) => x <= crate::varint::VARINT62_MAX,
            None => true,
        },
    ensures
        entries_ok(push_int_entry(l, key, v)),
{
    if let Some(x) = v {
        lemma_int_value(x);
        lemma_entries_ok_push(l, (key, encode_varint(x)));
    }
}

#[verifier::spinoff_prover]
#[verifier::rlimit(100)]
proof fn lemma_entries_folds(p: crate::control::ParamsView)
    requires
        params_ok(p),
    ensures
        fold_params(param_entries(p)) == Ok::<crate::control::ParamsView, MoqtError>(p),
{
    let q1 = crate::control::ParamsView { authorization_info: p.authorization_info, ..no_params() };
    let q2 = crate::control::ParamsView { delivery_timeout: p.delivery_timeout, ..q1 };
    let q3 = crate::control::ParamsView { max_cache_duration: p.max_cache_duration, ..q2 };
    if let Some(a) = p.authorization_info {
        lemma_push_entry(Seq::empty(), (2u64, a));
        assert(Seq::<(u64, Seq<u8>)>::empty().push((2u64, a)) =~= auth_entries(p));
    }
    assert(fold_params(auth_entries(p)) == Ok::<crate::control::ParamsView, MoqtError>(q1));
    lemma_push_int(auth_entries(p), 3, p.delivery_timeout);
    if let Some(x) = p.delivery_timeout {
        lemma_int_value(x);
    }
    assert(fold_params(entries2(p)) == Ok::<crate::control::ParamsView, MoqtError>(q2));
    lemma_push_int(entries2(p), 4, p.max_cache_duration);
    if let Some(x) = p.max_cache_duration {
        lemma_int_value(x);
    }
    assert(fold_params(entries3(p)) == Ok::<crate::control::ParamsView, MoqtError>(q3));
    lemma_push_int(entries3(p), 0xbbf1439, p.object_ack_window);
    if let Some(x) = p.object_ack_window {
        lemma_int_value(x);
    }
}

#[verifier::spinoff_prover]
#[verifier::rlimit(100)]
proof fn lemma_auth_entries(p: crate::control::ParamsView)
    requires
        params_ok(p),
    ensures
        encode_entries(auth_entries(p)) == auth_bytes(p),
        entries_ok(auth_entries(p)),
{
    if let Some(a) = p.authorization_info {
        lemma_push_entry(Seq::empty(), (2u64, a));
        lemma_entries_ok_push(Seq::empty(), (2u64, a));
        assert(Seq::<(u64, Seq<u8>)>::empty().push((2u64, a)) =~= auth_entries(p));
        assert(Seq::<u8>::empty() + encode_entry((2u64, a)) =~= auth_bytes(p));
    } else {
        assert(encode_entries(auth_entries(p)) =~= auth_bytes(p));
    }
}

#[verifier::spinoff_prover]
#[verifier::rlimit(100)]
proof fn lemma_entries_encode(p: crate::control::ParamsView)
    requires
        params_ok(p),
    ensures
        encode_params(p) == encode_varint(param_entries(p).len() as u64) + encode_entries(
            param_entries(p),
        ),
        entries_ok(param_entries(p)),
{
    lemma_auth_entries(p);
    lemma_push_int(auth_entries(p), 3, p.delivery_timeout);
    lemma_push_int(entries2(p), 4, p.max_cache_duration);
    lemma_push_int(entries3(p), 0xbbf1439, p.object_ack_window);
    lemma_int_entries_ok(auth_entries(p), 3, p.delivery_timeout);
    lemma_int_entries_ok(entries2(p), 4, p.max_cache_duration);
    lemma_int_entries_ok(entries3(p), 0xbbf1439, p.object_ack_window);
    let l = param_entries(p);
    let oi3 = crate::wire::encode_opt_int_param(3, p.delivery_timeout);
    let oi4 = crate::wire::encode_opt_int_param(4, p.max_cache_duration);
    let oio = crate::wire::encode_opt_int_param(0xbbf1439, p.object_ack_window);
    let n = encode_varint(l.len() as u64);
    assert(l.len() == params_count(p));
    assert(encode_params(p) == n + auth_bytes(p) + oi3 + oi4 + oio) by {
        reveal(encode_params);
    }
    assert(encode_params(p) =~= n + encode_entries(l));
}

/// Track-request parameters decode back, whatever follows.
#[verifier::spinoff_prover]
#[verifier::rlimit(100)]
pub proof fn lemma_sp_params(p: crate::control::ParamsView, tail: Seq<u8>)
    requires
        params_ok(p),
    ensures
        sp_params(encode_params(p) + tail) == Ok::<(crate::control::ParamsView, Seq<u8>), MoqtError>(
            (p, tail),
        ),
{
    lemma_entries_folds(p);
    lemma_entries_encode(p);
    let l = param_entries(p);
    let n = l.len() as u64;
    assert(encode_params(p) + tail =~= encode_varint(n) + (encode_entries(l) + tail));
    lemma_sp_vi(n, encode_entries(l) + tail);
    lemma_sp_params_from(l, tail);
}


proof fn lemma_two_bytes(a: u8, b: u8, tail: Seq<u8>)
    ensures
        sp_u8(seq![a, b] + tail) == Ok::<(u8, Seq<u8>), MoqtError>((a, seq![b] + tail)),
        sp_u8(seq![b] + tail) == Ok::<(u8, Seq<u8>), MoqtError>((b, tail)),
{
    assert(seq![a, b] + tail =~= seq![a] + (seq![b] + tail));
    lemma_sp_u8(a, seq![b] + tail);
    lemma_sp_u8(b, tail);
}

proof fn lemma_unshift(v: Option<u64>)
    requires
        shifted_ok(v),
    ensures
        unshift(shifted(v)) == v,
        shifted(v) <= crate::varint::VARINT62_MAX,
{
}

#[verifier::spinoff_prover]
#[verifier::rlimit(100)]
pub proof fn lemma_decode_namespace_params(v: NamespaceParamsView, tail: Seq<u8>)
    requires
        namespace_params_ok(v),
    ensures
        spec_namespace_params(namespace_params_payload(v) + tail) == Ok::<
            (NamespaceParamsView, Seq<u8>),
            MoqtError,
        >((v, tail)),
{
    let t1 = encode_params(v.parameters) + tail;
    assert(namespace_params_payload(v) + tail =~= encode_tuple(
        v.track_namespace,
        v.track_namespace.len(),
    ) + t1);
    lemma_sp_tuple(v.track_namespace, t1);
    lemma_sp_params(v.parameters, tail);
}

#[verifier::spinoff_prover]
#[verifier::rlimit(100)]
pub proof fn lemma_decode_announce(v: NamespaceParamsView, tail: Seq<u8>)
    requires
        namespace_params_ok(v),
        v.parameters.delivery_timeout is None,
    ensures
        spec_announce(namespace_params_payload(v) + tail) == Ok::<
            (NamespaceParamsView, Seq<u8>),
            MoqtError,
        >((v, tail)),
{
    lemma_decode_namespace_params(v, tail);
}

#[verifier::spinoff_prover]
#[verifier::rlimit(100)]
pub proof fn lemma_decode_fetch_ok(v: FetchOkView, tail: Seq<u8>)
    requires
        fetch_ok_ok(v),
    ensures
        spec_fetch_ok(fetch_ok_payload(v) + tail) == Ok::<(FetchOkView, Seq<u8>), MoqtError>(
            (v, tail),
        ),
{
    let ob = delivery_order_byte(Some(v.group_order));
    let t4 = encode_params(v.parameters) + tail;
    let t3 = encode_varint(v.largest_object) + t4;
    let t2 = encode_varint(v.largest_group) + t3;
    let t1 = seq![ob] + t2;
    assert(fetch_ok_payload(v) + tail =~= encode_varint(v.subscribe_id) + t1);
    lemma_sp_vi(v.subscribe_id, t1);
    lemma_sp_u8(ob, t2);
    lemma_sp_vi(v.largest_group, t3);
    lemma_sp_vi(v.largest_object, t4);
    lemma_sp_params(v.parameters, tail);
    assert(reply_order_of(ob) == Some(v.group_order));
}

#[verifier::spinoff_prover]
#[verifier::rlimit(100)]
pub proof fn lemma_decode_subscribe_ok(v: SubscribeOkView, tail: Seq<u8>)
    requires
        subscribe_ok_ok(v),
    ensures
        spec_subscribe_ok(subscribe_ok_payload(v) + tail) == Ok::<(SubscribeOkView, Seq<u8>), MoqtError>(
            (v, tail),
        ),
{
    let ob = delivery_order_byte(Some(v.group_order));
    let t4 = encode_params(v.parameters) + tail;
    let t3 = gated_bytes(v.largest_id) + t4;
    let t2 = seq![ob] + t3;
    let t1 = encode_varint(v.expires) + t2;
    assert(subscribe_ok_payload(v) + tail =~= encode_varint(v.subscribe_id) + t1);
    lemma_sp_vi(v.subscribe_id, t1);
    lemma_sp_vi(v.expires, t2);
    lemma_sp_u8(ob, t3);
    lemma_sp_gated(v.largest_id, t4);
    lemma_sp_params(v.parameters, tail);
    assert(reply_order_of(ob) == Some(v.group_order));
}

/// Whether the end of a SUBSCRIBE_UPDATE range does not come before its start.
pub open spec fn update_range_ordered(v: SubscribeUpdateView) -> bool {
    match v.end_group {
        Some(eg) => eg >= v.start_group && (eg == v.start_group && v.end_object is Some
            ==> v.end_object->0 >= v.start_object),
        None => true,
    }
}

#[verifier::spinoff_prover]
#[verifier::rlimit(100)]
pub proof fn lemma_decode_subscribe_update(v: SubscribeUpdateView, tail: Seq<u8>)
    requires
        subscribe_update_ok(v),
        update_range_ordered(v),
    ensures
        spec_subscribe_update(subscribe_update_payload(v) + tail) == Ok::<
            (SubscribeUpdateView, Seq<u8>),
            MoqtError,
        >((v, tail)),
{
    let egr = shifted(v.end_group);
    let eor = shifted(v.end_object);
    let t6 = encode_params(v.parameters) + tail;
    let t5 = seq![v.subscriber_priority] + t6;
    let t4 = encode_varint(eor) + t5;
    let t3 = encode_varint(egr) + t4;
    let t2 = encode_varint(v.start_object) + t3;
    let t1 = encode_varint(v.start_group) + t2;
    assert(subscribe_update_payload(v) + tail =~= encode_varint(v.subscribe_id) + t1);
    lemma_unshift(v.end_group);
    lemma_unshift(v.end_object);
    lemma_sp_vi(v.subscribe_id, t1);
    lemma_sp_vi(v.start_group, t2);
    lemma_sp_vi(v.start_object, t3);
    lemma_sp_vi(egr, t4);
    lemma_sp_vi(eor, t5);
    lemma_sp_u8(v.subscriber_priority, t6);
    lemma_sp_params(v.parameters, tail);
}

/// The tails that FETCH decoding walks through.
pub open spec fn fetch_tails(v: FetchView, tail: Seq<u8>) -> Seq<Seq<u8>> {
    let t7 = encode_params(v.parameters) + tail;
    let t6 = encode_varint(shifted(v.end_object)) + t7;
    let t5 = encode_varint(v.end_group) + t6;
    let t4 = encode_varint(v.start_object) + t5;
    let t3 = encode_varint(v.start_group) + t4;
    let t2 = seq![v.subscriber_priority, delivery_order_byte(v.group_order)] + t3;
    let t1 = track_name_payload(v.full_track_name) + t2;
    seq![encode_varint(v.subscribe_id) + t1, t1, t2, t3, t4, t5, t6, t7]
}

#[verifier::spinoff_prover]
proof fn lemma_fetch_shape(v: FetchView, tail: Seq<u8>)
    ensures
        fetch_payload(v) + tail == fetch_tails(v, tail)[0],
{
    let t = fetch_tails(v, tail);
    assert(fetch_payload(v) + tail =~= t[0]);
}

#[verifier::spinoff_prover]
#[verifier::rlimit(100)]
pub proof fn lemma_decode_fetch(v: FetchView, tail: Seq<u8>)
    requires
        fetch_ok_valid(v),
    ensures
        spec_fetch(fetch_payload(v) + tail) == Ok::<(FetchView, Seq<u8>), MoqtError>((v, tail)),
{
    let t = fetch_tails(v, tail);
    let ob = delivery_order_byte(v.group_order);
    let eor = shifted(v.end_object);
    lemma_fetch_shape(v, tail);
    lemma_unshift(v.end_object);
    lemma_sp_vi(v.subscribe_id, t[1]);
    lemma_sp_track_name(v.full_track_name, t[2]);
    lemma_two_bytes(v.subscriber_priority, ob, t[3]);
    lemma_sp_vi(v.start_group, t[4]);
    lemma_sp_vi(v.start_object, t[5]);
    lemma_sp_vi(v.end_group, t[6]);
    lemma_sp_vi(eor, t[7]);
    lemma_sp_params(v.parameters, tail);
    assert(request_order_of(ob) == Some(v.group_order));
    assert(sp_vi(t[0]) == Ok::<(u64, Seq<u8>), MoqtError>((v.subscribe_id, t[1])));
    assert(sp_track_name(t[1]) == Ok::<(Seq<Seq<u8>>, Seq<u8>), MoqtError>(
        (v.full_track_name, t[2]),
    ));
    assert(sp_u8(t[2]) == Ok::<(u8, Seq<u8>), MoqtError>((v.subscriber_priority, seq![ob] + t[3])));
    assert(sp_u8(seq![ob] + t[3]) == Ok::<(u8, Seq<u8>), MoqtError>((ob, t[3])));
    assert(sp_vi(t[3]) == Ok::<(u64, Seq<u8>), MoqtError>((v.start_group, t[4])));
    assert(sp_vi(t[4]) == Ok::<(u64, Seq<u8>), MoqtError>((v.start_object, t[5])));
    assert(sp_vi(t[5]) == Ok::<(u64, Seq<u8>), MoqtError>((v.end_group, t[6])));
    assert(sp_vi(t[6]) == Ok::<(u64, Seq<u8>), MoqtError>((eor, t[7])));
}

#[verifier::spinoff_prover]
#[verifier::rlimit(100)]
proof fn lemma_decode_subscribe_range(v: SubscribeView, tail: Seq<u8>)
    requires
        subscribe_ok(v),
    ensures
        sp_subscribe_range(subscribe_range(v, filter_type_spec(v)) + tail, filter_type_spec(
            v,
        ).spec_value()) == Ok::<((Option<u64>, Option<u64>, Option<u64>, Option<u64>), Seq<u8>), MoqtError>(
            ((v.start_group, v.start_object, v.end_group, v.end_object), tail),
        ),
{
    let f = filter_type_spec(v);
    if f == MoqtFilterType::kAbsoluteStart {
        let t1 = encode_varint(v.start_object->0) + tail;
        assert(subscribe_range(v, f) + tail =~= encode_varint(v.start_group->0) + t1);
        lemma_sp_vi(v.start_group->0, t1);
        lemma_sp_vi(v.start_object->0, tail);
    } else if f == MoqtFilterType::kAbsoluteRange {
        let eor = shifted(v.end_object);
        let t3 = encode_varint(eor) + tail;
        let t2 = encode_varint(v.end_group->0) + t3;
        let t1 = encode_varint(v.start_object->0) + t2;
        assert(subscribe_range(v, f) + tail =~= encode_varint(v.start_group->0) + t1);
        lemma_unshift(v.end_object);
        lemma_sp_vi(v.start_group->0, t1);
        lemma_sp_vi(v.start_object->0, t2);
        lemma_sp_vi(v.end_group->0, t3);
        lemma_sp_vi(eor, tail);
    } else {
        assert(subscribe_range(v, f) + tail =~= tail);
    }
}

#[verifier::spinoff_prover]
#[verifier::rlimit(100)]
pub proof fn lemma_decode_subscribe(v: SubscribeView, tail: Seq<u8>)
    requires
        subscribe_ok(v),
    ensures
        spec_subscribe(subscribe_payload(v) + tail) == Ok::<(SubscribeView, Seq<u8>), MoqtError>(
            (v, tail),
        ),
{
    let f = filter_type_spec(v);
    let ob = delivery_order_byte(v.group_order);
    let t6 = encode_params(v.parameters) + tail;
    let t5 = subscribe_range(v, f) + t6;
    let t4 = encode_varint(f.spec_value()) + t5;
    let t3 = seq![v.subscriber_priority, ob] + t4;
    let t2 = track_name_payload(v.full_track_name) + t3;
    let t1 = encode_varint(v.track_alias) + t2;
    assert(subscribe_payload(v) + tail =~= encode_varint(v.subscribe_id) + t1);
    lemma_sp_vi(v.subscribe_id, t1);
    lemma_sp_vi(v.track_alias, t2);
    lemma_sp_track_name(v.full_track_name, t3);
    lemma_two_bytes(v.subscriber_priority, ob, t4);
    lemma_sp_vi(f.spec_value(), t5);
    lemma_decode_subscribe_range(v, t6);
    lemma_sp_params(v.parameters, tail);
    assert(request_order_of(ob) == Some(v.group_order));
}


proof fn lemma_int_entry(key: u64, v: u64)
    requires
        v <= crate::varint::VARINT62_MAX,
    ensures
        encode_entry((key, encode_varint(v))) == crate::wire::encode_int_param(key, v),
        crate::wire::str_ok(encode_varint(v)),
{
    lemma_int_value(v);
}

/// SETUP parameters applied in order.
pub open spec fn fold_setup(l: Seq<(u64, Seq<u8>)>, is_client: bool, webtrans: bool) -> Result<
    SetupState,
    MoqtError,
>
    decreases l.len(),
{
    if l.len() == 0 {
        Ok(no_setup())
    } else {
        match fold_setup(l.drop_last(), is_client, webtrans) {
            Ok(st) => apply_setup_param(st, l.last().0, l.last().1, is_client, webtrans),
            Err(e) => Err(e),
        }
    }
}

#[verifier::spinoff_prover]
#[verifier::rlimit(100)]
proof fn lemma_sp_setup_from(l: Seq<(u64, Seq<u8>)>, tail: Seq<u8>, is_client: bool, webtrans: bool)
    requires
        entries_ok(l),
        fold_setup(l, is_client, webtrans) is Ok,
    ensures
        sp_setup_from(encode_entries(l) + tail, l.len(), is_client, webtrans) == Ok::<
            (SetupState, Seq<u8>),
            MoqtError,
        >((fold_setup(l, is_client, webtrans)->Ok_0, tail)),
    decreases l.len(),
{
    if l.len() == 0 {
        assert(Seq::<u8>::empty() + tail =~= tail);
    } else {
        let init = l.drop_last();
        let last = l.last();
        let mid = encode_entry(last) + tail;
        assert(entries_ok(init)) by {
            assert forall|i: int| 0 <= i < init.len() implies (#[trigger] init[i]).0
                <= crate::varint::VARINT62_MAX && crate::wire::str_ok(init[i].1) by {
                assert(init[i] == l[i]);
            }
        }
        assert(l[l.len() - 1] == last);
        lemma_sp_setup_from(init, mid, is_client, webtrans);
        assert(encode_entries(l) + tail =~= encode_entries(init) + mid);
        lemma_sp_vi(last.0, encode_string(last.1) + tail);
        assert(mid =~= encode_varint(last.0) + (encode_string(last.1) + tail));
        lemma_sp_str(last.1, tail);
    }
}

/// The integer SETUP parameters as the framer writes them.
pub open spec fn setup_entries(role: Option<MoqtRole>, max_id: Option<u64>, oack: bool) -> Seq<
    (u64, Seq<u8>),
> {
    let e1 = match role {
        Some(r) => seq![(0u64, encode_varint(r.spec_value()))],
        None => Seq::empty(),
    };
    let e2 = push_int_entry(e1, 2, max_id);
    if oack {
        e2.push((0xbbf1439u64, encode_varint(1)))
    } else {
        e2
    }
}

proof fn lemma_push_entry_setup(l: Seq<(u64, Seq<u8>)>, e: (u64, Seq<u8>), is_client: bool, webtrans: bool)
    ensures
        fold_setup(l.push(e), is_client, webtrans) == match fold_setup(l, is_client, webtrans) {
            Ok(st) => apply_setup_param(st, e.0, e.1, is_client, webtrans),
            Err(err) => Err(err),
        },
{
    assert(l.push(e).drop_last() =~= l);
}

#[verifier::spinoff_prover]
#[verifier::rlimit(100)]
proof fn lemma_setup_entries(
    role: Option<MoqtRole>,
    max_id: Option<u64>,
    oack: bool,
    is_client: bool,
    webtrans: bool,
)
    requires
        crate::wire::opt_vi_ok(max_id),
    ensures
        entries_ok(setup_entries(role, max_id, oack)),
        encode_entries(setup_entries(role, max_id, oack)) == setup_int_params(role, max_id, oack),
        setup_entries(role, max_id, oack).len() == setup_int_count(role, max_id, oack),
        fold_setup(setup_entries(role, max_id, oack), is_client, webtrans) == Ok::<SetupState, MoqtError>(
            SetupState {
                role,
                path: None,
                max_subscribe_id: max_id,
                supports_object_ack: oack,
            },
        ),
{
    let empty = Seq::<(u64, Seq<u8>)>::empty();
    let e1 = match role {
        Some(r) => seq![(0u64, encode_varint(r.spec_value()))],
        None => empty,
    };
    let rb = match role {
        Some(r) => crate::wire::encode_int_param(0, r.spec_value()),
        None => Seq::empty(),
    };
    if let Some(r) = role {
        lemma_push_entry(empty, (0u64, encode_varint(r.spec_value())));
        lemma_push_entry_setup(empty, (0u64, encode_varint(r.spec_value())), is_client, webtrans);
        lemma_int_entry(0, r.spec_value());
        lemma_int_value(r.spec_value());
        lemma_entries_ok_push(empty, (0u64, encode_varint(r.spec_value())));
        assert(empty.push((0u64, encode_varint(r.spec_value()))) =~= e1);
        assert(Seq::<u8>::empty() + encode_entry((0u64, encode_varint(r.spec_value()))) =~= rb);
        assert(MoqtRole::spec_from_value(r.spec_value()) == Some(r));
    } else {
        assert(encode_entries(e1) =~= rb);
    }
    let st1 = SetupState { role, path: None, max_subscribe_id: None, supports_object_ack: false };
    assert(fold_setup(e1, is_client, webtrans) == Ok::<SetupState, MoqtError>(st1));
    lemma_push_int(e1, 2, max_id);
    lemma_int_entries_ok(e1, 2, max_id);
    let e2 = push_int_entry(e1, 2, max_id);
    if let Some(x) = max_id {
        lemma_push_entry_setup(e1, (2u64, encode_varint(x)), is_client, webtrans);
        lemma_int_value(x);
    }
    let st2 = SetupState { role, path: None, max_subscribe_id: max_id, supports_object_ack: false };
    assert(fold_setup(e2, is_client, webtrans) == Ok::<SetupState, MoqtError>(st2));
    if oack {
        lemma_push_entry(e2, (0xbbf1439u64, encode_varint(1)));
        lemma_push_entry_setup(e2, (0xbbf1439u64, encode_varint(1)), is_client, webtrans);
        lemma_int_entry(0xbbf1439, 1);
        lemma_int_value(1);
        lemma_entries_ok_push(e2, (0xbbf1439u64, encode_varint(1)));
    } else {
        assert(encode_entries(e2) + Seq::<u8>::empty() =~= encode_entries(e2));
    }
    assert(encode_entries(setup_entries(role, max_id, oack)) =~= setup_int_params(
        role,
        max_id,
        oack,
    ));
}

#[verifier::spinoff_prover]
#[verifier::rlimit(100)]
pub proof fn lemma_decode_server_setup(m: MoqtServerSetup, tail: Seq<u8>)
    requires
        server_setup_ok(m),
        m.role is Some,
    ensures
        spec_server_setup(server_setup_payload(m) + tail) == Ok::<(MoqtServerSetup, Seq<u8>), MoqtError>(
            (m, tail),
        ),
{
    let l = setup_entries(m.role, m.max_subscribe_id, m.supports_object_ack);
    lemma_setup_entries(m.role, m.max_subscribe_id, m.supports_object_ack, false, false);
    let n = l.len() as u64;
    let t2 = encode_entries(l) + tail;
    let t1 = encode_varint(n) + t2;
    assert(server_setup_payload(m) + tail =~= encode_varint(m.selected_version) + t1);
    lemma_sp_vi(m.selected_version, t1);
    lemma_sp_vi(n, t2);
    lemma_sp_setup_from(l, tail, false, false);
}

pub proof fn lemma_sp_varints(vs: Seq<u64>, tail: Seq<u8>)
    requires
        forall|i: int| 0 <= i < vs.len() ==> #[trigger] vs[i] <= crate::varint::VARINT62_MAX,
    ensures
        sp_varints(encode_varints(vs) + tail, vs.len()) == Ok::<(Seq<u64>, Seq<u8>), MoqtError>(
            (vs, tail),
        ),
    decreases vs.len(),
{
    if vs.len() > 0 {
        let init = vs.drop_last();
        let last = vs.last();
        let mid = encode_varint(last) + tail;
        assert forall|i: int| 0 <= i < init.len() implies #[trigger] init[i]
            <= crate::varint::VARINT62_MAX by {
            assert(init[i] == vs[i]);
        }
        lemma_sp_varints(init, mid);
        assert(encode_varints(vs) + tail =~= encode_varints(init) + mid);
        assert(vs[vs.len() - 1] == last);
        lemma_sp_vi(last, tail);
        assert(init.push(last) =~= vs);
    } else {
        assert(Seq::<u8>::empty() + tail =~= tail);
        assert(vs =~= Seq::<u64>::empty());
    }
}

/// CLIENT_SETUP as the parser of a session reports it: without the path
/// over WebTransport.
pub open spec fn client_setup_seen(m: ClientSetupView, webtrans: bool) -> ClientSetupView {
    ClientSetupView { path: client_path(m, webtrans), ..m }
}

#[verifier::spinoff_prover]
#[verifier::rlimit(100)]
pub proof fn lemma_decode_client_setup(m: ClientSetupView, webtrans: bool, tail: Seq<u8>)
    requires
        client_setup_ok(m, webtrans),
        m.role is Some,
        !webtrans ==> m.path is Some,
    ensures
        spec_client_setup(client_setup_payload(m, webtrans) + tail, webtrans) == Ok::<
            (ClientSetupView, Seq<u8>),
            MoqtError,
        >((client_setup_seen(m, webtrans), tail)),
{
    let path = client_path(m, webtrans);
    let ints = setup_entries(m.role, m.max_subscribe_id, m.supports_object_ack);
    lemma_setup_entries(m.role, m.max_subscribe_id, m.supports_object_ack, true, webtrans);
    let l = match path {
        Some(pb) => ints.push((1u64, pb)),
        None => ints,
    };
    let path_bytes = match path {
        Some(pb) => crate::wire::encode_string_param(1, pb),
        None => Seq::empty(),
    };
    if let Some(pb) = path {
        lemma_push_entry(ints, (1u64, pb));
        lemma_push_entry_setup(ints, (1u64, pb), true, webtrans);
        lemma_entries_ok_push(ints, (1u64, pb));
    } else {
        assert(encode_entries(ints) + Seq::<u8>::empty() =~= encode_entries(ints));
    }
    assert(encode_entries(l) == setup_int_params(m.role, m.max_subscribe_id, m.supports_object_ack)
        + path_bytes);
    let st = SetupState {
        role: m.role,
        path,
        max_subscribe_id: m.max_subscribe_id,
        supports_object_ack: m.supports_object_ack,
    };
    assert(fold_setup(l, true, webtrans) == Ok::<SetupState, MoqtError>(st));
    let n = l.len() as u64;
    let t3 = encode_entries(l) + tail;
    let t2 = encode_varint(n) + t3;
    let t1 = encode_varints(m.supported_versions) + t2;
    assert(client_setup_payload(m, webtrans) + tail =~= encode_varint(
        m.supported_versions.len() as u64,
    ) + t1);
    lemma_sp_vi(m.supported_versions.len() as u64, t1);
    lemma_sp_varints(m.supported_versions, t2);
    lemma_sp_vi(n, t3);
    lemma_sp_setup_from(l, tail, true, webtrans);
    assert(client_setup_seen(m, webtrans) == ClientSetupView {
        supported_versions: m.supported_versions,
        role: st.role,
        path: st.path,
        max_subscribe_id: st.max_subscribe_id,
        supports_object_ack: st.supports_object_ack,
    });
}

} // verus!
