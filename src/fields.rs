use vstd::prelude::*;
use crate::control::{FullTrackName, MoqtSubscribeParameters, ParamsView};
use crate::messages::MoqtError;
use crate::reader::{decode_string, DataReader};
use crate::varint::{decode_varint, encode_varint, lemma_decode_encode, varint_len, VARINT62_MAX};
use crate::wire::{encode_strings, encode_tuple, str_ok, strings_ok};
use crate::writer::encode_string;

verus! {

/// The part of `s` from `n` on.
pub open spec fn after(s: Seq<u8>, n: nat) -> Seq<u8> {
    s.subrange(n as int, s.len() as int)
}

/// Outcome of decoding a field at the start of a byte sequence: the value
/// and what follows it, or the error.
pub type Step<T> = Result<(T, Seq<u8>), MoqtError>;

pub open spec fn sp_vi(s: Seq<u8>) -> Step<u64> {
    match decode_varint(s) {
        Some((v, n)) => Ok((v, after(s, n))),
        None => Err(MoqtError::kProtocolViolation),
    }
}

pub open spec fn sp_u8(s: Seq<u8>) -> Step<u8> {
    if s.len() > 0 {
        Ok((s[0], after(s, 1)))
    } else {
        Err(MoqtError::kProtocolViolation)
    }
}

pub open spec fn sp_str(s: Seq<u8>) -> Step<Seq<u8>> {
    match decode_string(s) {
        Some((b, n)) => Ok((b, after(s, n))),
        None => Err(MoqtError::kProtocolViolation),
    }
}

/// `count` length-prefixed strings, one after the other.
pub open spec fn sp_strs(s: Seq<u8>, count: nat) -> Step<Seq<Seq<u8>>>
    decreases count,
{
    if count == 0 {
        Ok((Seq::empty(), s))
    } else {
        match sp_strs(s, (count - 1) as nat) {
            Ok((t, r)) => match sp_str(r) {
                Ok((b, r2)) => Ok((t.push(b), r2)),
                Err(e) => Err(e),
            },
            Err(e) => Err(e),
        }
    }
}

/// A tuple: its element count, then the elements.
pub open spec fn sp_tuple(s: Seq<u8>) -> Step<Seq<Seq<u8>>> {
    match sp_vi(s) {
        Ok((n, r)) => sp_strs(r, n as nat),
        Err(e) => Err(e),
    }
}

/// A full track name: the namespace tuple, then the track name.
pub open spec fn sp_track_name(s: Seq<u8>) -> Step<Seq<Seq<u8>>> {
    match sp_tuple(s) {
        Ok((t, r)) => match sp_str(r) {
            Ok((name, r2)) => Ok((t.push(name), r2)),
            Err(e) => Err(e),
        },
        Err(e) => Err(e),
    }
}

/// The integer that a parameter value holds: a varint that fills it exactly.
pub open spec fn int_value(b: Seq<u8>) -> Result<u64, MoqtError> {
    match decode_varint(b) {
        Some((v, n)) => if n == b.len() {
            Ok(v)
        } else {
            Err(MoqtError::kParameterLengthMismatch)
        },
        None => Err(MoqtError::kParameterLengthMismatch),
    }
}

pub open spec fn no_params() -> ParamsView {
    ParamsView {
        authorization_info: None,
        delivery_timeout: None,
        max_cache_duration: None,
        object_ack_window: None,
    }
}

/// Adds one parameter; a key seen before is a protocol violation, an
/// unknown key is skipped.
pub open spec fn apply_param(p: ParamsView, key: u64, val: Seq<u8>) -> Result<ParamsView, MoqtError> {
    if key == 2 {
        if p.authorization_info is Some {
            Err(MoqtError::kProtocolViolation)
        } else {
            Ok(
                ParamsView {
                    authorization_info: Some(val),
                    delivery_timeout: p.delivery_timeout,
                    max_cache_duration: p.max_cache_duration,
                    object_ack_window: p.object_ack_window,
                },
            )
        }
    } else if key == 3 {
        if p.delivery_timeout is Some {
            Err(MoqtError::kProtocolViolation)
        } else {
            match int_value(val) {
                Ok(v) => Ok(
                    ParamsView {
                        authorization_info: p.authorization_info,
                        delivery_timeout: Some(v),
                        max_cache_duration: p.max_cache_duration,
                        object_ack_window: p.object_ack_window,
                    },
                ),
                Err(e) => Err(e),
            }
        }
    } else if key == 4 {
        if p.max_cache_duration is Some {
            Err(MoqtError::kProtocolViolation)
        } else {
            match int_value(val) {
                Ok(v) => Ok(
                    ParamsView {
                        authorization_info: p.authorization_info,
                        delivery_timeout: p.delivery_timeout,
                        max_cache_duration: Some(v),
                        object_ack_window: p.object_ack_window,
                    },
                ),
                Err(e) => Err(e),
            }
        }
    } else if key == 0xbbf1439 {
        if p.object_ack_window is Some {
            Err(MoqtError::kProtocolViolation)
        } else {
            match int_value(val) {
                Ok(v) => Ok(
                    ParamsView {
                        authorization_info: p.authorization_info,
                        delivery_timeout: p.delivery_timeout,
                        max_cache_duration: p.max_cache_duration,
                        object_ack_window: Some(v),
                    },
                ),
                Err(e) => Err(e),
            }
        }
    } else {
        Ok(p)
    }
}

/// The first `count` parameters.
pub open spec fn sp_params_from(s: Seq<u8>, count: nat) -> Step<ParamsView>
    decreases count,
{
    if count == 0 {
        Ok((no_params(), s))
    } else {
        match sp_params_from(s, (count - 1) as nat) {
            Ok((p, r)) => match sp_vi(r) {
                Ok((key, r2)) => match sp_str(r2) {
                    Ok((val, r3)) => match apply_param(p, key, val) {
                        Ok(applied) => Ok((applied, r3)),
                        Err(e) => Err(e),
                    },
                    Err(e) => Err(e),
                },
                Err(e) => Err(e),
            },
            Err(e) => Err(e),
        }
    }
}

/// Track-request parameters: their count, then each key and value.
pub open spec fn sp_params(s: Seq<u8>) -> Step<ParamsView> {
    match sp_vi(s) {
        Ok((n, r)) => sp_params_from(r, n as nat),
        Err(e) => Err(e),
    }
}

proof fn lemma_strs_err(s: Seq<u8>, i: nat, j: nat)
    requires
        sp_strs(s, i) is Err,
        i <= j,
    ensures
        sp_strs(s, j) == sp_strs(s, i),
    decreases j - i,
{
    if i < j {
        lemma_strs_err(s, i, (j - 1) as nat);
    }
}

proof fn lemma_params_err(s: Seq<u8>, i: nat, j: nat)
    requires
        sp_params_from(s, i) is Err,
        i <= j,
    ensures
        sp_params_from(s, j) == sp_params_from(s, i),
    decreases j - i,
{
    if i < j {
        lemma_params_err(s, i, (j - 1) as nat);
    }
}

pub fn read_vi(r: &mut DataReader) -> (res: Result<u64, MoqtError>)
    requires
        old(r).wf(),
    ensures
        final(r).wf(),
        final(r).data() == old(r).data(),
        match sp_vi(old(r).rest()) {
            Ok((v, t)) => res == Ok::<u64, MoqtError>(v) && final(r).rest() == t,
            Err(e) => res == Err::<u64, MoqtError>(e),
        },
{
    let ghost s = r.rest();
    match r.read_var_int62() {
        Some(v) => {
            Ok(v)
        },
        None => Err(MoqtError::kProtocolViolation),
    }
}

pub fn read_u8(r: &mut DataReader) -> (res: Result<u8, MoqtError>)
    requires
        old(r).wf(),
    ensures
        final(r).wf(),
        final(r).data() == old(r).data(),
        match sp_u8(old(r).rest()) {
            Ok((v, t)) => res == Ok::<u8, MoqtError>(v) && final(r).rest() == t,
            Err(e) => res == Err::<u8, MoqtError>(e),
        },
{
    let ghost s = r.rest();
    match r.read_uint8() {
        Some(v) => Ok(v),
        None => Err(MoqtError::kProtocolViolation),
    }
}

pub fn read_str(r: &mut DataReader) -> (res: Result<Vec<u8>, MoqtError>)
    requires
        old(r).wf(),
    ensures
        final(r).wf(),
        final(r).data() == old(r).data(),
        match sp_str(old(r).rest()) {
            Ok((v, t)) => res is Ok && res->Ok_0@ == v && final(r).rest() == t,
            Err(e) => res == Err::<Vec<u8>, MoqtError>(e),
        },
{
    let ghost s = r.rest();
    match r.read_string_var_int62() {
        Some(v) => {
            Ok(v)
        },
        None => Err(MoqtError::kProtocolViolation),
    }
}

/// Reads a tuple of name elements.
pub fn read_tuple(r: &mut DataReader) -> (res: Result<FullTrackName, MoqtError>)
    requires
        old(r).wf(),
    ensures
        final(r).wf(),
        final(r).data() == old(r).data(),
        match sp_tuple(old(r).rest()) {
            Ok((v, t)) => res is Ok && res->Ok_0@ == v && final(r).rest() == t,
            Err(e) => res == Err::<FullTrackName, MoqtError>(e),
        },
{
    let count = read_vi(r)?;
    let ghost s0 = r.rest();
    let mut tuple: Vec<Vec<u8>> = Vec::new();
    let mut i: u64 = 0;
    while i < count
        invariant
            r.wf(),
            r.data() == old(r).data(),
            i <= count,
            sp_tuple(old(r).rest()) == sp_strs(s0, count as nat),
            sp_strs(s0, i as nat) matches Ok((t, rest)) && tuple@.map_values(|e: Vec<u8>| e@) == t
                && r.rest() == rest,
        decreases count - i,
    {
        let e = match read_str(r) {
            Ok(e) => e,
            Err(err) => {
                proof {
                    assert(sp_strs(s0, (i + 1) as nat) == Err::<(Seq<Seq<u8>>, Seq<u8>), MoqtError>(
                        err,
                    ));
                    lemma_strs_err(s0, (i + 1) as nat, count as nat);
                }
                return Err(err);
            },
        };
        proof {
            let m0 = tuple@.map_values(|e: Vec<u8>| e@);
            assert(tuple@.push(e).map_values(|x: Vec<u8>| x@) =~= m0.push(e@));
        }
        tuple.push(e);
        i = i + 1;
    }
    Ok(FullTrackName { tuple })
}

/// Reads a full track name: a namespace tuple, then the track name.
pub fn read_track_name(r: &mut DataReader) -> (res: Result<FullTrackName, MoqtError>)
    requires
        old(r).wf(),
    ensures
        final(r).wf(),
        final(r).data() == old(r).data(),
        match sp_track_name(old(r).rest()) {
            Ok((v, t)) => res is Ok && res->Ok_0@ == v && final(r).rest() == t,
            Err(e) => res == Err::<FullTrackName, MoqtError>(e),
        },
{
    let mut name = read_tuple(r)?;
    let last = read_str(r)?;
    proof {
        let m0 = name.tuple@.map_values(|e: Vec<u8>| e@);
        assert(name.tuple@.push(last).map_values(|x: Vec<u8>| x@) =~= m0.push(last@));
    }
    name.tuple.push(last);
    Ok(name)
}

fn int_value_exec(b: &Vec<u8>) -> (res: Result<u64, MoqtError>)
    ensures
        res == int_value(b@),
{
    let mut rd = DataReader::new(b.as_slice());
    match rd.read_var_int62() {
        Some(v) => {
            if rd.remaining() == 0 {
                Ok(v)
            } else {
                Err(MoqtError::kParameterLengthMismatch)
            }
        },
        None => Err(MoqtError::kParameterLengthMismatch),
    }
}

/// Reads one parameter into `p`.
fn read_param(r: &mut DataReader, p: &mut MoqtSubscribeParameters) -> (res: Result<(), MoqtError>)
    requires
        old(r).wf(),
    ensures
        final(r).wf(),
        final(r).data() == old(r).data(),
        match sp_vi(old(r).rest()) {
            Ok((key, r2)) => match sp_str(r2) {
                Ok((val, r3)) => match apply_param(old(p)@, key, val) {
                    Ok(applied) => res is Ok && final(p)@ == applied && final(r).rest() == r3,
                    Err(e) => res == Err::<(), MoqtError>(e),
                },
                Err(e) => res == Err::<(), MoqtError>(e),
            },
            Err(e) => res == Err::<(), MoqtError>(e),
        },
{
    let key = read_vi(r)?;
    let val = read_str(r)?;
    if key == 2 {
        if p.authorization_info.is_some() {
            return Err(MoqtError::kProtocolViolation);
        }
        p.authorization_info = Some(val);
    } else if key == 3 {
        if p.delivery_timeout.is_some() {
            return Err(MoqtError::kProtocolViolation);
        }
        p.delivery_timeout = Some(int_value_exec(&val)?);
    } else if key == 4 {
        if p.max_cache_duration.is_some() {
            return Err(MoqtError::kProtocolViolation);
        }
        p.max_cache_duration = Some(int_value_exec(&val)?);
    } else if key == 0xbbf1439 {
        if p.object_ack_window.is_some() {
            return Err(MoqtError::kProtocolViolation);
        }
        p.object_ack_window = Some(int_value_exec(&val)?);
    }
    Ok(())
}

/// Reads track-request parameters.
pub fn read_params(r: &mut DataReader) -> (res: Result<MoqtSubscribeParameters, MoqtError>)
    requires
        old(r).wf(),
    ensures
        final(r).wf(),
        final(r).data() == old(r).data(),
        match sp_params(old(r).rest()) {
            Ok((v, t)) => res is Ok && res->Ok_0@ == v && final(r).rest() == t,
            Err(e) => res == Err::<MoqtSubscribeParameters, MoqtError>(e),
        },
{
    let count = read_vi(r)?;
    let ghost s0 = r.rest();
    let mut p = MoqtSubscribeParameters::new();
    let mut i: u64 = 0;
    while i < count
        invariant
            r.wf(),
            r.data() == old(r).data(),
            i <= count,
            sp_params(old(r).rest()) == sp_params_from(s0, count as nat),
            sp_params_from(s0, i as nat) matches Ok((pv, rest)) && p@ == pv && r.rest() == rest,
        decreases count - i,
    {
        let step = read_param(r, &mut p);
        if let Err(err) = step {
            proof {
                assert(sp_params_from(s0, (i + 1) as nat) == Err::<(ParamsView, Seq<u8>), MoqtError>(
                    err,
                ));
                lemma_params_err(s0, (i + 1) as nat, count as nat);
            }
            return Err(err);
        }
        i = i + 1;
    }
    Ok(p)
}


pub proof fn lemma_sp_vi(v: u64, tail: Seq<u8>)
    requires
        v <= VARINT62_MAX,
    ensures
        sp_vi(encode_varint(v) + tail) == Ok::<(u64, Seq<u8>), MoqtError>((v, tail)),
{
    lemma_decode_encode(v, tail);
    assert(after(encode_varint(v) + tail, varint_len(v)) =~= tail);
}

pub proof fn lemma_sp_u8(b: u8, tail: Seq<u8>)
    ensures
        sp_u8(seq![b] + tail) == Ok::<(u8, Seq<u8>), MoqtError>((b, tail)),
{
    assert(after(seq![b] + tail, 1) =~= tail);
}

pub proof fn lemma_sp_str(b: Seq<u8>, tail: Seq<u8>)
    requires
        str_ok(b),
    ensures
        sp_str(encode_string(b) + tail) == Ok::<(Seq<u8>, Seq<u8>), MoqtError>((b, tail)),
{
    crate::reader::lemma_decode_string(b, tail);
    assert(after(encode_string(b) + tail, encode_string(b).len()) =~= tail);
}

pub proof fn lemma_sp_strs(t: Seq<Seq<u8>>, tail: Seq<u8>)
    requires
        strings_ok(t),
    ensures
        sp_strs(encode_strings(t) + tail, t.len()) == Ok::<(Seq<Seq<u8>>, Seq<u8>), MoqtError>(
            (t, tail),
        ),
    decreases t.len(),
{
    if t.len() > 0 {
        let init = t.drop_last();
        let last = t.last();
        let mid = encode_string(last) + tail;
        assert(strings_ok(init)) by {
            assert forall|i: int| 0 <= i < init.len() implies str_ok(#[trigger] init[i]) by {
                assert(init[i] == t[i]);
            }
        }
        lemma_sp_strs(init, mid);
        assert(encode_strings(t) + tail =~= encode_strings(init) + mid);
        assert(str_ok(t[t.len() - 1]));
        lemma_sp_str(last, tail);
        assert(init.push(last) =~= t);
    } else {
        assert(Seq::<u8>::empty() + tail =~= tail);
        assert(t =~= Seq::<Seq<u8>>::empty());
    }
}

/// A namespace tuple decodes back, whatever follows.
pub proof fn lemma_sp_tuple(t: Seq<Seq<u8>>, tail: Seq<u8>)
    requires
        t.len() <= VARINT62_MAX,
        strings_ok(t),
    ensures
        sp_tuple(encode_tuple(t, t.len()) + tail) == Ok::<(Seq<Seq<u8>>, Seq<u8>), MoqtError>(
            (t, tail),
        ),
{
    lemma_sp_vi(t.len() as u64, encode_strings(t) + tail);
    assert(encode_tuple(t, t.len()) + tail =~= encode_varint(t.len() as u64) + (encode_strings(t)
        + tail));
    lemma_sp_strs(t, tail);
}

/// A full track name decodes back, whatever follows.
pub proof fn lemma_sp_track_name(t: Seq<Seq<u8>>, tail: Seq<u8>)
    requires
        0 < t.len() <= VARINT62_MAX,
        strings_ok(t),
    ensures
        sp_track_name(encode_tuple(t, (t.len() - 1) as nat) + tail) == Ok::<
            (Seq<Seq<u8>>, Seq<u8>),
            MoqtError,
        >((t, tail)),
{
    let init = t.drop_last();
    let last = t.last();
    let mid = encode_string(last) + tail;
    assert(strings_ok(init)) by {
        assert forall|i: int| 0 <= i < init.len() implies str_ok(#[trigger] init[i]) by {
            assert(init[i] == t[i]);
        }
    }
    assert(encode_tuple(t, (t.len() - 1) as nat) + tail =~= encode_tuple(init, init.len()) + mid);
    lemma_sp_tuple(init, mid);
    assert(str_ok(t[t.len() - 1]));
    lemma_sp_str(last, tail);
    assert(init.push(last) =~= t);
}


/// One parameter on the wire: its key, then its value length-prefixed.
pub open spec fn encode_entry(e: (u64, Seq<u8>)) -> Seq<u8> {
    encode_varint(e.0) + encode_string(e.1)
}

/// Parameters on the wire, one after the other.
pub open spec fn encode_entries(l: Seq<(u64, Seq<u8>)>) -> Seq<u8>
    decreases l.len(),
{
    if l.len() == 0 {
        Seq::empty()
    } else {
        encode_entries(l.drop_last()) + encode_entry(l.last())
    }
}

/// Track-request parameters applied in order.
pub open spec fn fold_params(l: Seq<(u64, Seq<u8>)>) -> Result<ParamsView, MoqtError>
    decreases l.len(),
{
    if l.len() == 0 {
        Ok(no_params())
    } else {
        match fold_params(l.drop_last()) {
            Ok(p) => apply_param(p, l.last().0, l.last().1),
            Err(e) => Err(e),
        }
    }
}

pub open spec fn entries_ok(l: Seq<(u64, Seq<u8>)>) -> bool {
    forall|i: int| 0 <= i < l.len() ==> (#[trigger] l[i]).0 <= VARINT62_MAX && str_ok(l[i].1)
}

/// Reading `l.len()` parameters off their encoding applies them in order.
pub proof fn lemma_sp_params_from(l: Seq<(u64, Seq<u8>)>, tail: Seq<u8>)
    requires
        entries_ok(l),
        fold_params(l) is Ok,
    ensures
        sp_params_from(encode_entries(l) + tail, l.len()) == Ok::<(ParamsView, Seq<u8>), MoqtError>(
            (fold_params(l)->Ok_0, tail),
        ),
    decreases l.len(),
{
    if l.len() == 0 {
        assert(Seq::<u8>::empty() + tail =~= tail);
    } else {
        let init = l.drop_last();
        let last = l.last();
        let mid = encode_entry(last) + tail;
        assert(entries_ok(init)) by {
            assert forall|i: int| 0 <= i < init.len() implies (#[trigger] init[i]).0 <= VARINT62_MAX
                && str_ok(init[i].1) by {
                assert(init[i] == l[i]);
            }
        }
        assert(l[l.len() - 1] == last);
        lemma_sp_params_from(init, mid);
        assert(encode_entries(l) + tail =~= encode_entries(init) + mid);
        lemma_sp_vi(last.0, encode_string(last.1) + tail);
        assert(mid =~= encode_varint(last.0) + (encode_string(last.1) + tail));
        lemma_sp_str(last.1, tail);
    }
}

/// A varint that fills a parameter value exactly is read back as an integer.
pub proof fn lemma_int_value(v: u64)
    requires
        v <= VARINT62_MAX,
    ensures
        int_value(encode_varint(v)) == Ok::<u64, MoqtError>(v),
        encode_varint(v).len() == varint_len(v),
{
    lemma_decode_encode(v, Seq::empty());
    assert(encode_varint(v) + Seq::<u8>::empty() =~= encode_varint(v));
}

} // verus!
