use vstd::prelude::*;
use crate::fields::{after, read_u8, read_vi, sp_u8, sp_vi};
use crate::messages::{MoqtDataStreamType, MoqtError, MoqtObject, MoqtObjectStatus};
use crate::reader::DataReader;

verus! {

/// What a stream header carries: the stream type and the fields shared by
/// its objects (for a fetch stream, only the subscribe ID in `track_alias`).
#[derive(Clone, Copy, Debug, PartialEq, Eq, Structural)]
pub struct StreamHeader {
    pub stream_type: MoqtDataStreamType,
    pub track_alias: u64,
    pub group_id: u64,
    pub subgroup_id: u64,
    pub publisher_priority: u8,
}

/// Outcome of reading the head of a data stream.
pub enum HeaderStep {
    /// More bytes are needed.
    Short,
    /// The stream is padding: everything on it is ignored.
    Padding,
    Bad(MoqtError),
    Got(StreamHeader, nat),
}

/// The stream header at the start of `s`.
pub open spec fn spec_stream_header(s: Seq<u8>) -> HeaderStep {
    match sp_vi(s) {
        Err(_) => HeaderStep::Short,
        Ok((t, r1)) => if t == 0x26d3 {
            HeaderStep::Padding
        } else if t == 0x04 {
            match sp_vi(r1) {
                Ok((alias, r2)) => match sp_vi(r2) {
                    Ok((group, r3)) => match sp_vi(r3) {
                        Ok((sub, r4)) => match sp_u8(r4) {
                            Ok((prio, r5)) => HeaderStep::Got(
                                StreamHeader {
                                    stream_type: MoqtDataStreamType::kStreamHeaderSubgroup,
                                    track_alias: alias,
                                    group_id: group,
                                    subgroup_id: sub,
                                    publisher_priority: prio,
                                },
                                (s.len() - r5.len()) as nat,
                            ),
                            Err(_) => HeaderStep::Short,
                        },
                        Err(_) => HeaderStep::Short,
                    },
                    Err(_) => HeaderStep::Short,
                },
                Err(_) => HeaderStep::Short,
            }
        } else if t == 0x05 {
            match sp_vi(r1) {
                Ok((alias, r2)) => HeaderStep::Got(
                    StreamHeader {
                        stream_type: MoqtDataStreamType::kStreamHeaderFetch,
                        track_alias: alias,
                        group_id: 0,
                        subgroup_id: 0,
                        publisher_priority: 0,
                    },
                    (s.len() - r2.len()) as nat,
                ),
                Err(_) => HeaderStep::Short,
            }
        } else {
            HeaderStep::Bad(MoqtError::kProtocolViolation)
        }
    }
}

/// Payload length, then the status when the payload is empty (normal
/// otherwise): (length, status, bytes taken).
pub open spec fn sp_object_tail(s: Seq<u8>) -> Option<(u64, MoqtObjectStatus, Seq<u8>)> {
    match sp_vi(s) {
        Ok((len, r1)) => if len == 0 {
            match sp_vi(r1) {
                Ok((st, r2)) => Some((len, MoqtObjectStatus::spec_from_value(st), r2)),
                Err(_) => None,
            }
        } else {
            Some((len, MoqtObjectStatus::kNormal, r1))
        },
        Err(_) => None,
    }
}

/// The header of the object at the start of `s` on a stream with header
/// `h`, and what follows it; `None` while it is not all there.
#[verifier::opaque]
pub open spec fn object_head(s: Seq<u8>, h: StreamHeader) -> Option<(MoqtObject, Seq<u8>)> {
    let fields: Option<(u64, u64, u64, u8, Seq<u8>)> = if h.stream_type
        == MoqtDataStreamType::kStreamHeaderSubgroup {
        match sp_vi(s) {
            Ok((obj, r1)) => Some((h.group_id, h.subgroup_id, obj, h.publisher_priority, r1)),
            Err(_) => None,
        }
    } else {
        match sp_vi(s) {
            Ok((group, r1)) => match sp_vi(r1) {
                Ok((sub, r2)) => match sp_vi(r2) {
                    Ok((obj, r3)) => match sp_u8(r3) {
                        Ok((prio, r4)) => Some((group, sub, obj, prio, r4)),
                        Err(_) => None,
                    },
                    Err(_) => None,
                },
                Err(_) => None,
            },
            Err(_) => None,
        }
    };
    match fields {
        Some((group, sub, obj, prio, r)) => match sp_object_tail(r) {
            Some((len, status, r2)) => Some(
                (
                    MoqtObject {
                        track_alias: h.track_alias,
                        group_id: group,
                        object_id: obj,
                        publisher_priority: prio,
                        object_status: status,
                        subgroup_id: Some(sub),
                        payload_length: len,
                    },
                    r2,
                ),
            ),
            None => None,
        },
        None => None,
    }
}

/// The object at the start of `s` on a stream with header `h`, its payload,
/// and the bytes it takes; `None` while it is not all there.
pub open spec fn spec_object(s: Seq<u8>, h: StreamHeader) -> Option<(MoqtObject, Seq<u8>, nat)> {
    match object_head(s, h) {
        Some((o, r2)) => if o.payload_length > r2.len() {
            None
        } else {
            Some(
                (
                    o,
                    r2.subrange(0, o.payload_length as int),
                    (s.len() - r2.len() + o.payload_length) as nat,
                ),
            )
        },
        None => None,
    }
}

/// What a data stream reports.
#[derive(Debug, PartialEq, Eq)]
pub enum MoqtDataParserEvent {
    /// An object, its payload, and whether the payload is complete.
    OnObjectMessage(MoqtObject, Vec<u8>, bool),
    OnParsingError(MoqtError, &'static str),
}

pub enum DataEventView {
    Object(MoqtObject, Seq<u8>, bool),
    ParsingError(MoqtError),
}

impl View for MoqtDataParserEvent {
    type V = DataEventView;

    open spec fn view(&self) -> DataEventView {
        match self {
            MoqtDataParserEvent::OnObjectMessage(o, p, e) => DataEventView::Object(*o, p@, *e),
            MoqtDataParserEvent::OnParsingError(e, _) => DataEventView::ParsingError(*e),
        }
    }
}

/// The objects that follow one another at the start of `s`, and what is
/// left after the last whole one.
pub open spec fn run_objects(s: Seq<u8>, h: StreamHeader) -> (Seq<DataEventView>, Seq<u8>)
    decreases s.len(),
{
    match spec_object(s, h) {
        Some((o, p, n)) => if n == 0 || n > s.len() {
            (Seq::empty(), s)
        } else {
            let r = run_objects(after(s, n), h);
            (seq![DataEventView::Object(o, p, true)] + r.0, r.1)
        },
        None => (Seq::empty(), s),
    }
}

/// The state of a data-stream parser.
pub struct DataParserView {
    pub header: Option<StreamHeader>,
    pub padding: bool,
    pub buffered: Seq<u8>,
    pub events: Seq<DataEventView>,
    pub no_more_data: bool,
    pub parsing_error: bool,
    /// Whether payload is reported as it arrives rather than whole.
    pub deliver_partial: bool,
    /// In that mode, the object whose payload is arriving and the number of
    /// its bytes still to come.
    pub in_object: Option<(MoqtObject, nat)>,
}

/// Objects at the start of `s`, their payload reported as far as it has
/// arrived, starting inside the payload of `cur` when there is one: the
/// events, the bytes of an incomplete object header, and the object whose
/// payload is still arriving.
pub open spec fn run_partial(s: Seq<u8>, h: StreamHeader, cur: Option<(MoqtObject, nat)>) -> (
    Seq<DataEventView>,
    Seq<u8>,
    Option<(MoqtObject, nat)>,
)
    decreases s.len(), if cur is Some {
        1nat
    } else {
        0nat
    },
{
    match cur {
        Some((o, rem)) => if s.len() == 0 || rem == 0 {
            (Seq::empty(), s, cur)
        } else {
            let k: nat = if rem <= s.len() {
                rem
            } else {
                s.len()
            };
            let next = if k == rem {
                None
            } else {
                Some((o, (rem - k) as nat))
            };
            let r = run_partial(after(s, k), h, next);
            (seq![DataEventView::Object(o, s.subrange(0, k as int), k == rem)] + r.0, r.1, r.2)
        },
        None => match object_head(s, h) {
            None => (Seq::empty(), s, None),
            Some((o, r2)) => if r2.len() >= s.len() {
                (Seq::empty(), s, None)
            } else if o.payload_length == 0 {
                let r = run_partial(r2, h, None);
                (seq![DataEventView::Object(o, Seq::empty(), true)] + r.0, r.1, r.2)
            } else {
                run_partial(r2, h, Some((o, o.payload_length as nat)))
            },
        },
    }
}

pub open spec fn data_latch(p: DataParserView, e: MoqtError) -> DataParserView {
    if p.parsing_error {
        p
    } else {
        DataParserView {
            buffered: Seq::empty(),
            events: p.events.push(DataEventView::ParsingError(e)),
            no_more_data: true,
            parsing_error: true,
            in_object: None,
            ..p
        }
    }
}

/// Parses objects after the header `h` and reports them.
pub open spec fn objects_step(p: DataParserView, h: StreamHeader, buf: Seq<u8>, fin: bool) -> DataParserView {
    if p.deliver_partial {
        let (evs, rest, cur) = run_partial(buf, h, p.in_object);
        let q = DataParserView {
            header: Some(h),
            padding: false,
            buffered: rest,
            events: p.events + evs,
            no_more_data: fin,
            parsing_error: false,
            deliver_partial: true,
            in_object: cur,
        };
        if fin && (rest.len() > 0 || cur is Some) {
            data_latch(q, MoqtError::kProtocolViolation)
        } else {
            q
        }
    } else {
        let (evs, rest) = run_objects(buf, h);
        let q = DataParserView {
            header: Some(h),
            padding: false,
            buffered: rest,
            events: p.events + evs,
            no_more_data: fin,
            parsing_error: false,
            deliver_partial: false,
            in_object: None,
        };
        if fin && rest.len() > 0 {
            data_latch(q, MoqtError::kProtocolViolation)
        } else {
            q
        }
    }
}

/// The state after `data` arrives on the stream, with `fin` when it ends it.
pub open spec fn data_stream_step(p: DataParserView, data: Seq<u8>, fin: bool) -> DataParserView {
    if p.padding {
        p
    } else if p.no_more_data {
        data_latch(p, MoqtError::kProtocolViolation)
    } else {
        let buf = p.buffered + data;
        match p.header {
            Some(h) => objects_step(p, h, buf, fin),
            None => match spec_stream_header(buf) {
                HeaderStep::Padding => DataParserView {
                    header: None,
                    padding: true,
                    buffered: Seq::empty(),
                    ..p
                },
                HeaderStep::Bad(e) => data_latch(p, e),
                HeaderStep::Short => if fin && buf.len() > 0 {
                    data_latch(p, MoqtError::kProtocolViolation)
                } else {
                    DataParserView { buffered: buf, no_more_data: fin, ..p }
                },
                HeaderStep::Got(h, n) => objects_step(p, h, after(buf, n), fin),
            },
        }
    }
}

fn read_stream_header(buf: &[u8]) -> (r: Result<Option<(StreamHeader, usize)>, Option<MoqtError>>)
    ensures
        match spec_stream_header(buf@) {
            HeaderStep::Short => r == Ok::<Option<(StreamHeader, usize)>, Option<MoqtError>>(None),
            HeaderStep::Padding => r == Err::<Option<(StreamHeader, usize)>, Option<MoqtError>>(
                None,
            ),
            HeaderStep::Bad(e) => r == Err::<Option<(StreamHeader, usize)>, Option<MoqtError>>(
                Some(e),
            ),
            HeaderStep::Got(h, n) => r == Ok::<Option<(StreamHeader, usize)>, Option<MoqtError>>(
                Some((h, n as usize)),
            ),
        },
{
    let mut rd = DataReader::new(buf);
    let t = match read_vi(&mut rd) {
        Ok(t) => t,
        Err(_) => return Ok(None),
    };
    if t == 0x26d3 {
        return Err(None);
    }
    if t == 0x04 {
        let alias = match read_vi(&mut rd) {
            Ok(v) => v,
            Err(_) => return Ok(None),
        };
        let group = match read_vi(&mut rd) {
            Ok(v) => v,
            Err(_) => return Ok(None),
        };
        let sub = match read_vi(&mut rd) {
            Ok(v) => v,
            Err(_) => return Ok(None),
        };
        let prio = match read_u8(&mut rd) {
            Ok(v) => v,
            Err(_) => return Ok(None),
        };
        let used = buf.len() - rd.remaining();
        Ok(
            Some(
                (
                    StreamHeader {
                        stream_type: MoqtDataStreamType::kStreamHeaderSubgroup,
                        track_alias: alias,
                        group_id: group,
                        subgroup_id: sub,
                        publisher_priority: prio,
                    },
                    used,
                ),
            ),
        )
    } else if t == 0x05 {
        let alias = match read_vi(&mut rd) {
            Ok(v) => v,
            Err(_) => return Ok(None),
        };
        let used = buf.len() - rd.remaining();
        Ok(
            Some(
                (
                    StreamHeader {
                        stream_type: MoqtDataStreamType::kStreamHeaderFetch,
                        track_alias: alias,
                        group_id: 0,
                        subgroup_id: 0,
                        publisher_priority: 0,
                    },
                    used,
                ),
            ),
        )
    } else {
        Err(Some(MoqtError::kProtocolViolation))
    }
}

fn read_object_head(buf: &[u8], h: StreamHeader) -> (r: Option<(MoqtObject, usize)>)
    ensures
        match object_head(buf@, h) {
            None => r is None,
            Some((o, rest)) => match r {
                Some((got_object, n)) => got_object == o && n <= buf@.len() && rest == buf@.subrange(
                    n as int,
                    buf@.len() as int,
                ),
                None => false,
            },
        },
{
    reveal(object_head);
    let mut rd = DataReader::new(buf);
    let (group, sub, obj, prio) = if h.stream_type == MoqtDataStreamType::kStreamHeaderSubgroup {
        let obj = match read_vi(&mut rd) {
            Ok(v) => v,
            Err(_) => return None,
        };
        (h.group_id, h.subgroup_id, obj, h.publisher_priority)
    } else {
        let group = match read_vi(&mut rd) {
            Ok(v) => v,
            Err(_) => return None,
        };
        let sub = match read_vi(&mut rd) {
            Ok(v) => v,
            Err(_) => return None,
        };
        let obj = match read_vi(&mut rd) {
            Ok(v) => v,
            Err(_) => return None,
        };
        let prio = match read_u8(&mut rd) {
            Ok(v) => v,
            Err(_) => return None,
        };
        (group, sub, obj, prio)
    };
    let len = match read_vi(&mut rd) {
        Ok(v) => v,
        Err(_) => return None,
    };
    let status = if len == 0 {
        match read_vi(&mut rd) {
            Ok(v) => MoqtObjectStatus::from_value(v),
            Err(_) => return None,
        }
    } else {
        MoqtObjectStatus::kNormal
    };
    let used = rd.bytes_read();
    let left = rd.remaining();
    Some(
        (
            MoqtObject {
                track_alias: h.track_alias,
                group_id: group,
                object_id: obj,
                publisher_priority: prio,
                object_status: status,
                subgroup_id: Some(sub),
                payload_length: len,
            },
            used,
        ),
    )
}

fn copy_bytes(buf: &[u8], from: usize, to: usize) -> (r: Vec<u8>)
    requires
        from <= to <= buf@.len(),
    ensures
        r@ == buf@.subrange(from as int, to as int),
{
    vstd::slice::slice_to_vec(vstd::slice::slice_subrange(buf, from, to))
}

fn read_object(buf: &[u8], h: StreamHeader) -> (r: Option<(MoqtObject, Vec<u8>, usize)>)
    ensures
        match spec_object(buf@, h) {
            None => r is None,
            Some((o, p, n)) => match r {
                Some((got_object, got_payload, got_len)) => got_object == o && got_payload@ == p && got_len == n,
                None => false,
            },
        },
{
    let (o, n) = match read_object_head(buf, h) {
        Some(x) => x,
        None => return None,
    };
    if o.payload_length > (buf.len() - n) as u64 {
        return None;
    }
    let end = n + o.payload_length as usize;
    let payload = copy_bytes(buf, n, end);
    proof {
        let rest = buf@.subrange(n as int, buf@.len() as int);
        assert(rest.subrange(0, o.payload_length as int) =~= payload@);
    }
    Some((o, payload, end))
}

proof fn lemma_no_head_in_empty(h: StreamHeader)
    ensures
        object_head(Seq::empty(), h) is None,
{
    reveal(object_head);
}

/// Parser of one unidirectional data stream: a stream header, then
/// objects, each reported once its payload is all there.
pub struct MoqtDataParser {
    header: Option<StreamHeader>,
    padding: bool,
    buffered: Vec<u8>,
    events: Vec<MoqtDataParserEvent>,
    no_more_data: bool,
    parsing_error: bool,
    deliver_partial: bool,
    in_object: Option<(MoqtObject, u64)>,
}

pub open spec fn in_object_view(o: Option<(MoqtObject, u64)>) -> Option<(MoqtObject, nat)> {
    match o {
        Some((m, n)) => Some((m, n as nat)),
        None => None,
    }
}

pub open spec fn data_events_view(v: Seq<MoqtDataParserEvent>) -> Seq<DataEventView> {
    v.map_values(|e: MoqtDataParserEvent| e@)
}

impl View for MoqtDataParser {
    type V = DataParserView;

    closed spec fn view(&self) -> DataParserView {
        DataParserView {
            header: self.header,
            padding: self.padding,
            buffered: self.buffered@,
            events: data_events_view(self.events@),
            no_more_data: self.no_more_data,
            parsing_error: self.parsing_error,
            deliver_partial: self.deliver_partial,
            in_object: in_object_view(self.in_object),
        }
    }
}

impl MoqtDataParser {
    pub closed spec fn wf(&self) -> bool {
        &&& self.parsing_error ==> self.no_more_data
        &&& !self.deliver_partial ==> self.in_object is None
    }

    /// A parser that reports each object once its payload is whole.
    pub fn new() -> (r: Self)
        ensures
            r.wf(),
            r@ == (DataParserView {
                header: None,
                padding: false,
                buffered: Seq::empty(),
                events: Seq::empty(),
                no_more_data: false,
                parsing_error: false,
                deliver_partial: false,
                in_object: None,
            }),
    {
        Self::with_partial_delivery(false)
    }

    /// A parser that, when `deliver_partial` is set, reports payload as it
    /// arrives, each piece marked as the last one or not.
    pub fn with_partial_delivery(deliver_partial: bool) -> (r: Self)
        ensures
            r.wf(),
            r@ == (DataParserView {
                header: None,
                padding: false,
                buffered: Seq::empty(),
                events: Seq::empty(),
                no_more_data: false,
                parsing_error: false,
                deliver_partial,
                in_object: None,
            }),
    {
        let r = MoqtDataParser {
            header: None,
            padding: false,
            buffered: Vec::new(),
            events: Vec::new(),
            no_more_data: false,
            parsing_error: false,
            deliver_partial,
            in_object: None,
        };
        assert(data_events_view(r.events@) =~= Seq::empty());
        r
    }

    /// The stream type, once the header has been read.
    pub fn stream_type(&self) -> (r: Option<MoqtDataStreamType>)
        ensures
            self@.padding ==> r == Some(MoqtDataStreamType::kPadding),
            !self@.padding ==> r == (match self@.header {
                Some(h) => Some(h.stream_type),
                None => None,
            }),
    {
        if self.padding {
            return Some(MoqtDataStreamType::kPadding);
        }
        match self.header {
            Some(h) => Some(h.stream_type),
            None => None,
        }
    }

    /// The events reported so far.
    pub fn events(&self) -> (r: &Vec<MoqtDataParserEvent>)
        ensures
            data_events_view(r@) == self@.events,
    {
        &self.events
    }

    fn push_event(&mut self, e: MoqtDataParserEvent)
        ensures
            final(self)@ == (DataParserView { events: old(self)@.events.push(e@), ..old(self)@ }),
    {
        let ghost before = self.events@;
        self.events.push(e);
        assert(data_events_view(self.events@) =~= data_events_view(before).push(e@));
    }

    fn parse_error(&mut self, error: MoqtError, reason: &'static str)
        requires
            old(self).wf(),
        ensures
            final(self).wf(),
            final(self)@ == data_latch(old(self)@, error),
    {
        if !self.parsing_error {
            self.no_more_data = true;
            self.parsing_error = true;
            self.buffered = Vec::new();
            self.in_object = None;
            self.push_event(MoqtDataParserEvent::OnParsingError(error, reason));
        }
    }

    fn parse_whole_objects(&mut self, h: StreamHeader, buf: Vec<u8>, fin: bool)
        requires
            old(self).wf(),
            !old(self).parsing_error,
            !old(self).deliver_partial,
        ensures
            final(self).wf(),
            final(self)@ == objects_step(old(self)@, h, buf@, fin),
    {
        let ghost old_events = self@.events;
        let ghost full = buf@;
        let mut pos: usize = 0;
        let ghost mut added: Seq<DataEventView> = Seq::empty();
        assert(after(full, 0) =~= full);
        assert(Seq::<DataEventView>::empty() + run_objects(full, h).0 =~= run_objects(full, h).0);
        while pos < buf.len()
            invariant
                buf@ == full,
                pos <= buf.len(),
                self@.events == old_events + added,
                !self.parsing_error,
                self@.header == old(self)@.header,
                self@.padding == old(self)@.padding,
                self.deliver_partial == old(self).deliver_partial,
                self.in_object == old(self).in_object,
                run_objects(full, h).0 == added + run_objects(after(full, pos as nat), h).0,
                run_objects(full, h).1 == run_objects(after(full, pos as nat), h).1,
            ensures
                run_objects(after(full, pos as nat), h) == (Seq::<DataEventView>::empty(), after(
                    full,
                    pos as nat,
                )),
            decreases buf.len() - pos,
        {
            let rest = vstd::slice::slice_subrange(buf.as_slice(), pos, buf.len());
            assert(rest@ == after(full, pos as nat));
            match read_object(rest, h) {
                None => {
                    break;
                },
                Some((o, p, n)) => {
                    if n == 0 || n > rest.len() {
                        break;
                    }
                    let ghost ev = DataEventView::Object(o, p@, true);
                    self.push_event(MoqtDataParserEvent::OnObjectMessage(o, p, true));
                    proof {
                        let s = after(full, pos as nat);
                        assert(after(s, n as nat) =~= after(full, (pos + n) as nat));
                        assert(added.push(ev) + run_objects(after(full, (pos + n) as nat), h).0
                            =~= added + run_objects(s, h).0);
                        added = added.push(ev);
                    }
                    pos = pos + n;
                },
            }
        }
        assert(pos == buf.len() ==> after(full, pos as nat) =~= Seq::<u8>::empty());
        let rest = vstd::slice::slice_subrange(buf.as_slice(), pos, buf.len());
        self.header = Some(h);
        self.padding = false;
        self.buffered = vstd::slice::slice_to_vec(rest);
        self.no_more_data = fin;
        if fin && self.buffered.len() > 0 {
            self.parse_error(MoqtError::kProtocolViolation, "FIN mid-object");
        }
    }

    fn parse_objects(&mut self, h: StreamHeader, buf: Vec<u8>, fin: bool)
        requires
            old(self).wf(),
            !old(self).parsing_error,
        ensures
            final(self).wf(),
            final(self)@ == objects_step(old(self)@, h, buf@, fin),
    {
        if self.deliver_partial {
            self.parse_partial_objects(h, buf, fin);
        } else {
            self.parse_whole_objects(h, buf, fin);
        }
    }

    fn parse_partial_objects(&mut self, h: StreamHeader, buf: Vec<u8>, fin: bool)
        requires
            old(self).wf(),
            !old(self).parsing_error,
            old(self).deliver_partial,
        ensures
            final(self).wf(),
            final(self)@ == objects_step(old(self)@, h, buf@, fin),
    {
        let ghost old_events = self@.events;
        let ghost full = buf@;
        let ghost cur0 = self@.in_object;
        let mut cur = self.in_object;
        let mut pos: usize = 0;
        let ghost mut added: Seq<DataEventView> = Seq::empty();
        assert(after(full, 0) =~= full);
        assert(Seq::<DataEventView>::empty() + run_partial(full, h, cur0).0 =~= run_partial(
            full,
            h,
            cur0,
        ).0);
        while pos < buf.len()
            invariant
                buf@ == full,
                pos <= buf.len(),
                self@.events == old_events + added,
                !self.parsing_error,
                self.deliver_partial,
                self@.header == old(self)@.header,
                self@.padding == old(self)@.padding,
                self.no_more_data == old(self).no_more_data,
                run_partial(full, h, cur0).0 == added + run_partial(
                    after(full, pos as nat),
                    h,
                    in_object_view(cur),
                ).0,
                run_partial(full, h, cur0).1 == run_partial(after(full, pos as nat), h, in_object_view(cur)).1,
                run_partial(full, h, cur0).2 == run_partial(after(full, pos as nat), h, in_object_view(cur)).2,
            ensures
                run_partial(after(full, pos as nat), h, in_object_view(cur)) == (
                    Seq::<DataEventView>::empty(),
                    after(full, pos as nat),
                    in_object_view(cur),
                ),
            decreases buf.len() - pos, if cur is Some {
                1int
            } else {
                0int
            },
        {
            let ghost s = after(full, pos as nat);
            match cur {
                Some((o, rem)) => {
                    if rem == 0 {
                        break;
                    }
                    let avail = buf.len() - pos;
                    let k: usize = if rem <= avail as u64 {
                        rem as usize
                    } else {
                        avail
                    };
                    let chunk = copy_bytes(buf.as_slice(), pos, pos + k);
                    let last = k as u64 == rem;
                    let ghost ev = DataEventView::Object(o, chunk@, last);
                    self.push_event(MoqtDataParserEvent::OnObjectMessage(o, chunk, last));
                    proof {
                        assert(s.subrange(0, k as int) =~= full.subrange(pos as int, pos + k));
                        assert(after(s, k as nat) =~= after(full, (pos + k) as nat));
                        added = added.push(ev);
                    }
                    cur = if last {
                        None
                    } else {
                        Some((o, rem - k as u64))
                    };
                    proof {
                        assert(added + run_partial(after(full, (pos + k) as nat), h, in_object_view(cur)).0
                            =~= added.drop_last() + run_partial(s, h, in_object_view(Some((o, rem)))).0);
                    }
                    pos = pos + k;
                },
                None => {
                    let rest = vstd::slice::slice_subrange(buf.as_slice(), pos, buf.len());
                    assert(rest@ == s);
                    match read_object_head(rest, h) {
                        None => {
                            break;
                        },
                        Some((o, n)) => {
                            if n == 0 {
                                break;
                            }
                            proof {
                                assert(after(s, n as nat) =~= after(full, (pos + n) as nat));
                            }
                            if o.payload_length == 0 {
                                let ghost ev = DataEventView::Object(o, Seq::empty(), true);
                                let empty_payload: Vec<u8> = Vec::new();
                                assert(empty_payload@ =~= Seq::<u8>::empty());
                                self.push_event(
                                    MoqtDataParserEvent::OnObjectMessage(o, empty_payload, true),
                                );
                                proof {
                                    added = added.push(ev);
                                    assert(added + run_partial(after(full, (pos + n) as nat), h, None).0
                                        =~= added.drop_last() + run_partial(s, h, None).0);
                                }
                            } else {
                                cur = Some((o, o.payload_length));
                            }
                            pos = pos + n;
                        },
                    }
                },
            }
        }
        proof {
            if pos == buf.len() {
                assert(after(full, pos as nat) =~= Seq::<u8>::empty());
                lemma_no_head_in_empty(h);
            }
        }
        let rest = vstd::slice::slice_subrange(buf.as_slice(), pos, buf.len());
        self.header = Some(h);
        self.padding = false;
        self.buffered = vstd::slice::slice_to_vec(rest);
        self.in_object = cur;
        self.no_more_data = fin;
        if fin && (self.buffered.len() > 0 || self.in_object.is_some()) {
            self.parse_error(MoqtError::kProtocolViolation, "FIN mid-object");
        }
    }

    /// Takes bytes of the stream; `fin` says that no more follow. Objects
    /// are reported as they become whole; an end of stream inside an object
    /// or a header, an unknown stream type, and bytes after the end are
    /// errors. A padding stream ignores everything.
    pub fn process_data(&mut self, data: &[u8], fin: bool)
        requires
            old(self).wf(),
        ensures
            final(self).wf(),
            final(self)@ == data_stream_step(old(self)@, data@, fin),
    {
        if self.padding {
            return;
        }
        if self.no_more_data {
            self.parse_error(MoqtError::kProtocolViolation, "Data after end of stream");
            return;
        }
        let mut w = crate::writer::DataWriter::new();
        w.write_bytes(self.buffered.as_slice());
        w.write_bytes(data);
        let buf = w.into_bytes();
        match self.header {
            Some(h) => {
                self.parse_objects(h, buf, fin);
            },
            None => match read_stream_header(buf.as_slice()) {
                Err(None) => {
                    self.padding = true;
                    self.buffered = Vec::new();
                },
                Err(Some(e)) => {
                    self.parse_error(e, "Invalid stream type");
                },
                Ok(None) => {
                    if fin && buf.len() > 0 {
                        self.parse_error(MoqtError::kProtocolViolation, "FIN mid-header");
                    } else {
                        self.buffered = buf;
                        self.no_more_data = fin;
                    }
                },
                Ok(Some((h, n))) => {
                    let rest = vstd::slice::slice_to_vec(
                        vstd::slice::slice_subrange(buf.as_slice(), n, buf.len()),
                    );
                    self.parse_objects(h, rest, fin);
                },
            },
        }
    }
}

/// The object that a whole datagram carries, and its payload: the type must
/// be OBJECT_DATAGRAM and the payload must have the announced length.
pub open spec fn spec_datagram(s: Seq<u8>) -> Result<(MoqtObject, Seq<u8>), MoqtError> {
    match sp_vi(s) {
        Ok((t, r1)) => if t != 0x01 {
            Err(MoqtError::kProtocolViolation)
        } else {
            match sp_vi(r1) {
                Ok((alias, r2)) => match sp_vi(r2) {
                    Ok((group, r3)) => match sp_vi(r3) {
                        Ok((obj, r4)) => match sp_u8(r4) {
                            Ok((prio, r5)) => match sp_object_tail(r5) {
                                Some((len, status, r6)) => if r6.len() != len {
                                    Err(MoqtError::kProtocolViolation)
                                } else {
                                    Ok(
                                        (
                                            MoqtObject {
                                                track_alias: alias,
                                                group_id: group,
                                                object_id: obj,
                                                publisher_priority: prio,
                                                object_status: status,
                                                subgroup_id: None,
                                                payload_length: len,
                                            },
                                            r6,
                                        ),
                                    )
                                },
                                None => Err(MoqtError::kProtocolViolation),
                            },
                            Err(e) => Err(e),
                        },
                        Err(e) => Err(e),
                    },
                    Err(e) => Err(e),
                },
                Err(e) => Err(e),
            }
        },
        Err(e) => Err(e),
    }
}

/// Parses one whole datagram into its object and payload.
pub fn parse_datagram(data: &[u8]) -> (r: Result<(MoqtObject, Vec<u8>), MoqtError>)
    ensures
        match spec_datagram(data@) {
            Ok((o, p)) => match r {
                Ok((got_object, got_payload)) => got_object == o && got_payload@ == p,
                Err(_) => false,
            },
            Err(e) => r == Err::<(MoqtObject, Vec<u8>), MoqtError>(e),
        },
{
    let mut rd = DataReader::new(data);
    let t = read_vi(&mut rd)?;
    if t != 0x01 {
        return Err(MoqtError::kProtocolViolation);
    }
    let track_alias = read_vi(&mut rd)?;
    let group_id = read_vi(&mut rd)?;
    let object_id = read_vi(&mut rd)?;
    let publisher_priority = read_u8(&mut rd)?;
    let payload_length = match read_vi(&mut rd) {
        Ok(v) => v,
        Err(_) => return Err(MoqtError::kProtocolViolation),
    };
    let object_status = if payload_length == 0 {
        match read_vi(&mut rd) {
            Ok(v) => MoqtObjectStatus::from_value(v),
            Err(_) => return Err(MoqtError::kProtocolViolation),
        }
    } else {
        MoqtObjectStatus::kNormal
    };
    if rd.remaining() as u64 != payload_length {
        return Err(MoqtError::kProtocolViolation);
    }
    let payload = rd.read_remaining_payload();
    Ok(
        (
            MoqtObject {
                track_alias,
                group_id,
                object_id,
                publisher_priority,
                object_status,
                subgroup_id: None,
                payload_length,
            },
            payload,
        ),
    )
}

} // verus!
