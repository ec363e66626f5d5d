use vstd::prelude::*;
use crate::messages::{
    FullSequence, MoqtAnnounceErrorCode, MoqtRole, MoqtTrackStatusCode, MoqtVersion,
    SubscribeDoneCode, SubscribeErrorCode,
};
use crate::priority::{MoqtDeliveryOrder, MoqtPriority};
use vstd::string::StringSliceAdditionalSpecFns;

verus! {

/// A tuple of name elements: the leading ones form the namespace, the last
/// one, when the tuple names a track, is the track name.
#[derive(Clone, Debug, PartialEq, Eq, PartialOrd, Ord, Hash)]
pub struct FullTrackName {
    pub tuple: Vec<Vec<u8>>,
}

impl View for FullTrackName {
    type V = Seq<Seq<u8>>;

    open spec fn view(&self) -> Seq<Seq<u8>> {
        self.tuple@.map_values(|e: Vec<u8>| e@)
    }
}

/// Whether two byte strings are equal.
pub fn bytes_equal(a: &[u8], b: &[u8]) -> (r: bool)
    ensures
        r == (a@ == b@),
{
    if a.len() != b.len() {
        return false;
    }
    let mut i: usize = 0;
    while i < a.len()
        invariant
            a@.len() == b@.len(),
            i <= a@.len(),
            forall|j: int| 0 <= j < i ==> a@[j] == b@[j],
        decreases a@.len() - i,
    {
        if a[i] != b[i] {
            return false;
        }
        i = i + 1;
    }
    assert(a@ =~= b@);
    true
}

/// Copies the bytes of a string.
fn str_bytes(s: &str) -> (r: Vec<u8>)
    ensures
        r@ == s.spec_bytes(),
{
    vstd::slice::slice_to_vec(s.as_bytes())
}

/// The text form of a name: its elements quoted, separated by commas, in
/// braces.
pub open spec fn name_text(t: Seq<Seq<u8>>) -> Seq<u8>
    decreases t.len(),
{
    if t.len() == 0 {
        seq![0x7bu8, 0x7du8]
    } else if t.len() == 1 {
        seq![0x7bu8, 0x22u8] + t[0] + seq![0x22u8, 0x7du8]
    } else {
        name_text(t.drop_last()).drop_last() + seq![0x2cu8, 0x20u8, 0x22u8] + t.last() + seq![
            0x22u8,
            0x7du8,
        ]
    }
}

/// The text that `String::from_utf8_lossy` makes of some bytes.
pub uninterp spec fn utf8_lossy(b: Seq<u8>) -> Seq<char>;

/// Relies on `String::from_utf8_lossy`: the result depends on the bytes
/// alone.
#[verifier::external_body]
fn lossy_string(b: &[u8]) -> (r: String)
    ensures
        r@ == utf8_lossy(b@),
{
    String::from_utf8_lossy(b).into_owned()
}

impl FullTrackName {
    /// The empty name.
    pub fn new() -> (r: Self)
        ensures
            r@ == Seq::<Seq<u8>>::empty(),
    {
        let r = FullTrackName { tuple: Vec::new() };
        assert(r@ =~= Seq::<Seq<u8>>::empty());
        r
    }

    /// A namespace of one element and a track name.
    pub fn new_with_namespace_and_name(ns: &str, name: &str) -> (r: Self)
        ensures
            r@ == seq![ns.spec_bytes(), name.spec_bytes()],
    {
        let mut tuple: Vec<Vec<u8>> = Vec::new();
        tuple.push(str_bytes(ns));
        tuple.push(str_bytes(name));
        let r = FullTrackName { tuple };
        assert(r@ =~= seq![ns.spec_bytes(), name.spec_bytes()]);
        r
    }

    /// The name with these elements, in order.
    pub fn new_with_elements(elements: Vec<String>) -> (r: Self)
        ensures
            r@ == elements@.map_values(|e: String| vstd::utf8::encode_utf8(e@)),
    {
        let mut tuple: Vec<Vec<u8>> = Vec::new();
        let mut i: usize = 0;
        while i < elements.len()
            invariant
                i <= elements@.len(),
                tuple@.map_values(|e: Vec<u8>| e@) =~= elements@.subrange(0, i as int).map_values(
                    |e: String| vstd::utf8::encode_utf8(e@),
                ),
            decreases elements@.len() - i,
        {
            let b = str_bytes(elements[i].as_str());
            let ghost before = tuple@;
            tuple.push(b);
            assert(tuple@.map_values(|e: Vec<u8>| e@) =~= before.map_values(|e: Vec<u8>| e@).push(
                b@,
            ));
            i = i + 1;
            assert(tuple@.map_values(|e: Vec<u8>| e@) =~= elements@.subrange(0, i as int).map_values(
                |e: String| vstd::utf8::encode_utf8(e@),
            ));
        }
        assert(elements@.subrange(0, i as int) =~= elements@);
        FullTrackName { tuple }
    }

    /// Appends an element.
    pub fn add_element(&mut self, element: Vec<u8>)
        ensures
            final(self)@ == old(self)@.push(element@),
    {
        let ghost before = self.tuple@;
        self.tuple.push(element);
        assert(self@ =~= old(self)@.push(element@));
    }

    /// Removes the last element, turning a track name into its namespace.
    pub fn name_to_namespace(&mut self)
        ensures
            old(self)@.len() > 0 ==> final(self)@ == old(self)@.drop_last(),
            old(self)@.len() == 0 ==> final(self)@ == old(self)@,
    {
        if self.tuple.len() > 0 {
            let _ = self.tuple.pop();
            assert(self@ =~= old(self)@.drop_last());
        }
    }

    /// Whether `self` lies in the namespace `other`: `other` is a prefix of it.
    pub fn in_namespace(&self, other: &FullTrackName) -> (r: bool)
        ensures
            r == (other@.len() <= self@.len() && self@.subrange(0, other@.len() as int) == other@),
    {
        if self.tuple.len() < other.tuple.len() {
            return false;
        }
        let n = other.tuple.len();
        let mut i: usize = 0;
        while i < n
            invariant
                n == other@.len(),
                n <= self@.len(),
                i <= n,
                forall|j: int| 0 <= j < i ==> self@[j] == other@[j],
            decreases n - i,
        {
            if !bytes_equal(self.tuple[i].as_slice(), other.tuple[i].as_slice()) {
                assert(self@.subrange(0, n as int)[i as int] != other@[i as int]);
                return false;
            }
            i = i + 1;
        }
        assert(self@.subrange(0, n as int) =~= other@);
        true
    }

    /// The elements.
    pub fn tuple(&self) -> (r: &[Vec<u8>])
        ensures
            r@ == self.tuple@,
    {
        self.tuple.as_slice()
    }

    /// Whether the name has no element.
    pub fn empty(&self) -> (r: bool)
        ensures
            r == (self@.len() == 0),
    {
        self.tuple.len() == 0
    }

    /// The text form: `{"a", "b"}`.
    pub fn to_string(&self) -> (r: String)
        ensures
            r@ == utf8_lossy(name_text(self@)),
    {
        let mut out: Vec<u8> = Vec::new();
        out.push(0x7b);
        let n = self.tuple.len();
        let mut i: usize = 0;
        while i < n
            invariant
                n == self@.len(),
                i <= n,
                out@ == name_text(self@.subrange(0, i as int)).drop_last(),
            decreases n - i,
        {
            let ghost before = out@;
            if i > 0 {
                out.push(0x2c);
                out.push(0x20);
            }
            out.push(0x22);
            let e = &self.tuple[i];
            let mut k: usize = 0;
            let ghost mid = out@;
            while k < e.len()
                invariant
                    k <= e@.len(),
                    out@ == mid + e@.subrange(0, k as int),
                decreases e@.len() - k,
            {
                out.push(e[k]);
                k = k + 1;
                assert(out@ =~= mid + e@.subrange(0, k as int));
            }
            out.push(0x22);
            proof {
                let t = self@.subrange(0, i + 1);
                assert(t.drop_last() =~= self@.subrange(0, i as int));
                assert(t.last() == self@[i as int]);
                assert(e@.subrange(0, k as int) =~= e@);
                if i == 0 {
                    assert(out@ =~= name_text(t).drop_last());
                } else {
                    assert(out@ =~= name_text(t).drop_last());
                }
            }
            i = i + 1;
        }
        out.push(0x7d);
        proof {
            assert(self@.subrange(0, n as int) =~= self@);
            if n == 0 {
                assert(out@ =~= name_text(self@));
            } else {
                assert(out@ =~= name_text(self@));
            }
        }
        lossy_string(out.as_slice())
    }
}

/// Parameters of SUBSCRIBE and of the messages like it.
#[derive(Clone, Debug, PartialEq, Eq)]
pub struct MoqtSubscribeParameters {
    pub authorization_info: Option<Vec<u8>>,
    /// Milliseconds.
    pub delivery_timeout: Option<u64>,
    /// Milliseconds.
    pub max_cache_duration: Option<u64>,
    /// Microseconds of objects that the subscriber is willing to buffer; its
    /// presence asks for OBJECT_ACK messages.
    pub object_ack_window: Option<u64>,
}

pub struct ParamsView {
    pub authorization_info: Option<Seq<u8>>,
    pub delivery_timeout: Option<u64>,
    pub max_cache_duration: Option<u64>,
    pub object_ack_window: Option<u64>,
}

pub open spec fn opt_bytes_view(o: Option<Vec<u8>>) -> Option<Seq<u8>> {
    match o {
        Some(v) => Some(v@),
        None => None,
    }
}

impl View for MoqtSubscribeParameters {
    type V = ParamsView;

    open spec fn view(&self) -> ParamsView {
        ParamsView {
            authorization_info: opt_bytes_view(self.authorization_info),
            delivery_timeout: self.delivery_timeout,
            max_cache_duration: self.max_cache_duration,
            object_ack_window: self.object_ack_window,
        }
    }
}

impl MoqtSubscribeParameters {
    /// No parameter at all.
    pub fn new() -> (r: Self)
        ensures
            r@ == (ParamsView {
                authorization_info: None,
                delivery_timeout: None,
                max_cache_duration: None,
                object_ack_window: None,
            }),
    {
        MoqtSubscribeParameters {
            authorization_info: None,
            delivery_timeout: None,
            max_cache_duration: None,
            object_ack_window: None,
        }
    }
}

#[derive(Clone, Debug, PartialEq, Eq)]
pub struct MoqtClientSetup {
    pub supported_versions: Vec<MoqtVersion>,
    pub role: Option<MoqtRole>,
    pub path: Option<Vec<u8>>,
    pub max_subscribe_id: Option<u64>,
    pub supports_object_ack: bool,
}

pub struct ClientSetupView {
    pub supported_versions: Seq<u64>,
    pub role: Option<MoqtRole>,
    pub path: Option<Seq<u8>>,
    pub max_subscribe_id: Option<u64>,
    pub supports_object_ack: bool,
}

impl View for MoqtClientSetup {
    type V = ClientSetupView;

    open spec fn view(&self) -> ClientSetupView {
        ClientSetupView {
            supported_versions: self.supported_versions@,
            role: self.role,
            path: opt_bytes_view(self.path),
            max_subscribe_id: self.max_subscribe_id,
            supports_object_ack: self.supports_object_ack,
        }
    }
}

#[derive(Clone, Copy, Debug, PartialEq, Eq, Structural)]
pub struct MoqtServerSetup {
    pub selected_version: MoqtVersion,
    pub role: Option<MoqtRole>,
    pub max_subscribe_id: Option<u64>,
    pub supports_object_ack: bool,
}

#[derive(Clone, Debug, PartialEq, Eq)]
pub struct MoqtSubscribe {
    pub subscribe_id: u64,
    pub track_alias: u64,
    pub full_track_name: FullTrackName,
    pub subscriber_priority: MoqtPriority,
    pub group_order: Option<MoqtDeliveryOrder>,
    /// Which of the four are present selects the filter: none is
    /// LatestObject; a start object of 0 alone is LatestGroup; start group and
    /// object are AbsoluteStart; with an end group (and maybe an end object)
    /// they are AbsoluteRange.
    pub start_group: Option<u64>,
    pub start_object: Option<u64>,
    pub end_group: Option<u64>,
    pub end_object: Option<u64>,
    pub parameters: MoqtSubscribeParameters,
}

pub struct SubscribeView {
    pub subscribe_id: u64,
    pub track_alias: u64,
    pub full_track_name: Seq<Seq<u8>>,
    pub subscriber_priority: u8,
    pub group_order: Option<MoqtDeliveryOrder>,
    pub start_group: Option<u64>,
    pub start_object: Option<u64>,
    pub end_group: Option<u64>,
    pub end_object: Option<u64>,
    pub parameters: ParamsView,
}

impl View for MoqtSubscribe {
    type V = SubscribeView;

    open spec fn view(&self) -> SubscribeView {
        SubscribeView {
            subscribe_id: self.subscribe_id,
            track_alias: self.track_alias,
            full_track_name: self.full_track_name@,
            subscriber_priority: self.subscriber_priority,
            group_order: self.group_order,
            start_group: self.start_group,
            start_object: self.start_object,
            end_group: self.end_group,
            end_object: self.end_object,
            parameters: self.parameters@,
        }
    }
}

/// The (group, object) part of an optional position.
pub open spec fn opt_seq_view(o: Option<FullSequence>) -> Option<(u64, u64)> {
    match o {
        Some(s) => Some((s.group, s.object)),
        None => None,
    }
}

#[derive(Clone, Debug, PartialEq, Eq)]
pub struct MoqtSubscribeOk {
    pub subscribe_id: u64,
    /// Milliseconds.
    pub expires: u64,
    pub group_order: MoqtDeliveryOrder,
    /// Absent when no content exists yet.
    pub largest_id: Option<FullSequence>,
    pub parameters: MoqtSubscribeParameters,
}

pub struct SubscribeOkView {
    pub subscribe_id: u64,
    pub expires: u64,
    pub group_order: MoqtDeliveryOrder,
    pub largest_id: Option<(u64, u64)>,
    pub parameters: ParamsView,
}

impl View for MoqtSubscribeOk {
    type V = SubscribeOkView;

    open spec fn view(&self) -> SubscribeOkView {
        SubscribeOkView {
            subscribe_id: self.subscribe_id,
            expires: self.expires,
            group_order: self.group_order,
            largest_id: opt_seq_view(self.largest_id),
            parameters: self.parameters@,
        }
    }
}

#[derive(Clone, Debug, PartialEq, Eq)]
pub struct MoqtSubscribeError {
    pub subscribe_id: u64,
    pub error_code: SubscribeErrorCode,
    pub reason_phrase: Vec<u8>,
    pub track_alias: u64,
}

pub struct SubscribeErrorView {
    pub subscribe_id: u64,
    pub error_code: SubscribeErrorCode,
    pub reason_phrase: Seq<u8>,
    pub track_alias: u64,
}

impl View for MoqtSubscribeError {
    type V = SubscribeErrorView;

    open spec fn view(&self) -> SubscribeErrorView {
        SubscribeErrorView {
            subscribe_id: self.subscribe_id,
            error_code: self.error_code,
            reason_phrase: self.reason_phrase@,
            track_alias: self.track_alias,
        }
    }
}

#[derive(Clone, Copy, Debug, PartialEq, Eq, Structural)]
pub struct MoqtUnsubscribe {
    pub subscribe_id: u64,
}

#[derive(Clone, Debug, PartialEq, Eq)]
pub struct MoqtSubscribeDone {
    pub subscribe_id: u64,
    pub status_code: SubscribeDoneCode,
    pub reason_phrase: Vec<u8>,
    pub final_id: Option<FullSequence>,
}

pub struct SubscribeDoneView {
    pub subscribe_id: u64,
    pub status_code: SubscribeDoneCode,
    pub reason_phrase: Seq<u8>,
    pub final_id: Option<(u64, u64)>,
}

impl View for MoqtSubscribeDone {
    type V = SubscribeDoneView;

    open spec fn view(&self) -> SubscribeDoneView {
        SubscribeDoneView {
            subscribe_id: self.subscribe_id,
            status_code: self.status_code,
            reason_phrase: self.reason_phrase@,
            final_id: opt_seq_view(self.final_id),
        }
    }
}

#[derive(Clone, Debug, PartialEq, Eq)]
pub struct MoqtSubscribeUpdate {
    pub subscribe_id: u64,
    pub start_group: u64,
    pub start_object: u64,
    pub end_group: Option<u64>,
    pub end_object: Option<u64>,
    pub subscriber_priority: MoqtPriority,
    pub parameters: MoqtSubscribeParameters,
}

pub struct SubscribeUpdateView {
    pub subscribe_id: u64,
    pub start_group: u64,
    pub start_object: u64,
    pub end_group: Option<u64>,
    pub end_object: Option<u64>,
    pub subscriber_priority: u8,
    pub parameters: ParamsView,
}

impl View for MoqtSubscribeUpdate {
    type V = SubscribeUpdateView;

    open spec fn view(&self) -> SubscribeUpdateView {
        SubscribeUpdateView {
            subscribe_id: self.subscribe_id,
            start_group: self.start_group,
            start_object: self.start_object,
            end_group: self.end_group,
            end_object: self.end_object,
            subscriber_priority: self.subscriber_priority,
            parameters: self.parameters@,
        }
    }
}

/// A message made of a track namespace and parameters: ANNOUNCE and
/// SUBSCRIBE_ANNOUNCES.
pub struct NamespaceParamsView {
    pub track_namespace: Seq<Seq<u8>>,
    pub parameters: ParamsView,
}

#[derive(Clone, Debug, PartialEq, Eq)]
pub struct MoqtAnnounce {
    pub track_namespace: FullTrackName,
    pub parameters: MoqtSubscribeParameters,
}

impl View for MoqtAnnounce {
    type V = NamespaceParamsView;

    open spec fn view(&self) -> NamespaceParamsView {
        NamespaceParamsView {
            track_namespace: self.track_namespace@,
            parameters: self.parameters@,
        }
    }
}

#[derive(Clone, Debug, PartialEq, Eq)]
pub struct MoqtSubscribeAnnounces {
    pub track_namespace: FullTrackName,
    pub parameters: MoqtSubscribeParameters,
}

impl View for MoqtSubscribeAnnounces {
    type V = NamespaceParamsView;

    open spec fn view(&self) -> NamespaceParamsView {
        NamespaceParamsView {
            track_namespace: self.track_namespace@,
            parameters: self.parameters@,
        }
    }
}

/// A message made of a namespace alone: ANNOUNCE_OK, UNANNOUNCE,
/// SUBSCRIBE_ANNOUNCES_OK, UNSUBSCRIBE_ANNOUNCES.
#[derive(Clone, Debug, PartialEq, Eq)]
pub struct MoqtAnnounceOk {
    pub track_namespace: FullTrackName,
}

#[derive(Clone, Debug, PartialEq, Eq)]
pub struct MoqtUnannounce {
    pub track_namespace: FullTrackName,
}

#[derive(Clone, Debug, PartialEq, Eq)]
pub struct MoqtSubscribeAnnouncesOk {
    pub track_namespace: FullTrackName,
}

#[derive(Clone, Debug, PartialEq, Eq)]
pub struct MoqtUnsubscribeAnnounces {
    pub track_namespace: FullTrackName,
}

/// A namespace, an error code and a reason: ANNOUNCE_ERROR,
/// ANNOUNCE_CANCEL, SUBSCRIBE_ANNOUNCES_ERROR.
pub struct NamespaceErrorView<C> {
    pub track_namespace: Seq<Seq<u8>>,
    pub error_code: C,
    pub reason_phrase: Seq<u8>,
}

#[derive(Clone, Debug, PartialEq, Eq)]
pub struct MoqtAnnounceError {
    pub track_namespace: FullTrackName,
    pub error_code: MoqtAnnounceErrorCode,
    pub reason_phrase: Vec<u8>,
}

impl View for MoqtAnnounceError {
    type V = NamespaceErrorView<MoqtAnnounceErrorCode>;

    open spec fn view(&self) -> NamespaceErrorView<MoqtAnnounceErrorCode> {
        NamespaceErrorView {
            track_namespace: self.track_namespace@,
            error_code: self.error_code,
            reason_phrase: self.reason_phrase@,
        }
    }
}

#[derive(Clone, Debug, PartialEq, Eq)]
pub struct MoqtAnnounceCancel {
    pub track_namespace: FullTrackName,
    pub error_code: MoqtAnnounceErrorCode,
    pub reason_phrase: Vec<u8>,
}

impl View for MoqtAnnounceCancel {
    type V = NamespaceErrorView<MoqtAnnounceErrorCode>;

    open spec fn view(&self) -> NamespaceErrorView<MoqtAnnounceErrorCode> {
        NamespaceErrorView {
            track_namespace: self.track_namespace@,
            error_code: self.error_code,
            reason_phrase: self.reason_phrase@,
        }
    }
}

#[derive(Clone, Debug, PartialEq, Eq)]
pub struct MoqtSubscribeAnnouncesError {
    pub track_namespace: FullTrackName,
    pub error_code: SubscribeErrorCode,
    pub reason_phrase: Vec<u8>,
}

impl View for MoqtSubscribeAnnouncesError {
    type V = NamespaceErrorView<SubscribeErrorCode>;

    open spec fn view(&self) -> NamespaceErrorView<SubscribeErrorCode> {
        NamespaceErrorView {
            track_namespace: self.track_namespace@,
            error_code: self.error_code,
            reason_phrase: self.reason_phrase@,
        }
    }
}

#[derive(Clone, Debug, PartialEq, Eq)]
pub struct MoqtTrackStatusRequest {
    pub full_track_name: FullTrackName,
}

#[derive(Clone, Debug, PartialEq, Eq)]
pub struct MoqtTrackStatus {
    pub full_track_name: FullTrackName,
    pub status_code: MoqtTrackStatusCode,
    pub last_group: u64,
    pub last_object: u64,
}

pub struct TrackStatusView {
    pub full_track_name: Seq<Seq<u8>>,
    pub status_code: MoqtTrackStatusCode,
    pub last_group: u64,
    pub last_object: u64,
}

impl View for MoqtTrackStatus {
    type V = TrackStatusView;

    open spec fn view(&self) -> TrackStatusView {
        TrackStatusView {
            full_track_name: self.full_track_name@,
            status_code: self.status_code,
            last_group: self.last_group,
            last_object: self.last_object,
        }
    }
}

#[derive(Clone, Debug, PartialEq, Eq)]
pub struct MoqtGoAway {
    pub new_session_uri: Vec<u8>,
}

#[derive(Clone, Copy, Debug, PartialEq, Eq, Structural)]
pub struct MoqtMaxSubscribeId {
    pub max_subscribe_id: u64,
}

#[derive(Clone, Debug, PartialEq, Eq)]
pub struct MoqtFetch {
    pub subscribe_id: u64,
    pub full_track_name: FullTrackName,
    pub subscriber_priority: MoqtPriority,
    pub group_order: Option<MoqtDeliveryOrder>,
    /// The subgroup is not carried.
    pub start_object: FullSequence,
    pub end_group: u64,
    pub end_object: Option<u64>,
    pub parameters: MoqtSubscribeParameters,
}

pub struct FetchView {
    pub subscribe_id: u64,
    pub full_track_name: Seq<Seq<u8>>,
    pub subscriber_priority: u8,
    pub group_order: Option<MoqtDeliveryOrder>,
    pub start_group: u64,
    pub start_object: u64,
    pub end_group: u64,
    pub end_object: Option<u64>,
    pub parameters: ParamsView,
}

impl View for MoqtFetch {
    type V = FetchView;

    open spec fn view(&self) -> FetchView {
        FetchView {
            subscribe_id: self.subscribe_id,
            full_track_name: self.full_track_name@,
            subscriber_priority: self.subscriber_priority,
            group_order: self.group_order,
            start_group: self.start_object.group,
            start_object: self.start_object.object,
            end_group: self.end_group,
            end_object: self.end_object,
            parameters: self.parameters@,
        }
    }
}

#[derive(Clone, Copy, Debug, PartialEq, Eq, Structural)]
pub struct MoqtFetchCancel {
    pub subscribe_id: u64,
}

#[derive(Clone, Debug, PartialEq, Eq)]
pub struct MoqtFetchOk {
    pub subscribe_id: u64,
    pub group_order: MoqtDeliveryOrder,
    /// The subgroup is not carried.
    pub largest_id: FullSequence,
    pub parameters: MoqtSubscribeParameters,
}

pub struct FetchOkView {
    pub subscribe_id: u64,
    pub group_order: MoqtDeliveryOrder,
    pub largest_group: u64,
    pub largest_object: u64,
    pub parameters: ParamsView,
}

impl View for MoqtFetchOk {
    type V = FetchOkView;

    open spec fn view(&self) -> FetchOkView {
        FetchOkView {
            subscribe_id: self.subscribe_id,
            group_order: self.group_order,
            largest_group: self.largest_id.group,
            largest_object: self.largest_id.object,
            parameters: self.parameters@,
        }
    }
}

#[derive(Clone, Debug, PartialEq, Eq)]
pub struct MoqtFetchError {
    pub subscribe_id: u64,
    pub error_code: SubscribeErrorCode,
    pub reason_phrase: Vec<u8>,
}

pub struct FetchErrorView {
    pub subscribe_id: u64,
    pub error_code: SubscribeErrorCode,
    pub reason_phrase: Seq<u8>,
}

impl View for MoqtFetchError {
    type V = FetchErrorView;

    open spec fn view(&self) -> FetchErrorView {
        FetchErrorView {
            subscribe_id: self.subscribe_id,
            error_code: self.error_code,
            reason_phrase: self.reason_phrase@,
        }
    }
}

/// Acknowledgement of an object; `delta_from_deadline` (microseconds) is
/// positive when the object arrived before its deadline.
#[derive(Clone, Copy, Debug, PartialEq, Eq, Structural)]
pub struct MoqtObjectAck {
    pub subscribe_id: u64,
    pub group_id: u64,
    pub object_id: u64,
    pub delta_from_deadline: i64,
}

} // verus!
