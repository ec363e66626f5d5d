use vstd::prelude::*;
use crate::priority::MoqtPriority;

verus! {

pub type MoqtVersion = u64;

#[allow(non_upper_case_globals)]
pub const kDraft07Version: MoqtVersion = 0xff000007;

#[allow(non_upper_case_globals)]
pub const kDefaultMoqtVersion: MoqtVersion = 0xff000007;

#[allow(non_upper_case_globals)]
pub const kDefaultInitialMaxSubscribeId: u64 = 100;

/// Largest number of buffered bytes that may not yet form a message.
#[allow(non_upper_case_globals)]
pub const kMaxMessageHeaderSize: usize = 2048;

/// Which side of the session this endpoint is.
#[allow(non_camel_case_types)]
#[derive(Clone, Copy, Debug, PartialEq, Eq, Structural)]
pub enum Perspective {
    IS_SERVER,
    IS_CLIENT,
}

/// Configuration of one session.
pub struct MoqtSessionParameters {
    pub version: MoqtVersion,
    pub perspective: Perspective,
    pub using_webtrans: bool,
    pub path: Option<Vec<u8>>,
    pub max_subscribe_id: u64,
    pub deliver_partial_objects: bool,
    pub support_object_acks: bool,
}

impl MoqtSessionParameters {
    /// A session over WebTransport when no path is given, over native QUIC
    /// (announcing the path) otherwise.
    pub fn new(perspective: Perspective, path: Option<Vec<u8>>) -> (r: Self)
        ensures
            r.version == kDefaultMoqtVersion,
            r.perspective == perspective,
            r.using_webtrans == (path is None),
            r.path == path,
            r.max_subscribe_id == kDefaultInitialMaxSubscribeId,
            !r.deliver_partial_objects,
            !r.support_object_acks,
    {
        let using_webtrans = path.is_none();
        MoqtSessionParameters {
            version: kDefaultMoqtVersion,
            perspective,
            using_webtrans,
            path,
            max_subscribe_id: kDefaultInitialMaxSubscribeId,
            deliver_partial_objects: false,
            support_object_acks: false,
        }
    }
}

/// Type of a unidirectional data stream or datagram.
#[allow(non_camel_case_types)]
#[derive(Clone, Copy, Debug, PartialEq, Eq, Structural)]
pub enum MoqtDataStreamType {
    kObjectDatagram,
    kStreamHeaderSubgroup,
    kStreamHeaderFetch,
    /// All data on a padding stream is ignored.
    kPadding,
}

impl MoqtDataStreamType {
    pub open spec fn spec_value(self) -> u64 {
        match self {
            MoqtDataStreamType::kObjectDatagram => 0x01,
            MoqtDataStreamType::kStreamHeaderSubgroup => 0x04,
            MoqtDataStreamType::kStreamHeaderFetch => 0x05,
            MoqtDataStreamType::kPadding => 0x26d3,
        }
    }

    /// The wire value.
    pub fn value(&self) -> (r: u64)
        ensures
            r == self.spec_value(),
    {
        match self {
            MoqtDataStreamType::kObjectDatagram => 0x01,
            MoqtDataStreamType::kStreamHeaderSubgroup => 0x04,
            MoqtDataStreamType::kStreamHeaderFetch => 0x05,
            MoqtDataStreamType::kPadding => 0x26d3,
        }
    }

    /// How objects of this stream type are forwarded; fetch and padding
    /// streams have no preference of their own and count as subgroup.
    pub fn get_forwarding_preference(&self) -> (r: MoqtForwardingPreference)
        ensures
            r == (if *self == MoqtDataStreamType::kObjectDatagram {
                MoqtForwardingPreference::kDatagram
            } else {
                MoqtForwardingPreference::kSubgroup
            }),
    {
        match self {
            MoqtDataStreamType::kObjectDatagram => MoqtForwardingPreference::kDatagram,
            _ => MoqtForwardingPreference::kSubgroup,
        }
    }
}

/// Type tag of a control message.
#[allow(non_camel_case_types)]
#[derive(Clone, Copy, Debug, PartialEq, Eq, Structural)]
pub enum MoqtMessageType {
    kSubscribeUpdate,
    kSubscribe,
    kSubscribeOk,
    kSubscribeError,
    kAnnounce,
    kAnnounceOk,
    kAnnounceError,
    kUnannounce,
    kUnsubscribe,
    kSubscribeDone,
    kAnnounceCancel,
    kTrackStatusRequest,
    kTrackStatus,
    kGoAway,
    kSubscribeAnnounces,
    kSubscribeAnnouncesOk,
    kSubscribeAnnouncesError,
    kUnsubscribeAnnounces,
    kMaxSubscribeId,
    kFetch,
    kFetchCancel,
    kFetchOk,
    kFetchError,
    kClientSetup,
    kServerSetup,
    /// Acknowledgement of a received object (an extension).
    kObjectAck,
}

impl MoqtMessageType {
    pub open spec fn spec_value(self) -> u64 {
        match self {
            MoqtMessageType::kSubscribeUpdate => 0x02,
            MoqtMessageType::kSubscribe => 0x03,
            MoqtMessageType::kSubscribeOk => 0x04,
            MoqtMessageType::kSubscribeError => 0x05,
            MoqtMessageType::kAnnounce => 0x06,
            MoqtMessageType::kAnnounceOk => 0x07,
            MoqtMessageType::kAnnounceError => 0x08,
            MoqtMessageType::kUnannounce => 0x09,
            MoqtMessageType::kUnsubscribe => 0x0a,
            MoqtMessageType::kSubscribeDone => 0x0b,
            MoqtMessageType::kAnnounceCancel => 0x0c,
            MoqtMessageType::kTrackStatusRequest => 0x0d,
            MoqtMessageType::kTrackStatus => 0x0e,
            MoqtMessageType::kGoAway => 0x10,
            MoqtMessageType::kSubscribeAnnounces => 0x11,
            MoqtMessageType::kSubscribeAnnouncesOk => 0x12,
            MoqtMessageType::kSubscribeAnnouncesError => 0x13,
            MoqtMessageType::kUnsubscribeAnnounces => 0x14,
            MoqtMessageType::kMaxSubscribeId => 0x15,
            MoqtMessageType::kFetch => 0x16,
            MoqtMessageType::kFetchCancel => 0x17,
            MoqtMessageType::kFetchOk => 0x18,
            MoqtMessageType::kFetchError => 0x19,
            MoqtMessageType::kClientSetup => 0x40,
            MoqtMessageType::kServerSetup => 0x41,
            MoqtMessageType::kObjectAck => 0x3184,
        }
    }

    /// The wire value.
    pub fn value(&self) -> (r: u64)
        ensures
            r == self.spec_value(),
    {
        match self {
            MoqtMessageType::kSubscribeUpdate => 0x02,
            MoqtMessageType::kSubscribe => 0x03,
            MoqtMessageType::kSubscribeOk => 0x04,
            MoqtMessageType::kSubscribeError => 0x05,
            MoqtMessageType::kAnnounce => 0x06,
            MoqtMessageType::kAnnounceOk => 0x07,
            MoqtMessageType::kAnnounceError => 0x08,
            MoqtMessageType::kUnannounce => 0x09,
            MoqtMessageType::kUnsubscribe => 0x0a,
            MoqtMessageType::kSubscribeDone => 0x0b,
            MoqtMessageType::kAnnounceCancel => 0x0c,
            MoqtMessageType::kTrackStatusRequest => 0x0d,
            MoqtMessageType::kTrackStatus => 0x0e,
            MoqtMessageType::kGoAway => 0x10,
            MoqtMessageType::kSubscribeAnnounces => 0x11,
            MoqtMessageType::kSubscribeAnnouncesOk => 0x12,
            MoqtMessageType::kSubscribeAnnouncesError => 0x13,
            MoqtMessageType::kUnsubscribeAnnounces => 0x14,
            MoqtMessageType::kMaxSubscribeId => 0x15,
            MoqtMessageType::kFetch => 0x16,
            MoqtMessageType::kFetchCancel => 0x17,
            MoqtMessageType::kFetchOk => 0x18,
            MoqtMessageType::kFetchError => 0x19,
            MoqtMessageType::kClientSetup => 0x40,
            MoqtMessageType::kServerSetup => 0x41,
            MoqtMessageType::kObjectAck => 0x3184,
        }
    }

    pub open spec fn spec_from_value(v: u64) -> Option<MoqtMessageType> {
        if v == 0x02 {
            Some(MoqtMessageType::kSubscribeUpdate)
        } else if v == 0x03 {
            Some(MoqtMessageType::kSubscribe)
        } else if v == 0x04 {
            Some(MoqtMessageType::kSubscribeOk)
        } else if v == 0x05 {
            Some(MoqtMessageType::kSubscribeError)
        } else if v == 0x06 {
            Some(MoqtMessageType::kAnnounce)
        } else if v == 0x07 {
            Some(MoqtMessageType::kAnnounceOk)
        } else if v == 0x08 {
            Some(MoqtMessageType::kAnnounceError)
        } else if v == 0x09 {
            Some(MoqtMessageType::kUnannounce)
        } else if v == 0x0a {
            Some(MoqtMessageType::kUnsubscribe)
        } else if v == 0x0b {
            Some(MoqtMessageType::kSubscribeDone)
        } else if v == 0x0c {
            Some(MoqtMessageType::kAnnounceCancel)
        } else if v == 0x0d {
            Some(MoqtMessageType::kTrackStatusRequest)
        } else if v == 0x0e {
            Some(MoqtMessageType::kTrackStatus)
        } else if v == 0x10 {
            Some(MoqtMessageType::kGoAway)
        } else if v == 0x11 {
            Some(MoqtMessageType::kSubscribeAnnounces)
        } else if v == 0x12 {
            Some(MoqtMessageType::kSubscribeAnnouncesOk)
        } else if v == 0x13 {
            Some(MoqtMessageType::kSubscribeAnnouncesError)
        } else if v == 0x14 {
            Some(MoqtMessageType::kUnsubscribeAnnounces)
        } else if v == 0x15 {
            Some(MoqtMessageType::kMaxSubscribeId)
        } else if v == 0x16 {
            Some(MoqtMessageType::kFetch)
        } else if v == 0x17 {
            Some(MoqtMessageType::kFetchCancel)
        } else if v == 0x18 {
            Some(MoqtMessageType::kFetchOk)
        } else if v == 0x19 {
            Some(MoqtMessageType::kFetchError)
        } else if v == 0x40 {
            Some(MoqtMessageType::kClientSetup)
        } else if v == 0x41 {
            Some(MoqtMessageType::kServerSetup)
        } else if v == 0x3184 {
            Some(MoqtMessageType::kObjectAck)
        } else {
            None
        }
    }

    /// The message type with wire value `v`, if any.
    pub fn try_from_value(v: u64) -> (r: Option<MoqtMessageType>)
        ensures
            r == Self::spec_from_value(v),
    {
        match v {
            0x02 => Some(MoqtMessageType::kSubscribeUpdate),
            0x03 => Some(MoqtMessageType::kSubscribe),
            0x04 => Some(MoqtMessageType::kSubscribeOk),
            0x05 => Some(MoqtMessageType::kSubscribeError),
            0x06 => Some(MoqtMessageType::kAnnounce),
            0x07 => Some(MoqtMessageType::kAnnounceOk),
            0x08 => Some(MoqtMessageType::kAnnounceError),
            0x09 => Some(MoqtMessageType::kUnannounce),
            0x0a => Some(MoqtMessageType::kUnsubscribe),
            0x0b => Some(MoqtMessageType::kSubscribeDone),
            0x0c => Some(MoqtMessageType::kAnnounceCancel),
            0x0d => Some(MoqtMessageType::kTrackStatusRequest),
            0x0e => Some(MoqtMessageType::kTrackStatus),
            0x10 => Some(MoqtMessageType::kGoAway),
            0x11 => Some(MoqtMessageType::kSubscribeAnnounces),
            0x12 => Some(MoqtMessageType::kSubscribeAnnouncesOk),
            0x13 => Some(MoqtMessageType::kSubscribeAnnouncesError),
            0x14 => Some(MoqtMessageType::kUnsubscribeAnnounces),
            0x15 => Some(MoqtMessageType::kMaxSubscribeId),
            0x16 => Some(MoqtMessageType::kFetch),
            0x17 => Some(MoqtMessageType::kFetchCancel),
            0x18 => Some(MoqtMessageType::kFetchOk),
            0x19 => Some(MoqtMessageType::kFetchError),
            0x40 => Some(MoqtMessageType::kClientSetup),
            0x41 => Some(MoqtMessageType::kServerSetup),
            0x3184 => Some(MoqtMessageType::kObjectAck),
            _ => None,
        }
    }
}

/// Kinds of error that the protocol defines.
#[allow(non_camel_case_types)]
#[derive(Clone, Copy, Debug, PartialEq, Eq, Structural)]
pub enum MoqtError {
    kInternalError,
    kUnauthorized,
    kProtocolViolation,
    kDuplicateTrackAlias,
    kParameterLengthMismatch,
    kTooManySubscribes,
    kGoawayTimeout,
}

/// Role that an endpoint announces in its SETUP message.
#[allow(non_camel_case_types)]
#[derive(Clone, Copy, Debug, PartialEq, Eq, Structural)]
pub enum MoqtRole {
    kPublisher,
    kSubscriber,
    kPubSub,
}

impl MoqtRole {
    pub open spec fn spec_value(self) -> u64 {
        match self {
            MoqtRole::kPublisher => 1,
            MoqtRole::kSubscriber => 2,
            MoqtRole::kPubSub => 3,
        }
    }

    pub fn value(&self) -> (r: u64)
        ensures
            r == self.spec_value(),
    {
        match self {
            MoqtRole::kPublisher => 1,
            MoqtRole::kSubscriber => 2,
            MoqtRole::kPubSub => 3,
        }
    }

    pub open spec fn spec_from_value(v: u64) -> Option<Self> {
        if v == 1 {
            Some(MoqtRole::kPublisher)
        } else if v == 2 {
            Some(MoqtRole::kSubscriber)
        } else if v == 3 {
            Some(MoqtRole::kPubSub)
        } else {
            None
        }
    }

    pub fn try_from_value(v: u64) -> (r: Option<MoqtRole>)
        ensures
            r == Self::spec_from_value(v),
    {
        match v {
            1 => Some(MoqtRole::kPublisher),
            2 => Some(MoqtRole::kSubscriber),
            3 => Some(MoqtRole::kPubSub),
            _ => None,
        }
    }
}

/// Keys of the parameters of CLIENT_SETUP and SERVER_SETUP.
#[allow(non_camel_case_types)]
#[derive(Clone, Copy, Debug, PartialEq, Eq, Structural)]
pub enum MoqtSetupParameter {
    kRole,
    kPath,
    kMaxSubscribeId,
    /// Support for OBJECT_ACK (an extension).
    kSupportObjectAcks,
}

impl MoqtSetupParameter {
    pub open spec fn spec_value(self) -> u64 {
        match self {
            MoqtSetupParameter::kRole => 0x0,
            MoqtSetupParameter::kPath => 0x1,
            MoqtSetupParameter::kMaxSubscribeId => 0x2,
            MoqtSetupParameter::kSupportObjectAcks => 0xbbf1439,
        }
    }

    pub fn value(&self) -> (r: u64)
        ensures
            r == self.spec_value(),
    {
        match self {
            MoqtSetupParameter::kRole => 0x0,
            MoqtSetupParameter::kPath => 0x1,
            MoqtSetupParameter::kMaxSubscribeId => 0x2,
            MoqtSetupParameter::kSupportObjectAcks => 0xbbf1439,
        }
    }
}

/// Keys of the parameters of SUBSCRIBE and the messages like it.
#[allow(non_camel_case_types)]
#[derive(Clone, Copy, Debug, PartialEq, Eq, Structural)]
pub enum MoqtTrackRequestParameter {
    kAuthorizationInfo,
    kDeliveryTimeout,
    kMaxCacheDuration,
    /// Size of the OBJECT_ACK window (an extension).
    kOackWindowSize,
}

impl MoqtTrackRequestParameter {
    pub open spec fn spec_value(self) -> u64 {
        match self {
            MoqtTrackRequestParameter::kAuthorizationInfo => 0x2,
            MoqtTrackRequestParameter::kDeliveryTimeout => 0x3,
            MoqtTrackRequestParameter::kMaxCacheDuration => 0x4,
            MoqtTrackRequestParameter::kOackWindowSize => 0xbbf1439,
        }
    }

    pub fn value(&self) -> (r: u64)
        ensures
            r == self.spec_value(),
    {
        match self {
            MoqtTrackRequestParameter::kAuthorizationInfo => 0x2,
            MoqtTrackRequestParameter::kDeliveryTimeout => 0x3,
            MoqtTrackRequestParameter::kMaxCacheDuration => 0x4,
            MoqtTrackRequestParameter::kOackWindowSize => 0xbbf1439,
        }
    }
}

/// Error codes of ANNOUNCE_ERROR and ANNOUNCE_CANCEL.
#[allow(non_camel_case_types)]
#[derive(Clone, Copy, Debug, PartialEq, Eq, Structural)]
pub enum MoqtAnnounceErrorCode {
    kInternalError,
    kAnnounceNotSupported,
}

impl MoqtAnnounceErrorCode {
    pub open spec fn spec_value(self) -> u64 {
        match self {
            MoqtAnnounceErrorCode::kInternalError => 0,
            MoqtAnnounceErrorCode::kAnnounceNotSupported => 1,
        }
    }

    pub fn value(&self) -> (r: u64)
        ensures
            r == self.spec_value(),
    {
        match self {
            MoqtAnnounceErrorCode::kInternalError => 0,
            MoqtAnnounceErrorCode::kAnnounceNotSupported => 1,
        }
    }

    pub open spec fn spec_from_value(v: u64) -> Option<Self> {
        if v == 0 {
            Some(MoqtAnnounceErrorCode::kInternalError)
        } else if v == 1 {
            Some(MoqtAnnounceErrorCode::kAnnounceNotSupported)
        } else {
            None
        }
    }

    pub fn try_from_value(v: u64) -> (r: Option<Self>)
        ensures
            r == Self::spec_from_value(v),
    {
        match v {
            0 => Some(MoqtAnnounceErrorCode::kInternalError),
            1 => Some(MoqtAnnounceErrorCode::kAnnounceNotSupported),
            _ => None,
        }
    }
}

/// Error codes of SUBSCRIBE_ERROR, SUBSCRIBE_ANNOUNCES_ERROR and FETCH_ERROR.
#[allow(non_camel_case_types)]
#[derive(Clone, Copy, Debug, PartialEq, Eq, Structural)]
pub enum SubscribeErrorCode {
    kInternalError,
    kInvalidRange,
    kRetryTrackAlias,
    kTrackDoesNotExist,
    kUnauthorized,
    kTimeout,
}

impl SubscribeErrorCode {
    pub open spec fn spec_value(self) -> u64 {
        match self {
            SubscribeErrorCode::kInternalError => 0,
            SubscribeErrorCode::kInvalidRange => 1,
            SubscribeErrorCode::kRetryTrackAlias => 2,
            SubscribeErrorCode::kTrackDoesNotExist => 3,
            SubscribeErrorCode::kUnauthorized => 4,
            SubscribeErrorCode::kTimeout => 5,
        }
    }

    pub fn value(&self) -> (r: u64)
        ensures
            r == self.spec_value(),
    {
        match self {
            SubscribeErrorCode::kInternalError => 0,
            SubscribeErrorCode::kInvalidRange => 1,
            SubscribeErrorCode::kRetryTrackAlias => 2,
            SubscribeErrorCode::kTrackDoesNotExist => 3,
            SubscribeErrorCode::kUnauthorized => 4,
            SubscribeErrorCode::kTimeout => 5,
        }
    }

    pub open spec fn spec_from_value(v: u64) -> Option<Self> {
        if v == 0 {
            Some(SubscribeErrorCode::kInternalError)
        } else if v == 1 {
            Some(SubscribeErrorCode::kInvalidRange)
        } else if v == 2 {
            Some(SubscribeErrorCode::kRetryTrackAlias)
        } else if v == 3 {
            Some(SubscribeErrorCode::kTrackDoesNotExist)
        } else if v == 4 {
            Some(SubscribeErrorCode::kUnauthorized)
        } else if v == 5 {
            Some(SubscribeErrorCode::kTimeout)
        } else {
            None
        }
    }

    pub fn try_from_value(v: u64) -> (r: Option<Self>)
        ensures
            r == Self::spec_from_value(v),
    {
        match v {
            0 => Some(SubscribeErrorCode::kInternalError),
            1 => Some(SubscribeErrorCode::kInvalidRange),
            2 => Some(SubscribeErrorCode::kRetryTrackAlias),
            3 => Some(SubscribeErrorCode::kTrackDoesNotExist),
            4 => Some(SubscribeErrorCode::kUnauthorized),
            5 => Some(SubscribeErrorCode::kTimeout),
            _ => None,
        }
    }
}

/// Status codes of SUBSCRIBE_DONE.
#[allow(non_camel_case_types)]
#[derive(Clone, Copy, Debug, PartialEq, Eq, Structural)]
pub enum SubscribeDoneCode {
    kUnsubscribed,
    kInternalError,
    kUnauthorized,
    kTrackEnded,
    kSubscriptionEnded,
    kGoingAway,
    kExpired,
}

impl SubscribeDoneCode {
    pub open spec fn spec_value(self) -> u64 {
        match self {
            SubscribeDoneCode::kUnsubscribed => 0,
            SubscribeDoneCode::kInternalError => 1,
            SubscribeDoneCode::kUnauthorized => 2,
            SubscribeDoneCode::kTrackEnded => 3,
            SubscribeDoneCode::kSubscriptionEnded => 4,
            SubscribeDoneCode::kGoingAway => 5,
            SubscribeDoneCode::kExpired => 6,
        }
    }

    pub fn value(&self) -> (r: u64)
        ensures
            r == self.spec_value(),
    {
        match self {
            SubscribeDoneCode::kUnsubscribed => 0,
            SubscribeDoneCode::kInternalError => 1,
            SubscribeDoneCode::kUnauthorized => 2,
            SubscribeDoneCode::kTrackEnded => 3,
            SubscribeDoneCode::kSubscriptionEnded => 4,
            SubscribeDoneCode::kGoingAway => 5,
            SubscribeDoneCode::kExpired => 6,
        }
    }

    pub open spec fn spec_from_value(v: u64) -> Option<Self> {
        if v == 0 {
            Some(SubscribeDoneCode::kUnsubscribed)
        } else if v == 1 {
            Some(SubscribeDoneCode::kInternalError)
        } else if v == 2 {
            Some(SubscribeDoneCode::kUnauthorized)
        } else if v == 3 {
            Some(SubscribeDoneCode::kTrackEnded)
        } else if v == 4 {
            Some(SubscribeDoneCode::kSubscriptionEnded)
        } else if v == 5 {
            Some(SubscribeDoneCode::kGoingAway)
        } else if v == 6 {
            Some(SubscribeDoneCode::kExpired)
        } else {
            None
        }
    }

    pub fn try_from_value(v: u64) -> (r: Option<Self>)
        ensures
            r == Self::spec_from_value(v),
    {
        match v {
            0 => Some(SubscribeDoneCode::kUnsubscribed),
            1 => Some(SubscribeDoneCode::kInternalError),
            2 => Some(SubscribeDoneCode::kUnauthorized),
            3 => Some(SubscribeDoneCode::kTrackEnded),
            4 => Some(SubscribeDoneCode::kSubscriptionEnded),
            5 => Some(SubscribeDoneCode::kGoingAway),
            6 => Some(SubscribeDoneCode::kExpired),
            _ => None,
        }
    }
}

/// Status codes of TRACK_STATUS.
#[allow(non_camel_case_types)]
#[derive(Clone, Copy, Debug, PartialEq, Eq, Structural)]
pub enum MoqtTrackStatusCode {
    kInProgress,
    kDoesNotExist,
    kNotYetBegun,
    kFinished,
    kStatusNotAvailable,
}

impl MoqtTrackStatusCode {
    pub open spec fn spec_value(self) -> u64 {
        match self {
            MoqtTrackStatusCode::kInProgress => 0,
            MoqtTrackStatusCode::kDoesNotExist => 1,
            MoqtTrackStatusCode::kNotYetBegun => 2,
            MoqtTrackStatusCode::kFinished => 3,
            MoqtTrackStatusCode::kStatusNotAvailable => 4,
        }
    }

    pub fn value(&self) -> (r: u64)
        ensures
            r == self.spec_value(),
    {
        match self {
            MoqtTrackStatusCode::kInProgress => 0,
            MoqtTrackStatusCode::kDoesNotExist => 1,
            MoqtTrackStatusCode::kNotYetBegun => 2,
            MoqtTrackStatusCode::kFinished => 3,
            MoqtTrackStatusCode::kStatusNotAvailable => 4,
        }
    }

    pub open spec fn spec_from_value(v: u64) -> Option<Self> {
        if v == 0 {
            Some(MoqtTrackStatusCode::kInProgress)
        } else if v == 1 {
            Some(MoqtTrackStatusCode::kDoesNotExist)
        } else if v == 2 {
            Some(MoqtTrackStatusCode::kNotYetBegun)
        } else if v == 3 {
            Some(MoqtTrackStatusCode::kFinished)
        } else if v == 4 {
            Some(MoqtTrackStatusCode::kStatusNotAvailable)
        } else {
            None
        }
    }

    pub fn try_from_value(v: u64) -> (r: Option<Self>)
        ensures
            r == Self::spec_from_value(v),
    {
        match v {
            0 => Some(MoqtTrackStatusCode::kInProgress),
            1 => Some(MoqtTrackStatusCode::kDoesNotExist),
            2 => Some(MoqtTrackStatusCode::kNotYetBegun),
            3 => Some(MoqtTrackStatusCode::kFinished),
            4 => Some(MoqtTrackStatusCode::kStatusNotAvailable),
            _ => None,
        }
    }
}

/// Whether a track in this status has objects to serve.
pub fn does_track_status_imply_having_data(code: MoqtTrackStatusCode) -> (r: bool)
    ensures
        r == (code == MoqtTrackStatusCode::kInProgress || code == MoqtTrackStatusCode::kFinished),
{
    match code {
        MoqtTrackStatusCode::kInProgress | MoqtTrackStatusCode::kFinished => true,
        _ => false,
    }
}

/// How the objects of a track are sent; never on the wire.
#[allow(non_camel_case_types)]
#[derive(Clone, Copy, Debug, PartialEq, Eq, Structural)]
pub enum MoqtForwardingPreference {
    kSubgroup,
    kDatagram,
}

impl MoqtForwardingPreference {
    pub fn get_message_type_for_forwarding_preference(&self) -> (r: MoqtDataStreamType)
        ensures
            r == (match *self {
                MoqtForwardingPreference::kDatagram => MoqtDataStreamType::kObjectDatagram,
                MoqtForwardingPreference::kSubgroup => MoqtDataStreamType::kStreamHeaderSubgroup,
            }),
    {
        match self {
            MoqtForwardingPreference::kDatagram => MoqtDataStreamType::kObjectDatagram,
            MoqtForwardingPreference::kSubgroup => MoqtDataStreamType::kStreamHeaderSubgroup,
        }
    }
}

/// Status of an object.
#[allow(non_camel_case_types)]
#[derive(Clone, Copy, Debug, PartialEq, Eq, Structural)]
pub enum MoqtObjectStatus {
    kNormal,
    kObjectDoesNotExist,
    kGroupDoesNotExist,
    kEndOfGroup,
    kEndOfTrack,
    kEndOfSubgroup,
    kInvalidObjectStatus,
}

impl MoqtObjectStatus {
    pub open spec fn spec_value(self) -> u64 {
        match self {
            MoqtObjectStatus::kNormal => 0,
            MoqtObjectStatus::kObjectDoesNotExist => 1,
            MoqtObjectStatus::kGroupDoesNotExist => 2,
            MoqtObjectStatus::kEndOfGroup => 3,
            MoqtObjectStatus::kEndOfTrack => 4,
            MoqtObjectStatus::kEndOfSubgroup => 5,
            MoqtObjectStatus::kInvalidObjectStatus => 6,
        }
    }

    pub open spec fn spec_from_value(v: u64) -> MoqtObjectStatus {
        if v == 0 {
            MoqtObjectStatus::kNormal
        } else if v == 1 {
            MoqtObjectStatus::kObjectDoesNotExist
        } else if v == 2 {
            MoqtObjectStatus::kGroupDoesNotExist
        } else if v == 3 {
            MoqtObjectStatus::kEndOfGroup
        } else if v == 4 {
            MoqtObjectStatus::kEndOfTrack
        } else if v == 5 {
            MoqtObjectStatus::kEndOfSubgroup
        } else {
            MoqtObjectStatus::kInvalidObjectStatus
        }
    }

    pub fn value(&self) -> (r: u64)
        ensures
            r == self.spec_value(),
    {
        match self {
            MoqtObjectStatus::kNormal => 0,
            MoqtObjectStatus::kObjectDoesNotExist => 1,
            MoqtObjectStatus::kGroupDoesNotExist => 2,
            MoqtObjectStatus::kEndOfGroup => 3,
            MoqtObjectStatus::kEndOfTrack => 4,
            MoqtObjectStatus::kEndOfSubgroup => 5,
            MoqtObjectStatus::kInvalidObjectStatus => 6,
        }
    }

    /// Status of a wire value; values past the known ones are invalid.
    pub fn from_value(v: u64) -> (r: MoqtObjectStatus)
        ensures
            r == Self::spec_from_value(v),
    {
        if v == 0 {
            MoqtObjectStatus::kNormal
        } else if v == 1 {
            MoqtObjectStatus::kObjectDoesNotExist
        } else if v == 2 {
            MoqtObjectStatus::kGroupDoesNotExist
        } else if v == 3 {
            MoqtObjectStatus::kEndOfGroup
        } else if v == 4 {
            MoqtObjectStatus::kEndOfTrack
        } else if v == 5 {
            MoqtObjectStatus::kEndOfSubgroup
        } else {
            MoqtObjectStatus::kInvalidObjectStatus
        }
    }
}

/// The filter of a SUBSCRIBE.
#[allow(non_camel_case_types)]
#[derive(Clone, Copy, Debug, PartialEq, Eq, Structural)]
pub enum MoqtFilterType {
    /// No legal filter: the requested range is inconsistent.
    kNone,
    kLatestGroup,
    kLatestObject,
    kAbsoluteStart,
    kAbsoluteRange,
}

impl MoqtFilterType {
    pub open spec fn spec_value(self) -> u64 {
        match self {
            MoqtFilterType::kNone => 0,
            MoqtFilterType::kLatestGroup => 1,
            MoqtFilterType::kLatestObject => 2,
            MoqtFilterType::kAbsoluteStart => 3,
            MoqtFilterType::kAbsoluteRange => 4,
        }
    }

    pub fn value(&self) -> (r: u64)
        ensures
            r == self.spec_value(),
    {
        match self {
            MoqtFilterType::kNone => 0,
            MoqtFilterType::kLatestGroup => 1,
            MoqtFilterType::kLatestObject => 2,
            MoqtFilterType::kAbsoluteStart => 3,
            MoqtFilterType::kAbsoluteRange => 4,
        }
    }
}

/// Absolute position of an object: group, subgroup, object. Two positions
/// are equal when their group and object are; the subgroup plays no part.
#[derive(Clone, Copy, Debug)]
pub struct FullSequence {
    pub group: u64,
    pub subgroup: u64,
    pub object: u64,
}

impl FullSequence {
    pub fn new(group: u64, subgroup: u64, object: u64) -> (r: Self)
        ensures
            r == (FullSequence { group, subgroup, object }),
    {
        FullSequence { group, subgroup, object }
    }

    /// The position of the following object in the same group.
    pub fn next(&self) -> (r: Self)
        requires
            self.object < u64::MAX,
        ensures
            r == (FullSequence { group: self.group, subgroup: self.subgroup, object: (self.object + 1) as u64 }),
    {
        FullSequence { group: self.group, subgroup: self.subgroup, object: self.object + 1 }
    }

    /// Temporal order: by group, then by object; the subgroup plays no part.
    pub fn precedes(&self, other: &FullSequence) -> (r: bool)
        ensures
            r == (self.group < other.group || (self.group == other.group && self.object
                < other.object)),
    {
        self.group < other.group || (self.group == other.group && self.object < other.object)
    }
}

impl PartialEq for FullSequence {
    fn eq(&self, other: &FullSequence) -> (r: bool) {
        self.group == other.group && self.object == other.object
    }
}

impl vstd::std_specs::cmp::PartialEqSpecImpl for FullSequence {
    open spec fn obeys_eq_spec() -> bool {
        true
    }

    open spec fn eq_spec(&self, other: &FullSequence) -> bool {
        self.group == other.group && self.object == other.object
    }
}

impl Eq for FullSequence {

}

/// Priority of a subgroup within a track.
#[derive(Clone, Copy, Debug, PartialEq, Eq, Structural)]
pub struct SubgroupPriority {
    pub publisher_priority: u8,
    pub subgroup_id: u64,
}

impl Default for SubgroupPriority {
    /// Publisher priority 0xf0, subgroup 0.
    fn default() -> (r: Self)
        ensures
            r == (SubgroupPriority { publisher_priority: 0xf0, subgroup_id: 0 }),
    {
        SubgroupPriority { publisher_priority: 0xf0, subgroup_id: 0 }
    }
}

/// Metadata of an object; the message type implies some of it.
#[derive(Clone, Copy, Debug, PartialEq, Eq, Structural)]
pub struct MoqtObject {
    pub track_alias: u64,
    /// For FETCH, the subscribe ID.
    pub group_id: u64,
    pub object_id: u64,
    pub publisher_priority: MoqtPriority,
    pub object_status: MoqtObjectStatus,
    pub subgroup_id: Option<u64>,
    pub payload_length: u64,
}

} // verus!
