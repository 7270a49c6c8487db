//! Packets of MQTT version 5, as far as the sink builds, sends or receives them.
use bytes::Bytes;
use vstd::prelude::*;

use crate::types::{NonZeroU16, NonZeroU32, QoS};

verus! {

/// Name and value pairs that a packet carries for its users.
pub type UserProperties = Vec<(String, String)>;

/// A packet on its way to the encoder.
#[derive(Debug)]
pub enum Packet {
    /// An application message.
    Publish(Publish),
    /// The answer to an application message.
    PublishAck(PublishAck),
    /// A request for subscriptions.
    Subscribe(Subscribe),
    /// The answer to a request for subscriptions.
    SubscribeAck(SubscribeAck),
    /// A request to end subscriptions.
    Unsubscribe(Unsubscribe),
    /// The answer to a request to end subscriptions.
    UnsubscribeAck(UnsubscribeAck),
    /// The answer to a connection request.
    ConnectAck(ConnectAck),
    /// A ping.
    PingRequest,
    /// The end of the connection.
    Disconnect(Disconnect),
}

/// PUBLISH packet.
#[derive(Debug)]
pub struct Publish {
    /// This might be re-delivery of an earlier attempt to send the packet.
    pub dup: bool,
    /// The server keeps the message for later subscribers.
    pub retain: bool,
    /// The level of assurance for delivery.
    pub qos: QoS,
    /// The information channel to which the payload is published.
    pub topic: String,
    /// Only present where `qos` asks for an acknowledgement.
    pub packet_id: Option<NonZeroU16>,
    /// The properties of the message.
    pub properties: PublishProperties,
    /// The message.
    pub payload: Bytes,
}

impl Publish {
    /// `self` is `other` up to the packet identifier, which is `id`.
    pub open spec fn is_numbered(self, other: Publish, id: nat) -> bool {
        &&& self.packet_id matches Some(n) && n@ == id
        &&& self.dup == other.dup
        &&& self.retain == other.retain
        &&& self.qos == other.qos
        &&& self.topic == other.topic
        &&& self.properties == other.properties
        &&& self.payload == other.payload
    }
}

/// Properties of a PUBLISH packet.
#[derive(Debug)]
pub struct PublishProperties {
    /// Stands for the topic.
    pub topic_alias: Option<NonZeroU16>,
    /// Tells the sender of a request which request a response belongs to.
    pub correlation_data: Option<Bytes>,
    /// Lifetime of the message in seconds.
    pub message_expiry_interval: Option<NonZeroU32>,
    /// What the payload holds.
    pub content_type: Option<String>,
    /// Properties of the application.
    pub user_properties: UserProperties,
    /// The payload is UTF-8 text.
    pub is_utf8_payload: bool,
    /// Topic for a response.
    pub response_topic: Option<String>,
    /// The subscriptions that the message matched.
    pub subscription_ids: Vec<NonZeroU32>,
}

impl PublishProperties {
    /// No property is set.
    pub open spec fn is_empty(self) -> bool {
        &&& self.topic_alias is None
        &&& self.correlation_data is None
        &&& self.message_expiry_interval is None
        &&& self.content_type is None
        &&& self.user_properties@ == Seq::<(String, String)>::empty()
        &&& !self.is_utf8_payload
        &&& self.response_topic is None
        &&& self.subscription_ids@ == Seq::<NonZeroU32>::empty()
    }
}

impl Default for PublishProperties {
    fn default() -> (r: PublishProperties)
        ensures
            r.is_empty(),
    {
        PublishProperties {
            topic_alias: None,
            correlation_data: None,
            message_expiry_interval: None,
            content_type: None,
            user_properties: Vec::new(),
            is_utf8_payload: false,
            response_topic: None,
            subscription_ids: Vec::new(),
        }
    }
}

/// PUBACK reason code.
#[derive(Debug, Clone, Copy, PartialEq, Eq, Structural)]
pub enum PublishAckReason {
    Success,
    NoMatchingSubscribers,
    UnspecifiedError,
    ImplementationSpecificError,
    NotAuthorized,
    TopicNameInvalid,
    PacketIdentifierInUse,
    QuotaExceeded,
    PayloadFormatInvalid,
}

/// PUBACK packet.
#[derive(Debug)]
pub struct PublishAck {
    /// The packet that is acknowledged.
    pub packet_id: NonZeroU16,
    /// What became of it.
    pub reason_code: PublishAckReason,
    /// Properties of the application.
    pub properties: UserProperties,
    /// Explanation for people to read.
    pub reason_string: Option<String>,
}

/// What the server does with retained messages for a new subscription.
#[derive(Debug, Clone, Copy, PartialEq, Eq, Structural)]
pub enum RetainHandling {
    AtSubscribe,
    AtSubscribeNew,
    NoAtSubscribe,
}

/// Options of one subscription.
#[derive(Debug, Clone, Copy, PartialEq, Eq, Structural)]
pub struct SubscriptionOptions {
    /// Highest quality of service of what is delivered.
    pub qos: QoS,
    /// Leave out what this client publishes itself.
    pub no_local: bool,
    /// Keep the retain flag of what is delivered.
    pub retain_as_published: bool,
    /// What happens to retained messages.
    pub retain_handling: RetainHandling,
}

/// SUBSCRIBE packet.
#[derive(Debug)]
pub struct Subscribe {
    /// Packet identifier.
    pub packet_id: NonZeroU16,
    /// Subscription identifier.
    pub id: Option<NonZeroU32>,
    /// Properties of the application.
    pub user_properties: UserProperties,
    /// The topics, each with its options.
    pub topic_filters: Vec<(String, SubscriptionOptions)>,
}

impl Subscribe {
    /// `self` is `other` up to the packet identifier, which is `id`.
    pub open spec fn is_numbered(self, other: Subscribe, id: nat) -> bool {
        &&& self.packet_id@ == id
        &&& self.id == other.id
        &&& self.user_properties == other.user_properties
        &&& self.topic_filters == other.topic_filters
    }
}

/// SUBACK reason code.
#[derive(Debug, Clone, Copy, PartialEq, Eq, Structural)]
pub enum SubscribeAckReason {
    GrantedQos0,
    GrantedQos1,
    GrantedQos2,
    UnspecifiedError,
    ImplementationSpecificError,
    NotAuthorized,
    TopicFilterInvalid,
    PacketIdentifierInUse,
    QuotaExceeded,
    SharedSubsriptionNotSupported,
    SubscriptionIdentifiersNotSupported,
    WildcardSubscriptionsNotSupported,
}

/// SUBACK packet.
#[derive(Debug)]
pub struct SubscribeAck {
    /// The packet that is acknowledged.
    pub packet_id: NonZeroU16,
    /// Properties of the application.
    pub properties: UserProperties,
    /// Explanation for people to read.
    pub reason_string: Option<String>,
    /// What became of each topic filter.
    pub status: Vec<SubscribeAckReason>,
}

/// UNSUBSCRIBE packet.
#[derive(Debug)]
pub struct Unsubscribe {
    /// Packet identifier.
    pub packet_id: NonZeroU16,
    /// Properties of the application.
    pub user_properties: UserProperties,
    /// The topics.
    pub topic_filters: Vec<String>,
}

impl Unsubscribe {
    /// `self` is `other` up to the packet identifier, which is `id`.
    pub open spec fn is_numbered(self, other: Unsubscribe, id: nat) -> bool {
        &&& self.packet_id@ == id
        &&& self.user_properties == other.user_properties
        &&& self.topic_filters == other.topic_filters
    }
}

/// UNSUBACK reason code.
#[derive(Debug, Clone, Copy, PartialEq, Eq, Structural)]
pub enum UnsubscribeAckReason {
    Success,
    NoSubscriptionExisted,
    UnspecifiedError,
    ImplementationSpecificError,
    NotAuthorized,
    TopicFilterInvalid,
    PacketIdentifierInUse,
}

/// UNSUBACK packet.
#[derive(Debug)]
pub struct UnsubscribeAck {
    /// The packet that is acknowledged.
    pub packet_id: NonZeroU16,
    /// Properties of the application.
    pub properties: UserProperties,
    /// Explanation for people to read.
    pub reason_string: Option<String>,
    /// What became of each topic filter.
    pub status: Vec<UnsubscribeAckReason>,
}

/// CONNACK reason code.
#[derive(Debug, Clone, Copy, PartialEq, Eq, Structural)]
pub enum ConnectAckReason {
    Success,
    UnspecifiedError,
    MalformedPacket,
    ProtocolError,
    ImplementationSpecificError,
    UnsupportedProtocolVersion,
    ClientIdentifierNotValid,
    BadUserNameOrPassword,
    NotAuthorized,
    ServerUnavailable,
    ServerBusy,
    Banned,
    BadAuthenticationMethod,
    TopicNameInvalid,
    PacketTooLarge,
    QuotaExceeded,
    PayloadFormatInvalid,
    RetainNotSupported,
    QosNotSupported,
    UseAnotherServer,
    ServerMoved,
    ConnectionRateExceeded,
}

/// CONNACK packet.
#[derive(Debug)]
pub struct ConnectAck {
    /// The server still holds the session.
    pub session_present: bool,
    /// Whether the connection was accepted, and if not, why.
    pub reason_code: ConnectAckReason,
    /// Number of messages that the server handles at a time.
    pub receive_max: Option<NonZeroU16>,
    /// Explanation for people to read.
    pub reason_string: Option<String>,
    /// Properties of the application.
    pub user_properties: UserProperties,
}

/// DISCONNECT reason code.
#[derive(Debug, Clone, Copy, PartialEq, Eq, Structural)]
pub enum DisconnectReasonCode {
    NormalDisconnection,
    DisconnectWithWillMessage,
    UnspecifiedError,
    MalformedPacket,
    ProtocolError,
    ImplementationSpecificError,
    NotAuthorized,
    ServerBusy,
    ServerShuttingDown,
    BadAuthenticationMethod,
    KeepAliveTimeout,
    SessionTakenOver,
    TopicFilterInvalid,
    TopicNameInvalid,
    ReceiveMaximumExceeded,
    TopicAliasInvalid,
    PacketTooLarge,
    MessageRateTooHigh,
    QuotaExceeded,
    AdministrativeAction,
    PayloadFormatInvalid,
    RetainNotSupported,
    QosNotSupported,
    UseAnotherServer,
    ServerMoved,
    SharedSubsriptionNotSupported,
    ConnectionRateExceeded,
    MaximumConnectTime,
    SubscriptionIdentifiersNotSupported,
    WildcardSubscriptionsNotSupported,
}

/// DISCONNECT packet.
#[derive(Debug)]
pub struct Disconnect {
    /// Why the connection ends.
    pub reason_code: DisconnectReasonCode,
    /// How long the session outlives the connection.
    pub session_expiry_interval_secs: Option<u32>,
    /// Another server to use.
    pub server_reference: Option<String>,
    /// Explanation for people to read.
    pub reason_string: Option<String>,
    /// Properties of the application.
    pub user_properties: UserProperties,
}

impl Disconnect {
    /// A normal end of the connection with no property set.
    pub open spec fn is_normal(self) -> bool {
        &&& self.reason_code == DisconnectReasonCode::NormalDisconnection
        &&& self.session_expiry_interval_secs is None
        &&& self.server_reference is None
        &&& self.reason_string is None
        &&& self.user_properties@ == Seq::<(String, String)>::empty()
    }
}

impl Default for Disconnect {
    fn default() -> (r: Disconnect)
        ensures
            r.is_normal(),
    {
        Disconnect {
            reason_code: DisconnectReasonCode::NormalDisconnection,
            session_expiry_interval_secs: None,
            server_reference: None,
            reason_string: None,
            user_properties: Vec::new(),
        }
    }
}

} // verus!
