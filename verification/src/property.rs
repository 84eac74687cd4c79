//! The identifiers of the properties that a packet can carry. Each property of a
//! property block starts with one identifier byte, which fixes the type of the
//! value that follows.

use crate::error::Error;
use vstd::prelude::*;

verus! {

/// A property that the protocol defines.
#[derive(Debug, Clone, Copy, PartialEq, Eq)]
pub enum PropertyType {
    PayloadFormatIndicator,
    MessageExpiryInterval,
    ContentType,
    ResponseTopic,
    CorrelationData,
    SubscriptionIdentifier,
    SessionExpiryInterval,
    AssignedClientIdentifier,
    ServerKeepAlive,
    AuthenticationMethod,
    AuthenticationData,
    RequestProblemInformation,
    WillDelayInterval,
    RequestResponseInformation,
    ResponseInformation,
    ServerReference,
    ReasonString,
    ReceiveMaximum,
    TopicAliasMaximum,
    TopicAlias,
    MaximumQos,
    RetainAvailable,
    UserProperty,
    MaximumPacketSize,
    WildcardSubscriptionAvailable,
    SubscriptionIdentifierAvailable,
    SharedSubscriptionAvailable,
}

impl PropertyType {
    /// The identifier byte of the property.
    pub open spec fn spec_id(self) -> u8 {
        match self {
            PropertyType::PayloadFormatIndicator => 1,
            PropertyType::MessageExpiryInterval => 2,
            PropertyType::ContentType => 3,
            PropertyType::ResponseTopic => 8,
            PropertyType::CorrelationData => 9,
            PropertyType::SubscriptionIdentifier => 11,
            PropertyType::SessionExpiryInterval => 17,
            PropertyType::AssignedClientIdentifier => 18,
            PropertyType::ServerKeepAlive => 19,
            PropertyType::AuthenticationMethod => 21,
            PropertyType::AuthenticationData => 22,
            PropertyType::RequestProblemInformation => 23,
            PropertyType::WillDelayInterval => 24,
            PropertyType::RequestResponseInformation => 25,
            PropertyType::ResponseInformation => 26,
            PropertyType::ServerReference => 28,
            PropertyType::ReasonString => 31,
            PropertyType::ReceiveMaximum => 33,
            PropertyType::TopicAliasMaximum => 34,
            PropertyType::TopicAlias => 35,
            PropertyType::MaximumQos => 36,
            PropertyType::RetainAvailable => 37,
            PropertyType::UserProperty => 38,
            PropertyType::MaximumPacketSize => 39,
            PropertyType::WildcardSubscriptionAvailable => 40,
            PropertyType::SubscriptionIdentifierAvailable => 41,
            PropertyType::SharedSubscriptionAvailable => 42,
        }
    }

    /// The identifier byte of the property.
    pub fn id(self) -> (num: u8)
        ensures
            num == self.spec_id(),
    {
        match self {
            PropertyType::PayloadFormatIndicator => 1,
            PropertyType::MessageExpiryInterval => 2,
            PropertyType::ContentType => 3,
            PropertyType::ResponseTopic => 8,
            PropertyType::CorrelationData => 9,
            PropertyType::SubscriptionIdentifier => 11,
            PropertyType::SessionExpiryInterval => 17,
            PropertyType::AssignedClientIdentifier => 18,
            PropertyType::ServerKeepAlive => 19,
            PropertyType::AuthenticationMethod => 21,
            PropertyType::AuthenticationData => 22,
            PropertyType::RequestProblemInformation => 23,
            PropertyType::WillDelayInterval => 24,
            PropertyType::RequestResponseInformation => 25,
            PropertyType::ResponseInformation => 26,
            PropertyType::ServerReference => 28,
            PropertyType::ReasonString => 31,
            PropertyType::ReceiveMaximum => 33,
            PropertyType::TopicAliasMaximum => 34,
            PropertyType::TopicAlias => 35,
            PropertyType::MaximumQos => 36,
            PropertyType::RetainAvailable => 37,
            PropertyType::UserProperty => 38,
            PropertyType::MaximumPacketSize => 39,
            PropertyType::WildcardSubscriptionAvailable => 40,
            PropertyType::SubscriptionIdentifierAvailable => 41,
            PropertyType::SharedSubscriptionAvailable => 42,
        }
    }
}

/// The property that an identifier byte stands for, if there is one.
pub open spec fn spec_property(num: u8) -> Option<PropertyType> {
    match num {
        1 => Some(PropertyType::PayloadFormatIndicator),
        2 => Some(PropertyType::MessageExpiryInterval),
        3 => Some(PropertyType::ContentType),
        8 => Some(PropertyType::ResponseTopic),
        9 => Some(PropertyType::CorrelationData),
        11 => Some(PropertyType::SubscriptionIdentifier),
        17 => Some(PropertyType::SessionExpiryInterval),
        18 => Some(PropertyType::AssignedClientIdentifier),
        19 => Some(PropertyType::ServerKeepAlive),
        21 => Some(PropertyType::AuthenticationMethod),
        22 => Some(PropertyType::AuthenticationData),
        23 => Some(PropertyType::RequestProblemInformation),
        24 => Some(PropertyType::WillDelayInterval),
        25 => Some(PropertyType::RequestResponseInformation),
        26 => Some(PropertyType::ResponseInformation),
        28 => Some(PropertyType::ServerReference),
        31 => Some(PropertyType::ReasonString),
        33 => Some(PropertyType::ReceiveMaximum),
        34 => Some(PropertyType::TopicAliasMaximum),
        35 => Some(PropertyType::TopicAlias),
        36 => Some(PropertyType::MaximumQos),
        37 => Some(PropertyType::RetainAvailable),
        38 => Some(PropertyType::UserProperty),
        39 => Some(PropertyType::MaximumPacketSize),
        40 => Some(PropertyType::WildcardSubscriptionAvailable),
        41 => Some(PropertyType::SubscriptionIdentifierAvailable),
        42 => Some(PropertyType::SharedSubscriptionAvailable),
        _ => None,
    }
}

/// Every property is the one that its own identifier stands for, and no other
/// identifier stands for it.
pub proof fn lemma_property_id_round_trip(property: PropertyType, num: u8)
    ensures
        spec_property(property.spec_id()) == Some(property),
        spec_property(num) == Some(property) ==> num == property.spec_id(),
{
}

/// Looks an identifier byte up. A byte that stands for no property is refused.
pub fn property(num: u8) -> (r: Result<PropertyType, Error>)
    ensures
        match r {
            Ok(p) => spec_property(num) == Some(p),
            Err(e) => spec_property(num) is None && e == Error::InvalidPropertyType(num),
        },
{
    let property = match num {
        1 => PropertyType::PayloadFormatIndicator,
        2 => PropertyType::MessageExpiryInterval,
        3 => PropertyType::ContentType,
        8 => PropertyType::ResponseTopic,
        9 => PropertyType::CorrelationData,
        11 => PropertyType::SubscriptionIdentifier,
        17 => PropertyType::SessionExpiryInterval,
        18 => PropertyType::AssignedClientIdentifier,
        19 => PropertyType::ServerKeepAlive,
        21 => PropertyType::AuthenticationMethod,
        22 => PropertyType::AuthenticationData,
        23 => PropertyType::RequestProblemInformation,
        24 => PropertyType::WillDelayInterval,
        25 => PropertyType::RequestResponseInformation,
        26 => PropertyType::ResponseInformation,
        28 => PropertyType::ServerReference,
        31 => PropertyType::ReasonString,
        33 => PropertyType::ReceiveMaximum,
        34 => PropertyType::TopicAliasMaximum,
        35 => PropertyType::TopicAlias,
        36 => PropertyType::MaximumQos,
        37 => PropertyType::RetainAvailable,
        38 => PropertyType::UserProperty,
        39 => PropertyType::MaximumPacketSize,
        40 => PropertyType::WildcardSubscriptionAvailable,
        41 => PropertyType::SubscriptionIdentifierAvailable,
        42 => PropertyType::SharedSubscriptionAvailable,
        num => { return Err(Error::InvalidPropertyType(num)); },
    };
    Ok(property)
}

} // verus!
