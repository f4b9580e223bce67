//! The data model of the protocol: event records, attribute identifiers,
//! outbound requests, parsed responses, and the error taxonomy.

use vstd::prelude::*;

verus! {

/// The kind of a notification-source event record.
#[derive(Clone, Copy, Debug, PartialEq, Eq, Structural)]
pub enum EventId {
    Added,
    Modified,
    Removed,
}

impl EventId {
    /// The wire byte of this event kind.
    pub open spec fn spec_byte(self) -> u8 {
        match self {
            EventId::Added => 0u8,
            EventId::Modified => 1u8,
            EventId::Removed => 2u8,
        }
    }

    /// The wire byte of this event kind.
    pub fn byte(self) -> (r: u8)
        ensures
            r == self.spec_byte(),
    {
        match self {
            EventId::Added => 0u8,
            EventId::Modified => 1u8,
            EventId::Removed => 2u8,
        }
    }
}

/// A single flag bit of a notification-source event record.
#[derive(Clone, Copy, Debug, PartialEq, Eq, Structural)]
pub enum EventFlag {
    Silent,
    Important,
    PreExisting,
    PositiveAction,
    NegativeAction,
}

impl EventFlag {
    /// The bit this flag occupies in the flags byte.
    pub open spec fn spec_byte(self) -> u8 {
        match self {
            EventFlag::Silent => 0x01u8,
            EventFlag::Important => 0x02u8,
            EventFlag::PreExisting => 0x04u8,
            EventFlag::PositiveAction => 0x08u8,
            EventFlag::NegativeAction => 0x10u8,
        }
    }

    /// The bit this flag occupies in the flags byte.
    pub fn byte(self) -> (r: u8)
        ensures
            r == self.spec_byte(),
    {
        match self {
            EventFlag::Silent => 0x01u8,
            EventFlag::Important => 0x02u8,
            EventFlag::PreExisting => 0x04u8,
            EventFlag::PositiveAction => 0x08u8,
            EventFlag::NegativeAction => 0x10u8,
        }
    }
}

/// A decoded notification-source event record. The `event_id` and `flags`
/// fields hold the raw wire bytes; the recognized values are those of
/// `EventId` and the bits of `EventFlag`, and unrecognized values pass
/// through unchanged.
#[derive(Clone, Copy, Debug, PartialEq, Eq, Structural)]
pub struct NotificationEvent {
    pub event_id: u8,
    pub flags: u8,
    pub category_id: u8,
    pub category_count: u8,
    pub notification_uid: u32,
}

/// An attribute of a notification that can be requested by id.
#[derive(Clone, Copy, Debug, PartialEq, Eq, Structural)]
pub enum NotificationAttributeId {
    AppIdentifier,
    Title,
    Subtitle,
    Message,
    MessageSize,
    Date,
    PositiveActionLabel,
    NegativeActionLabel,
}

impl NotificationAttributeId {
    /// The wire byte of this attribute id.
    pub open spec fn spec_byte(self) -> u8 {
        match self {
            NotificationAttributeId::AppIdentifier => 0u8,
            NotificationAttributeId::Title => 1u8,
            NotificationAttributeId::Subtitle => 2u8,
            NotificationAttributeId::Message => 3u8,
            NotificationAttributeId::MessageSize => 4u8,
            NotificationAttributeId::Date => 5u8,
            NotificationAttributeId::PositiveActionLabel => 6u8,
            NotificationAttributeId::NegativeActionLabel => 7u8,
        }
    }

    /// The wire byte of this attribute id.
    pub fn byte(self) -> (r: u8)
        ensures
            r == self.spec_byte(),
    {
        match self {
            NotificationAttributeId::AppIdentifier => 0u8,
            NotificationAttributeId::Title => 1u8,
            NotificationAttributeId::Subtitle => 2u8,
            NotificationAttributeId::Message => 3u8,
            NotificationAttributeId::MessageSize => 4u8,
            NotificationAttributeId::Date => 5u8,
            NotificationAttributeId::PositiveActionLabel => 6u8,
            NotificationAttributeId::NegativeActionLabel => 7u8,
        }
    }

    /// The attribute id a wire byte stands for, if any.
    pub open spec fn spec_from_byte(b: u8) -> Option<NotificationAttributeId> {
        if b == 0 {
            Some(NotificationAttributeId::AppIdentifier)
        } else if b == 1 {
            Some(NotificationAttributeId::Title)
        } else if b == 2 {
            Some(NotificationAttributeId::Subtitle)
        } else if b == 3 {
            Some(NotificationAttributeId::Message)
        } else if b == 4 {
            Some(NotificationAttributeId::MessageSize)
        } else if b == 5 {
            Some(NotificationAttributeId::Date)
        } else if b == 6 {
            Some(NotificationAttributeId::PositiveActionLabel)
        } else if b == 7 {
            Some(NotificationAttributeId::NegativeActionLabel)
        } else {
            None
        }
    }

    /// The attribute id a wire byte stands for, if any.
    pub fn from_byte(b: u8) -> (r: Option<NotificationAttributeId>)
        ensures
            r == Self::spec_from_byte(b),
    {
        if b == 0 {
            Some(NotificationAttributeId::AppIdentifier)
        } else if b == 1 {
            Some(NotificationAttributeId::Title)
        } else if b == 2 {
            Some(NotificationAttributeId::Subtitle)
        } else if b == 3 {
            Some(NotificationAttributeId::Message)
        } else if b == 4 {
            Some(NotificationAttributeId::MessageSize)
        } else if b == 5 {
            Some(NotificationAttributeId::Date)
        } else if b == 6 {
            Some(NotificationAttributeId::PositiveActionLabel)
        } else if b == 7 {
            Some(NotificationAttributeId::NegativeActionLabel)
        } else {
            None
        }
    }

    /// Whether a request for this attribute carries a 2-byte maximum length
    /// on the wire. The protocol sizes exactly the free-text attributes.
    pub open spec fn spec_sized(self) -> bool {
        match self {
            NotificationAttributeId::Title => true,
            NotificationAttributeId::Subtitle => true,
            NotificationAttributeId::Message => true,
            _ => false,
        }
    }

    /// Whether a request for this attribute carries a 2-byte maximum length.
    pub fn sized(self) -> (r: bool)
        ensures
            r == self.spec_sized(),
    {
        match self {
            NotificationAttributeId::Title => true,
            NotificationAttributeId::Subtitle => true,
            NotificationAttributeId::Message => true,
            _ => false,
        }
    }
}

/// An attribute of an app that can be requested by id.
#[derive(Clone, Copy, Debug, PartialEq, Eq, Structural)]
pub enum AppAttributeId {
    DisplayName,
}

impl AppAttributeId {
    /// The wire byte of this attribute id.
    pub open spec fn spec_byte(self) -> u8 {
        match self {
            AppAttributeId::DisplayName => 0u8,
        }
    }

    /// The wire byte of this attribute id.
    pub fn byte(self) -> (r: u8)
        ensures
            r == self.spec_byte(),
    {
        match self {
            AppAttributeId::DisplayName => 0u8,
        }
    }
}

/// An outbound control-point request: either the attributes of one
/// notification, by UID, or the attributes of one app, by identifier.
#[allow(inconsistent_fields)]
pub enum AttributeRequest {
    Notification {
        notification_uid: u32,
        attribute_ids: Vec<(NotificationAttributeId, Option<u16>)>,
    },
    App { app_identifier: String, attribute_ids: Vec<AppAttributeId> },
}

/// Failure of the fixed-layout codec on one inbound or outbound record.
#[derive(Clone, Copy, Debug, PartialEq, Eq, Structural)]
pub enum DecodeError {
    /// Fewer bytes remained than a fixed-width field requires.
    TruncatedInput,
    /// A tag or id byte stands for nothing in the protocol.
    InvalidValue,
}

/// Failure of the attribute-response parser on one inbound message.
#[derive(Clone, Copy, Debug, PartialEq, Eq, Structural)]
pub enum ParseError {
    /// Fewer bytes remained than a field or a declared value length requires.
    TruncatedInput,
}

/// What the first byte of a data-source message says the message is.
#[derive(Clone, Copy, Debug, PartialEq, Eq, Structural)]
pub enum ResponseKind {
    NotificationAttributes,
    AppAttributes,
    Ignored,
}

/// One parsed attribute of a notification-attribute response.
#[derive(Clone, Debug, PartialEq, Eq)]
pub struct NotificationAttribute {
    pub id: NotificationAttributeId,
    pub value: Option<String>,
}

/// A parsed notification-attribute response.
#[derive(Clone, Debug, PartialEq, Eq)]
pub struct NotificationAttributeList {
    pub notification_uid: u32,
    pub attributes: Vec<NotificationAttribute>,
}

/// One parsed attribute of an app-attribute response. The `id` field holds
/// the raw wire byte, so that a response for an attribute the protocol does
/// not define still parses and can be dropped by the engine.
#[derive(Clone, Debug, PartialEq, Eq)]
pub struct AppAttribute {
    pub id: u8,
    pub value: Option<String>,
}

/// The view of an optional owned string: the character sequence, if present.
pub open spec fn opt_str_view(o: Option<String>) -> Option<Seq<char>> {
    match o {
        Some(s) => Some(s@),
        None => None,
    }
}

} // verus!
