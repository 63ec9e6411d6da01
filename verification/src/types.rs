//! The records exchanged with a BlueBubbles server.

use vstd::prelude::*;
use crate::text::{chars_of, concat, owned, spec_trim, trim};

verus! {

/// A JSON value as the server sends it; the library carries such values
/// through without looking inside them.
#[verifier::external_type_specification]
#[verifier::external_body]
pub struct ExJsonValue(serde_json::Value);

/// Envelope of every server reply.
#[derive(Debug)]
pub struct ApiResponse<T> {
    pub status: u16,
    pub message: String,
    pub data: Option<T>,
}

/// A phone number or e-mail address taking part in a chat.
#[derive(Debug, Clone)]
pub struct Handle {
    pub address: String,
    pub country: Option<String>,
    pub uncanonicalized_id: Option<String>,
}

/// A conversation.
#[derive(Debug, Clone)]
pub struct Chat {
    pub guid: String,
    pub participants: Option<Vec<Handle>>,
    pub chat_identifier: String,
    pub is_archived: bool,
    pub is_filtered: bool,
    pub display_name: Option<String>,
    pub last_message: Option<Box<Message>>,
}

/// One message of a conversation.
#[derive(Debug, Clone)]
pub struct Message {
    pub guid: String,
    pub text: Option<String>,
    pub handle: Option<Handle>,
    pub handle_id: Option<u64>,
    pub attachments: Option<Vec<Attachment>>,
    pub subject: Option<String>,
    pub error: u64,
    pub date_created: u64,
    pub date_read: Option<u64>,
    pub date_delivered: Option<u64>,
    pub is_from_me: bool,
    pub is_delayed: bool,
    pub is_auto_reply: bool,
    pub is_system_message: bool,
    pub is_service_message: bool,
    pub is_forward: bool,
    pub is_archived: bool,
    pub is_audio_message: bool,
    pub item_type: u64,
    pub group_title: Option<String>,
    pub group_action_type: u64,
    pub associated_message_guid: Option<String>,
    pub associated_message_type: Option<String>,
}

/// A file attached to a message.
#[derive(Debug, Clone)]
pub struct Attachment {
    pub guid: String,
    pub transfer_name: Option<String>,
    pub mime_type: Option<String>,
    pub total_bytes: u64,
    pub is_outgoing: bool,
    pub is_sticker: bool,
    pub uti: Option<String>,
    pub transfer_state: u64,
}

/// Reply of the chat count endpoint.
#[derive(Debug)]
pub struct ChatCountData {
    pub total: u64,
    pub breakdown: serde_json::Value,
}

/// Reply of the message count endpoints.
#[derive(Debug)]
pub struct MessageCountData {
    pub total: u64,
}

/// An address stored with a contact.
#[derive(Debug, Clone, Default)]
pub struct ContactAddress {
    pub address: String,
}

/// An entry of the address book.
#[derive(Debug, Clone, Default)]
pub struct ContactData {
    pub first_name: Option<String>,
    pub last_name: Option<String>,
    pub display_name: Option<String>,
    pub nickname: Option<String>,
    pub phone_numbers: Vec<ContactAddress>,
    pub emails: Vec<ContactAddress>,
}

/// The characters of an optional string, empty when absent.
pub open spec fn opt_chars(o: Option<String>) -> Seq<char> {
    match o {
        Some(s) => s@,
        None => Seq::empty(),
    }
}

/// The name under which a contact is shown: its display name when that is
/// non-empty, else its first and last names joined by a space (trimmed) when
/// that is non-empty, else its nickname when non-empty; otherwise none.
pub open spec fn spec_best_name(c: ContactData) -> Option<Seq<char>> {
    let full = spec_trim(opt_chars(c.first_name) + " "@ + opt_chars(c.last_name));
    if c.display_name is Some && c.display_name->0@.len() > 0 {
        Some(c.display_name->0@)
    } else if full.len() > 0 {
        Some(full)
    } else if c.nickname is Some && c.nickname->0@.len() > 0 {
        Some(c.nickname->0@)
    } else {
        None
    }
}

/// View of an optional string as an optional character sequence.
pub open spec fn opt_view(o: Option<String>) -> Option<Seq<char>> {
    match o {
        Some(s) => Some(s@),
        None => None,
    }
}

fn opt_str(o: &Option<String>) -> (r: String)
    ensures
        r@ == opt_chars(*o),
{
    match o {
        Some(s) => s.clone(),
        None => String::new(),
    }
}

impl ContactData {
    /// The name to show for this contact, if it has one.
    pub fn best_name(&self) -> (r: Option<String>)
        ensures
            opt_view(r) == spec_best_name(*self),
    {
        if let Some(n) = &self.display_name {
            if !n.as_str().is_empty() {
                return Some(n.clone());
            }
        }
        let first = opt_str(&self.first_name);
        let last = opt_str(&self.last_name);
        let with_space = concat(first.as_str(), " ");
        let joined = concat(with_space.as_str(), last.as_str());
        let full = trim(joined.as_str());
        if !full.as_str().is_empty() {
            return Some(full);
        }
        if let Some(n) = &self.nickname {
            if !n.as_str().is_empty() {
                return Some(n.clone());
            }
        }
        None
    }
}

/// A message scheduled on the server.
#[derive(Debug)]
pub struct ScheduledMessageData {
    pub id: u64,
    pub action_type: String,
    pub payload: serde_json::Value,
    pub scheduled_for: u64,
    pub schedule: serde_json::Value,
    pub status: String,
    pub error: Option<String>,
}

/// Reply of the server metadata endpoint.
#[derive(Debug)]
pub struct ServerInfo {
    pub os_version: String,
    pub server_version: String,
    pub private_api: bool,
    pub proxy_service: String,
    pub helper_connected: bool,
}

/// Counts of the server's iMessage entities.
#[derive(Debug)]
pub struct EntityTotals {
    pub handles: u64,
    pub messages: u64,
    pub chats: u64,
    pub attachments: u64,
}

/// Counts of the server's media.
#[derive(Debug)]
pub struct MediaTotals {
    pub images: u64,
    pub videos: u64,
    pub locations: u64,
}

/// A warning or notice raised by the server.
#[derive(Debug)]
pub struct ServerAlert {
    pub alert_type: String,
    pub value: String,
    pub is_read: bool,
    pub created: String,
    pub updated: String,
}

/// Body of a chat query.
#[derive(Debug, Default)]
pub struct ChatQuery {
    pub limit: Option<u64>,
    pub offset: Option<u64>,
    pub with_related: Option<Vec<String>>,
    pub sort: Option<String>,
}

/// Body of a request that starts a chat.
#[derive(Debug)]
pub struct NewChat {
    pub addresses: Vec<String>,
    pub message: Option<String>,
}

/// Body of a request that renames a chat.
#[derive(Debug)]
pub struct UpdateChat {
    pub display_name: String,
}

/// Body of a message query.
#[derive(Debug, Default)]
pub struct MessageQuery {
    pub limit: Option<u64>,
    pub offset: Option<u64>,
    pub chat_guid: Option<String>,
    pub with_related: Option<Vec<String>>,
    pub where_clauses: Option<Vec<serde_json::Value>>,
    pub sort: Option<String>,
    pub after: Option<u64>,
    pub before: Option<u64>,
}

/// Body of a request that sends a text message.
#[derive(Debug, Default)]
pub struct SendText {
    pub chat_guid: String,
    pub message: String,
    pub method: String,
    pub temp_guid: Option<String>,
    pub subject: Option<String>,
    pub effect_id: Option<String>,
    pub selected_message_guid: Option<String>,
}

/// Body of a request that reacts to a message.
#[derive(Debug, Default)]
pub struct SendReaction {
    pub chat_guid: String,
    pub selected_message_guid: String,
    pub reaction: String,
    pub part_index: Option<u64>,
}

/// Body of a request that schedules a message.
#[derive(Debug)]
pub struct ScheduledMessageRequest {
    pub action_type: String,
    pub payload: serde_json::Value,
    pub scheduled_for: u64,
    pub schedule: serde_json::Value,
}

} // verus!
