//! The pipeline from Guilded to Discord: reading a chat message from a
//! gateway frame, taking the plain text out of its document, deciding what
//! becomes of it, and naming the webhook that stands for its author in the
//! linked Discord channel.

use vstd::prelude::*;
use vstd::string::*;
use vstd::utf8::*;
use crate::config::{links_gd, Config};
use crate::frame::Frame;
use crate::gateway::{DISCORD_API, GUILDED_API};
use crate::identity::Data;
use crate::json::{json_document, parse_json, Json};
use crate::relay::{plan, relay_of, Inbound, InboundView, Relay, RelayView};
use crate::text::{concat2, concat3, opt_text, owned, str_eq};

verus! {

/// The text that the first `count` of `nodes` add to `out`, one after the
/// other.
pub open spec fn nodes_text(nodes: Seq<Json>, count: nat, out: Seq<char>) -> Seq<char>
    decreases nodes, count,
{
    if count == 0 || count > nodes.len() {
        out
    } else {
        node_text(nodes[count - 1], nodes_text(nodes, (count - 1) as nat, out))
    }
}

/// The text that a node of a rich-text document adds to `out`. A document
/// and an inline node add what their `nodes` add. A block does so on a line
/// of its own: a line break comes first unless nothing stands before it. A
/// text node adds what its `leaves` add, and a leaf adds its `text`. Any
/// other value adds nothing.
pub open spec fn node_text(node: Json, out: Seq<char>) -> Seq<char>
    decreases node, 0nat,
{
    match node.text_field("object"@) {
        Some(kind) => {
            if kind == "document"@ || kind == "inline"@ {
                match node.field("nodes"@) {
                    Some(Json::Array(nodes)) => nodes_text(nodes@, nodes@.len(), out),
                    _ => out,
                }
            } else if kind == "block"@ {
                let start = if out.len() > 0 {
                    out + "\n"@
                } else {
                    out
                };
                match node.field("nodes"@) {
                    Some(Json::Array(nodes)) => nodes_text(nodes@, nodes@.len(), start),
                    _ => start,
                }
            } else if kind == "text"@ {
                match node.field("leaves"@) {
                    Some(Json::Array(leaves)) => nodes_text(leaves@, leaves@.len(), out),
                    _ => out,
                }
            } else if kind == "leaf"@ {
                match node.text_field("text"@) {
                    Some(text) => out + text,
                    None => out,
                }
            } else {
                out
            }
        },
        None => out,
    }
}

/// Appends to `out` the text of each of `nodes`, in their order.
pub fn extract_text_from_nodes(nodes: &Vec<Json>, out: &mut String)
    ensures
        final(out)@ == nodes_text(nodes@, nodes@.len(), old(out)@),
    decreases nodes, 0nat,
{
    let mut i: usize = 0;
    while i < nodes.len()
        invariant
            i <= nodes@.len(),
            out@ == nodes_text(nodes@, i as nat, old(out)@),
        decreases nodes@.len() - i,
    {
        extract_text_from_node(&nodes[i], out);
        i += 1;
    }
}

/// Appends the plain text of a rich-text node to `out`.
pub fn extract_text_from_node(node: &Json, out: &mut String)
    ensures
        final(out)@ == node_text(*node, old(out)@),
    decreases node, 1nat,
{
    let kind = match node.get_str("object") {
        Some(kind) => kind,
        None => {
            return ;
        },
    };
    if str_eq(kind, "document") || str_eq(kind, "inline") {
        match node.get("nodes") {
            Some(Json::Array(nodes)) => extract_text_from_nodes(nodes, out),
            _ => {},
        }
    } else if str_eq(kind, "block") {
        if !out.as_str().is_empty() {
            out.append("\n");
        }
        match node.get("nodes") {
            Some(Json::Array(nodes)) => extract_text_from_nodes(nodes, out),
            _ => {},
        }
    } else if str_eq(kind, "text") {
        match node.get("leaves") {
            Some(Json::Array(leaves)) => extract_text_from_nodes(leaves, out),
            _ => {},
        }
    } else if str_eq(kind, "leaf") {
        match node.get_str("text") {
            Some(text) => out.append(text),
            None => {},
        }
    }
}

/// Position `k` holds the first `[` of `bytes`.
pub open spec fn is_first_bracket(bytes: Seq<u8>, k: int) -> bool {
    &&& 0 <= k < bytes.len()
    &&& bytes[k] == 0x5bu8
    &&& forall|i: int| 0 <= i < k ==> bytes[i] != 0x5bu8
}

/// The part of a frame that holds its JSON: the text from the first `[` on.
/// The bracket is sought in the UTF-8 encoding of the frame, where its byte
/// stands for nothing else. A frame without one has no such part.
pub open spec fn payload_text(text: Seq<char>) -> Option<Seq<char>> {
    let bytes = encode_utf8(text);
    if exists|k: int| is_first_bracket(bytes, k) {
        let k = choose|k: int| is_first_bracket(bytes, k);
        Some(decode_utf8(bytes.subrange(k, bytes.len() as int)))
    } else {
        None
    }
}

/// Cuts the prefix before the first `[` off a frame.
pub fn bracket_payload(text: &str) -> (r: Option<&str>)
    ensures
        match r {
            Some(payload) => payload_text(text@) == Some(payload@),
            None => payload_text(text@).is_none(),
        },
{
    let bytes = text.as_bytes();
    let mut i: usize = 0;
    while i < bytes.len()
        invariant
            i <= bytes@.len(),
            bytes@ == encode_utf8(text@),
            forall|j: int| 0 <= j < i ==> bytes@[j] != 0x5bu8,
        decreases bytes@.len() - i,
    {
        if bytes[i] == 0x5bu8 {
            proof {
                assert(is_first_bracket(bytes@, i as int));
                encode_utf8_valid_utf8(text@);
                is_char_boundary_iff_not_is_continuation_byte(bytes@, i as int);
            }
            let (_, payload) = text.split_at(i);
            proof {
                encode_utf8_decode_utf8(payload@);
            }
            return Some(payload);
        }
        i += 1;
    }
    None
}

/// A chat message as the gateway announces it. Of its document the plain
/// text is kept.
#[derive(Debug, PartialEq, Eq)]
pub struct ChatMessageCreated {
    pub channel_id: String,
    pub content_type: String,
    pub msg_type: String,
    pub content: String,
    pub webhook_id: Option<String>,
    pub author: String,
}

/// The mathematical value of a [`ChatMessageCreated`].
pub struct ChatMessageView {
    pub channel_id: Seq<char>,
    pub content_type: Seq<char>,
    pub msg_type: Seq<char>,
    pub content: Seq<char>,
    pub webhook_id: Option<Seq<char>>,
    pub author: Seq<char>,
}

impl View for ChatMessageCreated {
    type V = ChatMessageView;

    open spec fn view(&self) -> ChatMessageView {
        ChatMessageView {
            channel_id: self.channel_id@,
            content_type: self.content_type@,
            msg_type: self.msg_type@,
            content: self.content@,
            webhook_id: opt_text(self.webhook_id),
            author: self.author@,
        }
    }
}

/// The chat message that a JSON object describes. `channelId`,
/// `contentType` and `createdBy` are strings. `message` holds a string
/// `type`, a `content` with a `document`, and a `webhookId` that is a
/// string, `null` or missing.
pub open spec fn chat_message_of(payload: Json) -> Option<ChatMessageView> {
    match (
        payload.text_field("channelId"@),
        payload.text_field("contentType"@),
        payload.field("message"@),
        payload.text_field("createdBy"@),
    ) {
        (Some(channel_id), Some(content_type), Some(message), Some(author)) => {
            match (
                message.text_field("type"@),
                message.field("content"@),
                message.optional_text_field("webhookId"@),
            ) {
                (Some(msg_type), Some(content), Some(webhook_id)) => {
                    match content.field("document"@) {
                        Some(document) => Some(
                            ChatMessageView {
                                channel_id,
                                content_type,
                                msg_type,
                                content: node_text(document, Seq::empty()),
                                webhook_id,
                                author,
                            },
                        ),
                        None => None,
                    }
                },
                _ => None,
            }
        },
        _ => None,
    }
}

/// The chat message that a gateway document announces: a list of at least
/// two items, the first the string `ChatMessageCreated`, the second the
/// message.
pub open spec fn event_of(doc: Json) -> Option<ChatMessageView> {
    match doc {
        Json::Array(items) => {
            if items@.len() >= 2 && items@[0].text() == Some("ChatMessageCreated"@) {
                chat_message_of(items@[1])
            } else {
                None
            }
        },
        _ => None,
    }
}

/// The chat message that a frame announces.
pub open spec fn frame_event(frame: Frame) -> Option<ChatMessageView> {
    match frame.text() {
        Some(text) => match payload_text(text) {
            Some(payload) => match json_document(payload) {
                Some(doc) => event_of(doc),
                None => None,
            },
            None => None,
        },
        None => None,
    }
}

impl ChatMessageCreated {
    /// Reads a chat message from a JSON value.
    pub fn from_json(payload: &Json) -> (r: Option<ChatMessageCreated>)
        ensures
            match r {
                Some(m) => chat_message_of(*payload) == Some(m@),
                None => chat_message_of(*payload).is_none(),
            },
    {
        let channel_id = match payload.get_str("channelId") {
            Some(channel_id) => channel_id.to_owned(),
            None => {
                return None;
            },
        };
        let content_type = match payload.get_str("contentType") {
            Some(content_type) => content_type.to_owned(),
            None => {
                return None;
            },
        };
        let message = match payload.get("message") {
            Some(message) => message,
            None => {
                return None;
            },
        };
        let author = match payload.get_str("createdBy") {
            Some(author) => author.to_owned(),
            None => {
                return None;
            },
        };
        let msg_type = match message.get_str("type") {
            Some(msg_type) => msg_type.to_owned(),
            None => {
                return None;
            },
        };
        let document = match message.get("content") {
            Some(content) => match content.get("document") {
                Some(document) => document,
                None => {
                    return None;
                },
            },
            None => {
                return None;
            },
        };
        let webhook_id = match message.get_optional_str("webhookId") {
            Ok(webhook_id) => owned(webhook_id),
            Err(_) => {
                return None;
            },
        };
        let mut content = String::new();
        extract_text_from_node(document, &mut content);
        Some(ChatMessageCreated { channel_id, content_type, msg_type, content, webhook_id, author })
    }
}

/// Reads the announcement of a chat message from a gateway document;
/// `None` for any other document.
pub fn decode_event(doc: &Json) -> (r: Option<ChatMessageCreated>)
    ensures
        match r {
            Some(m) => event_of(*doc) == Some(m@),
            None => event_of(*doc).is_none(),
        },
{
    match doc {
        Json::Array(items) => {
            if items.len() < 2 {
                return None;
            }
            match items[0].as_str() {
                Some(name) => {
                    if str_eq(name, "ChatMessageCreated") {
                        ChatMessageCreated::from_json(&items[1])
                    } else {
                        None
                    }
                },
                None => None,
            }
        },
        _ => None,
    }
}

/// Reads the announcement of a chat message from a gateway frame; `None`
/// for a frame that is not text, holds no JSON, or announces anything else.
pub fn decode_frame(frame: &Frame) -> (r: Option<ChatMessageCreated>)
    ensures
        match r {
            Some(m) => frame_event(*frame) == Some(m@),
            None => frame_event(*frame).is_none(),
        },
{
    match frame.as_text() {
        Some(text) => match bracket_payload(text) {
            Some(payload) => match parse_json(payload) {
                Some(doc) => decode_event(&doc),
                None => None,
            },
            None => None,
        },
        None => None,
    }
}

/// What the pipeline makes of a chat message: its text, from its author,
/// marked as an echo where a webhook posted it.
pub open spec fn inbound_of(message: ChatMessageView) -> InboundView {
    InboundView {
        channel: message.channel_id,
        author: message.author,
        echoed: message.webhook_id.is_some(),
        content: message.content,
    }
}

/// Brings a chat message into the form in which the pipeline relays it.
pub fn inbound(message: &ChatMessageCreated) -> (r: Inbound)
    ensures
        r@ == inbound_of(message@),
{
    Inbound {
        channel: message.channel_id.clone(),
        author: message.author.clone(),
        echoed: message.webhook_id.is_some(),
        content: message.content.clone(),
    }
}

/// The Discord channel that a Guilded channel is linked to.
pub fn get_linked_discord_channel<'a>(config: &'a Config, guilded_channel: &str) -> (r: Option<
    &'a str,
>)
    requires
        config.wf(),
    ensures
        r.is_some() == links_gd(config.text_channel_bindings@).contains_key(guilded_channel@),
        r.is_some() ==> r.unwrap()@ == links_gd(config.text_channel_bindings@)[guilded_channel@],
{
    config.discord_channel(guilded_channel)
}

/// Decides what becomes of a new Guilded chat message. One that a webhook
/// posted is dropped, so that the bridge does not relay its own deliveries.
pub fn chat_message_created(config: &Config, data: &Data, message: &ChatMessageCreated) -> (r:
    Relay)
    requires
        config.wf(),
        data.wf(),
    ensures
        r@ == relay_of(links_gd(config.text_channel_bindings@), data@, inbound_of(message@)),
        message.webhook_id.is_some() ==> r is Ignore,
{
    plan(&config.text_channel_gd, data, inbound(message))
}

/// Decides what becomes of a frame from the Guilded gateway.
pub fn guilded_to_discord(config: &Config, data: &Data, frame: &Frame) -> (r: Relay)
    requires
        config.wf(),
        data.wf(),
    ensures
        r@ == match frame_event(*frame) {
            Some(message) => relay_of(
                links_gd(config.text_channel_bindings@),
                data@,
                inbound_of(message),
            ),
            None => RelayView::Ignore,
        },
{
    match decode_frame(frame) {
        Some(message) => chat_message_created(config, data, &message),
        None => Relay::Ignore,
    }
}

/// The webhook cached for a Guilded user in a Discord channel.
pub fn get_webhook(data: &Data, guilded_user: &str, discord_channel: &str) -> (r: Option<String>)
    requires
        data.wf(),
    ensures
        r.is_some() == data@.contains_key((discord_channel@, guilded_user@)),
        r.is_some() ==> r.unwrap()@ == data@[(discord_channel@, guilded_user@)],
{
    match data.lookup(discord_channel, guilded_user) {
        Some(webhook) => Some(webhook.clone()),
        None => None,
    }
}

/// The name under which a user's webhook is created.
pub open spec fn webhook_name_of(name: Seq<char>) -> Seq<char> {
    "\u{f0}\u{178}\u{201c}\u{20ac} "@ + name
}

/// The name under which a user's webhook is created: a fixed mark, a blank
/// and the user's name.
pub fn webhook_name(name: &str) -> (r: String)
    ensures
        r@ == webhook_name_of(name@),
{
    concat2("\u{f0}\u{178}\u{201c}\u{20ac} ", name)
}

/// The address through which a webhook takes messages.
pub open spec fn webhook_url_of(id: Seq<char>, token: Seq<char>) -> Seq<char> {
    "https://discord.com/api/webhooks/"@ + id + "/"@ + token
}

/// The address through which the webhook `id` takes messages.
pub fn webhook_url(id: &str, token: &str) -> (r: String)
    ensures
        r@ == webhook_url_of(id@, token@),
{
    let mut r = String::from_str("https://discord.com/api/webhooks/");
    r.append(id);
    r.append("/");
    r.append(token);
    r
}

/// Records a webhook that was created for a Guilded user in a Discord
/// channel, and hands back its address.
pub fn webhook_created(
    data: &mut Data,
    guilded_user: &str,
    discord_channel: &str,
    id: &str,
    token: &str,
) -> (r: String)
    requires
        old(data).wf(),
    ensures
        final(data).wf(),
        r@ == webhook_url_of(id@, token@),
        final(data)@ == old(data)@.insert((discord_channel@, guilded_user@), r@),
{
    let url = webhook_url(id, token);
    data.insert(discord_channel, guilded_user, url.clone());
    url
}

/// The base64 text of a byte sequence, in the standard alphabet with
/// padding.
pub uninterp spec fn base64_text(bytes: Seq<u8>) -> Seq<char>;

/// `base64::encode`: the standard base64 text of `bytes`, which depends on
/// the bytes alone. The call panics where the length of the text does not
/// fit, so such inputs are left out.
#[verifier::external_body]
pub(crate) fn base64_encode(bytes: &[u8]) -> (r: String)
    requires
        bytes@.len() / 3 * 4 + 4 <= isize::MAX,
    ensures
        r@ == base64_text(bytes@),
{
    base64::encode(bytes)
}

/// A `data:` address that holds `encoded`, the base64 text of a file of
/// type `content_type`.
pub fn data_uri(content_type: &str, encoded: &str) -> (r: String)
    ensures
        r@ == "data:"@ + content_type@ + ";base64,"@ + encoded@,
{
    let mut r = String::from_str("data:");
    r.append(content_type);
    r.append(";base64,");
    r.append(encoded);
    r
}

/// The `data:` address that holds an avatar image of type `content_type`.
pub fn avatar_data_uri(content_type: &str, image: &[u8]) -> (r: String)
    requires
        image@.len() / 3 * 4 + 4 <= isize::MAX,
    ensures
        r@ == "data:"@ + content_type@ + ";base64,"@ + base64_text(image@),
{
    let encoded = base64_encode(image);
    data_uri(content_type, encoded.as_str())
}

/// Where the profile of a Guilded user is fetched from.
pub fn user_endpoint(guilded_user: &str) -> (r: String)
    ensures
        r@ == GUILDED_API@ + "/users/"@ + guilded_user@,
{
    concat3(GUILDED_API, "/users/", guilded_user)
}

/// Where a webhook is created in a Discord channel.
pub fn create_webhook_endpoint(discord_channel: &str) -> (r: String)
    ensures
        r@ == DISCORD_API@ + "/channels/"@ + discord_channel@ + "/webhooks"@,
{
    let mut r = concat3(DISCORD_API, "/channels/", discord_channel);
    r.append("/webhooks");
    r
}

/// Where the webhook `id` is changed by whoever holds its token.
pub fn update_webhook_endpoint(id: &str, token: &str) -> (r: String)
    ensures
        r@ == DISCORD_API@ + "/webhooks/"@ + id@ + "/"@ + token@,
{
    let mut r = concat3(DISCORD_API, "/webhooks/", id);
    r.append("/");
    r.append(token);
    r
}

} // verus!
