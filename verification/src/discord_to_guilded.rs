//! The pipeline from Discord to Guilded: reading a dispatched message from
//! a gateway frame, deciding what becomes of it, and naming the webhook that
//! stands for its author in the linked Guilded channel.

use vstd::prelude::*;
use vstd::string::*;
use vstd::utf8::encode_utf8;
use crate::config::{links_dg, Config};
use crate::frame::Frame;
use crate::gateway::GUILDED_API;
use crate::identity::Data;
use crate::json::{json_document, parse_json, Json};
use crate::relay::{plan, relay_of, Inbound, InboundView, Relay, RelayView};
use crate::text::{concat2, concat3, opt_text, owned, push_bytes, str_eq};

verus! {

/// Who wrote a message.
#[derive(Debug, PartialEq, Eq)]
pub struct DiscordUser {
    pub id: String,
    pub username: String,
    pub avatar: Option<String>,
}

/// A file that hangs on a message.
#[derive(Debug, PartialEq, Eq)]
pub struct DiscordAttachment {
    pub proxy_url: String,
    pub filename: String,
}

/// A message as the gateway announces it.
#[derive(Debug, PartialEq, Eq)]
pub struct DiscordMessage {
    pub channel_id: String,
    pub author: DiscordUser,
    pub webhook_id: Option<String>,
    pub content: Option<String>,
    pub attachments: Vec<DiscordAttachment>,
}

/// The mathematical value of a [`DiscordUser`].
pub struct DiscordUserView {
    pub id: Seq<char>,
    pub username: Seq<char>,
    pub avatar: Option<Seq<char>>,
}

/// The mathematical value of a [`DiscordAttachment`].
pub struct DiscordAttachmentView {
    pub proxy_url: Seq<char>,
    pub filename: Seq<char>,
}

/// The mathematical value of a [`DiscordMessage`].
pub struct DiscordMessageView {
    pub channel_id: Seq<char>,
    pub author: DiscordUserView,
    pub webhook_id: Option<Seq<char>>,
    pub content: Option<Seq<char>>,
    pub attachments: Seq<DiscordAttachmentView>,
}

impl View for DiscordUser {
    type V = DiscordUserView;

    open spec fn view(&self) -> DiscordUserView {
        DiscordUserView { id: self.id@, username: self.username@, avatar: opt_text(self.avatar) }
    }
}

impl View for DiscordAttachment {
    type V = DiscordAttachmentView;

    open spec fn view(&self) -> DiscordAttachmentView {
        DiscordAttachmentView { proxy_url: self.proxy_url@, filename: self.filename@ }
    }
}

impl View for DiscordMessage {
    type V = DiscordMessageView;

    open spec fn view(&self) -> DiscordMessageView {
        DiscordMessageView {
            channel_id: self.channel_id@,
            author: self.author@,
            webhook_id: opt_text(self.webhook_id),
            content: opt_text(self.content),
            attachments: Seq::new(self.attachments@.len(), |i: int| self.attachments@[i]@),
        }
    }
}

/// The user that a JSON object describes: `id` and `username` are strings,
/// `avatar` is a string, `null` or missing.
pub open spec fn user_of(user: Json) -> Option<DiscordUserView> {
    match (
        user.text_field("id"@),
        user.text_field("username"@),
        user.optional_text_field("avatar"@),
    ) {
        (Some(id), Some(username), Some(avatar)) => Some(DiscordUserView { id, username, avatar }),
        _ => None,
    }
}

/// The attachment that a JSON object describes: `proxy_url` and `filename`
/// are strings.
pub open spec fn attachment_of(item: Json) -> Option<DiscordAttachmentView> {
    match (item.text_field("proxy_url"@), item.text_field("filename"@)) {
        (Some(proxy_url), Some(filename)) => Some(DiscordAttachmentView { proxy_url, filename }),
        _ => None,
    }
}

/// The attachments of a message object. A missing or `null` member stands
/// for none; a list gives its items, each of which has to be an attachment.
pub open spec fn attachments_of(message: Json) -> Option<Seq<DiscordAttachmentView>> {
    match message.field("attachments"@) {
        None => Some(Seq::empty()),
        Some(Json::Null) => Some(Seq::empty()),
        Some(Json::Array(items)) => {
            if forall|i: int| 0 <= i < items@.len() ==> (#[trigger] attachment_of(items@[i])).is_some() {
                Some(Seq::new(items@.len(), |i: int| attachment_of(items@[i]).unwrap()))
            } else {
                None
            }
        },
        Some(_) => None,
    }
}

/// The message that a JSON object describes.
pub open spec fn message_of(message: Json) -> Option<DiscordMessageView> {
    match (
        message.text_field("channel_id"@),
        message.field("author"@),
        message.optional_text_field("webhook_id"@),
        message.optional_text_field("content"@),
        attachments_of(message),
    ) {
        (Some(channel_id), Some(author), Some(webhook_id), Some(content), Some(attachments)) => {
            match user_of(author) {
                Some(author) => Some(
                    DiscordMessageView { channel_id, author, webhook_id, content, attachments },
                ),
                None => None,
            }
        },
        _ => None,
    }
}

/// The new message that a gateway document announces: a dispatch (`op` 0)
/// of type `MESSAGE_CREATE` whose payload `d` is a message.
pub open spec fn event_of(doc: Json) -> Option<DiscordMessageView> {
    if doc.int_field("op"@) == Some(0int) && doc.text_field("t"@) == Some("MESSAGE_CREATE"@) {
        match doc.field("d"@) {
            Some(d) => message_of(d),
            None => None,
        }
    } else {
        None
    }
}

/// The new message that a frame announces.
pub open spec fn frame_event(frame: Frame) -> Option<DiscordMessageView> {
    match frame.text() {
        Some(text) => match json_document(text) {
            Some(doc) => event_of(doc),
            None => None,
        },
        None => None,
    }
}

impl DiscordUser {
    /// Reads a user from a JSON value.
    pub fn from_json(user: &Json) -> (r: Option<DiscordUser>)
        ensures
            match r {
                Some(u) => user_of(*user) == Some(u@),
                None => user_of(*user).is_none(),
            },
    {
        match (user.get_str("id"), user.get_str("username"), user.get_optional_str("avatar")) {
            (Some(id), Some(username), Ok(avatar)) => Some(
                DiscordUser { id: id.to_owned(), username: username.to_owned(), avatar: owned(avatar) },
            ),
            _ => None,
        }
    }
}

impl DiscordAttachment {
    /// Reads an attachment from a JSON value.
    pub fn from_json(item: &Json) -> (r: Option<DiscordAttachment>)
        ensures
            match r {
                Some(a) => attachment_of(*item) == Some(a@),
                None => attachment_of(*item).is_none(),
            },
    {
        match (item.get_str("proxy_url"), item.get_str("filename")) {
            (Some(proxy_url), Some(filename)) => Some(
                DiscordAttachment { proxy_url: proxy_url.to_owned(), filename: filename.to_owned() },
            ),
            _ => None,
        }
    }
}

/// The views of a list of attachments.
pub open spec fn attachment_views(attachments: Seq<DiscordAttachment>) -> Seq<
    DiscordAttachmentView,
> {
    Seq::new(attachments.len(), |i: int| attachments[i]@)
}

/// Reads the attachments of a message object.
pub fn read_attachments(message: &Json) -> (r: Option<Vec<DiscordAttachment>>)
    ensures
        match r {
            Some(list) => attachments_of(*message) == Some(attachment_views(list@)),
            None => attachments_of(*message).is_none(),
        },
{
    let mut list: Vec<DiscordAttachment> = Vec::new();
    match message.get("attachments") {
        None => Some(list),
        Some(Json::Null) => Some(list),
        Some(Json::Array(items)) => {
            let mut i: usize = 0;
            while i < items.len()
                invariant
                    i <= items@.len(),
                    list@.len() == i,
                    message.field("attachments"@) == Some(Json::Array(*items)),
                    forall|j: int| 0 <= j < i ==> #[trigger] attachment_of(items@[j]) == Some(list@[j]@),
                decreases items@.len() - i,
            {
                match DiscordAttachment::from_json(&items[i]) {
                    Some(attachment) => {
                        list.push(attachment);
                    },
                    None => {
                        return None;
                    },
                }
                i += 1;
            }
            Some(list)
        },
        Some(_) => None,
    }
}

impl DiscordMessage {
    /// Reads a message from a JSON value.
    pub fn from_json(message: &Json) -> (r: Option<DiscordMessage>)
        ensures
            match r {
                Some(m) => message_of(*message) == Some(m@),
                None => message_of(*message).is_none(),
            },
    {
        let channel_id = match message.get_str("channel_id") {
            Some(channel_id) => channel_id.to_owned(),
            None => {
                return None;
            },
        };
        let author = match message.get("author") {
            Some(author) => match DiscordUser::from_json(author) {
                Some(author) => author,
                None => {
                    return None;
                },
            },
            None => {
                return None;
            },
        };
        let webhook_id = match message.get_optional_str("webhook_id") {
            Ok(webhook_id) => owned(webhook_id),
            Err(_) => {
                return None;
            },
        };
        let content = match message.get_optional_str("content") {
            Ok(content) => owned(content),
            Err(_) => {
                return None;
            },
        };
        let attachments = match read_attachments(message) {
            Some(attachments) => attachments,
            None => {
                return None;
            },
        };
        let m = DiscordMessage { channel_id, author, webhook_id, content, attachments };
        Some(m)
    }
}

/// Reads the announcement of a new message from a gateway document; `None`
/// for any other document.
pub fn decode_event(doc: &Json) -> (r: Option<DiscordMessage>)
    ensures
        match r {
            Some(m) => event_of(*doc) == Some(m@),
            None => event_of(*doc).is_none(),
        },
{
    let op = match doc.get("op") {
        Some(op) => op.as_i64(),
        None => None,
    };
    if op != Some(0i64) {
        return None;
    }
    match doc.get_str("t") {
        Some(t) => {
            if !str_eq(t, "MESSAGE_CREATE") {
                return None;
            }
        },
        None => {
            return None;
        },
    }
    match doc.get("d") {
        Some(d) => DiscordMessage::from_json(d),
        None => None,
    }
}

/// Reads the announcement of a new message from a gateway frame; `None`
/// for a frame that is not text, not JSON, or announces anything else.
pub fn decode_frame(frame: &Frame) -> (r: Option<DiscordMessage>)
    ensures
        match r {
            Some(m) => frame_event(*frame) == Some(m@),
            None => frame_event(*frame).is_none(),
        },
{
    match frame.as_text() {
        Some(text) => match parse_json(text) {
            Some(doc) => decode_event(&doc),
            None => None,
        },
        None => None,
    }
}

/// The line that stands for one attachment in the delivered text: a line
/// break, the file's name, a colon and a blank, and the file's address.
pub open spec fn attachment_line(attachment: DiscordAttachmentView) -> Seq<char> {
    "\n"@ + attachment.filename + ": "@ + attachment.proxy_url
}

/// The lines of all attachments, in their order.
pub open spec fn attachment_lines(attachments: Seq<DiscordAttachmentView>) -> Seq<char>
    decreases attachments.len(),
{
    if attachments.len() == 0 {
        Seq::empty()
    } else {
        attachment_lines(attachments.drop_last()) + attachment_line(attachments.last())
    }
}

/// Appends one line for each attachment to `content`.
pub fn push_attachments(content: &mut String, attachments: &Vec<DiscordAttachment>)
    ensures
        final(content)@ == old(content)@ + attachment_lines(attachment_views(attachments@)),
{
    let ghost views = attachment_views(attachments@);
    let mut i: usize = 0;
    while i < attachments.len()
        invariant
            i <= attachments@.len(),
            views == attachment_views(attachments@),
            content@ == old(content)@ + attachment_lines(views.take(i as int)),
        decreases attachments@.len() - i,
    {
        content.append("\n");
        content.append(attachments[i].filename.as_str());
        content.append(": ");
        content.append(attachments[i].proxy_url.as_str());
        proof {
            let next = views.take(i + 1);
            assert(next.drop_last() =~= views.take(i as int));
        }
        i += 1;
    }
    assert(views.take(i as int) =~= views);
}

/// What the pipeline makes of a message: nothing where it has no text;
/// else the text with the attachment lines behind it, from the message's
/// author, and marked as an echo where a webhook posted it.
pub open spec fn inbound_of(message: DiscordMessageView) -> Option<InboundView> {
    match message.content {
        Some(content) => Some(
            InboundView {
                channel: message.channel_id,
                author: message.author.id,
                echoed: message.webhook_id.is_some(),
                content: content + attachment_lines(message.attachments),
            },
        ),
        None => None,
    }
}

/// What becomes of a message, given the links and the identity cache.
pub open spec fn relay_of_message(
    links: Map<Seq<char>, Seq<char>>,
    cache: Map<(Seq<char>, Seq<char>), Seq<char>>,
    message: DiscordMessageView,
) -> RelayView {
    match inbound_of(message) {
        Some(inbound) => relay_of(links, cache, inbound),
        None => RelayView::Ignore,
    }
}

/// Brings a message into the form in which the pipeline relays it.
pub fn inbound(message: &DiscordMessage) -> (r: Option<Inbound>)
    ensures
        match r {
            Some(inbound) => inbound_of(message@) == Some(inbound@),
            None => inbound_of(message@).is_none(),
        },
{
    match &message.content {
        Some(text) => {
            let mut content = text.clone();
            push_attachments(&mut content, &message.attachments);
            Some(
                Inbound {
                    channel: message.channel_id.clone(),
                    author: message.author.id.clone(),
                    echoed: message.webhook_id.is_some(),
                    content,
                },
            )
        },
        None => None,
    }
}

/// The Guilded channel that a Discord channel is linked to.
pub fn get_linked_guilded_channel<'a>(config: &'a Config, discord_channel: &str) -> (r: Option<
    &'a str,
>)
    requires
        config.wf(),
    ensures
        r.is_some() == links_dg(config.text_channel_bindings@).contains_key(discord_channel@),
        r.is_some() ==> r.unwrap()@ == links_dg(config.text_channel_bindings@)[discord_channel@],
{
    config.guilded_channel(discord_channel)
}

/// Decides what becomes of a new Discord message. One that a webhook
/// posted is dropped, so that the bridge does not relay its own deliveries.
pub fn message_created(config: &Config, data: &Data, message: &DiscordMessage) -> (r: Relay)
    requires
        config.wf(),
        data.wf(),
    ensures
        r@ == relay_of_message(links_dg(config.text_channel_bindings@), data@, message@),
        message.webhook_id.is_some() ==> r is Ignore,
{
    match inbound(message) {
        Some(inbound) => plan(&config.text_channel_dg, data, inbound),
        None => Relay::Ignore,
    }
}

/// Decides what becomes of a frame from the Discord gateway.
pub fn discord_to_guilded(config: &Config, data: &Data, frame: &Frame) -> (r: Relay)
    requires
        config.wf(),
        data.wf(),
    ensures
        r@ == match frame_event(*frame) {
            Some(message) => relay_of_message(
                links_dg(config.text_channel_bindings@),
                data@,
                message,
            ),
            None => RelayView::Ignore,
        },
{
    match decode_frame(frame) {
        Some(message) => message_created(config, data, &message),
        None => Relay::Ignore,
    }
}

/// The webhook cached for `user` in a Guilded channel.
pub fn get_webhook(data: &Data, user: &DiscordUser, guilded_channel: &str) -> (r: Option<String>)
    requires
        data.wf(),
    ensures
        r.is_some() == data@.contains_key((guilded_channel@, user.id@)),
        r.is_some() ==> r.unwrap()@ == data@[(guilded_channel@, user.id@)],
{
    match data.lookup(guilded_channel, user.id.as_str()) {
        Some(webhook) => Some(webhook.clone()),
        None => None,
    }
}

/// The name under which a user's webhook is created.
pub open spec fn webhook_name_of(username: Seq<char>) -> Seq<char> {
    "\u{1f4ac} "@ + username
}

/// The name under which a user's webhook is created: a speech balloon, a
/// blank and the user's name.
pub fn webhook_name(username: &str) -> (r: String)
    ensures
        r@ == webhook_name_of(username@),
{
    concat2("\u{1f4ac} ", username)
}

/// The address through which a webhook takes messages.
pub open spec fn webhook_url_of(id: Seq<char>, token: Seq<char>) -> Seq<char> {
    "https://media.guilded.gg/webhooks/"@ + id + "/"@ + token
}

/// The address through which the webhook `id` takes messages.
pub fn webhook_url(id: &str, token: &str) -> (r: String)
    ensures
        r@ == webhook_url_of(id@, token@),
{
    let mut r = String::from_str("https://media.guilded.gg/webhooks/");
    r.append(id);
    r.append("/");
    r.append(token);
    r
}

/// Records a webhook that was created for `user` in a Guilded channel, and
/// hands back its address.
pub fn webhook_created(
    data: &mut Data,
    user: &DiscordUser,
    guilded_channel: &str,
    id: &str,
    token: &str,
) -> (r: String)
    requires
        old(data).wf(),
    ensures
        final(data).wf(),
        r@ == webhook_url_of(id@, token@),
        final(data)@ == old(data)@.insert((guilded_channel@, user.id@), r@),
{
    let url = webhook_url(id, token);
    data.insert(guilded_channel, user.id.as_str(), url.clone());
    url
}

/// Where a user's avatar is fetched from.
pub open spec fn avatar_url_of(user: DiscordUserView) -> Option<Seq<char>> {
    match user.avatar {
        Some(hash) => Some(
            "https://cdn.discordapp.com/avatars/"@ + user.id + "/"@ + hash + ".png?size=512"@,
        ),
        None => None,
    }
}

/// Where a user's avatar is fetched from; `None` for a user without one.
pub fn avatar_url(user: &DiscordUser) -> (r: Option<String>)
    ensures
        opt_text(r) == avatar_url_of(user@),
{
    match &user.avatar {
        Some(hash) => {
            let mut r = String::from_str("https://cdn.discordapp.com/avatars/");
            r.append(user.id.as_str());
            r.append("/");
            r.append(hash.as_str());
            r.append(".png?size=512");
            Some(r)
        },
        None => None,
    }
}

/// The file name under which a user's avatar is uploaded.
pub fn avatar_file_name(user_id: &str) -> (r: String)
    ensures
        r@ == "avatar_"@ + user_id@ + ".png"@,
{
    let mut r = String::from_str("avatar_");
    r.append(user_id);
    r.append(".png");
    r
}

/// The line that parts the fields of an avatar upload.
pub const BOUNDARY: &'static str = "----WebKitFormBoundaryPfRexPAQMB4xRmqq";

/// What stands before the image in the body of an avatar upload.
pub open spec fn upload_head(png_name: Seq<char>) -> Seq<char> {
    "--"@ + BOUNDARY@
        + "\r\nContent-Disposition: form-data; name=\"file\"; filename=\""@ + png_name
        + "\"\r\nContent-Type: image/png\r\n\r\n"@
}

/// What stands behind the image in the body of an avatar upload.
pub open spec fn upload_tail() -> Seq<char> {
    "\r\n--"@ + BOUNDARY@ + "--"@
}

/// The body of an avatar upload: one form field, named `file`, that holds
/// the image under the given file name.
pub open spec fn upload_body_of(png_name: Seq<char>, png_bytes: Seq<u8>) -> Seq<u8> {
    encode_utf8(upload_head(png_name)) + png_bytes + encode_utf8(upload_tail())
}

/// Builds the body of the request that uploads an avatar.
pub fn upload_avatar(png_name: &str, png_bytes: &[u8]) -> (body: Vec<u8>)
    ensures
        body@ == upload_body_of(png_name@, png_bytes@),
{
    let mut head = String::from_str("--");
    head.append(BOUNDARY);
    head.append("\r\nContent-Disposition: form-data; name=\"file\"; filename=\"");
    head.append(png_name);
    head.append("\"\r\nContent-Type: image/png\r\n\r\n");
    let mut tail = String::from_str("\r\n--");
    tail.append(BOUNDARY);
    tail.append("--");
    let mut body: Vec<u8> = Vec::new();
    push_bytes(&mut body, head.as_str().as_bytes());
    push_bytes(&mut body, png_bytes);
    push_bytes(&mut body, tail.as_str().as_bytes());
    body
}

/// The content type that goes with the body of an avatar upload.
pub fn upload_content_type() -> (r: String)
    ensures
        r@ == "multipart/form-data; boundary="@ + BOUNDARY@,
{
    concat2("multipart/form-data; boundary=", BOUNDARY)
}

/// Where an avatar is uploaded to.
pub const UPLOAD_URL: &'static str =
    "https://media.guilded.gg/media/upload?dynamicMediaTypeId=UserAvatar";

/// Where a webhook is created.
pub fn create_webhook_endpoint() -> (r: String)
    ensures
        r@ == GUILDED_API@ + "/webhooks"@,
{
    concat2(GUILDED_API, "/webhooks")
}

/// Where the webhook `id` is changed.
pub fn update_webhook_endpoint(id: &str) -> (r: String)
    ensures
        r@ == GUILDED_API@ + "/webhooks/"@ + id@,
{
    concat3(GUILDED_API, "/webhooks/", id)
}

} // verus!
