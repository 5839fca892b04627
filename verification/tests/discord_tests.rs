use chat_bridge::config::{ChannelBinding, Config};
use chat_bridge::discord_to_guilded::{
    avatar_file_name, avatar_url, create_webhook_endpoint, update_webhook_endpoint, UPLOAD_URL, decode_event, decode_frame, discord_to_guilded,
    get_linked_guilded_channel, get_webhook, inbound, message_created, push_attachments,
    read_attachments, upload_avatar, upload_content_type, webhook_created, webhook_name,
    webhook_url, DiscordAttachment, DiscordMessage, DiscordUser, BOUNDARY,
};
use chat_bridge::frame::Frame;
use chat_bridge::identity::Data;
use chat_bridge::json::parse_json;
use chat_bridge::relay::{plan, Inbound, Relay};

fn config() -> Config {
    Config::new(vec![ChannelBinding { guilded: "G1".to_owned(), discord: "C1".to_owned() }])
}

fn text(s: &str) -> Frame {
    Frame::Text(s.to_owned())
}

fn ann() -> DiscordUser {
    DiscordUser { id: "U1".to_owned(), username: "Ann".to_owned(), avatar: None }
}

fn message(content: Option<&str>, webhook_id: Option<&str>) -> DiscordMessage {
    DiscordMessage {
        channel_id: "C1".to_owned(),
        author: ann(),
        webhook_id: webhook_id.map(|s| s.to_owned()),
        content: content.map(|s| s.to_owned()),
        attachments: vec![],
    }
}

const HI: &str = r#"{"op":0, "t":"MESSAGE_CREATE", "d":{"channel_id":"C1", "author":{"id":"U1", "username":"Ann"}, "content":"hi", "webhook_id":null}}"#;

#[test]
fn new_author_gets_an_identity_and_then_the_delivery() {
    let config = config();
    let mut data = Data::new();
    let decoded = decode_frame(&text(HI)).expect("a new message");
    assert_eq!(decoded, message(Some("hi"), None));
    let relay = discord_to_guilded(&config, &data, &text(HI));
    assert_eq!(
        relay,
        Relay::Provision {
            channel: "G1".to_owned(),
            author: "U1".to_owned(),
            content: "hi".to_owned(),
        }
    );
    let name = webhook_name(&decoded.author.username);
    assert!(name.contains("Ann"));
    assert_eq!(name, "\u{1f4ac} Ann");
    let endpoint = webhook_created(&mut data, &decoded.author, "G1", "W1", "T1");
    assert_eq!(endpoint, "https://media.guilded.gg/webhooks/W1/T1");
    assert_eq!(
        discord_to_guilded(&config, &data, &text(HI)),
        Relay::Deliver { endpoint, content: "hi".to_owned() }
    );
}

#[test]
fn attachment_line_follows_empty_content() {
    let frame = text(
        r#"{"op":0, "t":"MESSAGE_CREATE", "d":{"channel_id":"C1", "author":{"id":"U1", "username":"Ann"}, "content":"", "webhook_id":null, "attachments":[{"filename":"a.png", "proxy_url":"http://x/a.png"}]}}"#,
    );
    let mut data = Data::new();
    data.insert("G1", "U1", "https://hook".to_owned());
    assert_eq!(
        discord_to_guilded(&config(), &data, &frame),
        Relay::Deliver {
            endpoint: "https://hook".to_owned(),
            content: "\na.png: http://x/a.png".to_owned(),
        }
    );
}

#[test]
fn attachment_lines_follow_the_text_in_order() {
    let mut content = "see".to_owned();
    push_attachments(
        &mut content,
        &vec![
            DiscordAttachment { proxy_url: "http://x/1".to_owned(), filename: "one.png".to_owned() },
            DiscordAttachment { proxy_url: "http://x/2".to_owned(), filename: "two.txt".to_owned() },
        ],
    );
    assert_eq!(content, "see\none.png: http://x/1\ntwo.txt: http://x/2");
    let mut unchanged = "same".to_owned();
    push_attachments(&mut unchanged, &vec![]);
    assert_eq!(unchanged, "same");
}

#[test]
fn same_author_is_delivered_twice_through_one_identity() {
    let config = config();
    let mut data = Data::new();
    let mut created = 0;
    let mut delivered = Vec::new();
    for content in ["first", "second"] {
        let msg = message(Some(content), None);
        match message_created(&config, &data, &msg) {
            Relay::Provision { channel, author, content } => {
                created += 1;
                assert_eq!(author, "U1");
                let endpoint = webhook_created(&mut data, &msg.author, &channel, "W", "T");
                delivered.push((endpoint, content));
            }
            Relay::Deliver { endpoint, content } => delivered.push((endpoint, content)),
            Relay::Ignore => panic!("dropped"),
        }
    }
    assert_eq!(created, 1);
    assert_eq!(
        delivered,
        vec![
            ("https://media.guilded.gg/webhooks/W/T".to_owned(), "first".to_owned()),
            ("https://media.guilded.gg/webhooks/W/T".to_owned(), "second".to_owned()),
        ]
    );
}

#[test]
fn message_of_a_webhook_is_never_relayed() {
    let config = config();
    let mut data = Data::new();
    assert_eq!(message_created(&config, &data, &message(Some("echo"), Some("W1"))), Relay::Ignore);
    data.insert("G1", "U1", "https://hook".to_owned());
    assert_eq!(message_created(&config, &data, &message(Some("echo"), Some("W1"))), Relay::Ignore);
    let frame = text(
        r#"{"op":0,"t":"MESSAGE_CREATE","d":{"channel_id":"C1","author":{"id":"U1","username":"Ann"},"content":"hi","webhook_id":"W9"}}"#,
    );
    assert_eq!(discord_to_guilded(&config, &data, &frame), Relay::Ignore);
}

#[test]
fn message_without_text_or_link_is_dropped() {
    let config = config();
    let mut data = Data::new();
    data.insert("G1", "U1", "https://hook".to_owned());
    assert_eq!(message_created(&config, &data, &message(None, None)), Relay::Ignore);
    let mut elsewhere = message(Some("hi"), None);
    elsewhere.channel_id = "C2".to_owned();
    assert_eq!(message_created(&config, &data, &elsewhere), Relay::Ignore);
    elsewhere.channel_id = "G1".to_owned();
    assert_eq!(message_created(&config, &data, &elsewhere), Relay::Ignore);
    assert_eq!(inbound(&message(None, None)), None);
    assert_eq!(
        inbound(&message(Some("t"), Some("w"))),
        Some(Inbound {
            channel: "C1".to_owned(),
            author: "U1".to_owned(),
            echoed: true,
            content: "t".to_owned(),
        })
    );
}

#[test]
fn other_frames_are_dropped() {
    let config = config();
    let data = Data::new();
    for frame in [
        text("not json"),
        text("{}"),
        text(r#"{"op":1,"t":"MESSAGE_CREATE","d":{"channel_id":"C1","author":{"id":"U1","username":"Ann"},"content":"hi"}}"#),
        text(r#"{"op":0,"t":"MESSAGE_UPDATE","d":{"channel_id":"C1","author":{"id":"U1","username":"Ann"},"content":"hi"}}"#),
        text(r#"{"op":0,"d":{"channel_id":"C1","author":{"id":"U1","username":"Ann"},"content":"hi"}}"#),
        text(r#"{"op":0,"t":"MESSAGE_CREATE"}"#),
        text(r#"{"op":0,"t":"MESSAGE_CREATE","d":{"author":{"id":"U1","username":"Ann"},"content":"hi"}}"#),
        text(r#"{"op":0,"t":"MESSAGE_CREATE","d":{"channel_id":"C1","author":{"id":"U1"},"content":"hi"}}"#),
        text(r#"{"op":0,"t":"MESSAGE_CREATE","d":{"channel_id":"C1","author":{"id":"U1","username":"Ann"},"content":5}}"#),
        text(r#"{"op":0,"t":"MESSAGE_CREATE","d":{"channel_id":"C1","author":{"id":"U1","username":"Ann"},"content":"hi","webhook_id":7}}"#),
        text(r#"{"op":0,"t":"MESSAGE_CREATE","d":{"channel_id":"C1","author":{"id":"U1","username":"Ann"},"content":"hi","attachments":[{"filename":"a"}]}}"#),
        text(r#"{"op":0,"t":"MESSAGE_CREATE","d":{"channel_id":"C1","author":{"id":"U1","username":"Ann"},"content":"hi","attachments":"none"}}"#),
        Frame::Binary(HI.as_bytes().to_vec()),
        Frame::Control,
    ] {
        assert_eq!(decode_frame(&frame), None);
        assert_eq!(discord_to_guilded(&config, &data, &frame), Relay::Ignore);
    }
}

#[test]
fn message_is_decoded_with_all_its_parts() {
    let doc = parse_json(
        r#"{"op":0,"s":3,"t":"MESSAGE_CREATE","d":{"id":"M1","channel_id":"C9","author":{"id":"U2","username":"Bob","avatar":"abc"},"content":null,"webhook_id":"W","attachments":[{"id":"1","filename":"f.txt","proxy_url":"http://p/f.txt","size":3}]}}"#,
    )
    .unwrap();
    assert_eq!(
        decode_event(&doc),
        Some(DiscordMessage {
            channel_id: "C9".to_owned(),
            author: DiscordUser {
                id: "U2".to_owned(),
                username: "Bob".to_owned(),
                avatar: Some("abc".to_owned()),
            },
            webhook_id: Some("W".to_owned()),
            content: None,
            attachments: vec![DiscordAttachment {
                proxy_url: "http://p/f.txt".to_owned(),
                filename: "f.txt".to_owned(),
            }],
        })
    );
    assert_eq!(DiscordUser::from_json(&parse_json(r#"{"id":"a","username":"b"}"#).unwrap()),
        Some(DiscordUser { id: "a".to_owned(), username: "b".to_owned(), avatar: None }));
    assert_eq!(DiscordUser::from_json(&parse_json(r#"{"id":"a","username":"b","avatar":1}"#).unwrap()), None);
    assert_eq!(DiscordAttachment::from_json(&parse_json(r#"{"proxy_url":"p"}"#).unwrap()), None);
    assert_eq!(read_attachments(&parse_json(r#"{"attachments":null}"#).unwrap()), Some(vec![]));
    assert_eq!(read_attachments(&parse_json(r#"{}"#).unwrap()), Some(vec![]));
    assert_eq!(read_attachments(&parse_json(r#"{"attachments":{}}"#).unwrap()), None);
    assert_eq!(DiscordMessage::from_json(&parse_json("[]").unwrap()), None);
}

#[test]
fn linked_channel_and_cached_webhook_are_looked_up() {
    let config = config();
    assert_eq!(get_linked_guilded_channel(&config, "C1"), Some("G1"));
    assert_eq!(get_linked_guilded_channel(&config, "G1"), None);
    let mut data = Data::new();
    assert_eq!(get_webhook(&data, &ann(), "G1"), None);
    data.insert("G1", "U1", "https://hook".to_owned());
    assert_eq!(get_webhook(&data, &ann(), "G1"), Some("https://hook".to_owned()));
    assert_eq!(get_webhook(&data, &ann(), "G2"), None);
}

#[test]
fn plan_follows_links_and_cache() {
    let config = config();
    let mut data = Data::new();
    let inbound = |echoed: bool| Inbound {
        channel: "C1".to_owned(),
        author: "U1".to_owned(),
        echoed,
        content: "c".to_owned(),
    };
    assert_eq!(
        plan(&config.text_channel_dg, &data, inbound(false)),
        Relay::Provision { channel: "G1".to_owned(), author: "U1".to_owned(), content: "c".to_owned() }
    );
    data.insert("G1", "U1", "e".to_owned());
    assert_eq!(
        plan(&config.text_channel_dg, &data, inbound(false)),
        Relay::Deliver { endpoint: "e".to_owned(), content: "c".to_owned() }
    );
    assert_eq!(plan(&config.text_channel_dg, &data, inbound(true)), Relay::Ignore);
    assert_eq!(plan(&config.text_channel_gd, &data, inbound(false)), Relay::Ignore);
}

#[test]
fn webhook_and_avatar_addresses_are_exact() {
    assert_eq!(webhook_url("id", "tok"), "https://media.guilded.gg/webhooks/id/tok");
    assert_eq!(webhook_name(""), "\u{1f4ac} ");
    assert_eq!(avatar_url(&ann()), None);
    let user = DiscordUser { id: "42".to_owned(), username: "x".to_owned(), avatar: Some("h4sh".to_owned()) };
    assert_eq!(
        avatar_url(&user),
        Some("https://cdn.discordapp.com/avatars/42/h4sh.png?size=512".to_owned())
    );
    assert_eq!(avatar_file_name("42"), "avatar_42.png");
    assert_eq!(create_webhook_endpoint(), "https://www.guilded.gg/api/webhooks");
    assert_eq!(update_webhook_endpoint("W1"), "https://www.guilded.gg/api/webhooks/W1");
    assert_eq!(
        UPLOAD_URL,
        "https://media.guilded.gg/media/upload?dynamicMediaTypeId=UserAvatar"
    );
}

#[test]
fn avatar_upload_is_one_form_field() {
    assert_eq!(BOUNDARY, "----WebKitFormBoundaryPfRexPAQMB4xRmqq");
    let body = upload_avatar("avatar_1.png", &[0x89, 0x50, 0x00, 0xff]);
    let mut expected = b"------WebKitFormBoundaryPfRexPAQMB4xRmqq\r\nContent-Disposition: form-data; name=\"file\"; filename=\"avatar_1.png\"\r\nContent-Type: image/png\r\n\r\n".to_vec();
    expected.extend_from_slice(&[0x89, 0x50, 0x00, 0xff]);
    expected.extend_from_slice(b"\r\n------WebKitFormBoundaryPfRexPAQMB4xRmqq--");
    assert_eq!(body, expected);
    assert_eq!(
        upload_content_type(),
        "multipart/form-data; boundary=----WebKitFormBoundaryPfRexPAQMB4xRmqq"
    );
}
