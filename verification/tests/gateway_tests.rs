use chat_bridge::error_boxable::{errorbox, ErrorBox, ErrorBoxable};
use chat_bridge::frame::Frame;
use chat_bridge::text::owned;
use chat_bridge::gateway::{
    discord_heartbeat, guilded_heartbeat_step, Beat, BeatAction, discord_websocket, document_op, document_requests_heartbeat, document_sequence,
    gateway_endpoint, guilded_heartbeat, guilded_login_url, handshake_error, handshake_step,
    heartbeat_delay, hello_interval, identify_frame, is_heartbeat_request, make_discord_heartbeat,
    my_ws_task, observe_document, observe_sequence, read_frame, Handshake,
    SessionAction, SessionEvent, DISCORD_API, DISCORD_HEARTBEAT, DISCORD_HEARTBEAT_OP,
    GUILDED_API, GUILDED_GATEWAY, GUILDED_HEARTBEAT, GUILDED_HEARTBEAT_SECS,
};
use chat_bridge::json::{parse_json, Json, Member};

fn text(s: &str) -> Frame {
    Frame::Text(s.to_owned())
}

#[test]
fn heartbeat_embeds_last_observed_sequence_number() {
    let mut sequence = None;
    for s in [5, 7, 6] {
        sequence = observe_sequence(sequence, &text(&format!("{{\"op\":0,\"s\":{},\"d\":{{}}}}", s)));
    }
    assert_eq!(sequence, Some(6));
    assert_eq!(make_discord_heartbeat(sequence), text("{ \"op\": 1, \"d\": 6 }"));
}

#[test]
fn heartbeat_names_null_before_any_sequence_number() {
    assert_eq!(make_discord_heartbeat(None), text("{ \"op\": 1, \"d\": null }"));
}

#[test]
fn heartbeat_renders_negative_and_large_numbers() {
    assert_eq!(make_discord_heartbeat(Some(-12)), text("{ \"op\": 1, \"d\": -12 }"));
    assert_eq!(make_discord_heartbeat(Some(0)), text("{ \"op\": 1, \"d\": 0 }"));
    assert_eq!(
        make_discord_heartbeat(Some(i64::MAX)),
        text("{ \"op\": 1, \"d\": 9223372036854775807 }")
    );
    assert_eq!(
        make_discord_heartbeat(Some(i64::MIN)),
        text("{ \"op\": 1, \"d\": -9223372036854775808 }")
    );
}

#[test]
fn frames_without_sequence_number_leave_it_as_it_is() {
    assert_eq!(observe_sequence(Some(4), &text("{\"op\":11}")), Some(4));
    assert_eq!(observe_sequence(Some(4), &text("{\"s\":null}")), Some(4));
    assert_eq!(observe_sequence(Some(4), &text("{\"s\":\"9\"}")), Some(4));
    assert_eq!(observe_sequence(Some(4), &text("{\"s\":1.5}")), Some(4));
    assert_eq!(observe_sequence(Some(4), &text("not json")), Some(4));
    assert_eq!(observe_sequence(Some(4), &Frame::Binary(vec![1, 2])), Some(4));
    assert_eq!(observe_sequence(Some(4), &Frame::Control), Some(4));
    assert_eq!(observe_sequence(None, &text("{\"s\":18446744073709551615}")), None);
    assert_eq!(observe_sequence(None, &text("{\"s\":-3}")), Some(-3));
    assert_eq!(observe_document(Some(1), &None), Some(1));
    assert_eq!(observe_document(Some(1), &parse_json("{\"s\": 2}")), Some(2));
    assert_eq!(document_sequence(&parse_json("{\"s\": 9}").unwrap()), Some(9));
}

#[test]
fn heartbeat_delay_is_95_percent_rounded_up() {
    assert_eq!(heartbeat_delay(41250), 39188);
    assert_eq!(heartbeat_delay(0), 0);
    assert_eq!(heartbeat_delay(1), 1);
    assert_eq!(heartbeat_delay(19), 19);
    assert_eq!(heartbeat_delay(20), 19);
    assert_eq!(heartbeat_delay(21), 20);
    assert_eq!(heartbeat_delay(100), 95);
    assert_eq!(heartbeat_delay(101), 96);
    assert_eq!(heartbeat_delay(u64::MAX), u64::MAX - u64::MAX / 20);
}

#[test]
fn gateway_endpoint_depends_on_kind_of_token() {
    assert_eq!(gateway_endpoint("Bot abc"), "https://discord.com/api/v8/gateway/bot");
    assert_eq!(gateway_endpoint("abc"), "https://discord.com/api/v8/gateway");
    assert_eq!(gateway_endpoint("Bot "), "https://discord.com/api/v8/gateway");
    assert_eq!(gateway_endpoint("bot abc"), "https://discord.com/api/v8/gateway");
    assert_eq!(gateway_endpoint(""), "https://discord.com/api/v8/gateway");
    assert_eq!(gateway_endpoint("Bo\u{20ac}x"), "https://discord.com/api/v8/gateway");
    assert_eq!(gateway_endpoint("Bot \u{20ac}"), "https://discord.com/api/v8/gateway/bot");
}

#[test]
fn constants_are_those_of_the_platforms() {
    assert_eq!(GUILDED_API, "https://www.guilded.gg/api");
    assert_eq!(DISCORD_API, "https://discord.com/api/v8");
    assert_eq!(DISCORD_HEARTBEAT, "{\"op\": 1}");
    assert_eq!(DISCORD_HEARTBEAT_OP, 1);
    assert_eq!(GUILDED_HEARTBEAT, "2");
    assert_eq!(GUILDED_HEARTBEAT_SECS, 24);
    assert_eq!(
        GUILDED_GATEWAY,
        "wss://api.guilded.gg/socket.io/?jwt=undefined&EIO=3&transport=websocket"
    );
    assert_eq!(guilded_login_url(), "https://www.guilded.gg/api/login");
    assert_eq!(guilded_heartbeat(), text("2"));
}

#[test]
fn identify_frame_carries_the_token() {
    assert_eq!(
        identify_frame("Bot secret"),
        text("{\"op\": 2, \"d\": { \"token\": \"Bot secret\", \"intents\": 1536, \"properties\": { \"$os\": \"linux\", \"$browser\": \"bridge7573\", \"$device\": \"bridge7573\" } } }")
    );
    let doc = read_frame(&identify_frame("tok")).expect("the frame is JSON");
    assert_eq!(document_op(&doc), Some(2));
    assert_eq!(doc.get("d").and_then(|d| d.get_str("token")), Some("tok"));
    assert_eq!(doc.get("d").and_then(|d| d.get("intents")), Some(&Json::Int(1536)));
}

#[test]
fn handshake_succeeds_on_hello_and_acceptance() {
    let hello = text("{\"op\":10,\"d\":{\"heartbeat_interval\":41250}}");
    let (state, send) = discord_websocket(Handshake::AwaitHello, Some(&hello), "tok");
    assert_eq!(state, Handshake::AwaitReady { interval: 41250 });
    assert_eq!(send, Some(identify_frame("tok")));
    let ready = text("{\"op\":0,\"t\":\"READY\",\"s\":1,\"d\":{}}");
    let (state, send) = discord_websocket(state, Some(&ready), "tok");
    assert_eq!(state, Handshake::Ready { interval: 41250 });
    assert_eq!(send, None);
    let (state, send) = discord_websocket(state, Some(&ready), "tok");
    assert_eq!(state, Handshake::Ready { interval: 41250 });
    assert_eq!(send, None);
}

#[test]
fn handshake_fails_on_anything_but_hello() {
    for first in [
        "{\"op\":0,\"d\":{\"heartbeat_interval\":41250}}",
        "{\"op\":10,\"d\":{}}",
        "{\"op\":10}",
        "{\"op\":10,\"d\":{\"heartbeat_interval\":\"soon\"}}",
        "{\"op\":10,\"d\":{\"heartbeat_interval\":-1}}",
        "{\"op\":10.0,\"d\":{\"heartbeat_interval\":1}}",
        "{\"op\":266,\"d\":{\"heartbeat_interval\":1}}",
        "[10]",
        "hello",
    ] {
        let (state, send) = discord_websocket(Handshake::AwaitHello, Some(&text(first)), "tok");
        assert_eq!(state, Handshake::Failed);
        assert_eq!(send, None);
    }
    let (state, send) = discord_websocket(Handshake::AwaitHello, None, "tok");
    assert_eq!((state, send), (Handshake::Failed, None));
    let (state, send) = discord_websocket(Handshake::AwaitHello, Some(&Frame::Binary(vec![])), "tok");
    assert_eq!((state, send), (Handshake::Failed, None));
}

#[test]
fn handshake_fails_without_acceptance() {
    let waiting = Handshake::AwaitReady { interval: 5 };
    for second in ["{\"op\":9,\"d\":false}", "{\"op\":10,\"d\":{\"heartbeat_interval\":1}}", "{}", "x"] {
        let (state, send) = discord_websocket(waiting, Some(&text(second)), "tok");
        assert_eq!((state, send), (Handshake::Failed, None));
    }
    assert_eq!(discord_websocket(waiting, None, "tok"), (Handshake::Failed, None));
    assert_eq!(
        discord_websocket(Handshake::Failed, Some(&text("{\"op\":0}")), "tok"),
        (Handshake::Failed, None)
    );
    assert_eq!(handshake_step(waiting, &None, "tok"), (Handshake::Failed, None));
    assert_eq!(
        handshake_step(waiting, &parse_json("{\"op\":0}"), "tok"),
        (Handshake::Ready { interval: 5 }, None)
    );
    assert_eq!(handshake_error().to_string(), "Didn't get Hello message from discord gateway");
}

#[test]
fn hello_interval_is_read_exactly() {
    let doc = parse_json("{\"op\":10,\"d\":{\"heartbeat_interval\":18446744073709551615}}").unwrap();
    assert_eq!(hello_interval(&doc), Some(u64::MAX));
    let doc = parse_json("{\"op\":10,\"d\":{\"heartbeat_interval\":0}}").unwrap();
    assert_eq!(hello_interval(&doc), Some(0));
    let doc = Json::Object(vec![
        Member { key: "op".to_owned(), value: Json::Int(10) },
        Member {
            key: "d".to_owned(),
            value: Json::Object(vec![Member {
                key: "heartbeat_interval".to_owned(),
                value: Json::Int(1 << 70),
            }]),
        },
    ]);
    assert_eq!(hello_interval(&doc), None);
}

#[test]
fn heartbeat_request_is_op_code_one() {
    assert!(is_heartbeat_request(&text("{\"op\":1}")));
    assert!(is_heartbeat_request(&text("{\"op\":1,\"d\":null}")));
    assert!(is_heartbeat_request(&text(DISCORD_HEARTBEAT)));
    assert!(!is_heartbeat_request(&text("{\"op\":11}")));
    assert!(!is_heartbeat_request(&text("{\"op\":\"1\"}")));
    assert!(!is_heartbeat_request(&text("{\"op\":257}")));
    assert!(!is_heartbeat_request(&text("{}")));
    assert!(!is_heartbeat_request(&text("1")));
    assert!(!is_heartbeat_request(&Frame::Binary(b"{\"op\":1}".to_vec())));
    assert!(!document_requests_heartbeat(&None));
    assert!(document_requests_heartbeat(&parse_json("{\"op\":1}")));
}

#[test]
fn session_passes_frames_on_and_dies_on_failure() {
    assert_eq!(my_ws_task(SessionEvent::Inbound(text("in"))), SessionAction::Publish(text("in")));
    assert_eq!(my_ws_task(SessionEvent::Outbound(text("out"))), SessionAction::Write(text("out")));
    let fatal = |event: SessionEvent| match my_ws_task(event) {
        SessionAction::Fatal(error) => error.to_string(),
        other => panic!("not fatal: {:?}", other),
    };
    assert_eq!(fatal(SessionEvent::InboundFailed), "Died while incoming_msg");
    assert_eq!(fatal(SessionEvent::InboundEnded), "Died while incoming_msg of uselessness");
    assert_eq!(fatal(SessionEvent::OutboundClosed), "Died while send_msg of uselessness");
    assert_eq!(fatal(SessionEvent::PublishFailed), "Died while msg_out");
    assert_eq!(fatal(SessionEvent::WriteFailed), "Died while send_msg");
}

#[test]
fn error_box_keeps_the_words() {
    assert_eq!(errorbox("plain").to_string(), "plain");
    assert_eq!(errorbox("owned".to_owned()).to_string(), "owned");
    assert_eq!(ErrorBox::from("from").to_string(), "from");
    assert_eq!(ErrorBox::from("x".to_owned()), ErrorBox("x".to_owned()));
    assert_eq!("words".describe(), "words");
    assert_eq!("words".to_owned().describe(), "words");
}

#[test]
fn frame_text_is_that_of_text_frames_only() {
    assert_eq!(text("t").as_text(), Some("t"));
    assert_eq!(Frame::Binary(vec![0x74]).as_text(), None);
    assert_eq!(Frame::Control.as_text(), None);
    assert_eq!(owned(Some("a")), Some("a".to_owned()));
    assert_eq!(owned(None), None);
}

#[test]
fn discord_supervisor_waits_then_sends() {
    assert_eq!(discord_heartbeat(Beat::Start, 41250, None), BeatAction::Sleep { millis: 39188 });
    assert_eq!(discord_heartbeat(Beat::Sent, 100, Some(3)), BeatAction::Sleep { millis: 95 });
    assert_eq!(
        discord_heartbeat(Beat::Slept, 41250, Some(6)),
        BeatAction::Send(text("{ \"op\": 1, \"d\": 6 }"))
    );
    assert_eq!(
        discord_heartbeat(Beat::Requested, 41250, None),
        BeatAction::Send(text("{ \"op\": 1, \"d\": null }"))
    );
    assert_eq!(
        discord_heartbeat(Beat::Failed, 41250, Some(6)),
        BeatAction::Fatal(errorbox("Discord heartbeat died"))
    );
}

#[test]
fn guilded_supervisor_sends_then_waits() {
    assert_eq!(guilded_heartbeat_step(Beat::Start), BeatAction::Send(text("2")));
    assert_eq!(guilded_heartbeat_step(Beat::Sent), BeatAction::Sleep { millis: 24000 });
    assert_eq!(guilded_heartbeat_step(Beat::Slept), BeatAction::Send(text("2")));
    assert_eq!(guilded_heartbeat_step(Beat::Requested), BeatAction::Send(text("2")));
    assert_eq!(
        guilded_heartbeat_step(Beat::Failed),
        BeatAction::Fatal(errorbox("Guilded heartbeat died"))
    );
}
