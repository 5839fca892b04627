//! The protocol of the two gateways: the handshake with Discord, the
//! heartbeats of both, the tracking of Discord's sequence number, and the
//! steps of a session's read and write loop.

use vstd::prelude::*;
use vstd::string::*;
use vstd::utf8::encode_utf8;
use crate::error_boxable::{errorbox, ErrorBox};
use crate::frame::Frame;
use crate::json::{json_document, parse_json, Json};
use crate::text::{concat2, push_decimal, decimal};

verus! {

/// Where Guilded's REST interface lives.
pub const GUILDED_API: &'static str = "https://www.guilded.gg/api";

/// Where Discord's REST interface lives.
pub const DISCORD_API: &'static str = "https://discord.com/api/v8";

/// Where Guilded's gateway lives.
pub const GUILDED_GATEWAY: &'static str =
    "wss://api.guilded.gg/socket.io/?jwt=undefined&EIO=3&transport=websocket";

/// A Discord heartbeat that names no sequence number.
pub const DISCORD_HEARTBEAT: &'static str = "{\"op\": 1}";

/// The op code of a Discord heartbeat, in either direction.
pub const DISCORD_HEARTBEAT_OP: u8 = 1;

/// The heartbeat that Guilded's gateway expects.
pub const GUILDED_HEARTBEAT: &'static str = "2";

/// The seconds between two heartbeats to Guilded.
pub const GUILDED_HEARTBEAT_SECS: u64 = 24;

/// Where the login to Guilded is posted.
pub fn guilded_login_url() -> (r: String)
    ensures
        r@ == GUILDED_API@ + "/login"@,
{
    concat2(GUILDED_API, "/login")
}

/// The heartbeat frame for Guilded.
pub fn guilded_heartbeat() -> (r: Frame)
    ensures
        r.text() == Some(GUILDED_HEARTBEAT@),
{
    Frame::Text(String::from_str(GUILDED_HEARTBEAT))
}

/// Whether an authorization header is that of a bot: its UTF-8 encoding is
/// longer than the four bytes of `Bot `, with which it starts.
pub open spec fn is_bot_token(auth: Seq<char>) -> bool {
    let bytes = encode_utf8(auth);
    &&& bytes.len() > 4
    &&& bytes[0] == 0x42u8
    &&& bytes[1] == 0x6fu8
    &&& bytes[2] == 0x74u8
    &&& bytes[3] == 0x20u8
}

/// Where to ask for the address of the gateway.
pub open spec fn gateway_endpoint_of(auth: Seq<char>) -> Seq<char> {
    if is_bot_token(auth) {
        DISCORD_API@ + "/gateway/bot"@
    } else {
        DISCORD_API@ + "/gateway"@
    }
}

/// Where to ask Discord for the address of its gateway: a bot asks at an
/// address of its own.
pub fn gateway_endpoint(auth: &str) -> (r: String)
    ensures
        r@ == gateway_endpoint_of(auth@),
{
    let bytes = auth.as_bytes();
    if bytes.len() > 4 && bytes[0] == 0x42u8 && bytes[1] == 0x6fu8 && bytes[2] == 0x74u8
        && bytes[3] == 0x20u8 {
        concat2(DISCORD_API, "/gateway/bot")
    } else {
        concat2(DISCORD_API, "/gateway")
    }
}

/// The text of the frame that identifies the bridge to Discord.
pub open spec fn identify_text(auth: Seq<char>) -> Seq<char> {
    "{\"op\": 2, \"d\": { \"token\": \""@ + auth
        + "\", \"intents\": 1536, \"properties\": { \"$os\": \"linux\", \"$browser\": \"bridge7573\", \"$device\": \"bridge7573\" } } }"@
}

/// The frame that identifies the bridge to Discord: op code 2, with the
/// token, the intents and the properties of the client.
pub fn identify_frame(auth: &str) -> (r: Frame)
    ensures
        r.text() == Some(identify_text(auth@)),
{
    let mut text = String::from_str("{\"op\": 2, \"d\": { \"token\": \"");
    text.append(auth);
    text.append(
        "\", \"intents\": 1536, \"properties\": { \"$os\": \"linux\", \"$browser\": \"bridge7573\", \"$device\": \"bridge7573\" } } }",
    );
    Frame::Text(text)
}

/// The text of a heartbeat to Discord.
pub open spec fn heartbeat_text(sequence: Option<i64>) -> Seq<char> {
    match sequence {
        Some(n) => "{ \"op\": 1, \"d\": "@ + decimal(n as int) + " }"@,
        None => "{ \"op\": 1, \"d\": null }"@,
    }
}

/// The heartbeat frame for Discord. It names the sequence number that was
/// seen last, or `null` while none has been seen.
pub fn make_discord_heartbeat(sequence: Option<i64>) -> (r: Frame)
    ensures
        r.text() == Some(heartbeat_text(sequence)),
{
    match sequence {
        Some(n) => {
            let mut text = String::from_str("{ \"op\": 1, \"d\": ");
            push_decimal(&mut text, n);
            text.append(" }");
            Frame::Text(text)
        },
        None => Frame::Text(String::from_str("{ \"op\": 1, \"d\": null }")),
    }
}

/// How long to wait between two heartbeats to Discord, in the unit of the
/// interval that the gateway announced: 95% of that interval, rounded up.
pub open spec fn heartbeat_delay_of(interval: u64) -> u64 {
    (interval - interval / 20) as u64
}

/// How long to wait between two heartbeats to Discord: the least whole
/// number that is not below 95% of the interval.
pub fn heartbeat_delay(interval: u64) -> (delay: u64)
    ensures
        delay == heartbeat_delay_of(interval),
        20 * delay >= 19 * interval,
        20 * (delay - 1) < 19 * interval,
{
    interval - interval / 20
}

/// The document that a frame holds: `None` where the frame is not text or
/// the text is not JSON.
pub open spec fn frame_document(frame: Frame) -> Option<Json> {
    match frame.text() {
        Some(text) => json_document(text),
        None => None,
    }
}

/// Parses the document that a frame holds.
pub fn read_frame(frame: &Frame) -> (r: Option<Json>)
    ensures
        r == frame_document(*frame),
{
    match frame.as_text() {
        Some(text) => parse_json(text),
        None => None,
    }
}

/// The op code of a gateway document: the integer under `op`, where it is
/// one of a byte.
pub open spec fn op_of(doc: Json) -> Option<u8> {
    match doc.int_field("op"@) {
        Some(op) if 0 <= op <= 255 => Some(op as u8),
        _ => None,
    }
}

/// The op code of a gateway document.
pub fn document_op(doc: &Json) -> (r: Option<u8>)
    ensures
        r == op_of(*doc),
{
    match doc.get("op") {
        Some(op) => match op.as_u64() {
            Some(op) => {
                if op <= 255 {
                    Some(op as u8)
                } else {
                    None
                }
            },
            None => None,
        },
        None => None,
    }
}

/// The sequence number that a gateway document carries: the integer under
/// `s`, where it is one of 64 bits.
pub open spec fn sequence_of(doc: Json) -> Option<i64> {
    match doc.int_field("s"@) {
        Some(s) if i64::MIN <= s <= i64::MAX => Some(s as i64),
        _ => None,
    }
}

/// The sequence number that a gateway document carries.
pub fn document_sequence(doc: &Json) -> (r: Option<i64>)
    ensures
        r == sequence_of(*doc),
{
    match doc.get("s") {
        Some(s) => s.as_i64(),
        None => None,
    }
}

/// The sequence number to remember after a document has been seen: the one
/// that the document carries, or else the one remembered so far.
pub open spec fn sequence_after(current: Option<i64>, doc: Option<Json>) -> Option<i64> {
    match doc {
        Some(doc) => match sequence_of(doc) {
            Some(s) => Some(s),
            None => current,
        },
        None => current,
    }
}

/// The sequence number to remember after all of `docs` have been seen, one
/// after the other.
pub open spec fn sequence_after_all(current: Option<i64>, docs: Seq<Option<Json>>) -> Option<i64>
    decreases docs.len(),
{
    if docs.len() == 0 {
        current
    } else {
        sequence_after(sequence_after_all(current, docs.drop_last()), docs.last())
    }
}

/// Sequence tracking: what is remembered is the number seen last, not the
/// greatest. After a run of documents of which the last carries a number,
/// that number is remembered, whatever came before it.
pub proof fn lemma_last_sequence_wins(current: Option<i64>, docs: Seq<Option<Json>>, s: i64)
    requires
        docs.len() > 0,
        docs.last().is_some(),
        sequence_of(docs.last().unwrap()) == Some(s),
    ensures
        sequence_after_all(current, docs) == Some(s),
{
}

/// Takes note of the sequence number of a parsed frame.
pub fn observe_document(current: Option<i64>, doc: &Option<Json>) -> (r: Option<i64>)
    ensures
        r == sequence_after(current, *doc),
{
    match doc {
        Some(doc) => match document_sequence(doc) {
            Some(s) => Some(s),
            None => current,
        },
        None => current,
    }
}

/// Takes note of the sequence number of an inbound frame.
pub fn observe_sequence(current: Option<i64>, frame: &Frame) -> (r: Option<i64>)
    ensures
        r == sequence_after(current, frame_document(*frame)),
{
    let doc = read_frame(frame);
    observe_document(current, &doc)
}

/// Whether a parsed frame asks for a heartbeat at once.
pub fn document_requests_heartbeat(doc: &Option<Json>) -> (r: bool)
    ensures
        r == (doc.is_some() && op_of(doc.unwrap()) == Some(DISCORD_HEARTBEAT_OP)),
{
    match doc {
        Some(doc) => document_op(doc) == Some(DISCORD_HEARTBEAT_OP),
        None => false,
    }
}

/// Whether an inbound frame asks for a heartbeat at once.
pub fn is_heartbeat_request(frame: &Frame) -> (r: bool)
    ensures
        r == (frame_document(*frame).is_some() && op_of(frame_document(*frame).unwrap()) == Some(
            DISCORD_HEARTBEAT_OP,
        )),
{
    let doc = read_frame(frame);
    document_requests_heartbeat(&doc)
}

/// The heartbeat interval that a hello announces: the document has op code
/// 10 and, in `d`, a `heartbeat_interval` that is an integer of 64 bits
/// without sign.
pub open spec fn hello_of(doc: Json) -> Option<u64> {
    if op_of(doc) == Some(10u8) {
        match doc.field("d"@) {
            Some(d) => match d.int_field("heartbeat_interval"@) {
                Some(interval) if 0 <= interval <= u64::MAX => Some(interval as u64),
                _ => None,
            },
            None => None,
        }
    } else {
        None
    }
}

/// The heartbeat interval that a hello announces; `None` for a document
/// that is no hello.
pub fn hello_interval(doc: &Json) -> (r: Option<u64>)
    ensures
        r == hello_of(*doc),
{
    if document_op(doc) != Some(10u8) {
        return None;
    }
    match doc.get("d") {
        Some(d) => match d.get("heartbeat_interval") {
            Some(interval) => interval.as_u64(),
            None => None,
        },
        None => None,
    }
}

/// How far the handshake with Discord has come.
#[derive(Clone, Copy, Debug, PartialEq, Eq, Structural)]
pub enum Handshake {
    /// Nothing has arrived yet: the first frame has to be the hello.
    AwaitHello,
    /// The hello has arrived and the bridge has identified itself: the next
    /// frame has to accept it.
    AwaitReady { interval: u64 },
    /// The session is usable. `interval` is what the hello announced.
    Ready { interval: u64 },
    /// The gateway did not keep to the protocol.
    Failed,
}

/// The state after the next inbound document, `None` standing for a frame
/// without one or for the end of the stream. A hello leads from the start
/// to the wait for acceptance, a document with op code 0 from there to the
/// usable session; anything else fails the handshake. A usable or failed
/// session stays as it is.
pub open spec fn handshake_after(state: Handshake, doc: Option<Json>) -> Handshake {
    match state {
        Handshake::AwaitHello => match doc {
            Some(doc) => match hello_of(doc) {
                Some(interval) => Handshake::AwaitReady { interval },
                None => Handshake::Failed,
            },
            None => Handshake::Failed,
        },
        Handshake::AwaitReady { interval } => match doc {
            Some(doc) => if op_of(doc) == Some(0u8) {
                Handshake::Ready { interval }
            } else {
                Handshake::Failed
            },
            None => Handshake::Failed,
        },
        Handshake::Ready { interval } => Handshake::Ready { interval },
        Handshake::Failed => Handshake::Failed,
    }
}

/// Whether a step of the handshake sends the identify frame: it does when
/// it takes the hello.
pub open spec fn identifies(state: Handshake, doc: Option<Json>) -> bool {
    state == Handshake::AwaitHello && doc.is_some() && hello_of(doc.unwrap()).is_some()
}

/// One step of the handshake on a parsed frame: the next state, and the
/// frame to send, if any.
pub fn handshake_step(state: Handshake, doc: &Option<Json>, auth: &str) -> (r: (
    Handshake,
    Option<Frame>,
))
    ensures
        r.0 == handshake_after(state, *doc),
        r.1.is_some() == identifies(state, *doc),
        r.1.is_some() ==> r.1.unwrap().text() == Some(identify_text(auth@)),
{
    match state {
        Handshake::AwaitHello => match doc {
            Some(doc) => match hello_interval(doc) {
                Some(interval) => (Handshake::AwaitReady { interval }, Some(identify_frame(auth))),
                None => (Handshake::Failed, None),
            },
            None => (Handshake::Failed, None),
        },
        Handshake::AwaitReady { interval } => match doc {
            Some(doc) => {
                if document_op(doc) == Some(0u8) {
                    (Handshake::Ready { interval }, None)
                } else {
                    (Handshake::Failed, None)
                }
            },
            None => (Handshake::Failed, None),
        },
        Handshake::Ready { interval } => (Handshake::Ready { interval }, None),
        Handshake::Failed => (Handshake::Failed, None),
    }
}

/// The document of the next inbound event of the handshake: that of the
/// frame, and none where the stream has ended.
pub open spec fn event_document(event: Option<Frame>) -> Option<Json> {
    match event {
        Some(frame) => frame_document(frame),
        None => None,
    }
}

/// One step of the handshake with Discord. `event` is the next inbound
/// frame, or `None` where the stream has ended.
pub fn discord_websocket(state: Handshake, event: Option<&Frame>, auth: &str) -> (r: (
    Handshake,
    Option<Frame>,
))
    ensures
        r.0 == handshake_after(state, event_document(unref(event))),
        r.1.is_some() == identifies(state, event_document(unref(event))),
        r.1.is_some() ==> r.1.unwrap().text() == Some(identify_text(auth@)),
{
    let doc = match event {
        Some(frame) => read_frame(frame),
        None => None,
    };
    handshake_step(state, &doc, auth)
}

/// The frame behind an optional reference.
pub open spec fn unref(event: Option<&Frame>) -> Option<Frame> {
    match event {
        Some(frame) => Some(*frame),
        None => None,
    }
}

/// The error of a handshake that failed.
pub fn handshake_error() -> (r: ErrorBox)
    ensures
        r@ == "Didn't get Hello message from discord gateway"@,
{
    errorbox("Didn't get Hello message from discord gateway")
}

/// What can happen to a session.
#[derive(Debug, PartialEq, Eq)]
pub enum SessionEvent {
    /// A frame came in.
    Inbound(Frame),
    /// Reading failed.
    InboundFailed,
    /// The gateway closed the stream.
    InboundEnded,
    /// A frame is to go out.
    Outbound(Frame),
    /// Every sender of outbound frames is gone.
    OutboundClosed,
    /// The frame that came in could not be handed to the hub.
    PublishFailed,
    /// The frame that was to go out could not be written.
    WriteFailed,
}

/// What a session does next.
#[derive(Debug, PartialEq, Eq)]
pub enum SessionAction {
    /// Hand the frame to the hub.
    Publish(Frame),
    /// Write the frame to the gateway.
    Write(Frame),
    /// Give up the whole process, with these words.
    Fatal(ErrorBox),
}

/// The words with which a session gives up on an event; `None` for an
/// event that it can go on from.
pub open spec fn fatal_words(event: SessionEvent) -> Option<Seq<char>> {
    match event {
        SessionEvent::Inbound(_) => None,
        SessionEvent::Outbound(_) => None,
        SessionEvent::InboundFailed => Some("Died while incoming_msg"@),
        SessionEvent::InboundEnded => Some("Died while incoming_msg of uselessness"@),
        SessionEvent::OutboundClosed => Some("Died while send_msg of uselessness"@),
        SessionEvent::PublishFailed => Some("Died while msg_out"@),
        SessionEvent::WriteFailed => Some("Died while send_msg"@),
    }
}

/// One step of a session's loop. A frame that came in goes to the hub, a
/// frame that is to go out goes to the gateway, each as it is; every
/// failure and every end of a stream is fatal.
pub fn my_ws_task(event: SessionEvent) -> (r: SessionAction)
    ensures
        match r {
            SessionAction::Publish(frame) => event == SessionEvent::Inbound(frame),
            SessionAction::Write(frame) => event == SessionEvent::Outbound(frame),
            SessionAction::Fatal(error) => fatal_words(event) == Some(error@),
        },
{
    match event {
        SessionEvent::Inbound(frame) => SessionAction::Publish(frame),
        SessionEvent::Outbound(frame) => SessionAction::Write(frame),
        SessionEvent::InboundFailed => SessionAction::Fatal(errorbox("Died while incoming_msg")),
        SessionEvent::InboundEnded => SessionAction::Fatal(
            errorbox("Died while incoming_msg of uselessness"),
        ),
        SessionEvent::OutboundClosed => SessionAction::Fatal(
            errorbox("Died while send_msg of uselessness"),
        ),
        SessionEvent::PublishFailed => SessionAction::Fatal(errorbox("Died while msg_out")),
        SessionEvent::WriteFailed => SessionAction::Fatal(errorbox("Died while send_msg")),
    }
}

/// What a heartbeat supervisor is told.
#[derive(Clone, Copy, Debug, PartialEq, Eq, Structural)]
pub enum Beat {
    /// The supervisor has just been started.
    Start,
    /// The wait is over.
    Slept,
    /// The heartbeat has been handed to the session.
    Sent,
    /// The session did not take the heartbeat.
    Failed,
    /// The gateway has asked for a heartbeat at once.
    Requested,
}

/// What a heartbeat supervisor does next.
#[derive(Debug, PartialEq, Eq)]
pub enum BeatAction {
    /// Wait for so many milliseconds.
    Sleep { millis: u64 },
    /// Send this heartbeat.
    Send(Frame),
    /// Give up the whole process, with these words.
    Fatal(ErrorBox),
}

/// One step of the supervisor of the Discord session. It waits for 95% of
/// the announced interval, sends a heartbeat with the sequence number seen
/// last, and waits again; a request of the gateway is answered at once. A
/// heartbeat that the session does not take is fatal.
pub fn discord_heartbeat(beat: Beat, interval: u64, sequence: Option<i64>) -> (r: BeatAction)
    ensures
        match beat {
            Beat::Start | Beat::Sent => r == (BeatAction::Sleep {
                millis: heartbeat_delay_of(interval),
            }),
            Beat::Slept | Beat::Requested => r is Send && r->Send_0.text() == Some(
                heartbeat_text(sequence),
            ),
            Beat::Failed => r is Fatal && r->Fatal_0@ == "Discord heartbeat died"@,
        },
{
    match beat {
        Beat::Start | Beat::Sent => BeatAction::Sleep { millis: heartbeat_delay(interval) },
        Beat::Slept | Beat::Requested => BeatAction::Send(make_discord_heartbeat(sequence)),
        Beat::Failed => BeatAction::Fatal(errorbox("Discord heartbeat died")),
    }
}

/// One step of the supervisor of the Guilded session. It sends a heartbeat
/// first and then one every 24 seconds. A heartbeat that the session does
/// not take is fatal.
pub fn guilded_heartbeat_step(beat: Beat) -> (r: BeatAction)
    ensures
        match beat {
            Beat::Sent => r == (BeatAction::Sleep { millis: 24000 }),
            Beat::Start | Beat::Slept | Beat::Requested => r is Send && r->Send_0.text() == Some(
                GUILDED_HEARTBEAT@,
            ),
            Beat::Failed => r is Fatal && r->Fatal_0@ == "Guilded heartbeat died"@,
        },
{
    match beat {
        Beat::Sent => BeatAction::Sleep { millis: GUILDED_HEARTBEAT_SECS * 1000 },
        Beat::Start | Beat::Slept | Beat::Requested => BeatAction::Send(guilded_heartbeat()),
        Beat::Failed => BeatAction::Fatal(errorbox("Guilded heartbeat died")),
    }
}

} // verus!
