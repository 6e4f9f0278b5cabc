//! What a transport does with a message of a client.
//!
//! The transports read texts: a WebSocket its text frames, a Unix socket and the standard input of
//! a plugin their lines. Each text is tried as a control message, then as an input packet, then as
//! a feedback packet. The functions here take what the text was read as, and decide.
use vstd::prelude::*;
use vstd::string::StringExecFns;

use crate::error::AppError;
use crate::feedback::FeedbackEventPacket;
use crate::input::io_server::{
    default_settings, wants, ClientControlMessage, ClientNode, ClientSettings, IoInboundMessage,
    SettingsView, TopicView,
};
use crate::input::InputEventPacket;
use crate::json::{json_array, strings_to_json};
use crate::text::{
    all_whitespace, blank_texts_are_whitespace, decimal, decimal_text, join_text, lemma_decimal,
    lower_case_letters, lower_is, lower_text, number_of, same_text, split_text, split_undoes_join,
    strings, trim, trim_end, trim_end_text, trim_text, trimming_removes_the_ends, whitespace,
};

verus! {

/// The transports that read lines.
#[derive(Debug, Clone, Copy, PartialEq, Eq, Structural)]
pub enum LineTransport {
    UnixSocket,
    Stdio,
}

/// The texts to read a line as.
#[derive(Debug)]
pub struct LineTexts {
    /// The text that may be a control message.
    pub control: String,
    /// The text that may be a packet.
    pub packet: String,
}

/// What a text was read as.
#[derive(Debug)]
pub struct ParsedText {
    /// The `type` of the text, if it is an object that has one.
    pub kind: Option<String>,
    /// The rest of that object as a control message, if it is one.
    pub control: Option<ClientControlMessage>,
    /// The text as an input packet, if it is one.
    pub input: Option<InputEventPacket>,
    /// The text as a feedback packet, if it is one.
    pub feedback: Option<FeedbackEventPacket>,
}

/// What a text is.
pub enum Reading {
    Command(ClientControlMessage),
    /// A control message that makes no sense.
    BadCommand,
    Input(InputEventPacket),
    Feedback(FeedbackEventPacket),
    /// Nothing of this kind.
    Unreadable,
}

/// What a transport does next.
#[derive(Debug)]
pub enum Action {
    Nothing,
    /// Hands a message on to the server.
    Forward(IoInboundMessage),
    /// Sends a text to the client.
    Reply(String),
    /// Reports an error to the client.
    Reject(AppError),
    /// Answers a ping.
    Pong,
    /// Ends the connection.
    Close,
}

/// A frame of a WebSocket connection.
#[derive(Debug)]
pub enum Frame {
    Text(ParsedText),
    Binary,
    Ping,
    Pong,
    Close,
    /// The connection failed.
    Failed,
}

/// What a text is. A control message goes before an input packet, and that before a feedback
/// packet.
pub open spec fn reading(parsed: ParsedText) -> Reading {
    if parsed.kind matches Some(kind) && kind@ == "control"@ {
        match parsed.control {
            Some(msg) => Reading::Command(msg),
            None => Reading::BadCommand,
        }
    } else {
        match (parsed.input, parsed.feedback) {
            (Some(packet), _) => Reading::Input(packet),
            (None, Some(packet)) => Reading::Feedback(packet),
            (None, None) => Reading::Unreadable,
        }
    }
}

/// What a text is.
fn read(parsed: ParsedText) -> (r: Reading)
    ensures
        r == reading(parsed),
{
    let is_control = match &parsed.kind {
        Some(kind) => same_text(kind.as_str(), "control"),
        None => false,
    };
    if is_control {
        match parsed.control {
            Some(msg) => Reading::Command(msg),
            None => Reading::BadCommand,
        }
    } else {
        match parsed.input {
            Some(packet) => Reading::Input(packet),
            None => match parsed.feedback {
                Some(packet) => Reading::Feedback(packet),
                None => Reading::Unreadable,
            },
        }
    }
}

/// The message for the server that a text of a client holds, if it holds one. Listing the streams
/// is left to the transport.
pub open spec fn inbound_message(client_id: String, parsed: ParsedText) -> Option<
    IoInboundMessage,
> {
    match reading(parsed) {
        Reading::Command(msg) => if msg is ListStreams {
            None
        } else {
            Some(IoInboundMessage::Control { client_id, msg })
        },
        Reading::BadCommand => None,
        Reading::Input(packet) => Some(IoInboundMessage::Input { client_id, packet }),
        Reading::Feedback(packet) => Some(IoInboundMessage::Feedback { client_id, packet }),
        Reading::Unreadable => None,
    }
}

/// The text of the error for a line that cannot be read.
pub open spec fn unreadable_text(transport: LineTransport) -> Seq<char> {
    match transport {
        LineTransport::UnixSocket =>
            "Message was not a valid InputEventPacket, FeedbackEventPacket, or control envelope"@,
        LineTransport::Stdio => "Message was not a valid InputEventPacket or FeedbackEventPacket"@,
    }
}

/// Whether a line is passed over: there is nothing but whitespace in it.
pub open spec fn blank(line: Seq<char>) -> bool {
    trim_text(line).len() == 0
}

/// Whether these are the texts to read a line as: none if the line is blank. A Unix socket reads
/// control messages without the whitespace at both ends of the line, and packets as they are. A
/// plugin's line loses what is at its end in any case.
pub open spec fn are_line_texts(
    transport: LineTransport,
    line: Seq<char>,
    r: Option<LineTexts>,
) -> bool {
    match transport {
        LineTransport::UnixSocket => {
            &&& r is None <==> blank(line)
            &&& r matches Some(t) ==> t.control@ == trim_text(line) && t.packet@ == line
        },
        LineTransport::Stdio => {
            &&& r is None <==> blank(trim_end_text(line))
            &&& r matches Some(t) ==> t.control@ == trim_end_text(line) && t.packet@
                == trim_end_text(line)
        },
    }
}

/// The texts to read a line as, unless it is blank. A Unix socket reads control messages without
/// the whitespace at both ends of the line; a plugin's line loses what is at its end in any case.
pub fn line_texts(transport: LineTransport, line: &str) -> (r: Option<LineTexts>)
    ensures
        are_line_texts(transport, line@, r),
{
    match transport {
        LineTransport::UnixSocket => {
            let control = trim(line);
            if control.as_str().unicode_len() == 0 {
                None
            } else {
                Some(LineTexts { control, packet: line.to_owned() })
            }
        },
        LineTransport::Stdio => {
            let text = trim_end(line);
            if trim(text.as_str()).as_str().unicode_len() == 0 {
                None
            } else {
                Some(LineTexts { control: text.clone(), packet: text })
            }
        },
    }
}

/// Whether an action is what a transport does on a line. A line that holds a message for the server
/// is handed on. The streams are not listed over these transports.
pub open spec fn is_line_action(
    transport: LineTransport,
    client_id: String,
    parsed: ParsedText,
    action: Action,
) -> bool {
    match reading(parsed) {
        Reading::BadCommand => action matches Action::Reject(AppError::Parse(text)) && text@
            == "Failed to parse control command"@,
        Reading::Unreadable => action matches Action::Reject(AppError::Parse(text)) && text@
            == unreadable_text(transport),
        _ => match inbound_message(client_id, parsed) {
            Some(message) => action == Action::Forward(message),
            None => action is Nothing,
        },
    }
}

/// Decides on a line.
pub fn handle_line(
    transport: LineTransport,
    client_id: String,
    parsed: ParsedText,
) -> (r: Action)
    ensures
        is_line_action(transport, client_id, parsed, r),
{
    match read(parsed) {
        Reading::Command(ClientControlMessage::ListStreams) => Action::Nothing,
        Reading::Command(msg) => Action::Forward(IoInboundMessage::Control { client_id, msg }),
        Reading::BadCommand => Action::Reject(
            AppError::Parse("Failed to parse control command".to_owned()),
        ),
        Reading::Input(packet) => Action::Forward(IoInboundMessage::Input { client_id, packet }),
        Reading::Feedback(packet) => Action::Forward(
            IoInboundMessage::Feedback { client_id, packet },
        ),
        Reading::Unreadable => Action::Reject(
            AppError::Parse(
                match transport {
                    LineTransport::UnixSocket =>
                        "Message was not a valid InputEventPacket, FeedbackEventPacket, or control envelope".to_owned(),
                    LineTransport::Stdio =>
                        "Message was not a valid InputEventPacket or FeedbackEventPacket".to_owned(),
                },
            ),
        ),
    }
}

/// The reply that lists the streams.
pub open spec fn streams_text(streams: Seq<Seq<char>>) -> Seq<char> {
    "{\"streams\":"@ + json_array(streams) + ",\"type\":\"streams\"}"@
}

/// The reply that lists the streams.
pub fn streams_reply(streams: &Vec<String>) -> (r: String)
    ensures
        r@ == streams_text(strings(streams@)),
{
    let mut r = "{\"streams\":".to_owned();
    match strings_to_json(streams) {
        Ok(array) => {
            r.append(array.as_str());
        },
        Err(_) => {},
    }
    r.append(",\"type\":\"streams\"}");
    r
}

/// Whether an action is what a WebSocket connection does on a frame, while the server lists these
/// streams. A text that holds a message for the server is handed on, and one that cannot be read is
/// passed over.
pub open spec fn is_frame_action(
    client_id: String,
    frame: Frame,
    streams: Seq<Seq<char>>,
    action: Action,
) -> bool {
    match frame {
        Frame::Text(parsed) => match reading(parsed) {
            Reading::BadCommand => action matches Action::Reject(AppError::Parse(text)) && text@
                == "Failed to parse control command"@,
            Reading::Unreadable => action is Nothing,
            _ => match inbound_message(client_id, parsed) {
                Some(message) => action == Action::Forward(message),
                None => action matches Action::Reply(text) && text@ == streams_text(
                    streams,
                ),
            },
        },
        Frame::Binary => action is Nothing,
        Frame::Ping => action is Pong,
        Frame::Pong => action is Nothing,
        Frame::Close => action is Close,
        Frame::Failed => action is Close,
    }
}

/// Decides on a frame of a WebSocket connection. `streams` are the streams that the server lists.
/// A text that cannot be read is passed over.
pub fn handle_websocket_message(
    client_id: String,
    frame: Frame,
    streams: &Vec<String>,
) -> (r: Action)
    ensures
        is_frame_action(client_id, frame, strings(streams@), r),
{
    match frame {
        Frame::Text(parsed) => match read(parsed) {
            Reading::Command(ClientControlMessage::ListStreams) => Action::Reply(
                streams_reply(streams),
            ),
            Reading::Command(msg) => Action::Forward(IoInboundMessage::Control { client_id, msg }),
            Reading::BadCommand => Action::Reject(
                AppError::Parse("Failed to parse control command".to_owned()),
            ),
            Reading::Input(packet) => Action::Forward(
                IoInboundMessage::Input { client_id, packet },
            ),
            Reading::Feedback(packet) => Action::Forward(
                IoInboundMessage::Feedback { client_id, packet },
            ),
            Reading::Unreadable => Action::Nothing,
        },
        Frame::Binary => Action::Nothing,
        Frame::Ping => Action::Pong,
        Frame::Pong => Action::Nothing,
        Frame::Close => Action::Close,
        Frame::Failed => Action::Close,
    }
}

/// Whether a header or parameter says yes.
pub open spec fn says_yes(value: Option<&str>) -> bool {
    value matches Some(text) && (lower_text(text@) == "true"@ || lower_text(text@) == "1"@
        || lower_text(text@) == "yes"@)
}

/// Whether a header or parameter says yes.
fn yes(value: Option<&str>) -> (r: bool)
    ensures
        r == says_yes(value),
{
    match value {
        Some(text) => lower_is(text, "true") || lower_is(text, "1") || lower_is(text, "yes"),
        None => false,
    }
}

/// Whether a WebSocket client asks to be write-only, in the header or in the query.
pub open spec fn asks_write_only(header: Option<&str>, query: Option<&str>) -> bool {
    says_yes(header) || says_yes(query)
}

/// Whether a WebSocket client is write-only: the header `X-Backflow-Write-Only` or the query
/// parameter `write_only` says yes.
pub fn is_write_only(header: Option<&str>, query: Option<&str>) -> (r: bool)
    ensures
        r == asks_write_only(header, query),
{
    yes(header) || yes(query)
}

/// The settings of the client of a new WebSocket connection.
pub open spec fn websocket_settings(is_write_only: bool) -> SettingsView {
    SettingsView { write_only: is_write_only, ..default_settings() }
}

/// The client of a new WebSocket connection.
pub fn websocket_client(id: String, is_write_only: bool) -> (r: ClientNode)
    ensures
        r.id == id,
        r.client_settings@ == websocket_settings(is_write_only),
{
    let mut client_settings = ClientSettings::default();
    client_settings.write_only = is_write_only;
    ClientNode { id, client_settings }
}

/// The client of a new line connection.
pub fn line_client(id: String) -> (r: ClientNode)
    ensures
        r.id == id,
        r.client_settings@ == default_settings(),
{
    ClientNode { id, client_settings: ClientSettings::default() }
}

/// The name of the client on the Unix socket of a process.
pub open spec fn unix_client_name(process: u32) -> Seq<char> {
    "unix_socket_"@ + decimal_text(process as nat)
}

/// The name of the client on the Unix socket, which carries the number of this process. Every
/// connection has this name, so a later one takes the place of an earlier one.
pub fn unix_client_id(process: u32) -> (r: String)
    ensures
        r@ == unix_client_name(process),
{
    let mut r = "unix_socket_".to_owned();
    r.append(decimal(process as u64).as_str());
    r
}

/// The line that carries a message: its JSON, and then a newline.
pub open spec fn line_of(json: Seq<char>) -> Seq<char> {
    json + "\n"@
}

/// The line that carries a message.
pub fn message_line(json: &str) -> (r: String)
    ensures
        r@ == line_of(json@),
{
    let mut r = json.to_owned();
    r.append("\n");
    r
}

/// What is written for a series of messages: the line of each, in order.
pub open spec fn written(messages: Seq<Seq<char>>) -> Seq<char>
    decreases messages.len(),
{
    if messages.len() == 0 {
        Seq::empty()
    } else {
        line_of(messages[0]) + written(messages.drop_first())
    }
}

/// A message that is written comes after all that was written before it.
pub proof fn messages_are_appended(messages: Seq<Seq<char>>, message: Seq<char>)
    ensures
        written(messages.push(message)) == written(messages) + line_of(message),
    decreases messages.len(),
{
    let all = messages.push(message);
    if messages.len() == 0 {
        assert(all.drop_first() =~= Seq::empty());
        assert(written(all.drop_first()) =~= Seq::empty());
        assert(written(all) =~= written(messages) + line_of(message));
    } else {
        messages_are_appended(messages.drop_first(), message);
        assert(all.drop_first() =~= messages.drop_first().push(message));
        assert(written(all) =~= written(messages) + line_of(message));
    }
}

proof fn lemma_written(messages: Seq<Seq<char>>)
    ensures
        written(messages) == join_text(messages.push(Seq::empty()), seq!['\n']),
    decreases messages.len(),
{
    reveal_strlit("\n");
    assert("\n"@ =~= seq!['\n']);
    let parts = messages.push(Seq::empty());
    if messages.len() > 0 {
        lemma_written(messages.drop_first());
        assert(parts.drop_first() =~= messages.drop_first().push(Seq::empty()));
        assert(parts[0] == messages[0]);
    }
}

/// A series of messages is read back as that series: while no message has a newline in it, the
/// lines that are read are the messages, in order, and after the last newline there is nothing.
pub proof fn messages_are_read_back(messages: Seq<Seq<char>>)
    requires
        forall|i: int| 0 <= i < messages.len() ==> !(#[trigger] messages[i]).contains('\n'),
    ensures
        split_text(written(messages), '\n') == messages.push(Seq::empty()),
{
    let parts = messages.push(Seq::empty());
    assert forall|i: int| 0 <= i < parts.len() implies !(#[trigger] parts[i]).contains('\n') by {
        if i < messages.len() {
            assert(parts[i] == messages[i]);
        }
    }
    lemma_written(messages);
    split_undoes_join(parts, '\n');
}

/// What the texts of a client put on the way to the server, in order.
pub open spec fn inbound_messages(client_id: String, texts: Seq<ParsedText>) -> Seq<IoInboundMessage>
    decreases texts.len(),
{
    if texts.len() == 0 {
        Seq::empty()
    } else {
        let before = inbound_messages(client_id, texts.drop_last());
        match inbound_message(client_id, texts.last()) {
            Some(message) => before.push(message),
            None => before,
        }
    }
}

/// Messages reach the server in the order in which their texts came.
pub proof fn texts_keep_their_order(client_id: String, front: Seq<ParsedText>, rest: Seq<ParsedText>)
    ensures
        inbound_messages(client_id, front + rest) == inbound_messages(client_id, front)
            + inbound_messages(client_id, rest),
    decreases rest.len(),
{
    let a = inbound_messages(client_id, front);
    if rest.len() == 0 {
        assert(front + rest =~= front);
        assert(a + Seq::<IoInboundMessage>::empty() =~= a);
    } else {
        texts_keep_their_order(client_id, front, rest.drop_last());
        assert((front + rest).drop_last() =~= front + rest.drop_last());
        assert((front + rest).last() == rest.last());
        let b = inbound_messages(client_id, rest.drop_last());
        match inbound_message(client_id, rest.last()) {
            Some(message) => {
                assert((a + b).push(message) =~= a + b.push(message));
            },
            None => {},
        }
    }
}

/// Each input packet puts exactly one message on the way to the server, under the name of its
/// client, after what came before it and ahead of what comes after it.
pub proof fn input_packets_are_forwarded_once(
    client_id: String,
    front: Seq<ParsedText>,
    text: ParsedText,
    rest: Seq<ParsedText>,
    packet: InputEventPacket,
)
    requires
        reading(text) == Reading::Input(packet),
    ensures
        inbound_messages(client_id, front.push(text) + rest) == inbound_messages(
            client_id,
            front,
        ).push(IoInboundMessage::Input { client_id, packet }) + inbound_messages(client_id, rest),
{
    texts_keep_their_order(client_id, front.push(text), rest);
    assert(front.push(text).drop_last() =~= front);
}

/// A text whose type is `control` is a command or a bad command, whatever else it could be read as.
/// A text of any other type, or of none, is an input packet if it can be read as one, else a feedback
/// packet if it can be read as one, and otherwise unreadable.
pub proof fn control_goes_before_input_and_input_before_feedback(parsed: ParsedText)
    ensures
        ({
            let control = parsed.kind is Some && parsed.kind->0@ == "control"@;
            &&& (reading(parsed) is Command || reading(parsed) is BadCommand) <==> control
            &&& reading(parsed) is Command <==> control && parsed.control is Some
            &&& reading(parsed) is Input <==> !control && parsed.input is Some
            &&& reading(parsed) is Feedback <==> !control && parsed.input is None
                && parsed.feedback is Some
            &&& reading(parsed) is Unreadable <==> !control && parsed.input is None
                && parsed.feedback is None
            &&& reading(parsed) is Command ==> reading(parsed)->Command_0 == parsed.control->0
            &&& reading(parsed) is Input ==> reading(parsed)->Input_0 == parsed.input->0
            &&& reading(parsed) is Feedback ==> reading(parsed)->Feedback_0 == parsed.feedback->0
        }),
{
}

/// What reaches the server from a text is what the text was read as, under the name of the client: a
/// packet or a command, but for the request to list the streams. Nothing else reaches it.
pub proof fn texts_reach_the_server_as_they_are(client_id: String, parsed: ParsedText)
    ensures
        ({
            let r = reading(parsed);
            let message = inbound_message(client_id, parsed);
            &&& r is Input ==> message == Some(
                IoInboundMessage::Input { client_id, packet: parsed.input->0 },
            )
            &&& r is Feedback ==> message == Some(
                IoInboundMessage::Feedback { client_id, packet: parsed.feedback->0 },
            )
            &&& (r is Command && parsed.control->0 !is ListStreams) ==> message == Some(
                IoInboundMessage::Control { client_id, msg: parsed.control->0 },
            )
            &&& (r is Command && parsed.control->0 is ListStreams) ==> message is None
            &&& (r is BadCommand || r is Unreadable) ==> message is None
        }),
{
}

/// A line with a message for the server is handed on, and nothing else is. A line that cannot be read
/// is rejected with a parse error, a request to list the streams is passed over, and a line never
/// ends the connection.
pub proof fn lines_are_handed_on_or_rejected(
    transport: LineTransport,
    client_id: String,
    parsed: ParsedText,
    action: Action,
)
    requires
        is_line_action(transport, client_id, parsed, action),
    ensures
        action is Forward <==> inbound_message(client_id, parsed) is Some,
        action is Forward ==> Some(action->Forward_0) == inbound_message(client_id, parsed),
        action is Reject <==> reading(parsed) is BadCommand || reading(parsed) is Unreadable,
        action is Reject ==> action->Reject_0 is Parse,
        reading(parsed) is BadCommand ==> action->Reject_0->Parse_0@
            == "Failed to parse control command"@,
        reading(parsed) is Unreadable && transport == LineTransport::UnixSocket
            ==> action->Reject_0->Parse_0@
            == "Message was not a valid InputEventPacket, FeedbackEventPacket, or control envelope"@,
        reading(parsed) is Unreadable && transport == LineTransport::Stdio
            ==> action->Reject_0->Parse_0@
            == "Message was not a valid InputEventPacket or FeedbackEventPacket"@,
        action is Nothing <==> reading(parsed) is Command && parsed.control->0 is ListStreams,
{
}

/// A text frame with a message for the server is handed on as a line is. A request to list the
/// streams is answered with them, a bad command is rejected, and a text that cannot be read is passed
/// over.
pub proof fn text_frames(
    client_id: String,
    parsed: ParsedText,
    streams: Seq<Seq<char>>,
    action: Action,
)
    requires
        is_frame_action(client_id, Frame::Text(parsed), streams, action),
    ensures
        action is Forward <==> inbound_message(client_id, parsed) is Some,
        action is Forward ==> Some(action->Forward_0) == inbound_message(client_id, parsed),
        action is Reply <==> reading(parsed) is Command && parsed.control->0 is ListStreams,
        action is Reply ==> action->Reply_0@ == streams_text(streams),
        action is Reject <==> reading(parsed) is BadCommand,
        action is Reject ==> action->Reject_0 is Parse && action->Reject_0->Parse_0@
            == "Failed to parse control command"@,
        action is Nothing <==> reading(parsed) is Unreadable,
{
}

/// A ping is answered, the end or the failure of a connection closes it, and binary frames and pongs
/// are passed over.
pub proof fn other_frames(
    client_id: String,
    frame: Frame,
    streams: Seq<Seq<char>>,
    action: Action,
)
    requires
        is_frame_action(client_id, frame, streams, action),
    ensures
        action is Pong <==> frame is Ping,
        action is Close <==> frame is Close || frame is Failed,
        frame is Binary || frame is Pong ==> action is Nothing,
{
}

/// A line is passed over exactly if there is nothing but whitespace in it.
pub proof fn blank_lines_are_passed_over(
    transport: LineTransport,
    line: Seq<char>,
    r: Option<LineTexts>,
)
    requires
        are_line_texts(transport, line, r),
    ensures
        r is None <==> all_whitespace(line),
{
    blank_texts_are_whitespace(line);
    blank_texts_are_whitespace(trim_end_text(line));
    lemma_end_is_blank(line);
}

proof fn lemma_end_is_blank(s: Seq<char>)
    ensures
        all_whitespace(trim_end_text(s)) <==> all_whitespace(s),
    decreases s.len(),
{
    if s.len() > 0 && whitespace(s.last()) {
        let front = s.drop_last();
        lemma_end_is_blank(front);
        if all_whitespace(front) {
            assert forall|i: int| 0 <= i < s.len() implies whitespace(#[trigger] s[i]) by {
                if i < front.len() {
                    assert(s[i] == front[i]);
                }
            }
        }
        if all_whitespace(s) {
            assert forall|i: int| 0 <= i < front.len() implies whitespace(#[trigger] front[i]) by {
                assert(front[i] == s[i]);
            }
        }
    }
}

/// On a Unix socket a control message is what is between the whitespace at the ends of the line, and
/// a packet is the line. A plugin's line keeps all but the whitespace at its end, for both.
pub proof fn lines_lose_their_ends(
    transport: LineTransport,
    front: Seq<char>,
    core: Seq<char>,
    back: Seq<char>,
    r: Option<LineTexts>,
)
    requires
        all_whitespace(front),
        all_whitespace(back),
        core.len() > 0,
        !whitespace(core[0]),
        !whitespace(core.last()),
        are_line_texts(transport, front + core + back, r),
    ensures
        r is Some,
        transport == LineTransport::UnixSocket ==> r->0.control@ == core && r->0.packet@ == front
            + core + back,
        transport == LineTransport::Stdio ==> r->0.control@ == front + core && r->0.packet@ == front
            + core,
{
    trimming_removes_the_ends(front, core, back);
    trimming_removes_the_ends(front, core, Seq::empty());
    assert(front + core + Seq::<char>::empty() =~= front + core);
}

/// The reply that lists the streams is an object with the array of the streams and its type, so that
/// lists with different arrays have different replies.
pub proof fn stream_replies_hold_the_list(a: Seq<Seq<char>>, b: Seq<Seq<char>>)
    ensures
        "{\"streams\":"@.is_prefix_of(streams_text(a)),
        ",\"type\":\"streams\"}"@.is_suffix_of(streams_text(a)),
        streams_text(a).len() == "{\"streams\":"@.len() + json_array(a).len()
            + ",\"type\":\"streams\"}"@.len(),
        streams_text(a) == streams_text(b) ==> json_array(a) == json_array(b),
{
    let start = "{\"streams\":"@;
    let end = ",\"type\":\"streams\"}"@;
    assert(start =~= streams_text(a).subrange(0, start.len() as int));
    assert(end =~= streams_text(a).subrange(
        streams_text(a).len() - end.len(),
        streams_text(a).len() as int,
    ));
    assert(streams_text(a).subrange(start.len() as int, streams_text(a).len() - end.len())
        =~= json_array(a));
    assert(streams_text(b).subrange(start.len() as int, streams_text(b).len() - end.len())
        =~= json_array(b));
}

/// Whether a text is a word, where letters may be of either case.
pub open spec fn spells(text: Seq<char>, word: Seq<char>) -> bool {
    text.len() == word.len() && forall|i: int|
        0 <= i < text.len() ==> #[trigger] text[i] == word[i] || ('a' as int <= word[i] as int
            <= 'z' as int && text[i] as int == word[i] as int - 32)
}

proof fn lemma_spells(text: Seq<char>, word: Seq<char>)
    requires
        forall|i: int|
            0 <= i < word.len() ==> !('A' as int <= (#[trigger] word[i]) as int <= 'Z' as int),
    ensures
        lower_text(text) == word <==> spells(text, word),
{
    if lower_text(text) == word {
        assert forall|i: int| 0 <= i < text.len() implies #[trigger] text[i] == word[i] || (
        'a' as int <= word[i] as int <= 'z' as int && text[i] as int == word[i] as int - 32) by {
            lower_case_letters(text, i);
            assert(lower_text(text)[i] == word[i]);
        }
        if text.len() > 0 {
            lower_case_letters(text, 0);
        }
    }
    if spells(text, word) {
        assert forall|i: int| 0 <= i < text.len() implies #[trigger] lower_text(text)[i]
            == word[i] by {
            lower_case_letters(text, i);
            assert(text[i] == word[i] || ('a' as int <= word[i] as int <= 'z' as int && text[i] as int
                == word[i] as int - 32));
            assert(!('A' as int <= word[i] as int <= 'Z' as int));
            if text[i] != word[i] {
                assert(lower_text(text)[i] as int == word[i] as int);
            }
        }
        assert(lower_text(text) =~= word);
    }
}

/// A client is write-only exactly if the header or the parameter is `true`, `1` or `yes`, in letters
/// of either case. One of them is enough, and one that is missing or says anything else does not
/// count.
pub proof fn write_only_words(text: &str, other: Option<&str>)
    ensures
        ({
            let yes = spells(text@, "true"@) || spells(text@, "1"@) || spells(text@, "yes"@);
            &&& asks_write_only(Some(text), None) <==> yes
            &&& asks_write_only(None, Some(text)) <==> yes
            &&& yes ==> asks_write_only(Some(text), other) && asks_write_only(other, Some(text))
            &&& !yes ==> asks_write_only(Some(text), other) == asks_write_only(None, other)
            &&& !asks_write_only(None, None)
        }),
{
    reveal_strlit("true");
    reveal_strlit("1");
    reveal_strlit("yes");
    lemma_spells(text@, "true"@);
    lemma_spells(text@, "1"@);
    lemma_spells(text@, "yes"@);
}

/// A new WebSocket client gets no input, and all feedback unless it is write-only.
pub proof fn new_clients_get_feedback_only(is_write_only: bool, name: Seq<char>)
    ensures
        wants(websocket_settings(is_write_only), TopicView::Feedback(name)) == !is_write_only,
        !wants(websocket_settings(is_write_only), TopicView::Stream(name)),
        !wants(websocket_settings(is_write_only), TopicView::Device(name)),
        websocket_settings(is_write_only).feedback.len() == 0,
        websocket_settings(is_write_only).input.len() == 0,
        websocket_settings(is_write_only).streams.len() == 0,
        websocket_settings(is_write_only).write_only == is_write_only,
        websocket_settings(false) == default_settings(),
{
}

/// Two processes have different names for their clients.
pub proof fn processes_have_their_own_names(a: u32, b: u32)
    ensures
        "unix_socket_"@.is_prefix_of(unix_client_name(a)),
        unix_client_name(a) == unix_client_name(b) ==> a == b,
        number_of(unix_client_name(a).skip("unix_socket_"@.len() as int)) == a,
{
    let start = "unix_socket_"@;
    assert(start =~= unix_client_name(a).subrange(0, start.len() as int));
    assert(unix_client_name(a).skip(start.len() as int) =~= decimal_text(a as nat));
    assert(unix_client_name(b).skip(start.len() as int) =~= decimal_text(b as nat));
    lemma_decimal(a as nat);
    lemma_decimal(b as nat);
}

/// The line of a message is the message with a newline behind it, and nothing else is changed.
pub proof fn lines_end_in_a_newline(json: Seq<char>)
    ensures
        line_of(json).len() == json.len() + 1,
        line_of(json).drop_last() == json,
        line_of(json).last() == '\n',
{
    reveal_strlit("\n");
    assert(line_of(json).drop_last() =~= json);
}

} // verus!
