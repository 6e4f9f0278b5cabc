//! The hub that all clients talk to.
//!
//! Messages of every transport (WebSocket, Unix socket, plugin) come in here in one form. The
//! server
//!
//! - hands input packets on in order, client by client,
//! - sends feedback on to the clients that listen for it,
//! - keeps what each client is subscribed to, and changes it on request,
//! - tells which clients an input packet is mirrored to.
//!
//! A *stream* is a name that a client can register for; the routing uses the names of outputs as
//! stream names. A client that has registered a stream gets the packets of its streams. Any other
//! client gets the packets of the devices that it listens for, and an empty list means none of
//! them. Feedback is the other way round: an empty list means every device. A write-only client
//! gets no feedback and no packets of streams; the devices that it listens for are not affected.
use vstd::prelude::*;
use vstd::string::{StrSliceExecFns, StringExecFns};
use std::sync::Arc;

use crate::config::AppConfig;
use crate::error::{code_text, AppError, ClientFacingError};
use crate::feedback::{FeedbackEventPacket, FeedbackView};
use crate::input::atomic::{after_packet, late, AtomicInputProcessor};
use crate::input::{InputEventPacket, PacketView};
use crate::table::Table;
use crate::text::{
    clone_strings, distinct, ends_with, first_occurrences, first_occurrences_are_distinct, holds,
    insert_ordered, listed_texts, occurrences_keep_their_order, ordered, same_strings, same_texts,
    strings,
};

verus! {

/// A client, with what it is subscribed to.
#[derive(Debug)]
pub struct ClientNode {
    pub id: String,
    pub client_settings: ClientSettings,
}

/// What a client is subscribed to.
#[derive(Debug, PartialEq)]
pub struct ClientSettings {
    /// The devices that the client wants feedback of. When empty, it wants that of all.
    pub feedback_listener_device_ids: Vec<String>,
    /// The devices that the client wants the input of. When empty, it wants none.
    pub input_listener_device_ids: Vec<String>,
    /// The streams that the client has registered for. When it has, devices do not count for
    /// input.
    pub registered_stream_ids: Vec<String>,
    /// Whether the client gets no feedback and no packets of streams.
    pub write_only: bool,
}

/// What the settings of a client hold.
pub struct SettingsView {
    pub feedback: Seq<Seq<char>>,
    pub input: Seq<Seq<char>>,
    pub streams: Seq<Seq<char>>,
    pub write_only: bool,
}

impl View for ClientSettings {
    type V = SettingsView;

    open spec fn view(&self) -> SettingsView {
        SettingsView {
            feedback: strings(self.feedback_listener_device_ids@),
            input: strings(self.input_listener_device_ids@),
            streams: strings(self.registered_stream_ids@),
            write_only: self.write_only,
        }
    }
}

impl Clone for ClientSettings {
    fn clone(&self) -> (r: Self)
        ensures
            r@ == self@,
    {
        ClientSettings {
            feedback_listener_device_ids: clone_strings(&self.feedback_listener_device_ids),
            input_listener_device_ids: clone_strings(&self.input_listener_device_ids),
            registered_stream_ids: clone_strings(&self.registered_stream_ids),
            write_only: self.write_only,
        }
    }
}

/// The settings of a client that has asked for nothing.
pub open spec fn default_settings() -> SettingsView {
    SettingsView {
        feedback: Seq::empty(),
        input: Seq::empty(),
        streams: Seq::empty(),
        write_only: false,
    }
}

impl Default for ClientSettings {
    fn default() -> (r: Self)
        ensures
            r@ == default_settings(),
    {
        let r = ClientSettings {
            feedback_listener_device_ids: Vec::new(),
            input_listener_device_ids: Vec::new(),
            registered_stream_ids: Vec::new(),
            write_only: false,
        };
        assert(strings(r.feedback_listener_device_ids@) =~= Seq::empty());
        assert(strings(r.input_listener_device_ids@) =~= Seq::empty());
        assert(strings(r.registered_stream_ids@) =~= Seq::empty());
        r
    }
}

/// What a client asks of the server.
#[derive(Debug, PartialEq)]
pub enum ClientControlMessage {
    /// No more feedback. The client is write-only from then on, so it gets no packets of streams
    /// either, until it sets a feedback filter. Input by device goes on.
    StopFeedback,
    /// No more input, neither by device nor by stream.
    StopInput,
    /// Input of these devices, in place of those before.
    UpdateInputDIDFilter { devices: Vec<String> },
    /// Feedback of these devices, in place of those before. A write-only client no longer is.
    UpdateFeedbackDIDFilter { devices: Vec<String> },
    /// Input of these streams, in place of those before. A name that occurs again is ignored.
    UpdateStreamRegistration { streams: Vec<String> },
    /// The streams that any client has registered for.
    ListStreams,
    /// The configuration.
    GetConfig,
}

/// What a control message holds.
pub enum ControlView {
    StopFeedback,
    StopInput,
    InputFilter(Seq<Seq<char>>),
    FeedbackFilter(Seq<Seq<char>>),
    Streams(Seq<Seq<char>>),
    ListStreams,
    GetConfig,
}

impl View for ClientControlMessage {
    type V = ControlView;

    open spec fn view(&self) -> ControlView {
        match self {
            ClientControlMessage::StopFeedback => ControlView::StopFeedback,
            ClientControlMessage::StopInput => ControlView::StopInput,
            ClientControlMessage::UpdateInputDIDFilter { devices } => ControlView::InputFilter(
                strings(devices@),
            ),
            ClientControlMessage::UpdateFeedbackDIDFilter { devices } => ControlView::FeedbackFilter(
                strings(devices@),
            ),
            ClientControlMessage::UpdateStreamRegistration { streams } => ControlView::Streams(
                strings(streams@),
            ),
            ClientControlMessage::ListStreams => ControlView::ListStreams,
            ClientControlMessage::GetConfig => ControlView::GetConfig,
        }
    }
}

/// A message from a client.
#[derive(Debug)]
pub enum IoInboundMessage {
    Input { client_id: String, packet: InputEventPacket },
    Feedback { client_id: String, packet: FeedbackEventPacket },
    Control { client_id: String, msg: ClientControlMessage },
}

/// What the server hands on to the routing.
#[derive(Debug)]
pub enum IoOutboundMessage {
    /// An input packet, in order.
    Input(InputEventPacket),
    /// A feedback packet, which has gone to the clients already.
    Feedback(FeedbackEventPacket),
}

/// An error, as a client gets it.
#[derive(Debug, PartialEq)]
pub struct IoErrorPacket {
    pub code: String,
    pub message: String,
    /// The message that could not be read, if there is one.
    pub raw: Option<String>,
}

/// The answer to a control message.
#[derive(Debug, PartialEq)]
pub struct ControlAckPacket {
    pub cmd: String,
    /// The devices of a new filter.
    pub devices: Option<Vec<String>>,
    /// The streams that the client is registered for now.
    pub registered_streams: Option<Vec<String>>,
}

/// A message to a client.
#[derive(Debug)]
pub enum IoClientMessage {
    Feedback(FeedbackEventPacket),
    Input(InputEventPacket),
    Error(IoErrorPacket),
    ControlAck(ControlAckPacket),
    Config(Arc<AppConfig>),
}

/// The text that an option holds.
pub open spec fn opt_text(t: Option<String>) -> Option<Seq<char>> {
    match t {
        Some(s) => Some(s@),
        None => None,
    }
}

/// The texts of a list that an option holds.
pub open spec fn opt_texts(l: Option<Vec<String>>) -> Option<Seq<Seq<char>>> {
    match l {
        Some(v) => Some(strings(v@)),
        None => None,
    }
}

/// What a message to a client holds.
pub enum MessageView {
    Feedback(FeedbackView),
    Input(PacketView),
    Error { code: Seq<char>, message: Seq<char>, raw: Option<Seq<char>> },
    ControlAck {
        cmd: Seq<char>,
        devices: Option<Seq<Seq<char>>>,
        registered_streams: Option<Seq<Seq<char>>>,
    },
    Config(AppConfig),
}

impl View for IoClientMessage {
    type V = MessageView;

    open spec fn view(&self) -> MessageView {
        match self {
            IoClientMessage::Feedback(packet) => MessageView::Feedback(packet@),
            IoClientMessage::Input(packet) => MessageView::Input(packet@),
            IoClientMessage::Error(e) => MessageView::Error {
                code: e.code@,
                message: e.message@,
                raw: opt_text(e.raw),
            },
            IoClientMessage::ControlAck(ack) => MessageView::ControlAck {
                cmd: ack.cmd@,
                devices: opt_texts(ack.devices),
                registered_streams: opt_texts(ack.registered_streams),
            },
            IoClientMessage::Config(config) => MessageView::Config(**config),
        }
    }
}

/// The `type` that a message carries on the wire, beside its `data`. Feedback carries none: its
/// packet goes out bare.
pub open spec fn wire_type(message: MessageView) -> Option<Seq<char>> {
    match message {
        MessageView::Feedback(_) => None,
        MessageView::Input(_) => Some("Input"@),
        MessageView::Error { .. } => Some("Error"@),
        MessageView::ControlAck { .. } => Some("control_ack"@),
        MessageView::Config(_) => Some("config"@),
    }
}

impl IoClientMessage {
    /// The `type` that the message carries on the wire.
    pub fn wire_type(&self) -> (r: Option<&'static str>)
        ensures
            match r {
                Some(t) => wire_type(self@) == Some(t@),
                None => wire_type(self@) is None,
            },
    {
        match self {
            IoClientMessage::Feedback(_) => None,
            IoClientMessage::Input(_) => Some("Input"),
            IoClientMessage::Error(_) => Some("Error"),
            IoClientMessage::ControlAck(_) => Some("control_ack"),
            IoClientMessage::Config(_) => Some("config"),
        }
    }
}

impl Clone for IoClientMessage {
    fn clone(&self) -> (r: Self)
        ensures
            r@ == self@,
    {
        match self {
            IoClientMessage::Feedback(packet) => IoClientMessage::Feedback(packet.clone()),
            IoClientMessage::Input(packet) => IoClientMessage::Input(packet.clone()),
            IoClientMessage::Error(e) => IoClientMessage::Error(
                IoErrorPacket {
                    code: e.code.clone(),
                    message: e.message.clone(),
                    raw: match &e.raw {
                        Some(t) => Some(t.clone()),
                        None => None,
                    },
                },
            ),
            IoClientMessage::ControlAck(ack) => IoClientMessage::ControlAck(
                ControlAckPacket {
                    cmd: ack.cmd.clone(),
                    devices: match &ack.devices {
                        Some(l) => Some(clone_strings(l)),
                        None => None,
                    },
                    registered_streams: match &ack.registered_streams {
                        Some(l) => Some(clone_strings(l)),
                        None => None,
                    },
                },
            ),
            IoClientMessage::Config(config) => IoClientMessage::Config(config.clone()),
        }
    }
}

/// A message, and the client that it goes to.
#[derive(Debug)]
pub struct Delivery {
    pub client_id: String,
    pub message: IoClientMessage,
}

/// The clients of some deliveries.
pub open spec fn recipients(deliveries: Seq<Delivery>) -> Seq<Seq<char>> {
    Seq::new(deliveries.len(), |i: int| deliveries[i].client_id@)
}

/// What a packet is about, for deciding who gets it.
#[derive(Debug)]
pub enum Topic {
    /// Feedback about a device.
    Feedback(String),
    /// Input on a stream.
    Stream(String),
    /// Input of a device.
    Device(String),
}

/// What a topic holds.
pub enum TopicView {
    Feedback(Seq<char>),
    Stream(Seq<char>),
    Device(Seq<char>),
}

impl View for Topic {
    type V = TopicView;

    open spec fn view(&self) -> TopicView {
        match self {
            Topic::Feedback(device) => TopicView::Feedback(device@),
            Topic::Stream(stream) => TopicView::Stream(stream@),
            Topic::Device(device) => TopicView::Device(device@),
        }
    }
}

/// Whether a client with these settings gets a packet.
pub open spec fn wants(settings: SettingsView, topic: TopicView) -> bool {
    match topic {
        TopicView::Feedback(device) => !settings.write_only && (settings.feedback.len() == 0
            || settings.feedback.contains(device)),
        TopicView::Stream(stream) => !settings.write_only && settings.streams.contains(stream),
        TopicView::Device(device) => settings.streams.len() == 0 && settings.input.contains(device),
    }
}

/// Whether the deliveries carry a message to every client that wants the topic, once, and to no
/// other.
pub open spec fn delivers(
    deliveries: Seq<Delivery>,
    clients: Map<Seq<char>, SettingsView>,
    topic: TopicView,
    message: MessageView,
) -> bool {
    &&& recipients(deliveries).no_duplicates()
    &&& forall|id: Seq<char>| #[trigger]
        recipients(deliveries).contains(id) <==> (clients.contains_key(id) && wants(
            clients[id],
            topic,
        ))
    &&& forall|i: int| 0 <= i < deliveries.len() ==> (#[trigger] deliveries[i]).message@ == message
}

/// The settings of a client after it has sent a control message.
pub open spec fn controlled(settings: SettingsView, msg: ControlView) -> SettingsView {
    match msg {
        ControlView::StopFeedback => SettingsView {
            feedback: Seq::empty(),
            write_only: true,
            ..settings
        },
        ControlView::StopInput => SettingsView {
            input: Seq::empty(),
            streams: Seq::empty(),
            ..settings
        },
        ControlView::InputFilter(devices) => SettingsView { input: devices, ..settings },
        ControlView::FeedbackFilter(devices) => SettingsView {
            feedback: devices,
            write_only: false,
            ..settings
        },
        ControlView::Streams(streams) => SettingsView {
            streams: first_occurrences(streams),
            ..settings
        },
        ControlView::ListStreams => settings,
        ControlView::GetConfig => settings,
    }
}

/// The answer to a control message, if it has one.
pub open spec fn answer_to(msg: ControlView, config: AppConfig) -> Option<MessageView> {
    match msg {
        ControlView::StopFeedback => Some(
            MessageView::ControlAck {
                cmd: "stop_feedback"@,
                devices: None,
                registered_streams: None,
            },
        ),
        ControlView::StopInput => Some(
            MessageView::ControlAck {
                cmd: "stop_input"@,
                devices: None,
                registered_streams: None,
            },
        ),
        ControlView::InputFilter(devices) => Some(
            MessageView::ControlAck {
                cmd: "update_input_did_filter"@,
                devices: Some(devices),
                registered_streams: None,
            },
        ),
        ControlView::FeedbackFilter(devices) => Some(
            MessageView::ControlAck {
                cmd: "update_feedback_did_filter"@,
                devices: Some(devices),
                registered_streams: None,
            },
        ),
        ControlView::Streams(streams) => Some(
            MessageView::ControlAck {
                cmd: "update_stream_registration"@,
                devices: None,
                registered_streams: Some(first_occurrences(streams)),
            },
        ),
        ControlView::ListStreams => None,
        ControlView::GetConfig => Some(MessageView::Config(config)),
    }
}

/// Whether some client has registered for a stream.
pub open spec fn registered(clients: Map<Seq<char>, SettingsView>, stream: Seq<char>) -> bool {
    exists|id: Seq<char>| clients.contains_key(id) && (#[trigger] clients[id]).streams.contains(
        stream,
    )
}

/// The name of a source: the device and the client that sends for it.
pub open spec fn tagged(device_id: Seq<char>, client_id: Seq<char>) -> Seq<char> {
    device_id + "@"@ + client_id
}

/// What the state of the server is.
pub struct ServerView {
    /// The timestamp of the newest input packet of each source.
    pub newest: Map<Seq<char>, u64>,
    /// The settings of each client.
    pub clients: Map<Seq<char>, SettingsView>,
    pub config: AppConfig,
}

/// The server.
#[derive(Debug)]
pub struct IoEventServer {
    pub atomic_processor: AtomicInputProcessor,
    pub clients: Table<ClientSettings>,
    pub app_config: Arc<AppConfig>,
}

/// What becomes of a message from a client.
#[derive(Debug)]
pub struct Handled {
    /// What goes to the routing.
    pub outbound: Option<IoOutboundMessage>,
    /// What goes to clients.
    pub deliveries: Vec<Delivery>,
}

impl View for IoEventServer {
    type V = ServerView;

    open spec fn view(&self) -> ServerView {
        ServerView {
            newest: self.atomic_processor@,
            clients: self.clients@.map_values(|s: ClientSettings| s@),
            config: *self.app_config,
        }
    }
}

/// Whether a delivery reports an error to a client, if the client is known.
pub open spec fn reports(
    clients: Map<Seq<char>, SettingsView>,
    client_id: Seq<char>,
    code: Seq<char>,
    message: Seq<char>,
    raw: Option<Seq<char>>,
    r: Option<Delivery>,
) -> bool {
    &&& r is Some <==> clients.contains_key(client_id)
    &&& r matches Some(d) ==> d.client_id@ == client_id && d.message@ == (MessageView::Error {
        code,
        message,
        raw,
    })
}

/// The server once it has taken a client up.
pub open spec fn with_client(server: ServerView, client: ClientNode) -> ServerView {
    ServerView {
        clients: server.clients.insert(client.id@, client.client_settings@),
        ..server
    }
}

/// What becomes of the server when it takes a message, and what comes of it. An input packet goes to
/// the routing unless it comes too late. Feedback goes to the clients that want it, and on. A control
/// message changes the settings of its client, and has its answer.
pub open spec fn handles(
    before: ServerView,
    msg: IoInboundMessage,
    after: ServerView,
    r: Handled,
) -> bool {
    match msg {
        IoInboundMessage::Input { client_id, packet } => {
            let source = tagged(packet.device_id@, client_id@);
            &&& after == (ServerView {
                newest: after_packet(before.newest, source, packet.timestamp),
                ..before
            })
            &&& r.deliveries@.len() == 0
            &&& if late(before.newest, source, packet.timestamp) {
                r.outbound is None
            } else {
                r.outbound matches Some(IoOutboundMessage::Input(p)) && p@ == packet@
            }
        },
        IoInboundMessage::Feedback { client_id, packet } => {
            &&& after == before
            &&& r.outbound matches Some(IoOutboundMessage::Feedback(p)) && p@ == packet@
            &&& delivers(
                r.deliveries@,
                before.clients,
                TopicView::Feedback(packet.device_id@),
                MessageView::Feedback(packet@),
            )
        },
        IoInboundMessage::Control { client_id, msg } => {
            let clients = before.clients;
            &&& r.outbound is None
            &&& after == (ServerView {
                clients: if clients.contains_key(client_id@) {
                    clients.insert(client_id@, controlled(clients[client_id@], msg@))
                } else {
                    clients
                },
                ..before
            })
            &&& if clients.contains_key(client_id@) && answer_to(msg@, before.config)
                is Some {
                &&& r.deliveries@.len() == 1
                &&& r.deliveries@[0].client_id@ == client_id@
                &&& r.deliveries@[0].message@ == answer_to(msg@, before.config)->0
            } else {
                r.deliveries@.len() == 0
            }
        },
    }
}

/// Restores a device from the name of its source.
pub open spec fn untagged(source: Seq<char>, client_id: Seq<char>) -> Seq<char> {
    let suffix = "@"@ + client_id;
    if suffix.is_suffix_of(source) {
        source.take(source.len() - suffix.len())
    } else {
        source
    }
}

fn tag(device_id: &str, client_id: &str) -> (r: String)
    ensures
        r@ == tagged(device_id@, client_id@),
{
    let mut r = device_id.to_owned();
    r.append("@");
    r.append(client_id);
    r
}

fn untag(source: &str, client_id: &str) -> (r: String)
    ensures
        r@ == untagged(source@, client_id@),
{
    let mut suffix = "@".to_owned();
    suffix.append(client_id);
    if ends_with(source, suffix.as_str()) {
        let n: usize = source.unicode_len();
        let k: usize = suffix.as_str().unicode_len();
        let front = source.substring_char(0, n - k);
        assert(front@ =~= source@.take(source@.len() - suffix@.len()));
        front.to_owned()
    } else {
        source.to_owned()
    }
}

impl IoEventServer {
    /// A server without clients, for the default configuration.
    pub fn new() -> (r: Self)
        ensures
            r@.newest == Map::<Seq<char>, u64>::empty(),
            r@.clients == Map::<Seq<char>, SettingsView>::empty(),
            r@.config.is_default(),
    {
        Self::with_config(Arc::new(AppConfig::default()))
    }

    /// A server without clients.
    pub fn with_config(config: Arc<AppConfig>) -> (r: Self)
        ensures
            r@.newest == Map::<Seq<char>, u64>::empty(),
            r@.clients == Map::<Seq<char>, SettingsView>::empty(),
            r@.config == *config,
    {
        let r = IoEventServer {
            atomic_processor: AtomicInputProcessor::new(),
            clients: Table::new(),
            app_config: config,
        };
        assert(r@.clients =~= Map::<Seq<char>, SettingsView>::empty());
        r
    }

    /// Takes a client up, in place of the one with the same name.
    pub fn register_client(&mut self, client: ClientNode)
        ensures
            final(self)@ == with_client(old(self)@, client),
    {
        let ghost before = self@;
        let ghost id = client.id@;
        let ghost settings = client.client_settings@;
        self.clients.insert(client.id, client.client_settings);
        assert(self@.clients =~= before.clients.insert(id, settings));
    }

    /// The number of clients.
    pub fn client_count(&self) -> (n: usize)
        ensures
            n == self@.clients.dom().len(),
    {
        let n: usize = self.clients.len();
        assert(self@.clients.dom() =~= self.clients@.dom());
        n
    }

    /// Takes an input packet of a client, and gives it back for the routing unless it comes too
    /// late. Packets are put in order source by source: the same device of two clients is two
    /// sources.
    pub fn handle_input_packet(
        &mut self,
        client_id: &str,
        packet: InputEventPacket,
    ) -> (r: Option<IoOutboundMessage>)
        ensures
            final(self)@ == (ServerView {
                newest: after_packet(
                    old(self)@.newest,
                    tagged(packet.device_id@, client_id@),
                    packet.timestamp,
                ),
                ..old(self)@
            }),
            late(old(self)@.newest, tagged(packet.device_id@, client_id@), packet.timestamp)
                ==> r is None,
            !late(old(self)@.newest, tagged(packet.device_id@, client_id@), packet.timestamp) ==> (
            r matches Some(IoOutboundMessage::Input(p)) && p@ == packet@),
    {
        let source = tag(packet.device_id.as_str(), client_id);
        let ghost device = packet.device_id@;
        let sent = InputEventPacket {
            device_id: source,
            timestamp: packet.timestamp,
            events: packet.events,
        };
        match self.atomic_processor.process_packet(sent) {
            Some(p) => {
                let device_id = untag(p.device_id.as_str(), client_id);
                proof {
                    untag_undoes_tag(device, client_id@);
                }
                Some(
                    IoOutboundMessage::Input(
                        InputEventPacket { device_id, timestamp: p.timestamp, events: p.events },
                    ),
                )
            },
            None => None,
        }
    }

    /// The clients that get a packet.
    fn subscribers(&self, topic: &Topic) -> (r: Vec<String>)
        ensures
            strings(r@).no_duplicates(),
            forall|id: Seq<char>| #[trigger]
                strings(r@).contains(id) <==> (self@.clients.contains_key(id) && wants(
                    self@.clients[id],
                    topic@,
                )),
    {
        let mut r: Vec<String> = Vec::new();
        let n: usize = self.clients.len();
        let ghost names = self.clients.names();
        let ghost clients = self@.clients;
        assert(strings(r@) =~= Seq::empty());
        for i in 0..n
            invariant
                n == names.len(),
                names == self.clients.names(),
                names.no_duplicates(),
                clients == self@.clients,
                clients.dom() == names.to_set(),
                strings(r@).no_duplicates(),
                forall|id: Seq<char>| #[trigger]
                    strings(r@).contains(id) <==> (exists|j: int|
                        0 <= j < i && #[trigger] names[j] == id) && wants(clients[id], topic@),
        {
            let name = self.clients.name_at(i);
            let settings = self.clients.value_at(i);
            let ghost before = strings(r@);
            assert(clients[name@] == settings@);
            if settings.wants(topic) {
                r.push(name.clone());
                assert(strings(r@) =~= before.push(name@));
                proof {
                    if before.contains(name@) {
                        let j = choose|j: int| 0 <= j < i && #[trigger] names[j] == name@;
                        assert(names[j] == names[i as int]);
                    }
                }
            }
            assert forall|id: Seq<char>| #[trigger]
                strings(r@).contains(id) <==> (exists|j: int|
                    0 <= j < i + 1 && #[trigger] names[j] == id) && wants(clients[id], topic@) by {
                assert(names[i as int] == name@);
                if before.contains(id) {
                    let k = before.index_of(id);
                    assert(strings(r@)[k] == id);
                    let j = choose|j: int| 0 <= j < i && #[trigger] names[j] == id;
                    assert(names[j] == id);
                }
                if strings(r@).contains(id) {
                    let k = strings(r@).index_of(id);
                    if k < before.len() {
                        assert(before[k] == id);
                    }
                }
                if settings@ == clients[name@] && wants(settings@, topic@) {
                    assert(strings(r@)[before.len() as int] == name@);
                }
            }
        }
        assert forall|id: Seq<char>| #[trigger]
            strings(r@).contains(id) <==> (clients.contains_key(id) && wants(clients[id], topic@)) by {
            assert(clients.contains_key(id) <==> names.contains(id));
            if names.contains(id) {
                assert(names[names.index_of(id)] == id);
            }
        }
        r
    }

    /// Sends a message to every client that wants the topic.
    pub fn broadcast(&self, topic: &Topic, message: &IoClientMessage) -> (r: Vec<Delivery>)
        ensures
            delivers(r@, self@.clients, topic@, message@),
    {
        let to = self.subscribers(topic);
        let mut r: Vec<Delivery> = Vec::new();
        for i in 0..to.len()
            invariant
                r@.len() == i,
                forall|j: int|
                    0 <= j < i ==> (#[trigger] r@[j]).client_id@ == to@[j]@ && r@[j].message@
                        == message@,
        {
            r.push(Delivery { client_id: to[i].clone(), message: message.clone() });
        }
        assert(recipients(r@) =~= strings(to@));
        r
    }

    /// Takes a feedback packet of a client: it goes to the routing, and to every client that
    /// listens for feedback of the device.
    pub fn handle_feedback_packet(&self, packet: FeedbackEventPacket) -> (r: Handled)
        ensures
            r.outbound matches Some(IoOutboundMessage::Feedback(p)) && p@ == packet@,
            delivers(
                r.deliveries@,
                self@.clients,
                TopicView::Feedback(packet.device_id@),
                MessageView::Feedback(packet@),
            ),
    {
        let topic = Topic::Feedback(packet.device_id.clone());
        let deliveries = self.broadcast(&topic, &IoClientMessage::Feedback(packet.clone()));
        Handled { outbound: Some(IoOutboundMessage::Feedback(packet)), deliveries }
    }

    /// Mirrors an input packet to the clients that have registered for a stream.
    pub fn broadcast_stream_input(&self, stream_id: &str, packet: &InputEventPacket) -> (r: Vec<
        Delivery,
    >)
        ensures
            delivers(
                r@,
                self@.clients,
                TopicView::Stream(stream_id@),
                MessageView::Input(packet@),
            ),
    {
        self.broadcast(
            &Topic::Stream(stream_id.to_owned()),
            &IoClientMessage::Input(packet.clone()),
        )
    }

    /// Mirrors an input packet to the clients that listen for its device.
    pub fn broadcast_device_input(&self, packet: &InputEventPacket) -> (r: Vec<Delivery>)
        ensures
            delivers(
                r@,
                self@.clients,
                TopicView::Device(packet.device_id@),
                MessageView::Input(packet@),
            ),
    {
        self.broadcast(
            &Topic::Device(packet.device_id.clone()),
            &IoClientMessage::Input(packet.clone()),
        )
    }

    /// Takes a control message of a client: its settings change, and it may get an answer. A
    /// message of an unknown client changes nothing.
    pub fn handle_control_message(
        &mut self,
        client_id: &str,
        msg: ClientControlMessage,
    ) -> (r: Option<Delivery>)
        ensures
            !old(self)@.clients.contains_key(client_id@) ==> r is None && final(self)@ == old(
                self,
            )@,
            old(self)@.clients.contains_key(client_id@) ==> {
                &&& final(self)@ == (ServerView {
                    clients: old(self)@.clients.insert(
                        client_id@,
                        controlled(old(self)@.clients[client_id@], msg@),
                    ),
                    ..old(self)@
                })
                &&& match answer_to(msg@, old(self)@.config) {
                    Some(answer) => r matches Some(d) && d.client_id@ == client_id@ && d.message@
                        == answer,
                    None => r is None,
                }
            },
    {
        let settings = match self.clients.get(client_id) {
            Some(settings) => settings.clone(),
            None => {
                return None;
            },
        };
        let ghost before = self@;
        let ghost old_settings = settings@;
        let mut settings = settings;
        let message = settings.control(msg, &self.app_config);
        self.clients.insert(client_id.to_owned(), settings);
        assert(self@.clients =~= before.clients.insert(client_id@, controlled(old_settings, msg@)));
        match message {
            Some(message) => Some(Delivery { client_id: client_id.to_owned(), message }),
            None => None,
        }
    }

    /// Reports an error to a client, if it is known.
    pub fn send_app_error(&self, client_id: &str, error: AppError) -> (r: Option<Delivery>)
        ensures
            reports(
                self@.clients,
                client_id@,
                code_text(error.kind_of()),
                error.message_text(),
                None,
                r,
            ),
    {
        self.dispatch_client_error(client_id, ClientFacingError::from(error))
    }

    /// Reports an error to a client, if it is known.
    pub fn dispatch_client_error(
        &self,
        client_id: &str,
        error: ClientFacingError,
    ) -> (r: Option<Delivery>)
        ensures
            reports(
                self@.clients,
                client_id@,
                error.code@,
                error.message@,
                opt_text(error.raw),
                r,
            ),
    {
        if self.clients.contains_key(client_id) {
            Some(
                Delivery {
                    client_id: client_id.to_owned(),
                    message: IoClientMessage::Error(
                        IoErrorPacket { code: error.code, message: error.message, raw: error.raw },
                    ),
                },
            )
        } else {
            None
        }
    }

    /// The streams that any client has registered for, in order, each once.
    pub fn list_stream_ids(&self) -> (r: Vec<String>)
        ensures
            ordered(strings(r@)),
            forall|t: Seq<char>| #[trigger]
                strings(r@).contains(t) <==> registered(self@.clients, t),
    {
        let mut r: Vec<String> = Vec::new();
        let n: usize = self.clients.len();
        let ghost names = self.clients.names();
        let ghost clients = self@.clients;
        assert(strings(r@) =~= Seq::empty());
        for i in 0..n
            invariant
                n == names.len(),
                names == self.clients.names(),
                clients == self@.clients,
                clients.dom() == names.to_set(),
                ordered(strings(r@)),
                forall|t: Seq<char>| #[trigger]
                    strings(r@).contains(t) <==> exists|j: int|
                        0 <= j < i && clients[#[trigger] names[j]].streams.contains(t),
        {
            let settings = self.clients.value_at(i);
            let ghost before = strings(r@);
            assert(names.contains(names[i as int]));
            assert(clients[names[i as int]] == settings@);
            insert_all(&mut r, &settings.registered_stream_ids);
            assert forall|t: Seq<char>| #[trigger]
                strings(r@).contains(t) <==> exists|j: int|
                    0 <= j < i + 1 && clients[#[trigger] names[j]].streams.contains(t) by {
                if before.contains(t) {
                    let j = choose|j: int|
                        0 <= j < i && clients[#[trigger] names[j]].streams.contains(t);
                    assert(clients[names[j]].streams.contains(t));
                }
                if settings@.streams.contains(t) {
                    assert(clients[names[i as int]].streams.contains(t));
                }
            }
        }
        assert forall|t: Seq<char>| #[trigger]
            strings(r@).contains(t) <==> registered(clients, t) by {
            if strings(r@).contains(t) {
                let j = choose|j: int|
                    0 <= j < n && clients[#[trigger] names[j]].streams.contains(t);
                assert(names.contains(names[j]));
                assert(clients.contains_key(names[j]));
            }
            if registered(clients, t) {
                let id = choose|id: Seq<char>|
                    clients.contains_key(id) && (#[trigger] clients[id]).streams.contains(t);
                assert(names.contains(id));
                let j = names.index_of(id);
                assert(clients[names[j]].streams.contains(t));
            }
        }
        r
    }

    /// Takes a message of a client.
    pub fn handle(&mut self, msg: IoInboundMessage) -> (r: Handled)
        ensures
            handles(old(self)@, msg, final(self)@, r),
    {
        match msg {
            IoInboundMessage::Input { client_id, packet } => {
                let outbound = self.handle_input_packet(client_id.as_str(), packet);
                Handled { outbound, deliveries: Vec::new() }
            },
            IoInboundMessage::Feedback { client_id: _, packet } => self.handle_feedback_packet(
                packet,
            ),
            IoInboundMessage::Control { client_id, msg } => {
                let mut deliveries: Vec<Delivery> = Vec::new();
                match self.handle_control_message(client_id.as_str(), msg) {
                    Some(delivery) => {
                        deliveries.push(delivery);
                    },
                    None => {},
                }
                Handled { outbound: None, deliveries }
            },
        }
    }
}

/// Puts the texts of a list into an ordered one.
fn insert_all(into: &mut Vec<String>, list: &Vec<String>)
    requires
        ordered(strings(old(into)@)),
    ensures
        ordered(strings(final(into)@)),
        forall|t: Seq<char>| #[trigger]
            strings(final(into)@).contains(t) <==> (strings(old(into)@).contains(t) || strings(
                list@,
            ).contains(t)),
{
    let ghost before = strings(into@);
    let ghost all = strings(list@);
    for i in 0..list.len()
        invariant
            all == strings(list@),
            before == strings(old(into)@),
            ordered(strings(into@)),
            forall|t: Seq<char>| #[trigger]
                strings(into@).contains(t) <==> (before.contains(t) || exists|j: int|
                    0 <= j < i && #[trigger] all[j] == t),
    {
        let ghost now = strings(into@);
        insert_ordered(into, list[i].clone());
        assert forall|t: Seq<char>| #[trigger]
            strings(into@).contains(t) <==> (before.contains(t) || exists|j: int|
                0 <= j < i + 1 && #[trigger] all[j] == t) by {
            assert(all[i as int] == list@[i as int]@);
            if now.contains(t) && !before.contains(t) {
                let j = choose|j: int| 0 <= j < i && #[trigger] all[j] == t;
                assert(all[j] == t);
            }
        }
    }
    assert forall|t: Seq<char>| #[trigger]
        strings(into@).contains(t) <==> (before.contains(t) || all.contains(t)) by {
        if all.contains(t) {
            assert(all[all.index_of(t)] == t);
        }
    }
}

impl ClientSettings {
    /// Whether a client with these settings gets a packet.
    pub fn wants(&self, topic: &Topic) -> (r: bool)
        ensures
            r == wants(self@, topic@),
    {
        match topic {
            Topic::Feedback(device) => !self.write_only && (
            self.feedback_listener_device_ids.len() == 0 || holds(
                &self.feedback_listener_device_ids,
                device.as_str(),
            )),
            Topic::Stream(stream) => !self.write_only && holds(
                &self.registered_stream_ids,
                stream.as_str(),
            ),
            Topic::Device(device) => self.registered_stream_ids.len() == 0 && holds(
                &self.input_listener_device_ids,
                device.as_str(),
            ),
        }
    }

    /// Does what a control message asks, and gives the answer to it.
    fn control(&mut self, msg: ClientControlMessage, config: &Arc<AppConfig>) -> (r: Option<
        IoClientMessage,
    >)
        ensures
            final(self)@ == controlled(old(self)@, msg@),
            match answer_to(msg@, **config) {
                Some(answer) => r matches Some(m) && m@ == answer,
                None => r is None,
            },
    {
        match msg {
            ClientControlMessage::StopFeedback => {
                self.feedback_listener_device_ids = Vec::new();
                self.write_only = true;
                assert(strings(self.feedback_listener_device_ids@) =~= Seq::empty());
                Some(acknowledge("stop_feedback", None, None))
            },
            ClientControlMessage::StopInput => {
                self.input_listener_device_ids = Vec::new();
                self.registered_stream_ids = Vec::new();
                assert(strings(self.input_listener_device_ids@) =~= Seq::empty());
                assert(strings(self.registered_stream_ids@) =~= Seq::empty());
                Some(acknowledge("stop_input", None, None))
            },
            ClientControlMessage::UpdateInputDIDFilter { devices } => {
                self.input_listener_device_ids = clone_strings(&devices);
                Some(acknowledge("update_input_did_filter", Some(devices), None))
            },
            ClientControlMessage::UpdateFeedbackDIDFilter { devices } => {
                self.feedback_listener_device_ids = clone_strings(&devices);
                self.write_only = false;
                Some(acknowledge("update_feedback_did_filter", Some(devices), None))
            },
            ClientControlMessage::UpdateStreamRegistration { streams } => {
                self.registered_stream_ids = distinct(&streams);
                let now = clone_strings(&self.registered_stream_ids);
                Some(acknowledge("update_stream_registration", None, Some(now)))
            },
            ClientControlMessage::ListStreams => None,
            ClientControlMessage::GetConfig => Some(IoClientMessage::Config(config.clone())),
        }
    }
}

fn acknowledge(
    cmd: &str,
    devices: Option<Vec<String>>,
    registered_streams: Option<Vec<String>>,
) -> (r: IoClientMessage)
    ensures
        r@ == (MessageView::ControlAck {
            cmd: cmd@,
            devices: opt_texts(devices),
            registered_streams: opt_texts(registered_streams),
        }),
{
    IoClientMessage::ControlAck(
        ControlAckPacket { cmd: cmd.to_owned(), devices, registered_streams },
    )
}

/// The name of a source gives the device back.
pub proof fn untag_undoes_tag(device_id: Seq<char>, client_id: Seq<char>)
    ensures
        untagged(tagged(device_id, client_id), client_id) == device_id,
{
    let suffix = "@"@ + client_id;
    let source = tagged(device_id, client_id);
    assert(source =~= device_id + suffix);
    assert(suffix.is_suffix_of(source));
    assert(source.take(source.len() - suffix.len()) =~= device_id);
}

/// A write-only client gets no feedback and no packets of streams.
pub proof fn write_only_gets_no_feedback_or_stream(settings: SettingsView, name: Seq<char>)
    requires
        settings.write_only,
    ensures
        !wants(settings, TopicView::Feedback(name)),
        !wants(settings, TopicView::Stream(name)),
{
}

/// A client that has asked for nothing gets all feedback and no input.
pub proof fn input_is_opt_in(name: Seq<char>)
    ensures
        wants(default_settings(), TopicView::Feedback(name)),
        !wants(default_settings(), TopicView::Stream(name)),
        !wants(default_settings(), TopicView::Device(name)),
{
}

/// A client gets no packet twice: one that is registered for any stream does not get packets by
/// their device.
pub proof fn streams_take_precedence(
    settings: SettingsView,
    stream: Seq<char>,
    device: Seq<char>,
)
    ensures
        settings.streams.len() > 0 ==> !wants(settings, TopicView::Device(device)),
        wants(settings, TopicView::Stream(stream)) ==> !wants(settings, TopicView::Device(device)),
{
}

/// After `StopFeedback` a client gets no feedback, until it asks for feedback again. It gets no
/// packets of streams either, since it is write-only; input by device goes on as before.
pub proof fn stop_feedback_stops_feedback(
    settings: SettingsView,
    device: Seq<char>,
    devices: Seq<Seq<char>>,
)
    ensures
        ({
            let stopped = controlled(settings, ControlView::StopFeedback);
            &&& !wants(stopped, TopicView::Feedback(device))
            &&& !wants(stopped, TopicView::Stream(device))
            &&& wants(stopped, TopicView::Device(device)) == wants(
                settings,
                TopicView::Device(device),
            )
            &&& wants(
                controlled(stopped, ControlView::FeedbackFilter(devices)),
                TopicView::Feedback(device),
            ) == (devices.len() == 0 || devices.contains(device))
        }),
{
}

/// After `StopInput` a client gets no input, until it asks for input again.
pub proof fn stop_input_stops_input(
    settings: SettingsView,
    name: Seq<char>,
    devices: Seq<Seq<char>>,
)
    ensures
        ({
            let stopped = controlled(settings, ControlView::StopInput);
            &&& !wants(stopped, TopicView::Device(name))
            &&& !wants(stopped, TopicView::Stream(name))
            &&& wants(
                controlled(stopped, ControlView::InputFilter(devices)),
                TopicView::Device(name),
            ) == devices.contains(name)
        }),
{
}

/// Registration is declarative: the client is registered for the streams of the last list, each
/// once, and no others, and an empty list brings it back to its devices.
pub proof fn registration_is_declarative(
    settings: SettingsView,
    earlier: Seq<Seq<char>>,
    list: Seq<Seq<char>>,
    name: Seq<char>,
)
    ensures
        controlled(controlled(settings, ControlView::Streams(earlier)), ControlView::Streams(list))
            == controlled(settings, ControlView::Streams(list)),
        controlled(settings, ControlView::Streams(list)).streams.no_duplicates(),
        wants(controlled(settings, ControlView::Streams(list)), TopicView::Stream(name)) == (
        !settings.write_only && list.contains(name)),
        list.len() == 0 ==> wants(
            controlled(settings, ControlView::Streams(list)),
            TopicView::Device(name),
        ) == settings.input.contains(name),
{
    first_occurrences_are_distinct(list);
}

/// Asking for the streams or for the configuration changes nothing.
pub proof fn queries_change_nothing(settings: SettingsView)
    ensures
        controlled(settings, ControlView::ListStreams) == settings,
        controlled(settings, ControlView::GetConfig) == settings,
{
}

/// Every client that wants a topic gets the message, and all get the same.
pub proof fn subscribers_get_every_packet(
    deliveries: Seq<Delivery>,
    clients: Map<Seq<char>, SettingsView>,
    topic: TopicView,
    message: MessageView,
    id: Seq<char>,
)
    requires
        delivers(deliveries, clients, topic, message),
        clients.contains_key(id),
        wants(clients[id], topic),
    ensures
        exists|i: int|
            0 <= i < deliveries.len() && (#[trigger] deliveries[i]).client_id@ == id
                && deliveries[i].message@ == message,
{
    let to = recipients(deliveries);
    assert(to.contains(id));
    let i = to.index_of(id);
    assert(deliveries[i].client_id@ == id);
}

/// An input filter takes the place of the one before: afterwards a client without streams gets the
/// input of a device exactly if the list has it, and only the last of two filters counts. What the
/// client gets of feedback and of streams stays as it is.
pub proof fn input_filters_replace(
    settings: SettingsView,
    earlier: Vec<String>,
    devices: Vec<String>,
    name: Seq<char>,
)
    ensures
        ({
            let first = ClientControlMessage::UpdateInputDIDFilter { devices: earlier };
            let last = ClientControlMessage::UpdateInputDIDFilter { devices };
            let after = controlled(settings, last@);
            &&& settings.streams.len() == 0 ==> (wants(after, TopicView::Device(name))
                <==> exists|i: int| 0 <= i < devices@.len() && (#[trigger] devices@[i])@ == name)
            &&& controlled(controlled(settings, first@), last@) == after
            &&& after.input.len() == devices@.len()
            &&& forall|i: int| 0 <= i < devices@.len() ==> #[trigger] after.input[i] == devices@[i]@
            &&& after.feedback == settings.feedback
            &&& after.streams == settings.streams
            &&& after.write_only == settings.write_only
        }),
{
    listed_texts(devices@, name);
    same_strings(devices@, devices@);
}

/// A feedback filter takes the place of the one before, and makes a write-only client one that gets
/// feedback: afterwards it gets that of a device exactly if the list is empty or has it. Only the
/// last of two filters counts. What the client has asked for of input stays as it is.
pub proof fn feedback_filters_replace(
    settings: SettingsView,
    earlier: Vec<String>,
    devices: Vec<String>,
    name: Seq<char>,
)
    ensures
        ({
            let first = ClientControlMessage::UpdateFeedbackDIDFilter { devices: earlier };
            let last = ClientControlMessage::UpdateFeedbackDIDFilter { devices };
            let after = controlled(settings, last@);
            &&& wants(after, TopicView::Feedback(name)) <==> (devices@.len() == 0 || exists|i: int|
                0 <= i < devices@.len() && (#[trigger] devices@[i])@ == name)
            &&& controlled(controlled(settings, first@), last@) == after
            &&& after.feedback.len() == devices@.len()
            &&& forall|i: int|
                0 <= i < devices@.len() ==> #[trigger] after.feedback[i] == devices@[i]@
            &&& after.input == settings.input
            &&& after.streams == settings.streams
        }),
{
    listed_texts(devices@, name);
    same_strings(devices@, devices@);
}

/// A registration leaves the filters as they are, and keeps the order of the list, of which each
/// name counts where it comes first.
pub proof fn registration_keeps_the_rest(
    settings: SettingsView,
    streams: Vec<String>,
    name: Seq<char>,
)
    ensures
        ({
            let msg = ClientControlMessage::UpdateStreamRegistration { streams };
            let after = controlled(settings, msg@);
            let list = strings(streams@);
            &&& after.input == settings.input
            &&& after.feedback == settings.feedback
            &&& after.write_only == settings.write_only
            &&& after.streams.no_duplicates()
            &&& after.streams.contains(name) <==> exists|i: int|
                0 <= i < streams@.len() && (#[trigger] streams@[i])@ == name
            &&& list.no_duplicates() ==> after.streams == list
            &&& controlled(settings, ControlView::Streams(list.push(name))).streams == (
            if after.streams.contains(name) {
                after.streams
            } else {
                after.streams.push(name)
            })
        }),
{
    let list = strings(streams@);
    listed_texts(streams@, name);
    first_occurrences_are_distinct(list);
    occurrences_keep_their_order(list, name);
}

/// Stopping the feedback leaves what the client has asked for of input, and stopping the input
/// leaves what it gets of feedback. To stop a second time changes nothing.
pub proof fn stopping_keeps_the_rest(settings: SettingsView, name: Seq<char>)
    ensures
        ({
            let quiet = controlled(settings, ClientControlMessage::StopFeedback@);
            let idle = controlled(settings, ClientControlMessage::StopInput@);
            &&& quiet.input == settings.input
            &&& quiet.streams == settings.streams
            &&& quiet.write_only
            &&& quiet.feedback.len() == 0
            &&& controlled(quiet, ClientControlMessage::StopFeedback@) == quiet
            &&& idle.feedback == settings.feedback
            &&& idle.write_only == settings.write_only
            &&& idle.input.len() == 0
            &&& idle.streams.len() == 0
            &&& wants(idle, TopicView::Feedback(name)) == wants(settings, TopicView::Feedback(name))
            &&& controlled(idle, ClientControlMessage::StopInput@) == idle
            &&& controlled(settings, ClientControlMessage::ListStreams@) == settings
            &&& controlled(settings, ClientControlMessage::GetConfig@) == settings
        }),
{
}

/// What a client gets, in terms of its settings. Feedback: that of the devices listed, or all when
/// none is, unless it is write-only. Packets of a stream: if it has registered for the stream and is
/// not write-only. Input of a device: if it has registered for no stream and listens for the device.
pub proof fn settings_decide(settings: ClientSettings, name: String)
    ensures
        ({
            let fed = exists|i: int|
                0 <= i < settings.feedback_listener_device_ids@.len() && (
                #[trigger] settings.feedback_listener_device_ids@[i])@ == name@;
            let heard = exists|i: int|
                0 <= i < settings.input_listener_device_ids@.len() && (
                #[trigger] settings.input_listener_device_ids@[i])@ == name@;
            let streamed = exists|i: int|
                0 <= i < settings.registered_stream_ids@.len() && (
                #[trigger] settings.registered_stream_ids@[i])@ == name@;
            &&& settings.write_only ==> !wants(settings@, Topic::Feedback(name)@) && !wants(
                settings@,
                Topic::Stream(name)@,
            )
            &&& !settings.write_only && settings.feedback_listener_device_ids@.len() == 0 ==> wants(
                settings@,
                Topic::Feedback(name)@,
            )
            &&& !settings.write_only && settings.feedback_listener_device_ids@.len() > 0 ==> wants(
                settings@,
                Topic::Feedback(name)@,
            ) == fed
            &&& !settings.write_only ==> wants(settings@, Topic::Stream(name)@) == streamed
            &&& settings.registered_stream_ids@.len() > 0 ==> !wants(
                settings@,
                Topic::Device(name)@,
            )
            &&& settings.registered_stream_ids@.len() == 0 ==> wants(settings@, Topic::Device(name)@)
                == heard
        }),
{
    listed_texts(settings.feedback_listener_device_ids@, name@);
    listed_texts(settings.input_listener_device_ids@, name@);
    listed_texts(settings.registered_stream_ids@, name@);
    same_strings(settings.feedback_listener_device_ids@, settings.feedback_listener_device_ids@);
    same_strings(settings.registered_stream_ids@, settings.registered_stream_ids@);
}

/// A packet goes to a client exactly if the client is known and wants it, in one delivery and no
/// more, which carries the packet itself.
pub proof fn packets_go_where_they_are_wanted(
    deliveries: Seq<Delivery>,
    clients: Map<Seq<char>, SettingsView>,
    topic: TopicView,
    message: MessageView,
    id: Seq<char>,
)
    requires
        delivers(deliveries, clients, topic, message),
    ensures
        (exists|i: int| 0 <= i < deliveries.len() && (#[trigger] deliveries[i]).client_id@ == id)
            <==> (clients.contains_key(id) && wants(clients[id], topic)),
        forall|i: int, j: int|
            0 <= i < j < deliveries.len() ==> (#[trigger] deliveries[i]).client_id@ != (
            #[trigger] deliveries[j]).client_id@,
        forall|i: int| 0 <= i < deliveries.len() ==> (#[trigger] deliveries[i]).message@ == message,
{
    let to = recipients(deliveries);
    if to.contains(id) {
        let i = to.index_of(id);
        assert(deliveries[i].client_id@ == id);
    }
    if exists|i: int| 0 <= i < deliveries.len() && (#[trigger] deliveries[i]).client_id@ == id {
        let i = choose|i: int|
            0 <= i < deliveries.len() && (#[trigger] deliveries[i]).client_id@ == id;
        assert(to[i] == id);
    }
    assert forall|i: int, j: int| 0 <= i < j < deliveries.len() implies (
    #[trigger] deliveries[i]).client_id@ != (#[trigger] deliveries[j]).client_id@ by {
        assert(to[i] != to[j]);
    }
}

/// An answer tells what the client is subscribed to from then on: the devices of its new filter or
/// the streams that it is now registered for. To ask for the configuration gives the configuration,
/// and the list of streams is not answered here.
pub proof fn answers_tell_the_settings(
    settings: SettingsView,
    config: AppConfig,
    devices: Vec<String>,
)
    ensures
        ({
            let input = ClientControlMessage::UpdateInputDIDFilter { devices };
            let feedback = ClientControlMessage::UpdateFeedbackDIDFilter { devices };
            let streams = ClientControlMessage::UpdateStreamRegistration { streams: devices };
            &&& answer_to(input@, config) == Some(
                MessageView::ControlAck {
                    cmd: "update_input_did_filter"@,
                    devices: Some(controlled(settings, input@).input),
                    registered_streams: None,
                },
            )
            &&& answer_to(feedback@, config) == Some(
                MessageView::ControlAck {
                    cmd: "update_feedback_did_filter"@,
                    devices: Some(controlled(settings, feedback@).feedback),
                    registered_streams: None,
                },
            )
            &&& answer_to(streams@, config) == Some(
                MessageView::ControlAck {
                    cmd: "update_stream_registration"@,
                    devices: None,
                    registered_streams: Some(controlled(settings, streams@).streams),
                },
            )
            &&& answer_to(ClientControlMessage::StopFeedback@, config) == Some(
                MessageView::ControlAck {
                    cmd: "stop_feedback"@,
                    devices: None,
                    registered_streams: None,
                },
            )
            &&& answer_to(ClientControlMessage::StopInput@, config) == Some(
                MessageView::ControlAck {
                    cmd: "stop_input"@,
                    devices: None,
                    registered_streams: None,
                },
            )
            &&& answer_to(ClientControlMessage::GetConfig@, config) == Some(
                MessageView::Config(config),
            )
            &&& answer_to(ClientControlMessage::ListStreams@, config) is None
        }),
{
}

/// A stream is listed as soon as one client has registered for it, and only as long as one has.
pub proof fn streams_are_listed_while_registered(
    clients: Map<Seq<char>, SettingsView>,
    id: Seq<char>,
    settings: SettingsView,
    stream: Seq<char>,
)
    ensures
        registered(clients.insert(id, settings), stream) <==> (settings.streams.contains(stream)
            || registered(clients.remove(id), stream)),
        !registered(Map::empty(), stream),
{
    let with = clients.insert(id, settings);
    let without = clients.remove(id);
    if settings.streams.contains(stream) {
        assert(with[id].streams.contains(stream));
    }
    if registered(without, stream) {
        let other = choose|o: Seq<char>|
            without.contains_key(o) && (#[trigger] without[o]).streams.contains(stream);
        assert(with[other].streams.contains(stream));
    }
    if registered(with, stream) {
        let other = choose|o: Seq<char>|
            with.contains_key(o) && (#[trigger] with[o]).streams.contains(stream);
        if other != id {
            assert(without[other].streams.contains(stream));
        }
    }
}

/// Two devices of one client are two sources, and so is one device of two clients.
pub proof fn sources_are_separate(a: Seq<char>, b: Seq<char>, x: Seq<char>, y: Seq<char>)
    ensures
        a != b ==> tagged(a, x) != tagged(b, x),
        x != y ==> tagged(a, x) != tagged(a, y),
{
    untag_undoes_tag(a, x);
    untag_undoes_tag(b, x);
    reveal_strlit("@");
    assert(tagged(a, x).skip(a.len() as int + 1) =~= x);
    assert(tagged(a, y).skip(a.len() as int + 1) =~= y);
}

/// The types on the wire tell the kinds of messages apart, and feedback is the only one without.
pub proof fn wire_types_tell_messages_apart(a: IoClientMessage, b: IoClientMessage)
    ensures
        wire_type(a@) is None <==> a is Feedback,
        wire_type(a@) == wire_type(b@) ==> {
            &&& (a is Feedback <==> b is Feedback)
            &&& (a is Input <==> b is Input)
            &&& (a is Error <==> b is Error)
            &&& (a is ControlAck <==> b is ControlAck)
            &&& (a is Config <==> b is Config)
        },
{
    reveal_strlit("Input");
    reveal_strlit("Error");
    reveal_strlit("control_ack");
    reveal_strlit("config");
    assert("Input"@[0] == 'I');
    assert("Error"@[0] == 'E');
    assert("control_ack"@.len() == 11);
    assert("config"@.len() == 6);
}

/// Messages to clients with the same view are of one kind and carry the same.
pub proof fn message_views_lose_nothing(a: IoClientMessage, b: IoClientMessage)
    requires
        a@ == b@,
    ensures
        match (a, b) {
            (IoClientMessage::Feedback(p), IoClientMessage::Feedback(q)) => p.device_id@
                == q.device_id@ && p.timestamp == q.timestamp && p.events@ == q.events@,
            (IoClientMessage::Input(p), IoClientMessage::Input(q)) => p.device_id@ == q.device_id@
                && p.timestamp == q.timestamp && p.events@ == q.events@,
            (IoClientMessage::Error(p), IoClientMessage::Error(q)) => p.code@ == q.code@
                && p.message@ == q.message@ && (p.raw is Some <==> q.raw is Some) && (p.raw is Some
                ==> p.raw->0@ == q.raw->0@),
            (IoClientMessage::ControlAck(p), IoClientMessage::ControlAck(q)) => {
                &&& p.cmd@ == q.cmd@
                &&& p.devices is Some <==> q.devices is Some
                &&& p.devices is Some ==> same_texts(p.devices->0@, q.devices->0@)
                &&& p.registered_streams is Some <==> q.registered_streams is Some
                &&& p.registered_streams is Some ==> same_texts(
                    p.registered_streams->0@,
                    q.registered_streams->0@,
                )
            },
            (IoClientMessage::Config(p), IoClientMessage::Config(q)) => *p == *q,
            _ => false,
        },
{
    match (a, b) {
        (IoClientMessage::ControlAck(p), IoClientMessage::ControlAck(q)) => {
            if p.devices is Some {
                same_strings(p.devices->0@, q.devices->0@);
            }
            if p.registered_streams is Some {
                same_strings(p.registered_streams->0@, q.registered_streams->0@);
            }
        },
        _ => {},
    }
}

/// Settings with the same view list the same devices and streams.
pub proof fn settings_views_lose_nothing(a: ClientSettings, b: ClientSettings)
    ensures
        a@ == b@ <==> {
            &&& same_texts(a.feedback_listener_device_ids@, b.feedback_listener_device_ids@)
            &&& same_texts(a.input_listener_device_ids@, b.input_listener_device_ids@)
            &&& same_texts(a.registered_stream_ids@, b.registered_stream_ids@)
            &&& a.write_only == b.write_only
        },
{
    same_strings(a.feedback_listener_device_ids@, b.feedback_listener_device_ids@);
    same_strings(a.input_listener_device_ids@, b.input_listener_device_ids@);
    same_strings(a.registered_stream_ids@, b.registered_stream_ids@);
}

/// A control message changes nothing but the settings of its client, and nothing at all when the
/// client is not known. Its answer goes to the client alone, and nothing goes to the routing.
pub proof fn control_concerns_its_client(
    before: ServerView,
    client_id: String,
    msg: ClientControlMessage,
    after: ServerView,
    r: Handled,
    other: Seq<char>,
)
    requires
        handles(before, IoInboundMessage::Control { client_id, msg }, after, r),
    ensures
        after.newest == before.newest,
        after.config == before.config,
        r.outbound is None,
        after.clients.dom() == before.clients.dom(),
        other != client_id@ && before.clients.contains_key(other) ==> after.clients[other]
            == before.clients[other],
        before.clients.contains_key(client_id@) ==> after.clients[client_id@] == controlled(
            before.clients[client_id@],
            msg@,
        ),
        !before.clients.contains_key(client_id@) ==> after == before && r.deliveries@.len() == 0,
        r.deliveries@.len() <= 1,
        before.clients.contains_key(client_id@) ==> (r.deliveries@.len() == 0 <==> answer_to(
            msg@,
            before.config,
        ) is None),
        forall|i: int|
            0 <= i < r.deliveries@.len() ==> (#[trigger] r.deliveries@[i]).client_id@ == client_id@
                && Some(r.deliveries@[i].message@) == answer_to(msg@, before.config),
{
    assert(after.clients.dom() =~= before.clients.dom());
}

/// An input packet changes no settings and goes to no client here. What goes to the routing is the
/// packet itself; it does not get there only if a packet of the same device of the same client with
/// a later timestamp came before it. Packets of other sources are not held up by it.
pub proof fn input_goes_to_the_routing(
    before: ServerView,
    client_id: String,
    packet: InputEventPacket,
    after: ServerView,
    r: Handled,
    other: Seq<char>,
)
    requires
        handles(before, IoInboundMessage::Input { client_id, packet }, after, r),
    ensures
        ({
            let source = tagged(packet.device_id@, client_id@);
            let held = before.newest.contains_key(source) && before.newest[source]
                > packet.timestamp;
            &&& after.clients == before.clients
            &&& after.config == before.config
            &&& r.deliveries@.len() == 0
            &&& r.outbound is None <==> held
            &&& r.outbound is Some ==> r.outbound->0 is Input && r.outbound->0->Input_0@ == packet@
            &&& after.newest.contains_key(source)
            &&& after.newest[source] >= packet.timestamp
            &&& !held ==> after.newest[source] == packet.timestamp
            &&& held ==> after.newest == before.newest
            &&& other != source ==> after.newest.contains_key(other) == before.newest.contains_key(
                other,
            )
            &&& other != source && before.newest.contains_key(other) ==> after.newest[other]
                == before.newest[other]
        }),
{
}

/// Feedback changes nothing in the server. It goes on as it came, and to the clients that want that
/// of its device.
pub proof fn feedback_goes_to_its_listeners(
    before: ServerView,
    client_id: String,
    packet: FeedbackEventPacket,
    after: ServerView,
    r: Handled,
    id: Seq<char>,
)
    requires
        handles(before, IoInboundMessage::Feedback { client_id, packet }, after, r),
    ensures
        after == before,
        r.outbound is Some && r.outbound->0 is Feedback && r.outbound->0->Feedback_0@ == packet@,
        (exists|i: int|
            0 <= i < r.deliveries@.len() && (#[trigger] r.deliveries@[i]).client_id@ == id) <==> (
        before.clients.contains_key(id) && wants(
            before.clients[id],
            TopicView::Feedback(packet.device_id@),
        )),
        forall|i: int|
            0 <= i < r.deliveries@.len() ==> (#[trigger] r.deliveries@[i]).message@
                == MessageView::Feedback(packet@),
{
    packets_go_where_they_are_wanted(
        r.deliveries@,
        before.clients,
        TopicView::Feedback(packet.device_id@),
        MessageView::Feedback(packet@),
        id,
    );
}

/// A client that is taken up has the settings that it comes with, also where one with its name was
/// there before. The other clients, the order of input and the configuration stay as they are.
pub proof fn last_registration_counts(server: ServerView, client: ClientNode, other: Seq<char>)
    ensures
        ({
            let after = with_client(server, client);
            &&& after.clients.contains_key(client.id@)
            &&& after.clients[client.id@] == client.client_settings@
            &&& other != client.id@ ==> after.clients.contains_key(other)
                == server.clients.contains_key(other)
            &&& other != client.id@ && server.clients.contains_key(other) ==> after.clients[other]
                == server.clients[other]
            &&& after.newest == server.newest
            &&& after.config == server.config
        }),
{
}

/// A known client gets an error, whatever it is subscribed to, with the code, the message and the raw
/// text of the error. One that is not known gets nothing.
pub proof fn errors_reach_their_client(
    clients: Map<Seq<char>, SettingsView>,
    client_id: Seq<char>,
    code: Seq<char>,
    message: Seq<char>,
    raw: Option<Seq<char>>,
    r: Option<Delivery>,
)
    requires
        reports(clients, client_id, code, message, raw, r),
    ensures
        clients.contains_key(client_id) ==> {
            &&& r is Some
            &&& r->0.client_id@ == client_id
            &&& r->0.message is Error
            &&& r->0.message->Error_0.code@ == code
            &&& r->0.message->Error_0.message@ == message
            &&& raw is None ==> r->0.message->Error_0.raw is None
            &&& raw is Some ==> r->0.message->Error_0.raw is Some
                && r->0.message->Error_0.raw->0@ == raw->0
        },
        !clients.contains_key(client_id) ==> r is None,
{
}

/// The view of a server holds every client with its settings, and no other.
pub proof fn server_views_lose_nothing(server: IoEventServer, id: Seq<char>)
    ensures
        server@.clients.contains_key(id) <==> server.clients@.contains_key(id),
        server.clients@.contains_key(id) ==> server@.clients[id] == server.clients@[id]@,
        server@.newest == server.atomic_processor@,
        server@.config == *server.app_config,
{
}

} // verus!
