//! Setting up the services of a configuration, and routing input to the outputs.
use vstd::prelude::*;
use vstd::string::StringExecFns;
use std::sync::Arc;

use crate::config::{AppConfig, BrokenithmConfig, FeedbackConfig, InputConfig};
use crate::device_filter::{device_backend, key_of, packet_becomes, DeviceFilter};
use crate::input::io_server::{
    delivers, packets_go_where_they_are_wanted, recipients, streams_take_precedence, Delivery, IoEventServer, MessageView,
    SettingsView, TopicView,
};
use crate::input::{InputEvent, InputEventPacket, KeyboardEvent, PacketView};
use crate::text::{
    decimal, decimal_text, distinct, first_occurrences_are_distinct, holds, same_text, starts_with,
    strings,
};

verus! {

/// A rule for the output that an event goes to.
#[derive(Debug, PartialEq)]
pub enum RoutingRule {
    /// Keys that begin with the prefix go to the output.
    KeyPrefix { prefix: String, backend: String },
    /// All other events go to the output.
    Default { backend: String },
}

/// What a rule holds.
pub enum RuleView {
    KeyPrefix { prefix: Seq<char>, backend: Seq<char> },
    Default { backend: Seq<char> },
}

impl View for RoutingRule {
    type V = RuleView;

    open spec fn view(&self) -> RuleView {
        match self {
            RoutingRule::KeyPrefix { prefix, backend } => RuleView::KeyPrefix {
                prefix: prefix@,
                backend: backend@,
            },
            RoutingRule::Default { backend } => RuleView::Default { backend: backend@ },
        }
    }
}

/// The output of the first rule with a prefix of the key.
pub open spec fn first_prefix(rules: Seq<RuleView>, key: Seq<char>) -> Option<Seq<char>>
    decreases rules.len(),
{
    if rules.len() == 0 {
        None
    } else if rules[0] matches RuleView::KeyPrefix { prefix, backend } && prefix.is_prefix_of(key) {
        Some(rules[0]->KeyPrefix_backend)
    } else {
        first_prefix(rules.drop_first(), key)
    }
}

/// The output of the first default rule.
pub open spec fn first_default(rules: Seq<RuleView>) -> Option<Seq<char>>
    decreases rules.len(),
{
    if rules.len() == 0 {
        None
    } else if rules[0] is Default {
        Some(rules[0]->Default_backend)
    } else {
        first_default(rules.drop_first())
    }
}

/// The output that the rules give an event. For a key event, prefix rules go before default rules;
/// for other events only default rules count.
pub open spec fn rule_backend(rules: Seq<RuleView>, event: InputEvent) -> Option<Seq<char>> {
    match event {
        InputEvent::Keyboard(e) => match first_prefix(rules, key_of(e)@) {
            Some(backend) => Some(backend),
            None => first_default(rules),
        },
        _ => first_default(rules),
    }
}

/// The output of an event: the one that its device is configured for, or else the one that the
/// rules give.
pub open spec fn event_backend(
    rules: Seq<RuleView>,
    config: Option<AppConfig>,
    device_id: Seq<char>,
    event: InputEvent,
) -> Option<Seq<char>> {
    match config {
        Some(config) => match device_backend(config, device_id) {
            Some(backend) => Some(backend),
            None => rule_backend(rules, event),
        },
        None => rule_backend(rules, event),
    }
}

/// The rules after one is added.
pub open spec fn with_rule(rules: Seq<RuleView>, rule: RoutingRule) -> Seq<RuleView> {
    rules.push(rule@)
}

/// The rules that a router starts with.
pub open spec fn default_rules() -> Seq<RuleView> {
    seq![
        RuleView::KeyPrefix { prefix: "CHUNIIO_"@, backend: "chuniio"@ },
        RuleView::Default { backend: "uinput"@ },
    ]
}

/// Decides which output an event goes to.
#[derive(Debug)]
pub struct EventRouter {
    rules: Vec<RoutingRule>,
}

impl View for EventRouter {
    type V = Seq<RuleView>;

    closed spec fn view(&self) -> Seq<RuleView> {
        Seq::new(self.rules@.len(), |i: int| self.rules@[i]@)
    }
}

impl EventRouter {
    /// A router with the default rules.
    pub fn new() -> (r: Self)
        ensures
            r@ == default_rules(),
    {
        let mut rules: Vec<RoutingRule> = Vec::new();
        rules.push(
            RoutingRule::KeyPrefix { prefix: "CHUNIIO_".to_owned(), backend: "chuniio".to_owned() },
        );
        rules.push(RoutingRule::Default { backend: "uinput".to_owned() });
        let r = EventRouter { rules };
        assert(r@ =~= default_rules());
        r
    }

    /// Adds a rule after the others.
    pub fn add_rule(&mut self, rule: RoutingRule)
        ensures
            final(self)@ == with_rule(old(self)@, rule),
    {
        let ghost before = self@;
        self.rules.push(rule);
        assert(self@ =~= before.push(rule@));
    }

    /// The output of an event.
    pub fn route_event(
        &self,
        event: &InputEvent,
        device_filter: Option<&DeviceFilter>,
        device_id: &str,
    ) -> (r: Option<String>)
        ensures
            ({
                let config = match device_filter {
                    Some(filter) => Some(filter.settings()),
                    None => None,
                };
                match r {
                    Some(backend) => event_backend(self@, config, device_id@, *event) == Some(
                        backend@,
                    ),
                    None => event_backend(self@, config, device_id@, *event) is None,
                }
            }),
    {
        match device_filter {
            Some(filter) => match filter.get_device_backend(device_id) {
                Some(backend) => {
                    return Some(backend);
                },
                None => {},
            },
            None => {},
        }
        self.route_event_by_rules(event)
    }

    /// The output that the rules give an event.
    pub fn route_event_by_rules(&self, event: &InputEvent) -> (r: Option<String>)
        ensures
            match r {
                Some(backend) => rule_backend(self@, *event) == Some(backend@),
                None => rule_backend(self@, *event) is None,
            },
    {
        match event {
            InputEvent::Keyboard(e) => {
                let key = match e {
                    KeyboardEvent::KeyPress { key } => key,
                    KeyboardEvent::KeyRelease { key } => key,
                };
                match self.by_prefix(key.as_str()) {
                    Some(backend) => Some(backend),
                    None => self.by_default(),
                }
            },
            _ => self.by_default(),
        }
    }

    fn by_prefix(&self, key: &str) -> (r: Option<String>)
        ensures
            match r {
                Some(backend) => first_prefix(self@, key@) == Some(backend@),
                None => first_prefix(self@, key@) is None,
            },
    {
        let mut i: usize = 0;
        assert(self@.skip(0) =~= self@);
        while i < self.rules.len()
            invariant
                i <= self.rules.len(),
                first_prefix(self@, key@) == first_prefix(self@.skip(i as int), key@),
            decreases self.rules.len() - i,
        {
            let ghost rest = self@.skip(i as int);
            assert(rest[0] == self.rules@[i as int]@);
            assert(rest.drop_first() =~= self@.skip(i + 1));
            match &self.rules[i] {
                RoutingRule::KeyPrefix { prefix, backend } => {
                    if starts_with(key, prefix.as_str()) {
                        return Some(backend.clone());
                    }
                },
                RoutingRule::Default { .. } => {},
            }
            i = i + 1;
        }
        None
    }

    fn by_default(&self) -> (r: Option<String>)
        ensures
            match r {
                Some(backend) => first_default(self@) == Some(backend@),
                None => first_default(self@) is None,
            },
    {
        let mut i: usize = 0;
        assert(self@.skip(0) =~= self@);
        while i < self.rules.len()
            invariant
                i <= self.rules.len(),
                first_default(self@) == first_default(self@.skip(i as int)),
            decreases self.rules.len() - i,
        {
            let ghost rest = self@.skip(i as int);
            assert(rest[0] == self.rules@[i as int]@);
            assert(rest.drop_first() =~= self@.skip(i + 1));
            match &self.rules[i] {
                RoutingRule::KeyPrefix { .. } => {},
                RoutingRule::Default { backend } => {
                    return Some(backend.clone());
                },
            }
            i = i + 1;
        }
        None
    }
}

impl Default for EventRouter {
    fn default() -> (r: Self)
        ensures
            r@ == default_rules(),
    {
        Self::new()
    }
}

impl Clone for RoutingRule {
    fn clone(&self) -> (r: Self)
        ensures
            r@ == self@,
    {
        match self {
            RoutingRule::KeyPrefix { prefix, backend } => RoutingRule::KeyPrefix {
                prefix: prefix.clone(),
                backend: backend.clone(),
            },
            RoutingRule::Default { backend } => RoutingRule::Default { backend: backend.clone() },
        }
    }
}

impl Clone for EventRouter {
    fn clone(&self) -> (r: Self)
        ensures
            r@ == self@,
    {
        let mut rules: Vec<RoutingRule> = Vec::new();
        for i in 0..self.rules.len()
            invariant
                rules@.len() == i,
                forall|j: int| 0 <= j < i ==> (#[trigger] rules@[j])@ == self.rules@[j]@,
        {
            rules.push(self.rules[i].clone());
        }
        let r = EventRouter { rules };
        assert(r@ =~= self@);
        r
    }
}

/// The stream of an output: the last one that was made for it. A stream is known by its place.
pub open spec fn stream_of(names: Seq<Seq<char>>, name: Seq<char>) -> Option<int>
    decreases names.len(),
{
    if names.len() == 0 {
        None
    } else if names.last() == name {
        Some(names.len() - 1)
    } else {
        stream_of(names.drop_last(), name)
    }
}

/// The streams after one more is made for an output.
pub open spec fn with_stream(names: Seq<Seq<char>>, name: Seq<char>) -> Seq<Seq<char>> {
    names.push(name)
}

/// The streams after it is made sure that an output has one.
pub open spec fn with_some_stream(names: Seq<Seq<char>>, name: Seq<char>) -> Seq<Seq<char>> {
    if names.contains(name) {
        names
    } else {
        with_stream(names, name)
    }
}

proof fn lemma_stream_of(names: Seq<Seq<char>>, name: Seq<char>)
    ensures
        stream_of(names, name) is Some <==> names.contains(name),
        stream_of(names, name) matches Some(i) ==> 0 <= i < names.len() && names[i] == name,
    decreases names.len(),
{
    if names.len() > 0 {
        lemma_stream_of(names.drop_last(), name);
        if names.contains(name) && names.last() != name {
            let i = names.index_of(name);
            assert(names.drop_last()[i] == name);
        }
        if names.drop_last().contains(name) {
            let i = names.drop_last().index_of(name);
            assert(names[i] == name);
        }
        assert(names[names.len() - 1] == names.last());
    }
}

/// The input streams of the outputs. Each stream that is made has the next number.
#[derive(Debug)]
pub struct MessageStreams {
    names: Vec<String>,
}

impl View for MessageStreams {
    type V = Seq<Seq<char>>;

    closed spec fn view(&self) -> Seq<Seq<char>> {
        strings(self.names@)
    }
}

impl MessageStreams {
    #[verifier::type_invariant]
    spec fn well_formed(self) -> bool {
        &&& self.names@.len() >= 2
        &&& self.names@[0]@ == "uinput"@
        &&& self.names@[1]@ == "chuniio"@
    }

    /// Streams for the outputs that are always there.
    pub fn new() -> (r: Self)
        ensures
            r@ == seq!["uinput"@, "chuniio"@],
    {
        let mut names: Vec<String> = Vec::new();
        names.push("uinput".to_owned());
        names.push("chuniio".to_owned());
        let r = MessageStreams { names };
        assert(r@ =~= seq!["uinput"@, "chuniio"@]);
        r
    }

    /// Makes sure that an output has a stream, and says whether one was made.
    pub fn ensure_stream(&mut self, backend_name: &str) -> (made: bool)
        ensures
            made == !old(self)@.contains(backend_name@),
            final(self)@ == with_some_stream(old(self)@, backend_name@),
    {
        if holds(&self.names, backend_name) {
            return false;
        }
        self.register_output_stream(backend_name);
        true
    }

    /// Makes a new stream for an output, in place of the one that it had.
    pub fn register_output_stream(&mut self, backend_name: &str) -> (stream: usize)
        ensures
            final(self)@ == with_stream(old(self)@, backend_name@),
            stream == old(self)@.len(),
            stream_of(final(self)@, backend_name@) == Some(stream as int),
    {
        proof {
            use_type_invariant(&*self);
        }
        let ghost before = self@;
        let stream: usize = self.names.len();
        let mut whole = MessageStreams::new();
        std::mem::swap(self, &mut whole);
        let MessageStreams { names } = whole;
        let mut names = names;
        names.push(backend_name.to_owned());
        *self = MessageStreams { names };
        assert(self@ =~= before.push(backend_name@));
        stream
    }

    /// The stream of an output, if it has one. The outputs that are always there have.
    pub fn clone_output_stream(&self, backend_name: &str) -> (r: Option<usize>)
        ensures
            match r {
                Some(stream) => stream_of(self@, backend_name@) == Some(stream as int),
                None => stream_of(self@, backend_name@) is None,
            },
            r is Some <==> self@.contains(backend_name@),
            backend_name@ == "uinput"@ ==> r is Some,
            backend_name@ == "chuniio"@ ==> r is Some,
    {
        proof {
            lemma_stream_of(self@, backend_name@);
            use_type_invariant(self);
            assert(self@[0] == "uinput"@);
            assert(self@[1] == "chuniio"@);
        }
        let mut n: usize = self.names.len();
        assert(self@.take(n as int) =~= self@);
        while n > 0
            invariant
                n <= self.names.len(),
                stream_of(self@, backend_name@) == stream_of(self@.take(n as int), backend_name@),
            decreases n,
        {
            let ghost front = self@.take(n as int);
            assert(front.last() == self.names@[n - 1]@);
            assert(front.drop_last() =~= self@.take(n - 1));
            if same_text(self.names[n - 1].as_str(), backend_name) {
                return Some(n - 1);
            }
            n = n - 1;
        }
        None
    }

    /// The outputs that have a stream, each once.
    pub fn output_backend_names(&self) -> (r: Vec<String>)
        ensures
            strings(r@).no_duplicates(),
            forall|name: Seq<char>| #[trigger] strings(r@).contains(name) <==> self@.contains(name),
    {
        proof {
            first_occurrences_are_distinct(strings(self.names@));
        }
        distinct(&self.names)
    }
}

impl Default for MessageStreams {
    fn default() -> (r: Self)
        ensures
            r@ == seq!["uinput"@, "chuniio"@],
    {
        Self::new()
    }
}

/// The events of a device that go to an output, in order.
pub open spec fn events_for(
    rules: Seq<RuleView>,
    config: AppConfig,
    device_id: Seq<char>,
    events: Seq<InputEvent>,
    backend: Seq<char>,
) -> Seq<InputEvent>
    decreases events.len(),
{
    if events.len() == 0 {
        Seq::empty()
    } else {
        let front = events_for(rules, config, device_id, events.drop_last(), backend);
        if event_backend(rules, Some(config), device_id, events.last()) == Some(backend) {
            front.push(events.last())
        } else {
            front
        }
    }
}

/// The part of a packet that goes to an output.
pub open spec fn packet_for(
    rules: Seq<RuleView>,
    config: AppConfig,
    packet: PacketView,
    backend: Seq<char>,
) -> PacketView {
    PacketView {
        events: events_for(rules, config, packet.device_id, packet.events, backend),
        ..packet
    }
}

/// The part of a packet that goes to one output, and to the clients that follow it.
#[derive(Debug)]
pub struct Routed {
    /// The output.
    pub backend: String,
    /// The stream of the output.
    pub stream: usize,
    /// The events for the output.
    pub packet: InputEventPacket,
    /// The packet for the clients that have registered for the output.
    pub stream_deliveries: Vec<Delivery>,
    /// The packet for the clients that listen for the device.
    pub device_deliveries: Vec<Delivery>,
}

/// The outputs that the parts of a packet go to.
pub open spec fn backends(routed: Seq<Routed>) -> Seq<Seq<char>> {
    Seq::new(routed.len(), |i: int| routed[i].backend@)
}

/// Whether these are the parts of a packet: its keys are remapped, each output that has a stream gets
/// the events that go to it, if there are any, and so do the clients that follow the output or the
/// device.
pub open spec fn routes(
    rules: Seq<RuleView>,
    config: AppConfig,
    streams: Seq<Seq<char>>,
    clients: Map<Seq<char>, SettingsView>,
    packet: PacketView,
    routed: Seq<Routed>,
) -> bool {
    let whole = packet_becomes(config, packet);
    &&& backends(routed).no_duplicates()
    &&& forall|name: Seq<char>| #[trigger]
        backends(routed).contains(name) <==> (packet_for(rules, config, whole, name).events.len()
            > 0 && streams.contains(name))
    &&& forall|i: int|
        0 <= i < routed.len() ==> {
            let name = (#[trigger] routed[i]).backend@;
            let part = packet_for(rules, config, whole, name);
            &&& stream_of(streams, name) == Some(routed[i].stream as int)
            &&& routed[i].packet@ == part
            &&& delivers(
                routed[i].stream_deliveries@,
                clients,
                TopicView::Stream(name),
                MessageView::Input(part),
            )
            &&& delivers(
                routed[i].device_deliveries@,
                clients,
                TopicView::Device(packet.device_id),
                MessageView::Input(part),
            )
        }
}

/// An input service.
#[derive(Debug, PartialEq)]
pub enum InputService {
    /// The web server, on an address.
    Web { address: String },
    /// The Unix socket, at a path.
    UnixSocket { path: String },
    /// The Brokenithm client, to an address.
    BrokenithmTcp { address: String },
    /// The Brokenithm client for an attached device.
    BrokenithmIdevice { local_port: u16, device_port: u16, udid: Option<String> },
}

/// What an input service holds.
pub enum InputServiceView {
    Web { address: Seq<char> },
    UnixSocket { path: Seq<char> },
    BrokenithmTcp { address: Seq<char> },
    BrokenithmIdevice { local_port: u16, device_port: u16, udid: Option<String> },
}

impl View for InputService {
    type V = InputServiceView;

    open spec fn view(&self) -> InputServiceView {
        match self {
            InputService::Web { address } => InputServiceView::Web { address: address@ },
            InputService::UnixSocket { path } => InputServiceView::UnixSocket { path: path@ },
            InputService::BrokenithmTcp { address } => InputServiceView::BrokenithmTcp {
                address: address@,
            },
            InputService::BrokenithmIdevice { local_port, device_port, udid } =>
                InputServiceView::BrokenithmIdevice {
                local_port: *local_port,
                device_port: *device_port,
                udid: *udid,
            },
        }
    }
}

/// What a list of input services holds.
pub open spec fn input_plan(services: Seq<InputService>) -> Seq<InputServiceView> {
    Seq::new(services.len(), |i: int| services[i]@)
}

/// The address of a host and a port.
pub open spec fn address_text(host: Seq<char>, port: u16) -> Seq<char> {
    host + ":"@ + decimal_text(port as nat)
}

/// The services of a Brokenithm configuration. The attached device has its own, if it is enabled.
pub open spec fn brokenithm_services(config: BrokenithmConfig) -> Seq<InputServiceView> {
    let tcp = seq![
        InputServiceView::BrokenithmTcp { address: address_text(config.host@, config.port) },
    ];
    match config.idevice {
        Some(idevice) => if idevice.enabled {
            tcp.push(
                InputServiceView::BrokenithmIdevice {
                    local_port: idevice.local_port,
                    device_port: idevice.device_port,
                    udid: idevice.udid,
                },
            )
        } else {
            tcp
        },
        None => tcp,
    }
}

/// The input services of a configuration: those that are there and enabled.
pub open spec fn input_services(config: InputConfig) -> Seq<InputServiceView> {
    let web = match config.web {
        Some(web) => if web.enabled {
            seq![InputServiceView::Web { address: address_text(web.host@, web.port) }]
        } else {
            Seq::empty()
        },
        None => Seq::empty(),
    };
    let unix = match config.unix {
        Some(unix) => seq![InputServiceView::UnixSocket { path: unix.path@ }],
        None => Seq::empty(),
    };
    let brokenithm = match config.brokenithm {
        Some(brokenithm) => if brokenithm.enabled {
            brokenithm_services(brokenithm)
        } else {
            Seq::empty()
        },
        None => Seq::empty(),
    };
    web + unix + brokenithm
}

/// An output service, with the stream that it reads.
#[derive(Debug, PartialEq)]
pub enum OutputService {
    Uinput { stream: usize },
    ChuniioProxy { socket_path: String, stream: usize },
}

/// A feedback service.
#[derive(Debug)]
pub enum FeedbackService {
    /// Reads LED data from a socket.
    JvsReader { socket_path: String },
    /// Turns the LED data of the reader into feedback.
    RgbFromReader { slider_clamp_lights: u32, slider_id_offset: u32 },
    /// Turns the LED data of the proxy into feedback.
    RgbFromProxy { slider_clamp_lights: u32, slider_id_offset: u32 },
    /// Takes the LED data of the proxy and does nothing with it.
    Drain,
}

/// Whether these are the output services of a configuration: those that are enabled, each with the
/// stream of its output.
pub open spec fn is_output_plan(
    services: Seq<OutputService>,
    config: AppConfig,
    streams: Seq<Seq<char>>,
) -> bool {
    let uinput = config.output.uinput.enabled;
    let proxy = config.proxy_enabled();
    &&& services.len() == (if uinput {
        1int
    } else {
        0
    }) + (if proxy {
        1int
    } else {
        0
    })
    &&& uinput ==> (services[0] matches OutputService::Uinput { stream } && stream_of(
        streams,
        "uinput"@,
    ) == Some(stream as int))
    &&& proxy ==> (services.last() matches OutputService::ChuniioProxy { socket_path, stream }
        && socket_path@ == config.output.chuniio_proxy->0.socket_path@ && stream_of(
        streams,
        "chuniio"@,
    ) == Some(stream as int))
}

/// Whether these are the feedback services of a configuration. With a socket, LED data is read from
/// it, and that of the proxy is dropped. Without one, LED data comes from the proxy. Without LED
/// feedback, that of the proxy is dropped.
pub open spec fn is_feedback_plan(services: Seq<FeedbackService>, config: FeedbackConfig) -> bool {
    match config.chuniio {
        Some(chuniio) => match chuniio.socket_path {
            Some(path) => {
                &&& services.len() == 3
                &&& services[0] matches FeedbackService::JvsReader { socket_path }
                    && socket_path@ == path@
                &&& services[1] == (FeedbackService::RgbFromReader {
                    slider_clamp_lights: chuniio.slider_clamp_lights,
                    slider_id_offset: chuniio.slider_id_offset,
                })
                &&& services[2] is Drain
            },
            None => services == seq![
                FeedbackService::RgbFromProxy {
                    slider_clamp_lights: chuniio.slider_clamp_lights,
                    slider_id_offset: chuniio.slider_id_offset,
                },
            ],
        },
        None => services == seq![FeedbackService::Drain],
    }
}

/// Whether every configured device has a stream for its output.
pub open spec fn connected(config: AppConfig, streams: Seq<Seq<char>>) -> bool {
    forall|id: Seq<char>|
        config.device@.contains_key(id) ==> streams.contains(
            (#[trigger] config.device@[id]).map_backend@,
        )
}

fn address(host: &str, port: u16) -> (r: String)
    ensures
        r@ == address_text(host@, port),
{
    let mut r = host.to_owned();
    r.append(":");
    r.append(decimal(port as u64).as_str());
    r
}

/// The backend: the configuration, and what routes by it.
#[derive(Debug)]
pub struct Backend {
    pub config: Arc<AppConfig>,
    pub device_filter: DeviceFilter,
    pub event_router: EventRouter,
    pub io_server: IoEventServer,
    pub streams: MessageStreams,
}

impl Backend {
    /// A backend for a configuration. Every output that a device is configured for has a stream,
    /// whether or not a service reads it.
    pub fn new(config: AppConfig) -> (r: Self)
        ensures
            *r.config == config,
            r.device_filter.config == r.config,
            r.event_router@ == default_rules(),
            r.io_server@.newest == Map::<Seq<char>, u64>::empty(),
            r.io_server@.clients.dom() == Set::<Seq<char>>::empty(),
            r.io_server@.config == config,
            r.streams@.len() >= 2,
            r.streams@.take(2) == seq!["uinput"@, "chuniio"@],
            connected(config, r.streams@),
            forall|name: Seq<char>| #[trigger]
                r.streams@.contains(name) ==> name == "uinput"@ || name == "chuniio"@ || exists|
                    id: Seq<char>,
                | config.device@.contains_key(id) && (#[trigger] config.device@[id]).map_backend@
                    == name,
            r.streams@.no_duplicates(),
    {
        let config = Arc::new(config);
        let mut streams = MessageStreams::new();
        let n: usize = config.device.len();
        let ghost names = config.device.names();
        let ghost devices = config.device@;
        proof {
            reveal_strlit("uinput");
            reveal_strlit("chuniio");
            assert("uinput"@.len() != "chuniio"@.len());
            assert(streams@.take(2) =~= streams@);
        }
        for i in 0..n
            invariant
                n == names.len(),
                names == config.device.names(),
                devices == config.device@,
                devices.dom() == names.to_set(),
                streams@.len() >= 2,
                streams@.take(2) == seq!["uinput"@, "chuniio"@],
                streams@.no_duplicates(),
                forall|j: int|
                    0 <= j < i ==> streams@.contains(
                        devices[#[trigger] names[j]].map_backend@,
                    ),
                forall|name: Seq<char>| #[trigger]
                    streams@.contains(name) ==> name == "uinput"@ || name == "chuniio"@ || exists|
                        id: Seq<char>,
                    | devices.contains_key(id) && (#[trigger] devices[id]).map_backend@ == name,
        {
            let device = config.device.value_at(i);
            let ghost before = streams@;
            let ghost id = names[i as int];
            assert(names.contains(id));
            streams.ensure_stream(device.map_backend.as_str());
            proof {
                let now = streams@;
                assert(now.take(2) =~= before.take(2));
                if before.contains(device.map_backend@) {
                    assert(now == before);
                } else {
                    assert(now[before.len() as int] == device.map_backend@);
                }
                assert(now.contains(device.map_backend@));
                assert forall|j: int| 0 <= j < i + 1 implies now.contains(
                    devices[#[trigger] names[j]].map_backend@,
                ) by {
                    if j < i {
                        let name = devices[names[j]].map_backend@;
                        assert(before.contains(name));
                        let k = before.index_of(name);
                        assert(now[k] == name);
                    }
                }
                assert forall|name: Seq<char>| #[trigger] now.contains(name) implies name
                    == "uinput"@ || name == "chuniio"@ || exists|id: Seq<char>|
                    devices.contains_key(id) && (#[trigger] devices[id]).map_backend@ == name by {
                    let k = now.index_of(name);
                    if k < before.len() {
                        assert(before[k] == name);
                        assert(before.contains(name));
                    } else {
                        assert(devices.contains_key(id) && devices[id].map_backend@ == name);
                    }
                }
            }
        }
        assert forall|id: Seq<char>| config.device@.contains_key(id) implies streams@.contains(
            (#[trigger] config.device@[id]).map_backend@,
        ) by {
            assert(names.contains(id));
            let j = names.index_of(id);
            assert(streams@.contains(devices[names[j]].map_backend@));
        }
        let io_server = IoEventServer::with_config(config.clone());
        assert(io_server@.clients.dom() =~= Set::<Seq<char>>::empty());
        Backend {
            device_filter: DeviceFilter::new(config.clone()),
            event_router: EventRouter::new(),
            io_server,
            streams,
            config,
        }
    }

    /// Adds a routing rule after the others.
    pub fn add_routing_rule(&mut self, rule: RoutingRule)
        ensures
            final(self).event_router@ == with_rule(old(self).event_router@, rule),
            final(self).config == old(self).config,
            final(self).device_filter == old(self).device_filter,
            final(self).io_server == old(self).io_server,
            final(self).streams == old(self).streams,
    {
        self.event_router.add_rule(rule);
    }

    /// Makes a new stream for an output.
    pub fn register_output_backend(&mut self, backend_name: &str) -> (stream: usize)
        ensures
            final(self).streams@ == with_stream(old(self).streams@, backend_name@),
            stream == old(self).streams@.len(),
            stream_of(final(self).streams@, backend_name@) == Some(stream as int),
            final(self).config == old(self).config,
            final(self).device_filter == old(self).device_filter,
            final(self).event_router == old(self).event_router,
            final(self).io_server == old(self).io_server,
    {
        self.streams.register_output_stream(backend_name)
    }

    /// The input services to start.
    pub fn start_input_services(&self) -> (r: Vec<InputService>)
        ensures
            input_plan(r@) == input_services(self.config.input),
    {
        let mut r: Vec<InputService> = Vec::new();
        match &self.config.input.web {
            Some(web) => {
                if web.enabled {
                    r.push(InputService::Web { address: address(web.host.as_str(), web.port) });
                }
            },
            None => {},
        }
        match &self.config.input.unix {
            Some(unix) => {
                r.push(InputService::UnixSocket { path: unix.path.clone() });
            },
            None => {},
        }
        match &self.config.input.brokenithm {
            Some(brokenithm) => {
                if brokenithm.enabled {
                    r.push(
                        InputService::BrokenithmTcp {
                            address: address(brokenithm.host.as_str(), brokenithm.port),
                        },
                    );
                    match &brokenithm.idevice {
                        Some(idevice) => {
                            if idevice.enabled {
                                let udid = match &idevice.udid {
                                    Some(udid) => Some(udid.clone()),
                                    None => None,
                                };
                                r.push(
                                    InputService::BrokenithmIdevice {
                                        local_port: idevice.local_port,
                                        device_port: idevice.device_port,
                                        udid,
                                    },
                                );
                            }
                        },
                        None => {},
                    }
                }
            },
            None => {},
        }
        assert(input_plan(r@) =~= input_services(self.config.input));
        r
    }

    /// The output services to start. Each reads the stream of its output.
    pub fn start_output_services(&self) -> (r: Vec<OutputService>)
        ensures
            is_output_plan(r@, *self.config, self.streams@),
    {
        let mut r: Vec<OutputService> = Vec::new();
        if self.config.output.uinput.enabled {
            match self.streams.clone_output_stream("uinput") {
                Some(stream) => {
                    r.push(OutputService::Uinput { stream });
                },
                None => {},
            }
        }
        match &self.config.output.chuniio_proxy {
            Some(proxy) => {
                if proxy.enabled {
                    match self.streams.clone_output_stream("chuniio") {
                        Some(stream) => {
                            r.push(
                                OutputService::ChuniioProxy {
                                    socket_path: proxy.socket_path.clone(),
                                    stream,
                                },
                            );
                        },
                        None => {},
                    }
                }
            },
            None => {},
        }
        r
    }

    /// The feedback services to start.
    pub fn start_feedback_services(&self) -> (r: Vec<FeedbackService>)
        ensures
            is_feedback_plan(r@, self.config.feedback),
    {
        let mut r: Vec<FeedbackService> = Vec::new();
        match &self.config.feedback.chuniio {
            Some(chuniio) => {
                let slider_clamp_lights: u32 = chuniio.slider_clamp_lights;
                let slider_id_offset: u32 = chuniio.slider_id_offset;
                match &chuniio.socket_path {
                    Some(path) => {
                        r.push(FeedbackService::JvsReader { socket_path: path.clone() });
                        r.push(
                            FeedbackService::RgbFromReader { slider_clamp_lights, slider_id_offset },
                        );
                        r.push(FeedbackService::Drain);
                    },
                    None => {
                        r.push(
                            FeedbackService::RgbFromProxy { slider_clamp_lights, slider_id_offset },
                        );
                        assert(r@ =~= seq![
                            FeedbackService::RgbFromProxy { slider_clamp_lights, slider_id_offset },
                        ]);
                    },
                }
            },
            None => {
                r.push(FeedbackService::Drain);
                assert(r@ =~= seq![FeedbackService::Drain]);
            },
        }
        r
    }

    /// The events of a device that go to an output, in order.
    fn collect(&self, packet: &InputEventPacket, backend: &str) -> (r: Vec<InputEvent>)
        ensures
            r@ == events_for(
                self.event_router@,
                self.device_filter.settings(),
                packet.device_id@,
                packet.events@,
                backend@,
            ),
    {
        let mut r: Vec<InputEvent> = Vec::new();
        let mut i: usize = 0;
        assert(packet.events@.take(0) =~= Seq::empty());
        while i < packet.events.len()
            invariant
                i <= packet.events.len(),
                r@ == events_for(
                    self.event_router@,
                    self.device_filter.settings(),
                    packet.device_id@,
                    packet.events@.take(i as int),
                    backend@,
                ),
            decreases packet.events.len() - i,
        {
            let event = &packet.events[i];
            let ghost now = packet.events@.take(i + 1);
            assert(now.drop_last() =~= packet.events@.take(i as int));
            assert(now.last() == *event);
            match self.event_router.route_event(
                event,
                Some(&self.device_filter),
                packet.device_id.as_str(),
            ) {
                Some(name) => {
                    if same_text(name.as_str(), backend) {
                        r.push(event.clone());
                    }
                },
                None => {},
            }
            i = i + 1;
        }
        assert(packet.events@.take(i as int) =~= packet.events@);
        r
    }

    /// The outputs that events of a packet go to, each once.
    fn targets(&self, packet: &InputEventPacket) -> (r: Vec<String>)
        ensures
            strings(r@).no_duplicates(),
            forall|name: Seq<char>| #[trigger]
                strings(r@).contains(name) <==> events_for(
                    self.event_router@,
                    self.device_filter.settings(),
                    packet.device_id@,
                    packet.events@,
                    name,
                ).len() > 0,
    {
        let mut all: Vec<String> = Vec::new();
        let ghost rules = self.event_router@;
        let ghost config = self.device_filter.settings();
        let ghost device = packet.device_id@;
        assert(strings(all@) =~= Seq::empty());
        assert(packet.events@.take(0) =~= Seq::empty());
        let mut i: usize = 0;
        while i < packet.events.len()
            invariant
                i <= packet.events.len(),
                rules == self.event_router@,
                config == self.device_filter.settings(),
                device == packet.device_id@,
                forall|name: Seq<char>| #[trigger]
                    strings(all@).contains(name) <==> events_for(
                        rules,
                        config,
                        device,
                        packet.events@.take(i as int),
                        name,
                    ).len() > 0,
            decreases packet.events.len() - i,
        {
            let event = &packet.events[i];
            let ghost now = packet.events@.take(i + 1);
            let ghost before = strings(all@);
            assert(now.drop_last() =~= packet.events@.take(i as int));
            assert(now.last() == *event);
            match self.event_router.route_event(
                event,
                Some(&self.device_filter),
                packet.device_id.as_str(),
            ) {
                Some(name) => {
                    let ghost text = name@;
                    all.push(name);
                    assert(strings(all@) =~= before.push(text));
                    assert forall|t: Seq<char>| #[trigger]
                        strings(all@).contains(t) <==> events_for(
                            rules,
                            config,
                            device,
                            now,
                            t,
                        ).len() > 0 by {
                        assert(strings(all@)[before.len() as int] == text);
                        if before.contains(t) {
                            assert(strings(all@)[before.index_of(t)] == t);
                        }
                        if strings(all@).contains(t) {
                            let k = strings(all@).index_of(t);
                            if k < before.len() {
                                assert(before[k] == t);
                            }
                        }
                        assert(before.contains(t) <==> events_for(
                            rules,
                            config,
                            device,
                            packet.events@.take(i as int),
                            t,
                        ).len() > 0);
                    }
                },
                None => {
                    assert forall|t: Seq<char>| #[trigger]
                        strings(all@).contains(t) <==> events_for(
                            rules,
                            config,
                            device,
                            now,
                            t,
                        ).len() > 0 by {
                        assert(before.contains(t) <==> events_for(
                            rules,
                            config,
                            device,
                            packet.events@.take(i as int),
                            t,
                        ).len() > 0);
                    }
                },
            }
            i = i + 1;
        }
        assert(packet.events@.take(i as int) =~= packet.events@);
        proof {
            first_occurrences_are_distinct(strings(all@));
        }
        distinct(&all)
    }

    /// Routes an input packet. Its keys are remapped, and its events are parted by the output that
    /// they go to. Each output that has a stream gets its part, and so do the clients that follow
    /// the output or the device.
    pub fn route_packet(&self, packet: InputEventPacket) -> (r: Vec<Routed>)
        ensures
            routes(
                self.event_router@,
                self.device_filter.settings(),
                self.streams@,
                self.io_server@.clients,
                packet@,
                r@,
            ),
    {
        let ghost whole = packet_becomes(self.device_filter.settings(), packet@);
        let packet = self.device_filter.transform_packet(packet);
        let names = self.targets(&packet);
        let ghost all = strings(names@);
        let mut r: Vec<Routed> = Vec::new();
        assert(backends(r@) =~= Seq::empty());
        let mut i: usize = 0;
        while i < names.len()
            invariant
                i <= names.len(),
                all == strings(names@),
                all.no_duplicates(),
                packet@ == whole,
                backends(r@).no_duplicates(),
                forall|name: Seq<char>| #[trigger]
                    backends(r@).contains(name) <==> (exists|j: int|
                        0 <= j < i && #[trigger] all[j] == name) && self.streams@.contains(name),
                forall|k: int|
                    0 <= k < r@.len() ==> self.is_part(#[trigger] r@[k], whole),
            decreases names.len() - i,
        {
            let name = &names[i];
            let ghost before = backends(r@);
            assert(all[i as int] == name@);
            match self.streams.clone_output_stream(name.as_str()) {
                Some(stream) => {
                    let part = InputEventPacket {
                        device_id: packet.device_id.clone(),
                        timestamp: packet.timestamp,
                        events: self.collect(&packet, name.as_str()),
                    };
                    let stream_deliveries = self.io_server.broadcast_stream_input(
                        name.as_str(),
                        &part,
                    );
                    let device_deliveries = self.io_server.broadcast_device_input(&part);
                    let routed = Routed {
                        backend: name.clone(),
                        stream,
                        packet: part,
                        stream_deliveries,
                        device_deliveries,
                    };
                    assert(self.is_part(routed, whole));
                    r.push(routed);
                    proof {
                        assert(backends(r@) =~= before.push(name@));
                        if before.contains(name@) {
                            let j = choose|j: int| 0 <= j < i && #[trigger] all[j] == name@;
                            assert(all[j] == all[i as int]);
                        }
                        assert(backends(r@)[before.len() as int] == name@);
                    }
                },
                None => {},
            }
            assert forall|t: Seq<char>| #[trigger]
                backends(r@).contains(t) <==> (exists|j: int|
                    0 <= j < i + 1 && #[trigger] all[j] == t) && self.streams@.contains(t) by {
                if before.contains(t) {
                    let k = before.index_of(t);
                    assert(backends(r@)[k] == t);
                    let j = choose|j: int| 0 <= j < i && #[trigger] all[j] == t;
                    assert(all[j] == t);
                }
                if backends(r@).contains(t) {
                    let k = backends(r@).index_of(t);
                    if k < before.len() {
                        assert(before[k] == t);
                    }
                }
            }
            i = i + 1;
        }
        assert forall|t: Seq<char>| #[trigger]
            backends(r@).contains(t) <==> (packet_for(
                self.event_router@,
                self.device_filter.settings(),
                whole,
                t,
            ).events.len() > 0 && self.streams@.contains(t)) by {
            assert(all.contains(t) <==> events_for(
                self.event_router@,
                self.device_filter.settings(),
                packet.device_id@,
                packet.events@,
                t,
            ).len() > 0);
            if all.contains(t) {
                assert(all[all.index_of(t)] == t);
            }
        }
        r
    }

    spec fn is_part(&self, routed: Routed, whole: PacketView) -> bool {
        let name = routed.backend@;
        let part = packet_for(self.event_router@, self.device_filter.settings(), whole, name);
        &&& stream_of(self.streams@, name) == Some(routed.stream as int)
        &&& routed.packet@ == part
        &&& delivers(
            routed.stream_deliveries@,
            self.io_server@.clients,
            TopicView::Stream(name),
            MessageView::Input(part),
        )
        &&& delivers(
            routed.device_deliveries@,
            self.io_server@.clients,
            TopicView::Device(whole.device_id),
            MessageView::Input(part),
        )
    }
}

/// The output that a device is configured for goes before every rule.
pub proof fn device_configuration_goes_first(
    rules: Seq<RuleView>,
    config: AppConfig,
    device_id: Seq<char>,
    event: InputEvent,
)
    requires
        config.device@.contains_key(device_id),
    ensures
        event_backend(rules, Some(config), device_id, event) == Some(
            config.device@[device_id].map_backend@,
        ),
{
}

/// With the default rules every event has an output: keys that begin with `CHUNIIO_` go to
/// `chuniio`, and all else goes to `uinput`.
pub proof fn default_rules_route_every_event(event: InputEvent)
    ensures
        rule_backend(default_rules(), event) == Some(
            if event matches InputEvent::Keyboard(e) && "CHUNIIO_"@.is_prefix_of(key_of(e)@) {
                "chuniio"@
            } else {
                "uinput"@
            },
        ),
{
    let rules = default_rules();
    let rest = rules.drop_first();
    assert(rest[0] is Default);
    assert(rest.drop_first() =~= Seq::empty());
    assert(first_default(rest) == Some("uinput"@));
    assert(first_default(rules) == Some("uinput"@));
    match event {
        InputEvent::Keyboard(e) => {
            let key = key_of(e)@;
            assert(first_prefix(rest.drop_first(), key) is None);
            assert(first_prefix(rest, key) is None);
        },
        _ => {},
    }
}

proof fn lemma_push_rule(rules: Seq<RuleView>, rule: RuleView, key: Seq<char>)
    ensures
        first_prefix(rules.push(rule), key) == (match first_prefix(rules, key) {
            Some(backend) => Some(backend),
            None => first_prefix(seq![rule], key),
        }),
        first_default(rules.push(rule)) == (match first_default(rules) {
            Some(backend) => Some(backend),
            None => first_default(seq![rule]),
        }),
    decreases rules.len(),
{
    if rules.len() == 0 {
        assert(rules.push(rule) =~= seq![rule]);
    } else {
        lemma_push_rule(rules.drop_first(), rule, key);
        assert(rules.push(rule).drop_first() =~= rules.drop_first().push(rule));
        assert(rules.push(rule)[0] == rules[0]);
    }
}

/// A rule that is added yields to those before it. It changes the output of an event only if it is
/// a prefix rule for a key that no earlier prefix rule is for, or if the event had no output.
pub proof fn added_rules_yield(rules: Seq<RuleView>, rule: RuleView, event: InputEvent)
    ensures
        rule_backend(rules.push(rule), event) == rule_backend(rules, event) || rule_backend(
            rules,
            event,
        ) is None || {
            &&& event matches InputEvent::Keyboard(e)
            &&& first_prefix(rules, key_of(e)@) is None
            &&& rule matches RuleView::KeyPrefix { prefix, backend }
            &&& prefix.is_prefix_of(key_of(e)@)
            &&& rule_backend(rules.push(rule), event) == Some(backend)
        },
{
    match event {
        InputEvent::Keyboard(e) => {
            lemma_push_rule(rules, rule, key_of(e)@);
            let single = seq![rule];
            assert(single.drop_first() =~= Seq::empty());
            assert(first_prefix(single.drop_first(), key_of(e)@) is None);
            assert(single[0] == rule);
        },
        _ => {
            lemma_push_rule(rules, rule, Seq::empty());
        },
    }
}

/// The outputs part the events among them: an event goes to its output as often as it occurs, and
/// to no other.
pub proof fn outputs_part_the_events(
    rules: Seq<RuleView>,
    config: AppConfig,
    device_id: Seq<char>,
    events: Seq<InputEvent>,
    backend: Seq<char>,
    event: InputEvent,
)
    ensures
        events_for(rules, config, device_id, events, backend).to_multiset().count(event) == (
        if event_backend(rules, Some(config), device_id, event) == Some(backend) {
            events.to_multiset().count(event)
        } else {
            0
        }),
    decreases events.len(),
{
    broadcast use vstd::seq_lib::group_to_multiset_ensures;

    if events.len() > 0 {
        let front = events.drop_last();
        outputs_part_the_events(rules, config, device_id, front, backend, event);
        assert(front.push(events.last()) =~= events);
        assert(events.to_multiset() =~= front.to_multiset().insert(events.last()));
        let parts = events_for(rules, config, device_id, front, backend);
        assert(parts.push(events.last()).to_multiset() =~= parts.to_multiset().insert(
            events.last(),
        ));
    }
}

/// The events of an output keep their order.
pub proof fn outputs_keep_the_order(
    rules: Seq<RuleView>,
    config: AppConfig,
    device_id: Seq<char>,
    front: Seq<InputEvent>,
    rest: Seq<InputEvent>,
    backend: Seq<char>,
)
    ensures
        events_for(rules, config, device_id, front + rest, backend) == events_for(
            rules,
            config,
            device_id,
            front,
            backend,
        ) + events_for(rules, config, device_id, rest, backend),
    decreases rest.len(),
{
    let a = events_for(rules, config, device_id, front, backend);
    if rest.len() == 0 {
        assert(front + rest =~= front);
        assert(a + Seq::<InputEvent>::empty() =~= a);
    } else {
        outputs_keep_the_order(rules, config, device_id, front, rest.drop_last(), backend);
        assert((front + rest).drop_last() =~= front + rest.drop_last());
        assert((front + rest).last() == rest.last());
        let b = events_for(rules, config, device_id, rest.drop_last(), backend);
        assert((a + b).push(rest.last()) =~= a + b.push(rest.last()));
    }
}

/// With the default rules, the streams of the outputs that are always there and one for each
/// configured device, no event is without a stream.
pub proof fn every_event_has_a_stream(
    config: AppConfig,
    streams: Seq<Seq<char>>,
    device_id: Seq<char>,
    event: InputEvent,
)
    requires
        connected(config, streams),
        streams.contains("uinput"@),
        streams.contains("chuniio"@),
    ensures
        event_backend(default_rules(), Some(config), device_id, event) matches Some(backend)
            && streams.contains(backend),
{
    default_rules_route_every_event(event);
    if config.device@.contains_key(device_id) {
        assert(streams.contains(config.device@[device_id].map_backend@));
    }
}

/// A stream that is made takes none away: every output that had one still has, and configured
/// devices stay connected.
pub proof fn new_streams_take_none_away(
    config: AppConfig,
    streams: Seq<Seq<char>>,
    made: Seq<char>,
    name: Seq<char>,
)
    ensures
        streams.push(made).contains(name) == (streams.contains(name) || name == made),
        name != made ==> stream_of(streams.push(made), name) == stream_of(streams, name),
        connected(config, streams) ==> connected(config, streams.push(made)),
{
    let after = streams.push(made);
    assert(after.drop_last() =~= streams);
    assert forall|t: Seq<char>| #[trigger] streams.contains(t) implies after.contains(t) by {
        let i = streams.index_of(t);
        assert(after[i] == t);
    }
    assert(after[streams.len() as int] == made);
    if after.contains(name) && name != made {
        let i = after.index_of(name);
        assert(streams[i] == name);
    }
}

/// A client gets the part of a packet for one output at most once.
pub proof fn no_client_gets_a_part_twice(
    by_stream: Seq<Delivery>,
    by_device: Seq<Delivery>,
    clients: Map<Seq<char>, SettingsView>,
    stream: Seq<char>,
    device: Seq<char>,
    message: MessageView,
    id: Seq<char>,
)
    requires
        delivers(by_stream, clients, TopicView::Stream(stream), message),
        delivers(by_device, clients, TopicView::Device(device), message),
    ensures
        !(recipients(by_stream).contains(id) && recipients(by_device).contains(id)),
{
    streams_take_precedence(clients[id], stream, device);
}

proof fn lemma_first_prefix(rules: Seq<RuleView>, key: Seq<char>, i: int)
    requires
        0 <= i < rules.len(),
        rules[i] is KeyPrefix,
        rules[i]->prefix.is_prefix_of(key),
        forall|j: int|
            0 <= j < i && #[trigger] rules[j] is KeyPrefix ==> !rules[j]->prefix.is_prefix_of(key),
    ensures
        first_prefix(rules, key) == Some(rules[i]->KeyPrefix_backend),
    decreases rules.len(),
{
    if i > 0 {
        let rest = rules.drop_first();
        assert(rules[0] is KeyPrefix ==> !rules[0]->prefix.is_prefix_of(key));
        assert(rest[i - 1] == rules[i]);
        assert forall|j: int| 0 <= j < i - 1 && #[trigger] rest[j] is KeyPrefix implies !(
        rest[j]->prefix.is_prefix_of(key)) by {
            assert(rest[j] == rules[j + 1]);
        }
        lemma_first_prefix(rest, key, i - 1);
    }
}

proof fn lemma_no_prefix(rules: Seq<RuleView>, key: Seq<char>)
    requires
        forall|j: int|
            0 <= j < rules.len() && #[trigger] rules[j] is KeyPrefix ==> !(
            rules[j]->prefix.is_prefix_of(key)),
    ensures
        first_prefix(rules, key) is None,
    decreases rules.len(),
{
    if rules.len() > 0 {
        let rest = rules.drop_first();
        assert(rules[0] is KeyPrefix ==> !rules[0]->prefix.is_prefix_of(key));
        assert forall|j: int| 0 <= j < rest.len() && #[trigger] rest[j] is KeyPrefix implies !(
        rest[j]->prefix.is_prefix_of(key)) by {
            assert(rest[j] == rules[j + 1]);
        }
        lemma_no_prefix(rest, key);
    }
}

proof fn lemma_first_default(rules: Seq<RuleView>, i: int)
    requires
        0 <= i <= rules.len(),
        i < rules.len() ==> rules[i] is Default,
        forall|j: int| 0 <= j < i ==> #[trigger] rules[j] !is Default,
    ensures
        i < rules.len() ==> first_default(rules) == Some(rules[i]->Default_backend),
        i == rules.len() ==> first_default(rules) is None,
    decreases rules.len(),
{
    if i > 0 {
        let rest = rules.drop_first();
        assert(rules[0] !is Default);
        if i < rules.len() {
            assert(rest[i - 1] == rules[i]);
        }
        assert forall|j: int| 0 <= j < i - 1 implies #[trigger] rest[j] !is Default by {
            assert(rest[j] == rules[j + 1]);
        }
        lemma_first_default(rest, i - 1);
    }
}

/// Of the rules with a prefix of the key, the first decides where a press and a release of the key
/// go, whatever default rules come before it.
pub proof fn first_matching_prefix_decides(
    rules: Seq<RuleView>,
    config: AppConfig,
    device_id: Seq<char>,
    key: String,
    i: int,
)
    requires
        !config.device@.contains_key(device_id),
        0 <= i < rules.len(),
        rules[i] is KeyPrefix,
        rules[i]->prefix.is_prefix_of(key@),
        forall|j: int|
            0 <= j < i && #[trigger] rules[j] is KeyPrefix ==> !(
            rules[j]->prefix.is_prefix_of(key@)),
    ensures
        ({
            let press = InputEvent::Keyboard(KeyboardEvent::KeyPress { key });
            let release = InputEvent::Keyboard(KeyboardEvent::KeyRelease { key });
            let backend = Some(rules[i]->KeyPrefix_backend);
            &&& event_backend(rules, Some(config), device_id, press) == backend
            &&& event_backend(rules, Some(config), device_id, release) == backend
            &&& event_backend(rules, None, device_id, press) == backend
            &&& event_backend(rules, None, device_id, release) == backend
        }),
{
    lemma_first_prefix(rules, key@, i);
}

/// A key that no prefix fits goes where the first default rule says, and so do all events that are
/// no key events. Without a default rule they go nowhere.
pub proof fn default_decides_the_rest(
    rules: Seq<RuleView>,
    config: AppConfig,
    device_id: Seq<char>,
    key: String,
    other: InputEvent,
    i: int,
)
    requires
        !config.device@.contains_key(device_id),
        other !is Keyboard,
        0 <= i <= rules.len(),
        i < rules.len() ==> rules[i] is Default,
        forall|j: int| 0 <= j < i ==> #[trigger] rules[j] !is Default,
        forall|j: int|
            0 <= j < rules.len() && #[trigger] rules[j] is KeyPrefix ==> !(
            rules[j]->prefix.is_prefix_of(key@)),
    ensures
        ({
            let press = InputEvent::Keyboard(KeyboardEvent::KeyPress { key });
            let release = InputEvent::Keyboard(KeyboardEvent::KeyRelease { key });
            let backend = if i < rules.len() {
                Some(rules[i]->Default_backend)
            } else {
                None
            };
            &&& event_backend(rules, Some(config), device_id, press) == backend
            &&& event_backend(rules, Some(config), device_id, release) == backend
            &&& event_backend(rules, Some(config), device_id, other) == backend
            &&& event_backend(rules, None, device_id, press) == backend
            &&& event_backend(rules, None, device_id, release) == backend
            &&& event_backend(rules, None, device_id, other) == backend
        }),
{
    lemma_no_prefix(rules, key@);
    lemma_first_default(rules, i);
}

/// An event that is no key event goes where the first default rule says, whatever prefixes there
/// are.
pub proof fn prefixes_are_for_keys(rules: Seq<RuleView>, other: InputEvent, i: int)
    requires
        other !is Keyboard,
        0 <= i <= rules.len(),
        i < rules.len() ==> rules[i] is Default,
        forall|j: int| 0 <= j < i ==> #[trigger] rules[j] !is Default,
    ensures
        i < rules.len() ==> rule_backend(rules, other) == Some(rules[i]->Default_backend),
        i == rules.len() ==> rule_backend(rules, other) is None,
{
    lemma_first_default(rules, i);
}

/// Rules with the same view are of one kind, and name the same prefix and output.
pub proof fn rule_views_lose_nothing(a: RoutingRule, b: RoutingRule)
    requires
        a@ == b@,
    ensures
        match (a, b) {
            (
                RoutingRule::KeyPrefix { prefix, backend },
                RoutingRule::KeyPrefix { prefix: p, backend: q },
            ) => prefix@ == p@ && backend@ == q@,
            (RoutingRule::Default { backend }, RoutingRule::Default { backend: q }) => backend@
                == q@,
            _ => false,
        },
{
}

/// The stream of an output is the newest one that was made for it.
pub proof fn newest_stream_counts(names: Seq<Seq<char>>, name: Seq<char>)
    ensures
        stream_of(names, name) is Some <==> names.contains(name),
        stream_of(names, name) matches Some(i) ==> 0 <= i < names.len() && names[i] == name
            && forall|j: int| i < j < names.len() ==> #[trigger] names[j] != name,
    decreases names.len(),
{
    lemma_stream_of(names, name);
    if names.len() > 0 && names.last() != name {
        let front = names.drop_last();
        newest_stream_counts(front, name);
        if let Some(i) = stream_of(names, name) {
            assert forall|j: int| i < j < names.len() implies #[trigger] names[j] != name by {
                if j < front.len() {
                    assert(front[j] == names[j]);
                }
            }
        }
    }
}

/// A part of a packet keeps its device and its time, and holds an event exactly if the packet does
/// and the event goes to the output.
pub proof fn parts_belong_to_their_packet(
    rules: Seq<RuleView>,
    config: AppConfig,
    packet: PacketView,
    backend: Seq<char>,
    event: InputEvent,
)
    ensures
        packet_for(rules, config, packet, backend).device_id == packet.device_id,
        packet_for(rules, config, packet, backend).timestamp == packet.timestamp,
        packet_for(rules, config, packet, backend).events.contains(event) <==> (
        packet.events.contains(event) && event_backend(
            rules,
            Some(config),
            packet.device_id,
            event,
        ) == Some(backend)),
{
    broadcast use vstd::seq_lib::group_to_multiset_ensures;

    outputs_part_the_events(rules, config, packet.device_id, packet.events, backend, event);
    let part = packet_for(rules, config, packet, backend).events;
    assert(part.contains(event) <==> part.to_multiset().count(event) > 0);
    assert(packet.events.contains(event) <==> packet.events.to_multiset().count(event) > 0);
}

/// Every event that comes out of the remapping and whose output has a stream is in the part for that
/// output, and in no other part. A part keeps the device and the time of the packet, and the order of
/// its events.
pub proof fn events_reach_their_output(
    rules: Seq<RuleView>,
    config: AppConfig,
    streams: Seq<Seq<char>>,
    clients: Map<Seq<char>, SettingsView>,
    packet: PacketView,
    routed: Seq<Routed>,
    event: InputEvent,
    i: int,
)
    requires
        routes(rules, config, streams, clients, packet, routed),
        0 <= i < routed.len(),
        packet_becomes(config, packet).events.contains(event),
    ensures
        routed[i].packet.device_id@ == packet.device_id,
        routed[i].packet.timestamp == packet.timestamp,
        routed[i].packet.events@ == events_for(
            rules,
            config,
            packet.device_id,
            packet_becomes(config, packet).events,
            routed[i].backend@,
        ),
        routed[i].packet.events@.contains(event) <==> event_backend(
            rules,
            Some(config),
            packet.device_id,
            event,
        ) == Some(routed[i].backend@),
        streams.contains(routed[i].backend@),
        0 <= routed[i].stream < streams.len(),
        streams[routed[i].stream as int] == routed[i].backend@,
{
    let whole = packet_becomes(config, packet);
    let name = routed[i].backend@;
    assert(routed[i].packet@ == packet_for(rules, config, whole, name));
    parts_belong_to_their_packet(rules, config, whole, name, event);
    newest_stream_counts(streams, name);
}

/// No event is lost on the way to an output that has a stream, and no output gets two parts.
pub proof fn no_event_is_lost(
    rules: Seq<RuleView>,
    config: AppConfig,
    streams: Seq<Seq<char>>,
    clients: Map<Seq<char>, SettingsView>,
    packet: PacketView,
    routed: Seq<Routed>,
    event: InputEvent,
    backend: Seq<char>,
)
    requires
        routes(rules, config, streams, clients, packet, routed),
        packet_becomes(config, packet).events.contains(event),
        event_backend(rules, Some(config), packet.device_id, event) == Some(backend),
        streams.contains(backend),
    ensures
        exists|i: int|
            0 <= i < routed.len() && (#[trigger] routed[i]).backend@ == backend
                && routed[i].packet.events@.contains(event),
        forall|i: int, j: int|
            0 <= i < j < routed.len() ==> (#[trigger] routed[i]).backend@ != (
            #[trigger] routed[j]).backend@,
{
    let whole = packet_becomes(config, packet);
    let names = backends(routed);
    parts_belong_to_their_packet(rules, config, whole, backend, event);
    let part = packet_for(rules, config, whole, backend).events;
    assert(part.contains(event));
    assert(part.len() > 0);
    assert(names.contains(backend));
    let i = names.index_of(backend);
    assert(routed[i].backend@ == backend);
    assert(routed[i].packet.events@ == part);
    assert forall|i: int, j: int| 0 <= i < j < routed.len() implies (#[trigger] routed[i]).backend@
        != (#[trigger] routed[j]).backend@ by {
        assert(names[i] != names[j]);
    }
}

/// All events of a configured device go to its output, in one part and in their order.
pub proof fn configured_devices_have_one_output(
    rules: Seq<RuleView>,
    config: AppConfig,
    streams: Seq<Seq<char>>,
    clients: Map<Seq<char>, SettingsView>,
    packet: PacketView,
    routed: Seq<Routed>,
)
    requires
        routes(rules, config, streams, clients, packet, routed),
        config.device@.contains_key(packet.device_id),
        streams.contains(config.device@[packet.device_id].map_backend@),
        packet_becomes(config, packet).events.len() > 0,
    ensures
        routed.len() == 1,
        routed[0].backend@ == config.device@[packet.device_id].map_backend@,
        routed[0].packet.events@ == packet_becomes(config, packet).events,
{
    let whole = packet_becomes(config, packet);
    let output = config.device@[packet.device_id].map_backend@;
    let names = backends(routed);
    lemma_all_go_to(rules, config, packet.device_id, whole.events, output);
    assert(names.contains(output));
    assert forall|i: int| 0 <= i < routed.len() implies names[i] == output by {
        assert(names.contains(names[i]));
        lemma_none_go_to(rules, config, packet.device_id, whole.events, names[i]);
    }
    let k = names.index_of(output);
    if routed.len() > 1 {
        assert(names[0] == names[1]);
    }
    assert(names[0] == output);
    assert(routed[0].backend@ == output);
}

proof fn lemma_all_go_to(
    rules: Seq<RuleView>,
    config: AppConfig,
    device_id: Seq<char>,
    events: Seq<InputEvent>,
    output: Seq<char>,
)
    requires
        config.device@.contains_key(device_id),
        output == config.device@[device_id].map_backend@,
    ensures
        events_for(rules, config, device_id, events, output) == events,
    decreases events.len(),
{
    if events.len() > 0 {
        lemma_all_go_to(rules, config, device_id, events.drop_last(), output);
        assert(events.drop_last().push(events.last()) =~= events);
    } else {
        assert(events =~= Seq::empty());
    }
}

proof fn lemma_none_go_to(
    rules: Seq<RuleView>,
    config: AppConfig,
    device_id: Seq<char>,
    events: Seq<InputEvent>,
    output: Seq<char>,
)
    requires
        config.device@.contains_key(device_id),
    ensures
        output != config.device@[device_id].map_backend@ ==> events_for(
            rules,
            config,
            device_id,
            events,
            output,
        ).len() == 0,
    decreases events.len(),
{
    if events.len() > 0 {
        lemma_none_go_to(rules, config, device_id, events.drop_last(), output);
    }
}

/// A client that listens for the device, or follows the output, gets the part for the output as it
/// goes there; other clients do not.
pub proof fn parts_are_mirrored(
    rules: Seq<RuleView>,
    config: AppConfig,
    streams: Seq<Seq<char>>,
    clients: Map<Seq<char>, SettingsView>,
    packet: PacketView,
    routed: Seq<Routed>,
    i: int,
    id: Seq<char>,
)
    requires
        routes(rules, config, streams, clients, packet, routed),
        0 <= i < routed.len(),
        clients.contains_key(id),
    ensures
        ({
            let s = clients[id];
            let by_stream = routed[i].stream_deliveries@;
            let by_device = routed[i].device_deliveries@;
            &&& (exists|k: int| 0 <= k < by_stream.len() && (#[trigger] by_stream[k]).client_id@
                == id) <==> (!s.write_only && s.streams.contains(routed[i].backend@))
            &&& (exists|k: int| 0 <= k < by_device.len() && (#[trigger] by_device[k]).client_id@
                == id) <==> (s.streams.len() == 0 && s.input.contains(packet.device_id))
            &&& forall|k: int|
                0 <= k < by_stream.len() ==> (#[trigger] by_stream[k]).message@
                    == MessageView::Input(routed[i].packet@)
            &&& forall|k: int|
                0 <= k < by_device.len() ==> (#[trigger] by_device[k]).message@
                    == MessageView::Input(routed[i].packet@)
        }),
{
    let message = MessageView::Input(routed[i].packet@);
    packets_go_where_they_are_wanted(
        routed[i].stream_deliveries@,
        clients,
        TopicView::Stream(routed[i].backend@),
        message,
        id,
    );
    packets_go_where_they_are_wanted(
        routed[i].device_deliveries@,
        clients,
        TopicView::Device(packet.device_id),
        message,
        id,
    );
}

/// Where each input service stands in the list of a configuration.
proof fn lemma_input_services(config: InputConfig, w: int, u: int, t: int, d: int)
    requires
        w == (if config.web is Some && config.web->0.enabled {
            1int
        } else {
            0
        }),
        u == w + (if config.unix is Some {
            1int
        } else {
            0
        }),
        t == u + (if config.brokenithm is Some && config.brokenithm->0.enabled {
            1int
        } else {
            0
        }),
        d == t + (if config.brokenithm is Some && config.brokenithm->0.enabled
            && config.brokenithm->0.idevice is Some && config.brokenithm->0.idevice->0.enabled {
            1int
        } else {
            0
        }),
    ensures
        input_services(config).len() == d,
        0 < w ==> input_services(config)[0] == (InputServiceView::Web {
            address: address_text(config.web->0.host@, config.web->0.port),
        }),
        w < u ==> input_services(config)[w] == (InputServiceView::UnixSocket {
            path: config.unix->0.path@,
        }),
        u < t ==> input_services(config)[u] == (InputServiceView::BrokenithmTcp {
            address: address_text(config.brokenithm->0.host@, config.brokenithm->0.port),
        }),
        t < d ==> input_services(config)[t] == (InputServiceView::BrokenithmIdevice {
            local_port: config.brokenithm->0.idevice->0.local_port,
            device_port: config.brokenithm->0.idevice->0.device_port,
            udid: config.brokenithm->0.idevice->0.udid,
        }),
{
    let brokenithm = match config.brokenithm {
        Some(brokenithm) => if brokenithm.enabled {
            brokenithm_services(brokenithm)
        } else {
            Seq::empty()
        },
        None => Seq::empty(),
    };
    let all = input_services(config);
    assert(brokenithm.len() == d - u);
    assert(all.len() == u + brokenithm.len());
    if u < t {
        assert(all[u] == brokenithm[0]);
    }
    if t < d {
        assert(all[t] == brokenithm[1]);
    }
}

/// A service is started exactly if its section is there and enabled: the web server by its own, the
/// Unix socket by being there, Brokenithm by its own, and the attached device only if Brokenithm and
/// the device are both enabled.
pub proof fn services_run_only_if_enabled(services: Seq<InputService>, config: InputConfig)
    requires
        input_plan(services) == input_services(config),
    ensures
        (exists|i: int| 0 <= i < services.len() && #[trigger] services[i] is Web) <==> (
        config.web is Some && config.web->0.enabled),
        (exists|i: int| 0 <= i < services.len() && #[trigger] services[i] is UnixSocket)
            <==> config.unix is Some,
        (exists|i: int| 0 <= i < services.len() && #[trigger] services[i] is BrokenithmTcp) <==> (
        config.brokenithm is Some && config.brokenithm->0.enabled),
        (exists|i: int| 0 <= i < services.len() && #[trigger] services[i] is BrokenithmIdevice)
            <==> (config.brokenithm is Some && config.brokenithm->0.enabled
            && config.brokenithm->0.idevice is Some && config.brokenithm->0.idevice->0.enabled),
{
    let (w, u, t, d) = service_places(config);
    lemma_services_by_place(services, config, w, u, t, d);
    if 0 < w {
        assert(services[0] is Web);
    }
    if w < u {
        assert(services[w] is UnixSocket);
    }
    if u < t {
        assert(services[u] is BrokenithmTcp);
    }
    if t < d {
        assert(services[t] is BrokenithmIdevice);
    }
}

/// The number of services up to and with the web server, the Unix socket, the Brokenithm client, and
/// that for the attached device.
spec fn service_places(config: InputConfig) -> (int, int, int, int) {
    let web = config.web is Some && config.web->0.enabled;
    let tcp = config.brokenithm is Some && config.brokenithm->0.enabled;
    let idevice = tcp && config.brokenithm->0.idevice is Some
        && config.brokenithm->0.idevice->0.enabled;
    let w: int = if web {
        1
    } else {
        0
    };
    let u: int = if config.unix is Some {
        w + 1
    } else {
        w
    };
    let t: int = if tcp {
        u + 1
    } else {
        u
    };
    let d: int = if idevice {
        t + 1
    } else {
        t
    };
    (w, u, t, d)
}

proof fn lemma_services_by_place(
    services: Seq<InputService>,
    config: InputConfig,
    w: int,
    u: int,
    t: int,
    d: int,
)
    requires
        input_plan(services) == input_services(config),
        (w, u, t, d) == service_places(config),
    ensures
        services.len() == d,
        0 <= w <= u <= t <= d <= 4,
        w <= 1 && u <= w + 1 && t <= u + 1 && d <= t + 1,
        forall|i: int| 0 <= i < d ==> (#[trigger] services[i] is Web <==> i < w),
        forall|i: int| 0 <= i < d ==> (#[trigger] services[i] is UnixSocket <==> w <= i < u),
        forall|i: int| 0 <= i < d ==> (#[trigger] services[i] is BrokenithmTcp <==> u <= i < t),
        forall|i: int| 0 <= i < d ==> (#[trigger] services[i] is BrokenithmIdevice <==> t <= i < d),
        forall|i: int| 0 <= i < d ==> (#[trigger] services[i])@ == input_services(config)[i],
{
    lemma_input_services(config, w, u, t, d);
    let plan = input_plan(services);
    assert(plan.len() == services.len());
    assert forall|i: int| 0 <= i < d implies (#[trigger] services[i])@ == plan[i] by {
    }
}

/// A service that is started has the settings of its section, and none is started twice. The web
/// server comes first, then the Unix socket, then Brokenithm, and the attached device last.
pub proof fn services_have_their_settings(
    services: Seq<InputService>,
    config: InputConfig,
    i: int,
    j: int,
)
    requires
        input_plan(services) == input_services(config),
        0 <= i < services.len(),
        0 <= j < services.len(),
    ensures
        match services[i] {
            InputService::Web { address } => address@ == config.web->0.host@ + ":"@ + decimal_text(
                config.web->0.port as nat,
            ),
            InputService::UnixSocket { path } => path@ == config.unix->0.path@,
            InputService::BrokenithmTcp { address } => address@ == config.brokenithm->0.host@
                + ":"@ + decimal_text(config.brokenithm->0.port as nat),
            InputService::BrokenithmIdevice { local_port, device_port, udid } => {
                &&& local_port == config.brokenithm->0.idevice->0.local_port
                &&& device_port == config.brokenithm->0.idevice->0.device_port
                &&& udid == config.brokenithm->0.idevice->0.udid
            },
        },
        i != j ==> {
            &&& !(services[i] is Web && services[j] is Web)
            &&& !(services[i] is UnixSocket && services[j] is UnixSocket)
            &&& !(services[i] is BrokenithmTcp && services[j] is BrokenithmTcp)
            &&& !(services[i] is BrokenithmIdevice && services[j] is BrokenithmIdevice)
        },
        i < j ==> {
            &&& services[j] !is Web
            &&& services[j] is UnixSocket ==> services[i] is Web
            &&& services[i] is BrokenithmTcp ==> services[j] is BrokenithmIdevice
            &&& services[i] !is BrokenithmIdevice
        },
        services.len() <= 4,
{
    let (w, u, t, d) = service_places(config);
    lemma_services_by_place(services, config, w, u, t, d);
    lemma_input_services(config, w, u, t, d);
}

/// An output service is started exactly if it is enabled, once, and reads the newest stream of its
/// output. The proxy has its socket where the configuration says.
pub proof fn outputs_run_only_if_enabled(
    services: Seq<OutputService>,
    config: AppConfig,
    streams: Seq<Seq<char>>,
    i: int,
)
    requires
        is_output_plan(services, config, streams),
        0 <= i < services.len(),
    ensures
        services[i] is Uinput ==> config.output.uinput.enabled && stream_of(streams, "uinput"@)
            == Some(services[i]->Uinput_stream as int),
        services[i] is ChuniioProxy ==> {
            &&& config.output.chuniio_proxy is Some
            &&& config.output.chuniio_proxy->0.enabled
            &&& services[i]->socket_path@ == config.output.chuniio_proxy->0.socket_path@
            &&& stream_of(streams, "chuniio"@) == Some(services[i]->ChuniioProxy_stream as int)
        },
        forall|j: int|
            0 <= j < services.len() && j != i ==> (#[trigger] services[j] is Uinput) != (
            services[i] is Uinput),
{
}

/// An output service that is enabled is started.
pub proof fn enabled_outputs_run(
    services: Seq<OutputService>,
    config: AppConfig,
    streams: Seq<Seq<char>>,
)
    requires
        is_output_plan(services, config, streams),
    ensures
        config.output.uinput.enabled ==> exists|i: int|
            0 <= i < services.len() && #[trigger] services[i] is Uinput,
        config.output.chuniio_proxy is Some && config.output.chuniio_proxy->0.enabled ==> exists|
            i: int,
        |
            0 <= i < services.len() && #[trigger] services[i] is ChuniioProxy,
        !config.output.uinput.enabled && !(config.output.chuniio_proxy is Some
            && config.output.chuniio_proxy->0.enabled) ==> services.len() == 0,
{
    if config.output.uinput.enabled {
        assert(services[0] is Uinput);
    }
    if config.output.chuniio_proxy is Some && config.output.chuniio_proxy->0.enabled {
        assert(services[services.len() - 1] is ChuniioProxy);
    }
}

/// The LED data of the proxy has exactly one taker. It becomes feedback if LED feedback is on and no
/// socket is given, and is dropped otherwise. A socket is read exactly if LED feedback is on and the
/// socket is given, and what is read becomes feedback.
pub proof fn led_data_has_one_taker(services: Seq<FeedbackService>, config: FeedbackConfig)
    requires
        is_feedback_plan(services, config),
    ensures
        ({
            let on = config.chuniio is Some;
            let socket = on && config.chuniio->0.socket_path is Some;
            &&& (exists|i: int| 0 <= i < services.len() && #[trigger] services[i] is Drain) <==> (
            !on || socket)
            &&& (exists|i: int| 0 <= i < services.len() && #[trigger] services[i] is RgbFromProxy)
                <==> (on && !socket)
            &&& (exists|i: int| 0 <= i < services.len() && #[trigger] services[i] is JvsReader)
                <==> socket
            &&& (exists|i: int| 0 <= i < services.len() && #[trigger] services[i] is RgbFromReader)
                <==> socket
            &&& services.len() == (if socket {
                3int
            } else {
                1int
            })
        }),
{
    let on = config.chuniio is Some;
    let socket = on && config.chuniio->0.socket_path is Some;
    if socket {
        assert(services[0] is JvsReader);
        assert(services[1] is RgbFromReader);
        assert(services[2] is Drain);
    } else if on {
        assert(services[0] is RgbFromProxy);
    } else {
        assert(services[0] is Drain);
    }
}

/// A feedback service has the settings of the configuration.
pub proof fn feedback_services_have_their_settings(
    services: Seq<FeedbackService>,
    config: FeedbackConfig,
    i: int,
)
    requires
        is_feedback_plan(services, config),
        0 <= i < services.len(),
    ensures
        match services[i] {
            FeedbackService::JvsReader { socket_path } => socket_path@
                == config.chuniio->0.socket_path->0@,
            FeedbackService::RgbFromReader { slider_clamp_lights, slider_id_offset } =>
                slider_clamp_lights == config.chuniio->0.slider_clamp_lights && slider_id_offset
                == config.chuniio->0.slider_id_offset,
            FeedbackService::RgbFromProxy { slider_clamp_lights, slider_id_offset } =>
                slider_clamp_lights == config.chuniio->0.slider_clamp_lights && slider_id_offset
                == config.chuniio->0.slider_id_offset,
            FeedbackService::Drain => true,
        },
{
}

/// A rule that is added comes behind the others and moves none of them. A key that has its output by a
/// prefix keeps it, and so does an event that is no key event and has its output by a default.
pub proof fn earlier_rules_keep_their_events(
    rules: Seq<RuleView>,
    rule: RoutingRule,
    key: String,
    other: InputEvent,
    i: int,
)
    requires
        0 <= i < rules.len(),
        other !is Keyboard,
    ensures
        ({
            let after = with_rule(rules, rule);
            let press = InputEvent::Keyboard(KeyboardEvent::KeyPress { key });
            &&& after.len() == rules.len() + 1
            &&& after[i] == rules[i]
            &&& after[rules.len() as int] == rule@
            &&& (rules[i] is KeyPrefix && rules[i]->prefix.is_prefix_of(key@) && forall|j: int|
                0 <= j < i && #[trigger] rules[j] is KeyPrefix ==> !(
                rules[j]->prefix.is_prefix_of(key@))) ==> rule_backend(after, press) == Some(
                rules[i]->KeyPrefix_backend,
            )
            &&& (rules[i] is Default && forall|j: int|
                0 <= j < i ==> #[trigger] rules[j] !is Default) ==> rule_backend(after, other)
                == Some(rules[i]->Default_backend)
        }),
{
    let after = with_rule(rules, rule);
    assert(forall|j: int| 0 <= j <= i ==> #[trigger] after[j] == rules[j]);
    if rules[i] is KeyPrefix && rules[i]->prefix.is_prefix_of(key@) && (forall|j: int|
        0 <= j < i && #[trigger] rules[j] is KeyPrefix ==> !(
        rules[j]->prefix.is_prefix_of(key@))) {
        assert forall|j: int| 0 <= j < i && #[trigger] after[j] is KeyPrefix implies !(
        after[j]->prefix.is_prefix_of(key@)) by {
            assert(rules[j] == after[j]);
        }
        lemma_first_prefix(after, key@, i);
    }
    if rules[i] is Default && (forall|j: int| 0 <= j < i ==> #[trigger] rules[j] !is Default) {
        assert forall|j: int| 0 <= j < i implies #[trigger] after[j] !is Default by {
            assert(rules[j] == after[j]);
        }
        lemma_first_default(after, i);
    }
}

/// An output for which a stream is made reads the new one from then on, whether or not it had one.
/// To make sure that an output has a stream makes one only if it had none, and leaves the stream of
/// every output that had one.
pub proof fn streams_are_made(names: Seq<Seq<char>>, name: Seq<char>, other: Seq<char>)
    ensures
        stream_of(with_stream(names, name), name) == Some(names.len() as int),
        other != name ==> stream_of(with_stream(names, name), other) == stream_of(names, other),
        stream_of(with_some_stream(names, name), name) is Some,
        names.contains(other) ==> stream_of(with_some_stream(names, name), other) == stream_of(
            names,
            other,
        ),
        names.contains(name) ==> with_some_stream(names, name).len() == names.len(),
        !names.contains(name) ==> with_some_stream(names, name).len() == names.len() + 1,
{
    assert(names.push(name).drop_last() =~= names);
    lemma_stream_of(names, name);
}

} // verus!
