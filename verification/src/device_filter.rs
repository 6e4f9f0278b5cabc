//! Key expressions, and the filter that remaps the keys of a device.
use vstd::prelude::*;
use std::sync::Arc;

use crate::config::{AppConfig, DeviceConfig};
use crate::input::{InputEvent, InputEventPacket, KeyboardEvent, PacketView};
use crate::text::{
    join, join_text, rfind, same_strings, split, split_text, split_undoes_join, strings, trim,
    trim_text, whitespace,
};

verus! {

/// What a key stands for.
#[derive(Debug, PartialEq)]
pub enum KeyExpr {
    /// One key.
    Single(String),
    /// Keys at the same time.
    Combo(Vec<String>),
    /// Keys one after the other.
    Sequence(Vec<String>),
}

/// What a key expression holds.
pub enum KeyExprView {
    Single(Seq<char>),
    Combo(Seq<Seq<char>>),
    Sequence(Seq<Seq<char>>),
}

impl View for KeyExpr {
    type V = KeyExprView;

    open spec fn view(&self) -> KeyExprView {
        match self {
            KeyExpr::Single(key) => KeyExprView::Single(key@),
            KeyExpr::Combo(keys) => KeyExprView::Combo(strings(keys@)),
            KeyExpr::Sequence(keys) => KeyExprView::Sequence(strings(keys@)),
        }
    }
}

/// The texts of a list, each without the whitespace at its ends.
pub open spec fn trimmed(parts: Seq<Seq<char>>) -> Seq<Seq<char>> {
    Seq::new(parts.len(), |i: int| trim_text(parts[i]))
}

/// The expression that a text denotes: keys with `+` between them are a combo, keys with `,`
/// between them a sequence. Whitespace around a key does not count.
pub open spec fn parsed_expr(text: Seq<char>) -> KeyExprView {
    if text.contains('+') {
        KeyExprView::Combo(trimmed(split_text(text, '+')))
    } else if text.contains(',') {
        KeyExprView::Sequence(trimmed(split_text(text, ',')))
    } else {
        KeyExprView::Single(trim_text(text))
    }
}

/// The text of an expression.
pub open spec fn expr_text(expr: KeyExprView) -> Seq<char> {
    match expr {
        KeyExprView::Single(key) => key,
        KeyExprView::Combo(keys) => join_text(keys, "+"@),
        KeyExprView::Sequence(keys) => join_text(keys, ","@),
    }
}

fn trim_all(parts: &Vec<String>) -> (r: Vec<String>)
    ensures
        strings(r@) == trimmed(strings(parts@)),
{
    let mut r: Vec<String> = Vec::new();
    let mut i: usize = 0;
    while i < parts.len()
        invariant
            i <= parts.len(),
            r.len() == i,
            forall|j: int| 0 <= j < i ==> (#[trigger] r@[j])@ == trim_text(parts@[j]@),
        decreases parts.len() - i,
    {
        r.push(trim(parts[i].as_str()));
        i = i + 1;
    }
    assert(strings(r@) =~= trimmed(strings(parts@)));
    r
}

fn has_char(s: &str, c: char) -> (r: bool)
    ensures
        r == s@.contains(c),
{
    match rfind(s, c) {
        Some(i) => {
            assert(s@[i as int] == c);
            true
        },
        None => false,
    }
}

impl KeyExpr {
    /// The expression that a text denotes.
    pub fn parse(text: &str) -> (r: Self)
        ensures
            r@ == parsed_expr(text@),
    {
        if has_char(text, '+') {
            KeyExpr::Combo(trim_all(&split(text, '+')))
        } else if has_char(text, ',') {
            KeyExpr::Sequence(trim_all(&split(text, ',')))
        } else {
            KeyExpr::Single(trim(text))
        }
    }

    /// The text of the expression.
    pub fn to_string(&self) -> (r: String)
        ensures
            r@ == expr_text(self@),
    {
        match self {
            KeyExpr::Single(key) => key.clone(),
            KeyExpr::Combo(keys) => join(keys, "+"),
            KeyExpr::Sequence(keys) => join(keys, ","),
        }
    }
}

/// Whether a key can be written in an expression: it has no separator in it and no whitespace at
/// its ends.
pub open spec fn writable(key: Seq<char>) -> bool {
    !key.contains('+') && !key.contains(',') && (key.len() > 0 ==> !whitespace(key[0])
        && !whitespace(key.last()))
}

/// Whether the text of an expression denotes it: its keys can be written, and a combo or sequence
/// has more than one of them.
pub open spec fn expressible(expr: KeyExprView) -> bool {
    match expr {
        KeyExprView::Single(key) => writable(key),
        KeyExprView::Combo(keys) => keys.len() > 1 && forall|i: int|
            0 <= i < keys.len() ==> writable(#[trigger] keys[i]),
        KeyExprView::Sequence(keys) => keys.len() > 1 && forall|i: int|
            0 <= i < keys.len() ==> writable(#[trigger] keys[i]),
    }
}

proof fn lemma_writable_trim(key: Seq<char>)
    requires
        writable(key),
    ensures
        trim_text(key) == key,
{
}

proof fn lemma_trimmed(keys: Seq<Seq<char>>)
    requires
        forall|i: int| 0 <= i < keys.len() ==> writable(#[trigger] keys[i]),
    ensures
        trimmed(keys) == keys,
{
    assert forall|i: int| 0 <= i < keys.len() implies trim_text(#[trigger] keys[i]) == keys[i] by {
        lemma_writable_trim(keys[i]);
    }
    assert(trimmed(keys) =~= keys);
}

/// A joined list of two or more parts holds its separator, and no other character that none of the
/// parts holds.
proof fn lemma_join_chars(parts: Seq<Seq<char>>, sep: char, other: char)
    requires
        parts.len() > 0,
        other != sep,
        forall|i: int| 0 <= i < parts.len() ==> !(#[trigger] parts[i]).contains(other),
    ensures
        parts.len() > 1 ==> join_text(parts, seq![sep]).contains(sep),
        !join_text(parts, seq![sep]).contains(other),
    decreases parts.len(),
{
    let s = join_text(parts, seq![sep]);
    let head = parts[0];
    assert(!head.contains(other));
    if parts.len() > 1 {
        let rest = parts.drop_first();
        assert forall|i: int| 0 <= i < rest.len() implies !(#[trigger] rest[i]).contains(other) by {
            assert(rest[i] == parts[i + 1]);
        }
        lemma_join_chars(rest, sep, other);
        let tail = join_text(rest, seq![sep]);
        assert(s[head.len() as int] == sep);
        if s.contains(other) {
            let k = choose|k: int| 0 <= k < s.len() && s[k] == other;
            if k < head.len() {
                assert(head[k] == other);
            } else if k > head.len() {
                assert(tail[k - head.len() - 1] == other);
            }
        }
    }
}

/// Writing an expression and reading the text gives the expression back.
pub proof fn parse_undoes_to_string(expr: KeyExprView)
    requires
        expressible(expr),
    ensures
        parsed_expr(expr_text(expr)) == expr,
{
    reveal_strlit("+");
    reveal_strlit(",");
    assert("+"@ =~= seq!['+']);
    assert(","@ =~= seq![',']);
    match expr {
        KeyExprView::Single(key) => {
            lemma_writable_trim(key);
        },
        KeyExprView::Combo(keys) => {
            assert forall|i: int| 0 <= i < keys.len() implies !(#[trigger] keys[i]).contains('+') && !keys[i].contains(',') by {
                assert(writable(keys[i]));
            }
            lemma_join_chars(keys, '+', ',');
            split_undoes_join(keys, '+');
            lemma_trimmed(keys);
        },
        KeyExprView::Sequence(keys) => {
            assert forall|i: int| 0 <= i < keys.len() implies !(#[trigger] keys[i]).contains('+') && !keys[i].contains(',') by {
                assert(writable(keys[i]));
            }
            lemma_join_chars(keys, ',', '+');
            split_undoes_join(keys, ',');
            lemma_trimmed(keys);
        },
    }
}

/// The keys of an expression, in order.
pub open spec fn keys_of(expr: KeyExpr) -> Seq<String> {
    match expr {
        KeyExpr::Single(key) => seq![key],
        KeyExpr::Combo(keys) => keys@,
        KeyExpr::Sequence(keys) => keys@,
    }
}

/// What a key of a device stands for: the keys of its expression; if it has none, then nothing in
/// whitelist mode, and otherwise itself.
pub open spec fn key_becomes(device: DeviceConfig, key: String) -> Seq<String> {
    if device.remap@.contains_key(key@) {
        keys_of(device.remap@[key@])
    } else if device.remap_whitelist {
        Seq::empty()
    } else {
        seq![key]
    }
}

/// The key event with another key.
pub open spec fn with_key(event: KeyboardEvent, key: String) -> KeyboardEvent {
    match event {
        KeyboardEvent::KeyPress { .. } => KeyboardEvent::KeyPress { key },
        KeyboardEvent::KeyRelease { .. } => KeyboardEvent::KeyRelease { key },
    }
}

/// The key of a key event.
pub open spec fn key_of(event: KeyboardEvent) -> String {
    match event {
        KeyboardEvent::KeyPress { key } => key,
        KeyboardEvent::KeyRelease { key } => key,
    }
}

/// What an event of a device becomes. A press becomes a press of each key that its key stands for,
/// and a release likewise. Other events stay as they are.
pub open spec fn event_becomes(device: DeviceConfig, event: InputEvent) -> Seq<InputEvent> {
    match event {
        InputEvent::Keyboard(e) => {
            let keys = key_becomes(device, key_of(e));
            Seq::new(keys.len(), |i: int| InputEvent::Keyboard(with_key(e, keys[i])))
        },
        _ => seq![event],
    }
}

/// What the events of a device become, in order.
pub open spec fn events_become(device: DeviceConfig, events: Seq<InputEvent>) -> Seq<InputEvent>
    decreases events.len(),
{
    if events.len() == 0 {
        Seq::empty()
    } else {
        events_become(device, events.drop_last()) + event_becomes(device, events.last())
    }
}

/// What a packet becomes. That of a device without configuration stays as it is.
pub open spec fn packet_becomes(config: AppConfig, packet: PacketView) -> PacketView {
    if config.device@.contains_key(packet.device_id) {
        PacketView {
            events: events_become(config.device@[packet.device_id], packet.events),
            ..packet
        }
    } else {
        packet
    }
}

/// The output that a device is configured for.
pub open spec fn device_backend(config: AppConfig, device_id: Seq<char>) -> Option<Seq<char>> {
    if config.device@.contains_key(device_id) {
        Some(config.device@[device_id].map_backend@)
    } else {
        None
    }
}

/// Appends the event with each of the keys.
fn push_each(events: &mut Vec<InputEvent>, event: &KeyboardEvent, keys: &Vec<String>)
    ensures
        final(events)@ == old(events)@ + Seq::new(
            keys@.len(),
            |i: int| InputEvent::Keyboard(with_key(*event, keys@[i])),
        ),
{
    let ghost all = Seq::new(
        keys@.len(),
        |i: int| InputEvent::Keyboard(with_key(*event, keys@[i])),
    );
    let mut i: usize = 0;
    assert(events@ =~= old(events)@ + all.take(0));
    while i < keys.len()
        invariant
            i <= keys.len(),
            all == Seq::new(
                keys@.len(),
                |i: int| InputEvent::Keyboard(with_key(*event, keys@[i])),
            ),
            events@ == old(events)@ + all.take(i as int),
        decreases keys.len() - i,
    {
        let key = keys[i].clone();
        let e = match event {
            KeyboardEvent::KeyPress { .. } => KeyboardEvent::KeyPress { key },
            KeyboardEvent::KeyRelease { .. } => KeyboardEvent::KeyRelease { key },
        };
        events.push(InputEvent::Keyboard(e));
        assert(all.take(i + 1) =~= all.take(i as int).push(all[i as int]));
        assert(events@ =~= old(events)@ + all.take(i + 1));
        i = i + 1;
    }
    assert(all.take(i as int) =~= all);
}

/// Appends what an event becomes.
fn push_transformed(events: &mut Vec<InputEvent>, device: &DeviceConfig, event: &InputEvent)
    ensures
        final(events)@ == old(events)@ + event_becomes(*device, *event),
{
    match event {
        InputEvent::Keyboard(e) => {
            let key = match e {
                KeyboardEvent::KeyPress { key } => key,
                KeyboardEvent::KeyRelease { key } => key,
            };
            match device.remap.get(key.as_str()) {
                Some(KeyExpr::Single(single)) => {
                    let mut keys: Vec<String> = Vec::new();
                    keys.push(single.clone());
                    push_each(events, e, &keys);
                    assert(keys@ =~= key_becomes(*device, *key));
                },
                Some(KeyExpr::Combo(keys)) => {
                    push_each(events, e, keys);
                },
                Some(KeyExpr::Sequence(keys)) => {
                    push_each(events, e, keys);
                },
                None => {
                    if !device.remap_whitelist {
                        events.push(event.clone());
                    }
                },
            }
            assert(events@ =~= old(events)@ + event_becomes(*device, *event));
        },
        _ => {
            events.push(event.clone());
        },
    }
}

/// The filter that remaps the keys of each device as the configuration says.
#[derive(Debug)]
pub struct DeviceFilter {
    pub config: Arc<AppConfig>,
}

impl Clone for DeviceFilter {
    fn clone(&self) -> (r: Self)
        ensures
            r == *self,
    {
        DeviceFilter { config: self.config.clone() }
    }
}

impl DeviceFilter {
    /// The configuration that the filter goes by.
    pub open spec fn settings(&self) -> AppConfig {
        *self.config
    }

    /// The filter for a configuration.
    pub fn new(config: Arc<AppConfig>) -> (r: Self)
        ensures
            r.config == config,
    {
        DeviceFilter { config }
    }

    /// The output that a device is configured for.
    pub fn get_device_backend(&self, device_id: &str) -> (r: Option<String>)
        ensures
            match r {
                Some(name) => device_backend(self.settings(), device_id@) == Some(name@),
                None => device_backend(self.settings(), device_id@) is None,
            },
    {
        match self.config.device.get(device_id) {
            Some(device) => Some(device.map_backend.clone()),
            None => None,
        }
    }

    /// What a packet becomes.
    pub fn transform_packet(&self, packet: InputEventPacket) -> (r: InputEventPacket)
        ensures
            r@ == packet_becomes(self.settings(), packet@),
    {
        match self.config.device.get(packet.device_id.as_str()) {
            Some(device) => {
                let mut events: Vec<InputEvent> = Vec::new();
                let mut i: usize = 0;
                assert(packet.events@.take(0) =~= Seq::empty());
                while i < packet.events.len()
                    invariant
                        i <= packet.events.len(),
                        events@ == events_become(*device, packet.events@.take(i as int)),
                    decreases packet.events.len() - i,
                {
                    push_transformed(&mut events, device, &packet.events[i]);
                    let ghost now = packet.events@.take(i + 1);
                    assert(now.drop_last() =~= packet.events@.take(i as int));
                    assert(now.last() == packet.events@[i as int]);
                    i = i + 1;
                }
                assert(packet.events@.take(i as int) =~= packet.events@);
                InputEventPacket { device_id: packet.device_id, timestamp: packet.timestamp, events }
            },
            None => packet,
        }
    }
}

/// A device whose remap table is empty and that is not in whitelist mode passes every event
/// unchanged.
pub proof fn empty_remap_passes_all(device: DeviceConfig, events: Seq<InputEvent>)
    requires
        device.remap@ == Map::<Seq<char>, KeyExpr>::empty(),
        !device.remap_whitelist,
    ensures
        events_become(device, events) == events,
    decreases events.len(),
{
    if events.len() > 0 {
        empty_remap_passes_all(device, events.drop_last());
        let event = events.last();
        match event {
            InputEvent::Keyboard(e) => {
                assert(with_key(e, key_of(e)) == e);
                assert(event_becomes(device, event) =~= seq![event]);
            },
            _ => {},
        }
        assert(events.drop_last() + seq![event] =~= events);
    } else {
        assert(events =~= Seq::empty());
    }
}

/// In whitelist mode every key event that comes out carries a key of an expression in the remap
/// table. With an empty table, none comes out.
pub proof fn whitelist_lets_only_remapped_keys_through(
    device: DeviceConfig,
    events: Seq<InputEvent>,
    e: KeyboardEvent,
)
    requires
        device.remap_whitelist,
        events_become(device, events).contains(InputEvent::Keyboard(e)),
    ensures
        exists|k: Seq<char>|
            device.remap@.contains_key(k) && (#[trigger] keys_of(device.remap@[k])).contains(
                key_of(e),
            ),
    decreases events.len(),
{
    let out = events_become(device, events);
    let head = events_become(device, events.drop_last());
    let tail = event_becomes(device, events.last());
    let i = out.index_of(InputEvent::Keyboard(e));
    assert(events.len() > 0);
    if i < head.len() {
        assert(head[i] == InputEvent::Keyboard(e));
        whitelist_lets_only_remapped_keys_through(device, events.drop_last(), e);
    } else {
        assert(tail[i - head.len()] == InputEvent::Keyboard(e));
        let source = events.last();
        assert(source is Keyboard);
        let from = source->Keyboard_0;
        let keys = key_becomes(device, key_of(from));
        let k = key_of(from)@;
        assert(device.remap@.contains_key(k));
        assert(keys == keys_of(device.remap@[k]));
        assert(keys[i - head.len()] == key_of(e));
        assert(keys.contains(key_of(e)));
    }
}

/// Events keep their order: what comes out for a list is what comes out for its front, and then
/// what comes out for its rest.
pub proof fn events_become_in_order(
    device: DeviceConfig,
    front: Seq<InputEvent>,
    rest: Seq<InputEvent>,
)
    ensures
        events_become(device, front + rest) == events_become(device, front) + events_become(
            device,
            rest,
        ),
    decreases rest.len(),
{
    if rest.len() == 0 {
        assert(front + rest =~= front);
        assert(events_become(device, front) + Seq::<InputEvent>::empty() =~= events_become(
            device,
            front,
        ));
    } else {
        events_become_in_order(device, front, rest.drop_last());
        assert((front + rest).drop_last() =~= front + rest.drop_last());
        assert((front + rest).last() == rest.last());
        let a = events_become(device, front);
        let b = events_become(device, rest.drop_last());
        let c = event_becomes(device, rest.last());
        assert((a + b) + c =~= a + (b + c));
    }
}

proof fn lemma_single(device: DeviceConfig, event: InputEvent)
    ensures
        events_become(device, seq![event]) == event_becomes(device, event),
{
    let events = seq![event];
    reveal_with_fuel(events_become, 2);
    assert(events.drop_last() =~= Seq::empty());
    assert(events.last() == event);
    assert(Seq::<InputEvent>::empty() + event_becomes(device, event) =~= event_becomes(
        device,
        event,
    ));
}

/// A press of a key that is mapped comes out as a press of each key of its expression, in order, and
/// a release as a release of each. None is lost, and none comes twice.
pub proof fn mapped_keys_are_pressed_and_released(
    config: AppConfig,
    device_id: Seq<char>,
    timestamp: u64,
    key: String,
    keys: Seq<String>,
)
    requires
        config.device@.contains_key(device_id),
        config.device@[device_id].remap@.contains_key(key@),
        match config.device@[device_id].remap@[key@] {
            KeyExpr::Single(single) => keys == seq![single],
            KeyExpr::Combo(list) => keys == list@,
            KeyExpr::Sequence(list) => keys == list@,
        },
    ensures
        ({
            let presses = seq![InputEvent::Keyboard(KeyboardEvent::KeyPress { key })];
            let releases = seq![InputEvent::Keyboard(KeyboardEvent::KeyRelease { key })];
            let pressed = packet_becomes(
                config,
                PacketView { device_id, timestamp, events: presses },
            ).events;
            let released = packet_becomes(
                config,
                PacketView { device_id, timestamp, events: releases },
            ).events;
            &&& pressed.len() == keys.len()
            &&& released.len() == keys.len()
            &&& forall|i: int|
                0 <= i < keys.len() ==> #[trigger] pressed[i] == InputEvent::Keyboard(
                    KeyboardEvent::KeyPress { key: keys[i] },
                )
            &&& forall|i: int|
                0 <= i < keys.len() ==> #[trigger] released[i] == InputEvent::Keyboard(
                    KeyboardEvent::KeyRelease { key: keys[i] },
                )
        }),
{
    let device = config.device@[device_id];
    lemma_single(device, InputEvent::Keyboard(KeyboardEvent::KeyPress { key }));
    lemma_single(device, InputEvent::Keyboard(KeyboardEvent::KeyRelease { key }));
}

/// A key that is not mapped is dropped in whitelist mode and passes unchanged otherwise, on press
/// and on release. Events that are no key events always pass unchanged.
pub proof fn other_events_pass_or_are_dropped(
    config: AppConfig,
    device_id: Seq<char>,
    timestamp: u64,
    key: String,
    other: InputEvent,
)
    requires
        config.device@.contains_key(device_id),
        !config.device@[device_id].remap@.contains_key(key@),
        other !is Keyboard,
    ensures
        ({
            let press = InputEvent::Keyboard(KeyboardEvent::KeyPress { key });
            let release = InputEvent::Keyboard(KeyboardEvent::KeyRelease { key });
            let whitelist = config.device@[device_id].remap_whitelist;
            let pressed = packet_becomes(
                config,
                PacketView { device_id, timestamp, events: seq![press] },
            ).events;
            let released = packet_becomes(
                config,
                PacketView { device_id, timestamp, events: seq![release] },
            ).events;
            let passed = packet_becomes(
                config,
                PacketView { device_id, timestamp, events: seq![other] },
            ).events;
            &&& whitelist ==> pressed.len() == 0 && released.len() == 0
            &&& !whitelist ==> pressed == seq![press] && released == seq![release]
            &&& passed == seq![other]
        }),
{
    let device = config.device@[device_id];
    let press = InputEvent::Keyboard(KeyboardEvent::KeyPress { key });
    let release = InputEvent::Keyboard(KeyboardEvent::KeyRelease { key });
    lemma_single(device, press);
    lemma_single(device, release);
    lemma_single(device, other);
    if !device.remap_whitelist {
        assert(event_becomes(device, press) =~= seq![press]);
        assert(event_becomes(device, release) =~= seq![release]);
    }
}

/// What comes out for a packet is what comes out for its first events, and then what comes out for
/// the others. A packet keeps its device and its time, and that of a device without configuration
/// is the same afterwards.
pub proof fn packets_become_event_by_event(
    config: AppConfig,
    device_id: Seq<char>,
    timestamp: u64,
    front: Seq<InputEvent>,
    rest: Seq<InputEvent>,
)
    ensures
        ({
            let a = packet_becomes(config, PacketView { device_id, timestamp, events: front });
            let b = packet_becomes(config, PacketView { device_id, timestamp, events: rest });
            let whole = PacketView { device_id, timestamp, events: front + rest };
            let c = packet_becomes(config, whole);
            &&& c.events == a.events + b.events
            &&& c.device_id == device_id
            &&& c.timestamp == timestamp
            &&& !config.device@.contains_key(device_id) ==> c == whole
            &&& packet_becomes(
                config,
                PacketView { device_id, timestamp, events: Seq::empty() },
            ).events.len() == 0
        }),
{
    if config.device@.contains_key(device_id) {
        events_become_in_order(config.device@[device_id], front, rest);
    }
}

/// Texts with `+` between them denote a combo of these texts, and texts with `,` between them a
/// sequence, each without the whitespace around it. A text with neither denotes itself. A text with
/// both denotes a combo, in which the commas stay.
pub proof fn separators_make_combos_and_sequences(parts: Seq<Seq<char>>, text: Seq<char>)
    requires
        parts.len() > 1,
        forall|i: int| 0 <= i < parts.len() ==> !(#[trigger] parts[i]).contains('+'),
        !text.contains('+'),
        !text.contains(','),
    ensures
        ({
            let combo = parsed_expr(join_text(parts, seq!['+']));
            &&& combo is Combo
            &&& combo->Combo_0.len() == parts.len()
            &&& forall|i: int|
                0 <= i < parts.len() ==> #[trigger] combo->Combo_0[i] == trim_text(parts[i])
        }),
        (forall|i: int| 0 <= i < parts.len() ==> !(#[trigger] parts[i]).contains(',')) ==> {
            let sequence = parsed_expr(join_text(parts, seq![',']));
            &&& sequence is Sequence
            &&& sequence->Sequence_0.len() == parts.len()
            &&& forall|i: int|
                0 <= i < parts.len() ==> #[trigger] sequence->Sequence_0[i] == trim_text(parts[i])
        },
        parsed_expr(text) == KeyExprView::Single(trim_text(text)),
{
    lemma_join_has(parts, '+');
    split_undoes_join(parts, '+');
    if forall|i: int| 0 <= i < parts.len() ==> !(#[trigger] parts[i]).contains(',') {
        lemma_join_chars(parts, ',', '+');
        split_undoes_join(parts, ',');
    }
}

proof fn lemma_join_has(parts: Seq<Seq<char>>, sep: char)
    requires
        parts.len() > 1,
    ensures
        join_text(parts, seq![sep]).contains(sep),
{
    let s = join_text(parts, seq![sep]);
    assert(s[parts[0].len() as int] == sep);
}

/// The text of an expression has its keys in order, with the separator of its kind between two of
/// them and nowhere else.
pub proof fn expressions_are_written_key_by_key(keys: Seq<Seq<char>>, key: Seq<char>)
    ensures
        expr_text(KeyExprView::Single(key)) == key,
        expr_text(KeyExprView::Combo(seq![key])) == key,
        expr_text(KeyExprView::Sequence(seq![key])) == key,
        keys.len() > 0 ==> {
            &&& expr_text(KeyExprView::Combo(seq![key] + keys)) == key + seq!['+'] + expr_text(
                KeyExprView::Combo(keys),
            )
            &&& expr_text(KeyExprView::Sequence(seq![key] + keys)) == key + seq![','] + expr_text(
                KeyExprView::Sequence(keys),
            )
        },
{
    reveal_strlit("+");
    reveal_strlit(",");
    assert("+"@ =~= seq!['+']);
    assert(","@ =~= seq![',']);
    assert((seq![key] + keys).drop_first() =~= keys);
}

/// Two expressions with the same view hold the same keys in the same order, and are of one kind.
pub proof fn expression_views_lose_nothing(a: KeyExpr, b: KeyExpr)
    requires
        a@ == b@,
    ensures
        match (a, b) {
            (KeyExpr::Single(x), KeyExpr::Single(y)) => x@ == y@,
            (KeyExpr::Combo(x), KeyExpr::Combo(y)) => x@.len() == y@.len() && forall|i: int|
                0 <= i < x@.len() ==> (#[trigger] x@[i])@ == y@[i]@,
            (KeyExpr::Sequence(x), KeyExpr::Sequence(y)) => x@.len() == y@.len() && forall|i: int|
                0 <= i < x@.len() ==> (#[trigger] x@[i])@ == y@[i]@,
            _ => false,
        },
{
    match (a, b) {
        (KeyExpr::Combo(x), KeyExpr::Combo(y)) => {
            same_strings(x@, y@);
        },
        (KeyExpr::Sequence(x), KeyExpr::Sequence(y)) => {
            same_strings(x@, y@);
        },
        _ => {},
    }
}

} // verus!
