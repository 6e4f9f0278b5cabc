//! The Unix socket: what a connection does, event by event.
//!
//! A connection reads lines of its client and writes the messages that are queued for it, one on
//! each line.
use vstd::prelude::*;

use crate::input::io_server::{default_settings, ClientNode, IoInboundMessage};
use crate::input::transport::{
    handle_line, inbound_messages, is_line_action, line_client, line_of,
    message_line, messages_are_appended, messages_are_read_back, unix_client_id, written, Action,
    LineTransport, ParsedText,
};
use crate::text::{decimal_text, split_text};

verus! {

/// The server on a Unix socket.
#[derive(Debug)]
pub struct UnixSocketServer {
    pub socket_path: String,
}

/// What happens on a connection.
#[derive(Debug)]
pub enum ConnectionEvent {
    /// The client sent a line, which is not blank.
    Line(ParsedText),
    /// A message is queued for the client: its JSON.
    Queued(String),
}

/// Whether an action is what the connection of a client does on an event.
pub open spec fn is_client_action(
    client_id: String,
    event: ConnectionEvent,
    action: Action,
) -> bool {
    match event {
        ConnectionEvent::Line(parsed) => is_line_action(
            LineTransport::UnixSocket,
            client_id,
            parsed,
            action,
        ),
        ConnectionEvent::Queued(json) => action matches Action::Reply(text) && text@ == line_of(
            json@,
        ),
    }
}

impl UnixSocketServer {
    /// A server at a path.
    pub fn new(socket_path: String) -> (r: Self)
        ensures
            r.socket_path == socket_path,
    {
        UnixSocketServer { socket_path }
    }

    /// The client of a new connection, in the process with a number.
    pub fn client(process: u32) -> (r: ClientNode)
        ensures
            r.id@ == "unix_socket_"@ + decimal_text(process as nat),
            r.client_settings@ == default_settings(),
    {
        line_client(unix_client_id(process))
    }

    /// One step of serving a client: what the connection does on an event. A line goes to the
    /// server or is rejected; a queued message is written as a line.
    pub fn handle_client(client_id: String, event: ConnectionEvent) -> (r: Action)
        ensures
            is_client_action(client_id, event, r),
    {
        match event {
            ConnectionEvent::Line(parsed) => handle_line(
                LineTransport::UnixSocket,
                client_id,
                parsed,
            ),
            ConnectionEvent::Queued(json) => Action::Reply(message_line(json.as_str())),
        }
    }
}

/// Whether a connection of a client did what it does on each of its events.
pub open spec fn served(client_id: String, steps: Seq<(ConnectionEvent, Action)>) -> bool {
    forall|i: int|
        0 <= i < steps.len() ==> is_client_action(client_id, (#[trigger] steps[i]).0, steps[i].1)
}

/// The lines that the client sent, in order.
pub open spec fn lines_in(steps: Seq<(ConnectionEvent, Action)>) -> Seq<ParsedText>
    decreases steps.len(),
{
    if steps.len() == 0 {
        Seq::empty()
    } else {
        match steps.last().0 {
            ConnectionEvent::Line(parsed) => lines_in(steps.drop_last()).push(parsed),
            ConnectionEvent::Queued(_) => lines_in(steps.drop_last()),
        }
    }
}

/// The messages that were queued for the client, in order.
pub open spec fn queued_in(steps: Seq<(ConnectionEvent, Action)>) -> Seq<Seq<char>>
    decreases steps.len(),
{
    if steps.len() == 0 {
        Seq::empty()
    } else {
        match steps.last().0 {
            ConnectionEvent::Line(_) => queued_in(steps.drop_last()),
            ConnectionEvent::Queued(json) => queued_in(steps.drop_last()).push(json@),
        }
    }
}

/// What the connection handed on to the server, in order.
pub open spec fn forwarded_in(steps: Seq<(ConnectionEvent, Action)>) -> Seq<IoInboundMessage>
    decreases steps.len(),
{
    if steps.len() == 0 {
        Seq::empty()
    } else {
        match steps.last().1 {
            Action::Forward(message) => forwarded_in(steps.drop_last()).push(message),
            _ => forwarded_in(steps.drop_last()),
        }
    }
}

/// What the connection wrote.
pub open spec fn sent_in(steps: Seq<(ConnectionEvent, Action)>) -> Seq<char>
    decreases steps.len(),
{
    if steps.len() == 0 {
        Seq::empty()
    } else {
        match steps.last().1 {
            Action::Reply(text) => sent_in(steps.drop_last()) + text@,
            _ => sent_in(steps.drop_last()),
        }
    }
}

/// A connection serves its client in order, whatever comes in between. The server gets the message
/// of each line, once, in the order of the lines and under the name of the client. What is written
/// is the line of each queued message, in the order of the queue. While no message has a newline in
/// it, the client reads back the messages, one on each line.
pub proof fn clients_are_served_in_order(client_id: String, steps: Seq<(ConnectionEvent, Action)>)
    requires
        served(client_id, steps),
    ensures
        forwarded_in(steps) == inbound_messages(client_id, lines_in(steps)),
        sent_in(steps) == written(queued_in(steps)),
        (forall|i: int|
            0 <= i < queued_in(steps).len() ==> !(#[trigger] queued_in(steps)[i]).contains('\n'))
            ==> split_text(sent_in(steps), '\n') == queued_in(steps).push(Seq::empty()),
{
    lemma_served(client_id, steps);
    if forall|i: int|
        0 <= i < queued_in(steps).len() ==> !(#[trigger] queued_in(steps)[i]).contains('\n') {
        messages_are_read_back(queued_in(steps));
    }
}

proof fn lemma_served(client_id: String, steps: Seq<(ConnectionEvent, Action)>)
    requires
        served(client_id, steps),
    ensures
        forwarded_in(steps) == inbound_messages(client_id, lines_in(steps)),
        sent_in(steps) == written(queued_in(steps)),
    decreases steps.len(),
{
    if steps.len() > 0 {
        let front = steps.drop_last();
        let (event, action) = steps.last();
        assert(served(client_id, front)) by {
            assert forall|i: int| 0 <= i < front.len() implies is_client_action(
                client_id,
                (#[trigger] front[i]).0,
                front[i].1,
            ) by {
                assert(front[i] == steps[i]);
            }
        }
        lemma_served(client_id, front);
        assert(steps[steps.len() - 1] == steps.last());
        assert(is_client_action(client_id, event, action));
        match event {
            ConnectionEvent::Line(parsed) => {
                let lines = lines_in(front).push(parsed);
                assert(lines.drop_last() =~= lines_in(front));
                assert(lines.last() == parsed);
            },
            ConnectionEvent::Queued(json) => {
                messages_are_appended(queued_in(front), json@);
            },
        }
    }
}

} // verus!
