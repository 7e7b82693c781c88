//! The echo web server: its pages, and the socket that echoes a client's
//! messages and forwards every Kafka record to it.
use vstd::prelude::*;
use crate::text::{owned, utf8_decoded, utf8_text};
use crate::web::{permanent_redirect, Mount, Redirect, PERMANENT_REDIRECT};

verus! {

/// The consumer group of the echo server.
pub const GROUP_ID: &'static str = "test-group";

/// The broker the echo server reads from.
pub const BROKERS: &'static str = "localhost:9092";

/// The topic the echo server subscribes to.
pub const TOPIC: &'static str = "test-topic";

/// The home page.
pub const HOME_PAGE: &'static str = "/frontend/index.html";

/// What happens to an echo socket.
pub enum EchoEvent {
    /// The client sent a message.
    ClientMessage,
    /// Reading from the client failed.
    ClientFailed,
    /// A Kafka record arrived, with its payload if it has one.
    Record { payload: Option<Vec<u8>> },
    /// Reading from Kafka failed, with the error's description.
    BrokerFailed(String),
    /// A forwarded record text was sent (`true`) or could not be sent (`false`).
    Sent(bool),
}

/// What the echo socket asks to be done next.
pub enum EchoAction {
    /// Nothing: wait for the next event.
    Wait,
    /// Send the client's message back to it, whatever comes of the sending.
    EchoBack,
    /// Send this text to the client.
    Forward(String),
    /// Report this error line.
    Report(String),
    /// End the session.
    Stop,
}

/// The contents of an `EchoAction`.
pub enum EchoReaction {
    Wait,
    EchoBack,
    Forward(Seq<char>),
    Report(Seq<char>),
    Stop,
}

impl View for EchoAction {
    type V = EchoReaction;

    open spec fn view(&self) -> EchoReaction {
        match self {
            EchoAction::Wait => EchoReaction::Wait,
            EchoAction::EchoBack => EchoReaction::EchoBack,
            EchoAction::Forward(t) => EchoReaction::Forward(t@),
            EchoAction::Report(t) => EchoReaction::Report(t@),
            EchoAction::Stop => EchoReaction::Stop,
        }
    }
}

/// The text forwarded for a record payload: its UTF-8 decoding, or nothing
/// when it is not UTF-8.
pub open spec fn record_text(payload: Seq<u8>) -> Seq<char> {
    match utf8_decoded(payload) {
        Some(t) => t,
        None => Seq::empty(),
    }
}

/// The reaction of the echo socket to `event`.
pub open spec fn echo_reaction(event: EchoEvent) -> EchoReaction {
    match event {
        EchoEvent::ClientMessage => EchoReaction::EchoBack,
        EchoEvent::ClientFailed => EchoReaction::Wait,
        EchoEvent::Record { payload } => match payload {
            Some(p) => EchoReaction::Forward(record_text(p@)),
            None => EchoReaction::Wait,
        },
        EchoEvent::BrokerFailed(e) => EchoReaction::Report("Kafka error: "@ + e@),
        EchoEvent::Sent(ok) => if ok {
            EchoReaction::Wait
        } else {
            EchoReaction::Stop
        },
    }
}

/// Reacts to `event`: echoes client messages, forwards every record with a
/// payload, reports broker errors, and ends when a forwarded text cannot be sent.
pub fn echo_step(event: EchoEvent) -> (action: EchoAction)
    ensures
        action@ == echo_reaction(event),
{
    match event {
        EchoEvent::ClientMessage => EchoAction::EchoBack,
        EchoEvent::ClientFailed => EchoAction::Wait,
        EchoEvent::Record { payload } => match payload {
            Some(p) => {
                let text = match utf8_text(p.as_slice()) {
                    Some(t) => t,
                    None => String::new(),
                };
                EchoAction::Forward(text)
            },
            None => EchoAction::Wait,
        },
        EchoEvent::BrokerFailed(e) => {
            let mut line = owned("Kafka error: ");
            line.append(e.as_str());
            EchoAction::Report(line)
        },
        EchoEvent::Sent(ok) => if ok {
            EchoAction::Wait
        } else {
            EchoAction::Stop
        },
    }
}

/// The home page: a permanent redirect to the front end's index.
pub fn index() -> (r: Redirect)
    ensures
        r.status == PERMANENT_REDIRECT,
        r.location@ == HOME_PAGE@,
{
    permanent_redirect(HOME_PAGE)
}

/// The routes of the echo server: the home page and the echo socket, mounted
/// at the root.
pub fn rocket() -> (m: Mount)
    ensures
        m.base@ == "/"@,
        m.routes@.len() == 2,
        m.routes[0]@ == "/"@,
        m.routes[1]@ == "/echo"@,
{
    let mut routes: Vec<String> = Vec::new();
    routes.push(owned("/"));
    routes.push(owned("/echo"));
    Mount { base: owned("/"), routes }
}

/// Every record that carries a payload is forwarded, whatever its key.
pub proof fn law_every_record_is_forwarded(payload: Vec<u8>)
    ensures
        echo_reaction(EchoEvent::Record { payload: Some(payload) }) == EchoReaction::Forward(
            record_text(payload@),
        ),
{
}

/// The echo socket ends only when a forwarded text cannot be sent; a client
/// message is always echoed.
pub proof fn law_echo_stops_only_on_failed_send(event: EchoEvent)
    ensures
        echo_reaction(event) == EchoReaction::Stop <==> event == EchoEvent::Sent(false),
        event is ClientMessage ==> echo_reaction(event) == EchoReaction::EchoBack,
{
}

/// A record's forwarded text is the whole UTF-8 decoding of its payload, and
/// empty when the payload is not UTF-8.
pub proof fn law_forwarded_text_is_whole_payload(payload: Vec<u8>)
    ensures
        utf8_decoded(payload@) matches Some(t) ==> echo_reaction(EchoEvent::Record { payload: Some(payload) })
            == EchoReaction::Forward(t),
        utf8_decoded(payload@) is None ==> echo_reaction(EchoEvent::Record { payload: Some(payload) })
            == EchoReaction::Forward(Seq::empty()),
{
}

} // verus!
