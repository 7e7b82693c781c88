//! The stock web server: its pages, and the feed that forwards to a web
//! socket client the Kafka records of the stocks it subscribed to.
use vstd::prelude::*;
use crate::text::{decimal, owned, push_decimal, utf8_decoded, utf8_text};
use crate::web::{permanent_redirect, Mount, Redirect, PERMANENT_REDIRECT};

verus! {

/// The consumer group of the server.
pub const GROUP_ID: &'static str = "stocks";

/// The topic the server subscribes to.
pub const TOPIC: &'static str = "stocks";

/// The text forwarded in place of a payload that is not UTF-8.
pub const UNREADABLE_PAYLOAD: &'static str = "toto not working";

/// The home page.
pub const HOME_PAGE: &'static str = "/static/index.html";

/// The decoded text of a record key; empty when the key is not UTF-8.
pub open spec fn key_text(key: Seq<u8>) -> Seq<char> {
    match utf8_decoded(key) {
        Some(t) => t,
        None => Seq::empty(),
    }
}

/// The text forwarded for a record payload: its UTF-8 decoding, or the
/// placeholder when it is not UTF-8.
pub open spec fn payload_text(payload: Seq<u8>) -> Seq<char> {
    match utf8_decoded(payload) {
        Some(t) => t,
        None => UNREADABLE_PAYLOAD@,
    }
}

/// The line describing the broker settings.
pub open spec fn info_text(host: Seq<char>, port: nat) -> Seq<char> {
    "Kafka Host: "@ + host + ", Port: "@ + decimal(port)
}

/// What happens to a stock feed: a client message or failure, a Kafka record
/// or failure, or the outcome of sending a forwarded text.
pub enum FeedEvent {
    /// The client closed the socket.
    ClientClosed,
    /// The client sent a message, here as its text: the name of a stock.
    ClientText(String),
    /// Reading from the client failed.
    ClientFailed,
    /// A Kafka record arrived, with its key and payload if it has them.
    Record { key: Option<Vec<u8>>, payload: Option<Vec<u8>> },
    /// Reading from Kafka failed, with the error's description.
    BrokerFailed(String),
    /// A forwarded text was sent (`true`) or could not be sent (`false`).
    Sent(bool),
}

/// What the feed asks to be done next.
pub enum FeedAction {
    /// Nothing: wait for the next event.
    Wait,
    /// Send this text to the client.
    Forward(String),
    /// Report this error line.
    Report(String),
    /// End the session.
    Stop,
}

/// The contents of a `FeedAction`.
pub enum Reaction {
    Wait,
    Forward(Seq<char>),
    Report(Seq<char>),
    Stop,
}

impl View for FeedAction {
    type V = Reaction;

    open spec fn view(&self) -> Reaction {
        match self {
            FeedAction::Wait => Reaction::Wait,
            FeedAction::Forward(t) => Reaction::Forward(t@),
            FeedAction::Report(t) => Reaction::Report(t@),
            FeedAction::Stop => Reaction::Stop,
        }
    }
}

/// One step of a feed whose client subscribed to the stocks `subscribed`:
/// the subscriptions after the event, and the reaction to it.
pub open spec fn feed_step(subscribed: Set<Seq<char>>, event: FeedEvent) -> (Set<Seq<char>>, Reaction) {
    match event {
        FeedEvent::ClientClosed => (subscribed, Reaction::Stop),
        FeedEvent::ClientText(name) => (subscribed.insert(name@), Reaction::Wait),
        FeedEvent::ClientFailed => (subscribed, Reaction::Wait),
        FeedEvent::Record { key, payload } => match (key, payload) {
            (Some(k), Some(p)) => if subscribed.contains(key_text(k@)) {
                (subscribed, Reaction::Forward(payload_text(p@)))
            } else {
                (subscribed, Reaction::Wait)
            },
            _ => (subscribed, Reaction::Wait),
        },
        FeedEvent::BrokerFailed(e) => (subscribed, Reaction::Report("Kafka error: "@ + e@)),
        FeedEvent::Sent(ok) => (subscribed, if ok {
            Reaction::Wait
        } else {
            Reaction::Stop
        }),
    }
}

/// The subscriptions of one web socket client: the stock names it sent,
/// each held once.
pub struct StockFeed {
    stocks: Vec<String>,
}

impl View for StockFeed {
    type V = Set<Seq<char>>;

    closed spec fn view(&self) -> Set<Seq<char>> {
        Set::new(|name: Seq<char>| exists|i: int| 0 <= i < self.stocks.len() && #[trigger] self.stocks[i]@ == name)
    }
}

impl StockFeed {
    #[verifier::type_invariant]
    spec fn each_once(self) -> bool {
        forall|i: int, j: int|
            0 <= i < j < self.stocks.len() ==> #[trigger] self.stocks[i]@ != #[trigger] self.stocks[j]@
    }

    /// A feed with no subscription.
    pub fn new() -> (f: StockFeed)
        ensures
            f@ == Set::<Seq<char>>::empty(),
    {
        let f = StockFeed { stocks: Vec::new() };
        assert(f@ =~= Set::<Seq<char>>::empty());
        f
    }

    /// Whether the client subscribed to `name`.
    pub fn is_subscribed(&self, name: &String) -> (r: bool)
        ensures
            r == self@.contains(name@),
    {
        let mut i: usize = 0;
        while i < self.stocks.len()
            invariant
                i <= self.stocks.len(),
                forall|k: int| 0 <= k < i ==> #[trigger] self.stocks[k]@ != name@,
            decreases self.stocks.len() - i,
        {
            if self.stocks[i] == *name {
                assert(self.stocks[i as int]@ == name@);
                return true;
            }
            i = i + 1;
        }
        assert(!self@.contains(name@));
        false
    }

    /// Adds `name` to the subscriptions.
    pub fn subscribe(&mut self, name: String)
        ensures
            final(self)@ == old(self)@.insert(name@),
    {
        proof {
            use_type_invariant(&*self);
        }
        if !self.is_subscribed(&name) {
            let ghost before = self.stocks@;
            let ghost added = name@;
            let mut stocks: Vec<String> = Vec::new();
            std::mem::swap(&mut stocks, &mut self.stocks);
            stocks.push(name);
            proof {
                assert(stocks@ == before.push(name));
                assert forall|i: int, j: int| 0 <= i < j < stocks.len() implies #[trigger] stocks[i]@
                    != #[trigger] stocks[j]@ by {
                    if j == before.len() {
                        assert(old(self)@.contains(stocks[i]@));
                    }
                }
            }
            self.stocks = stocks;
            assert(self@ =~= old(self)@.insert(added)) by {
                assert forall|n: Seq<char>| #[trigger] self@.contains(n) implies old(self)@.insert(added).contains(n) by {
                    let i = choose|i: int| 0 <= i < self.stocks.len() && #[trigger] self.stocks[i]@ == n;
                    if i < before.len() {
                        assert(old(self).stocks[i]@ == n);
                    }
                }
                assert forall|n: Seq<char>| #[trigger] old(self)@.insert(added).contains(n) implies self@.contains(n) by {
                    if n == added {
                        assert(self.stocks[before.len() as int]@ == n);
                    } else {
                        let i = choose|i: int| 0 <= i < old(self).stocks.len() && #[trigger] old(self).stocks[i]@ == n;
                        assert(self.stocks[i]@ == n);
                    }
                }
            }
        } else {
            assert(old(self)@.insert(name@) =~= old(self)@);
        }
    }

    /// Reacts to `event`: records a subscription, forwards a record of a
    /// subscribed stock, reports a broker error, or ends the session.
    pub fn step(&mut self, event: FeedEvent) -> (action: FeedAction)
        ensures
            (final(self)@, action@) == feed_step(old(self)@, event),
    {
        match event {
            FeedEvent::ClientClosed => FeedAction::Stop,
            FeedEvent::ClientText(name) => {
                self.subscribe(name);
                FeedAction::Wait
            },
            FeedEvent::ClientFailed => FeedAction::Wait,
            FeedEvent::Record { key, payload } => match (key, payload) {
                (Some(k), Some(p)) => {
                    let name = match utf8_text(k.as_slice()) {
                        Some(t) => t,
                        None => String::new(),
                    };
                    if self.is_subscribed(&name) {
                        let text = match utf8_text(p.as_slice()) {
                            Some(t) => t,
                            None => owned(UNREADABLE_PAYLOAD),
                        };
                        FeedAction::Forward(text)
                    } else {
                        FeedAction::Wait
                    }
                },
                _ => FeedAction::Wait,
            },
            FeedEvent::BrokerFailed(e) => {
                let mut line = owned("Kafka error: ");
                line.append(e.as_str());
                FeedAction::Report(line)
            },
            FeedEvent::Sent(ok) => if ok {
                FeedAction::Wait
            } else {
                FeedAction::Stop
            },
        }
    }
}

/// The home page: a permanent redirect to the static index.
pub fn index() -> (r: Redirect)
    ensures
        r.status == PERMANENT_REDIRECT,
        r.location@ == HOME_PAGE@,
{
    permanent_redirect(HOME_PAGE)
}

/// The line describing the broker the server reads from.
pub fn kafka_info(kafka_host: &str, kafka_port: u16) -> (r: String)
    ensures
        r@ == info_text(kafka_host@, kafka_port as nat),
{
    let mut r = owned("Kafka Host: ");
    r.append(kafka_host);
    r.append(", Port: ");
    push_decimal(&mut r, kafka_port);
    r
}

/// The routes of the server: the home page, the feed socket and the broker
/// description, mounted at the root.
pub fn mount() -> (m: Mount)
    ensures
        m.base@ == "/"@,
        m.routes@.len() == 3,
        m.routes[0]@ == "/"@,
        m.routes[1]@ == "/echo"@,
        m.routes[2]@ == "/kafka_info"@,
{
    let mut routes: Vec<String> = Vec::new();
    routes.push(owned("/"));
    routes.push(owned("/echo"));
    routes.push(owned("/kafka_info"));
    Mount { base: owned("/"), routes }
}

/// The feed never drops a subscription.
pub proof fn law_subscriptions_persist(subscribed: Set<Seq<char>>, event: FeedEvent)
    ensures
        subscribed.subset_of(feed_step(subscribed, event).0),
{
}

/// Once the client sent the name of a stock, a record keyed by that name
/// (in UTF-8) and carrying a payload is forwarded, as the payload's text.
pub proof fn law_subscribed_stock_is_forwarded(
    subscribed: Set<Seq<char>>,
    name: String,
    key: Vec<u8>,
    payload: Vec<u8>,
)
    requires
        utf8_decoded(key@) == Some(name@),
    ensures
        ({
            let after = feed_step(subscribed, FeedEvent::ClientText(name)).0;
            feed_step(after, FeedEvent::Record { key: Some(key), payload: Some(payload) }).1
                == Reaction::Forward(payload_text(payload@))
        }),
{
}

/// Only records of subscribed stocks are forwarded, and as their payload's text.
pub proof fn law_forwards_only_subscribed(subscribed: Set<Seq<char>>, event: FeedEvent)
    ensures
        feed_step(subscribed, event).1 is Forward ==> (event matches FeedEvent::Record {
            key: Some(k),
            payload: Some(p),
        } && subscribed.contains(key_text(k@)) && feed_step(subscribed, event).1 == Reaction::Forward(
            payload_text(p@),
        )),
{
}

/// The session ends only when the client closes it or a forwarded text cannot
/// be sent.
pub proof fn law_stops_only_on_close_or_failed_send(subscribed: Set<Seq<char>>, event: FeedEvent)
    ensures
        feed_step(subscribed, event).1 == Reaction::Stop <==> (event is ClientClosed || event
            == FeedEvent::Sent(false)),
{
}

/// Only a client message changes the subscriptions.
pub proof fn law_only_client_text_subscribes(subscribed: Set<Seq<char>>, event: FeedEvent)
    ensures
        !(event is ClientText) ==> feed_step(subscribed, event).0 == subscribed,
{
}

/// A client message subscribes to exactly the text it carries, in full.
pub proof fn law_client_text_subscribes_to_its_text(subscribed: Set<Seq<char>>, name: String)
    ensures
        feed_step(subscribed, FeedEvent::ClientText(name)).0 == subscribed.insert(name@),
        feed_step(subscribed, FeedEvent::ClientText(name)).0.contains(name@),
        forall|other: Seq<char>|
            #![trigger feed_step(subscribed, FeedEvent::ClientText(name)).0.contains(other)]
            other != name@ ==> (feed_step(subscribed, FeedEvent::ClientText(name)).0.contains(other)
                <==> subscribed.contains(other)),
{
}

/// A record whose key is the UTF-8 encoding of a text is forwarded exactly
/// when that whole text is among the subscriptions; what is forwarded is the
/// whole UTF-8 decoding of its payload.
pub proof fn law_record_forwarded_iff_key_subscribed(
    subscribed: Set<Seq<char>>,
    key: Vec<u8>,
    payload: Vec<u8>,
    name: Seq<char>,
    text: Seq<char>,
)
    requires
        utf8_decoded(key@) == Some(name),
        utf8_decoded(payload@) == Some(text),
    ensures
        feed_step(subscribed, FeedEvent::Record { key: Some(key), payload: Some(payload) }).1
            == (if subscribed.contains(name) {
            Reaction::Forward(text)
        } else {
            Reaction::Wait
        }),
        feed_step(subscribed, FeedEvent::Record { key: Some(key), payload: Some(payload) }).0
            == subscribed,
{
}

/// From a fresh feed, after the client sent one name, a record keyed by the
/// UTF-8 encoding of a text is forwarded exactly when that text is the name.
pub proof fn law_only_the_sent_name_is_forwarded(
    name: String,
    key: Vec<u8>,
    payload: Vec<u8>,
    key_name: Seq<char>,
)
    requires
        utf8_decoded(key@) == Some(key_name),
    ensures
        ({
            let after = feed_step(Set::empty(), FeedEvent::ClientText(name)).0;
            feed_step(after, FeedEvent::Record { key: Some(key), payload: Some(payload) }).1 is Forward
                <==> key_name == name@
        }),
{
}

} // verus!
