use crate::events::{Event, EventType};
use crate::text::{chars_of, is_text, trim_chars, trimmed};
use rustc_hash::FxBuildHasher;
use std::collections::HashMap;
use vstd::prelude::*;

verus! {

/// The longest line, in bytes, that a subscriber may send.
pub const MAX_LINE: usize = 8192;

/// The number of lines that may precede the request of a subscriber.
pub const MAX_PREAMBLE_LINES: usize = 10;

/// The time, in seconds, within which the request of a subscriber must
/// arrive.
pub const HANDSHAKE_TIMEOUT_SECS: u64 = 10;

/// The number of events that may wait for one subscriber.
pub const SUBSCRIBER_CHANNEL_CAPACITY: usize = 100;

impl EventType {
    /// The name of the kind on the wire.
    pub open spec fn spec_name(self) -> Seq<char> {
        match self {
            EventType::RuneEtched => "RuneEtched"@,
            EventType::RuneBurned => "RuneBurned"@,
            EventType::RuneMinted => "RuneMinted"@,
            EventType::RuneTransferred => "RuneTransferred"@,
            EventType::AddressModified => "AddressModified"@,
            EventType::TransactionsAdded => "TransactionsAdded"@,
            EventType::TransactionsReplaced => "TransactionsReplaced"@,
            EventType::NewBlock => "NewBlock"@,
            EventType::Reorg => "Reorg"@,
        }
    }

    /// The kind with the given name: the first of the kinds, in the order
    /// of their declaration, that has it.
    pub open spec fn spec_from_name(name: Seq<char>) -> Option<EventType> {
        if name == "RuneEtched"@ {
            Some(EventType::RuneEtched)
        } else if name == "RuneBurned"@ {
            Some(EventType::RuneBurned)
        } else if name == "RuneMinted"@ {
            Some(EventType::RuneMinted)
        } else if name == "RuneTransferred"@ {
            Some(EventType::RuneTransferred)
        } else if name == "AddressModified"@ {
            Some(EventType::AddressModified)
        } else if name == "TransactionsAdded"@ {
            Some(EventType::TransactionsAdded)
        } else if name == "TransactionsReplaced"@ {
            Some(EventType::TransactionsReplaced)
        } else if name == "NewBlock"@ {
            Some(EventType::NewBlock)
        } else if name == "Reorg"@ {
            Some(EventType::Reorg)
        } else {
            None
        }
    }

    pub fn name(&self) -> (s: String)
        ensures
            s@ == self.spec_name(),
    {
        match self {
            EventType::RuneEtched => "RuneEtched".to_owned(),
            EventType::RuneBurned => "RuneBurned".to_owned(),
            EventType::RuneMinted => "RuneMinted".to_owned(),
            EventType::RuneTransferred => "RuneTransferred".to_owned(),
            EventType::AddressModified => "AddressModified".to_owned(),
            EventType::TransactionsAdded => "TransactionsAdded".to_owned(),
            EventType::TransactionsReplaced => "TransactionsReplaced".to_owned(),
            EventType::NewBlock => "NewBlock".to_owned(),
            EventType::Reorg => "Reorg".to_owned(),
        }
    }

    pub fn from_name(name: &str) -> (r: Option<EventType>)
        ensures
            r == Self::spec_from_name(name@),
    {
        let v = chars_of(name);
        if is_text(&v, "RuneEtched") {
            Some(EventType::RuneEtched)
        } else if is_text(&v, "RuneBurned") {
            Some(EventType::RuneBurned)
        } else if is_text(&v, "RuneMinted") {
            Some(EventType::RuneMinted)
        } else if is_text(&v, "RuneTransferred") {
            Some(EventType::RuneTransferred)
        } else if is_text(&v, "AddressModified") {
            Some(EventType::AddressModified)
        } else if is_text(&v, "TransactionsAdded") {
            Some(EventType::TransactionsAdded)
        } else if is_text(&v, "TransactionsReplaced") {
            Some(EventType::TransactionsReplaced)
        } else if is_text(&v, "NewBlock") {
            Some(EventType::NewBlock)
        } else if is_text(&v, "Reorg") {
            Some(EventType::Reorg)
        } else {
            None
        }
    }
}

/// The request with which a subscriber names the kinds of events it wants.
#[derive(Debug, PartialEq, Eq)]
pub struct TcpSubscriptionRequest {
    pub subscribe: Vec<EventType>,
}

/// Why a handshake failed.
#[derive(Debug, PartialEq, Copy, Clone, Eq, Structural)]
pub enum HandshakeError {
    /// More lines than allowed came before the request.
    TooManyPreambleLines,
    /// The line that should hold the request is no request.
    InvalidJson,
    /// A line was longer than allowed.
    LineTooLong,
    /// The line could not be read.
    Read,
    /// The subscriber left before it sent a request.
    ConnectionClosed,
}

impl HandshakeError {
    pub open spec fn spec_message(self) -> Seq<char> {
        match self {
            HandshakeError::TooManyPreambleLines => "Too many preamble lines before subscription request"@,
            HandshakeError::InvalidJson => "Invalid subscription request JSON"@,
            HandshakeError::LineTooLong => "Line too long"@,
            HandshakeError::Read => "Error reading handshake line"@,
            HandshakeError::ConnectionClosed => "Connection closed before sending subscription request"@,
        }
    }

    pub fn to_string(&self) -> (s: String)
        ensures
            s@ == self.spec_message(),
    {
        match self {
            HandshakeError::TooManyPreambleLines => "Too many preamble lines before subscription request".to_owned(),
            HandshakeError::InvalidJson => "Invalid subscription request JSON".to_owned(),
            HandshakeError::LineTooLong => "Line too long".to_owned(),
            HandshakeError::Read => "Error reading handshake line".to_owned(),
            HandshakeError::ConnectionClosed => "Connection closed before sending subscription request".to_owned(),
        }
    }
}

/// What the server does after a line of the handshake.
#[derive(Debug, PartialEq, Eq)]
pub enum HandshakeAction {
    /// Read the next line.
    Continue,
    /// Answer `PONG`, then read the next line.
    Pong,
    /// Answer `PONG`, then give up with the error.
    PongThenFail(HandshakeError),
    /// The subscriber is accepted with this request.
    Accept(TcpSubscriptionRequest),
    /// Give up with the error.
    Fail(HandshakeError),
}

/// What the server does after a line of the handshake, with the request
/// as a sequence of kinds.
pub enum HandshakeActionView {
    Continue,
    Pong,
    PongThenFail(HandshakeError),
    Accept(Seq<EventType>),
    Fail(HandshakeError),
}

impl View for HandshakeAction {
    type V = HandshakeActionView;

    open spec fn view(&self) -> HandshakeActionView {
        match self {
            HandshakeAction::Continue => HandshakeActionView::Continue,
            HandshakeAction::Pong => HandshakeActionView::Pong,
            HandshakeAction::PongThenFail(e) => HandshakeActionView::PongThenFail(*e),
            HandshakeAction::Accept(r) => HandshakeActionView::Accept(r.subscribe@),
            HandshakeAction::Fail(e) => HandshakeActionView::Fail(*e),
        }
    }
}

/// The views of the strings.
pub open spec fn names_of(names: Seq<String>) -> Seq<Seq<char>> {
    Seq::new(names.len(), |i: int| names[i]@)
}

/// The kinds with the given names, if every name is the name of a kind.
pub open spec fn kinds_of(names: Seq<Seq<char>>) -> Option<Seq<EventType>>
    decreases names.len(),
{
    if names.len() == 0 {
        Some(Seq::empty())
    } else {
        match (kinds_of(names.drop_last()), EventType::spec_from_name(names.last())) {
            (Some(kinds), Some(kind)) => Some(kinds.push(kind)),
            _ => None,
        }
    }
}

pub proof fn lemma_kinds_of_prefix(names: Seq<Seq<char>>, k: int)
    requires
        0 <= k <= names.len(),
        kinds_of(names.take(k)).is_none(),
    ensures
        kinds_of(names).is_none(),
    decreases names.len() - k,
{
    if k < names.len() {
        assert(names.take(k + 1).drop_last() =~= names.take(k));
        lemma_kinds_of_prefix(names, k + 1);
    } else {
        assert(names.take(k) =~= names);
    }
}

/// The kinds with the given names.
pub fn find_kinds(names: &Vec<String>) -> (r: Option<Vec<EventType>>)
    ensures
        r.is_some() == kinds_of(names_of(names@)).is_some(),
        r.is_some() ==> r.unwrap()@ == kinds_of(names_of(names@)).unwrap(),
{
    let ghost all = names_of(names@);
    let mut kinds: Vec<EventType> = Vec::new();
    let mut i: usize = 0;
    while i < names.len()
        invariant
            i <= names.len(),
            all == names_of(names@),
            kinds_of(all.take(i as int)) == Some(kinds@),
        decreases names.len() - i,
    {
        proof {
            assert(all.take(i + 1).drop_last() =~= all.take(i as int));
            assert(all.take(i + 1).last() == names@[i as int]@);
        }
        match EventType::from_name(names[i].as_str()) {
            Some(kind) => {
                kinds.push(kind);
            },
            None => {
                proof {
                    lemma_kinds_of_prefix(all, i + 1);
                }
                return None;
            },
        }
        i = i + 1;
    }
    proof {
        assert(all.take(names.len() as int) =~= all);
    }
    Some(kinds)
}

/// The number of preamble lines after one more came, and whether that is
/// more than allowed.
pub open spec fn one_more(count: nat) -> (nat, bool) {
    (count + 1, count + 1 > MAX_PREAMBLE_LINES)
}

/// What a line of the handshake leads to: the number of preamble lines
/// after it, and what the server does. `parsed` is what the line holds if
/// it is read as a request.
///
/// A line of more than `MAX_LINE` bytes is an error. An empty line, a
/// `PING` and any line that does not begin with `{` are preamble lines; a
/// `PING` is answered. The preamble line that is one more than allowed is
/// an error. A line that begins with `{` must hold a request that names
/// only kinds of events.
pub open spec fn handshake_step(
    count: nat,
    line: Seq<char>,
    bytes: nat,
    parsed: Option<Seq<Seq<char>>>,
) -> (nat, HandshakeActionView) {
    let text = trimmed(line);
    if bytes > MAX_LINE {
        (count, HandshakeActionView::Fail(HandshakeError::LineTooLong))
    } else if text.len() == 0 {
        if one_more(count).1 {
            (count + 1, HandshakeActionView::Fail(HandshakeError::TooManyPreambleLines))
        } else {
            (count + 1, HandshakeActionView::Continue)
        }
    } else if text == "PING"@ {
        if one_more(count).1 {
            (count + 1, HandshakeActionView::PongThenFail(HandshakeError::TooManyPreambleLines))
        } else {
            (count + 1, HandshakeActionView::Pong)
        }
    } else if text[0] == '{' {
        if parsed.is_some() && kinds_of(parsed.unwrap()).is_some() {
            (count, HandshakeActionView::Accept(kinds_of(parsed.unwrap()).unwrap()))
        } else {
            (count, HandshakeActionView::Fail(HandshakeError::InvalidJson))
        }
    } else if one_more(count).1 {
        (count + 1, HandshakeActionView::Fail(HandshakeError::TooManyPreambleLines))
    } else {
        (count + 1, HandshakeActionView::Continue)
    }
}

/// The state of the handshake with one subscriber.
pub struct Handshake {
    preamble_lines: usize,
}

impl Handshake {
    /// The number of preamble lines seen.
    pub closed spec fn count(&self) -> nat {
        self.preamble_lines as nat
    }

    pub fn new() -> (r: Self)
        ensures
            r.count() == 0,
    {
        Handshake { preamble_lines: 0 }
    }

    /// Whether the handshake can take another line: it has not failed on
    /// too many preamble lines.
    pub fn is_live(&self) -> (r: bool)
        ensures
            r == (self.count() <= MAX_PREAMBLE_LINES),
    {
        self.preamble_lines <= MAX_PREAMBLE_LINES
    }

    /// The text that must hold the request, if the line is one that is
    /// read as a request: the line without the white space around it, if
    /// that begins with `{`.
    pub open spec fn spec_request_text(line: Seq<char>) -> Option<Seq<char>> {
        if trimmed(line).len() > 0 && trimmed(line)[0] == '{' {
            Some(trimmed(line))
        } else {
            None
        }
    }

    /// The text to read as a request, if the line is to be read as one.
    /// The names of the kinds that this text asks for go into
    /// [`Handshake::on_line_with`].
    pub fn request_text(line: &str) -> (r: Option<String>)
        ensures
            match Self::spec_request_text(line@) {
                Some(text) => r.is_some() && r.unwrap()@ == text,
                None => r.is_none(),
            },
    {
        let text = trim_chars(&chars_of(line));
        if text.len() > 0 && text[0] == '{' {
            Some(crate::text::string_of(&text))
        } else {
            None
        }
    }

    /// Takes a line that the subscriber sent, together with the names that
    /// it holds if it is read as a request, and says what to do.
    pub fn on_line_with(&mut self, line: &str, parsed: Option<Vec<String>>) -> (action:
        HandshakeAction)
        requires
            old(self).count() <= MAX_PREAMBLE_LINES,
        ensures
            (final(self).count(), action@) == handshake_step(
                old(self).count(),
                line@,
                line.len() as nat,
                match parsed {
                    Some(names) => Some(names_of(names@)),
                    None => None,
                },
            ),
    {
        if line.len() > MAX_LINE {
            return HandshakeAction::Fail(HandshakeError::LineTooLong);
        }
        let text = trim_chars(&chars_of(line));
        if text.len() == 0 {
            self.preamble_lines = self.preamble_lines + 1;
            if self.preamble_lines > MAX_PREAMBLE_LINES {
                return HandshakeAction::Fail(HandshakeError::TooManyPreambleLines);
            }
            return HandshakeAction::Continue;
        }
        if is_text(&text, "PING") {
            self.preamble_lines = self.preamble_lines + 1;
            if self.preamble_lines > MAX_PREAMBLE_LINES {
                return HandshakeAction::PongThenFail(HandshakeError::TooManyPreambleLines);
            }
            return HandshakeAction::Pong;
        }
        if text[0] == '{' {
            match parsed {
                Some(names) => match find_kinds(&names) {
                    Some(subscribe) => {
                        return HandshakeAction::Accept(TcpSubscriptionRequest { subscribe });
                    },
                    None => {
                        return HandshakeAction::Fail(HandshakeError::InvalidJson);
                    },
                },
                None => {
                    return HandshakeAction::Fail(HandshakeError::InvalidJson);
                },
            }
        }
        self.preamble_lines = self.preamble_lines + 1;
        if self.preamble_lines > MAX_PREAMBLE_LINES {
            return HandshakeAction::Fail(HandshakeError::TooManyPreambleLines);
        }
        HandshakeAction::Continue
    }

    /// The error to give up with when no line came: the subscriber left,
    /// or the line could not be read.
    pub fn on_end(closed: bool) -> (e: HandshakeError)
        ensures
            e == (if closed {
                HandshakeError::ConnectionClosed
            } else {
                HandshakeError::Read
            }),
    {
        if closed {
            HandshakeError::ConnectionClosed
        } else {
            HandshakeError::Read
        }
    }
}

/// Up to the allowed number of preamble lines the handshake goes on, and
/// the line after them ends it.
pub proof fn lemma_preamble_limit(count: nat, line: Seq<char>, bytes: nat)
    requires
        bytes <= MAX_LINE,
        trimmed(line) == "PING"@,
    ensures
        count < MAX_PREAMBLE_LINES ==> handshake_step(count, line, bytes, None).1
            == HandshakeActionView::Pong,
        count == MAX_PREAMBLE_LINES ==> handshake_step(count, line, bytes, None).1
            == HandshakeActionView::PongThenFail(HandshakeError::TooManyPreambleLines),
{
    reveal_strlit("PING");
}

/// What came in on the connection of an accepted subscriber.
#[derive(Debug, PartialEq, Eq)]
pub enum ConnectionEvent {
    /// An event is due to the subscriber.
    Due(Event),
    /// No more events will become due.
    ChannelClosed,
    /// The subscriber sent a line.
    Line(String),
    /// The connection failed.
    ReadError,
    /// The subscriber left.
    Disconnected,
    /// Something could not be sent to the subscriber.
    WriteError,
}

/// What the server does on the connection of an accepted subscriber.
#[derive(Debug, PartialEq, Eq)]
pub enum ConnectionAction {
    /// Send the event as one line.
    Send(Event),
    /// Answer `PONG`.
    Pong,
    /// Nothing.
    Ignore,
    /// Unregister the subscriber and close.
    Close,
}

/// Says what to do about something that came in on the connection of an
/// accepted subscriber: an event is sent, a `PING` is answered, any other
/// line is passed over, and everything else closes the connection.
pub fn connection_step(event: ConnectionEvent) -> (action: ConnectionAction)
    ensures
        match event {
            ConnectionEvent::Due(e) => action == ConnectionAction::Send(e),
            ConnectionEvent::Line(line) => if trimmed(line@) == "PING"@ {
                action == ConnectionAction::Pong
            } else {
                action == ConnectionAction::Ignore
            },
            _ => action == ConnectionAction::Close,
        },
{
    match event {
        ConnectionEvent::Due(e) => ConnectionAction::Send(e),
        ConnectionEvent::Line(line) => {
            let text = trim_chars(&chars_of(line.as_str()));
            if is_text(&text, "PING") {
                ConnectionAction::Pong
            } else {
                ConnectionAction::Ignore
            }
        },
        _ => ConnectionAction::Close,
    }
}

/// A subscriber: its identifier and the kinds of events it wants.
#[derive(Debug, PartialEq, Eq)]
pub struct TcpSubscription {
    pub id: u128,
    pub event_types: Vec<EventType>,
}

/// The kinds that each subscriber wants, by identifier.
pub type SubscriptionMap = HashMap<u128, Vec<EventType>, FxBuildHasher>;

/// Stores the kinds that a subscriber wants.
///
/// Trusted: wraps `HashMap::insert`, which stores the value under the key
/// and replaces what was stored under it before.
#[verifier::external_body]
fn subs_insert(map: &mut SubscriptionMap, id: u128, kinds: Vec<EventType>)
    ensures
        final(map)@ == old(map)@.insert(id, kinds),
{
    map.insert(id, kinds);
}

/// Forgets a subscriber.
///
/// Trusted: wraps `HashMap::remove`, which removes the key with its value
/// if the map holds it.
#[verifier::external_body]
fn subs_remove(map: &mut SubscriptionMap, id: u128)
    ensures
        final(map)@ == old(map)@.remove(id),
{
    map.remove(&id);
}

/// The subscribers with their kinds, each once, in no particular order.
///
/// Trusted: wraps `HashMap::iter`, which visits every entry of the map
/// once, in arbitrary order; the values are cloned.
#[verifier::external_body]
fn subs_entries(map: &SubscriptionMap) -> (r: Vec<TcpSubscription>)
    ensures
        forall|i: int|
            0 <= i < r@.len() ==> map@.contains_key((#[trigger] r@[i]).id) && r@[i].event_types@
                == map@[r@[i].id]@,
        forall|i: int, j: int| 0 <= i < j < r@.len() ==> (#[trigger] r@[i]).id != (#[trigger] r@[j]).id,
        forall|id: u128|
            map@.contains_key(id) ==> exists|i: int| 0 <= i < r@.len() && (#[trigger] r@[i]).id == id,
{
    map.iter().map(|(id, kinds)| TcpSubscription { id: *id, event_types: kinds.clone() }).collect()
}

/// The subscribers that are to receive events.
pub struct TcpSubscriptionManager {
    subscriptions: SubscriptionMap,
}

/// How the attempt to hand an event to a subscriber ended.
#[derive(Debug, PartialEq, Copy, Clone, Eq, Structural)]
pub enum SendOutcome {
    Sent,
    /// The subscriber is too slow: its channel is full.
    Full,
    /// The subscriber is gone: its channel is closed.
    Closed,
}

/// Whether the list holds the kind.
pub fn wants(kinds: &Vec<EventType>, kind: EventType) -> (r: bool)
    ensures
        r == kinds@.contains(kind),
{
    let mut i: usize = 0;
    while i < kinds.len()
        invariant
            i <= kinds.len(),
            forall|j: int| 0 <= j < i ==> kinds@[j] != kind,
        decreases kinds.len() - i,
    {
        if kinds[i] == kind {
            return true;
        }
        i = i + 1;
    }
    false
}

/// The subscribers among the first `n` outcomes that could not be handed
/// the event.
pub open spec fn failed_among(outcomes: Seq<(u128, SendOutcome)>, n: nat) -> Set<u128>
    recommends
        n <= outcomes.len(),
{
    Set::new(
        |id: u128|
            exists|i: int|
                0 <= i < n && (#[trigger] outcomes[i]).0 == id && outcomes[i].1 != SendOutcome::Sent,
    )
}

impl TcpSubscriptionManager {
    /// The kinds that each subscriber wants.
    pub closed spec fn subscribers(&self) -> Map<u128, Seq<EventType>> {
        Map::new(
            |id: u128| self.subscriptions@.contains_key(id),
            |id: u128| self.subscriptions@[id]@,
        )
    }

    pub fn new() -> (r: Self)
        ensures
            r.subscribers() == Map::<u128, Seq<EventType>>::empty(),
    {
        let r = Self { subscriptions: HashMap::default() };
        assert(r.subscribers() =~= Map::<u128, Seq<EventType>>::empty());
        r
    }

    /// Registers a subscriber.
    pub fn register(&mut self, sub: TcpSubscription)
        ensures
            final(self).subscribers() == old(self).subscribers().insert(sub.id, sub.event_types@),
    {
        let ghost kinds = sub.event_types@;
        subs_insert(&mut self.subscriptions, sub.id, sub.event_types);
        assert(self.subscribers() =~= old(self).subscribers().insert(sub.id, kinds));
    }

    /// Unregisters a subscriber.
    pub fn unregister(&mut self, id: u128)
        ensures
            final(self).subscribers() == old(self).subscribers().remove(id),
    {
        subs_remove(&mut self.subscriptions, id);
        assert(self.subscribers() =~= old(self).subscribers().remove(id));
    }

    /// The subscribers to which the event is due: those that asked for its
    /// kind, each once, in no particular order.
    pub fn broadcast(&self, event: &Event) -> (due: Vec<u128>)
        ensures
            due@.no_duplicates(),
            forall|id: u128|
                due@.contains(id) <==> (self.subscribers().contains_key(id)
                    && self.subscribers()[id].contains(event@.event_type())),
    {
        let event_type = event.event_type();
        let subs = subs_entries(&self.subscriptions);
        let mut due: Vec<u128> = Vec::new();
        let mut i: usize = 0;
        while i < subs.len()
            invariant
                i <= subs.len(),
                event_type == event@.event_type(),
                forall|k: int|
                    0 <= k < subs@.len() ==> self.subscriptions@.contains_key((#[trigger] subs@[k]).id)
                        && subs@[k].event_types@ == self.subscriptions@[subs@[k].id]@,
                forall|a: int, b: int|
                    0 <= a < b < subs@.len() ==> (#[trigger] subs@[a]).id != (#[trigger] subs@[b]).id,
                due@.no_duplicates(),
                forall|id: u128|
                    due@.contains(id) <==> exists|k: int|
                        0 <= k < i && (#[trigger] subs@[k]).id == id && subs@[k].event_types@.contains(
                            event_type,
                        ),
            decreases subs.len() - i,
        {
            let ghost before = due@;
            if wants(&subs[i].event_types, event_type) {
                proof {
                    if before.contains(subs@[i as int].id) {
                        let k = choose|k: int|
                            0 <= k < i && (#[trigger] subs@[k]).id == subs@[i as int].id
                                && subs@[k].event_types@.contains(event_type);
                        assert(subs@[k].id != subs@[i as int].id);
                    }
                }
                due.push(subs[i].id);
                proof {
                    assert forall|id: u128| due@.contains(id) <==> exists|k: int|
                        0 <= k < i + 1 && (#[trigger] subs@[k]).id == id
                            && subs@[k].event_types@.contains(event_type) by {
                        if due@.contains(id) {
                            let j = choose|j: int| 0 <= j < due@.len() && due@[j] == id;
                            if j < before.len() {
                                assert(before[j] == id);
                                assert(before.contains(id));
                                let k = choose|k: int|
                                    0 <= k < i && (#[trigger] subs@[k]).id == id
                                        && subs@[k].event_types@.contains(event_type);
                                assert(0 <= k < i + 1);
                            } else {
                                assert(subs@[i as int].id == id);
                            }
                        }
                        if exists|k: int|
                            0 <= k < i + 1 && (#[trigger] subs@[k]).id == id
                                && subs@[k].event_types@.contains(event_type) {
                            let k = choose|k: int|
                                0 <= k < i + 1 && (#[trigger] subs@[k]).id == id
                                    && subs@[k].event_types@.contains(event_type);
                            if k < i {
                                assert(before.contains(id));
                                let j = choose|j: int| 0 <= j < before.len() && before[j] == id;
                                assert(due@[j] == id);
                            } else {
                                assert(due@[before.len() as int] == id);
                            }
                        }
                    }
                }
            } else {
                proof {
                    assert forall|id: u128| due@.contains(id) <==> exists|k: int|
                        0 <= k < i + 1 && (#[trigger] subs@[k]).id == id
                            && subs@[k].event_types@.contains(event_type) by {
                        if exists|k: int|
                            0 <= k < i + 1 && (#[trigger] subs@[k]).id == id
                                && subs@[k].event_types@.contains(event_type) {
                            let k = choose|k: int|
                                0 <= k < i + 1 && (#[trigger] subs@[k]).id == id
                                    && subs@[k].event_types@.contains(event_type);
                            assert(k < i);
                        }
                        if due@.contains(id) {
                            let k = choose|k: int|
                                0 <= k < i && (#[trigger] subs@[k]).id == id
                                    && subs@[k].event_types@.contains(event_type);
                            assert(0 <= k < i + 1);
                        }
                    }
                }
            }
            i = i + 1;
        }
        proof {
            assert forall|id: u128|
                due@.contains(id) <==> (self.subscribers().contains_key(id)
                    && self.subscribers()[id].contains(event@.event_type())) by {
                if due@.contains(id) {
                    let k = choose|k: int|
                        0 <= k < subs@.len() && (#[trigger] subs@[k]).id == id
                            && subs@[k].event_types@.contains(event_type);
                    assert(self.subscriptions@.contains_key(subs@[k].id));
                }
                if self.subscribers().contains_key(id) && self.subscribers()[id].contains(
                    event@.event_type(),
                ) {
                    let k = choose|k: int| 0 <= k < subs@.len() && (#[trigger] subs@[k]).id == id;
                    assert(subs@[k].event_types@ == self.subscriptions@[id]@);
                }
            }
        }
        due
    }

    /// Unregisters the subscribers that could not be handed an event:
    /// those whose channel was full or closed.
    pub fn evict(&mut self, outcomes: &Vec<(u128, SendOutcome)>)
        ensures
            final(self).subscribers() == old(self).subscribers().remove_keys(
                failed_among(outcomes@, outcomes@.len()),
            ),
    {
        let mut i: usize = 0;
        proof {
            assert(failed_among(outcomes@, 0) =~= Set::<u128>::empty());
            assert(old(self).subscribers().remove_keys(Set::<u128>::empty())
                =~= old(self).subscribers());
        }
        while i < outcomes.len()
            invariant
                i <= outcomes.len(),
                self.subscribers() == old(self).subscribers().remove_keys(
                    failed_among(outcomes@, i as nat),
                ),
            decreases outcomes.len() - i,
        {
            let (id, outcome) = outcomes[i];
            let ghost f0 = failed_among(outcomes@, i as nat);
            let ghost f1 = failed_among(outcomes@, (i + 1) as nat);
            match outcome {
                SendOutcome::Sent => {
                    proof {
                        assert forall|x: u128| f1.contains(x) <==> f0.contains(x) by {
                            if f1.contains(x) {
                                let k = choose|k: int|
                                    0 <= k < i + 1 && (#[trigger] outcomes@[k]).0 == x
                                        && outcomes@[k].1 != SendOutcome::Sent;
                                assert(k < i);
                            }
                            if f0.contains(x) {
                                let k = choose|k: int|
                                    0 <= k < i && (#[trigger] outcomes@[k]).0 == x && outcomes@[k].1
                                        != SendOutcome::Sent;
                                assert(0 <= k < i + 1);
                            }
                        }
                        assert(f1 =~= f0);
                    }
                },
                _ => {
                    self.unregister(id);
                    proof {
                        assert forall|x: u128| f1.contains(x) <==> (f0.contains(x) || x == id) by {
                            if f1.contains(x) {
                                let k = choose|k: int|
                                    0 <= k < i + 1 && (#[trigger] outcomes@[k]).0 == x
                                        && outcomes@[k].1 != SendOutcome::Sent;
                                if k < i {
                                    assert(f0.contains(x));
                                }
                            }
                            if f0.contains(x) {
                                let k = choose|k: int|
                                    0 <= k < i && (#[trigger] outcomes@[k]).0 == x && outcomes@[k].1
                                        != SendOutcome::Sent;
                                assert(0 <= k < i + 1);
                            }
                            if x == id {
                                assert(outcomes@[i as int].0 == x);
                            }
                        }
                        assert(f1 =~= f0.insert(id));
                        assert(old(self).subscribers().remove_keys(f0).remove(id)
                            =~= old(self).subscribers().remove_keys(f1));
                    }
                },
            }
            i = i + 1;
        }
    }
}

} // verus!
