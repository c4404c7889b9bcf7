//! Session bookkeeping on both ends of the mixnet tunnel: numbering and
//! framing of the messages a client sends, the server's table of sessions and
//! the routing of each incoming message, and the numbering of the replies.
use dashmap::DashMap;
use vstd::prelude::*;

use crate::utf8_text::line_feed;

use crate::upstream::{
    add_upstream_header, extract_upstream_header, law_extract_inverts_add,
    law_extract_needs_line_feed, law_extracted_address_frames_data,
    spec_add_upstream_header, spec_extract_upstream_header,
};

verus! {

/// What a proxied message carries: data bytes, or the signal that the
/// sending side of the session is closed.
pub enum Payload {
    Data(Vec<u8>),
    Close,
}

impl View for Payload {
    type V = Option<Seq<u8>>;

    open spec fn view(&self) -> Option<Seq<u8>> {
        match self {
            Payload::Data(bytes) => Some(bytes@),
            Payload::Close => None,
        }
    }
}

/// A message of a session: its payload, the session it belongs to (the
/// session's UUID as a 128-bit integer) and its number within the session.
pub struct ProxiedMessage {
    pub message: Payload,
    pub session_id: u128,
    pub message_id: u16,
}

/// A message as plain values: payload (`None` for the close signal),
/// session id, message number.
pub type MessageModel = (Option<Seq<u8>>, u128, u16);

impl View for ProxiedMessage {
    type V = MessageModel;

    open spec fn view(&self) -> MessageModel {
        (self.message@, self.session_id, self.message_id)
    }
}

/// Why the server drops a message that opens an unknown session.
#[derive(Clone, Copy, Debug, PartialEq, Eq, Structural)]
pub enum DropReason {
    /// The first message of a session is a close signal.
    FirstMessageIsClose,
    /// The first message of a session names no upstream address.
    MissingUpstream,
}

/// What the server does with one incoming message.
pub enum RouteDecision {
    /// Hand the message to the session's handler; `new_upstream` is the
    /// upstream address of a session that this message opened.
    Forward { message: ProxiedMessage, new_upstream: Option<String> },
    /// Drop the message.
    Drop(DropReason),
}

/// A route decision as plain values.
pub enum RouteModel {
    Forward { message: MessageModel, new_upstream: Option<Seq<char>> },
    Drop(DropReason),
}

impl View for RouteDecision {
    type V = RouteModel;

    open spec fn view(&self) -> RouteModel {
        match self {
            RouteDecision::Forward { message, new_upstream } => RouteModel::Forward {
                message: message@,
                new_upstream: match new_upstream {
                    Some(s) => Some(s@),
                    None => None,
                },
            },
            RouteDecision::Drop(r) => RouteModel::Drop(*r),
        }
    }
}

/// The routing rule of the server. A message of a known session passes
/// unchanged. A message that opens a session must carry data with an upstream
/// header naming a non-empty address; the session is then registered under
/// that address and the message passes with the header stripped. Anything
/// else is dropped and the table stays as it was.
pub open spec fn spec_route(
    table: Map<u128, Seq<char>>,
    message: MessageModel,
) -> (RouteModel, Map<u128, Seq<char>>) {
    let (payload, session_id, message_id) = message;
    if table.contains_key(session_id) {
        (RouteModel::Forward { message, new_upstream: None }, table)
    } else {
        match payload {
            None => (RouteModel::Drop(DropReason::FirstMessageIsClose), table),
            Some(data) => {
                let (address, stripped) = spec_extract_upstream_header(data);
                if address.len() == 0 {
                    (RouteModel::Drop(DropReason::MissingUpstream), table)
                } else {
                    (
                        RouteModel::Forward {
                            message: (Some(stripped), session_id, message_id),
                            new_upstream: Some(address),
                        },
                        table.insert(session_id, address),
                    )
                }
            },
        }
    }
}

#[verifier::external_type_specification]
#[verifier::external_body]
#[verifier::reject_recursive_types(K)]
#[verifier::reject_recursive_types(V)]
#[verifier::reject_recursive_types(S)]
pub struct ExDashMap<K, V, S>(DashMap<K, V, S>);

/// The entries of a session table: session id to upstream address.
pub uninterp spec fn session_entries(table: DashMap<u128, String>) -> Map<u128, Seq<char>>;

/// `DashMap::new`: a map with no entries.
#[verifier::external_body]
fn session_table_new() -> (created: DashMap<u128, String>)
    ensures
        session_entries(created) =~= Map::empty(),
{
    DashMap::new()
}

/// `DashMap::contains_key`: whether the map holds an entry for the key.
#[verifier::external_body]
fn session_table_contains(table: &DashMap<u128, String>, session_id: u128) -> (found: bool)
    ensures
        found == session_entries(*table).contains_key(session_id),
{
    table.contains_key(&session_id)
}

/// `DashMap::insert`: the entry for the key is set to the value, every other
/// entry stays; the previous value of the key, if any, is returned. The map is
/// taken by `&mut` here, though `insert` needs only `&`, so that no other
/// handle can change it between calls.
#[verifier::external_body]
fn session_table_insert(
    table: &mut DashMap<u128, String>,
    session_id: u128,
    upstream: String,
) -> (previous: Option<String>)
    ensures
        session_entries(*final(table)) == session_entries(*old(table)).insert(
            session_id,
            upstream@,
        ),
        previous is Some <==> session_entries(*old(table)).contains_key(session_id),
        previous matches Some(p) ==> p@ == session_entries(*old(table))[session_id],
{
    table.insert(session_id, upstream)
}

/// `DashMap::len`: the number of entries.
#[verifier::external_body]
fn session_table_len(table: &DashMap<u128, String>) -> (n: usize)
    ensures
        n == session_entries(*table).len(),
{
    table.len()
}

/// `DashMap::get`, the value copied out: the value of the key's entry, if
/// any.
#[verifier::external_body]
fn session_table_get(table: &DashMap<u128, String>, session_id: u128) -> (value: Option<String>)
    ensures
        value is Some <==> session_entries(*table).contains_key(session_id),
        value matches Some(v) ==> v@ == session_entries(*table)[session_id],
{
    table.get(&session_id).map(|entry| entry.value().clone())
}

/// The server's table of open sessions and the upstream address of each.
pub struct SessionRouter {
    sessions: DashMap<u128, String>,
}

impl SessionRouter {
    /// The open sessions: session id to upstream address.
    pub closed spec fn table(&self) -> Map<u128, Seq<char>> {
        session_entries(self.sessions)
    }

    /// A router with no open session.
    pub fn new() -> (router: SessionRouter)
        ensures
            router.table() == Map::<u128, Seq<char>>::empty(),
    {
        SessionRouter { sessions: session_table_new() }
    }

    /// The number of open sessions.
    pub fn session_count(&self) -> (n: usize)
        ensures
            n == self.table().len(),
    {
        session_table_len(&self.sessions)
    }

    /// The upstream address of a session, if it is open.
    pub fn upstream_of(&self, session_id: u128) -> (upstream: Option<String>)
        ensures
            upstream is Some <==> self.table().contains_key(session_id),
            upstream matches Some(u) ==> u@ == self.table()[session_id],
    {
        session_table_get(&self.sessions, session_id)
    }

    /// Decides what becomes of one incoming message, and registers the
    /// session that it opens, if any.
    pub fn route_message(&mut self, message: ProxiedMessage) -> (decision: RouteDecision)
        ensures
            (decision@, final(self).table()) == spec_route(old(self).table(), message@),
    {
        let session_id = message.session_id;
        if session_table_contains(&self.sessions, session_id) {
            return RouteDecision::Forward { message, new_upstream: None };
        }
        match message.message {
            Payload::Close => RouteDecision::Drop(DropReason::FirstMessageIsClose),
            Payload::Data(data) => {
                let (upstream_address, stripped) = extract_upstream_header(data.as_slice());
                if upstream_address.as_str().is_empty() {
                    RouteDecision::Drop(DropReason::MissingUpstream)
                } else {
                    let registered = upstream_address.clone();
                    let _ = session_table_insert(&mut self.sessions, session_id, registered);
                    RouteDecision::Forward {
                        message: ProxiedMessage {
                            message: Payload::Data(stripped),
                            session_id,
                            message_id: message.message_id,
                        },
                        new_upstream: Some(upstream_address),
                    }
                }
            },
        }
    }
}

/// The sending side of a client session: every message gets the next number,
/// starting from 1, the first data message carries the upstream header, and
/// one close message ends the session after all data.
pub struct OutgoingSession {
    session_id: u128,
    upstream_address: String,
    last_id: u16,
    closed: bool,
}

impl OutgoingSession {
    pub closed spec fn session_id(&self) -> u128 {
        self.session_id
    }

    pub closed spec fn upstream(&self) -> Seq<char> {
        self.upstream_address@
    }

    /// The number of the last message sent, 0 before the first one.
    pub closed spec fn last_id(&self) -> u16 {
        self.last_id
    }

    /// Whether the close message has been sent.
    pub closed spec fn closed(&self) -> bool {
        self.closed
    }

    /// A session that has sent nothing yet.
    pub fn new(session_id: u128, upstream_address: String) -> (session: OutgoingSession)
        ensures
            session.session_id() == session_id,
            session.upstream() == upstream_address@,
            session.last_id() == 0,
            !session.closed(),
    {
        OutgoingSession { session_id, upstream_address, last_id: 0, closed: false }
    }

    /// Whether another message can still be sent: the session is not closed
    /// and another number is left.
    pub fn can_send(&self) -> (ok: bool)
        ensures
            ok == (!self.closed() && self.last_id() < u16::MAX),
    {
        !self.closed && self.last_id < u16::MAX
    }

    /// The message that carries the next chunk of bytes read from the local
    /// connection.
    pub fn next_data(&mut self, bytes: Vec<u8>) -> (message: ProxiedMessage)
        requires
            !old(self).closed(),
            old(self).last_id() < u16::MAX,
        ensures
            !final(self).closed(),
            final(self).session_id() == old(self).session_id(),
            final(self).upstream() == old(self).upstream(),
            final(self).last_id() == old(self).last_id() + 1,
            message@ == spec_next_data(
                old(self).session_id(),
                old(self).upstream(),
                old(self).last_id(),
                bytes@,
            ),
    {
        self.last_id = self.last_id + 1;
        let payload = if self.last_id == 1 {
            add_upstream_header(self.upstream_address.as_str(), bytes.as_slice())
        } else {
            bytes
        };
        ProxiedMessage {
            message: Payload::Data(payload),
            session_id: self.session_id,
            message_id: self.last_id,
        }
    }

    /// The message that closes the session, numbered after the last one.
    pub fn close(&mut self) -> (message: ProxiedMessage)
        requires
            !old(self).closed(),
            old(self).last_id() < u16::MAX,
        ensures
            final(self).closed(),
            final(self).session_id() == old(self).session_id(),
            final(self).upstream() == old(self).upstream(),
            final(self).last_id() == old(self).last_id() + 1,
            message@ == (None::<Seq<u8>>, old(self).session_id(), (old(self).last_id() + 1) as u16),
    {
        self.last_id = self.last_id + 1;
        self.closed = true;
        ProxiedMessage { message: Payload::Close, session_id: self.session_id, message_id: self.last_id }
    }
}

/// The message a client session sends for `bytes` after message `last_id`.
pub open spec fn spec_next_data(
    session_id: u128,
    upstream: Seq<char>,
    last_id: u16,
    bytes: Seq<u8>,
) -> MessageModel {
    let id = (last_id + 1) as u16;
    let payload = if id == 1 {
        spec_add_upstream_header(upstream, bytes)
    } else {
        bytes
    };
    (Some(payload), session_id, id)
}

/// The receiving end of one session on the server: which messages are its
/// own, and the numbering of its replies, starting from 0.
pub struct SessionReplies {
    session_id: u128,
    next_id: u16,
}

impl SessionReplies {
    pub closed spec fn session_id(&self) -> u128 {
        self.session_id
    }

    /// The number that the next reply gets.
    pub closed spec fn next_id(&self) -> u16 {
        self.next_id
    }

    /// The reply side of a session that has sent no reply yet.
    pub fn new(session_id: u128) -> (replies: SessionReplies)
        ensures
            replies.session_id() == session_id,
            replies.next_id() == 0,
    {
        SessionReplies { session_id, next_id: 0 }
    }

    /// Whether a message broadcast to all session handlers belongs to this
    /// session.
    pub fn owns(&self, message: &ProxiedMessage) -> (mine: bool)
        ensures
            mine == (message.session_id == self.session_id()),
    {
        message.session_id == self.session_id
    }

    /// Whether another reply can still be numbered.
    pub fn can_reply(&self) -> (ok: bool)
        ensures
            ok == (self.next_id() < u16::MAX),
    {
        self.next_id < u16::MAX
    }

    /// The reply that carries `bytes` read from the upstream server.
    pub fn reply(&mut self, bytes: Vec<u8>) -> (message: ProxiedMessage)
        requires
            old(self).next_id() < u16::MAX,
        ensures
            final(self).session_id() == old(self).session_id(),
            final(self).next_id() == old(self).next_id() + 1,
            message@ == (Some(bytes@), old(self).session_id(), old(self).next_id()),
    {
        let id = self.next_id;
        self.next_id = self.next_id + 1;
        ProxiedMessage { message: Payload::Data(bytes), session_id: self.session_id, message_id: id }
    }
}

/// Law: the first data message of a client session opens that session on a
/// server that does not know it yet. The server registers the client's
/// upstream address and forwards exactly the bytes the client read, for any
/// non-empty upstream address without a line feed.
pub proof fn law_first_message_opens_session(
    table: Map<u128, Seq<char>>,
    session_id: u128,
    upstream: Seq<char>,
    bytes: Seq<u8>,
)
    requires
        !table.contains_key(session_id),
        upstream.len() > 0,
        !upstream.contains('\n'),
    ensures
        spec_route(table, spec_next_data(session_id, upstream, 0, bytes)) == (
            RouteModel::Forward {
                message: (Some(bytes), session_id, 1u16),
                new_upstream: Some(upstream),
            },
            table.insert(session_id, upstream),
        ),
{
    law_extract_inverts_add(upstream, bytes);
}

/// The messages of a client session that sends `chunks` in order, before it
/// closes.
pub open spec fn client_stream(
    session_id: u128,
    upstream: Seq<char>,
    chunks: Seq<Seq<u8>>,
) -> Seq<MessageModel> {
    Seq::new(chunks.len(), |i: int| spec_next_data(session_id, upstream, i as u16, chunks[i]))
}

/// Routing a sequence of messages one after the other: the decisions, and
/// the table of sessions at the end.
pub open spec fn route_all(
    table: Map<u128, Seq<char>>,
    messages: Seq<MessageModel>,
) -> (Seq<RouteModel>, Map<u128, Seq<char>>)
    decreases messages.len(),
{
    if messages.len() == 0 {
        (Seq::empty(), table)
    } else {
        let (first, next_table) = spec_route(table, messages[0]);
        let (rest, last_table) = route_all(next_table, messages.drop_first());
        (seq![first] + rest, last_table)
    }
}

/// The decision that forwards a message as it is.
pub open spec fn forward_unchanged(message: MessageModel) -> RouteModel {
    RouteModel::Forward { message, new_upstream: None }
}

proof fn lemma_route_all_open_session(table: Map<u128, Seq<char>>, messages: Seq<MessageModel>)
    requires
        forall|i: int| 0 <= i < messages.len() ==> table.contains_key(#[trigger] messages[i].1),
    ensures
        route_all(table, messages) == (messages.map_values(|m: MessageModel| forward_unchanged(m)), table),
    decreases messages.len(),
{
    if messages.len() == 0 {
        assert(messages.map_values(|m: MessageModel| forward_unchanged(m)) =~= Seq::<RouteModel>::empty());
    } else {
        let rest = messages.drop_first();
        assert forall|i: int| 0 <= i < rest.len() implies table.contains_key(#[trigger] rest[i].1) by {
            assert(rest[i] == messages[i + 1]);
        }
        lemma_route_all_open_session(table, rest);
        assert(table.contains_key(messages[0].1));
        assert(seq![forward_unchanged(messages[0])] + rest.map_values(
            |m: MessageModel| forward_unchanged(m),
        ) =~= messages.map_values(|m: MessageModel| forward_unchanged(m)));
    }
}

/// Law: the tunnel is transparent for a whole session. When a client session
/// with a non-empty upstream address (no line feed in it) sends its chunks to
/// a server that does not know the session, the server registers the address
/// and forwards every chunk, in order, exactly as the client read it.
pub proof fn law_session_stream_is_transparent(
    table: Map<u128, Seq<char>>,
    session_id: u128,
    upstream: Seq<char>,
    chunks: Seq<Seq<u8>>,
)
    requires
        !table.contains_key(session_id),
        upstream.len() > 0,
        !upstream.contains('\n'),
        0 < chunks.len() < u16::MAX,
    ensures
        route_all(table, client_stream(session_id, upstream, chunks)) == (
            Seq::new(
                chunks.len(),
                |i: int|
                    RouteModel::Forward {
                        message: (Some(chunks[i]), session_id, (i + 1) as u16),
                        new_upstream: if i == 0 {
                            Some(upstream)
                        } else {
                            None
                        },
                    },
            ),
            table.insert(session_id, upstream),
        ),
{
    let messages = client_stream(session_id, upstream, chunks);
    law_first_message_opens_session(table, session_id, upstream, chunks[0]);
    let t1 = table.insert(session_id, upstream);
    let rest = messages.drop_first();
    assert forall|i: int| 0 <= i < rest.len() implies t1.contains_key(#[trigger] rest[i].1) by {
        assert(rest[i] == messages[i + 1]);
    }
    lemma_route_all_open_session(t1, rest);
    let expected = Seq::new(
        chunks.len(),
        |i: int|
            RouteModel::Forward {
                message: (Some(chunks[i]), session_id, (i + 1) as u16),
                new_upstream: if i == 0 {
                    Some(upstream)
                } else {
                    None
                },
            },
    );
    let got = route_all(table, messages).0;
    assert forall|i: int| 0 <= i < chunks.len() implies got[i] == expected[i] by {
        if i > 0 {
            assert(rest[i - 1] == messages[i]);
            assert(((i as u16) + 1) as u16 == (i + 1) as u16);
            assert((i + 1) as u16 != 1u16);
        }
    }
    assert(got =~= expected);
}

/// Law: a first message whose data holds no line feed names no upstream
/// address: the server drops it and opens no session.
pub proof fn law_first_message_without_line_feed_dropped(
    table: Map<u128, Seq<char>>,
    message: MessageModel,
)
    requires
        !table.contains_key(message.1),
        message.0 matches Some(data) && !data.contains(line_feed()),
    ensures
        spec_route(table, message) == (RouteModel::Drop(DropReason::MissingUpstream), table),
{
    law_extract_needs_line_feed(message.0->0);
}

/// Law: a session is opened only by data that is exactly an upstream header
/// for the registered address followed by the forwarded payload.
pub proof fn law_opened_session_was_framed(table: Map<u128, Seq<char>>, message: MessageModel)
    requires
        !table.contains_key(message.1),
    ensures
        spec_route(table, message).0 matches RouteModel::Forward { message: forwarded, new_upstream }
            ==> new_upstream matches Some(upstream) && upstream.len() > 0 && message.0 == Some(
            spec_add_upstream_header(upstream, forwarded.0->0),
        ) && spec_route(table, message).1 == table.insert(message.1, upstream),
{
    if message.0 is Some {
        law_extracted_address_frames_data(message.0->0);
    }
}

/// Law: once a session is open, every later message of it, data or close,
/// passes unchanged and the table of sessions stays as it is.
pub proof fn law_open_session_passes_unchanged(
    table: Map<u128, Seq<char>>,
    message: MessageModel,
)
    requires
        table.contains_key(message.1),
    ensures
        spec_route(table, message) == (
            RouteModel::Forward { message, new_upstream: None },
            table,
        ),
{
}

/// Law: routing never forgets or changes a registered session; it only adds
/// the session that the message opens.
pub proof fn law_route_keeps_sessions(
    table: Map<u128, Seq<char>>,
    message: MessageModel,
    other: u128,
)
    requires
        table.contains_key(other),
    ensures
        spec_route(table, message).1.contains_key(other),
        spec_route(table, message).1[other] == table[other],
{
}

} // verus!
