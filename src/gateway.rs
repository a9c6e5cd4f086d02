//! The gateway's message router: each inbound frame, read against the
//! registry and the delivery cache, gives the state that follows and what to
//! send.
use vstd::prelude::*;
use crate::cache::{
    others_of, pending_for, update_body, update_body_spec, acknowledge_payload_spec,
    DeliveryCache, EntryView,
};
use crate::registry::{
    buddy_group_spec, position_of, register_spec, release_spec, Registry, UserView,
};
use crate::wire::{
    append_bytes, fields2, frame_spec, join, join_fields, join_spec, list_sep, make_frame, parse_frame,
    parse_frame_spec, split_once, split_once_spec, Code, FIELD_SEP, LIST_SEP,
};

verus! {

/// What the connection layer does after a frame.
#[derive(Debug, PartialEq, Eq)]
pub enum Outcome {
    /// Send `reply` back on the connection the frame came from.
    Reply(Vec<u8>),
    /// Send `forward` on connection `to`, and `reply` back.
    ForwardAndReply { to: u64, forward: Vec<u8>, reply: Vec<u8> },
    /// The state changed; nothing is sent.
    NoReply,
    /// The frame was malformed: close its connection.
    Close,
    /// End the process.
    Shutdown,
}

pub enum OutcomeView {
    Reply(Seq<u8>),
    ForwardAndReply { to: u64, forward: Seq<u8>, reply: Seq<u8> },
    NoReply,
    Close,
    Shutdown,
}

impl View for Outcome {
    type V = OutcomeView;

    open spec fn view(&self) -> OutcomeView {
        match self {
            Outcome::Reply(r) => OutcomeView::Reply(r@),
            Outcome::ForwardAndReply { to, forward, reply } => OutcomeView::ForwardAndReply {
                to: *to,
                forward: forward@,
                reply: reply@,
            },
            Outcome::NoReply => OutcomeView::NoReply,
            Outcome::Close => OutcomeView::Close,
            Outcome::Shutdown => OutcomeView::Shutdown,
        }
    }
}

/// ` not found`
pub open spec fn not_found_suffix() -> Seq<u8> {
    seq![32, 110, 111, 116, 32, 102, 111, 117, 110, 100]
}

/// `not found`
pub open spec fn not_found_text() -> Seq<u8> {
    seq![110, 111, 116, 32, 102, 111, 117, 110, 100]
}

/// `User Not Found`
pub open spec fn user_not_found_text() -> Seq<u8> {
    seq![85, 115, 101, 114, 32, 78, 111, 116, 32, 70, 111, 117, 110, 100]
}

fn not_found_suffix_bytes() -> (r: Vec<u8>)
    ensures
        r@ == not_found_suffix(),
{
    let r = vec![32, 110, 111, 116, 32, 102, 111, 117, 110, 100];
    assert(r@ =~= not_found_suffix());
    r
}

fn not_found_bytes() -> (r: Vec<u8>)
    ensures
        r@ == not_found_text(),
{
    let r = vec![110, 111, 116, 32, 102, 111, 117, 110, 100];
    assert(r@ =~= not_found_text());
    r
}

fn user_not_found_bytes() -> (r: Vec<u8>)
    ensures
        r@ == user_not_found_text(),
{
    let r = vec![85, 115, 101, 114, 32, 78, 111, 116, 32, 70, 111, 117, 110, 100];
    assert(r@ =~= user_not_found_text());
    r
}

/// `INIT user;addr`: register the user on connection `conn` and hand them
/// every message that waited for them.
pub open spec fn init_spec(users: Seq<UserView>, entries: Seq<EntryView>, conn: u64, body: Seq<u8>) -> (
    Seq<UserView>,
    Seq<EntryView>,
    OutcomeView,
) {
    match split_once_spec(body, FIELD_SEP) {
        None => (users, entries, OutcomeView::Close),
        Some((user, addr)) => (
            register_spec(users, user, addr, conn),
            others_of(entries, user),
            OutcomeView::Reply(frame_spec(Code::Update, update_body_spec(pending_for(entries, user)))),
        ),
    }
}

/// `SEND recipient;sender;payload`: keep a copy until the recipient
/// acknowledges it, pass it on if the recipient is connected, and take
/// responsibility towards the sender; an unknown recipient is reported.
pub open spec fn send_spec(users: Seq<UserView>, entries: Seq<EntryView>, body: Seq<u8>) -> (
    Seq<EntryView>,
    OutcomeView,
) {
    match split_once_spec(body, FIELD_SEP) {
        None => (entries, OutcomeView::Close),
        Some((recipient, rest)) => match split_once_spec(rest, FIELD_SEP) {
            None => (entries, OutcomeView::Close),
            Some((sender, payload)) => match position_of(users, recipient) {
                None => (
                    entries,
                    OutcomeView::Reply(frame_spec(Code::NotFound, recipient + not_found_suffix())),
                ),
                Some(i) => {
                    let kept = entries.push(EntryView { recipient, sender, payload });
                    let ack = frame_spec(Code::Ack, fields2(recipient, payload));
                    match users[i].handle {
                        Some(h) => (
                            kept,
                            OutcomeView::ForwardAndReply {
                                to: h,
                                forward: frame_spec(Code::Send, rest),
                                reply: ack,
                            },
                        ),
                        None => (kept, OutcomeView::Reply(ack)),
                    }
                },
            },
        },
    }
}

/// `ACK recipient;payload`: the recipient has the message, so the oldest copy
/// of it is dropped.
pub open spec fn ack_spec(entries: Seq<EntryView>, body: Seq<u8>) -> (Seq<EntryView>, OutcomeView) {
    match split_once_spec(body, FIELD_SEP) {
        None => (entries, OutcomeView::Close),
        Some((recipient, payload)) => (
            acknowledge_payload_spec(entries, recipient, payload),
            OutcomeView::NoReply,
        ),
    }
}

/// `CACHE recipient;sender;payload`: keep a copy, pass nothing on.
pub open spec fn cache_spec(entries: Seq<EntryView>, body: Seq<u8>) -> (Seq<EntryView>, OutcomeView) {
    match split_once_spec(body, FIELD_SEP) {
        None => (entries, OutcomeView::Close),
        Some((recipient, rest)) => match split_once_spec(rest, FIELD_SEP) {
            None => (entries, OutcomeView::Close),
            Some((sender, payload)) => (
                entries.push(EntryView { recipient, sender, payload }),
                OutcomeView::NoReply,
            ),
        },
    }
}

/// `IP_FETCH user`: the address the user registered last.
pub open spec fn ip_spec(users: Seq<UserView>, user: Seq<u8>) -> OutcomeView {
    match position_of(users, user) {
        Some(i) => OutcomeView::Reply(frame_spec(Code::IpRetrieval, users[i].address)),
        None => OutcomeView::Reply(frame_spec(Code::NotFound, not_found_text())),
    }
}

/// `BUDDIES user`: the user's buddy group, `&&`-joined.
pub open spec fn buddies_spec(users: Seq<UserView>, user: Seq<u8>) -> OutcomeView {
    match buddy_group_spec(users, user) {
        Ok(group) => OutcomeView::Reply(frame_spec(Code::Buddies, join_spec(group, list_sep()))),
        Err(_) => OutcomeView::Reply(frame_spec(Code::NotFound, user_not_found_text())),
    }
}

/// What the gateway does not handle is answered with `404 <body>`.
pub open spec fn error_spec(body: Seq<u8>) -> OutcomeView {
    OutcomeView::Reply(frame_spec(Code::NotFound, body))
}

/// The registry and cache of a gateway.
pub struct GatewayView {
    pub users: Seq<UserView>,
    pub entries: Seq<EntryView>,
}

/// One frame on connection `conn`: the state after it and what to send.
pub open spec fn step_spec(g: GatewayView, conn: u64, frame: Seq<u8>) -> (GatewayView, OutcomeView) {
    match parse_frame_spec(frame) {
        None => (g, OutcomeView::Close),
        Some((code, body)) => match code {
            Code::Init => {
                let (u, e, o) = init_spec(g.users, g.entries, conn, body);
                (GatewayView { users: u, entries: e }, o)
            },
            Code::Send => {
                let (e, o) = send_spec(g.users, g.entries, body);
                (GatewayView { entries: e, ..g }, o)
            },
            Code::Ack => {
                let (e, o) = ack_spec(g.entries, body);
                (GatewayView { entries: e, ..g }, o)
            },
            Code::Cache => {
                let (e, o) = cache_spec(g.entries, body);
                (GatewayView { entries: e, ..g }, o)
            },
            Code::IpFetch | Code::IpRetrieval => (g, ip_spec(g.users, body)),
            Code::Buddies => (g, buddies_spec(g.users, body)),
            Code::Shutdown => (g, OutcomeView::Shutdown),
            _ => (g, error_spec(body)),
        },
    }
}

/// The body of a frame with code `c` holds the `;`-separated fields that `c`
/// needs.
pub open spec fn well_formed_body(c: Code, body: Seq<u8>) -> bool {
    match c {
        Code::Init | Code::Ack => split_once_spec(body, FIELD_SEP) is Some,
        Code::Send | Code::Cache => match split_once_spec(body, FIELD_SEP) {
            Some((_, rest)) => split_once_spec(rest, FIELD_SEP) is Some,
            None => false,
        },
        _ => true,
    }
}

/// Every well-formed frame gets the treatment of its code, and no frame is
/// left unhandled: `INIT`, `IP_FETCH`, `IP_RETRIEVAL` and `BUDDIES` get a
/// reply only, `SEND` a reply and possibly a forward, `ACK` and `CACHE` change
/// the cache and send nothing, `SHUTDOWN` ends the process, and any other code
/// is answered with `404 <body>`.
pub proof fn lemma_router_totality(g: GatewayView, conn: u64, frame: Seq<u8>, c: Code, body: Seq<u8>)
    requires
        parse_frame_spec(frame) == Some((c, body)),
        well_formed_body(c, body),
    ensures
        ({
            let o = step_spec(g, conn, frame).1;
            match c {
                Code::Init | Code::IpFetch | Code::IpRetrieval | Code::Buddies => o is Reply,
                Code::Send => o is Reply || o is ForwardAndReply,
                Code::Ack | Code::Cache => o is NoReply,
                Code::Shutdown => o is Shutdown,
                _ => o == OutcomeView::Reply(frame_spec(Code::NotFound, body)),
            }
        }),
{
}

/// Handles `INIT user;addr` from connection `conn`.
pub fn handle_init(conn: u64, body: &[u8], registry: &mut Registry, cache: &mut DeliveryCache) -> (r: Outcome)
    requires
        old(registry).wf(),
        old(registry)@.len() < usize::MAX,
    ensures
        final(registry).wf(),
        (final(registry)@, final(cache)@, r@) == init_spec(old(registry)@, old(cache)@, conn, body@),
{
    match split_once(body, FIELD_SEP) {
        None => Outcome::Close,
        Some((user, addr)) => {
            let drained = cache.drain_and_clear(user.as_slice());
            let listed = update_body(&drained);
            registry.register(user, addr, conn);
            Outcome::Reply(make_frame(Code::Update, listed.as_slice()))
        },
    }
}

/// Handles `SEND recipient;sender;payload`.
pub fn handle_send(body: &[u8], registry: &Registry, cache: &mut DeliveryCache) -> (r: Outcome)
    requires
        registry.wf(),
    ensures
        (final(cache)@, r@) == send_spec(registry@, old(cache)@, body@),
{
    let (recipient, rest) = match split_once(body, FIELD_SEP) {
        None => return Outcome::Close,
        Some(p) => p,
    };
    let (sender, payload) = match split_once(rest.as_slice(), FIELD_SEP) {
        None => return Outcome::Close,
        Some(p) => p,
    };
    match registry.lookup(recipient.as_slice()) {
        None => {
            let mut text = recipient;
            append_bytes(&mut text, not_found_suffix_bytes().as_slice());
            Outcome::Reply(make_frame(Code::NotFound, text.as_slice()))
        },
        Some(i) => {
            let ack = make_frame(Code::Ack, join_fields(recipient.as_slice(), payload.as_slice()).as_slice());
            let handle = registry.users[i].handle;
            cache.enqueue(recipient, sender, payload);
            match handle {
                Some(h) => Outcome::ForwardAndReply {
                    to: h,
                    forward: make_frame(Code::Send, rest.as_slice()),
                    reply: ack,
                },
                None => Outcome::Reply(ack),
            }
        },
    }
}

/// Handles `ACK recipient;payload`.
pub fn handle_ack(body: &[u8], cache: &mut DeliveryCache) -> (r: Outcome)
    ensures
        (final(cache)@, r@) == ack_spec(old(cache)@, body@),
{
    match split_once(body, FIELD_SEP) {
        None => Outcome::Close,
        Some((recipient, payload)) => {
            cache.acknowledge_payload(recipient.as_slice(), payload.as_slice());
            Outcome::NoReply
        },
    }
}

/// Handles `CACHE recipient;sender;payload`.
pub fn handle_cache(body: &[u8], cache: &mut DeliveryCache) -> (r: Outcome)
    ensures
        (final(cache)@, r@) == cache_spec(old(cache)@, body@),
{
    let (recipient, rest) = match split_once(body, FIELD_SEP) {
        None => return Outcome::Close,
        Some(p) => p,
    };
    match split_once(rest.as_slice(), FIELD_SEP) {
        None => Outcome::Close,
        Some((sender, payload)) => {
            cache.enqueue(recipient, sender, payload);
            Outcome::NoReply
        },
    }
}

/// Handles `IP_FETCH user` and `IP_RETRIEVAL user`.
pub fn handle_ip_retrieval(user: &[u8], registry: &Registry) -> (r: Outcome)
    requires
        registry.wf(),
    ensures
        r@ == ip_spec(registry@, user@),
{
    match registry.lookup_address(user) {
        Some(addr) => Outcome::Reply(make_frame(Code::IpRetrieval, addr.as_slice())),
        None => Outcome::Reply(make_frame(Code::NotFound, not_found_bytes().as_slice())),
    }
}

/// Handles `BUDDIES user`.
pub fn handle_buddies(user: &[u8], registry: &Registry) -> (r: Outcome)
    requires
        registry.wf(),
    ensures
        r@ == buddies_spec(registry@, user@),
{
    match registry.compute_buddy_group(user) {
        Ok(group) => {
            let sep = vec![LIST_SEP, LIST_SEP];
            assert(sep@ =~= list_sep());
            let listed = join(&group, sep.as_slice());
            Outcome::Reply(make_frame(Code::Buddies, listed.as_slice()))
        },
        Err(_) => Outcome::Reply(make_frame(Code::NotFound, user_not_found_bytes().as_slice())),
    }
}

/// Answers what the gateway does not handle with `404 <body>`.
pub fn handle_error(body: &[u8]) -> (r: Outcome)
    ensures
        r@ == error_spec(body@),
{
    Outcome::Reply(make_frame(Code::NotFound, body))
}

/// The gateway's own state: who is known, and what waits for whom.
pub struct Gateway {
    pub registry: Registry,
    pub cache: DeliveryCache,
}

impl View for Gateway {
    type V = GatewayView;

    open spec fn view(&self) -> GatewayView {
        GatewayView { users: self.registry@, entries: self.cache@ }
    }
}

impl Gateway {
    pub open spec fn wf(&self) -> bool {
        self.registry.wf()
    }

    /// A gateway that knows nobody.
    pub fn new() -> (g: Gateway)
        ensures
            g.wf(),
            g@.users == Seq::<UserView>::empty(),
            g@.entries == Seq::<EntryView>::empty(),
    {
        Gateway { registry: Registry::new(), cache: DeliveryCache::new() }
    }

    /// Routes one frame that arrived on connection `conn`.
    pub fn handle_frame(&mut self, conn: u64, frame: &[u8]) -> (r: Outcome)
        requires
            old(self).wf(),
            old(self)@.users.len() < usize::MAX,
        ensures
            final(self).wf(),
            (final(self)@, r@) == step_spec(old(self)@, conn, frame@),
    {
        let (code, body) = match parse_frame(frame) {
            None => return Outcome::Close,
            Some(p) => p,
        };
        match code {
            Code::Init => handle_init(conn, body.as_slice(), &mut self.registry, &mut self.cache),
            Code::Send => handle_send(body.as_slice(), &self.registry, &mut self.cache),
            Code::Ack => handle_ack(body.as_slice(), &mut self.cache),
            Code::Cache => handle_cache(body.as_slice(), &mut self.cache),
            Code::IpFetch | Code::IpRetrieval => handle_ip_retrieval(body.as_slice(), &self.registry),
            Code::Buddies => handle_buddies(body.as_slice(), &self.registry),
            Code::Shutdown => Outcome::Shutdown,
            _ => handle_error(body.as_slice()),
        }
    }

    /// Connection `conn` has closed: nobody is reachable through it any more.
    pub fn connection_closed(&mut self, conn: u64)
        requires
            old(self).wf(),
        ensures
            final(self).wf(),
            final(self)@.users == release_spec(old(self)@.users, conn),
            final(self)@.entries == old(self)@.entries,
            forall|i: int| 0 <= i < final(self)@.users.len() ==> final(self)@.users[i].handle != Some(conn),
    {
        self.registry.release(conn);
    }
}

} // verus!
