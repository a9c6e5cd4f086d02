//! The peer node's side of the protocol: what it does with frames from the
//! gateway, from other peers and from the peers it keeps copies for, and the
//! records it keeps in its chat logs.
use vstd::prelude::*;
use crate::cache::{others_of, pending_for, update_body, update_body_spec, DeliveryCache, EntryView};
use crate::wire::{
    append_bytes, bytes_eq, copy_all, fields2, frame_spec, join_fields, make_frame, parse_frame,
    parse_frame_spec, split_list, split_list_spec, split_once, split_once_spec, Code, FIELD_SEP, SPACE,
};

verus! {

/// `You`, the label of what this node sent itself.
pub open spec fn self_label() -> Seq<u8> {
    seq![89, 111, 117]
}

pub fn self_label_bytes() -> (r: Vec<u8>)
    ensures
        r@ == self_label(),
{
    let r = vec![89, 111, 117];
    assert(r@ =~= self_label());
    r
}

/// A line for the chat log kept with `partner`: who wrote `body`.
#[derive(Debug, PartialEq, Eq)]
pub struct LogRecord {
    pub partner: Vec<u8>,
    pub label: Vec<u8>,
    pub body: Vec<u8>,
}

pub struct RecordView {
    pub partner: Seq<u8>,
    pub label: Seq<u8>,
    pub body: Seq<u8>,
}

impl View for LogRecord {
    type V = RecordView;

    open spec fn view(&self) -> RecordView {
        RecordView { partner: self.partner@, label: self.label@, body: self.body@ }
    }
}

/// What the connection layer of a peer does after a frame.
#[derive(Debug, PartialEq, Eq)]
pub enum PeerAction {
    /// Append `records` to the chat logs, then write `reply` back.
    Reply { reply: Vec<u8>, records: Vec<LogRecord> },
    /// Append `records` to the chat logs.
    Record(Vec<LogRecord>),
    /// A copy was kept for a peer that is away.
    Stored,
    /// Hand `text` to the layer above.
    PassUp(Vec<u8>),
    /// The frame was malformed: close its connection.
    Close,
}

pub enum PeerActionView {
    Reply { reply: Seq<u8>, records: Seq<RecordView> },
    Record(Seq<RecordView>),
    Stored,
    PassUp(Seq<u8>),
    Close,
}

impl View for PeerAction {
    type V = PeerActionView;

    open spec fn view(&self) -> PeerActionView {
        match self {
            PeerAction::Reply { reply, records } => PeerActionView::Reply {
                reply: reply@,
                records: records@.map_values(|r: LogRecord| r@),
            },
            PeerAction::Record(records) => PeerActionView::Record(records@.map_values(|r: LogRecord| r@)),
            PeerAction::Stored => PeerActionView::Stored,
            PeerAction::PassUp(t) => PeerActionView::PassUp(t@),
            PeerAction::Close => PeerActionView::Close,
        }
    }
}

/// The log record of an entry `sender;payload`: the sender wrote it.
pub open spec fn entry_record(entry: Seq<u8>) -> Option<RecordView> {
    match split_once_spec(entry, FIELD_SEP) {
        Some((sender, payload)) => Some(RecordView { partner: sender, label: sender, body: payload }),
        None => None,
    }
}

/// The entries of `items` that have a sender, in their order.
pub open spec fn well_formed_items(items: Seq<Seq<u8>>) -> Seq<Seq<u8>>
    decreases items.len(),
{
    if items.len() == 0 {
        Seq::empty()
    } else {
        let rest = well_formed_items(items.drop_last());
        if entry_record(items.last()) is Some {
            rest.push(items.last())
        } else {
            rest
        }
    }
}

/// The log records of the well-formed entries of `items`.
pub open spec fn records_of(items: Seq<Seq<u8>>) -> Seq<RecordView> {
    well_formed_items(items).map_values(|e: Seq<u8>| entry_record(e)->0)
}

/// `pending` with each of `items` added that it does not hold yet.
pub open spec fn merge_spec(pending: Seq<Seq<u8>>, items: Seq<Seq<u8>>) -> Seq<Seq<u8>>
    decreases items.len(),
{
    if items.len() == 0 {
        pending
    } else {
        let m = merge_spec(pending, items.drop_last());
        if m.contains(items.last()) {
            m
        } else {
            m.push(items.last())
        }
    }
}

/// What a peer does with a frame, given its own name `user` and the
/// copies it keeps for others.
pub open spec fn peer_step_spec(entries: Seq<EntryView>, user: Seq<u8>, frame: Seq<u8>) -> (
    Seq<EntryView>,
    PeerActionView,
) {
    match parse_frame_spec(frame) {
        None => (entries, PeerActionView::Close),
        Some((code, body)) => match code {
            Code::Ack | Code::Send => (entries, link_spec(user, code, body)),
            Code::Init => match split_once_spec(body, FIELD_SEP) {
                None => (entries, PeerActionView::Close),
                Some((name, _)) => (
                    others_of(entries, name),
                    PeerActionView::Reply {
                        reply: frame_spec(Code::Update, update_body_spec(pending_for(entries, name))),
                        records: Seq::empty(),
                    },
                ),
            },
            Code::Cache => match split_once_spec(body, FIELD_SEP) {
                None => (entries, PeerActionView::Close),
                Some((recipient, rest)) => match split_once_spec(rest, FIELD_SEP) {
                    None => (entries, PeerActionView::Close),
                    Some((sender, payload)) => (
                        entries.push(EntryView { recipient, sender, payload }),
                        PeerActionView::Stored,
                    ),
                },
            },
            Code::Update => (entries, PeerActionView::Record(records_of(split_list_spec(body)))),
            Code::IpRetrieval => (entries, PeerActionView::PassUp(body)),
            _ => (entries, PeerActionView::PassUp(frame_spec(Code::NotFound, body))),
        },
    }
}

/// What a peer does with an `ACK` or `SEND` body, and with any other code
/// on its link to the gateway.
pub open spec fn link_spec(user: Seq<u8>, code: Code, body: Seq<u8>) -> PeerActionView {
    match code {
        Code::Ack => match split_once_spec(body, FIELD_SEP) {
            None => PeerActionView::Close,
            Some((partner, payload)) => PeerActionView::Record(
                seq![RecordView { partner, label: self_label(), body: payload }],
            ),
        },
        Code::Send => match split_once_spec(body, FIELD_SEP) {
            None => PeerActionView::Close,
            Some((sender, payload)) => PeerActionView::Reply {
                reply: frame_spec(Code::Ack, fields2(user, payload)),
                records: seq![RecordView { partner: sender, label: sender, body: payload }],
            },
        },
        _ => PeerActionView::PassUp(frame_spec(Code::NotFound, body)),
    }
}

fn one_record(partner: Vec<u8>, label: Vec<u8>, body: Vec<u8>) -> (r: Vec<LogRecord>)
    ensures
        r@.map_values(|x: LogRecord| x@) == seq![RecordView { partner: partner@, label: label@, body: body@ }],
{
    let mut r: Vec<LogRecord> = Vec::new();
    r.push(LogRecord { partner, label, body });
    assert(r@.map_values(|x: LogRecord| x@) =~= seq![
        RecordView { partner: partner@, label: label@, body: body@ },
    ]);
    r
}

/// `ACK partner;payload`: `partner` has the message this node sent.
fn handle_acker(body: &[u8]) -> (r: PeerAction)
    ensures
        r@ == link_spec(Seq::empty(), Code::Ack, body@),
{
    match split_once(body, FIELD_SEP) {
        None => PeerAction::Close,
        Some((partner, payload)) => PeerAction::Record(one_record(partner, self_label_bytes(), payload)),
    }
}

/// `SEND sender;payload`: keep the message and acknowledge it as `user`.
fn handle_send(body: &[u8], user: &[u8]) -> (r: PeerAction)
    ensures
        r@ == link_spec(user@, Code::Send, body@),
{
    match split_once(body, FIELD_SEP) {
        None => PeerAction::Close,
        Some((sender, payload)) => {
            let reply = make_frame(Code::Ack, join_fields(user, payload.as_slice()).as_slice());
            let label = copy_all(sender.as_slice());
            PeerAction::Reply { reply, records: one_record(sender, label, payload) }
        },
    }
}

/// Anything this node does not handle goes up as `404 <body>`.
fn handle_not_found(body: &[u8]) -> (r: PeerAction)
    ensures
        r@ == PeerActionView::PassUp(frame_spec(Code::NotFound, body@)),
{
    PeerAction::PassUp(make_frame(Code::NotFound, body))
}

/// Handles a frame that arrived on this node's link to the gateway: `ACK`
/// and `SEND` as from a peer, anything else goes up as `404 <body>`.
pub fn handle_main_server_connection(frame: &[u8], user: &[u8]) -> (r: PeerAction)
    ensures
        r@ == match parse_frame_spec(frame@) {
            None => PeerActionView::Close,
            Some((code, body)) => link_spec(user@, code, body),
        },
{
    match parse_frame(frame) {
        None => PeerAction::Close,
        Some((code, body)) => match code {
            Code::Ack => {
                assert(link_spec(user@, Code::Ack, body@) == link_spec(Seq::empty(), Code::Ack, body@));
                handle_acker(body.as_slice())
            },
            Code::Send => handle_send(body.as_slice(), user),
            _ => handle_not_found(body.as_slice()),
        },
    }
}

/// The log records of the entries in an `UPDATE` list.
fn update_records(items: &Vec<Vec<u8>>) -> (r: Vec<LogRecord>)
    ensures
        r@.map_values(|x: LogRecord| x@) == records_of(items@.map_values(|p: Vec<u8>| p@)),
{
    let ghost views = items@.map_values(|p: Vec<u8>| p@);
    let mut out: Vec<LogRecord> = Vec::new();
    let mut i: usize = 0;
    while i < items.len()
        invariant
            0 <= i <= items@.len(),
            views == items@.map_values(|p: Vec<u8>| p@),
            out@.map_values(|x: LogRecord| x@) == records_of(views.subrange(0, i as int)),
        decreases items@.len() - i,
    {
        let ghost pre = views.subrange(0, i as int);
        assert(views.subrange(0, i + 1).drop_last() =~= pre);
        assert(views.subrange(0, i + 1).last() == items@[i as int]@);
        let ghost before = out@.map_values(|x: LogRecord| x@);
        match split_once(items[i].as_slice(), FIELD_SEP) {
            Some((sender, payload)) => {
                let label = copy_all(sender.as_slice());
                out.push(LogRecord { partner: sender, label, body: payload });
                assert(out@.map_values(|x: LogRecord| x@) =~= before.push(entry_record(items@[i as int]@)->0));
                assert(records_of(views.subrange(0, i + 1)) =~= records_of(pre).push(
                    entry_record(items@[i as int]@)->0,
                ));
            },
            None => {},
        }
        i = i + 1;
    }
    assert(views.subrange(0, items@.len() as int) =~= views);
    out
}

/// Handles a frame on this node's own listening socket, from a peer or from
/// a peer that this node keeps copies for. `user` is this node's name.
pub fn handle_connection(frame: &[u8], user: &[u8], cache: &mut DeliveryCache) -> (r: PeerAction)
    ensures
        (final(cache)@, r@) == peer_step_spec(old(cache)@, user@, frame@),
{
    let (code, body) = match parse_frame(frame) {
        None => return PeerAction::Close,
        Some(p) => p,
    };
    match code {
        Code::Ack => {
            assert(link_spec(user@, Code::Ack, body@) == link_spec(Seq::empty(), Code::Ack, body@));
            handle_acker(body.as_slice())
        },
        Code::Send => handle_send(body.as_slice(), user),
        Code::Init => match split_once(body.as_slice(), FIELD_SEP) {
            None => PeerAction::Close,
            Some((name, _)) => {
                let drained = cache.drain_and_clear(name.as_slice());
                let listed = update_body(&drained);
                let records: Vec<LogRecord> = Vec::new();
                assert(records@.map_values(|x: LogRecord| x@) =~= Seq::<RecordView>::empty());
                PeerAction::Reply { reply: make_frame(Code::Update, listed.as_slice()), records }
            },
        },
        Code::Cache => {
            let (recipient, rest) = match split_once(body.as_slice(), FIELD_SEP) {
                None => return PeerAction::Close,
                Some(p) => p,
            };
            match split_once(rest.as_slice(), FIELD_SEP) {
                None => PeerAction::Close,
                Some((sender, payload)) => {
                    cache.enqueue(recipient, sender, payload);
                    PeerAction::Stored
                },
            }
        },
        Code::Update => {
            let items = split_list(body.as_slice());
            PeerAction::Record(update_records(&items))
        },
        Code::IpRetrieval => PeerAction::PassUp(body),
        _ => handle_not_found(body.as_slice()),
    }
}

/// The address in an `IP_RETRIEVAL <addr>` reply; `None` for any other
/// frame or an empty address.
pub fn handle_ip_retrieval(frame: &[u8]) -> (r: Option<Vec<u8>>)
    ensures
        match parse_frame_spec(frame@) {
            Some((Code::IpRetrieval, addr)) => if addr.len() > 0 {
                r is Some && r->0@ == addr
            } else {
                r is None
            },
            _ => r is None,
        },
{
    match parse_frame(frame) {
        Some((Code::IpRetrieval, addr)) => if addr.len() > 0 {
            Some(addr)
        } else {
            None
        },
        _ => None,
    }
}

/// The list in a `BUDDIES <list>` reply; `None` for any other frame.
pub fn handle_buddies(frame: &[u8]) -> (r: Option<Vec<u8>>)
    ensures
        match parse_frame_spec(frame@) {
            Some((Code::Buddies, list)) => r is Some && r->0@ == list,
            _ => r is None,
        },
{
    match parse_frame(frame) {
        Some((Code::Buddies, list)) => Some(list),
        _ => None,
    }
}

/// The record that an `ACK partner;payload` reply to a direct send asks
/// for: this node wrote `payload` to `partner`. `None` for any other frame.
pub fn handle_ack(frame: &[u8]) -> (r: Option<LogRecord>)
    ensures
        match parse_frame_spec(frame@) {
            Some((Code::Ack, body)) => match split_once_spec(body, FIELD_SEP) {
                Some((partner, payload)) => r is Some && r->0@ == (
                RecordView { partner, label: self_label(), body: payload }),
                None => r is None,
            },
            _ => r is None,
        },
{
    match parse_frame(frame) {
        Some((Code::Ack, body)) => match split_once(body.as_slice(), FIELD_SEP) {
            Some((partner, payload)) => Some(LogRecord { partner, label: self_label_bytes(), body: payload }),
            None => None,
        },
        _ => None,
    }
}

/// Whether `pending` holds `item`.
fn holds(pending: &Vec<Vec<u8>>, item: &[u8]) -> (r: bool)
    ensures
        r == pending@.map_values(|p: Vec<u8>| p@).contains(item@),
{
    let ghost views = pending@.map_values(|p: Vec<u8>| p@);
    let mut i: usize = 0;
    while i < pending.len()
        invariant
            0 <= i <= pending@.len(),
            views == pending@.map_values(|p: Vec<u8>| p@),
            forall|j: int| 0 <= j < i ==> views[j] != item@,
        decreases pending@.len() - i,
    {
        if bytes_eq(pending[i].as_slice(), item) {
            assert(views[i as int] == item@);
            return true;
        }
        i = i + 1;
    }
    false
}

/// Handles the `UPDATE` reply to this node's `INIT`: adds each entry to the
/// set of messages `pending` that it does not hold yet, and returns the log
/// record of each entry. Any other frame changes nothing.
pub fn handle_update(frame: &[u8], pending: &mut Vec<Vec<u8>>) -> (r: Vec<LogRecord>)
    ensures
        match parse_frame_spec(frame@) {
            Some((Code::Update, body)) => {
                &&& final(pending)@.map_values(|p: Vec<u8>| p@) == merge_spec(
                    old(pending)@.map_values(|p: Vec<u8>| p@),
                    well_formed_items(split_list_spec(body)),
                )
                &&& r@.map_values(|x: LogRecord| x@) == records_of(split_list_spec(body))
            },
            _ => {
                &&& final(pending)@ == old(pending)@
                &&& r@.len() == 0
            },
        },
{
    let body = match parse_frame(frame) {
        Some((Code::Update, body)) => body,
        _ => return Vec::new(),
    };
    let items = split_list(body.as_slice());
    let ghost views = items@.map_values(|p: Vec<u8>| p@);
    let ghost start = pending@.map_values(|p: Vec<u8>| p@);
    let mut i: usize = 0;
    while i < items.len()
        invariant
            0 <= i <= items@.len(),
            views == items@.map_values(|p: Vec<u8>| p@),
            views == split_list_spec(body@),
            pending@.map_values(|p: Vec<u8>| p@) == merge_spec(start, well_formed_items(views.subrange(0, i as int))),
        decreases items@.len() - i,
    {
        let ghost pre = views.subrange(0, i as int);
        assert(views.subrange(0, i + 1).drop_last() =~= pre);
        assert(views.subrange(0, i + 1).last() == items@[i as int]@);
        let item = &items[i];
        let ghost m = pending@.map_values(|p: Vec<u8>| p@);
        if split_once(item.as_slice(), FIELD_SEP).is_some() {
            let ghost wf_now = well_formed_items(views.subrange(0, i + 1));
            assert(wf_now == well_formed_items(pre).push(item@));
            assert(wf_now.drop_last() =~= well_formed_items(pre));
            if !holds(pending, item.as_slice()) {
                pending.push(copy_all(item.as_slice()));
                assert(pending@.map_values(|p: Vec<u8>| p@) =~= m.push(item@));
            }
        }
        i = i + 1;
    }
    assert(views.subrange(0, items@.len() as int) =~= views);
    update_records(&items)
}

/// `<timestamp>;<label>;<body>`, one line of a chat log.
pub open spec fn log_line_spec(timestamp: Seq<u8>, label: Seq<u8>, body: Seq<u8>) -> Seq<u8> {
    timestamp + seq![FIELD_SEP] + label + seq![FIELD_SEP] + body
}

/// The chat-log line of `record`, written at `timestamp`.
pub fn format_log_line(timestamp: &[u8], record: &LogRecord) -> (r: Vec<u8>)
    ensures
        r@ == log_line_spec(timestamp@, record.label@, record.body@),
{
    let mut r: Vec<u8> = Vec::new();
    append_bytes(&mut r, timestamp);
    r.push(FIELD_SEP);
    append_bytes(&mut r, record.label.as_slice());
    r.push(FIELD_SEP);
    append_bytes(&mut r, record.body.as_slice());
    assert(r@ =~= log_line_spec(timestamp@, record.label@, record.body@));
    r
}

/// ` -> `
pub open spec fn arrow() -> Seq<u8> {
    seq![SPACE, 45, 62, SPACE]
}

/// A chat-log line as it is shown: `<timestamp> <label> -> <body>`; `None`
/// for a line without both separators.
pub open spec fn render_spec(line: Seq<u8>) -> Option<Seq<u8>> {
    match split_once_spec(line, FIELD_SEP) {
        Some((timestamp, rest)) => match split_once_spec(rest, FIELD_SEP) {
            Some((label, body)) => Some(timestamp + seq![SPACE] + label + arrow() + body),
            None => None,
        },
        None => None,
    }
}

/// A chat-log line as it is shown.
pub fn render_log_line(line: &[u8]) -> (r: Option<Vec<u8>>)
    ensures
        match r {
            Some(t) => render_spec(line@) == Some(t@),
            None => render_spec(line@) is None,
        },
{
    let (timestamp, rest) = match split_once(line, FIELD_SEP) {
        None => return None,
        Some(p) => p,
    };
    let (label, body) = match split_once(rest.as_slice(), FIELD_SEP) {
        None => return None,
        Some(p) => p,
    };
    let mut r = timestamp;
    r.push(SPACE);
    append_bytes(&mut r, label.as_slice());
    let a = vec![SPACE, 45, 62, SPACE];
    append_bytes(&mut r, a.as_slice());
    append_bytes(&mut r, body.as_slice());
    assert(a@ =~= arrow());
    Some(r)
}

} // verus!
