//! Sending one message from a peer: ask the gateway where the recipient
//! listens, try to hand the message over directly, and fall back to leaving
//! copies with the recipient's buddy group. The decisions are made here; the
//! caller performs each action and hands back what came of it.
use vstd::prelude::*;
use crate::peer::{handle_ack, handle_buddies, handle_ip_retrieval, self_label, self_label_bytes, LogRecord, RecordView};
use crate::wire::{
    copy_all, fields2, frame_spec, join_fields, make_frame, parse_frame_spec, split_list,
    split_list_spec, split_once_spec, Code, FIELD_SEP,
};

verus! {

/// How a send ended.
#[derive(PartialEq, Eq, Structural, Debug, Clone, Copy)]
pub enum SendOutcome {
    /// The gateway does not know the recipient.
    RecipientNotFound,
    /// The recipient acknowledged the message.
    Delivered,
    /// The recipient was out of reach; this many buddies took a copy.
    Cached { replicas: usize },
}

/// Where a send stands.
#[derive(PartialEq, Eq, Structural, Debug, Clone, Copy)]
pub enum SendState {
    AwaitAddress,
    AwaitConnect,
    AwaitAck,
    AwaitBuddies,
    AwaitPush,
    Finished(SendOutcome),
}

/// What came of the last action.
#[derive(Debug, PartialEq, Eq)]
pub enum SendEvent {
    /// A frame arrived in reply.
    Frame(Vec<u8>),
    /// The direct connection is open.
    Connected,
    /// The direct connection could not be opened in time, or broke.
    ConnectFailed,
    /// This many buddies took the copy.
    Pushed(usize),
}

pub enum SendEventView {
    Frame(Seq<u8>),
    Connected,
    ConnectFailed,
    Pushed(usize),
}

impl View for SendEvent {
    type V = SendEventView;

    open spec fn view(&self) -> SendEventView {
        match self {
            SendEvent::Frame(f) => SendEventView::Frame(f@),
            SendEvent::Connected => SendEventView::Connected,
            SendEvent::ConnectFailed => SendEventView::ConnectFailed,
            SendEvent::Pushed(n) => SendEventView::Pushed(*n),
        }
    }
}

/// What the caller does next.
#[derive(Debug, PartialEq, Eq)]
pub enum SendAction {
    /// Write the frame to the gateway and hand back its reply.
    AskGateway(Vec<u8>),
    /// Connect to this address with a bounded timeout.
    Connect(Vec<u8>),
    /// Write the frame on the direct connection and hand back the reply.
    SendDirect(Vec<u8>),
    /// Write `frame` to every buddy that can be reached, skip the others,
    /// and hand back how many took it.
    PushCopies { buddies: Vec<Vec<u8>>, frame: Vec<u8> },
    /// The send is over; append `record`, if any, to the chat log.
    Finish { outcome: SendOutcome, record: Option<LogRecord> },
    /// The event did not fit where the send stands; nothing changes.
    Ignore,
}

pub enum SendActionView {
    AskGateway(Seq<u8>),
    Connect(Seq<u8>),
    SendDirect(Seq<u8>),
    PushCopies { buddies: Seq<Seq<u8>>, frame: Seq<u8> },
    Finish { outcome: SendOutcome, record: Option<RecordView> },
    Ignore,
}

impl View for SendAction {
    type V = SendActionView;

    open spec fn view(&self) -> SendActionView {
        match self {
            SendAction::AskGateway(f) => SendActionView::AskGateway(f@),
            SendAction::Connect(a) => SendActionView::Connect(a@),
            SendAction::SendDirect(f) => SendActionView::SendDirect(f@),
            SendAction::PushCopies { buddies, frame } => SendActionView::PushCopies {
                buddies: buddies@.map_values(|b: Vec<u8>| b@),
                frame: frame@,
            },
            SendAction::Finish { outcome, record } => SendActionView::Finish {
                outcome: *outcome,
                record: match record {
                    Some(r) => Some(r@),
                    None => None,
                },
            },
            SendAction::Ignore => SendActionView::Ignore,
        }
    }
}

/// One message on its way from `user` to `recipient`.
pub struct SendSession {
    pub recipient: Vec<u8>,
    pub user: Vec<u8>,
    pub payload: Vec<u8>,
    pub state: SendState,
}

/// `IP_FETCH <recipient>`
pub open spec fn ip_fetch_spec(recipient: Seq<u8>) -> Seq<u8> {
    frame_spec(Code::IpFetch, recipient)
}

/// `SEND <user>;<payload>`
pub open spec fn direct_spec(user: Seq<u8>, payload: Seq<u8>) -> Seq<u8> {
    frame_spec(Code::Send, fields2(user, payload))
}

/// `BUDDIES <recipient>`
pub open spec fn buddies_request_spec(recipient: Seq<u8>) -> Seq<u8> {
    frame_spec(Code::Buddies, recipient)
}

/// `CACHE <recipient>;<user>;<payload>`
pub open spec fn backup_spec(recipient: Seq<u8>, user: Seq<u8>, payload: Seq<u8>) -> Seq<u8> {
    frame_spec(Code::Cache, fields2(recipient, fields2(user, payload)))
}

/// The record of a message sent: `You` wrote `payload` to `recipient`.
pub open spec fn sent_record(recipient: Seq<u8>, payload: Seq<u8>) -> RecordView {
    RecordView { partner: recipient, label: self_label(), body: payload }
}

/// The next state and the action, from where the send stands and what came
/// of the last action.
pub open spec fn transition(
    recipient: Seq<u8>,
    user: Seq<u8>,
    payload: Seq<u8>,
    state: SendState,
    event: SendEventView,
) -> (SendState, SendActionView) {
    let ask_buddies = (SendState::AwaitBuddies, SendActionView::AskGateway(buddies_request_spec(recipient)));
    let cached = |n: usize|
        (
            SendState::Finished(SendOutcome::Cached { replicas: n }),
            SendActionView::Finish {
                outcome: SendOutcome::Cached { replicas: n },
                record: Some(sent_record(recipient, payload)),
            },
        );
    match (state, event) {
        (SendState::AwaitAddress, SendEventView::Frame(f)) => match parse_frame_spec(f) {
            Some((Code::IpRetrieval, addr)) if addr.len() > 0 => (
                SendState::AwaitConnect,
                SendActionView::Connect(addr),
            ),
            _ => (
                SendState::Finished(SendOutcome::RecipientNotFound),
                SendActionView::Finish { outcome: SendOutcome::RecipientNotFound, record: None },
            ),
        },
        (SendState::AwaitConnect, SendEventView::Connected) => (
            SendState::AwaitAck,
            SendActionView::SendDirect(direct_spec(user, payload)),
        ),
        (SendState::AwaitConnect, SendEventView::ConnectFailed) => ask_buddies,
        (SendState::AwaitAck, SendEventView::Frame(f)) => match parse_frame_spec(f) {
            Some((Code::Ack, body)) if split_once_spec(body, FIELD_SEP) is Some => (
                SendState::Finished(SendOutcome::Delivered),
                SendActionView::Finish {
                    outcome: SendOutcome::Delivered,
                    record: Some(sent_record(recipient, payload)),
                },
            ),
            _ => ask_buddies,
        },
        (SendState::AwaitAck, SendEventView::ConnectFailed) => ask_buddies,
        (SendState::AwaitBuddies, SendEventView::Frame(f)) => match parse_frame_spec(f) {
            Some((Code::Buddies, list)) => (
                SendState::AwaitPush,
                SendActionView::PushCopies {
                    buddies: split_list_spec(list),
                    frame: backup_spec(recipient, user, payload),
                },
            ),
            _ => cached(0),
        },
        (SendState::AwaitPush, SendEventView::Pushed(n)) => cached(n),
        _ => (state, SendActionView::Ignore),
    }
}

/// The frame that asks the gateway where `recipient` listens.
pub fn ip_fetch(recipient: &[u8]) -> (r: Vec<u8>)
    ensures
        r@ == ip_fetch_spec(recipient@),
{
    make_frame(Code::IpFetch, recipient)
}

/// The frame that registers `user`, listening at `address`, with the gateway.
pub fn init_frame(user: &[u8], address: &[u8]) -> (r: Vec<u8>)
    ensures
        r@ == frame_spec(Code::Init, fields2(user@, address@)),
{
    make_frame(Code::Init, join_fields(user, address).as_slice())
}

impl SendSession {
    /// Starts sending `payload` from `user` to `recipient`: first ask the
    /// gateway for the recipient's address.
    pub fn start(recipient: Vec<u8>, user: Vec<u8>, payload: Vec<u8>) -> (r: (SendSession, SendAction))
        ensures
            r.0.recipient@ == recipient@,
            r.0.user@ == user@,
            r.0.payload@ == payload@,
            r.0.state == SendState::AwaitAddress,
            r.1@ == SendActionView::AskGateway(ip_fetch_spec(recipient@)),
    {
        let ask = ip_fetch(recipient.as_slice());
        (SendSession { recipient, user, payload, state: SendState::AwaitAddress }, SendAction::AskGateway(ask))
    }

    fn finish_cached(&mut self, n: usize) -> (r: SendAction)
        ensures
            final(self).recipient == old(self).recipient,
            final(self).user == old(self).user,
            final(self).payload == old(self).payload,
            final(self).state == SendState::Finished(SendOutcome::Cached { replicas: n }),
            r@ == (SendActionView::Finish {
                outcome: SendOutcome::Cached { replicas: n },
                record: Some(sent_record(old(self).recipient@, old(self).payload@)),
            }),
    {
        self.state = SendState::Finished(SendOutcome::Cached { replicas: n });
        SendAction::Finish {
            outcome: SendOutcome::Cached { replicas: n },
            record: Some(self.sent()),
        }
    }

    fn sent(&self) -> (r: LogRecord)
        ensures
            r@ == sent_record(self.recipient@, self.payload@),
    {
        LogRecord { partner: copy_all(self.recipient.as_slice()), label: self_label_bytes(), body: copy_all(self.payload.as_slice()) }
    }

    fn ask_buddies(&mut self) -> (r: SendAction)
        ensures
            final(self).recipient == old(self).recipient,
            final(self).user == old(self).user,
            final(self).payload == old(self).payload,
            final(self).state == SendState::AwaitBuddies,
            r@ == SendActionView::AskGateway(buddies_request_spec(old(self).recipient@)),
    {
        self.state = SendState::AwaitBuddies;
        SendAction::AskGateway(make_frame(Code::Buddies, self.recipient.as_slice()))
    }

    /// Takes what came of the last action and gives the next one.
    pub fn step(&mut self, event: SendEvent) -> (r: SendAction)
        ensures
            final(self).recipient == old(self).recipient,
            final(self).user == old(self).user,
            final(self).payload == old(self).payload,
            (final(self).state, r@) == transition(
                old(self).recipient@,
                old(self).user@,
                old(self).payload@,
                old(self).state,
                event@,
            ),
    {
        match (self.state, event) {
            (SendState::AwaitAddress, SendEvent::Frame(f)) => match handle_ip_retrieval(f.as_slice()) {
                Some(addr) => {
                    self.state = SendState::AwaitConnect;
                    SendAction::Connect(addr)
                },
                None => {
                    self.state = SendState::Finished(SendOutcome::RecipientNotFound);
                    SendAction::Finish { outcome: SendOutcome::RecipientNotFound, record: None }
                },
            },
            (SendState::AwaitConnect, SendEvent::Connected) => {
                self.state = SendState::AwaitAck;
                SendAction::SendDirect(make_frame(Code::Send, join_fields(self.user.as_slice(), self.payload.as_slice()).as_slice()))
            },
            (SendState::AwaitConnect, SendEvent::ConnectFailed) => self.ask_buddies(),
            (SendState::AwaitAck, SendEvent::Frame(f)) => match handle_ack(f.as_slice()) {
                Some(_) => {
                    self.state = SendState::Finished(SendOutcome::Delivered);
                    SendAction::Finish { outcome: SendOutcome::Delivered, record: Some(self.sent()) }
                },
                None => self.ask_buddies(),
            },
            (SendState::AwaitAck, SendEvent::ConnectFailed) => self.ask_buddies(),
            (SendState::AwaitBuddies, SendEvent::Frame(f)) => match handle_buddies(f.as_slice()) {
                Some(list) => {
                    self.state = SendState::AwaitPush;
                    let buddies = split_list(list.as_slice());
                    let copy = make_frame(
                        Code::Cache,
                        join_fields(
                            self.recipient.as_slice(),
                            join_fields(self.user.as_slice(), self.payload.as_slice()).as_slice(),
                        ).as_slice(),
                    );
                    SendAction::PushCopies { buddies, frame: copy }
                },
                None => self.finish_cached(0),
            },
            (SendState::AwaitPush, SendEvent::Pushed(n)) => self.finish_cached(n),
            _ => SendAction::Ignore,
        }
    }
}

} // verus!
