//! The reader engine of a connection.
//!
//! It takes the framing units that the codec decoded from the socket,
//! reassembles streams into messages, and routes each complete message: an
//! error signal is only reported, a request or a direct-send message is
//! offered once to the inbound queue of its protocol, and an RPC response is
//! handed back to be matched with the request that is waiting for it.
//!
//! A fragment that does not continue the stream being assembled is a
//! protocol anomaly: the partial message is dropped, the connection goes on.

use crate::application::{ApplicationCollector, PeerNetworkId, ReceivedMessage};
use crate::channel::{try_send, SendOutcome};
use crate::message::{
    ErrorCode, FrameView, MessageView, MultiplexMessage, NetworkMessage, ProtocolId, RpcResponse,
    StreamMessage,
};
use std::sync::Arc;
use vstd::prelude::*;

verus! {

/// Why a fragment was dropped.
#[derive(Clone, Copy, Debug, PartialEq, Eq, Structural)]
pub enum DropReason {
    /// No stream is being assembled.
    NoStream,
    /// The fragment belongs to another stream than the one being assembled.
    WrongStream,
    /// The fragment is not the one expected next.
    WrongSequence,
    /// The message being assembled is an error signal, which has no payload.
    NoPayload,
    /// The stream has more fragments than a stream can count.
    CountExceeded,
}

/// What one framing unit of a stream did to the assembly.
#[derive(Debug, PartialEq, Eq)]
pub enum StreamEvent {
    /// A header began a stream. `superseded` says that it replaced a stream
    /// that was not complete.
    Started { superseded: bool },
    /// A fragment was added; more are expected.
    Appended,
    /// The last fragment was added: here is the message.
    Completed(NetworkMessage),
    /// The fragment and the partial message, if any, were dropped.
    Dropped(DropReason),
}

/// `StreamEvent` as a mathematical value.
pub enum StreamEventView {
    Started { superseded: bool },
    Appended,
    Completed(MessageView),
    Dropped(DropReason),
}

impl View for StreamEvent {
    type V = StreamEventView;

    open spec fn view(&self) -> StreamEventView {
        match self {
            StreamEvent::Started { superseded } => StreamEventView::Started {
                superseded: *superseded,
            },
            StreamEvent::Appended => StreamEventView::Appended,
            StreamEvent::Completed(message) => StreamEventView::Completed(message@),
            StreamEvent::Dropped(reason) => StreamEventView::Dropped(*reason),
        }
    }
}

/// The reassembly state of the reader as a mathematical value, with its
/// transitions as functions on it.
#[verifier::ext_equal]
pub struct DefragView {
    /// Identifier of the stream seen last.
    pub stream_id: u32,
    /// The message being assembled; `None` while the reader is idle.
    pub partial: Option<MessageView>,
    /// Sequence number of the fragment expected next.
    pub fragment_index: u8,
    /// Number of framing units that the header declared.
    pub num_fragments: u8,
}

impl DefragView {
    /// The state of a reader that has seen nothing.
    pub open spec fn fresh() -> DefragView {
        DefragView { stream_id: 0, partial: None, fragment_index: 0, num_fragments: 0 }
    }

    /// No stream is being assembled.
    pub open spec fn idle(self) -> bool {
        self.partial is None
    }

    /// The idle state that a completed or an abandoned stream leaves.
    pub open spec fn reset(self) -> DefragView {
        DefragView { partial: None, fragment_index: 0, num_fragments: 0, ..self }
    }

    /// A header begins a stream, whatever was being assembled before.
    pub open spec fn header(self, request_id: u32, num_fragments: u8, message: MessageView) -> (
        DefragView,
        StreamEventView,
    ) {
        (
            DefragView {
                stream_id: request_id,
                partial: Some(message),
                fragment_index: 1,
                num_fragments,
            },
            StreamEventView::Started { superseded: self.partial is Some },
        )
    }

    /// A fragment is added to the message being assembled if it belongs to
    /// that stream and is the one expected next; the message is complete
    /// when the declared count is reached. Any other fragment is dropped
    /// together with the partial message.
    pub open spec fn fragment(self, request_id: u32, fragment_id: u8, data: Seq<u8>) -> (
        DefragView,
        StreamEventView,
    ) {
        match self.partial {
            None => (self.reset(), StreamEventView::Dropped(DropReason::NoStream)),
            Some(partial) => {
                if request_id != self.stream_id {
                    (self.reset(), StreamEventView::Dropped(DropReason::WrongStream))
                } else if fragment_id != self.fragment_index {
                    (self.reset(), StreamEventView::Dropped(DropReason::WrongSequence))
                } else if partial is Error {
                    (self.reset(), StreamEventView::Dropped(DropReason::NoPayload))
                } else if self.fragment_index == u8::MAX {
                    (self.reset(), StreamEventView::Dropped(DropReason::CountExceeded))
                } else {
                    let grown = partial.with_payload(partial.payload() + data);
                    if self.fragment_index + 1 == self.num_fragments {
                        (self.reset(), StreamEventView::Completed(grown))
                    } else {
                        (
                            DefragView {
                                partial: Some(grown),
                                fragment_index: (self.fragment_index + 1) as u8,
                                ..self
                            },
                            StreamEventView::Appended,
                        )
                    }
                }
            },
        }
    }

    /// What a framing unit of a stream does to the assembly. A whole message
    /// is no part of a stream and leaves the assembly alone.
    pub open spec fn handle_stream(self, frame: FrameView) -> (DefragView, Option<StreamEventView>) {
        match frame {
            FrameView::Message(_) => (self, None),
            FrameView::Header { request_id, num_fragments, message } => {
                let (next, event) = self.header(request_id, num_fragments, message);
                (next, Some(event))
            },
            FrameView::Fragment { request_id, fragment_id, data } => {
                let (next, event) = self.fragment(request_id, fragment_id, data);
                (next, Some(event))
            },
        }
    }

    /// The message, if any, that a framing unit delivers: a whole message
    /// itself, a stream's message with its last fragment.
    pub open spec fn delivers(self, frame: FrameView) -> Option<MessageView> {
        match frame {
            FrameView::Message(message) => Some(message),
            _ => match self.handle_stream(frame).1 {
                Some(StreamEventView::Completed(message)) => Some(message),
                _ => None,
            },
        }
    }

    /// The assembly state after a framing unit.
    pub open spec fn after(self, frame: FrameView) -> DefragView {
        self.handle_stream(frame).0
    }
}

/// What became of a message that was offered to an application.
#[derive(Clone, Copy, Debug, PartialEq, Eq, Structural)]
pub enum ForwardOutcome {
    /// It is in the application's inbound queue.
    Delivered,
    /// The queue was full or its consumer gone: the message was dropped.
    Dropped,
    /// No application handles the protocol: the message was dropped.
    NoHandler,
}

/// What the reader did with a complete inbound message.
#[derive(Debug, PartialEq, Eq)]
pub enum Dispatch {
    /// An error signal: it is reported and goes no further.
    Signal(ErrorCode),
    /// A request or a direct-send message was offered to its protocol's
    /// application.
    Forwarded { protocol_id: ProtocolId, data_len: usize, outcome: ForwardOutcome },
    /// An RPC response: it is to be matched with its pending request.
    Response(RpcResponse),
}

/// `Dispatch` as a mathematical value.
pub enum DispatchView {
    Signal(ErrorCode),
    Forwarded { protocol_id: ProtocolId, data_len: usize, outcome: ForwardOutcome },
    Response(MessageView),
}

impl View for Dispatch {
    type V = DispatchView;

    open spec fn view(&self) -> DispatchView {
        match self {
            Dispatch::Signal(code) => DispatchView::Signal(*code),
            Dispatch::Forwarded { protocol_id, data_len, outcome } => DispatchView::Forwarded {
                protocol_id: *protocol_id,
                data_len: *data_len,
                outcome: *outcome,
            },
            Dispatch::Response(response) => DispatchView::Response(response@),
        }
    }
}

/// What the reader did with one framing unit.
#[derive(Debug, PartialEq, Eq)]
pub enum ReadEvent {
    /// A framing unit of a stream was taken in and no message is complete.
    Stream(StreamEvent),
    /// A message was complete and was routed.
    Message(Dispatch),
}

/// What the codec gave to the reader task.
#[derive(Debug, PartialEq, Eq)]
pub enum ReadInput {
    /// A framing unit.
    Unit(MultiplexMessage),
    /// Bytes that are no framing unit.
    DecodeError,
    /// The socket gave its last byte.
    End,
}

/// Why the reader ends its task.
#[derive(Clone, Copy, Debug, PartialEq, Eq, Structural)]
pub enum ReaderStop {
    /// The codec could not decode what the socket gave.
    DecodeError,
    /// The input is at its end.
    EndOfInput,
}

/// What the reader task does next.
#[derive(Debug, PartialEq, Eq)]
pub enum ReaderStep {
    /// Go on with the next framing unit; this is what the last one did.
    Continue(ReadEvent),
    /// End the task and close the connection.
    Stop(ReaderStop),
}

/// What an offer to an application's queue amounts to.
pub open spec fn forward_outcome(handled: bool, sent: SendOutcome) -> ForwardOutcome {
    if !handled {
        ForwardOutcome::NoHandler
    } else if sent == SendOutcome::Queued {
        ForwardOutcome::Delivered
    } else {
        ForwardOutcome::Dropped
    }
}

/// Where a complete message goes, given which protocols have an application
/// and what the offer to the application's queue gave.
pub open spec fn dispatch(
    protocols: Set<ProtocolId>,
    message: MessageView,
    sent: SendOutcome,
) -> DispatchView {
    match message {
        MessageView::Error(code) => DispatchView::Signal(code),
        MessageView::RpcResponse { .. } => DispatchView::Response(message),
        MessageView::RpcRequest { protocol_id, data, .. } => DispatchView::Forwarded {
            protocol_id,
            data_len: data.len() as usize,
            outcome: forward_outcome(protocols.contains(protocol_id), sent),
        },
        MessageView::DirectSendMsg { protocol_id, data, .. } => DispatchView::Forwarded {
            protocol_id,
            data_len: data.len() as usize,
            outcome: forward_outcome(protocols.contains(protocol_id), sent),
        },
    }
}

/// How an RPC response is settled once the tracker of pending requests was
/// asked for its request.
#[derive(Debug, PartialEq, Eq)]
pub enum RpcRoute<S> {
    /// A request was waiting: complete it with this payload.
    Complete { state: S, payload: Vec<u8> },
    /// No request was waiting, it never existed or timed out: the response
    /// is counted as missed and dropped.
    Missed { data_len: usize },
}

/// Settles an RPC response, given what the tracker of pending requests held
/// for its request identifier.
pub fn route_rpc_response<S>(pending: Option<S>, response: RpcResponse) -> (route: RpcRoute<S>)
    ensures
        match pending {
            Some(state) => route matches RpcRoute::Complete { state: s, payload } && s == state
                && payload@ == response.raw_response@,
            None => route == (RpcRoute::<S>::Missed { data_len: response.raw_response@.len() as usize }),
        },
{
    match pending {
        Some(state) => RpcRoute::Complete { state, payload: response.raw_response },
        None => RpcRoute::Missed { data_len: response.raw_response.len() },
    }
}

/// The state that the reader task of one connection keeps between framing
/// units.
pub struct ReaderContext {
    apps: Arc<ApplicationCollector>,
    remote_peer_network_id: PeerNetworkId,
    // reassembly
    current_stream_id: u32,
    large_message: Option<NetworkMessage>,
    fragment_index: u8,
    num_fragments: u8,
}

impl View for ReaderContext {
    type V = DefragView;

    closed spec fn view(&self) -> DefragView {
        DefragView {
            stream_id: self.current_stream_id,
            partial: match self.large_message {
                Some(message) => Some(message@),
                None => None,
            },
            fragment_index: self.fragment_index,
            num_fragments: self.num_fragments,
        }
    }
}

/// Adds bytes to the payload of a message; an error signal has none and is
/// left alone.
fn extend_payload(message: &mut NetworkMessage, data: Vec<u8>)
    ensures
        final(message)@ == old(message)@.with_payload(old(message)@.payload() + data@),
{
    let mut data = data;
    match message {
        NetworkMessage::Error(_) => {},
        NetworkMessage::RpcRequest(request) => {
            request.raw_request.append(&mut data);
        },
        NetworkMessage::RpcResponse(response) => {
            response.raw_response.append(&mut data);
        },
        NetworkMessage::DirectSendMsg(direct) => {
            direct.raw_msg.append(&mut data);
        },
    }
}

impl ReaderContext {
    /// The applications that the reader delivers to.
    pub closed spec fn apps(&self) -> ApplicationCollector {
        *self.apps
    }

    /// The protocols that have an application to deliver to.
    pub open spec fn protocols(&self) -> Set<ProtocolId> {
        self.apps().protocols()
    }

    /// The peer at the other end of the connection.
    pub closed spec fn remote(&self) -> PeerNetworkId {
        self.remote_peer_network_id
    }

    /// A reader that has seen nothing.
    pub fn new(apps: Arc<ApplicationCollector>, remote_peer_network_id: PeerNetworkId) -> (reader:
        Self)
        ensures
            reader@ == DefragView::fresh(),
            reader.apps() == *apps,
            reader.remote() == remote_peer_network_id,
    {
        ReaderContext {
            apps,
            remote_peer_network_id,
            current_stream_id: 0,
            large_message: None,
            fragment_index: 0,
            num_fragments: 0,
        }
    }

    /// Whether no stream is being assembled.
    pub fn is_idle(&self) -> (b: bool)
        ensures
            b == self@.idle(),
    {
        self.large_message.is_none()
    }

    /// Identifier of the stream seen last.
    pub fn current_stream_id(&self) -> (id: u32)
        ensures
            id == self@.stream_id,
    {
        self.current_stream_id
    }

    fn reset(&mut self)
        ensures
            final(self)@ == old(self)@.reset(),
            final(self).apps() == old(self).apps(),
            final(self).remote() == old(self).remote(),
    {
        self.large_message = None;
        self.fragment_index = 0;
        self.num_fragments = 0;
    }

    /// Takes in one framing unit of a stream.
    pub fn handle_stream(&mut self, fragment: StreamMessage) -> (event: StreamEvent)
        ensures
            old(self)@.handle_stream(fragment@) == (final(self)@, Some(event@)),
            final(self).apps() == old(self).apps(),
            final(self).remote() == old(self).remote(),
    {
        match fragment {
            StreamMessage::Header(head) => {
                let superseded = self.large_message.is_some();
                self.current_stream_id = head.request_id;
                self.num_fragments = head.num_fragments;
                self.large_message = Some(head.message);
                self.fragment_index = 1;
                StreamEvent::Started { superseded }
            },
            StreamMessage::Fragment(more) => {
                let reason = match &self.large_message {
                    None => Some(DropReason::NoStream),
                    Some(partial) => {
                        if more.request_id != self.current_stream_id {
                            Some(DropReason::WrongStream)
                        } else if more.fragment_id != self.fragment_index {
                            Some(DropReason::WrongSequence)
                        } else if is_signal(partial) {
                            Some(DropReason::NoPayload)
                        } else if self.fragment_index == u8::MAX {
                            Some(DropReason::CountExceeded)
                        } else {
                            None
                        }
                    },
                };
                match reason {
                    Some(reason) => {
                        self.reset();
                        StreamEvent::Dropped(reason)
                    },
                    None => {
                        let mut message = self.large_message.take().unwrap();
                        extend_payload(&mut message, more.raw_data);
                        if self.fragment_index + 1 == self.num_fragments {
                            self.reset();
                            StreamEvent::Completed(message)
                        } else {
                            self.large_message = Some(message);
                            self.fragment_index = self.fragment_index + 1;
                            StreamEvent::Appended
                        }
                    },
                }
            },
        }
    }

    /// What is offered to an application for a message: the message itself,
    /// with the peer at the other end as its sender.
    pub fn received(&self, nmsg: NetworkMessage) -> (offer: ReceivedMessage)
        ensures
            offer.message == nmsg,
            offer.sender == self.remote(),
    {
        ReceivedMessage { message: nmsg, sender: self.remote_peer_network_id }
    }

    /// Offers a message to the application of a protocol: one attempt,
    /// without waiting. The message is dropped if no application handles the
    /// protocol or if the application's queue does not take it.
    pub fn forward(&self, protocol_id: ProtocolId, nmsg: NetworkMessage) -> (outcome:
        ForwardOutcome)
        ensures
            outcome is NoHandler <==> !self.protocols().contains(protocol_id),
            exists|sent: SendOutcome|
                outcome == #[trigger] forward_outcome(
                    self.protocols().contains(protocol_id),
                    sent,
                ),
    {
        match self.apps.get(protocol_id) {
            None => {
                assert(ForwardOutcome::NoHandler == forward_outcome(false, SendOutcome::Full));
                ForwardOutcome::NoHandler
            },
            Some(app) => {
                let sent = try_send(&app.sender, self.received(nmsg));
                let outcome = match sent {
                    SendOutcome::Queued => ForwardOutcome::Delivered,
                    _ => ForwardOutcome::Dropped,
                };
                assert(outcome == forward_outcome(true, sent));
                outcome
            },
        }
    }

    /// Routes a complete inbound message. Whatever the application's queue
    /// did with an offer, the outcome is the one the model assigns to it.
    pub fn handle_message(&self, nmsg: NetworkMessage) -> (routed: Dispatch)
        ensures
            exists|sent: SendOutcome|
                routed@ == #[trigger] dispatch(self.protocols(), nmsg@, sent),
    {
        let ghost message = nmsg@;
        let data_len = nmsg.data_len();
        match nmsg {
            NetworkMessage::Error(code) => {
                assert(DispatchView::Signal(code) == dispatch(
                    self.protocols(),
                    message,
                    SendOutcome::Full,
                ));
                Dispatch::Signal(code)
            },
            NetworkMessage::RpcResponse(response) => {
                assert(DispatchView::Response(response@) == dispatch(
                    self.protocols(),
                    message,
                    SendOutcome::Full,
                ));
                Dispatch::Response(response)
            },
            NetworkMessage::RpcRequest(request) => {
                let protocol_id = request.protocol_id;
                let outcome = self.forward(protocol_id, NetworkMessage::RpcRequest(request));
                let routed = Dispatch::Forwarded { protocol_id, data_len, outcome };
                proof {
                    let sent = choose|sent: SendOutcome|
                        outcome == #[trigger] forward_outcome(
                            self.protocols().contains(protocol_id),
                            sent,
                        );
                    assert(routed@ == dispatch(self.protocols(), message, sent));
                }
                routed
            },
            NetworkMessage::DirectSendMsg(direct) => {
                let protocol_id = direct.protocol_id;
                let outcome = self.forward(protocol_id, NetworkMessage::DirectSendMsg(direct));
                let routed = Dispatch::Forwarded { protocol_id, data_len, outcome };
                proof {
                    let sent = choose|sent: SendOutcome|
                        outcome == #[trigger] forward_outcome(
                            self.protocols().contains(protocol_id),
                            sent,
                        );
                    assert(routed@ == dispatch(self.protocols(), message, sent));
                }
                routed
            },
        }
    }

    /// Takes in one framing unit from the socket: a whole message is routed,
    /// a framing unit of a stream goes to the assembly, and the message that
    /// it completes, if any, is routed.
    pub fn handle(&mut self, frame: MultiplexMessage) -> (event: ReadEvent)
        ensures
            final(self)@ == old(self)@.after(frame@),
            final(self).apps() == old(self).apps(),
            final(self).remote() == old(self).remote(),
            match old(self)@.delivers(frame@) {
                Some(message) => event matches ReadEvent::Message(routed) && exists|
                    sent: SendOutcome,
                |
                    routed@ == #[trigger] dispatch(old(self).protocols(), message, sent),
                None => event matches ReadEvent::Stream(progress) && Some(progress@) == old(
                    self,
                )@.handle_stream(frame@).1,
            },
    {
        match frame {
            MultiplexMessage::Message(nmsg) => {
                let ghost message = nmsg@;
                let routed = self.handle_message(nmsg);
                proof {
                    let sent = choose|sent: SendOutcome|
                        routed@ == #[trigger] dispatch(self.protocols(), message, sent);
                    assert(routed@ == dispatch(old(self).protocols(), message, sent));
                }
                ReadEvent::Message(routed)
            },
            MultiplexMessage::Stream(fragment) => {
                match self.handle_stream(fragment) {
                    StreamEvent::Completed(complete) => {
                        let ghost message = complete@;
                        let routed = self.handle_message(complete);
                        proof {
                            let sent = choose|sent: SendOutcome|
                                routed@ == #[trigger] dispatch(self.protocols(), message, sent);
                            assert(routed@ == dispatch(old(self).protocols(), message, sent));
                        }
                        ReadEvent::Message(routed)
                    },
                    progress => ReadEvent::Stream(progress),
                }
            },
        }
    }

    /// Acts on what the codec gave: a framing unit is taken in and the task
    /// goes on; a unit that could not be decoded, and the end of the input,
    /// end the task and leave the reader as it was.
    pub fn read(&mut self, input: ReadInput) -> (step: ReaderStep)
        ensures
            final(self).apps() == old(self).apps(),
            final(self).remote() == old(self).remote(),
            match input {
                ReadInput::Unit(frame) => {
                    &&& final(self)@ == old(self)@.after(frame@)
                    &&& step matches ReaderStep::Continue(event)
                    &&& match old(self)@.delivers(frame@) {
                        Some(message) => event matches ReadEvent::Message(routed) && exists|
                            sent: SendOutcome,
                        |
                            routed@ == #[trigger] dispatch(old(self).protocols(), message, sent),
                        None => event matches ReadEvent::Stream(progress) && Some(progress@)
                            == old(self)@.handle_stream(frame@).1,
                    }
                },
                ReadInput::DecodeError => {
                    &&& final(self)@ == old(self)@
                    &&& step == ReaderStep::Stop(ReaderStop::DecodeError)
                },
                ReadInput::End => {
                    &&& final(self)@ == old(self)@
                    &&& step == ReaderStep::Stop(ReaderStop::EndOfInput)
                },
            },
    {
        match input {
            ReadInput::Unit(frame) => ReaderStep::Continue(self.handle(frame)),
            ReadInput::DecodeError => ReaderStep::Stop(ReaderStop::DecodeError),
            ReadInput::End => ReaderStep::Stop(ReaderStop::EndOfInput),
        }
    }
}

/// Whether a message is an error signal.
fn is_signal(message: &NetworkMessage) -> (b: bool)
    ensures
        b == (message@ is Error),
{
    match message {
        NetworkMessage::Error(_) => true,
        _ => false,
    }
}

} // verus!
