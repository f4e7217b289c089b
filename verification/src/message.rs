//! The messages that travel over one peer connection, and the framing units
//! that carry them on the wire.
//!
//! Every executable type has a view in which byte vectors are sequences;
//! contracts throughout the crate are stated over those views.

use vstd::prelude::*;

verus! {

/// Identifies the application protocol that a message belongs to.
#[derive(Clone, Copy, Debug, PartialEq, Eq, Structural, Hash)]
pub struct ProtocolId(pub u8);

/// Correlates an RPC response with its request.
pub type RequestId = u32;

/// Application-assigned priority carried inside a message.
pub type Priority = u8;

/// What the sender could not parse.
#[derive(Clone, Copy, Debug, PartialEq, Eq, Structural)]
pub struct ParsingErrorType {
    pub message: u8,
    pub protocol: u8,
}

/// What the sender does not support.
#[derive(Clone, Copy, Debug, PartialEq, Eq, Structural)]
pub enum NotSupportedType {
    RpcRequest(ProtocolId),
    DirectSendMsg(ProtocolId),
}

/// Error and control signals.
#[derive(Clone, Copy, Debug, PartialEq, Eq, Structural)]
pub enum ErrorCode {
    ParsingError(ParsingErrorType),
    NotSupported(NotSupportedType),
    /// Asks the writer of a connection to stop.
    DisconnectCommand,
}

#[derive(Clone, Debug, PartialEq, Eq)]
pub struct RpcRequest {
    pub protocol_id: ProtocolId,
    pub request_id: RequestId,
    pub priority: Priority,
    pub raw_request: Vec<u8>,
}

#[derive(Clone, Debug, PartialEq, Eq)]
pub struct RpcResponse {
    pub request_id: RequestId,
    pub priority: Priority,
    pub raw_response: Vec<u8>,
}

#[derive(Clone, Debug, PartialEq, Eq)]
pub struct DirectSendMsg {
    pub protocol_id: ProtocolId,
    pub priority: Priority,
    pub raw_msg: Vec<u8>,
}

/// One application message.
#[derive(Clone, Debug, PartialEq, Eq)]
pub enum NetworkMessage {
    Error(ErrorCode),
    RpcRequest(RpcRequest),
    RpcResponse(RpcResponse),
    DirectSendMsg(DirectSendMsg),
}

/// First framing unit of a stream: the message with the first slice of its
/// payload, and the number of framing units the whole stream has.
#[derive(Clone, Debug, PartialEq, Eq)]
pub struct StreamHeader {
    pub request_id: u32,
    pub num_fragments: u8,
    pub message: NetworkMessage,
}

/// A later framing unit of a stream: one slice and its sequence number.
#[derive(Clone, Debug, PartialEq, Eq)]
pub struct StreamFragment {
    pub request_id: u32,
    pub fragment_id: u8,
    pub raw_data: Vec<u8>,
}

#[derive(Clone, Debug, PartialEq, Eq)]
pub enum StreamMessage {
    Header(StreamHeader),
    Fragment(StreamFragment),
}

/// One framing unit: a whole message, or one piece of a stream.
#[derive(Clone, Debug, PartialEq, Eq)]
pub enum MultiplexMessage {
    Message(NetworkMessage),
    Stream(StreamMessage),
}

/// A message as a mathematical value.
pub enum MessageView {
    Error(ErrorCode),
    RpcRequest { protocol_id: ProtocolId, request_id: RequestId, priority: Priority, data: Seq<u8> },
    RpcResponse { request_id: RequestId, priority: Priority, data: Seq<u8> },
    DirectSendMsg { protocol_id: ProtocolId, priority: Priority, data: Seq<u8> },
}

/// A framing unit as a mathematical value.
pub enum FrameView {
    Message(MessageView),
    Header { request_id: u32, num_fragments: u8, message: MessageView },
    Fragment { request_id: u32, fragment_id: u8, data: Seq<u8> },
}

impl MessageView {
    /// The payload bytes; an error signal carries none.
    pub open spec fn payload(self) -> Seq<u8> {
        match self {
            MessageView::Error(_) => Seq::empty(),
            MessageView::RpcRequest { data, .. } => data,
            MessageView::RpcResponse { data, .. } => data,
            MessageView::DirectSendMsg { data, .. } => data,
        }
    }

    /// The same message with another payload; an error signal is unchanged.
    pub open spec fn with_payload(self, data: Seq<u8>) -> MessageView {
        match self {
            MessageView::Error(code) => MessageView::Error(code),
            MessageView::RpcRequest { protocol_id, request_id, priority, .. } => {
                MessageView::RpcRequest { protocol_id, request_id, priority, data }
            },
            MessageView::RpcResponse { request_id, priority, .. } => {
                MessageView::RpcResponse { request_id, priority, data }
            },
            MessageView::DirectSendMsg { protocol_id, priority, .. } => {
                MessageView::DirectSendMsg { protocol_id, priority, data }
            },
        }
    }

    pub open spec fn data_len(self) -> nat {
        self.payload().len()
    }

    pub open spec fn is_disconnect(self) -> bool {
        self == MessageView::Error(ErrorCode::DisconnectCommand)
    }

    /// The protocol that the message is routed by, where it names one.
    pub open spec fn protocol_id(self) -> Option<ProtocolId> {
        match self {
            MessageView::RpcRequest { protocol_id, .. } => Some(protocol_id),
            MessageView::DirectSendMsg { protocol_id, .. } => Some(protocol_id),
            _ => None,
        }
    }
}

impl FrameView {
    /// Payload bytes that the framing unit carries.
    pub open spec fn data_len(self) -> nat {
        match self {
            FrameView::Message(m) => m.data_len(),
            FrameView::Header { message, .. } => message.data_len(),
            FrameView::Fragment { data, .. } => data.len(),
        }
    }
}

impl View for RpcRequest {
    type V = MessageView;

    open spec fn view(&self) -> MessageView {
        MessageView::RpcRequest {
            protocol_id: self.protocol_id,
            request_id: self.request_id,
            priority: self.priority,
            data: self.raw_request@,
        }
    }
}

impl View for RpcResponse {
    type V = MessageView;

    open spec fn view(&self) -> MessageView {
        MessageView::RpcResponse {
            request_id: self.request_id,
            priority: self.priority,
            data: self.raw_response@,
        }
    }
}

impl View for DirectSendMsg {
    type V = MessageView;

    open spec fn view(&self) -> MessageView {
        MessageView::DirectSendMsg {
            protocol_id: self.protocol_id,
            priority: self.priority,
            data: self.raw_msg@,
        }
    }
}

impl View for NetworkMessage {
    type V = MessageView;

    open spec fn view(&self) -> MessageView {
        match self {
            NetworkMessage::Error(code) => MessageView::Error(*code),
            NetworkMessage::RpcRequest(request) => request@,
            NetworkMessage::RpcResponse(response) => response@,
            NetworkMessage::DirectSendMsg(message) => message@,
        }
    }
}

impl View for StreamHeader {
    type V = FrameView;

    open spec fn view(&self) -> FrameView {
        FrameView::Header {
            request_id: self.request_id,
            num_fragments: self.num_fragments,
            message: self.message@,
        }
    }
}

impl View for StreamFragment {
    type V = FrameView;

    open spec fn view(&self) -> FrameView {
        FrameView::Fragment {
            request_id: self.request_id,
            fragment_id: self.fragment_id,
            data: self.raw_data@,
        }
    }
}

impl View for StreamMessage {
    type V = FrameView;

    open spec fn view(&self) -> FrameView {
        match self {
            StreamMessage::Header(header) => header@,
            StreamMessage::Fragment(fragment) => fragment@,
        }
    }
}

impl View for MultiplexMessage {
    type V = FrameView;

    open spec fn view(&self) -> FrameView {
        match self {
            MultiplexMessage::Message(message) => FrameView::Message(message@),
            MultiplexMessage::Stream(stream) => stream@,
        }
    }
}

impl NetworkMessage {
    /// Number of payload bytes; an error signal has none.
    pub fn data_len(&self) -> (len: usize)
        ensures
            len == self@.data_len(),
    {
        match self {
            NetworkMessage::Error(_) => 0,
            NetworkMessage::RpcRequest(request) => request.raw_request.len(),
            NetworkMessage::RpcResponse(response) => response.raw_response.len(),
            NetworkMessage::DirectSendMsg(message) => message.raw_msg.len(),
        }
    }

    /// Whether this is the signal that asks the writer to stop.
    pub fn is_disconnect(&self) -> (b: bool)
        ensures
            b == self@.is_disconnect(),
    {
        match self {
            NetworkMessage::Error(ErrorCode::DisconnectCommand) => true,
            _ => false,
        }
    }

    /// The protocol that the message is routed by, where it names one.
    pub fn protocol_id(&self) -> (id: Option<ProtocolId>)
        ensures
            id == self@.protocol_id(),
    {
        match self {
            NetworkMessage::RpcRequest(request) => Some(request.protocol_id),
            NetworkMessage::DirectSendMsg(message) => Some(message.protocol_id),
            _ => None,
        }
    }
}

impl MultiplexMessage {
    /// Number of payload bytes that the framing unit carries.
    pub fn data_len(&self) -> (len: usize)
        ensures
            len == self@.data_len(),
    {
        match self {
            MultiplexMessage::Message(message) => message.data_len(),
            MultiplexMessage::Stream(StreamMessage::Header(header)) => header.message.data_len(),
            MultiplexMessage::Stream(StreamMessage::Fragment(fragment)) => fragment.raw_data.len(),
        }
    }
}

} // verus!
