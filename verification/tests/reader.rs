use peer_engine::application::{
    ApplicationCollector, ApplicationConnections, NetworkId, PeerId, PeerNetworkId,
    ReceivedMessage,
};
use peer_engine::message::{
    DirectSendMsg, ErrorCode, MultiplexMessage, NetworkMessage, ParsingErrorType, ProtocolId,
    RpcRequest, RpcResponse, StreamFragment, StreamHeader, StreamMessage,
};
use peer_engine::reader::{
    route_rpc_response, Dispatch, DropReason, ForwardOutcome, ReadEvent, ReadInput, ReaderContext,
    ReaderStep, ReaderStop, RpcRoute, StreamEvent,
};
use std::sync::Arc;
use tokio::sync::mpsc::{channel, Receiver};

fn remote() -> PeerNetworkId {
    PeerNetworkId { network_id: NetworkId::Validator, peer_id: PeerId([9; 32]) }
}

fn direct(protocol: u8, data: &[u8]) -> NetworkMessage {
    NetworkMessage::DirectSendMsg(DirectSendMsg {
        protocol_id: ProtocolId(protocol),
        priority: 0,
        raw_msg: data.to_vec(),
    })
}

fn request(protocol: u8, data: &[u8]) -> NetworkMessage {
    NetworkMessage::RpcRequest(RpcRequest {
        protocol_id: ProtocolId(protocol),
        request_id: 5,
        priority: 0,
        raw_request: data.to_vec(),
    })
}

fn head(stream: u32, count: u8, message: NetworkMessage) -> StreamMessage {
    StreamMessage::Header(StreamHeader { request_id: stream, num_fragments: count, message })
}

fn more(stream: u32, id: u8, data: &[u8]) -> StreamMessage {
    StreamMessage::Fragment(StreamFragment {
        request_id: stream,
        fragment_id: id,
        raw_data: data.to_vec(),
    })
}

fn reader_with(protocol: u8, capacity: usize) -> (ReaderContext, Receiver<ReceivedMessage>) {
    let (sender, inbound) = channel(capacity);
    let mut apps = ApplicationCollector::new();
    apps.add(ApplicationConnections {
        protocol_id: ProtocolId(protocol),
        sender,
        label: String::from("app"),
    });
    (ReaderContext::new(Arc::new(apps), remote()), inbound)
}

fn bare_reader() -> ReaderContext {
    ReaderContext::new(Arc::new(ApplicationCollector::new()), remote())
}

#[test]
fn stream_is_reassembled() {
    let mut reader = bare_reader();
    assert!(reader.is_idle());
    assert_eq!(
        reader.handle_stream(head(4, 3, direct(1, b"ab"))),
        StreamEvent::Started { superseded: false }
    );
    assert!(!reader.is_idle());
    assert_eq!(reader.current_stream_id(), 4);
    assert_eq!(reader.handle_stream(more(4, 1, b"cd")), StreamEvent::Appended);
    assert_eq!(
        reader.handle_stream(more(4, 2, b"e")),
        StreamEvent::Completed(direct(1, b"abcde"))
    );
    assert!(reader.is_idle());
}

#[test]
fn request_and_response_payloads_are_extended() {
    let mut reader = bare_reader();
    reader.handle_stream(head(1, 2, request(2, b"12")));
    assert_eq!(
        reader.handle_stream(more(1, 1, b"34")),
        StreamEvent::Completed(request(2, b"1234"))
    );
    let response = |data: &[u8]| {
        NetworkMessage::RpcResponse(RpcResponse {
            request_id: 8,
            priority: 2,
            raw_response: data.to_vec(),
        })
    };
    reader.handle_stream(head(2, 2, response(b"x")));
    assert_eq!(reader.handle_stream(more(2, 1, b"yz")), StreamEvent::Completed(response(b"xyz")));
}

#[test]
fn fragment_of_another_stream_is_dropped_and_the_next_stream_is_whole() {
    let mut reader = bare_reader();
    reader.handle_stream(head(4, 3, direct(1, b"ab")));
    assert_eq!(
        reader.handle_stream(more(5, 1, b"zz")),
        StreamEvent::Dropped(DropReason::WrongStream)
    );
    assert!(reader.is_idle());
    assert_eq!(
        reader.handle_stream(more(5, 1, b"zz")),
        StreamEvent::Dropped(DropReason::NoStream)
    );
    assert!(reader.is_idle());
    assert_eq!(
        reader.handle_stream(head(6, 2, direct(1, b"ab"))),
        StreamEvent::Started { superseded: false }
    );
    assert_eq!(
        reader.handle_stream(more(6, 1, b"cd")),
        StreamEvent::Completed(direct(1, b"abcd"))
    );
}

#[test]
fn fragment_out_of_sequence_is_dropped_with_the_partial_message() {
    let mut reader = bare_reader();
    reader.handle_stream(head(4, 3, direct(1, b"ab")));
    assert_eq!(
        reader.handle_stream(more(4, 2, b"cd")),
        StreamEvent::Dropped(DropReason::WrongSequence)
    );
    assert!(reader.is_idle());
    assert_eq!(
        reader.handle_stream(more(4, 1, b"cd")),
        StreamEvent::Dropped(DropReason::NoStream)
    );
}

#[test]
fn fragment_without_header_is_dropped() {
    let mut reader = bare_reader();
    assert_eq!(
        reader.handle_stream(more(0, 0, b"cd")),
        StreamEvent::Dropped(DropReason::NoStream)
    );
    assert!(reader.is_idle());
}

#[test]
fn header_supersedes_an_incomplete_stream() {
    let mut reader = bare_reader();
    reader.handle_stream(head(4, 3, direct(1, b"ab")));
    assert_eq!(
        reader.handle_stream(head(5, 2, direct(1, b"uv"))),
        StreamEvent::Started { superseded: true }
    );
    assert_eq!(
        reader.handle_stream(more(5, 1, b"w")),
        StreamEvent::Completed(direct(1, b"uvw"))
    );
}

#[test]
fn error_signal_cannot_be_extended() {
    let mut reader = bare_reader();
    reader.handle_stream(head(4, 2, NetworkMessage::Error(ErrorCode::DisconnectCommand)));
    assert_eq!(
        reader.handle_stream(more(4, 1, b"cd")),
        StreamEvent::Dropped(DropReason::NoPayload)
    );
    assert!(reader.is_idle());
}

#[test]
fn stream_that_outgrows_its_count_is_dropped() {
    let mut reader = bare_reader();
    reader.handle_stream(head(4, 0, direct(1, b"")));
    for id in 1..=254u8 {
        assert_eq!(reader.handle_stream(more(4, id, b"x")), StreamEvent::Appended);
    }
    assert_eq!(
        reader.handle_stream(more(4, 255, b"x")),
        StreamEvent::Dropped(DropReason::CountExceeded)
    );
    assert!(reader.is_idle());
}

#[test]
fn direct_send_is_forwarded_to_its_application() {
    let (mut reader, mut inbound) = reader_with(7, 4);
    let event = reader.handle(MultiplexMessage::Message(direct(7, b"hello")));
    assert_eq!(
        event,
        ReadEvent::Message(Dispatch::Forwarded {
            protocol_id: ProtocolId(7),
            data_len: 5,
            outcome: ForwardOutcome::Delivered,
        })
    );
    assert_eq!(
        inbound.try_recv().unwrap(),
        ReceivedMessage { message: direct(7, b"hello"), sender: remote() }
    );
}

#[test]
fn request_is_forwarded_to_its_application() {
    let (reader, mut inbound) = reader_with(7, 4);
    assert_eq!(
        reader.handle_message(request(7, b"abc")),
        Dispatch::Forwarded {
            protocol_id: ProtocolId(7),
            data_len: 3,
            outcome: ForwardOutcome::Delivered,
        }
    );
    assert_eq!(inbound.try_recv().unwrap().message, request(7, b"abc"));
}

#[test]
fn full_queue_drops_the_message() {
    let (reader, mut inbound) = reader_with(7, 1);
    assert_eq!(reader.forward(ProtocolId(7), direct(7, b"a")), ForwardOutcome::Delivered);
    assert_eq!(reader.forward(ProtocolId(7), direct(7, b"b")), ForwardOutcome::Dropped);
    assert_eq!(inbound.try_recv().unwrap().message, direct(7, b"a"));
    assert!(inbound.try_recv().is_err());
}

#[test]
fn closed_queue_drops_the_message() {
    let (reader, inbound) = reader_with(7, 1);
    drop(inbound);
    assert_eq!(reader.forward(ProtocolId(7), direct(7, b"a")), ForwardOutcome::Dropped);
}

#[test]
fn unknown_protocol_has_no_handler() {
    let (reader, mut inbound) = reader_with(7, 1);
    assert_eq!(
        reader.handle_message(direct(8, b"abc")),
        Dispatch::Forwarded {
            protocol_id: ProtocolId(8),
            data_len: 3,
            outcome: ForwardOutcome::NoHandler,
        }
    );
    assert!(inbound.try_recv().is_err());
}

#[test]
fn error_signal_is_reported_only() {
    let (reader, mut inbound) = reader_with(7, 1);
    let code = ErrorCode::ParsingError(ParsingErrorType { message: 1, protocol: 7 });
    assert_eq!(reader.handle_message(NetworkMessage::Error(code)), Dispatch::Signal(code));
    assert!(inbound.try_recv().is_err());
}

#[test]
fn response_is_handed_back_for_matching() {
    let (reader, mut inbound) = reader_with(7, 1);
    let response = RpcResponse { request_id: 8, priority: 2, raw_response: vec![1, 2] };
    assert_eq!(
        reader.handle_message(NetworkMessage::RpcResponse(response.clone())),
        Dispatch::Response(response)
    );
    assert!(inbound.try_recv().is_err());
}

#[test]
fn unmatched_response_is_counted_as_missed() {
    let response = RpcResponse { request_id: 8, priority: 2, raw_response: vec![1, 2, 3] };
    assert_eq!(
        route_rpc_response::<u64>(None, response.clone()),
        RpcRoute::Missed { data_len: 3 }
    );
    assert_eq!(
        route_rpc_response(Some(77u64), response),
        RpcRoute::Complete { state: 77, payload: vec![1, 2, 3] }
    );
}

#[test]
fn completed_stream_is_routed() {
    let (mut reader, mut inbound) = reader_with(7, 4);
    assert_eq!(
        reader.handle(MultiplexMessage::Stream(head(1, 2, direct(7, b"ab")))),
        ReadEvent::Stream(StreamEvent::Started { superseded: false })
    );
    assert_eq!(
        reader.handle(MultiplexMessage::Message(direct(7, b"between"))),
        ReadEvent::Message(Dispatch::Forwarded {
            protocol_id: ProtocolId(7),
            data_len: 7,
            outcome: ForwardOutcome::Delivered,
        })
    );
    assert_eq!(
        reader.handle(MultiplexMessage::Stream(more(1, 1, b"cd"))),
        ReadEvent::Message(Dispatch::Forwarded {
            protocol_id: ProtocolId(7),
            data_len: 4,
            outcome: ForwardOutcome::Delivered,
        })
    );
    assert_eq!(inbound.try_recv().unwrap().message, direct(7, b"between"));
    assert_eq!(inbound.try_recv().unwrap().message, direct(7, b"abcd"));
}

#[test]
fn collector_keeps_one_application_for_each_protocol() {
    let (first, mut first_inbound) = channel::<ReceivedMessage>(1);
    let (second, mut second_inbound) = channel::<ReceivedMessage>(1);
    let mut apps = ApplicationCollector::new();
    assert!(apps.get(ProtocolId(1)).is_none());
    apps.add(ApplicationConnections {
        protocol_id: ProtocolId(1),
        sender: first,
        label: String::from("first"),
    });
    apps.add(ApplicationConnections {
        protocol_id: ProtocolId(1),
        sender: second,
        label: String::from("second"),
    });
    assert_eq!(apps.get(ProtocolId(1)).unwrap().label, "second");
    assert!(apps.get(ProtocolId(2)).is_none());
    let reader = ReaderContext::new(Arc::new(apps), remote());
    assert_eq!(reader.forward(ProtocolId(1), direct(1, b"a")), ForwardOutcome::Delivered);
    assert!(first_inbound.try_recv().is_err());
    assert_eq!(second_inbound.try_recv().unwrap().message, direct(1, b"a"));
}

#[test]
fn offer_is_the_message_with_the_remote_peer_as_sender() {
    let reader = bare_reader();
    assert_eq!(
        reader.received(request(3, b"abc")),
        ReceivedMessage { message: request(3, b"abc"), sender: remote() }
    );
}

#[test]
fn decode_error_and_end_of_input_stop_the_reader() {
    let (mut reader, mut inbound) = reader_with(7, 4);
    assert_eq!(
        reader.read(ReadInput::Unit(MultiplexMessage::Stream(head(2, 3, direct(7, b"ab"))))),
        ReaderStep::Continue(ReadEvent::Stream(StreamEvent::Started { superseded: false }))
    );
    assert_eq!(reader.read(ReadInput::DecodeError), ReaderStep::Stop(ReaderStop::DecodeError));
    assert!(!reader.is_idle());
    assert_eq!(reader.read(ReadInput::End), ReaderStep::Stop(ReaderStop::EndOfInput));
    assert_eq!(
        reader.read(ReadInput::Unit(MultiplexMessage::Message(direct(7, b"x")))),
        ReaderStep::Continue(ReadEvent::Message(Dispatch::Forwarded {
            protocol_id: ProtocolId(7),
            data_len: 1,
            outcome: ForwardOutcome::Delivered,
        }))
    );
    assert_eq!(inbound.try_recv().unwrap().message, direct(7, b"x"));
}

#[test]
fn messages_reach_the_queue_in_the_order_read() {
    let (mut reader, mut inbound) = reader_with(7, 16);
    let messages: Vec<NetworkMessage> = (0..8u8)
        .map(|i| if i % 2 == 0 { direct(7, &[i; 3]) } else { request(7, &[i; 5]) })
        .collect();
    for message in messages.iter().cloned() {
        assert!(matches!(
            reader.read(ReadInput::Unit(MultiplexMessage::Message(message))),
            ReaderStep::Continue(ReadEvent::Message(Dispatch::Forwarded {
                outcome: ForwardOutcome::Delivered,
                ..
            }))
        ));
    }
    assert_eq!(reader.read(ReadInput::End), ReaderStep::Stop(ReaderStop::EndOfInput));
    for message in messages {
        assert_eq!(inbound.try_recv().unwrap(), ReceivedMessage { message, sender: remote() });
    }
    assert!(inbound.try_recv().is_err());
}
