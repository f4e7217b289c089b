use peer_engine::application::{ApplicationCollector, NetworkId, PeerId, PeerNetworkId};
use peer_engine::message::{
    DirectSendMsg, MultiplexMessage, NetworkMessage, ProtocolId, RpcResponse, StreamMessage,
};
use peer_engine::reader::{ReaderContext, StreamEvent};
use peer_engine::writer::{FragmentError, WriterContext, WriterStep};
use std::sync::Arc;
use tokio::sync::mpsc::{channel, Sender};

const MAX: usize = 16;

fn direct(len: usize, seed: usize) -> NetworkMessage {
    NetworkMessage::DirectSendMsg(DirectSendMsg {
        protocol_id: ProtocolId(1),
        priority: 0,
        raw_msg: (0..len).map(|i| ((i * 7 + seed) % 256) as u8).collect(),
    })
}

fn engines() -> (Sender<NetworkMessage>, Sender<NetworkMessage>, WriterContext, ReaderContext) {
    let (normal, to_send) = channel(1024);
    let (high, to_send_high_prio) = channel(1024);
    let writer = WriterContext::new(to_send, to_send_high_prio, MAX);
    let remote = PeerNetworkId { network_id: NetworkId::Public, peer_id: PeerId([1; 32]) };
    let reader = ReaderContext::new(Arc::new(ApplicationCollector::new()), remote);
    (normal, high, writer, reader)
}

/// Runs the writer until it waits, and gives what it sends to the reader.
/// Returns the framing units sent and the messages that the reader got.
fn run(
    writer: &mut WriterContext,
    reader: &mut ReaderContext,
) -> (Vec<MultiplexMessage>, Vec<NetworkMessage>, Vec<FragmentError>) {
    let mut wire = Vec::new();
    let mut delivered = Vec::new();
    let mut rejected = Vec::new();
    loop {
        match writer.step() {
            WriterStep::Send(frame) => {
                wire.push(frame.clone());
                match frame {
                    MultiplexMessage::Message(message) => delivered.push(message),
                    MultiplexMessage::Stream(unit) => match reader.handle_stream(unit) {
                        StreamEvent::Completed(message) => delivered.push(message),
                        StreamEvent::Started { superseded } => assert!(!superseded),
                        StreamEvent::Appended => {}
                        StreamEvent::Dropped(reason) => panic!("dropped: {:?}", reason),
                    },
                }
            }
            WriterStep::Reject(error) => rejected.push(error),
            WriterStep::Wait | WriterStep::Stop(_) => return (wire, delivered, rejected),
        }
    }
}

#[test]
fn round_trip_at_the_edges_of_the_frame_size() {
    for len in [0, 1, MAX - 1, MAX, MAX + 1, 2 * MAX, 254 * MAX, 255 * MAX - 1, 255 * MAX] {
        let (normal, _high, mut writer, mut reader) = engines();
        normal.try_send(direct(len, len)).unwrap();
        let (wire, delivered, rejected) = run(&mut writer, &mut reader);
        let expected = if len <= MAX { 1 } else { (len + MAX - 1) / MAX };
        assert_eq!(wire.len(), expected, "framing units for {} bytes", len);
        assert_eq!(delivered, vec![direct(len, len)], "payload of {} bytes", len);
        assert!(rejected.is_empty());
        assert!(writer.is_idle());
        assert!(reader.is_idle());
    }
}

#[test]
fn one_byte_too_many_fails_fast() {
    let (normal, _high, mut writer, mut reader) = engines();
    normal.try_send(direct(255 * MAX + 1, 0)).unwrap();
    normal.try_send(direct(3, 1)).unwrap();
    let (wire, delivered, rejected) = run(&mut writer, &mut reader);
    assert_eq!(
        rejected,
        vec![FragmentError::TooManyFragments { data_len: 255 * MAX + 1, max_frame_size: MAX }]
    );
    assert_eq!(wire, vec![MultiplexMessage::Message(direct(3, 1))]);
    assert_eq!(delivered, vec![direct(3, 1)]);
}

#[test]
fn small_messages_arrive_in_the_order_of_each_queue() {
    let (normal, high, mut writer, mut reader) = engines();
    let mut expected_normal = Vec::new();
    let mut expected_high = Vec::new();
    let mut delivered = Vec::new();
    for round in 0..10usize {
        for k in 0..3usize {
            let message = direct(1 + (round + k) % MAX, 100 + round * 3 + k);
            expected_normal.push(message.clone());
            normal.try_send(message).unwrap();
        }
        let message = direct(MAX, round);
        expected_high.push(message.clone());
        high.try_send(message).unwrap();
        if round % 2 == 1 {
            delivered.extend(run(&mut writer, &mut reader).1);
        }
    }
    delivered.extend(run(&mut writer, &mut reader).1);
    let got_high: Vec<NetworkMessage> =
        delivered.iter().filter(|m| expected_high.contains(m)).cloned().collect();
    let got_normal: Vec<NetworkMessage> =
        delivered.iter().filter(|m| expected_normal.contains(m)).cloned().collect();
    assert_eq!(got_high, expected_high);
    assert_eq!(got_normal, expected_normal);
    assert_eq!(delivered.len(), expected_high.len() + expected_normal.len());
}

#[test]
fn large_message_then_high_priority_message() {
    let (normal, high, mut writer, mut reader) = engines();
    let large = direct(3 * MAX, 5);
    let small = direct(4, 6);
    normal.try_send(large.clone()).unwrap();
    let first = match writer.step() {
        WriterStep::Send(frame) => frame,
        other => panic!("unexpected {:?}", other),
    };
    match first.clone() {
        MultiplexMessage::Stream(unit) => {
            assert_eq!(reader.handle_stream(unit), StreamEvent::Started { superseded: false })
        }
        other => panic!("unexpected {:?}", other),
    }
    high.try_send(small.clone()).unwrap();
    let (rest, delivered, _) = run(&mut writer, &mut reader);
    let kinds: Vec<(u8, u8)> = std::iter::once(&first)
        .chain(rest.iter())
        .map(|frame| match frame {
            MultiplexMessage::Stream(StreamMessage::Header(head)) => (0, head.num_fragments),
            MultiplexMessage::Stream(StreamMessage::Fragment(more)) => (1, more.fragment_id),
            MultiplexMessage::Message(_) => (2, 0),
        })
        .collect();
    assert_eq!(kinds, vec![(0, 3), (1, 1), (1, 2), (2, 0)]);
    assert_eq!(rest[2], MultiplexMessage::Message(small.clone()));
    assert_eq!(delivered, vec![large, small]);
}

#[test]
fn streams_of_both_queues_never_interleave() {
    let (normal, high, mut writer, mut reader) = engines();
    let response = NetworkMessage::RpcResponse(RpcResponse {
        request_id: 3,
        priority: 1,
        raw_response: vec![7; 5 * MAX + 1],
    });
    normal.try_send(direct(4 * MAX, 1)).unwrap();
    normal.try_send(direct(2 * MAX + 1, 2)).unwrap();
    high.try_send(response.clone()).unwrap();
    high.try_send(direct(3 * MAX, 3)).unwrap();
    let (wire, delivered, _) = run(&mut writer, &mut reader);
    let streams: Vec<u32> = wire
        .iter()
        .map(|frame| match frame {
            MultiplexMessage::Stream(StreamMessage::Header(head)) => head.request_id,
            MultiplexMessage::Stream(StreamMessage::Fragment(more)) => more.request_id,
            MultiplexMessage::Message(_) => 0,
        })
        .collect();
    assert_eq!(streams, vec![1, 1, 1, 1, 1, 1, 2, 2, 2, 3, 3, 3, 3, 4, 4, 4]);
    assert_eq!(
        delivered,
        vec![response, direct(3 * MAX, 3), direct(4 * MAX, 1), direct(2 * MAX + 1, 2)]
    );
}
