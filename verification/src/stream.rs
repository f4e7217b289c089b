//! What the writer of one connection sends, read by the reader at the other
//! end: the laws that tie the two engines together.

use crate::channel::PollView;
use crate::fragment::{
    fragments_needed, lemma_fragments_needed_bounds, lemma_fragments_needed_step,
};
use crate::message::{FrameView, MessageView};
use crate::reader::{DefragView, StreamEventView};
use crate::writer::{StepView, StopReason, WriterView};
use vstd::prelude::*;

verus! {

/// The fragments that the writer sends while it drains the stream in flight
/// to its end.
pub open spec fn drain(writer: WriterView) -> Seq<FrameView>
    decreases
            (match writer.remaining {
                Some(rest) => rest.len() + 1,
                None => 0,
            }),
{
    if writer.max_frame_size > 0 && writer.remaining is Some {
        let (next, fragment) = writer.next_large();
        seq![fragment] + drain(next)
    } else {
        Seq::empty()
    }
}

/// The framing units of one oversized message: the header, then the
/// fragments.
pub open spec fn stream_of(writer: WriterView, message: MessageView) -> Seq<FrameView> {
    let (next, header) = writer.start_large(message);
    seq![header] + drain(next)
}

/// The reader's state after a sequence of framing units, and the messages
/// that it delivered on the way, in order.
pub open spec fn feed(reader: DefragView, frames: Seq<FrameView>) -> (DefragView, Seq<MessageView>)
    decreases frames.len(),
{
    if frames.len() == 0 {
        (reader, Seq::empty())
    } else {
        let (end, later) = feed(reader.after(frames[0]), frames.drop_first());
        match reader.delivers(frames[0]) {
            Some(message) => (end, seq![message] + later),
            None => (end, later),
        }
    }
}

/// Every framing unit of the sequence continues what the reader has: no
/// header replaces a stream that is not complete, and no fragment is
/// dropped.
pub open spec fn reads_cleanly(reader: DefragView, frames: Seq<FrameView>) -> bool
    decreases frames.len(),
{
    if frames.len() == 0 {
        true
    } else {
        &&& match reader.handle_stream(frames[0]).1 {
            Some(StreamEventView::Dropped(_)) => false,
            Some(StreamEventView::Started { superseded }) => !superseded,
            _ => true,
        }
        &&& reads_cleanly(reader.after(frames[0]), frames.drop_first())
    }
}

/// The writer is in the middle of the stream of `message` and the reader has
/// assembled exactly what was sent of it.
pub open spec fn in_step(writer: WriterView, reader: DefragView, message: MessageView) -> bool {
    &&& writer.wf()
    &&& writer.remaining is Some
    &&& !(message is Error)
    &&& writer.remaining->0.len() <= message.payload().len()
    &&& message.payload().subrange(
        message.payload().len() - writer.remaining->0.len(),
        message.payload().len() as int,
    ) == writer.remaining->0
    &&& reader.partial == Some(
        message.with_payload(
            message.payload().subrange(0, message.payload().len() - writer.remaining->0.len()),
        ),
    )
    &&& reader.stream_id == writer.stream_id
    &&& reader.fragment_index == writer.fragment_id + 1
    &&& reader.num_fragments == writer.num_fragments
}

/// While writer and reader are in step, the next fragment either completes
/// the message at the reader, or leaves the two in step.
pub proof fn lemma_fragment_keeps_step(writer: WriterView, reader: DefragView, message: MessageView)
    requires
        in_step(writer, reader, message),
    ensures
        ({
            let (next, fragment) = writer.next_large();
            let (after, event) = reader.handle_stream(fragment);
            &&& next.wf()
            &&& if next.streaming() {
                &&& event == Some(StreamEventView::Appended)
                &&& in_step(next, after, message)
            } else {
                &&& event == Some(StreamEventView::Completed(message))
                &&& after == reader.reset()
            }
        }),
{
    let max = writer.max_frame_size;
    let rest = writer.remaining->0;
    let payload = message.payload();
    let done = payload.len() - rest.len();
    let (next, fragment) = writer.next_large();
    let (after, event) = reader.handle_stream(fragment);
    lemma_fragments_needed_bounds(rest.len(), max);
    let partial = reader.partial->0;
    assert(partial.payload() == payload.subrange(0, done));
    if rest.len() > max {
        lemma_fragments_needed_step(rest.len(), max);
        lemma_fragments_needed_bounds((rest.len() - max) as nat, max);
        let piece = rest.subrange(0, max as int);
        let left = rest.subrange(max as int, rest.len() as int);
        assert(payload.subrange(0, done) + piece =~= payload.subrange(0, done + max));
        assert(payload.subrange(done + max, payload.len() as int) =~= left);
        assert(partial.with_payload(partial.payload() + piece) == message.with_payload(
            payload.subrange(0, done + max),
        ));
    } else {
        assert(payload.subrange(0, done) + rest =~= payload);
        assert(message.with_payload(payload) == message);
        assert(partial.with_payload(partial.payload() + rest) == message);
    }
}

/// Draining a stream with the reader in step delivers the message with the
/// last fragment and nothing before, leaves the reader idle, and takes as
/// many fragments as the remaining bytes need.
pub proof fn lemma_drain_completes(writer: WriterView, reader: DefragView, message: MessageView)
    requires
        in_step(writer, reader, message),
    ensures
        drain(writer).len() == fragments_needed(
            writer.remaining->0.len(),
            writer.max_frame_size,
        ),
        feed(reader, drain(writer)) == (reader.reset(), seq![message]),
        reads_cleanly(reader, drain(writer)),
    decreases writer.remaining->0.len(),
{
    let max = writer.max_frame_size;
    let rest = writer.remaining->0;
    let (next, fragment) = writer.next_large();
    let frames = drain(writer);
    lemma_fragment_keeps_step(writer, reader, message);
    lemma_fragments_needed_bounds(rest.len(), max);
    assert(frames == seq![fragment] + drain(next));
    assert(frames[0] == fragment);
    assert(frames.drop_first() =~= drain(next));
    let after = reader.after(fragment);
    if next.streaming() {
        lemma_fragments_needed_step(rest.len(), max);
        lemma_drain_completes(next, after, message);
        assert(after.reset() == reader.reset());
        assert(reader.delivers(fragment) is None);
        assert(reader.handle_stream(fragment).1 == Some(StreamEventView::Appended));
    } else {
        assert(drain(next) =~= Seq::<FrameView>::empty());
        assert(reader.delivers(fragment) == Some(message));
        assert(feed(after, drain(next)) == (after, Seq::<MessageView>::empty()));
        assert(seq![message] + Seq::<MessageView>::empty() =~= seq![message]);
        assert(reader.handle_stream(fragment).1 == Some(StreamEventView::Completed(message)));
        assert(reads_cleanly(after, drain(next)));
    }
    assert(reads_cleanly(reader, frames));
}

/// The header of a new stream puts any reader in step with the writer.
pub proof fn lemma_header_puts_in_step(writer: WriterView, reader: DefragView, message: MessageView)
    requires
        writer.wf(),
        !writer.streaming(),
        writer.oversized(message),
        writer.countable(message),
    ensures
        ({
            let (next, header) = writer.start_large(message);
            let (after, event) = reader.handle_stream(header);
            &&& next.wf()
            &&& in_step(next, after, message)
            &&& event == Some(StreamEventView::Started { superseded: !reader.idle() })
            &&& reader.delivers(header) is None
        }),
{
    let max = writer.max_frame_size;
    let payload = message.payload();
    lemma_fragments_needed_step(payload.len(), max);
    lemma_fragments_needed_bounds((payload.len() - max) as nat, max);
    let (next, header) = writer.start_large(message);
    let (after, event) = reader.handle_stream(header);
    let rest = payload.subrange(max as int, payload.len() as int);
    assert(payload.subrange(payload.len() - rest.len(), payload.len() as int) =~= rest);
    assert(payload.subrange(0, payload.len() - rest.len()) =~= payload.subrange(0, max as int));
}

/// A message that does not fit in one frame is split into as many framing
/// units as its length divided by the frame size, rounded up, and a reader
/// in any state that is given them in order delivers, with the last of
/// them, a message equal to the one sent, byte for byte, and is idle again.
pub proof fn lemma_stream_round_trip(writer: WriterView, reader: DefragView, message: MessageView)
    requires
        writer.wf(),
        !writer.streaming(),
        writer.oversized(message),
        writer.countable(message),
    ensures
        stream_of(writer, message).len() == fragments_needed(
            message.data_len(),
            writer.max_frame_size,
        ),
        feed(reader, stream_of(writer, message)).1 == seq![message],
        feed(reader, stream_of(writer, message)).0 == (DefragView {
            stream_id: writer.next_stream_id(),
            partial: None,
            fragment_index: 0,
            num_fragments: 0,
        }),
        reader.idle() ==> reads_cleanly(reader, stream_of(writer, message)),
{
    let max = writer.max_frame_size;
    let (next, header) = writer.start_large(message);
    let frames = stream_of(writer, message);
    lemma_header_puts_in_step(writer, reader, message);
    let after = reader.after(header);
    lemma_drain_completes(next, after, message);
    lemma_fragments_needed_step(message.payload().len(), max);
    assert(frames[0] == header);
    assert(frames.drop_first() =~= drain(next));
}

/// A fragment of another stream than the one the reader tracks is dropped
/// and leaves the reader idle; a second one changes nothing more; and the
/// next stream that a writer sends is assembled as if nothing had happened.
pub proof fn lemma_stray_fragment_recovery(
    reader: DefragView,
    request_id: u32,
    fragment_id: u8,
    data: Seq<u8>,
    writer: WriterView,
    message: MessageView,
)
    requires
        request_id != reader.stream_id,
        writer.wf(),
        !writer.streaming(),
        writer.oversized(message),
        writer.countable(message),
    ensures
        ({
            let (after, event) = reader.fragment(request_id, fragment_id, data);
            &&& event is Dropped
            &&& after == reader.reset()
            &&& after.fragment(request_id, fragment_id, data).0 == after
            &&& feed(after, stream_of(writer, message)).1 == seq![message]
            &&& reads_cleanly(after, stream_of(writer, message))
        }),
{
    let (after, event) = reader.fragment(request_id, fragment_id, data);
    lemma_stream_round_trip(writer, after, message);
}

/// What the two queues hold at one turn of the writer.
pub struct Turn {
    pub high: PollView,
    pub normal: PollView,
}

/// The message that the writer takes from its queues in a turn: none while
/// one is staged, else the one from the high-priority queue, else the one
/// from the normal queue.
pub open spec fn takes(writer: WriterView, turn: Turn) -> Option<MessageView> {
    if writer.staged is Some {
        None
    } else {
        match turn.high {
            PollView::Message(message) => Some(message),
            _ => match turn.normal {
                PollView::Message(message) => Some(message),
                _ => None,
            },
        }
    }
}

/// The message can be sent: it fits in one frame, or in a stream that can
/// be counted.
pub open spec fn sendable(writer: WriterView, message: MessageView) -> bool {
    !writer.oversized(message) || writer.countable(message)
}

/// The message taken in a turn, if it is one that will reach the peer: the
/// disconnect signal and a message that cannot be sent will not.
pub open spec fn took(writer: WriterView, turn: Turn) -> Seq<MessageView> {
    match takes(writer, turn) {
        Some(message) => if !message.is_disconnect() && sendable(writer, message) {
            seq![message]
        } else {
            Seq::empty()
        },
        None => Seq::empty(),
    }
}

/// The framing unit, if any, that a step sends.
pub open spec fn frames_of(step: StepView) -> Seq<FrameView> {
    match step {
        StepView::Send(frame) => seq![frame],
        _ => Seq::empty(),
    }
}

/// The framing units that the writer sends over a sequence of turns; its
/// task ends with the first step that says so.
pub open spec fn sent(writer: WriterView, turns: Seq<Turn>) -> Seq<FrameView>
    decreases turns.len(),
{
    if turns.len() == 0 {
        Seq::empty()
    } else {
        let (next, step) = writer.step(turns[0].high, turns[0].normal);
        if step is Stop {
            Seq::empty()
        } else {
            frames_of(step) + sent(next, turns.drop_first())
        }
    }
}

/// The messages that the writer takes from its queues over a sequence of
/// turns and that will reach the peer, in the order taken.
pub open spec fn taken(writer: WriterView, turns: Seq<Turn>) -> Seq<MessageView>
    decreases turns.len(),
{
    if turns.len() == 0 {
        Seq::empty()
    } else {
        let (next, step) = writer.step(turns[0].high, turns[0].normal);
        if step is Stop {
            Seq::empty()
        } else {
            took(writer, turns[0]) + taken(next, turns.drop_first())
        }
    }
}

/// The writer's state after a sequence of turns.
pub open spec fn state_after(writer: WriterView, turns: Seq<Turn>) -> WriterView
    decreases turns.len(),
{
    if turns.len() == 0 {
        writer
    } else {
        let (next, step) = writer.step(turns[0].high, turns[0].normal);
        if step is Stop {
            next
        } else {
            state_after(next, turns.drop_first())
        }
    }
}

/// The message whose stream is in flight after a turn, given the one before.
pub open spec fn in_flight_after(
    writer: WriterView,
    current: Option<MessageView>,
    turn: Turn,
) -> Option<MessageView> {
    let (next, step) = writer.step(turn.high, turn.normal);
    if !next.streaming() {
        None
    } else if writer.streaming() {
        current
    } else {
        match writer.staged {
            Some(message) => Some(message),
            None => takes(writer, turn),
        }
    }
}

/// The message whose stream is in flight after a sequence of turns.
pub open spec fn in_flight(
    writer: WriterView,
    current: Option<MessageView>,
    turns: Seq<Turn>,
) -> Option<MessageView>
    decreases turns.len(),
{
    if turns.len() == 0 {
        current
    } else {
        let (next, step) = writer.step(turns[0].high, turns[0].normal);
        if step is Stop {
            current
        } else {
            in_flight(next, in_flight_after(writer, current, turns[0]), turns.drop_first())
        }
    }
}

/// The messages that the writer holds and the peer has not got yet: the
/// one whose stream is in flight, then the staged one if it can be sent.
pub open spec fn pending(writer: WriterView, current: Option<MessageView>) -> Seq<MessageView> {
    (match current {
        Some(message) => seq![message],
        None => Seq::empty(),
    }) + (match writer.staged {
        Some(message) => if sendable(writer, message) {
            seq![message]
        } else {
            Seq::empty()
        },
        None => Seq::empty(),
    })
}

/// Writer and reader agree: either the writer is in the middle of the
/// stream of `current` and the reader has assembled what was sent of it, or
/// no stream is in flight and the reader is idle. A staged message is never
/// the disconnect signal.
pub open spec fn agree(writer: WriterView, reader: DefragView, current: Option<MessageView>) -> bool {
    &&& writer.wf()
    &&& (writer.staged matches Some(message) ==> !message.is_disconnect())
    &&& match current {
        Some(message) => in_step(writer, reader, message),
        None => !writer.streaming() && reader.idle(),
    }
}

/// Feeding two sequences one after the other is feeding their
/// concatenation.
pub proof fn lemma_feed_concat(reader: DefragView, first: Seq<FrameView>, second: Seq<FrameView>)
    ensures
        feed(reader, first + second).0 == feed(feed(reader, first).0, second).0,
        feed(reader, first + second).1 == feed(reader, first).1 + feed(
            feed(reader, first).0,
            second,
        ).1,
        reads_cleanly(reader, first + second) == (reads_cleanly(reader, first) && reads_cleanly(
            feed(reader, first).0,
            second,
        )),
    decreases first.len(),
{
    if first.len() == 0 {
        assert(first + second =~= second);
        assert(Seq::<MessageView>::empty() + feed(reader, second).1 =~= feed(reader, second).1);
    } else {
        let all = first + second;
        assert(all[0] == first[0]);
        assert(all.drop_first() =~= first.drop_first() + second);
        let after = reader.after(first[0]);
        lemma_feed_concat(after, first.drop_first(), second);
        let mid = feed(after, first.drop_first());
        let end = feed(mid.0, second);
        match reader.delivers(first[0]) {
            Some(message) => {
                assert(seq![message] + (mid.1 + end.1) =~= (seq![message] + mid.1) + end.1);
            },
            None => {},
        }
    }
}

/// One turn of the writer keeps writer and reader in agreement: what the
/// reader delivers plus what the writer still holds is what the writer held
/// plus what it took, and the reader sees no anomaly.
pub proof fn lemma_turn_keeps_agreement(
    writer: WriterView,
    reader: DefragView,
    current: Option<MessageView>,
    turn: Turn,
)
    requires
        agree(writer, reader, current),
    ensures
        ({
            let (next, step) = writer.step(turn.high, turn.normal);
            let frames = frames_of(step);
            let after = feed(reader, frames).0;
            let flight = in_flight_after(writer, current, turn);
            &&& reads_cleanly(reader, frames)
            &&& step is Stop ==> next == writer && frames.len() == 0
            &&& !(step is Stop) ==> {
                &&& agree(next, after, flight)
                &&& feed(reader, frames).1 + pending(next, flight) == pending(writer, current)
                    + took(writer, turn)
            }
        }),
{
    let (next, step) = writer.step(turn.high, turn.normal);
    let frames = frames_of(step);
    let flight = in_flight_after(writer, current, turn);
    let none = Seq::<MessageView>::empty();
    match step {
        StepView::Send(frame) => {
            assert(frames[0] == frame);
            assert(frames.drop_first() =~= Seq::<FrameView>::empty());
            let after = reader.after(frame);
            assert(feed(after, frames.drop_first()) == (after, none));
            assert(reads_cleanly(after, frames.drop_first()));
            if writer.streaming() {
                let message = current->0;
                let base = match writer.staged {
                    Some(_) => writer,
                    None => match takes(writer, turn) {
                        Some(taken) => WriterView { staged: Some(taken), ..writer },
                        None => writer,
                    },
                };
                assert(in_step(base, reader, message));
                assert((next, frame) == base.next_large());
                lemma_fragment_keeps_step(base, reader, message);
                if next.streaming() {
                    assert(reader.delivers(frame) is None);
                    assert(feed(reader, frames).1 =~= none);
                } else {
                    assert(reader.delivers(frame) == Some(message));
                    assert(feed(reader, frames).1 =~= seq![message]);
                }
                assert(feed(reader, frames).1 + pending(next, flight) =~= pending(writer, current)
                    + took(writer, turn));
            } else {
                let message = match writer.staged {
                    Some(staged) => staged,
                    None => takes(writer, turn)->0,
                };
                let base = WriterView { staged: None, ..writer };
                assert((next, step) == base.frame(message));
                if writer.oversized(message) {
                    lemma_header_puts_in_step(base, reader, message);
                    assert(feed(reader, frames).1 =~= none);
                } else {
                    assert(frame == FrameView::Message(message));
                    assert(reader.delivers(frame) == Some(message));
                    assert(feed(reader, frames).1 =~= seq![message]);
                }
                assert(feed(reader, frames).1 + pending(next, flight) =~= pending(writer, current)
                    + took(writer, turn));
            }
        },
        StepView::Stop(_) => {},
        _ => {
            assert(feed(reader, frames).1 =~= none);
            assert(feed(reader, frames).1 + pending(next, flight) =~= pending(writer, current)
                + took(writer, turn));
        },
    }
}

/// Over any sequence of turns, from any state in which writer and reader
/// agree: the reader sees no anomaly, the two still agree at the end, and
/// what the reader delivered followed by what the writer still holds is
/// what the writer held followed by what it took.
pub proof fn lemma_run_keeps_agreement(
    writer: WriterView,
    reader: DefragView,
    current: Option<MessageView>,
    turns: Seq<Turn>,
)
    requires
        agree(writer, reader, current),
    ensures
        reads_cleanly(reader, sent(writer, turns)),
        agree(
            state_after(writer, turns),
            feed(reader, sent(writer, turns)).0,
            in_flight(writer, current, turns),
        ),
        feed(reader, sent(writer, turns)).1 + pending(
            state_after(writer, turns),
            in_flight(writer, current, turns),
        ) == pending(writer, current) + taken(writer, turns),
    decreases turns.len(),
{
    let none = Seq::<MessageView>::empty();
    if turns.len() == 0 {
        assert(none + pending(writer, current) =~= pending(writer, current) + none);
    } else {
        let turn = turns[0];
        let (next, step) = writer.step(turn.high, turn.normal);
        lemma_turn_keeps_agreement(writer, reader, current, turn);
        if step is Stop {
            assert(none + pending(writer, current) =~= pending(writer, current) + none);
        } else {
            let frames = frames_of(step);
            let after = feed(reader, frames).0;
            let flight = in_flight_after(writer, current, turn);
            let rest = turns.drop_first();
            lemma_run_keeps_agreement(next, after, flight, rest);
            lemma_feed_concat(reader, frames, sent(next, rest));
            let first = feed(reader, frames).1;
            let later = feed(after, sent(next, rest)).1;
            let end = pending(state_after(next, rest), in_flight(next, flight, rest));
            assert((first + later) + end =~= first + (later + end));
            assert(first + (pending(next, flight) + taken(next, rest)) =~= (first + pending(
                next,
                flight,
            )) + taken(next, rest));
            assert((pending(writer, current) + took(writer, turn)) + taken(next, rest)
                =~= pending(writer, current) + (took(writer, turn) + taken(next, rest)));
        }
    }
}

/// With a writer that starts with nothing in hand and a reader that starts
/// idle, whatever the queues hold over any number of turns: the reader sees
/// every stream whole, with no framing unit of another stream in between;
/// the messages that it delivers are those that the writer took from its
/// queues, in the order taken, each as it was taken; at most the last
/// two taken are still on their way, and none is once the writer has
/// nothing in hand again.
pub proof fn lemma_reader_follows_writer(writer: WriterView, reader: DefragView, turns: Seq<Turn>)
    requires
        writer.wf(),
        writer.idle(),
        reader.idle(),
    ensures
        reads_cleanly(reader, sent(writer, turns)),
        ({
            let delivered = feed(reader, sent(writer, turns)).1;
            let accepted = taken(writer, turns);
            &&& delivered.len() <= accepted.len() <= delivered.len() + 2
            &&& delivered == accepted.subrange(0, delivered.len() as int)
            &&& state_after(writer, turns).idle() ==> delivered == accepted
        }),
{
    lemma_run_keeps_agreement(writer, reader, None, turns);
    let delivered = feed(reader, sent(writer, turns)).1;
    let accepted = taken(writer, turns);
    let end = state_after(writer, turns);
    let held = pending(end, in_flight(writer, None, turns));
    assert(pending(writer, None) =~= Seq::<MessageView>::empty());
    assert(delivered + held =~= accepted);
    assert(delivered =~= accepted.subrange(0, delivered.len() as int));
    if end.idle() {
        assert(held =~= Seq::<MessageView>::empty());
        assert(delivered =~= accepted);
    }
}

/// If the queue gave a message, it fits in one frame and is not the
/// disconnect signal.
pub open spec fn small(writer: WriterView, polled: PollView) -> bool {
    match polled {
        PollView::Message(message) => !writer.oversized(message) && !message.is_disconnect(),
        _ => true,
    }
}

/// Every message that the queues hold over the turns fits in one frame and
/// none is the disconnect signal.
pub open spec fn all_small(writer: WriterView, turns: Seq<Turn>) -> bool {
    forall|i: int|
        0 <= i < turns.len() ==> small(writer, (#[trigger] turns[i]).high) && small(
            writer,
            turns[i].normal,
        )
}

/// The message that an idle writer takes in each turn, in order, up to the
/// turn in which a queue is found closed: the one from the high-priority
/// queue, else the one from the normal queue.
pub open spec fn polled_in_order(turns: Seq<Turn>) -> Seq<MessageView>
    decreases turns.len(),
{
    if turns.len() == 0 {
        Seq::empty()
    } else {
        match turns[0].high {
            PollView::Message(message) => seq![message] + polled_in_order(turns.drop_first()),
            _ => match turns[0].normal {
                PollView::Message(message) => seq![message] + polled_in_order(
                    turns.drop_first(),
                ),
                PollView::Empty => polled_in_order(turns.drop_first()),
                PollView::Closed => Seq::empty(),
            },
        }
    }
}

/// While every message fits in one frame, the reader delivers exactly the
/// messages that the writer took from its queues, unchanged and in the
/// order taken; so each queue's messages arrive in the order in which the
/// queue gave them.
pub proof fn lemma_small_messages_keep_order(
    writer: WriterView,
    reader: DefragView,
    turns: Seq<Turn>,
)
    requires
        writer.wf(),
        writer.idle(),
        all_small(writer, turns),
    ensures
        feed(reader, sent(writer, turns)).1 == polled_in_order(turns),
        feed(reader, sent(writer, turns)).0 == reader,
        state_after(writer, turns) == writer,
    decreases turns.len(),
{
    let none = Seq::<MessageView>::empty();
    if turns.len() > 0 {
        let turn = turns[0];
        let rest = turns.drop_first();
        let (next, step) = writer.step(turn.high, turn.normal);
        assert(turns[0].high == turn.high && turns[0].normal == turn.normal);
        assert forall|i: int| 0 <= i < rest.len() implies small(
            writer,
            (#[trigger] rest[i]).high,
        ) && small(writer, rest[i].normal) by {
            assert(rest[i] == turns[i + 1]);
        }
        if !(step is Stop) {
            assert(next == writer);
            lemma_small_messages_keep_order(writer, reader, rest);
            let frames = frames_of(step);
            lemma_feed_concat(reader, frames, sent(writer, rest));
            match step {
                StepView::Send(frame) => {
                    assert(frames[0] == frame);
                    assert(frames.drop_first() =~= Seq::<FrameView>::empty());
                    assert(feed(reader.after(frame), frames.drop_first()).1 =~= none);
                    assert(feed(reader, frames).1 =~= seq![takes(writer, turn)->0]);
                },
                _ => {
                    assert(feed(reader, frames).1 =~= none);
                    assert(none + polled_in_order(rest) =~= polled_in_order(rest));
                },
            }
        }
    }
}

/// While a stream is in flight, a turn in which neither queue gives a
/// message sends the next fragment, whether the queues are empty or closed:
/// a message taken before its queue closed is sent to its end.
pub proof fn lemma_stream_outlives_its_queue(writer: WriterView, high: PollView, normal: PollView)
    requires
        writer.wf(),
        writer.streaming(),
        !(high is Message),
        !(normal is Message),
    ensures
        writer.step(high, normal) == (
            writer.next_large().0,
            StepView::Send(writer.next_large().1),
        ),
{
}

/// The task ends on a closed queue only with no stream in flight and
/// nothing staged.
pub proof fn lemma_queue_closed_stops_only_when_idle(
    writer: WriterView,
    high: PollView,
    normal: PollView,
)
    requires
        writer.wf(),
    ensures
        writer.step(high, normal).1 == StepView::Stop(StopReason::QueueClosed)
            <==> writer.idle() && !(high is Message) && normal is Closed,
{
    match writer.staged {
        Some(message) => {},
        None => {},
    }
}

/// The header that begins the stream of a message that does not fit in one
/// frame declares as many framing units as the length of the payload
/// divided by the frame size, rounded up, the header counted as the first:
/// at least 2, at most 255, and at most 254 for a payload of up to 254
/// frames. It carries the message with the first frame of its payload.
pub proof fn lemma_header_count(writer: WriterView, message: MessageView)
    requires
        writer.max_frame_size > 0,
        writer.oversized(message),
        writer.countable(message),
    ensures
        writer.start_large(message).1 == (FrameView::Header {
            request_id: writer.next_stream_id(),
            num_fragments: fragments_needed(message.data_len(), writer.max_frame_size) as u8,
            message: message.with_payload(
                message.payload().subrange(0, writer.max_frame_size as int),
            ),
        }),
        2 <= fragments_needed(message.data_len(), writer.max_frame_size) <= 255,
        message.data_len() <= 254 * writer.max_frame_size ==> fragments_needed(
            message.data_len(),
            writer.max_frame_size,
        ) <= 254,
{
    let max = writer.max_frame_size as int;
    let len = message.data_len() as int;
    let count = fragments_needed(message.data_len(), writer.max_frame_size) as int;
    lemma_fragments_needed_bounds(message.data_len(), writer.max_frame_size);
    if len <= 254 * max {
        assert(count <= 254) by (nonlinear_arith)
            requires
                max > 0,
                (count - 1) * max < len,
                len <= 254 * max,
        ;
    }
}

} // verus!
