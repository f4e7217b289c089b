//! The writer engine of a connection.
//!
//! It drains two queues of outbound messages, the high-priority one first,
//! and decides which framing unit goes to the socket next. A message that
//! does not fit in one frame becomes a stream: a header with the first slice
//! of the payload, then one fragment per turn. A stream that has begun is
//! drained to its end before anything else is sent; a message taken from a
//! queue in the meantime is staged and framed once the stream is done. A
//! queue that closes does not cut a stream short: the task ends on a closed
//! queue only when nothing is left to send. Only the disconnect signal
//! abandons a stream.
//!
//! The engine only decides. Waiting for a queue, writing to the socket and
//! watching for shutdown are left to the task that drives it.

use crate::channel::{try_recv, PollView, QueuePoll};
use crate::fragment::{
    count_fragments, fragments_needed, lemma_fragments_needed_bounds, lemma_fragments_needed_step,
    MAX_FRAGMENTS,
};
use crate::message::{
    FrameView, MessageView, MultiplexMessage, NetworkMessage, StreamFragment, StreamHeader,
    StreamMessage,
};
use tokio::sync::mpsc::Receiver;
use vstd::pervasive::unreached;
use vstd::prelude::*;

verus! {

/// Why the writer ends its task.
#[derive(Clone, Copy, Debug, PartialEq, Eq, Structural)]
pub enum StopReason {
    /// The normal queue is closed and nothing is left to send.
    QueueClosed,
    /// The disconnect signal was taken from a queue.
    Disconnect,
}

/// Why a message could not be sent.
#[derive(Clone, Copy, Debug, PartialEq, Eq, Structural)]
pub enum FragmentError {
    /// The payload needs more framing units than a stream can count.
    TooManyFragments { data_len: usize, max_frame_size: usize },
}

/// What the writer does next.
#[derive(Debug)]
pub enum WriterStep {
    /// Write this framing unit to the socket.
    Send(MultiplexMessage),
    /// Nothing to send: wait for a message on either queue, or for shutdown.
    Wait,
    /// End the task.
    Stop(StopReason),
    /// A message was dropped because it cannot be fragmented; go on.
    Reject(FragmentError),
}

/// `WriterStep` as a mathematical value.
pub enum StepView {
    Send(FrameView),
    Wait,
    Stop(StopReason),
    Reject(FragmentError),
}

impl View for WriterStep {
    type V = StepView;

    open spec fn view(&self) -> StepView {
        match self {
            WriterStep::Send(frame) => StepView::Send(frame@),
            WriterStep::Wait => StepView::Wait,
            WriterStep::Stop(reason) => StepView::Stop(*reason),
            WriterStep::Reject(error) => StepView::Reject(*error),
        }
    }
}

/// The fragmentation state of the writer as a mathematical value, with the
/// transitions of the engine as functions on it.
#[verifier::ext_equal]
pub struct WriterView {
    pub max_frame_size: nat,
    /// Identifier of the stream begun last.
    pub stream_id: u32,
    /// Payload bytes of the stream in flight that are not sent yet.
    pub remaining: Option<Seq<u8>>,
    /// Sequence number of the framing unit sent last (0 is the header).
    pub fragment_id: u8,
    /// Number of framing units of the stream begun last.
    pub num_fragments: u8,
    /// A message taken from a queue while a stream was in flight.
    pub staged: Option<MessageView>,
}

impl WriterView {
    /// The state of a writer that has sent nothing.
    pub open spec fn fresh(max_frame_size: nat) -> WriterView {
        WriterView {
            max_frame_size,
            stream_id: 0,
            remaining: None,
            fragment_id: 0,
            num_fragments: 0,
            staged: None,
        }
    }

    /// A stream is in flight.
    pub open spec fn streaming(self) -> bool {
        self.remaining is Some
    }

    /// No stream is in flight and nothing is staged.
    pub open spec fn idle(self) -> bool {
        self.remaining is None && self.staged is None
    }

    /// The frame size is positive, and while a stream is in flight there are
    /// bytes left, and the fragments sent and those still needed add up to
    /// the count that the header declared.
    pub open spec fn wf(self) -> bool {
        &&& self.max_frame_size > 0
        &&& (self.remaining matches Some(rest) ==> {
            &&& rest.len() > 0
            &&& self.fragment_id + fragments_needed(rest.len(), self.max_frame_size) + 1
                == self.num_fragments
        })
    }

    /// The message does not fit in one frame.
    pub open spec fn oversized(self, message: MessageView) -> bool {
        message.data_len() > self.max_frame_size
    }

    /// The message needs no more framing units than a stream can count.
    pub open spec fn countable(self, message: MessageView) -> bool {
        fragments_needed(message.data_len(), self.max_frame_size) <= MAX_FRAGMENTS
    }

    /// The stream identifier after this one; it starts over after the largest.
    pub open spec fn next_stream_id(self) -> u32 {
        if self.stream_id == u32::MAX {
            0
        } else {
            (self.stream_id + 1) as u32
        }
    }

    /// Sends the next fragment of the stream in flight: one frame of the
    /// remaining bytes, or all of them if they fit.
    pub open spec fn next_large(self) -> (WriterView, FrameView)
        recommends
            self.streaming(),
    {
        let blob = self.remaining->0;
        let fragment_id = (self.fragment_id + 1) as u8;
        if blob.len() > self.max_frame_size {
            (
                WriterView {
                    remaining: Some(blob.subrange(self.max_frame_size as int, blob.len() as int)),
                    fragment_id,
                    ..self
                },
                FrameView::Fragment {
                    request_id: self.stream_id,
                    fragment_id,
                    data: blob.subrange(0, self.max_frame_size as int),
                },
            )
        } else {
            (
                WriterView { remaining: None, fragment_id, ..self },
                FrameView::Fragment { request_id: self.stream_id, fragment_id, data: blob },
            )
        }
    }

    /// Begins a stream for an oversized message: the header carries the
    /// message with the first frame of its payload, the rest remains.
    pub open spec fn start_large(self, message: MessageView) -> (WriterView, FrameView)
        recommends
            !self.streaming(),
            self.oversized(message),
            self.countable(message),
    {
        let payload = message.payload();
        let num_fragments = fragments_needed(payload.len(), self.max_frame_size) as u8;
        let stream_id = self.next_stream_id();
        (
            WriterView {
                stream_id,
                remaining: Some(payload.subrange(self.max_frame_size as int, payload.len() as int)),
                fragment_id: 0,
                num_fragments,
                ..self
            },
            FrameView::Header {
                request_id: stream_id,
                num_fragments,
                message: message.with_payload(payload.subrange(0, self.max_frame_size as int)),
            },
        )
    }

    /// Frames a message while no stream is in flight: whole if it fits,
    /// as the header of a new stream if it does not, and not at all if the
    /// stream would have more framing units than can be counted.
    pub open spec fn frame(self, message: MessageView) -> (WriterView, StepView)
        recommends
            !self.streaming(),
    {
        if !self.oversized(message) {
            (self, StepView::Send(FrameView::Message(message)))
        } else if !self.countable(message) {
            (
                self,
                StepView::Reject(
                    FragmentError::TooManyFragments {
                        data_len: message.data_len() as usize,
                        max_frame_size: self.max_frame_size as usize,
                    },
                ),
            )
        } else {
            let (next, header) = self.start_large(message);
            (next, StepView::Send(header))
        }
    }

    /// Handles a message that was just taken from a queue. The disconnect
    /// signal ends the task whatever is in flight. While a stream is in
    /// flight the message is staged and the stream goes on; otherwise the
    /// message is framed.
    pub open spec fn accept(self, message: MessageView) -> (WriterView, StepView)
        recommends
            self.staged is None,
    {
        if message.is_disconnect() {
            (self, StepView::Stop(StopReason::Disconnect))
        } else if self.streaming() {
            let (next, fragment) = WriterView { staged: Some(message), ..self }.next_large();
            (next, StepView::Send(fragment))
        } else {
            self.frame(message)
        }
    }

    /// What the engine does with what the high-priority queue gave: a
    /// message is handled, anything else leaves the turn to the normal queue.
    pub open spec fn high_polled(self, high: PollView) -> Option<(WriterView, StepView)>
        recommends
            self.staged is None,
    {
        match high {
            PollView::Message(message) => Some(self.accept(message)),
            _ => None,
        }
    }

    /// What the engine does when the high-priority queue gave nothing and
    /// the normal queue was polled. With no message to take, a stream in
    /// flight goes on, also where the queue is closed: what was taken before
    /// the queue closed is sent to its end. Only with no stream in flight
    /// does an empty queue make the engine wait and a closed one end the
    /// task.
    pub open spec fn normal_polled(self, normal: PollView) -> (WriterView, StepView)
        recommends
            self.staged is None,
    {
        match normal {
            PollView::Message(message) => self.accept(message),
            _ => {
                if self.streaming() {
                    let (next, fragment) = self.next_large();
                    (next, StepView::Send(fragment))
                } else if normal is Closed {
                    (self, StepView::Stop(StopReason::QueueClosed))
                } else {
                    (self, StepView::Wait)
                }
            },
        }
    }

    /// What the engine does with nothing staged, given what the two queues
    /// hold. The normal queue counts only where the high-priority queue gave
    /// no message.
    pub open spec fn polled(self, high: PollView, normal: PollView) -> (WriterView, StepView)
        recommends
            self.staged is None,
    {
        match high {
            PollView::Message(message) => self.accept(message),
            _ => self.normal_polled(normal),
        }
    }

    /// One turn of the engine, given what the two queues hold. With a
    /// message staged no queue is looked at: the stream in flight goes on,
    /// or, once it is done, the staged message is framed.
    pub open spec fn step(self, high: PollView, normal: PollView) -> (WriterView, StepView) {
        match self.staged {
            Some(message) => {
                if self.streaming() {
                    let (next, fragment) = self.next_large();
                    (next, StepView::Send(fragment))
                } else {
                    WriterView { staged: None, ..self }.frame(message)
                }
            },
            None => self.polled(high, normal),
        }
    }
}

/// The fragmentation state of a writer. Every value of it is well formed.
struct StreamState {
    /// incremented for each new stream
    stream_request_id: u32,
    /// remaining payload bytes of the message that is being fragmented
    large_message: Option<Vec<u8>>,
    /// sequence number of the fragment sent last
    large_fragment_id: u8,
    /// number of framing units of the stream begun last
    num_fragments: u8,
    /// a message that arrived while a stream was in flight
    staged_msg: Option<NetworkMessage>,
    max_frame_size: usize,
}

impl View for StreamState {
    type V = WriterView;

    closed spec fn view(&self) -> WriterView {
        WriterView {
            max_frame_size: self.max_frame_size as nat,
            stream_id: self.stream_request_id,
            remaining: match self.large_message {
                Some(rest) => Some(rest@),
                None => None,
            },
            fragment_id: self.large_fragment_id,
            num_fragments: self.num_fragments,
            staged: match self.staged_msg {
                Some(message) => Some(message@),
                None => None,
            },
        }
    }
}

impl StreamState {
    #[verifier::type_invariant]
    spec fn well_formed(self) -> bool {
        self@.wf()
    }

    fn fresh(max_frame_size: usize) -> (state: Self)
        requires
            max_frame_size > 0,
        ensures
            state@ == WriterView::fresh(max_frame_size as nat),
    {
        StreamState {
            stream_request_id: 0,
            large_message: None,
            large_fragment_id: 0,
            num_fragments: 0,
            staged_msg: None,
            max_frame_size,
        }
    }

    fn next_large(self) -> (sent: (Self, MultiplexMessage))
        requires
            self@.streaming(),
        ensures
            (sent.0@, sent.1@) == self@.next_large(),
    {
        proof {
            use_type_invariant(&self);
        }
        let StreamState {
            stream_request_id,
            large_message,
            large_fragment_id,
            num_fragments,
            staged_msg,
            max_frame_size,
        } = self;
        let mut blob = large_message.unwrap();
        proof {
            lemma_fragments_needed_bounds(blob@.len(), max_frame_size as nat);
        }
        let large_message = if blob.len() > max_frame_size {
            proof {
                lemma_fragments_needed_step(blob@.len(), max_frame_size as nat);
                lemma_fragments_needed_bounds(
                    (blob@.len() - max_frame_size) as nat,
                    max_frame_size as nat,
                );
            }
            Some(blob.split_off(max_frame_size))
        } else {
            None
        };
        let large_fragment_id = large_fragment_id + 1;
        (
            StreamState {
                stream_request_id,
                large_message,
                large_fragment_id,
                num_fragments,
                staged_msg,
                max_frame_size,
            },
            MultiplexMessage::Stream(
                StreamMessage::Fragment(
                    StreamFragment {
                        request_id: stream_request_id,
                        fragment_id: large_fragment_id,
                        raw_data: blob,
                    },
                ),
            ),
        )
    }

    fn start_large(self, msg: NetworkMessage) -> (started: (
        Self,
        Result<MultiplexMessage, FragmentError>,
    ))
        requires
            !self@.streaming(),
            self@.oversized(msg@),
        ensures
            match started.1 {
                Ok(header) => {
                    &&& self@.countable(msg@)
                    &&& (started.0@, header@) == self@.start_large(msg@)
                },
                Err(error) => {
                    &&& !self@.countable(msg@)
                    &&& started.0@ == self@
                    &&& error == (FragmentError::TooManyFragments {
                        data_len: msg@.data_len() as usize,
                        max_frame_size: self@.max_frame_size as usize,
                    })
                },
            },
    {
        proof {
            use_type_invariant(&self);
        }
        let data_len = msg.data_len();
        let count = count_fragments(data_len, self.max_frame_size);
        if count > MAX_FRAGMENTS {
            let error = FragmentError::TooManyFragments {
                data_len,
                max_frame_size: self.max_frame_size,
            };
            return (self, Err(error));
        }
        let StreamState {
            stream_request_id,
            large_message: _,
            large_fragment_id: _,
            num_fragments: _,
            staged_msg,
            max_frame_size,
        } = self;
        proof {
            lemma_fragments_needed_step(data_len as nat, max_frame_size as nat);
            lemma_fragments_needed_bounds(
                (data_len - max_frame_size) as nat,
                max_frame_size as nat,
            );
        }
        let mut msg = msg;
        let rest = match &mut msg {
            NetworkMessage::Error(_) => unreached(),
            NetworkMessage::RpcRequest(request) => request.raw_request.split_off(max_frame_size),
            NetworkMessage::RpcResponse(response) => response.raw_response.split_off(
                max_frame_size,
            ),
            NetworkMessage::DirectSendMsg(message) => message.raw_msg.split_off(max_frame_size),
        };
        let stream_request_id = stream_request_id.wrapping_add(1);
        let num_fragments = count as u8;
        (
            StreamState {
                stream_request_id,
                large_message: Some(rest),
                large_fragment_id: 0,
                num_fragments,
                staged_msg,
                max_frame_size,
            },
            Ok(
                MultiplexMessage::Stream(
                    StreamMessage::Header(
                        StreamHeader { request_id: stream_request_id, num_fragments, message: msg },
                    ),
                ),
            ),
        )
    }

    fn frame(self, msg: NetworkMessage) -> (framed: (Self, WriterStep))
        requires
            !self@.streaming(),
        ensures
            (framed.0@, framed.1@) == self@.frame(msg@),
    {
        if msg.data_len() > self.max_frame_size {
            let (next, started) = self.start_large(msg);
            match started {
                Ok(header) => (next, WriterStep::Send(header)),
                Err(error) => (next, WriterStep::Reject(error)),
            }
        } else {
            (self, WriterStep::Send(MultiplexMessage::Message(msg)))
        }
    }

    fn stage(self, msg: NetworkMessage) -> (staged: Self)
        ensures
            staged@ == (WriterView { staged: Some(msg@), ..self@ }),
    {
        proof {
            use_type_invariant(&self);
        }
        let StreamState {
            stream_request_id,
            large_message,
            large_fragment_id,
            num_fragments,
            staged_msg: _,
            max_frame_size,
        } = self;
        StreamState {
            stream_request_id,
            large_message,
            large_fragment_id,
            num_fragments,
            staged_msg: Some(msg),
            max_frame_size,
        }
    }

    fn unstage(self) -> (unstaged: (Self, Option<NetworkMessage>))
        ensures
            unstaged.0@ == (WriterView { staged: None, ..self@ }),
            match unstaged.1 {
                Some(message) => self@.staged == Some(message@),
                None => self@.staged is None,
            },
    {
        proof {
            use_type_invariant(&self);
        }
        let StreamState {
            stream_request_id,
            large_message,
            large_fragment_id,
            num_fragments,
            staged_msg,
            max_frame_size,
        } = self;
        (
            StreamState {
                stream_request_id,
                large_message,
                large_fragment_id,
                num_fragments,
                staged_msg: None,
                max_frame_size,
            },
            staged_msg,
        )
    }

    fn accept(self, msg: NetworkMessage) -> (accepted: (Self, WriterStep))
        ensures
            (accepted.0@, accepted.1@) == self@.accept(msg@),
    {
        if msg.is_disconnect() {
            (self, WriterStep::Stop(StopReason::Disconnect))
        } else if self.large_message.is_some() {
            // finish the stream in flight before anything else is sent
            let (next, fragment) = self.stage(msg).next_large();
            (next, WriterStep::Send(fragment))
        } else {
            self.frame(msg)
        }
    }

    fn normal_polled(self, polled: QueuePoll) -> (acted: (Self, WriterStep))
        ensures
            (acted.0@, acted.1@) == self@.normal_polled(polled@),
    {
        match polled {
            QueuePoll::Message(msg) => self.accept(msg),
            QueuePoll::Empty => {
                if self.large_message.is_some() {
                    // no message is waiting: go on with the stream
                    let (next, fragment) = self.next_large();
                    (next, WriterStep::Send(fragment))
                } else {
                    (self, WriterStep::Wait)
                }
            },
            QueuePoll::Closed => {
                if self.large_message.is_some() {
                    // the stream was begun before the queue closed: finish it
                    let (next, fragment) = self.next_large();
                    (next, WriterStep::Send(fragment))
                } else {
                    (self, WriterStep::Stop(StopReason::QueueClosed))
                }
            },
        }
    }

    fn staged_turn(self) -> (acted: (Self, WriterStep))
        requires
            self@.staged is Some,
        ensures
            forall|high: PollView, normal: PollView|
                (acted.0@, acted.1@) == #[trigger] self@.step(high, normal),
    {
        if self.large_message.is_some() {
            let (next, fragment) = self.next_large();
            (next, WriterStep::Send(fragment))
        } else {
            let (next, staged) = self.unstage();
            next.frame(staged.unwrap())
        }
    }
}

/// The state that the writer task of one connection keeps between turns,
/// and the two queues that it drains.
pub struct WriterContext {
    state: StreamState,
    /// messages from applications to send to the peer
    pub to_send: Receiver<NetworkMessage>,
    pub to_send_high_prio: Receiver<NetworkMessage>,
}

impl View for WriterContext {
    type V = WriterView;

    closed spec fn view(&self) -> WriterView {
        self.state@
    }
}

impl WriterContext {
    /// The two queues that the writer drains: the normal one, then the
    /// high-priority one.
    pub closed spec fn queues(&self) -> (Receiver<NetworkMessage>, Receiver<NetworkMessage>) {
        (self.to_send, self.to_send_high_prio)
    }

    /// A writer that has sent nothing, over the two queues it will drain.
    pub fn new(
        to_send: Receiver<NetworkMessage>,
        to_send_high_prio: Receiver<NetworkMessage>,
        max_frame_size: usize,
    ) -> (writer: Self)
        requires
            max_frame_size > 0,
        ensures
            writer@ == WriterView::fresh(max_frame_size as nat),
            writer@.wf(),
            writer.queues() == (to_send, to_send_high_prio),
    {
        WriterContext { state: StreamState::fresh(max_frame_size), to_send, to_send_high_prio }
    }

    pub fn max_frame_size(&self) -> (size: usize)
        ensures
            size == self@.max_frame_size,
            self@.wf(),
    {
        proof {
            use_type_invariant(&self.state);
        }
        self.state.max_frame_size
    }

    /// Identifier of the stream begun last.
    pub fn stream_request_id(&self) -> (id: u32)
        ensures
            id == self@.stream_id,
    {
        self.state.stream_request_id
    }

    /// Whether a stream is in flight.
    pub fn is_streaming(&self) -> (b: bool)
        ensures
            b == self@.streaming(),
    {
        self.state.large_message.is_some()
    }

    /// Whether a message is staged.
    pub fn has_staged(&self) -> (b: bool)
        ensures
            b == (self@.staged is Some),
    {
        self.state.staged_msg.is_some()
    }

    /// Whether no stream is in flight and nothing is staged.
    pub fn is_idle(&self) -> (b: bool)
        ensures
            b == self@.idle(),
    {
        self.state.large_message.is_none() && self.state.staged_msg.is_none()
    }

    /// Takes the state out, leaving a fresh one in its place.
    fn take_state(&mut self) -> (state: StreamState)
        ensures
            state@ == old(self)@,
            state@.wf(),
            final(self).queues() == old(self).queues(),
    {
        proof {
            use_type_invariant(&self.state);
        }
        let mut state = StreamState::fresh(self.state.max_frame_size);
        std::mem::swap(&mut self.state, &mut state);
        proof {
            use_type_invariant(&state);
        }
        state
    }

    fn put_state(&mut self, state: StreamState)
        ensures
            final(self)@ == state@,
            final(self)@.wf(),
            final(self).queues() == old(self).queues(),
    {
        proof {
            use_type_invariant(&state);
        }
        let mut state = state;
        std::mem::swap(&mut self.state, &mut state);
    }

    /// Sends the next fragment of the stream in flight.
    pub fn next_large(&mut self) -> (frame: MultiplexMessage)
        requires
            old(self)@.streaming(),
        ensures
            final(self)@.wf(),
            final(self).queues() == old(self).queues(),
            (final(self)@, frame@) == old(self)@.next_large(),
    {
        let (next, frame) = self.take_state().next_large();
        self.put_state(next);
        frame
    }

    /// Begins a stream for a message that does not fit in one frame, and
    /// returns its header. A message that would need more than 255 framing
    /// units is refused, and the state stays as it was.
    pub fn start_large(&mut self, msg: NetworkMessage) -> (result: Result<
        MultiplexMessage,
        FragmentError,
    >)
        requires
            !old(self)@.streaming(),
            old(self)@.oversized(msg@),
        ensures
            final(self)@.wf(),
            final(self).queues() == old(self).queues(),
            match result {
                Ok(header) => {
                    &&& old(self)@.countable(msg@)
                    &&& (final(self)@, header@) == old(self)@.start_large(msg@)
                },
                Err(error) => {
                    &&& !old(self)@.countable(msg@)
                    &&& final(self)@ == old(self)@
                    &&& error == (FragmentError::TooManyFragments {
                        data_len: msg@.data_len() as usize,
                        max_frame_size: old(self)@.max_frame_size as usize,
                    })
                },
            },
    {
        let (next, result) = self.take_state().start_large(msg);
        self.put_state(next);
        result
    }

    /// Frames a message while no stream is in flight.
    pub fn frame(&mut self, msg: NetworkMessage) -> (step: WriterStep)
        requires
            !old(self)@.streaming(),
        ensures
            final(self)@.wf(),
            final(self).queues() == old(self).queues(),
            (final(self)@, step@) == old(self)@.frame(msg@),
    {
        let (next, step) = self.take_state().frame(msg);
        self.put_state(next);
        step
    }

    /// Handles a message that was just taken from a queue, by a poll or by
    /// the task that waited for it. The staging slot must be free: a message
    /// is taken from a queue only while it is.
    pub fn accept(&mut self, msg: NetworkMessage) -> (step: WriterStep)
        requires
            old(self)@.staged is None,
        ensures
            final(self)@.wf(),
            final(self).queues() == old(self).queues(),
            (final(self)@, step@) == old(self)@.accept(msg@),
    {
        let (next, step) = self.take_state().accept(msg);
        self.put_state(next);
        step
    }

    /// Acts on what a poll of the high-priority queue gave.
    pub fn high_prio_polled(&mut self, polled: QueuePoll) -> (step: Option<WriterStep>)
        requires
            old(self)@.staged is None,
        ensures
            final(self)@.wf(),
            final(self).queues() == old(self).queues(),
            match step {
                Some(step) => old(self)@.high_polled(polled@) == Some((final(self)@, step@)),
                None => old(self)@.high_polled(polled@) is None && final(self)@ == old(self)@,
            },
    {
        match polled {
            QueuePoll::Message(msg) => Some(self.accept(msg)),
            _ => {
                proof {
                    use_type_invariant(&self.state);
                }
                None
            },
        }
    }

    /// Acts on what a poll of the normal queue gave, after the high-priority
    /// queue gave nothing.
    pub fn normal_polled(&mut self, polled: QueuePoll) -> (step: WriterStep)
        requires
            old(self)@.staged is None,
        ensures
            final(self)@.wf(),
            final(self).queues() == old(self).queues(),
            (final(self)@, step@) == old(self)@.normal_polled(polled@),
    {
        let (next, step) = self.take_state().normal_polled(polled);
        self.put_state(next);
        step
    }

    /// Polls the high-priority queue and acts on a message found there.
    /// Whatever the queue gave, the outcome is the one the model assigns to
    /// it.
    pub fn try_high_prio_next_msg(&mut self) -> (step: Option<WriterStep>)
        requires
            old(self)@.staged is None,
        ensures
            final(self)@.wf(),
            exists|high: PollView|
                match step {
                    Some(step) => #[trigger] old(self)@.high_polled(high) == Some(
                        (final(self)@, step@),
                    ),
                    None => old(self)@.high_polled(high) is None && final(self)@ == old(self)@,
                },
    {
        let polled = try_recv(&mut self.to_send_high_prio);
        let ghost high = polled@;
        let step = self.high_prio_polled(polled);
        proof {
            assert(match step {
                Some(step) => #[trigger] old(self)@.high_polled(high) == Some(
                    (self@, step@),
                ),
                None => old(self)@.high_polled(high) is None && self@ == old(self)@,
            });
        }
        step
    }

    /// Polls the high-priority queue, then, if that gave no message, the
    /// normal queue, and acts on what was found. Whatever the queues gave,
    /// the outcome is the one the model assigns to it.
    pub fn try_next_msg(&mut self) -> (step: WriterStep)
        requires
            old(self)@.staged is None,
        ensures
            final(self)@.wf(),
            exists|high: PollView, normal: PollView|
                (final(self)@, step@) == #[trigger] old(self)@.polled(high, normal),
    {
        let high = try_recv(&mut self.to_send_high_prio);
        let ghost high_view = high@;
        match self.high_prio_polled(high) {
            Some(step) => {
                proof {
                    assert((self@, step@) == old(self)@.polled(high_view, PollView::Empty));
                }
                step
            },
            None => {
                let normal = try_recv(&mut self.to_send);
                let ghost normal_view = normal@;
                let step = self.normal_polled(normal);
                proof {
                    assert((self@, step@) == old(self)@.polled(high_view, normal_view));
                }
                step
            },
        }
    }

    /// One turn of the writer: decides what goes to the socket next. With a
    /// message staged no queue is polled. Whatever the queues gave, the
    /// outcome is the one the model assigns to it.
    pub fn step(&mut self) -> (step: WriterStep)
        ensures
            final(self)@.wf(),
            exists|high: PollView, normal: PollView|
                (final(self)@, step@) == #[trigger] old(self)@.step(high, normal),
    {
        if self.state.staged_msg.is_some() {
            let (next, step) = self.take_state().staged_turn();
            self.put_state(next);
            proof {
                assert((self@, step@) == old(self)@.step(PollView::Empty, PollView::Empty));
            }
            step
        } else {
            let step = self.try_next_msg();
            proof {
                let (high, normal) = choose|high: PollView, normal: PollView|
                    (self@, step@) == #[trigger] old(self)@.polled(high, normal);
                assert((self@, step@) == old(self)@.step(high, normal));
            }
            step
        }
    }
}

} // verus!
