//! The queue between the producer of a response and its consumer.
use vstd::prelude::*;
use crate::types;
use crate::types::{
    AssistantMessage, AssistantMessageEvent, AssistantView, EventView, Message, MessageView,
};
use crate::views;

verus! {

broadcast use crate::views::group_views;

/// What a consumer gets when it asks for the next event.
pub enum NextEvent<T> {
    Ready(T),
    /// Nothing yet.
    Pending,
    /// Nothing any more.
    Finished,
}

pub enum NextEventView<E> {
    Ready(E),
    Pending,
    Finished,
}

impl<T: View> View for NextEvent<T> {
    type V = NextEventView<T::V>;

    open spec fn view(&self) -> NextEventView<T::V> {
        match *self {
            NextEvent::Ready(e) => NextEventView::Ready(e@),
            NextEvent::Pending => NextEventView::Pending,
            NextEvent::Finished => NextEventView::Finished,
        }
    }
}

/// Events that were not read yet, and what they come to.
pub struct EventStream<T, R> {
    queue: Vec<T>,
    done: bool,
    result: Option<R>,
}

/// The events of a response, which come to its message.
pub type AssistantMessageEventStream = EventStream<AssistantMessageEvent, AssistantMessage>;

/// What an [`EventStream`] means.
#[verifier::ext_equal]
pub struct StreamView<E, O> {
    pub queue: Seq<E>,
    pub done: bool,
    pub result: Option<O>,
}

impl<T: View, R: View> View for EventStream<T, R> {
    type V = StreamView<T::V, R::V>;

    closed spec fn view(&self) -> StreamView<T::V, R::V> {
        StreamView {
            queue: views::all(self.queue@),
            done: self.done,
            result: views::opt(self.result),
        }
    }
}

/// A stream that holds nothing and has not ended.
pub open spec fn empty_stream<E, O>() -> StreamView<E, O> {
    StreamView { queue: Seq::empty(), done: false, result: None }
}

/// Whether an event is the last of its stream.
pub open spec fn is_final(event: EventView) -> bool {
    event is Done || event is Error
}

/// The outcome that a final event carries. An error comes as a message of
/// nobody's, made at `timestamp`.
pub open spec fn outcome(event: EventView, timestamp: i64) -> Option<MessageView> {
    match event {
        EventView::Done { message, .. } => Some(message),
        EventView::Error { reason, error } => Some(
            MessageView::Assistant(
                AssistantView {
                    stop_reason: Some(reason),
                    error_message: Some(error),
                    ..types::empty_assistant("unknown"@, "unknown"@, timestamp)
                },
            ),
        ),
        _ => None,
    }
}

/// The stream behind one more event. One that is final, which is one with an outcome, ends
/// the stream; a stream that is done takes no event.
pub open spec fn pushed_with<E, O>(stream: StreamView<E, O>, event: E, outcome: Option<O>) -> StreamView<
    E,
    O,
> {
    if stream.done {
        stream
    } else if outcome is Some {
        StreamView { queue: stream.queue.push(event), done: true, result: outcome }
    } else {
        StreamView { queue: stream.queue.push(event), ..stream }
    }
}

/// The stream of a response behind one more event.
pub open spec fn pushed(
    stream: StreamView<EventView, MessageView>,
    event: EventView,
    timestamp: i64,
) -> StreamView<EventView, MessageView> {
    pushed_with(stream, event, outcome(event, timestamp))
}

fn outcome_exec(event: &AssistantMessageEvent, timestamp: i64) -> (r: Option<AssistantMessage>)
    ensures
        views::opt(r) == outcome(event@, timestamp),
{
    match event {
        AssistantMessageEvent::Done { message, .. } => Some(message.clone()),
        AssistantMessageEvent::Error { reason, error } => {
            let m: Message = Message::assistant_default(
                "unknown".to_owned(),
                "unknown".to_owned(),
                timestamp,
            );
            Some(
                m.with_stop_reason(Some(reason.clone())).with_error_message(error.clone()),
            )
        },
        _ => None,
    }
}

/// An empty stream of a response.
pub fn create_assistant_message_event_stream() -> (r: AssistantMessageEventStream)
    ensures
        r@ == empty_stream::<EventView, MessageView>(),
{
    EventStream::new()
}

impl EventStream<AssistantMessageEvent, AssistantMessage> {
    /// Adds an event. A final event ends the stream and gives its outcome; an
    /// event behind the end is dropped.
    pub fn push(&mut self, event: AssistantMessageEvent, timestamp: i64)
        ensures
            final(self)@ == pushed(old(self)@, event@, timestamp),
    {
        let outcome: Option<AssistantMessage> = outcome_exec(&event, timestamp);
        self.push_with(event, outcome);
    }
}

impl<T: View, R: View> EventStream<T, R> {
    /// An empty stream.
    pub fn new() -> (r: EventStream<T, R>)
        ensures
            r@ == empty_stream::<T::V, R::V>(),
    {
        let r: EventStream<T, R> = EventStream { queue: Vec::new(), done: false, result: None };
        assert(r@.queue =~= Seq::<T::V>::empty());
        r
    }

    /// Adds an event, with an outcome where it is a final one.
    pub fn push_with(&mut self, event: T, outcome: Option<R>)
        ensures
            final(self)@ == pushed_with(old(self)@, event@, views::opt(outcome)),
    {
        if self.done {
            return;
        }
        let ghost before = views::all(self.queue@);
        if outcome.is_some() {
            self.done = true;
            self.result = outcome;
        }
        self.queue.push(event);
        assert(views::all(self.queue@) =~= before.push(event@));
    }

    /// Ends the stream, with an outcome where there is one.
    pub fn end(&mut self, result: Option<R>)
        ensures
            final(self)@ == (StreamView {
                queue: old(self)@.queue,
                done: true,
                result: views::first_of(views::opt(result), old(self)@.result),
            }),
    {
        self.done = true;
        match result {
            Some(m) => {
                self.result = Some(m);
            },
            None => {},
        }
    }

    /// Takes the next event out.
    pub fn poll_next(&mut self) -> (r: NextEvent<T>)
        ensures
            ({
                let before = old(self)@;
                if before.queue.len() > 0 {
                    &&& r@ == NextEventView::Ready(before.queue[0])
                    &&& final(self)@ == (StreamView { queue: before.queue.drop_first(), ..before })
                } else {
                    &&& r@ == (if before.done {
                        NextEventView::<T::V>::Finished
                    } else {
                        NextEventView::<T::V>::Pending
                    })
                    &&& final(self)@ == before
                }
            }),
    {
        if self.queue.len() > 0 {
            let ghost before = self.queue@;
            let event = self.queue.remove(0);
            assert(views::all(self.queue@) =~= views::all(before).drop_first());
            NextEvent::Ready(event)
        } else if self.done {
            NextEvent::Finished
        } else {
            NextEvent::Pending
        }
    }

    /// The outcome, once there is one.
    pub fn result(&self) -> (r: Option<&R>)
        ensures
            match r {
                Some(o) => self@.result == Some(o@),
                None => self@.result is None,
            },
    {
        self.result.as_ref()
    }
}

/// Several events, one after the other.
pub open spec fn pushed_all(
    stream: StreamView<EventView, MessageView>,
    events: Seq<EventView>,
    timestamp: i64,
) -> StreamView<EventView, MessageView>
    decreases events.len(),
{
    if events.len() == 0 {
        stream
    } else {
        pushed(pushed_all(stream, events.drop_last(), timestamp), events.last(), timestamp)
    }
}

/// A stream that has ended takes no more events and keeps its outcome.
pub proof fn law_done_stream_is_closed<E, O>(
    stream: StreamView<E, O>,
    event: E,
    outcome: Option<O>,
)
    requires
        stream.done,
    ensures
        pushed_with(stream, event, outcome) == stream,
{
}

/// Events come out in the order in which they went in, and none is lost before
/// the first final one.
pub proof fn law_stream_keeps_order(
    stream: StreamView<EventView, MessageView>,
    events: Seq<EventView>,
    timestamp: i64,
)
    requires
        !stream.done,
        forall|i: int| 0 <= i < events.len() - 1 ==> !is_final(#[trigger] events[i]),
    ensures
        pushed_all(stream, events, timestamp).queue == stream.queue + events,
        pushed_all(stream, events, timestamp).done == (events.len() > 0 && is_final(events.last())),
    decreases events.len(),
{
    if events.len() > 0 {
        let init = events.drop_last();
        law_stream_keeps_order(stream, init, timestamp);
        assert(stream.queue + events =~= (stream.queue + init).push(events.last()));
        if init.len() > 0 {
            assert(!is_final(events[events.len() - 2]));
        }
    } else {
        assert(stream.queue + events =~= stream.queue);
    }
}

/// The end of a response gives its message, and a failure gives a message that says what went
/// wrong; every other event leaves the stream open, and every event is there to be read.
pub proof fn law_final_event_gives_the_outcome(
    stream: StreamView<EventView, MessageView>,
    event: EventView,
    reason: Seq<char>,
    message: MessageView,
    error: Seq<char>,
    timestamp: i64,
)
    requires
        !stream.done,
    ensures
        pushed(stream, event, timestamp).queue == stream.queue.push(event),
        event == (EventView::Done { reason, message }) ==> {
            let s = pushed(stream, event, timestamp);
            s.done && s.result == Some(message)
        },
        event == (EventView::Error { reason, error }) ==> {
            let s = pushed(stream, event, timestamp);
            &&& s.done
            &&& s.result is Some
            &&& s.result->0 is Assistant
            &&& s.result->0->Assistant_0.stop_reason == Some(reason)
            &&& s.result->0->Assistant_0.error_message == Some(error)
            &&& s.result->0->Assistant_0.content.len() == 0
            &&& s.result->0->Assistant_0.timestamp == timestamp
        },
        !(event is Done) && !(event is Error) ==> !pushed(stream, event, timestamp).done && pushed(
            stream,
            event,
            timestamp,
        ).result == stream.result,
{
}

} // verus!
