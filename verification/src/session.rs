//! Connection session: what one client's connection does, event by event.
//!
//! The session decides; its caller acts. Each call of [`Session::step`] takes
//! what has happened (a frame from the client, the verdict of a probe, a chunk
//! of the backend's answer), publishes to the hub what the clients are to see,
//! and returns what is to be done next.

use crate::decoder::{lemma_frame_unbroken, Completion, DecoderView, StreamDecoder};
use crate::hub::{lemma_publication_order, lemma_publish_one, Hub, HubView};
use crate::json::rendered;
use crate::probe::Availability;
use crate::request::{request_body, request_model};
use crate::text::texts;
use vstd::prelude::*;

verus! {

/// Published when a session becomes active.
pub const GREETING: &'static str = "Connected...";

/// Stands before the text of a client, when it is shown to all clients.
pub const PROMPT_PREFIX: &'static str = "\n\nYou: ";

/// Announces the backend's answer.
pub const ANSWER_PREFIX: &'static str = "\n\nOllama: ";

/// Published when the backend cannot be reached.
pub const OFFLINE_NOTICE: &'static str =
    "System: Ollama server is offline...wait for ping to wake server and try again in 10 seconds ";

/// The line that shows the text of a client to all clients.
pub open spec fn prompt_line(text: Seq<char>) -> Seq<char> {
    PROMPT_PREFIX@ + text
}

/// Whether a status says that the backend has taken the request: the
/// statuses from 200 to 299 do.
pub open spec fn is_success(status: u16) -> bool {
    200 <= status <= 299
}

/// What has happened on a connection.
#[derive(Debug, PartialEq, Eq)]
pub enum Event {
    /// The connection has been upgraded.
    Upgraded,
    /// The client has sent a text frame.
    Text(String),
    /// The client has sent a frame that is no text.
    OtherFrame,
    /// Reading from the client has failed, or the client has gone.
    Disconnected,
    /// The probe of the backend has been concluded.
    Probed(Availability),
    /// The backend has answered the request with this status.
    Responded(u16),
    /// The request could not be made.
    RequestFailed,
    /// The next chunk of the answer has arrived.
    Chunk(Vec<u8>),
    /// The answer has ended.
    StreamEnded,
    /// Reading the answer has failed.
    StreamFailed,
}

/// An event as a mathematical value.
pub enum EventView {
    Upgraded,
    Text(Seq<char>),
    OtherFrame,
    Disconnected,
    Probed(Availability),
    Responded(u16),
    RequestFailed,
    Chunk(Seq<u8>),
    StreamEnded,
    StreamFailed,
}

impl View for Event {
    type V = EventView;

    open spec fn view(&self) -> EventView {
        match self {
            Event::Upgraded => EventView::Upgraded,
            Event::Text(text) => EventView::Text(text@),
            Event::OtherFrame => EventView::OtherFrame,
            Event::Disconnected => EventView::Disconnected,
            Event::Probed(availability) => EventView::Probed(*availability),
            Event::Responded(status) => EventView::Responded(*status),
            Event::RequestFailed => EventView::RequestFailed,
            Event::Chunk(chunk) => EventView::Chunk(chunk@),
            Event::StreamEnded => EventView::StreamEnded,
            Event::StreamFailed => EventView::StreamFailed,
        }
    }
}

/// What the caller is to do next.
#[derive(Debug, PartialEq, Eq)]
pub enum Directive {
    /// Read the next frame from the client.
    AwaitFrame,
    /// Probe the backend.
    Probe,
    /// Post the request with this body to the backend.
    Request(String),
    /// Read the next chunk of the answer.
    AwaitChunk,
    /// Stop: the session is closed.
    Stop,
}

/// A directive as a mathematical value.
pub enum DirectiveView {
    AwaitFrame,
    Probe,
    Request(Seq<char>),
    AwaitChunk,
    Stop,
}

impl View for Directive {
    type V = DirectiveView;

    open spec fn view(&self) -> DirectiveView {
        match self {
            Directive::AwaitFrame => DirectiveView::AwaitFrame,
            Directive::Probe => DirectiveView::Probe,
            Directive::Request(body) => DirectiveView::Request(body@),
            Directive::AwaitChunk => DirectiveView::AwaitChunk,
            Directive::Stop => DirectiveView::Stop,
        }
    }
}

/// Where a session stands.
#[derive(Clone, Copy, Debug, PartialEq, Eq, Structural)]
pub enum Phase {
    /// Registered with the hub; the connection is not upgraded yet.
    Connected,
    /// Active, waiting for the client's next text.
    Idle,
    /// Active, waiting for the verdict of the probe.
    Probing,
    /// Active, waiting for the backend to take the request.
    Requesting,
    /// Active, reading the backend's answer.
    Streaming,
    /// Closed.
    Closed,
}

/// Where a session stands, with what it holds there.
pub enum PhaseView {
    Connected,
    Idle,
    Probing { prompt: Seq<char> },
    Requesting,
    Streaming { decoder: DecoderView },
    Closed,
}

/// A session as a mathematical value.
pub struct SessionView {
    /// The identifier under which the session is subscribed to the hub.
    pub subscription: u64,
    /// The context of the client's conversation; empty for a new one.
    pub context: Seq<i64>,
    pub phase: PhaseView,
}

/// A session and the hub after an event, and what is to be done next.
pub struct Step {
    pub session: SessionView,
    pub hub: HubView,
    pub directive: DirectiveView,
}

impl SessionView {
    /// A session that is reading an answer holds a decoder that has not
    /// failed.
    pub open spec fn wf(self) -> bool {
        self.phase matches PhaseView::Streaming { decoder } ==> decoder.wf() && decoder.failure
            is None
    }

    /// The session as it registers.
    pub open spec fn connected(subscription: u64) -> SessionView {
        SessionView { subscription, context: Seq::empty(), phase: PhaseView::Connected }
    }

    /// The session closes.
    pub open spec fn close(self, hub: HubView) -> Step {
        Step {
            session: SessionView { phase: PhaseView::Closed, ..self },
            hub,
            directive: DirectiveView::Stop,
        }
    }

    /// The session waits for the client's next text.
    pub open spec fn rest(self, hub: HubView) -> Step {
        Step {
            session: SessionView { phase: PhaseView::Idle, ..self },
            hub,
            directive: DirectiveView::AwaitFrame,
        }
    }

    /// The session goes on in `phase`.
    pub open spec fn go(self, phase: PhaseView, hub: HubView, directive: DirectiveView) -> Step {
        Step { session: SessionView { phase, ..self }, hub, directive }
    }

    /// What the session does on `event`.
    ///
    /// - Upgraded, it greets and waits for the client.
    /// - A text of the client is shown to all clients, and the backend is
    ///   probed; a frame that is no text is passed over.
    /// - Where the backend is available it is sent the text with the
    ///   conversation's context; where it is not, the clients are told so.
    /// - Once the backend has taken the request its answer is announced, and
    ///   each piece of text is published as its line is complete. A request
    ///   that fails, or is answered with a status that is no success, ends
    ///   the turn and nothing is published.
    /// - At the end of an answer the context that the answer gave, if it gave
    ///   one, becomes the conversation's context. An answer that fails,
    ///   cannot be decoded or reaches no subscriber leaves the context as it
    ///   was.
    /// - The session closes when the client is gone, when the client's text
    ///   or the notice that the backend is offline reaches no subscriber, and
    ///   on an event that is out of turn. Closed, it stays closed.
    pub open spec fn step(self, hub: HubView, event: EventView) -> Step {
        let unheard = hub.subscribers.len() == 0;
        match (self.phase, event) {
            (PhaseView::Closed, _) => self.close(hub),
            (_, EventView::Disconnected) => self.close(hub),
            (PhaseView::Connected, EventView::Upgraded) => self.rest(hub.publish(GREETING@)),
            (PhaseView::Idle, EventView::Text(text)) => if unheard {
                self.close(hub.publish(prompt_line(text)))
            } else {
                self.go(
                    PhaseView::Probing { prompt: text },
                    hub.publish(prompt_line(text)),
                    DirectiveView::Probe,
                )
            },
            (PhaseView::Idle, EventView::OtherFrame) => self.rest(hub),
            (PhaseView::Probing { prompt }, EventView::Probed(Availability::Available)) => self.go(
                PhaseView::Requesting,
                hub,
                DirectiveView::Request(rendered(request_model(prompt, self.context))),
            ),
            (PhaseView::Probing { .. }, EventView::Probed(Availability::Unavailable)) => if unheard {
                self.close(hub.publish(OFFLINE_NOTICE@))
            } else {
                self.rest(hub.publish(OFFLINE_NOTICE@))
            },
            (PhaseView::Requesting, EventView::Responded(status)) => if !is_success(status) {
                self.rest(hub)
            } else if unheard {
                self.rest(hub.publish(ANSWER_PREFIX@))
            } else {
                self.go(
                    PhaseView::Streaming { decoder: DecoderView::fresh() },
                    hub.publish(ANSWER_PREFIX@),
                    DirectiveView::AwaitChunk,
                )
            },
            (PhaseView::Requesting, EventView::RequestFailed) => self.rest(hub),
            (PhaseView::Streaming { decoder }, EventView::Chunk(chunk)) => {
                let fed = decoder.feed(chunk);
                match fed.outcome {
                    Err(_) => self.rest(hub),
                    Ok(deltas) => if deltas.len() > 0 && unheard {
                        self.rest(hub.publish_all(deltas))
                    } else {
                        self.go(
                            PhaseView::Streaming { decoder: fed.decoder },
                            hub.publish_all(deltas),
                            DirectiveView::AwaitChunk,
                        )
                    },
                }
            },
            (PhaseView::Streaming { decoder }, EventView::StreamEnded) => match decoder.finish() {
                Err(_) => self.rest(hub),
                Ok(transcript) => if transcript.deltas.len() > 0 && unheard {
                    self.rest(hub.publish_all(transcript.deltas))
                } else {
                    SessionView {
                        context: match transcript.context {
                            Some(context) => context,
                            None => self.context,
                        },
                        ..self
                    }.rest(hub.publish_all(transcript.deltas))
                },
            },
            (PhaseView::Streaming { .. }, EventView::StreamFailed) => self.rest(hub),
            _ => self.close(hub),
        }
    }
}

/// One client's connection.
pub struct Session {
    subscription: u64,
    context: Vec<i64>,
    phase: Phase,
    prompt: String,
    decoder: StreamDecoder,
}

impl View for Session {
    type V = SessionView;

    closed spec fn view(&self) -> SessionView {
        SessionView {
            subscription: self.subscription,
            context: self.context@,
            phase: match self.phase {
                Phase::Connected => PhaseView::Connected,
                Phase::Idle => PhaseView::Idle,
                Phase::Probing => PhaseView::Probing { prompt: self.prompt@ },
                Phase::Requesting => PhaseView::Requesting,
                Phase::Streaming => PhaseView::Streaming { decoder: self.decoder@ },
                Phase::Closed => PhaseView::Closed,
            },
        }
    }
}

impl Session {
    /// The session's invariant: its view is well formed.
    pub open spec fn wf(&self) -> bool {
        self@.wf()
    }

    /// Registers a session for a new connection with the hub. From now on the
    /// hub queues for it whatever is published. The conversation is new: its
    /// context is empty. `None`, with the hub unchanged, where the hub has no
    /// identifier left to issue.
    pub fn connect(hub: &mut Hub) -> (session: Option<Session>)
        requires
            old(hub).wf(),
        ensures
            final(hub).wf(),
            match session {
                Some(session) => {
                    &&& session.wf()
                    &&& old(hub)@.issued < u64::MAX
                    &&& session@ == SessionView::connected(old(hub)@.issued as u64)
                    &&& final(hub)@ == old(hub)@.subscribe()
                },
                None => old(hub)@.issued == u64::MAX && final(hub)@ == old(hub)@,
            },
    {
        match hub.subscribe() {
            None => None,
            Some(subscription) => Some(
                Session {
                    subscription,
                    context: Vec::new(),
                    phase: Phase::Connected,
                    prompt: String::new(),
                    decoder: StreamDecoder::new(),
                },
            ),
        }
    }

    /// Takes `event`, publishes to `hub` what the clients are to see, and
    /// returns what is to be done next.
    pub fn step(&mut self, hub: &mut Hub, event: Event) -> (directive: Directive)
        requires
            old(self).wf(),
            old(hub).wf(),
        ensures
            final(self).wf(),
            final(hub).wf(),
            (Step { session: final(self)@, hub: final(hub)@, directive: directive@ }) == old(
                self,
            )@.step(old(hub)@, event@),
    {
        let phase = self.phase;
        match (phase, event) {
            (Phase::Closed, _) => Directive::Stop,
            (_, Event::Disconnected) => self.close(),
            (Phase::Connected, Event::Upgraded) => {
                let _ = hub.publish(GREETING);
                self.rest()
            },
            (Phase::Idle, Event::Text(text)) => {
                let mut line = String::from_str(PROMPT_PREFIX);
                line.append(text.as_str());
                let heard: usize = hub.publish(line.as_str());
                if heard == 0 {
                    self.close()
                } else {
                    self.prompt = text;
                    self.phase = Phase::Probing;
                    Directive::Probe
                }
            },
            (Phase::Idle, Event::OtherFrame) => self.rest(),
            (Phase::Probing, Event::Probed(Availability::Available)) => {
                let body = request_body(self.prompt.as_str(), self.context.as_slice());
                self.phase = Phase::Requesting;
                Directive::Request(body)
            },
            (Phase::Probing, Event::Probed(Availability::Unavailable)) => {
                let heard: usize = hub.publish(OFFLINE_NOTICE);
                if heard == 0 {
                    self.close()
                } else {
                    self.rest()
                }
            },
            (Phase::Requesting, Event::Responded(status)) => {
                if status < 200 || status > 299 {
                    return self.rest();
                }
                let heard: usize = hub.publish(ANSWER_PREFIX);
                if heard == 0 {
                    self.rest()
                } else {
                    self.decoder = StreamDecoder::new();
                    self.phase = Phase::Streaming;
                    Directive::AwaitChunk
                }
            },
            (Phase::Requesting, Event::RequestFailed) => self.rest(),
            (Phase::Streaming, Event::Chunk(chunk)) => {
                match self.decoder.feed(chunk.as_slice()) {
                    Err(_) => self.rest(),
                    Ok(deltas) => {
                        let heard: usize = hub.publish_all(&deltas);
                        if deltas.len() > 0 && heard == 0 {
                            self.rest()
                        } else {
                            Directive::AwaitChunk
                        }
                    },
                }
            },
            (Phase::Streaming, Event::StreamEnded) => {
                let mut decoder = StreamDecoder::new();
                std::mem::swap(&mut self.decoder, &mut decoder);
                match decoder.finish() {
                    Err(_) => self.rest(),
                    Ok(completion) => {
                        let Completion { deltas, context } = completion;
                        let heard: usize = hub.publish_all(&deltas);
                        if deltas.len() > 0 && heard == 0 {
                            self.rest()
                        } else {
                            match context {
                                Some(context) => {
                                    self.context = context;
                                },
                                None => {},
                            }
                            self.rest()
                        }
                    },
                }
            },
            (Phase::Streaming, Event::StreamFailed) => self.rest(),
            _ => self.close(),
        }
    }

    /// Closes the session.
    fn close(&mut self) -> (directive: Directive)
        ensures
            directive == Directive::Stop,
            final(self)@ == (SessionView { phase: PhaseView::Closed, ..old(self)@ }),
    {
        self.phase = Phase::Closed;
        Directive::Stop
    }

    /// Lets the session wait for the client's next text.
    fn rest(&mut self) -> (directive: Directive)
        ensures
            directive == Directive::AwaitFrame,
            final(self)@ == (SessionView { phase: PhaseView::Idle, ..old(self)@ }),
    {
        self.phase = Phase::Idle;
        Directive::AwaitFrame
    }

    /// Where the session stands.
    pub fn phase(&self) -> (phase: Phase)
        ensures
            phase == match self@.phase {
                PhaseView::Connected => Phase::Connected,
                PhaseView::Idle => Phase::Idle,
                PhaseView::Probing { .. } => Phase::Probing,
                PhaseView::Requesting => Phase::Requesting,
                PhaseView::Streaming { .. } => Phase::Streaming,
                PhaseView::Closed => Phase::Closed,
            },
    {
        self.phase
    }

    /// The context of the client's conversation.
    pub fn context(&self) -> (context: &Vec<i64>)
        ensures
            context@ == self@.context,
    {
        &self.context
    }

    /// The identifier under which the session is subscribed to the hub.
    pub fn subscription(&self) -> (subscription: u64)
        ensures
            subscription == self@.subscription,
    {
        self.subscription
    }
}

/// A step keeps a well-formed session and a well-formed hub well formed, and
/// the session keeps its subscription.
pub proof fn lemma_step_wf(session: SessionView, hub: HubView, event: EventView)
    requires
        session.wf(),
        hub.wf(),
    ensures
        session.step(hub, event).session.wf(),
        session.step(hub, event).hub.wf(),
        session.step(hub, event).session.subscription == session.subscription,
        session.step(hub, event).hub.subscribers.len() == hub.subscribers.len(),
{
    lemma_publish_one(hub, GREETING@);
    lemma_publication_order(hub, seq![GREETING@]);
    lemma_publish_one(hub, OFFLINE_NOTICE@);
    lemma_publication_order(hub, seq![OFFLINE_NOTICE@]);
    lemma_publish_one(hub, ANSWER_PREFIX@);
    lemma_publication_order(hub, seq![ANSWER_PREFIX@]);
    match (session.phase, event) {
        (PhaseView::Idle, EventView::Text(text)) => {
            lemma_publish_one(hub, prompt_line(text));
            lemma_publication_order(hub, seq![prompt_line(text)]);
        },
        (PhaseView::Streaming { decoder }, EventView::Chunk(chunk)) => {
            lemma_frame_unbroken(decoder.partial + chunk);
            match decoder.feed(chunk).outcome {
                Ok(deltas) => {
                    lemma_publication_order(hub, deltas);
                },
                Err(_) => {},
            }
        },
        (PhaseView::Streaming { decoder }, EventView::StreamEnded) => {
            match decoder.finish() {
                Ok(transcript) => {
                    lemma_publication_order(hub, transcript.deltas);
                },
                Err(_) => {},
            }
        },
        _ => {},
    }
}

/// The context of a conversation changes only at the end of an answer, and
/// then only to the context that the answer gave.
pub proof fn lemma_context(session: SessionView, hub: HubView, event: EventView)
    ensures
        session.step(hub, event).session.context != session.context ==> {
            &&& event is StreamEnded
            &&& session.phase matches PhaseView::Streaming { decoder }
            &&& decoder.finish() matches Ok(transcript)
            &&& transcript.context == Some(session.step(hub, event).session.context)
        },
{
}

/// The order of a turn: the client's text is shown first, then the answer is
/// announced, and only then the pieces of text of the answer follow, in their
/// order. This is what the hub has been sent after the first chunk of an
/// answer to `text`, where some subscriber listens and the backend is
/// available and takes the request.
pub proof fn lemma_turn_order(
    session: SessionView,
    hub: HubView,
    text: Seq<char>,
    status: u16,
    chunk: Seq<u8>,
)
    requires
        session.wf(),
        hub.wf(),
        session.phase == PhaseView::Idle,
        hub.subscribers.len() > 0,
        is_success(status),
    ensures
        ({
            let asked = session.step(hub, EventView::Text(text));
            let probed = asked.session.step(
                asked.hub,
                EventView::Probed(Availability::Available),
            );
            let answered = probed.session.step(probed.hub, EventView::Responded(status));
            let fed = answered.session.step(answered.hub, EventView::Chunk(chunk));
            let announced = hub.publish(prompt_line(text)).publish(ANSWER_PREFIX@);
            &&& asked.directive == DirectiveView::Probe
            &&& probed.directive == DirectiveView::Request(
                rendered(request_model(text, session.context)),
            )
            &&& answered.directive == DirectiveView::AwaitChunk
            &&& answered.hub == announced
            &&& fed.hub == match DecoderView::fresh().feed(chunk).outcome {
                Ok(deltas) => announced.publish_all(deltas),
                Err(_) => announced,
            }
        }),
{
}

} // verus!
