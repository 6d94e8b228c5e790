use chat_relay::hub::Hub;
use chat_relay::probe::{conclude, Availability, ProbeOutcome};
use chat_relay::session::{
    Directive, Event, Phase, Session, ANSWER_PREFIX, GREETING, OFFLINE_NOTICE, PROMPT_PREFIX,
};

const TARGET: [u8; 6] = [0x0F, 0x1E, 0x2D, 0x3C, 0x4B, 0x5A];

fn drain(hub: &mut Hub, id: u64) -> Vec<String> {
    let mut seen = Vec::new();
    while let Some(message) = hub.receive(id) {
        seen.push(message);
    }
    seen
}

fn active(hub: &mut Hub) -> Session {
    let mut session = Session::connect(hub).unwrap();
    assert_eq!(session.step(hub, Event::Upgraded), Directive::AwaitFrame);
    session
}

fn streaming(hub: &mut Hub, text: &str) -> Session {
    let mut session = active(hub);
    assert_eq!(session.step(hub, Event::Text(text.to_string())), Directive::Probe);
    let directive = session.step(hub, Event::Probed(Availability::Available));
    assert!(matches!(directive, Directive::Request(_)));
    assert_eq!(session.step(hub, Event::Responded(200)), Directive::AwaitChunk);
    session
}

#[test]
fn notices_are_verbatim() {
    assert_eq!(GREETING, "Connected...");
    assert_eq!(PROMPT_PREFIX, "\n\nYou: ");
    assert_eq!(ANSWER_PREFIX, "\n\nOllama: ");
    assert_eq!(
        OFFLINE_NOTICE,
        "System: Ollama server is offline...wait for ping to wake server and try again in 10 seconds "
    );
}

#[test]
fn connect_subscribes_with_a_new_conversation() {
    let mut hub = Hub::new(32);
    let session = Session::connect(&mut hub).unwrap();
    assert_eq!(session.phase(), Phase::Connected);
    assert_eq!(session.context(), &Vec::<i64>::new());
    assert!(hub.is_subscribed(session.subscription()));
    assert_eq!(hub.pending_count(session.subscription()), 0);
}

#[test]
fn hello_turn_publishes_in_order_and_keeps_the_context() {
    let mut hub = Hub::new(32);
    let mut session = Session::connect(&mut hub).unwrap();
    let id = session.subscription();
    assert_eq!(session.step(&mut hub, Event::Upgraded), Directive::AwaitFrame);
    assert_eq!(
        session.step(&mut hub, Event::Text("hello".to_string())),
        Directive::Probe
    );
    let verdict = conclude(ProbeOutcome::Answered, &TARGET);
    assert!(verdict.wake.is_none());
    assert_eq!(
        session.step(&mut hub, Event::Probed(verdict.availability)),
        Directive::Request("{\"model\":\"llama2-uncensored\",\"prompt\":\"hello\"}".to_string())
    );
    assert_eq!(session.step(&mut hub, Event::Responded(200)), Directive::AwaitChunk);
    assert_eq!(
        session.step(
            &mut hub,
            Event::Chunk(b"{\"response\":\"hi\"}\n{\"context\":[9]}\n".to_vec())
        ),
        Directive::AwaitChunk
    );
    assert_eq!(session.step(&mut hub, Event::StreamEnded), Directive::AwaitFrame);
    assert_eq!(
        drain(&mut hub, id),
        vec![
            "Connected...".to_string(),
            "\n\nYou: hello".to_string(),
            "\n\nOllama: ".to_string(),
            "hi".to_string(),
        ]
    );
    assert_eq!(session.context(), &vec![9]);
    assert_eq!(session.phase(), Phase::Idle);
}

#[test]
fn ping_turn_with_timeout_notifies_and_wakes_once() {
    let mut hub = Hub::new(32);
    let mut session = Session::connect(&mut hub).unwrap();
    let id = session.subscription();
    assert_eq!(session.step(&mut hub, Event::Upgraded), Directive::AwaitFrame);
    assert_eq!(
        session.step(&mut hub, Event::Text("ping".to_string())),
        Directive::Probe
    );
    let verdict = conclude(ProbeOutcome::TimedOut, &TARGET);
    assert_eq!(verdict.wake.iter().count(), 1);
    assert_eq!(
        session.step(&mut hub, Event::Probed(verdict.availability)),
        Directive::AwaitFrame
    );
    assert_eq!(
        drain(&mut hub, id),
        vec![
            "Connected...".to_string(),
            "\n\nYou: ping".to_string(),
            "System: Ollama server is offline...wait for ping to wake server and try again in 10 seconds "
                .to_string(),
        ]
    );
    assert_eq!(session.context(), &Vec::<i64>::new());
    assert_eq!(session.phase(), Phase::Idle);
}

#[test]
fn refused_backend_notifies_without_wake() {
    let mut hub = Hub::new(32);
    let mut session = active(&mut hub);
    let id = session.subscription();
    assert_eq!(session.step(&mut hub, Event::Text("ping".to_string())), Directive::Probe);
    let verdict = conclude(ProbeOutcome::Refused, &TARGET);
    assert!(verdict.wake.is_none());
    assert_eq!(
        session.step(&mut hub, Event::Probed(verdict.availability)),
        Directive::AwaitFrame
    );
    assert_eq!(drain(&mut hub, id).last().unwrap(), OFFLINE_NOTICE);
}

#[test]
fn context_of_one_turn_is_sent_with_the_next() {
    let mut hub = Hub::new(32);
    let mut session = streaming(&mut hub, "first");
    session.step(&mut hub, Event::Chunk(b"{\"response\":\"a\"}\n{\"context\":[1,2,3]}\n".to_vec()));
    assert_eq!(session.step(&mut hub, Event::StreamEnded), Directive::AwaitFrame);
    assert_eq!(session.step(&mut hub, Event::Text("second".to_string())), Directive::Probe);
    assert_eq!(
        session.step(&mut hub, Event::Probed(Availability::Available)),
        Directive::Request(
            "{\"context\":[1,2,3],\"model\":\"llama2-uncensored\",\"prompt\":\"second\"}"
                .to_string()
        )
    );
}

#[test]
fn answer_without_context_leaves_the_context() {
    let mut hub = Hub::new(32);
    let mut session = streaming(&mut hub, "first");
    session.step(&mut hub, Event::Chunk(b"{\"context\":[4]}\n".to_vec()));
    session.step(&mut hub, Event::StreamEnded);
    assert_eq!(session.step(&mut hub, Event::Text("second".to_string())), Directive::Probe);
    session.step(&mut hub, Event::Probed(Availability::Available));
    session.step(&mut hub, Event::Responded(200));
    session.step(&mut hub, Event::Chunk(b"{\"response\":\"b\"}\n".to_vec()));
    assert_eq!(session.step(&mut hub, Event::StreamEnded), Directive::AwaitFrame);
    assert_eq!(session.context(), &vec![4]);
}

#[test]
fn all_clients_see_the_whole_conversation() {
    let mut hub = Hub::new(32);
    let watcher = hub.subscribe().unwrap();
    let mut session = streaming(&mut hub, "hi");
    let id = session.subscription();
    session.step(&mut hub, Event::Chunk(b"{\"response\":\"yo\"}\n".to_vec()));
    session.step(&mut hub, Event::StreamEnded);
    let expected = vec![
        "Connected...".to_string(),
        "\n\nYou: hi".to_string(),
        "\n\nOllama: ".to_string(),
        "yo".to_string(),
    ];
    assert_eq!(drain(&mut hub, id), expected);
    assert_eq!(drain(&mut hub, watcher), expected);
}

#[test]
fn deltas_are_published_as_chunks_arrive() {
    let mut hub = Hub::new(32);
    let mut session = streaming(&mut hub, "hi");
    let id = session.subscription();
    drain(&mut hub, id);
    session.step(&mut hub, Event::Chunk(b"{\"response\":\"he".to_vec()));
    assert_eq!(drain(&mut hub, id), Vec::<String>::new());
    session.step(&mut hub, Event::Chunk(b"l\"}\n{\"response\":\"lo\"}\n".to_vec()));
    assert_eq!(drain(&mut hub, id), vec!["hel".to_string(), "lo".to_string()]);
}

#[test]
fn last_line_without_line_break_is_published_at_the_end() {
    let mut hub = Hub::new(32);
    let mut session = streaming(&mut hub, "hi");
    let id = session.subscription();
    drain(&mut hub, id);
    session.step(&mut hub, Event::Chunk(b"{\"response\":\"end\",\"context\":[8]}".to_vec()));
    assert_eq!(drain(&mut hub, id), Vec::<String>::new());
    assert_eq!(session.step(&mut hub, Event::StreamEnded), Directive::AwaitFrame);
    assert_eq!(drain(&mut hub, id), vec!["end".to_string()]);
    assert_eq!(session.context(), &vec![8]);
}

#[test]
fn malformed_line_aborts_the_turn_and_keeps_the_context() {
    let mut hub = Hub::new(32);
    let mut session = streaming(&mut hub, "hi");
    let id = session.subscription();
    assert_eq!(
        session.step(&mut hub, Event::Chunk(b"{\"response\":\"partial\"}\n".to_vec())),
        Directive::AwaitChunk
    );
    assert_eq!(
        session.step(&mut hub, Event::Chunk(b"{\"context\":[1]}\nbroken\n".to_vec())),
        Directive::AwaitFrame
    );
    assert_eq!(session.phase(), Phase::Idle);
    assert_eq!(session.context(), &Vec::<i64>::new());
    assert_eq!(drain(&mut hub, id).last().unwrap(), "partial");
}

#[test]
fn malformed_last_line_aborts_the_turn() {
    let mut hub = Hub::new(32);
    let mut session = streaming(&mut hub, "hi");
    session.step(&mut hub, Event::Chunk(b"{\"context\":[1]}\n{\"resp".to_vec()));
    assert_eq!(session.step(&mut hub, Event::StreamEnded), Directive::AwaitFrame);
    assert_eq!(session.context(), &Vec::<i64>::new());
}

#[test]
fn failed_stream_aborts_the_turn() {
    let mut hub = Hub::new(32);
    let mut session = streaming(&mut hub, "hi");
    session.step(&mut hub, Event::Chunk(b"{\"context\":[1]}\n".to_vec()));
    assert_eq!(session.step(&mut hub, Event::StreamFailed), Directive::AwaitFrame);
    assert_eq!(session.phase(), Phase::Idle);
    assert_eq!(session.context(), &Vec::<i64>::new());
}

#[test]
fn failed_request_aborts_the_turn_silently() {
    let mut hub = Hub::new(32);
    let mut session = active(&mut hub);
    let id = session.subscription();
    session.step(&mut hub, Event::Text("hi".to_string()));
    session.step(&mut hub, Event::Probed(Availability::Available));
    assert_eq!(session.phase(), Phase::Requesting);
    assert_eq!(session.step(&mut hub, Event::RequestFailed), Directive::AwaitFrame);
    assert_eq!(
        drain(&mut hub, id),
        vec!["Connected...".to_string(), "\n\nYou: hi".to_string()]
    );
}

#[test]
fn new_turn_starts_with_a_new_decoder() {
    let mut hub = Hub::new(32);
    let mut session = streaming(&mut hub, "one");
    let id = session.subscription();
    session.step(&mut hub, Event::Chunk(b"{\"response\":\"cut".to_vec()));
    session.step(&mut hub, Event::StreamFailed);
    session.step(&mut hub, Event::Text("two".to_string()));
    session.step(&mut hub, Event::Probed(Availability::Available));
    session.step(&mut hub, Event::Responded(200));
    drain(&mut hub, id);
    assert_eq!(
        session.step(&mut hub, Event::Chunk(b"{\"response\":\"whole\"}\n".to_vec())),
        Directive::AwaitChunk
    );
    assert_eq!(drain(&mut hub, id), vec!["whole".to_string()]);
}

#[test]
fn frame_that_is_no_text_is_passed_over() {
    let mut hub = Hub::new(32);
    let mut session = active(&mut hub);
    let id = session.subscription();
    assert_eq!(session.step(&mut hub, Event::OtherFrame), Directive::AwaitFrame);
    assert_eq!(session.phase(), Phase::Idle);
    assert_eq!(drain(&mut hub, id), vec!["Connected...".to_string()]);
}

#[test]
fn disconnect_closes_the_session() {
    let mut hub = Hub::new(32);
    let mut session = active(&mut hub);
    assert_eq!(session.step(&mut hub, Event::Disconnected), Directive::Stop);
    assert_eq!(session.phase(), Phase::Closed);
    assert_eq!(session.step(&mut hub, Event::Text("late".to_string())), Directive::Stop);
    assert_eq!(session.phase(), Phase::Closed);
    assert!(hub.is_subscribed(session.subscription()));
}

#[test]
fn disconnect_before_upgrade_closes_the_session() {
    let mut hub = Hub::new(32);
    let mut session = Session::connect(&mut hub).unwrap();
    assert_eq!(session.step(&mut hub, Event::Disconnected), Directive::Stop);
    assert_eq!(hub.pending_count(session.subscription()), 0);
}

#[test]
fn event_out_of_turn_closes_the_session() {
    let mut hub = Hub::new(32);
    let mut session = active(&mut hub);
    assert_eq!(session.step(&mut hub, Event::Chunk(b"x".to_vec())), Directive::Stop);
    assert_eq!(session.phase(), Phase::Closed);

    let mut early = Session::connect(&mut hub).unwrap();
    assert_eq!(early.step(&mut hub, Event::Text("hi".to_string())), Directive::Stop);
    assert_eq!(early.phase(), Phase::Closed);
}

#[test]
fn text_that_reaches_nobody_closes_the_session() {
    let mut hub = Hub::new(32);
    let mut session = active(&mut hub);
    assert!(hub.unsubscribe(session.subscription()));
    assert_eq!(session.step(&mut hub, Event::Text("anyone?".to_string())), Directive::Stop);
    assert_eq!(session.phase(), Phase::Closed);
}

#[test]
fn offline_notice_that_reaches_nobody_closes_the_session() {
    let mut hub = Hub::new(32);
    let mut session = active(&mut hub);
    session.step(&mut hub, Event::Text("hi".to_string()));
    assert!(hub.unsubscribe(session.subscription()));
    assert_eq!(
        session.step(&mut hub, Event::Probed(Availability::Unavailable)),
        Directive::Stop
    );
}

#[test]
fn answer_that_reaches_nobody_aborts_the_turn() {
    let mut hub = Hub::new(32);
    let mut session = active(&mut hub);
    session.step(&mut hub, Event::Text("hi".to_string()));
    session.step(&mut hub, Event::Probed(Availability::Available));
    assert!(hub.unsubscribe(session.subscription()));
    assert_eq!(session.step(&mut hub, Event::Responded(200)), Directive::AwaitFrame);
    assert_eq!(session.phase(), Phase::Idle);
}

#[test]
fn delta_that_reaches_nobody_aborts_the_turn() {
    let mut hub = Hub::new(32);
    let mut session = streaming(&mut hub, "hi");
    assert!(hub.unsubscribe(session.subscription()));
    assert_eq!(
        session.step(&mut hub, Event::Chunk(b"{\"context\":[3]}\n".to_vec())),
        Directive::AwaitChunk
    );
    assert_eq!(
        session.step(&mut hub, Event::Chunk(b"{\"response\":\"x\"}\n".to_vec())),
        Directive::AwaitFrame
    );
    assert_eq!(session.context(), &Vec::<i64>::new());
}

#[test]
fn sessions_keep_their_own_context() {
    let mut hub = Hub::new(32);
    let mut first = streaming(&mut hub, "a");
    let mut second = streaming(&mut hub, "b");
    first.step(&mut hub, Event::Chunk(b"{\"context\":[1]}\n".to_vec()));
    second.step(&mut hub, Event::Chunk(b"{\"context\":[2]}\n".to_vec()));
    first.step(&mut hub, Event::StreamEnded);
    second.step(&mut hub, Event::StreamEnded);
    assert_eq!(first.context(), &vec![1]);
    assert_eq!(second.context(), &vec![2]);
}

#[test]
fn status_that_is_no_success_aborts_the_turn_silently() {
    for status in [199u16, 300, 404, 500] {
        let mut hub = Hub::new(32);
        let mut session = active(&mut hub);
        let id = session.subscription();
        session.step(&mut hub, Event::Text("hi".to_string()));
        session.step(&mut hub, Event::Probed(Availability::Available));
        assert_eq!(session.step(&mut hub, Event::Responded(status)), Directive::AwaitFrame);
        assert_eq!(session.phase(), Phase::Idle);
        assert_eq!(
            drain(&mut hub, id),
            vec!["Connected...".to_string(), "\n\nYou: hi".to_string()]
        );
    }
}

#[test]
fn every_success_status_starts_the_answer() {
    for status in [200u16, 204, 299] {
        let mut hub = Hub::new(32);
        let mut session = active(&mut hub);
        session.step(&mut hub, Event::Text("hi".to_string()));
        session.step(&mut hub, Event::Probed(Availability::Available));
        assert_eq!(session.step(&mut hub, Event::Responded(status)), Directive::AwaitChunk);
        assert_eq!(session.phase(), Phase::Streaming);
    }
}
