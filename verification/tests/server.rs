use hope::event::Event;
use hope::eventcmd::EventCmd;
use hope::info::Info;
use hope::server::{Outcome, Report, ServerState, Work};
use hope::wire::DecodeError;

const MINIMAL: &str = "pRet=1\npRetStr=OK\nwRet=0\nwRetStr=OK\nsongDuration=0\nsongPlayed=0\nrating=0\nstationCount=0\n";

fn userlogin() -> Event {
    let eventcmd = EventCmd::from_str("userlogin").expect("a token of the set");
    let info = Info::from_str(MINIMAL).expect("a minimal valid info");
    Event { eventcmd, info }
}

fn every_outcome() -> Vec<Outcome> {
    vec![
        Outcome::Bound,
        Outcome::BindFailed,
        Outcome::Accepted,
        Outcome::AcceptFailed,
        Outcome::Message(userlogin().encode_bytes()),
        Outcome::Message(b"lolwut".to_vec()),
        Outcome::Message(vec![0xff, 0xfe]),
        Outcome::ReadFailed,
    ]
}

#[test]
fn each_state_asks_for_its_work() {
    assert_eq!(ServerState::new(), ServerState::Idle);
    assert_eq!(ServerState::Idle.work(), Work::Bind);
    assert_eq!(ServerState::AwaitingConnection.work(), Work::Accept);
    assert_eq!(ServerState::ReadingMessage.work(), Work::Read);
    assert_eq!(ServerState::Stopped.work(), Work::Stop);
}

#[test]
fn userlogin_travels_from_client_to_consumer() {
    let event = userlogin();
    let sent = event.encode_bytes();
    assert_eq!(sent, event.encode().into_bytes());
    let state = ServerState::new();
    let (state, report) = state.step(Outcome::Bound);
    assert_eq!((state, report), (ServerState::AwaitingConnection, Report::Nothing));
    let (state, report) = state.step(Outcome::Accepted);
    assert_eq!((state, report), (ServerState::ReadingMessage, Report::Nothing));
    let (state, report) = state.step(Outcome::Message(sent));
    assert_eq!(state, ServerState::AwaitingConnection);
    assert_eq!(report, Report::Received(event));
}

#[test]
fn invalid_payload_is_rejected_and_the_next_connection_is_served() {
    let state = ServerState::ReadingMessage;
    let (state, report) = state.step(Outcome::Message(b"not an event".to_vec()));
    assert_eq!(report, Report::Rejected(DecodeError));
    assert_eq!(state, ServerState::AwaitingConnection);
    assert_eq!(state.work(), Work::Accept);
    let (state, _) = state.step(Outcome::Accepted);
    let (state, report) = state.step(Outcome::Message(userlogin().encode_bytes()));
    assert_eq!(report, Report::Received(userlogin()));
    assert_eq!(state, ServerState::AwaitingConnection);
}

#[test]
fn empty_payload_is_rejected() {
    let (state, report) = ServerState::ReadingMessage.step(Outcome::Message(Vec::new()));
    assert_eq!((state, report), (ServerState::AwaitingConnection, Report::Rejected(DecodeError)));
}

#[test]
fn payload_that_is_no_utf8_is_rejected() {
    let mut payload = userlogin().encode_bytes();
    let last = payload.len() - 1;
    payload.insert(last, 0xff);
    let (state, report) = ServerState::ReadingMessage.step(Outcome::Message(payload));
    assert_eq!((state, report), (ServerState::AwaitingConnection, Report::Rejected(DecodeError)));
}

#[test]
fn failure_to_bind_stops_the_server() {
    let (state, report) = ServerState::Idle.step(Outcome::BindFailed);
    assert_eq!((state, report), (ServerState::Stopped, Report::TransportFailed));
    assert_eq!(state.work(), Work::Stop);
    for outcome in every_outcome() {
        assert_eq!(state.step(outcome), (ServerState::Stopped, Report::Nothing));
    }
}

#[test]
fn failure_on_a_connection_is_told_and_the_server_goes_on() {
    let (state, report) = ServerState::AwaitingConnection.step(Outcome::AcceptFailed);
    assert_eq!((state, report), (ServerState::AwaitingConnection, Report::TransportFailed));
    let (state, report) = ServerState::ReadingMessage.step(Outcome::ReadFailed);
    assert_eq!((state, report), (ServerState::AwaitingConnection, Report::TransportFailed));
}

#[test]
fn serving_server_goes_on_serving() {
    for state in [ServerState::AwaitingConnection, ServerState::ReadingMessage] {
        for outcome in every_outcome() {
            let (next, _) = state.step(outcome);
            assert!(
                next == ServerState::AwaitingConnection || next == ServerState::ReadingMessage
            );
        }
    }
}

#[test]
fn outcome_of_other_work_changes_nothing() {
    let unexpected = [
        (ServerState::Idle, Outcome::Accepted),
        (ServerState::Idle, Outcome::AcceptFailed),
        (ServerState::Idle, Outcome::Message(userlogin().encode_bytes())),
        (ServerState::Idle, Outcome::ReadFailed),
        (ServerState::AwaitingConnection, Outcome::Bound),
        (ServerState::AwaitingConnection, Outcome::BindFailed),
        (ServerState::AwaitingConnection, Outcome::Message(userlogin().encode_bytes())),
        (ServerState::AwaitingConnection, Outcome::ReadFailed),
        (ServerState::ReadingMessage, Outcome::Bound),
        (ServerState::ReadingMessage, Outcome::BindFailed),
        (ServerState::ReadingMessage, Outcome::Accepted),
        (ServerState::ReadingMessage, Outcome::AcceptFailed),
    ];
    for (state, outcome) in unexpected {
        assert_eq!(state.step(outcome), (state, Report::Nothing));
    }
}
