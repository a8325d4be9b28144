//! Relay decisions: dispatch through handlers, termination, and overrides.
use telnet::handler::{Action, Handler, NopHandler, WillHandler};
use telnet::relay::{relay_step, RelayIn};
use telnet::{Cmd, Error, Event, KnownOpt, Opt};

fn io_error() -> Error {
    Error::Io(std::io::Error::new(std::io::ErrorKind::UnexpectedEof, "peer went away"))
}

#[test]
fn nop_relay_forwards_upstream_events_downstream() {
    let mut handler = NopHandler;
    let ev = Event::Data(vec![1, 2, 3]);
    let (acts, go_on) = relay_step(&mut handler, RelayIn::FromUp(ev.clone()));
    assert!(go_on);
    assert_eq!(acts.len(), 1);
    match &acts[0] {
        Action::Down(Ok(got)) => assert_eq!(*got, ev),
        other => panic!("expected a downstream delivery, got {:?}", other),
    }
}

#[test]
fn nop_relay_forwards_downstream_events_upstream() {
    let mut handler = NopHandler;
    let ev = Event::Negotiation(Cmd::DO, Opt::Known(KnownOpt::ECHO));
    let (acts, go_on) = relay_step(&mut handler, RelayIn::FromDown(ev.clone()));
    assert!(go_on);
    assert_eq!(acts.len(), 1);
    match &acts[0] {
        Action::Up(got) => assert_eq!(*got, ev),
        other => panic!("expected an upstream write, got {:?}", other),
    }
}

#[test]
fn relay_stops_on_either_end_of_stream() {
    let mut handler = NopHandler;
    let (acts, go_on) = relay_step(&mut handler, RelayIn::UpClosed);
    assert!(!go_on);
    assert!(acts.is_empty());
    let (acts, go_on) = relay_step(&mut handler, RelayIn::DownClosed);
    assert!(!go_on);
    assert!(acts.is_empty());
}

#[test]
fn upstream_error_is_delivered_once_then_relay_stops() {
    let mut handler = NopHandler;
    let (acts, go_on) = relay_step(&mut handler, RelayIn::UpFailed(io_error()));
    assert!(!go_on);
    assert_eq!(acts.len(), 1);
    match &acts[0] {
        Action::Down(Err(Error::Io(_))) => {}
        other => panic!("expected the failure to go downstream, got {:?}", other),
    }
}

#[test]
fn nop_relay_keeps_order() {
    let mut handler = NopHandler;
    let first = Event::Data(vec![1]);
    let second = Event::Cmd(Cmd::GA);
    let mut delivered: Vec<Event> = Vec::new();
    for input in [RelayIn::FromUp(first.clone()), RelayIn::FromUp(second.clone())] {
        let (acts, go_on) = relay_step(&mut handler, input);
        assert!(go_on);
        for act in acts {
            match act {
                Action::Down(Ok(ev)) => delivered.push(ev),
                other => panic!("expected downstream deliveries, got {:?}", other),
            }
        }
    }
    assert_eq!(delivered, vec![first, second]);
}

#[test]
fn will_handler_answers_negotiations_locally() {
    let mut handler = WillHandler;
    let attempts = [
        (Cmd::DO, Opt::Known(KnownOpt::ECHO)),
        (Cmd::DONT, Opt::Known(KnownOpt::NAWS)),
        (Cmd::WONT, Opt::Unknown(0x90)),
    ];
    for (verb, opt) in attempts {
        let (acts, go_on) =
            relay_step(&mut handler, RelayIn::FromDown(Event::Negotiation(verb, opt)));
        assert!(go_on);
        assert_eq!(acts.len(), 1);
        match &acts[0] {
            Action::Down(Ok(Event::Negotiation(answer, answered))) => {
                assert_eq!(*answer, Cmd::WILL);
                assert_eq!(*answered, opt);
            }
            other => panic!("expected a local WILL answer, got {:?}", other),
        }
        for act in &acts {
            assert!(!matches!(act, Action::Up(Event::Negotiation(_, _))));
        }
    }
}

#[test]
fn will_handler_still_forwards_other_events() {
    let mut handler = WillHandler;
    let ev = Event::Data(vec![7, 8]);
    let (acts, _) = relay_step(&mut handler, RelayIn::FromDown(ev.clone()));
    assert_eq!(acts.len(), 1);
    match &acts[0] {
        Action::Up(got) => assert_eq!(*got, ev),
        other => panic!("expected an upstream write, got {:?}", other),
    }
}

#[test]
fn handler_dispatch_routes_by_variant() {
    let mut handler = NopHandler;
    let subneg = Event::Subnegotiation(Opt::Known(KnownOpt::TERMINAL_TYPE), vec![1]);
    let acts = handler.send_event(subneg.clone());
    assert_eq!(acts.len(), 1);
    match &acts[0] {
        Action::Up(got) => assert_eq!(*got, subneg),
        other => panic!("expected an upstream write, got {:?}", other),
    }
    let acts = handler.receive_event(subneg.clone());
    match &acts[0] {
        Action::Down(Ok(got)) => assert_eq!(*got, subneg),
        other => panic!("expected a downstream delivery, got {:?}", other),
    }
}
